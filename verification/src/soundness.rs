//! The laws of the index. Exclusion is only ever an optimization: this
//! module states what a predicate means on a real row, in three-valued
//! logic with null semantics, and proves that a page excluded by the
//! summaries holds no row satisfying the predicate, that the global bound
//! is the reduction of the per-page bounds, that the build is
//! deterministic, and that tightening a range never increases the pages
//! left to scan.

use vstd::prelude::*;

use crate::block::spec_find_col;
use crate::block::ColumnView;
use crate::builder::spec_build_entry;
use crate::builder::spec_build_key;
use crate::builder::spec_create_index;
use crate::evaluator::entry_at;
use crate::evaluator::find_schema_from;
use crate::evaluator::invert_op;
use crate::evaluator::lemma_scan_pages_upto_props;
use crate::evaluator::spec_excl_cmp;
use crate::evaluator::spec_excluded_at;
use crate::evaluator::spec_find_schema;
use crate::evaluator::spec_page_count;
use crate::evaluator::spec_scan_pages;
use crate::evaluator::CompareOp;
use crate::evaluator::Predicate;
use crate::index::is_sentinel;
use crate::index::EntryView;
use crate::index::ErrorView;
use crate::index::MinMaxView;
use crate::index::SchemaView;
use crate::scanner::lemma_scan_bounds;
use crate::scanner::spec_scan_vals;
use crate::value::comparable;
use crate::value::lemma_val_le_antisymm;
use crate::value::lemma_val_le_refl;
use crate::value::lemma_val_le_total;
use crate::value::lemma_val_le_trans;
use crate::value::lemma_val_lt_complement;
use crate::value::val_le;
use crate::value::val_lt;
use crate::value::val_max;
use crate::value::val_min;
use crate::value::Value;
use crate::value::ValueView;

verus! {

/// Three-valued predicate outcome on one row; a row is selected only when
/// the outcome is `True`.
pub enum Tri {
    True,
    False,
    Unknown,
}

pub open spec fn tri_not(t: Tri) -> Tri {
    match t {
        Tri::True => Tri::False,
        Tri::False => Tri::True,
        Tri::Unknown => Tri::Unknown,
    }
}

pub open spec fn tri_and(a: Tri, b: Tri) -> Tri {
    if a is False || b is False {
        Tri::False
    } else if a is True && b is True {
        Tri::True
    } else {
        Tri::Unknown
    }
}

pub open spec fn tri_or(a: Tri, b: Tri) -> Tri {
    if a is True || b is True {
        Tri::True
    } else if a is False && b is False {
        Tri::False
    } else {
        Tri::Unknown
    }
}

/// The value of the named column at one row, if the block has both.
pub open spec fn spec_value_at(cols: Seq<ColumnView>, name: Seq<char>, row: int) -> Option<
    ValueView,
> {
    match spec_find_col(cols, name) {
        None => None,
        Some(c) => if 0 <= row < c.values.len() {
            Some(c.values[row])
        } else {
            None
        },
    }
}

/// One comparison on one row value: unknown when either side is null or
/// the kinds differ, as under SQL null semantics.
pub open spec fn spec_eval_cmp(op: CompareOp, v: ValueView, lit: ValueView) -> Tri {
    if !comparable(v, lit) {
        Tri::Unknown
    } else {
        let b = match op {
            CompareOp::Eq => v == lit,
            CompareOp::NotEq => v != lit,
            CompareOp::Lt => val_lt(v, lit),
            CompareOp::LtEq => val_le(v, lit),
            CompareOp::Gt => val_lt(lit, v),
            CompareOp::GtEq => val_le(lit, v),
        };
        if b {
            Tri::True
        } else {
            Tri::False
        }
    }
}

/// What a predicate means on one row of a block.
pub open spec fn spec_eval(p: Predicate, cols: Seq<ColumnView>, row: int) -> Tri
    decreases p,
{
    match p {
        Predicate::Literal(_) => Tri::Unknown,
        Predicate::ColumnRef(_) => Tri::Unknown,
        Predicate::Comparison(op, col, lit) => match spec_value_at(cols, col@, row) {
            None => Tri::Unknown,
            Some(v) => spec_eval_cmp(op, v, lit@),
        },
        Predicate::IsNull(col) => match spec_value_at(cols, col@, row) {
            None => Tri::Unknown,
            Some(v) => if v is Null {
                Tri::True
            } else {
                Tri::False
            },
        },
        Predicate::IsNotNull(col) => match spec_value_at(cols, col@, row) {
            None => Tri::Unknown,
            Some(v) => if v is Null {
                Tri::False
            } else {
                Tri::True
            },
        },
        Predicate::And(l, r) => tri_and(spec_eval(*l, cols, row), spec_eval(*r, cols, row)),
        Predicate::Or(l, r) => tri_or(spec_eval(*l, cols, row), spec_eval(*r, cols, row)),
        Predicate::Not(inner) => tri_not(spec_eval(*inner, cols, row)),
    }
}

/// An entry soundly summarizes a column's values: an absent null flag is
/// real, a sentinel means the column is all null, and real bounds bound
/// every non-null value.
pub open spec fn summarizes(e: EntryView, vals: Seq<ValueView>) -> bool {
    &&& (!e.has_null ==> forall|i: int| #![trigger vals[i]] 0 <= i < vals.len() ==> !(vals[i]
        is Null))
    &&& (is_sentinel(e) ==> forall|i: int| #![trigger vals[i]] 0 <= i < vals.len() ==> vals[i]
        is Null)
    &&& (!is_sentinel(e) ==> forall|i: int|
        #![trigger vals[i]]
        0 <= i < vals.len() && !(vals[i] is Null) ==> comparable(vals[i], e.min) && comparable(
            vals[i],
            e.max,
        ) && val_le(e.min, vals[i]) && val_le(vals[i], e.max))
}

/// Every record's entry for the judged page soundly summarizes the
/// matching column of the block, wherever both exist.
pub open spec fn entries_summarize(
    schemas: Seq<SchemaView>,
    page: int,
    cols: Seq<ColumnView>,
) -> bool {
    forall|j: int|
        #![trigger schemas[j]]
        0 <= j < schemas.len() ==> match (entry_at(schemas[j], page), spec_find_col(
            cols,
            schemas[j].col,
        )) {
            (Some(e), Some(c)) => summarizes(e, c.values),
            _ => true,
        }
}

proof fn lemma_find_schema_member(schemas: Seq<SchemaView>, name: Seq<char>, i: int)
    requires
        0 <= i,
    ensures
        match find_schema_from(schemas, name, i) {
            Some(s) => exists|j: int|
                0 <= j < schemas.len() && schemas[j] == s && s.col == name,
            None => true,
        },
    decreases schemas.len() - i,
{
    if i >= schemas.len() {
    } else if schemas[i].col == name {
        assert(find_schema_from(schemas, name, i) == Some(schemas[i]));
        assert(0 <= i < schemas.len() && schemas[i] == schemas[i] && schemas[i].col == name);
    } else {
        lemma_find_schema_member(schemas, name, i + 1);
    }
}

proof fn lemma_excl_cmp_sound(op: CompareOp, lit: ValueView, e: EntryView, v: ValueView)
    requires
        spec_excl_cmp(op, lit, e),
        !(v is Null),
        comparable(v, e.min),
        comparable(v, e.max),
        val_le(e.min, v),
        val_le(v, e.max),
    ensures
        spec_eval_cmp(op, v, lit) == Tri::False,
{
    assert(comparable(v, lit));
    match op {
        CompareOp::Eq => {
            if val_lt(lit, e.min) {
                if v == lit {
                    lemma_val_le_antisymm(e.min, v);
                }
            } else {
                if v == lit {
                    lemma_val_le_antisymm(e.max, v);
                }
            }
        },
        CompareOp::NotEq => {
            lemma_val_le_antisymm(v, lit);
        },
        CompareOp::Lt => {
            lemma_val_le_trans(lit, e.min, v);
            if val_lt(v, lit) {
                lemma_val_le_antisymm(v, lit);
            }
        },
        CompareOp::LtEq => {
            if val_le(v, lit) {
                lemma_val_le_trans(e.min, v, lit);
                lemma_val_le_antisymm(e.min, lit);
            }
        },
        CompareOp::Gt => {
            lemma_val_le_trans(v, e.max, lit);
            if val_lt(lit, v) {
                lemma_val_le_antisymm(lit, v);
            }
        },
        CompareOp::GtEq => {
            if val_le(lit, v) {
                lemma_val_le_trans(lit, v, e.max);
                lemma_val_le_antisymm(lit, e.max);
            }
        },
    }
}

proof fn lemma_eval_cmp_invert(op: CompareOp, v: ValueView, lit: ValueView)
    requires
        comparable(v, lit),
    ensures
        spec_eval_cmp(invert_op(op), v, lit) == tri_not(spec_eval_cmp(op, v, lit)),
{
    lemma_val_lt_complement(v, lit);
    lemma_val_lt_complement(lit, v);
}

/// Core per-page law: whenever every consulted entry soundly summarizes
/// its column, an excluded page has no row on which the predicate is
/// `True`.
pub proof fn lemma_excluded_sound_at(
    p: Predicate,
    schemas: Seq<SchemaView>,
    page: int,
    cols: Seq<ColumnView>,
    row: int,
)
    requires
        spec_excluded_at(p, schemas, page),
        entries_summarize(schemas, page, cols),
    ensures
        spec_eval(p, cols, row) != Tri::True,
    decreases p,
{
    match p {
        Predicate::Comparison(op, col, lit) => {
            match spec_find_schema(schemas, col@) {
                None => {},
                Some(s) => {
                    lemma_find_schema_member(schemas, col@, 0);
                    let j = choose|j: int|
                        0 <= j < schemas.len() && schemas[j] == s && s.col == col@;
                    assert(schemas[j] == s);
                    match spec_value_at(cols, col@, row) {
                        None => {},
                        Some(v) => {
                            match spec_find_col(cols, col@) {
                                None => {},
                                Some(c) => {
                                    match entry_at(s, page) {
                                        None => {},
                                        Some(e) => {
                                            assert(summarizes(e, c.values));
                                            assert(spec_excl_cmp(op, lit@, e));
                                            assert(v == c.values[row]);
                                            if !(v is Null) {
                                                assert(comparable(v, e.min));
                                                assert(val_le(e.min, v));
                                                assert(val_le(v, e.max));
                                                lemma_excl_cmp_sound(op, lit@, e, v);
                                                assert(spec_eval_cmp(op, v, lit@) == Tri::False);
                                            } else {
                                                assert(spec_eval_cmp(op, v, lit@) == Tri::Unknown);
                                            }
                                            assert(spec_eval(p, cols, row) == spec_eval_cmp(
                                                op,
                                                v,
                                                lit@,
                                            ));
                                        },
                                    }
                                },
                            }
                        },
                    }
                },
            }
        },
        Predicate::IsNull(col) => {
            match spec_find_schema(schemas, col@) {
                None => {},
                Some(s) => {
                    lemma_find_schema_member(schemas, col@, 0);
                    let j = choose|j: int|
                        0 <= j < schemas.len() && schemas[j] == s && s.col == col@;
                    assert(schemas[j] == s);
                    match spec_value_at(cols, col@, row) {
                        None => {},
                        Some(v) => {
                            match spec_find_col(cols, col@) {
                                None => {},
                                Some(c) => {
                                    match entry_at(s, page) {
                                        None => {},
                                        Some(e) => {
                                            assert(summarizes(e, c.values));
                                            assert(!(v is Null));
                                        },
                                    }
                                },
                            }
                        },
                    }
                },
            }
        },
        Predicate::IsNotNull(col) => {
            match spec_find_schema(schemas, col@) {
                None => {},
                Some(s) => {
                    lemma_find_schema_member(schemas, col@, 0);
                    let j = choose|j: int|
                        0 <= j < schemas.len() && schemas[j] == s && s.col == col@;
                    assert(schemas[j] == s);
                    match spec_value_at(cols, col@, row) {
                        None => {},
                        Some(v) => {
                            match spec_find_col(cols, col@) {
                                None => {},
                                Some(c) => {
                                    match entry_at(s, page) {
                                        None => {},
                                        Some(e) => {
                                            assert(summarizes(e, c.values));
                                            assert(v is Null);
                                        },
                                    }
                                },
                            }
                        },
                    }
                },
            }
        },
        Predicate::And(l, r) => {
            if spec_excluded_at(*l, schemas, page) {
                lemma_excluded_sound_at(*l, schemas, page, cols, row);
            } else {
                lemma_excluded_sound_at(*r, schemas, page, cols, row);
            }
        },
        Predicate::Or(l, r) => {
            lemma_excluded_sound_at(*l, schemas, page, cols, row);
            lemma_excluded_sound_at(*r, schemas, page, cols, row);
        },
        Predicate::Not(inner) => {
            match *inner {
                Predicate::Comparison(op, col, lit) => {
                    match spec_find_schema(schemas, col@) {
                        None => {},
                        Some(s) => {
                            lemma_find_schema_member(schemas, col@, 0);
                            let j = choose|j: int|
                                0 <= j < schemas.len() && schemas[j] == s && s.col == col@;
                            assert(schemas[j] == s);
                            match spec_value_at(cols, col@, row) {
                                None => {},
                                Some(v) => {
                                    match spec_find_col(cols, col@) {
                                        None => {},
                                        Some(c) => {
                                            match entry_at(s, page) {
                                                None => {},
                                                Some(e) => {
                                                    assert(summarizes(e, c.values));
                                                    assert(spec_excl_cmp(invert_op(op), lit@, e));
                                                    assert(v == c.values[row]);
                                                    if !(v is Null) {
                                                        assert(comparable(v, e.min));
                                                        assert(val_le(e.min, v));
                                                        assert(val_le(v, e.max));
                                                        lemma_excl_cmp_sound(
                                                            invert_op(op),
                                                            lit@,
                                                            e,
                                                            v,
                                                        );
                                                        lemma_eval_cmp_invert(op, v, lit@);
                                                        assert(spec_eval_cmp(op, v, lit@)
                                                            == Tri::True);
                                                    } else {
                                                        assert(spec_eval_cmp(op, v, lit@)
                                                            == Tri::Unknown);
                                                    }
                                                    assert(spec_eval(*inner, cols, row)
                                                        == spec_eval_cmp(op, v, lit@));
                                                },
                                            }
                                        },
                                    }
                                },
                            }
                        },
                    }
                },
                _ => {},
            }
        },
        Predicate::Literal(_) => {},
        Predicate::ColumnRef(_) => {},
    }
}

proof fn lemma_bound_widen(mm0: MinMaxView, mm: MinMaxView, vals: Seq<ValueView>)
    requires
        summarizes(EntryView { min: mm0.min, max: mm0.max, page_no: 0, has_null: true }, vals),
        !(mm.min is Null),
        !(mm.max is Null),
        !(mm0.min is Null) && !(mm0.max is Null) ==> comparable(mm.min, mm0.min) && val_le(
            mm.min,
            mm0.min,
        ) && comparable(mm0.max, mm.max) && val_le(mm0.max, mm.max),
    ensures
        summarizes(EntryView { min: mm.min, max: mm.max, page_no: 0, has_null: true }, vals),
{
    let fe0 = EntryView { min: mm0.min, max: mm0.max, page_no: 0, has_null: true };
    let fe = EntryView { min: mm.min, max: mm.max, page_no: 0, has_null: true };
    assert(!is_sentinel(fe));
    if is_sentinel(fe0) {
        assert forall|i: int|
            #![trigger vals[i]]
            0 <= i < vals.len() && !(vals[i] is Null) implies comparable(vals[i], fe.min)
            && comparable(vals[i], fe.max) && val_le(fe.min, vals[i]) && val_le(
            vals[i],
            fe.max,
        ) by {
            assert(vals[i] is Null);
        }
    } else {
        assert forall|i: int|
            #![trigger vals[i]]
            0 <= i < vals.len() && !(vals[i] is Null) implies comparable(vals[i], fe.min)
            && comparable(vals[i], fe.max) && val_le(fe.min, vals[i]) && val_le(
            vals[i],
            fe.max,
        ) by {
            assert(comparable(vals[i], mm0.min));
            assert(val_le(mm0.min, vals[i]));
            assert(val_le(vals[i], mm0.max));
            lemma_val_le_trans(mm.min, mm0.min, vals[i]);
            lemma_val_le_trans(vals[i], mm0.max, mm.max);
        }
    }
}

/// What one successful per-key build guarantees: one entry per block in
/// page order, each entry summarizing its block's column, and the global
/// bound summarizing the column of every block.
proof fn lemma_build_key_summarizes(
    key: Seq<char>,
    blocks: Seq<Seq<ColumnView>>,
    entries: Seq<EntryView>,
    mm: MinMaxView,
)
    requires
        spec_build_key(key, blocks) == Ok::<(Seq<EntryView>, MinMaxView), ErrorView>(
            (entries, mm),
        ),
    ensures
        entries.len() == blocks.len(),
        forall|i: int| 0 <= i < blocks.len() ==> (#[trigger] entries[i]).page_no == i,
        mm.min is Null <==> mm.max is Null,
        !(mm.min is Null) ==> comparable(mm.min, mm.max),
        forall|i: int|
            #![trigger blocks[i]]
            0 <= i < blocks.len() ==> match spec_find_col(blocks[i], key) {
                Some(c) => summarizes(entries[i], c.values) && summarizes(
                    EntryView { min: mm.min, max: mm.max, page_no: 0, has_null: true },
                    c.values,
                ),
                None => false,
            },
    decreases blocks.len(),
{
    if blocks.len() == 0 {
    } else {
        let prefix = blocks.drop_last();
        let n = blocks.len() - 1;
        match spec_build_key(key, prefix) {
            Err(_) => {
                assert(false);
            },
            Ok(acc) => {
                let ents0 = acc.0;
                let mm0 = acc.1;
                lemma_build_key_summarizes(key, prefix, ents0, mm0);
                assert(forall|i: int| 0 <= i < prefix.len() ==> prefix[i] == blocks[i]);
                match spec_find_col(blocks.last(), key) {
                    None => {
                        assert(false);
                    },
                    Some(c) => {
                        match spec_scan_vals(c.values) {
                            None => {
                                assert(false);
                            },
                            Some(st) => {
                                lemma_scan_bounds(c.values, st);
                                let entry = spec_build_entry(st, n);
                                assert(entries == ents0.push(entry));
                                let fe = EntryView {
                                    min: mm.min,
                                    max: mm.max,
                                    page_no: 0,
                                    has_null: true,
                                };
                                if st.all_null {
                                    assert(mm == mm0);
                                    assert(summarizes(entry, c.values));
                                    assert(summarizes(fe, c.values));
                                } else {
                                    assert(!(st.min is Null) && !(st.max is Null));
                                    assert(summarizes(entry, c.values));
                                    // how the merged bound relates to both inputs
                                    if !(mm0.min is Null) {
                                        assert(comparable(mm0.min, st.min));
                                        assert(comparable(mm0.max, st.max));
                                        assert(val_le(mm.min, mm0.min) && val_le(mm.min, st.min))
                                            by {
                                            if val_le(mm0.min, st.min) {
                                                lemma_val_le_refl(mm0.min);
                                            } else {
                                                lemma_val_le_total(mm0.min, st.min);
                                                lemma_val_le_refl(st.min);
                                            }
                                        }
                                        assert(val_le(mm0.max, mm.max) && val_le(st.max, mm.max))
                                            by {
                                            if val_le(st.max, mm0.max) {
                                                lemma_val_le_refl(mm0.max);
                                            } else {
                                                lemma_val_le_total(st.max, mm0.max);
                                                lemma_val_le_refl(st.max);
                                            }
                                        }
                                    } else {
                                        assert(mm.min == st.min && mm.max == st.max);
                                        lemma_val_le_refl(st.min);
                                        lemma_val_le_refl(st.max);
                                    }
                                    // the final bound covers the last block
                                    let mst = MinMaxView { min: st.min, max: st.max };
                                    assert(summarizes(
                                        EntryView {
                                            min: mst.min,
                                            max: mst.max,
                                            page_no: 0,
                                            has_null: true,
                                        },
                                        c.values,
                                    ));
                                    assert(val_le(mm.min, st.min) && val_le(st.max, mm.max)) by {
                                        if mm0.min is Null {
                                            lemma_val_le_refl(st.min);
                                            lemma_val_le_refl(st.max);
                                        }
                                    }
                                    lemma_bound_widen(mst, mm, c.values);
                                }
                                // the final bound covers every earlier block
                                assert forall|i: int|
                                    #![trigger blocks[i]]
                                    0 <= i < n implies match spec_find_col(blocks[i], key) {
                                    Some(c2) => summarizes(entries[i], c2.values) && summarizes(
                                        fe,
                                        c2.values,
                                    ),
                                    None => false,
                                } by {
                                    assert(prefix[i] == blocks[i]);
                                    match spec_find_col(prefix[i], key) {
                                        None => {},
                                        Some(c2) => {
                                            assert(entries[i] == ents0[i]);
                                            if st.all_null {
                                            } else {
                                                lemma_bound_widen(mm0, mm, c2.values);
                                            }
                                        },
                                    }
                                }
                            },
                        }
                    },
                }
            },
        }
    }
}

/// What a successful whole build guarantees, per key: the record carries
/// the key's name and is exactly the per-key build over the blocks.
pub proof fn lemma_create_index_per_key(
    keys: Seq<Seq<char>>,
    blocks: Seq<Seq<ColumnView>>,
    schemas: Seq<SchemaView>,
)
    requires
        spec_create_index(keys, blocks) == Ok::<Seq<SchemaView>, ErrorView>(schemas),
    ensures
        schemas.len() == keys.len(),
        forall|j: int|
            #![trigger schemas[j]]
            0 <= j < keys.len() ==> schemas[j].col == keys[j] && spec_build_key(keys[j], blocks)
                == Ok::<(Seq<EntryView>, MinMaxView), ErrorView>(
                (schemas[j].sparse, schemas[j].min_max),
            ),
    decreases keys.len(),
{
    if keys.len() == 0 {
    } else {
        match spec_create_index(keys.drop_last(), blocks) {
            Err(_) => {
                assert(false);
            },
            Ok(schemas0) => {
                lemma_create_index_per_key(keys.drop_last(), blocks, schemas0);
                assert(forall|j: int|
                    0 <= j < keys.len() - 1 ==> keys.drop_last()[j] == keys[j]);
                assert(forall|j: int|
                    0 <= j < keys.len() - 1 ==> schemas[j] == schemas0[j]);
            },
        }
    }
}

/// Page-level soundness: a page excluded by the summaries of a successful
/// build holds no row on which the predicate evaluates to `True`.
pub proof fn lemma_page_exclusion_sound(
    keys: Seq<Seq<char>>,
    blocks: Seq<Seq<ColumnView>>,
    schemas: Seq<SchemaView>,
    p: Predicate,
    page: int,
    row: int,
)
    requires
        spec_create_index(keys, blocks) == Ok::<Seq<SchemaView>, ErrorView>(schemas),
        0 <= page < blocks.len(),
        spec_excluded_at(p, schemas, page),
    ensures
        spec_eval(p, blocks[page], row) != Tri::True,
{
    lemma_create_summarizes(keys, blocks, schemas, page, page);
    lemma_excluded_sound_at(p, schemas, page, blocks[page], row);
}

/// File-level soundness: when the global bound excludes the whole file,
/// no row of any block satisfies the predicate.
pub proof fn lemma_file_exclusion_sound(
    keys: Seq<Seq<char>>,
    blocks: Seq<Seq<ColumnView>>,
    schemas: Seq<SchemaView>,
    p: Predicate,
    page: int,
    row: int,
)
    requires
        spec_create_index(keys, blocks) == Ok::<Seq<SchemaView>, ErrorView>(schemas),
        0 <= page < blocks.len(),
        spec_excluded_at(p, schemas, -1),
    ensures
        spec_eval(p, blocks[page], row) != Tri::True,
{
    lemma_create_summarizes(keys, blocks, schemas, -1, page);
    lemma_excluded_sound_at(p, schemas, -1, blocks[page], row);
}

proof fn lemma_create_summarizes(
    keys: Seq<Seq<char>>,
    blocks: Seq<Seq<ColumnView>>,
    schemas: Seq<SchemaView>,
    sel: int,
    bi: int,
)
    requires
        spec_create_index(keys, blocks) == Ok::<Seq<SchemaView>, ErrorView>(schemas),
        0 <= bi < blocks.len(),
        sel == -1 || sel == bi,
    ensures
        entries_summarize(schemas, sel, blocks[bi]),
{
    lemma_create_index_per_key(keys, blocks, schemas);
    assert forall|j: int|
        #![trigger schemas[j]]
        0 <= j < schemas.len() implies match (entry_at(schemas[j], sel), spec_find_col(
        blocks[bi],
        schemas[j].col,
    )) {
        (Some(e), Some(c)) => summarizes(e, c.values),
        _ => true,
    } by {
        lemma_build_key_summarizes(keys[j], blocks, schemas[j].sparse, schemas[j].min_max);
        assert(blocks[bi] == blocks[bi]);
        match spec_find_col(blocks[bi], schemas[j].col) {
            None => {},
            Some(c) => {
                if sel == -1 {
                    assert(entry_at(schemas[j], sel) == Some(
                        EntryView {
                            min: schemas[j].min_max.min,
                            max: schemas[j].min_max.max,
                            page_no: 0,
                            has_null: true,
                        },
                    ));
                } else {
                    assert(schemas[j].sparse.len() == blocks.len());
                    assert(entry_at(schemas[j], sel) == Some(schemas[j].sparse[bi]));
                }
            },
        }
    }
}

/// One entry per block, in input order: for every record of a successful
/// build, the page numbers are exactly the block positions.
pub proof fn lemma_sparse_shape(
    keys: Seq<Seq<char>>,
    blocks: Seq<Seq<ColumnView>>,
    schemas: Seq<SchemaView>,
    j: int,
)
    requires
        spec_create_index(keys, blocks) == Ok::<Seq<SchemaView>, ErrorView>(schemas),
        0 <= j < schemas.len(),
    ensures
        schemas.len() == keys.len(),
        schemas[j].col == keys[j],
        schemas[j].sparse.len() == blocks.len(),
        forall|i: int| 0 <= i < blocks.len() ==> (#[trigger] schemas[j].sparse[i]).page_no == i,
{
    lemma_create_index_per_key(keys, blocks, schemas);
    lemma_build_key_summarizes(keys[j], blocks, schemas[j].sparse, schemas[j].min_max);
}

/// The min/max reduction over per-page bounds, skipping sentinel entries.
pub open spec fn spec_reduce_bounds(entries: Seq<EntryView>) -> MinMaxView
    decreases entries.len(),
{
    if entries.len() == 0 {
        MinMaxView { min: ValueView::Null, max: ValueView::Null }
    } else {
        let mm = spec_reduce_bounds(entries.drop_last());
        let e = entries.last();
        if is_sentinel(e) {
            mm
        } else if mm.min is Null {
            MinMaxView { min: e.min, max: e.max }
        } else {
            MinMaxView { min: val_min(mm.min, e.min), max: val_max(mm.max, e.max) }
        }
    }
}

proof fn lemma_build_key_reduction(
    key: Seq<char>,
    blocks: Seq<Seq<ColumnView>>,
    entries: Seq<EntryView>,
    mm: MinMaxView,
)
    requires
        spec_build_key(key, blocks) == Ok::<(Seq<EntryView>, MinMaxView), ErrorView>(
            (entries, mm),
        ),
    ensures
        mm == spec_reduce_bounds(entries),
    decreases blocks.len(),
{
    if blocks.len() == 0 {
        assert(entries =~= Seq::<EntryView>::empty());
    } else {
        match spec_build_key(key, blocks.drop_last()) {
            Err(_) => {
                assert(false);
            },
            Ok(acc) => {
                lemma_build_key_reduction(key, blocks.drop_last(), acc.0, acc.1);
                match spec_find_col(blocks.last(), key) {
                    None => {
                        assert(false);
                    },
                    Some(c) => {
                        match spec_scan_vals(c.values) {
                            None => {
                                assert(false);
                            },
                            Some(st) => {
                                lemma_scan_bounds(c.values, st);
                                let entry = spec_build_entry(st, blocks.len() - 1);
                                assert(entries == acc.0.push(entry));
                                assert(entries.drop_last() =~= acc.0);
                                assert(entries.last() == entry);
                            },
                        }
                    },
                }
            },
        }
    }
}

/// The global bound of every record is exactly the min/max reduction over
/// its non-sentinel per-page bounds.
pub proof fn lemma_min_max_is_reduction(
    keys: Seq<Seq<char>>,
    blocks: Seq<Seq<ColumnView>>,
    schemas: Seq<SchemaView>,
    j: int,
)
    requires
        spec_create_index(keys, blocks) == Ok::<Seq<SchemaView>, ErrorView>(schemas),
        0 <= j < schemas.len(),
    ensures
        schemas[j].min_max == spec_reduce_bounds(schemas[j].sparse),
{
    lemma_create_index_per_key(keys, blocks, schemas);
    lemma_build_key_reduction(keys[j], blocks, schemas[j].sparse, schemas[j].min_max);
}

/// Idempotence: the build is one mathematical function of the views of
/// its inputs, so two successful builds of identical inputs yield
/// structurally equal records. Together with `create_index`'s contract,
/// which pins every run to this function, two calls on equal inputs are
/// equal.
pub proof fn lemma_create_index_idempotent(
    keys: Seq<Seq<char>>,
    blocks: Seq<Seq<ColumnView>>,
    r1: Seq<SchemaView>,
    r2: Seq<SchemaView>,
)
    requires
        spec_create_index(keys, blocks) == Ok::<Seq<SchemaView>, ErrorView>(r1),
        spec_create_index(keys, blocks) == Ok::<Seq<SchemaView>, ErrorView>(r2),
    ensures
        r1 == r2,
{
}

/// Tightening a range never loses an exclusion: every page the summaries
/// exclude under the looser bound they also exclude under the tighter
/// one.
pub proof fn lemma_tighten_excludes_more(
    op: CompareOp,
    col: String,
    a: Value,
    b: Value,
    schemas: Seq<SchemaView>,
    page: int,
)
    requires
        op == CompareOp::Lt || op == CompareOp::LtEq || op == CompareOp::Gt || op
            == CompareOp::GtEq,
        comparable(a@, b@),
        op == CompareOp::Lt || op == CompareOp::LtEq ==> val_le(a@, b@),
        op == CompareOp::Gt || op == CompareOp::GtEq ==> val_le(b@, a@),
        spec_excluded_at(Predicate::Comparison(op, col, b), schemas, page),
    ensures
        spec_excluded_at(Predicate::Comparison(op, col, a), schemas, page),
{
    match spec_find_schema(schemas, col@) {
        None => {
            assert(false);
        },
        Some(s) => {
            match entry_at(s, page) {
                None => {
                    assert(false);
                },
                Some(e) => {
                    assert(spec_excl_cmp(op, b@, e));
                    match op {
                        CompareOp::Lt => {
                            lemma_val_le_trans(a@, b@, e.min);
                        },
                        CompareOp::LtEq => {
                            lemma_val_le_trans(a@, b@, e.min);
                            if a@ == e.min {
                                lemma_val_le_antisymm(b@, e.min);
                            }
                        },
                        CompareOp::Gt => {
                            lemma_val_le_trans(e.max, b@, a@);
                        },
                        CompareOp::GtEq => {
                            lemma_val_le_trans(e.max, b@, a@);
                            if a@ == e.max {
                                lemma_val_le_antisymm(b@, e.max);
                            }
                        },
                        _ => {},
                    }
                },
            }
        },
    }
}

/// Tightening a range never increases the pages left to scan: the scan
/// list of the tighter predicate is contained in that of the looser one.
pub proof fn lemma_tighten_scan_pages(
    op: CompareOp,
    col: String,
    a: Value,
    b: Value,
    schemas: Seq<SchemaView>,
    pg: int,
)
    requires
        op == CompareOp::Lt || op == CompareOp::LtEq || op == CompareOp::Gt || op
            == CompareOp::GtEq,
        comparable(a@, b@),
        op == CompareOp::Lt || op == CompareOp::LtEq ==> val_le(a@, b@),
        op == CompareOp::Gt || op == CompareOp::GtEq ==> val_le(b@, a@),
        0 <= pg < spec_page_count(schemas),
        spec_page_count(schemas) <= usize::MAX,
        spec_scan_pages(Predicate::Comparison(op, col, a), schemas).contains(pg as usize),
    ensures
        spec_scan_pages(Predicate::Comparison(op, col, b), schemas).contains(pg as usize),
{
    let n = spec_page_count(schemas);
    lemma_scan_pages_upto_props(Predicate::Comparison(op, col, a), schemas, n);
    lemma_scan_pages_upto_props(Predicate::Comparison(op, col, b), schemas, n);
    if spec_excluded_at(Predicate::Comparison(op, col, b), schemas, pg) {
        lemma_tighten_excludes_more(op, col, a, b, schemas, pg);
    }
}

} // verus!
