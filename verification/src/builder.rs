//! The index builder: it drives the block scanner across an ordered block
//! sequence, once per requested key column, and folds the per-block bounds
//! into one summary record per key.

use vstd::prelude::*;

use crate::block::spec_find_col;
use crate::block::Block;
use crate::block::ColumnView;
use crate::index::ErrorView;
use crate::index::EntryView;
use crate::index::Index;
use crate::index::IndexError;
use crate::index::IndexSchema;
use crate::index::MinMaxIndex;
use crate::index::MinMaxView;
use crate::index::SchemaView;
use crate::index::SparseIndex;
use crate::index::SparseIndexValue;
use crate::scanner::lemma_scan_bounds;
use crate::scanner::scan;
use crate::scanner::spec_scan_block;
use crate::scanner::spec_scan_vals;
use crate::scanner::ScanError;
use crate::scanner::StatView;
use crate::value::comparable;
use crate::value::compare;
use crate::value::lemma_val_lt_complement;
use crate::value::val_max;
use crate::value::val_min;
use crate::value::Cmp;
use crate::value::Value;
use crate::value::ValueView;

verus! {

/// The sparse entry recorded for one scanned block: real bounds, or a null
/// sentinel entry when the block held no non-null value.
pub open spec fn spec_build_entry(st: StatView, i: int) -> EntryView {
    if st.all_null {
        EntryView { min: ValueView::Null, max: ValueView::Null, page_no: i, has_null: true }
    } else {
        EntryView { min: st.min, max: st.max, page_no: i, has_null: st.has_null }
    }
}

/// Merge one block's bounds into the running global bound; `None` when the
/// column's kind differs across blocks.
pub open spec fn spec_merge_global(mm: MinMaxView, st: StatView) -> Option<MinMaxView> {
    if st.all_null {
        Some(mm)
    } else if mm.min is Null {
        Some(MinMaxView { min: st.min, max: st.max })
    } else if !comparable(mm.min, st.min) {
        None
    } else {
        Some(MinMaxView { min: val_min(mm.min, st.min), max: val_max(mm.max, st.max) })
    }
}

/// The whole build of one key column over an ordered block sequence: the
/// per-block sparse entries in page order, and the global bound folded
/// over them. The first failing block decides the error.
pub open spec fn spec_build_key(key: Seq<char>, blocks: Seq<Seq<ColumnView>>) -> Result<
    (Seq<EntryView>, MinMaxView),
    ErrorView,
>
    decreases blocks.len(),
{
    if blocks.len() == 0 {
        Ok((Seq::empty(), MinMaxView { min: ValueView::Null, max: ValueView::Null }))
    } else {
        match spec_build_key(key, blocks.drop_last()) {
            Err(e) => Err(e),
            Ok(acc) => {
                let i = blocks.len() - 1;
                match spec_find_col(blocks.last(), key) {
                    None => Err(ErrorView::SchemaError { col: key, block: i }),
                    Some(c) => match spec_scan_vals(c.values) {
                        None => Err(ErrorView::TypeMismatch { col: key }),
                        Some(st) => match spec_merge_global(acc.1, st) {
                            None => Err(ErrorView::TypeMismatch { col: key }),
                            Some(mm) => Ok((acc.0.push(spec_build_entry(st, i)), mm)),
                        },
                    },
                }
            },
        }
    }
}

/// The whole build: one summary record per key, in key order. The first
/// failing key decides the error; no partial result is defined.
pub open spec fn spec_create_index(keys: Seq<Seq<char>>, blocks: Seq<Seq<ColumnView>>) -> Result<
    Seq<SchemaView>,
    ErrorView,
>
    decreases keys.len(),
{
    if keys.len() == 0 {
        Ok(Seq::empty())
    } else {
        match spec_create_index(keys.drop_last(), blocks) {
            Err(e) => Err(e),
            Ok(schemas) => match spec_build_key(keys.last(), blocks) {
                Err(e) => Err(e),
                Ok(acc) => Ok(
                    schemas.push(SchemaView { col: keys.last(), min_max: acc.1, sparse: acc.0 }),
                ),
            },
        }
    }
}

proof fn lemma_build_key_err_extends(
    key: Seq<char>,
    blocks: Seq<Seq<ColumnView>>,
    i: int,
    e: ErrorView,
)
    requires
        0 <= i <= blocks.len(),
        spec_build_key(key, blocks.take(i)) == Err::<(Seq<EntryView>, MinMaxView), ErrorView>(e),
    ensures
        spec_build_key(key, blocks) == Err::<(Seq<EntryView>, MinMaxView), ErrorView>(e),
    decreases blocks.len() - i,
{
    if i == blocks.len() {
        assert(blocks.take(i) =~= blocks);
    } else {
        assert(blocks.take(i + 1).drop_last() =~= blocks.take(i));
        assert(blocks.take(i + 1).len() != 0);
        lemma_build_key_err_extends(key, blocks, i + 1, e);
    }
}

proof fn lemma_create_index_err_extends(
    keys: Seq<Seq<char>>,
    blocks: Seq<Seq<ColumnView>>,
    j: int,
    e: ErrorView,
)
    requires
        0 <= j <= keys.len(),
        spec_create_index(keys.take(j), blocks) == Err::<Seq<SchemaView>, ErrorView>(e),
    ensures
        spec_create_index(keys, blocks) == Err::<Seq<SchemaView>, ErrorView>(e),
    decreases keys.len() - j,
{
    if j == keys.len() {
        assert(keys.take(j) =~= keys);
    } else {
        assert(keys.take(j + 1).drop_last() =~= keys.take(j));
        assert(keys.take(j + 1).len() != 0);
        lemma_create_index_err_extends(keys, blocks, j + 1, e);
    }
}

fn build_key(key: &String, blocks: &[Block]) -> (r: Result<IndexSchema, IndexError>)
    ensures
        match r {
            Ok(s) => spec_build_key(key@, blocks.deep_view()) == Ok::<
                (Seq<EntryView>, MinMaxView),
                ErrorView,
            >((s@.sparse, s@.min_max)) && s@.col == key@,
            Err(e) => spec_build_key(key@, blocks.deep_view()) == Err::<
                (Seq<EntryView>, MinMaxView),
                ErrorView,
            >(e@),
        },
{
    let ghost bdv = blocks.deep_view();
    let mut entries: Vec<SparseIndexValue> = Vec::new();
    let mut gmin = Value::Null;
    let mut gmax = Value::Null;
    let mut i: usize = 0;
    proof {
        assert(bdv.len() == blocks@.len());
        assert(bdv.take(0) =~= Seq::<Seq<ColumnView>>::empty());
        assert(entries.deep_view() =~= Seq::<EntryView>::empty());
    }
    while i < blocks.len()
        invariant
            0 <= i <= blocks@.len(),
            bdv == blocks.deep_view(),
            bdv.len() == blocks@.len(),
            spec_build_key(key@, bdv.take(i as int)) == Ok::<
                (Seq<EntryView>, MinMaxView),
                ErrorView,
            >((entries.deep_view(), MinMaxView { min: gmin@, max: gmax@ })),
            gmin@ is Null <==> gmax@ is Null,
            !(gmin@ is Null) ==> comparable(gmin@, gmax@),
        decreases blocks@.len() - i,
    {
        let ghost prefix = bdv.take(i as int);
        let ghost here = bdv.take(i as int + 1);
        proof {
            assert(bdv[i as int] == blocks@[i as int]@);
            assert(here.drop_last() =~= prefix);
            assert(here.last() == bdv[i as int]);
            assert(here.len() == i as int + 1);
        }
        match scan(&blocks[i], key) {
            Err(err) => {
                match err {
                    ScanError::MissingColumn => {
                        let e = IndexError::SchemaError { col: key.clone(), block: i };
                        proof {
                            assert(spec_build_key(key@, here) == Err::<
                                (Seq<EntryView>, MinMaxView),
                                ErrorView,
                            >(e@));
                            lemma_build_key_err_extends(key@, bdv, i as int + 1, e@);
                        }
                        return Err(e);
                    },
                    ScanError::MixedKinds => {
                        let e = IndexError::TypeMismatch { col: key.clone() };
                        proof {
                            assert(spec_build_key(key@, here) == Err::<
                                (Seq<EntryView>, MinMaxView),
                                ErrorView,
                            >(e@));
                            lemma_build_key_err_extends(key@, bdv, i as int + 1, e@);
                        }
                        return Err(e);
                    },
                }
            },
            Ok(st) => {
                let ghost stv = st@;
                proof {
                    assert(spec_scan_block(blocks@[i as int]@, key@) == Ok::<
                        StatView,
                        ScanError,
                    >(stv));
                    match spec_find_col(bdv[i as int], key@) {
                        None => {
                            assert(false);
                        },
                        Some(c) => {
                            assert(spec_scan_vals(c.values) == Some(stv));
                            lemma_scan_bounds(c.values, stv);
                        },
                    }
                }
                let ghost old_entries = entries.deep_view();
                let ghost old_mm = MinMaxView { min: gmin@, max: gmax@ };
                let entry = if st.all_null {
                    SparseIndexValue {
                        min: Value::Null,
                        max: Value::Null,
                        page_no: i,
                        has_null: true,
                    }
                } else {
                    SparseIndexValue {
                        min: crate::value::dup(&st.min),
                        max: crate::value::dup(&st.max),
                        page_no: i,
                        has_null: st.has_null,
                    }
                };
                proof {
                    assert(entry@ == spec_build_entry(stv, i as int));
                }
                entries.push(entry);
                proof {
                    assert(entries.deep_view() =~= old_entries.push(spec_build_entry(
                        stv,
                        i as int,
                    )));
                }
                if !st.all_null {
                    let gnull = matches!(gmin, Value::Null);
                    if gnull {
                        gmin = st.min;
                        gmax = st.max;
                    } else {
                        match compare(&st.min, &gmin) {
                            None => {
                                let e = IndexError::TypeMismatch { col: key.clone() };
                                proof {
                                    assert(spec_merge_global(old_mm, stv) is None);
                                    assert(spec_build_key(key@, here) == Err::<
                                        (Seq<EntryView>, MinMaxView),
                                        ErrorView,
                                    >(e@));
                                    lemma_build_key_err_extends(key@, bdv, i as int + 1, e@);
                                }
                                return Err(e);
                            },
                            Some(cm) => {
                                proof {
                                    lemma_val_lt_complement(stv.min, old_mm.min);
                                }
                                if cm == Cmp::Less {
                                    gmin = st.min;
                                }
                                match compare(&st.max, &gmax) {
                                    None => {
                                        proof {
                                            assert(comparable(stv.min, old_mm.min));
                                            assert(comparable(stv.min, stv.max));
                                            assert(comparable(old_mm.min, old_mm.max));
                                            assert(false);
                                        }
                                        return Err(IndexError::TypeMismatch { col: key.clone() });
                                    },
                                    Some(cx) => {
                                        proof {
                                            lemma_val_lt_complement(old_mm.max, stv.max);
                                        }
                                        if cx == Cmp::Greater {
                                            gmax = st.max;
                                        }
                                    },
                                }
                            },
                        }
                    }
                }
                proof {
                    assert(spec_merge_global(old_mm, stv) == Some(
                        MinMaxView { min: gmin@, max: gmax@ },
                    ));
                    assert(spec_build_key(key@, here) == Ok::<
                        (Seq<EntryView>, MinMaxView),
                        ErrorView,
                    >((entries.deep_view(), MinMaxView { min: gmin@, max: gmax@ })));
                }
            },
        }
        i += 1;
    }
    proof {
        assert(bdv.take(blocks@.len() as int) =~= bdv);
    }
    let schema = IndexSchema {
        col: key.clone(),
        min_max: MinMaxIndex { min: gmin, max: gmax },
        sparse: SparseIndex { values: entries },
    };
    Ok(schema)
}

/// The one concrete implementer of the `Index` capability.
pub struct Indexer {}

impl Indexer {
    pub fn create() -> (r: Indexer) {
        Indexer {  }
    }
}

impl Index for Indexer {
    fn create_index(&self, keys: &[String], blocks: &[Block]) -> (r: Result<
        Vec<IndexSchema>,
        IndexError,
    >) {
        let ghost kdv = keys.deep_view();
        let ghost bdv = blocks.deep_view();
        let mut schemas: Vec<IndexSchema> = Vec::new();
        let mut j: usize = 0;
        proof {
            assert(kdv.len() == keys@.len());
            assert(kdv.take(0) =~= Seq::<Seq<char>>::empty());
            assert(schemas.deep_view() =~= Seq::<SchemaView>::empty());
        }
        while j < keys.len()
            invariant
                0 <= j <= keys@.len(),
                kdv == keys.deep_view(),
                bdv == blocks.deep_view(),
                kdv.len() == keys@.len(),
                spec_create_index(kdv.take(j as int), bdv) == Ok::<Seq<SchemaView>, ErrorView>(
                    schemas.deep_view(),
                ),
            decreases keys@.len() - j,
        {
            let ghost here = kdv.take(j as int + 1);
            proof {
                assert(kdv[j as int] == keys@[j as int]@);
                assert(here.drop_last() =~= kdv.take(j as int));
                assert(here.last() == kdv[j as int]);
                assert(here.len() == j as int + 1);
            }
            let ghost old_schemas = schemas.deep_view();
            match build_key(&keys[j], blocks) {
                Err(e) => {
                    proof {
                        assert(spec_create_index(here, bdv) == Err::<Seq<SchemaView>, ErrorView>(
                            e@,
                        ));
                        lemma_create_index_err_extends(kdv, bdv, j as int + 1, e@);
                    }
                    return Err(e);
                },
                Ok(schema) => {
                    let ghost sv = schema@;
                    schemas.push(schema);
                    proof {
                        assert(schemas.deep_view() =~= old_schemas.push(sv));
                        assert(sv.col == kdv[j as int]);
                        assert(spec_create_index(here, bdv) == Ok::<Seq<SchemaView>, ErrorView>(
                            schemas.deep_view(),
                        ));
                    }
                },
            }
            j += 1;
        }
        proof {
            assert(kdv.take(keys@.len() as int) =~= kdv);
        }
        Ok(schemas)
    }

    fn evaluate(
        &self,
        predicate: &crate::evaluator::Predicate,
        schemas: &[IndexSchema],
    ) -> (r: crate::evaluator::SearchResult) {
        crate::evaluator::evaluate(predicate, schemas)
    }
}

} // verus!
