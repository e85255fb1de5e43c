//! The block scanner: one pass over a column's values that computes the
//! running min/max bound and records null presence.

use vstd::prelude::*;

use crate::block::spec_find_col;
use crate::block::Block;
use crate::value::compare;
use crate::value::comparable;
use crate::value::dup;
use crate::value::lemma_val_le_total;
use crate::value::lemma_val_le_trans;
use crate::value::val_le;
use crate::value::val_lt;
use crate::value::Cmp;
use crate::value::Value;
use crate::value::ValueView;

verus! {

/// What one scan of a column reports: running bounds over the non-null
/// values, whether any null was seen, and whether only nulls were seen.
#[derive(Clone, Debug, PartialEq)]
pub struct ColumnStat {
    pub min: Value,
    pub max: Value,
    pub has_null: bool,
    pub all_null: bool,
}

/// The mathematical shape of a scan result.
pub struct StatView {
    pub min: ValueView,
    pub max: ValueView,
    pub has_null: bool,
    pub all_null: bool,
}

impl View for ColumnStat {
    type V = StatView;

    open spec fn view(&self) -> StatView {
        StatView {
            min: self.min@,
            max: self.max@,
            has_null: self.has_null,
            all_null: self.all_null,
        }
    }
}

/// A scan failure: the column is absent, or its non-null values mix kinds.
#[derive(Clone, Copy, Debug, PartialEq, Eq, Structural)]
pub enum ScanError {
    MissingColumn,
    MixedKinds,
}

/// Fold one more value into a running scan state; `None` on a kind
/// mismatch between non-null values.
pub open spec fn spec_scan_push(st: StatView, v: ValueView) -> Option<StatView> {
    if v is Null {
        Some(StatView { min: st.min, max: st.max, has_null: true, all_null: st.all_null })
    } else if st.all_null {
        Some(StatView { min: v, max: v, has_null: st.has_null, all_null: false })
    } else if !comparable(v, st.min) {
        None
    } else {
        Some(
            StatView {
                min: if val_lt(v, st.min) {
                    v
                } else {
                    st.min
                },
                max: if val_lt(st.max, v) {
                    v
                } else {
                    st.max
                },
                has_null: st.has_null,
                all_null: false,
            },
        )
    }
}

/// The scan of a whole value sequence, left to right.
pub open spec fn spec_scan_vals(vals: Seq<ValueView>) -> Option<StatView>
    decreases vals.len(),
{
    if vals.len() == 0 {
        Some(
            StatView {
                min: ValueView::Null,
                max: ValueView::Null,
                has_null: false,
                all_null: true,
            },
        )
    } else {
        match spec_scan_vals(vals.drop_last()) {
            None => None,
            Some(st) => spec_scan_push(st, vals.last()),
        }
    }
}

/// The scan of a named column of a block.
pub open spec fn spec_scan_block(cols: Seq<crate::block::ColumnView>, name: Seq<char>) -> Result<
    StatView,
    ScanError,
> {
    match spec_find_col(cols, name) {
        None => Err(ScanError::MissingColumn),
        Some(c) => match spec_scan_vals(c.values) {
            None => Err(ScanError::MixedKinds),
            Some(st) => Ok(st),
        },
    }
}

/// A failed prefix poisons the scan of the whole sequence.
pub proof fn lemma_scan_none_extends(vals: Seq<ValueView>, i: int)
    requires
        0 <= i <= vals.len(),
        spec_scan_vals(vals.take(i)) is None,
    ensures
        spec_scan_vals(vals) is None,
    decreases vals.len() - i,
{
    if i == vals.len() {
        assert(vals.take(i) =~= vals);
    } else {
        assert(vals.take(i + 1).drop_last() =~= vals.take(i));
        assert(spec_scan_vals(vals.take(i + 1)) is None);
        lemma_scan_none_extends(vals, i + 1);
    }
}

/// What a successful scan means: `all_null` and `has_null` are exact, and
/// the bounds really bound every non-null value of the column.
pub proof fn lemma_scan_bounds(vals: Seq<ValueView>, st: StatView)
    requires
        spec_scan_vals(vals) == Some(st),
    ensures
        st.all_null <==> (forall|i: int| 0 <= i < vals.len() ==> vals[i] is Null),
        st.has_null <==> (exists|i: int| 0 <= i < vals.len() && vals[i] is Null),
        st.all_null ==> st.min is Null && st.max is Null,
        !st.all_null ==> comparable(st.min, st.max) && val_le(st.min, st.max),
        !st.all_null ==> forall|i: int|
            0 <= i < vals.len() && !(vals[i] is Null) ==> comparable(vals[i], st.min) && val_le(
                st.min,
                vals[i],
            ) && val_le(vals[i], st.max),
    decreases vals.len(),
{
    if vals.len() == 0 {
    } else {
        let prefix = vals.drop_last();
        let v = vals.last();
        match spec_scan_vals(prefix) {
            None => {
                assert(false);
            },
            Some(pst) => {
                lemma_scan_bounds(prefix, pst);
                assert(forall|i: int| 0 <= i < prefix.len() ==> prefix[i] == vals[i]);
                if v is Null {
                    assert(vals[vals.len() - 1] is Null);
                } else if pst.all_null {
                    lemma_val_le_total(v, v);
                    assert forall|i: int|
                        0 <= i < vals.len() && !(vals[i] is Null) implies comparable(
                        vals[i],
                        st.min,
                    ) && val_le(st.min, vals[i]) && val_le(vals[i], st.max) by {
                        assert(i == vals.len() - 1);
                    }
                } else {
                    let nmin = st.min;
                    let nmax = st.max;
                    lemma_val_le_total(v, pst.min);
                    lemma_val_le_total(v, pst.max);
                    lemma_val_le_total(v, v);
                    // the new bounds still bound the old ones
                    assert(comparable(pst.min, pst.max));
                    assert(val_le(nmin, pst.min)) by {
                        if val_lt(v, pst.min) {
                        } else {
                            lemma_val_le_total(pst.min, pst.min);
                        }
                    }
                    assert(val_le(pst.max, nmax)) by {
                        if val_lt(pst.max, v) {
                        } else {
                            lemma_val_le_total(pst.max, pst.max);
                        }
                    }
                    assert(val_le(nmin, v)) by {
                        if val_lt(v, pst.min) {
                        } else {
                            // not (v < pst.min), so pst.min <= v
                        }
                    }
                    assert(val_le(v, nmax)) by {
                        if val_lt(pst.max, v) {
                        } else {
                        }
                    }
                    assert(comparable(nmin, nmax));
                    assert(val_le(nmin, nmax)) by {
                        if val_lt(v, pst.min) {
                            if val_lt(pst.max, v) {
                            } else {
                                lemma_val_le_trans(v, pst.min, pst.max);
                            }
                        } else {
                            if val_lt(pst.max, v) {
                                lemma_val_le_trans(pst.min, pst.max, v);
                            }
                        }
                    }
                    assert forall|i: int|
                        0 <= i < vals.len() && !(vals[i] is Null) implies comparable(
                        vals[i],
                        nmin,
                    ) && val_le(nmin, vals[i]) && val_le(vals[i], nmax) by {
                        if i < vals.len() - 1 {
                            assert(comparable(vals[i], pst.min));
                            assert(val_le(pst.min, vals[i]));
                            assert(val_le(vals[i], pst.max));
                            lemma_val_le_trans(nmin, pst.min, vals[i]);
                            lemma_val_le_trans(vals[i], pst.max, nmax);
                        } else {
                            assert(vals[i] == v);
                        }
                    }
                }
            },
        }
    }
}

/// Scan a sequence of values; `None` when two non-null values mix kinds.
pub fn scan_values(vals: &Vec<Value>) -> (r: Option<ColumnStat>)
    ensures
        match r {
            Some(st) => spec_scan_vals(vals.deep_view()) == Some(st@),
            None => spec_scan_vals(vals.deep_view()) is None,
        },
{
    let ghost dv = vals.deep_view();
    let mut st = ColumnStat { min: Value::Null, max: Value::Null, has_null: false, all_null: true };
    let mut i: usize = 0;
    proof {
        assert(dv.len() == vals@.len());
        assert(dv.take(0) =~= Seq::<ValueView>::empty());
    }
    while i < vals.len()
        invariant
            0 <= i <= vals@.len(),
            dv == vals.deep_view(),
            dv.len() == vals@.len(),
            spec_scan_vals(dv.take(i as int)) == Some(st@),
            !st.all_null ==> comparable(st.min@, st.max@),
        decreases vals@.len() - i,
    {
        let v = &vals[i];
        proof {
            assert(dv[i as int] == vals@[i as int]@);
            assert(dv.take(i as int + 1).drop_last() =~= dv.take(i as int));
            assert(dv.take(i as int + 1).last() == dv[i as int]);
        }
        match v {
            Value::Null => {
                st.has_null = true;
            },
            _ => {
                if st.all_null {
                    st.min = dup(v);
                    st.max = dup(v);
                    st.all_null = false;
                } else {
                    let cmin = compare(v, &st.min);
                    let cmax = compare(v, &st.max);
                    match (cmin, cmax) {
                        (Some(cm), Some(cx)) => {
                            if cm == Cmp::Less {
                                st.min = dup(v);
                            }
                            if cx == Cmp::Greater {
                                st.max = dup(v);
                            }
                        },
                        (None, _) => {
                            proof {
                                lemma_scan_none_extends(dv, i as int + 1);
                            }
                            return None;
                        },
                        (Some(_), None) => {
                            proof {
                                assert(comparable(v@, st.min@));
                                assert(comparable(st.min@, st.max@));
                                assert(false);
                            }
                            return None;
                        },
                    }
                }
            },
        }
        i += 1;
    }
    proof {
        assert(dv.take(vals@.len() as int) =~= dv);
    }
    Some(st)
}

/// Scan one named column of a block: single pass, pure function of its
/// inputs.
pub fn scan(block: &Block, column_name: &String) -> (r: Result<ColumnStat, ScanError>)
    ensures
        match r {
            Ok(st) => spec_scan_block(block@, column_name@) == Ok::<StatView, ScanError>(st@),
            Err(e) => spec_scan_block(block@, column_name@) == Err::<StatView, ScanError>(e),
        },
{
    match block.column(column_name) {
        None => Err(ScanError::MissingColumn),
        Some(c) => match scan_values(&c.values) {
            None => Err(ScanError::MixedKinds),
            Some(st) => Ok(st),
        },
    }
}

} // verus!
