//! The predicate evaluator: given a filter predicate tree and the summary
//! records of the referenced columns, it decides which pages the summaries
//! can exclude. Anything it does not recognize degrades to "cannot
//! exclude": an unknown node only costs scan time, never correctness.

use vstd::prelude::*;

use crate::block::spec_find_col;
use crate::block::ColumnView;
use crate::index::is_sentinel;
use crate::index::EntryView;
use crate::index::IndexSchema;
use crate::index::SchemaView;
use crate::value::comparable;
use crate::value::compare;
use crate::value::lemma_val_le_refl;
use crate::value::val_le;
use crate::value::val_lt;
use crate::value::Cmp;
use crate::value::Value;
use crate::value::ValueView;

verus! {

/// The comparison operators a predicate may apply to a column and a
/// literal.
#[derive(Clone, Copy, Debug, PartialEq, Eq, Structural)]
pub enum CompareOp {
    Eq,
    NotEq,
    Lt,
    LtEq,
    Gt,
    GtEq,
}

/// A filter predicate tree, as handed over by a query planner.
#[derive(Debug, PartialEq)]
pub enum Predicate {
    Literal(Value),
    ColumnRef(String),
    Comparison(CompareOp, String, Value),
    IsNull(String),
    IsNotNull(String),
    And(Box<Predicate>, Box<Predicate>),
    Or(Box<Predicate>, Box<Predicate>),
    Not(Box<Predicate>),
}

/// What a search returns: `proven_empty` says the whole file was excluded
/// on the global bound alone; otherwise `scan_pages` lists every page the
/// summaries could not exclude, in ascending page order.
#[derive(Clone, Debug, PartialEq)]
pub struct SearchResult {
    pub scan_pages: Vec<usize>,
    pub proven_empty: bool,
}

/// The operator with the complementary satisfying set.
pub open spec fn invert_op(op: CompareOp) -> CompareOp {
    match op {
        CompareOp::Eq => CompareOp::NotEq,
        CompareOp::NotEq => CompareOp::Eq,
        CompareOp::Lt => CompareOp::GtEq,
        CompareOp::LtEq => CompareOp::Gt,
        CompareOp::Gt => CompareOp::LtEq,
        CompareOp::GtEq => CompareOp::Lt,
    }
}

pub open spec fn find_schema_from(schemas: Seq<SchemaView>, name: Seq<char>, i: int) -> Option<
    SchemaView,
>
    decreases schemas.len() - i,
{
    if i < 0 || i >= schemas.len() {
        None
    } else if schemas[i].col == name {
        Some(schemas[i])
    } else {
        find_schema_from(schemas, name, i + 1)
    }
}

/// The summary record of a column; the first match wins.
pub open spec fn spec_find_schema(schemas: Seq<SchemaView>, name: Seq<char>) -> Option<
    SchemaView,
> {
    find_schema_from(schemas, name, 0)
}

/// The pseudo entry that stands for the whole file when the global bound
/// is consulted. Null presence is unknown at file level, so it is taken
/// as present: the file is never excluded on `IsNull`.
pub open spec fn file_entry(s: SchemaView) -> EntryView {
    EntryView { min: s.min_max.min, max: s.min_max.max, page_no: 0, has_null: true }
}

/// The entry judged for a page; page `-1` stands for the whole file.
pub open spec fn entry_at(s: SchemaView, page: int) -> Option<EntryView> {
    if page == -1 {
        Some(file_entry(s))
    } else if 0 <= page < s.sparse.len() {
        Some(s.sparse[page])
    } else {
        None
    }
}

/// The per-page exclusion rule for one comparison against one entry's
/// bounds. Entries without a usable bound, and literals that cannot be
/// compared with the bounds, never exclude.
pub open spec fn spec_excl_cmp(op: CompareOp, lit: ValueView, e: EntryView) -> bool {
    if is_sentinel(e) || !comparable(lit, e.min) || !comparable(lit, e.max) {
        false
    } else {
        match op {
            CompareOp::Eq => val_lt(lit, e.min) || val_lt(e.max, lit),
            CompareOp::NotEq => e.min == lit && e.max == lit,
            CompareOp::Lt => val_le(lit, e.min),
            CompareOp::LtEq => val_lt(lit, e.min),
            CompareOp::Gt => val_le(e.max, lit),
            CompareOp::GtEq => val_lt(e.max, lit),
        }
    }
}

/// Whether the summaries exclude the given page (page `-1` stands for the
/// whole file, judged on the global bound).
pub open spec fn spec_excluded_at(p: Predicate, schemas: Seq<SchemaView>, page: int) -> bool
    decreases p,
{
    match p {
        Predicate::Comparison(op, col, lit) => match spec_find_schema(schemas, col@) {
            None => false,
            Some(s) => match entry_at(s, page) {
                None => false,
                Some(e) => spec_excl_cmp(op, lit@, e),
            },
        },
        Predicate::IsNull(col) => match spec_find_schema(schemas, col@) {
            None => false,
            Some(s) => match entry_at(s, page) {
                None => false,
                Some(e) => !e.has_null,
            },
        },
        Predicate::IsNotNull(col) => match spec_find_schema(schemas, col@) {
            None => false,
            Some(s) => match entry_at(s, page) {
                None => false,
                Some(e) => is_sentinel(e),
            },
        },
        Predicate::And(l, r) => spec_excluded_at(*l, schemas, page) || spec_excluded_at(
            *r,
            schemas,
            page,
        ),
        Predicate::Or(l, r) => spec_excluded_at(*l, schemas, page) && spec_excluded_at(
            *r,
            schemas,
            page,
        ),
        Predicate::Not(inner) => match *inner {
            Predicate::Comparison(op, col, lit) => match spec_find_schema(schemas, col@) {
                None => false,
                Some(s) => match entry_at(s, page) {
                    None => false,
                    Some(e) => spec_excl_cmp(invert_op(op), lit@, e),
                },
            },
            _ => false,
        },
        _ => false,
    }
}

pub open spec fn page_count_from(schemas: Seq<SchemaView>, i: int) -> int
    decreases schemas.len() - i,
{
    if i < 0 || i >= schemas.len() {
        0
    } else {
        let rest = page_count_from(schemas, i + 1);
        if schemas[i].sparse.len() > rest {
            schemas[i].sparse.len() as int
        } else {
            rest
        }
    }
}

/// The page universe of a summary set: records built together all carry
/// one entry per block, so this is their common page count.
pub open spec fn spec_page_count(schemas: Seq<SchemaView>) -> int {
    page_count_from(schemas, 0)
}

pub open spec fn scan_pages_upto(p: Predicate, schemas: Seq<SchemaView>, n: int) -> Seq<usize>
    decreases n,
{
    if n <= 0 {
        Seq::empty()
    } else if spec_excluded_at(p, schemas, n - 1) {
        scan_pages_upto(p, schemas, n - 1)
    } else {
        scan_pages_upto(p, schemas, n - 1).push((n - 1) as usize)
    }
}

/// The pages a predicate leaves to scan, in ascending page order.
pub open spec fn spec_scan_pages(p: Predicate, schemas: Seq<SchemaView>) -> Seq<usize> {
    scan_pages_upto(p, schemas, spec_page_count(schemas))
}

/// Shape of the scan-page list: every listed page lies below `n`, the list
/// ascends strictly, and a page below `n` is listed exactly when the
/// summaries cannot exclude it.
pub proof fn lemma_scan_pages_upto_props(p: Predicate, schemas: Seq<SchemaView>, n: int)
    requires
        0 <= n <= usize::MAX,
    ensures
        forall|k: int|
            0 <= k < scan_pages_upto(p, schemas, n).len() ==> (scan_pages_upto(p, schemas, n)[k]
                as int) < n,
        forall|k1: int, k2: int|
            0 <= k1 < k2 < scan_pages_upto(p, schemas, n).len() ==> scan_pages_upto(p, schemas, n)[k1]
                < scan_pages_upto(p, schemas, n)[k2],
        forall|pg: int|
            0 <= pg < n ==> (scan_pages_upto(p, schemas, n).contains(pg as usize)
                <==> !spec_excluded_at(p, schemas, pg)),
    decreases n,
{
    if n == 0 {
    } else {
        lemma_scan_pages_upto_props(p, schemas, n - 1);
        let prev = scan_pages_upto(p, schemas, n - 1);
        let cur = scan_pages_upto(p, schemas, n);
        assert forall|pg: int| 0 <= pg < n implies (cur.contains(pg as usize)
            <==> !spec_excluded_at(p, schemas, pg)) by {
            if pg < n - 1 {
                if prev.contains(pg as usize) {
                    let k = choose|k: int|
                        0 <= k < prev.len() && prev[k] == pg as usize;
                    if !spec_excluded_at(p, schemas, n - 1) {
                        assert(cur[k] == pg as usize);
                    } else {
                        assert(cur == prev);
                    }
                    assert(cur.contains(pg as usize));
                }
                if cur.contains(pg as usize) {
                    let k = choose|k: int|
                        0 <= k < cur.len() && cur[k] == pg as usize;
                    if k < prev.len() {
                        assert(prev[k] == pg as usize);
                        assert(prev.contains(pg as usize));
                    } else {
                        assert(cur[k] as int == n - 1);
                    }
                }
            } else {
                if !spec_excluded_at(p, schemas, n - 1) {
                    assert(cur[cur.len() - 1] == (n - 1) as usize);
                    assert(cur.contains((n - 1) as usize));
                } else {
                    if cur.contains(pg as usize) {
                        let k = choose|k: int|
                            0 <= k < cur.len() && cur[k] == pg as usize;
                        assert((cur[k] as int) < n - 1);
                    }
                }
            }
        }
    }
}

fn find_schema<'a>(schemas: &'a [IndexSchema], name: &String) -> (r: Option<&'a IndexSchema>)
    ensures
        match r {
            Some(s) => spec_find_schema(schemas.deep_view(), name@) == Some(s@),
            None => spec_find_schema(schemas.deep_view(), name@) is None,
        },
{
    let ghost dv = schemas.deep_view();
    let n = schemas.len();
    let mut i: usize = 0;
    while i < n
        invariant
            0 <= i <= n,
            n == schemas@.len(),
            dv == schemas.deep_view(),
            dv.len() == schemas@.len(),
            spec_find_schema(dv, name@) == find_schema_from(dv, name@, i as int),
        decreases n - i,
    {
        proof {
            assert(dv[i as int] == schemas@[i as int]@);
        }
        if schemas[i].col == *name {
            return Some(&schemas[i]);
        }
        i += 1;
    }
    None
}

fn invert(op: CompareOp) -> (r: CompareOp)
    ensures
        r == invert_op(op),
{
    match op {
        CompareOp::Eq => CompareOp::NotEq,
        CompareOp::NotEq => CompareOp::Eq,
        CompareOp::Lt => CompareOp::GtEq,
        CompareOp::LtEq => CompareOp::Gt,
        CompareOp::Gt => CompareOp::LtEq,
        CompareOp::GtEq => CompareOp::Lt,
    }
}

fn excluded_by_cmp(op: CompareOp, lit: &Value, emin: &Value, emax: &Value, ghost_e: Ghost<
    EntryView,
>) -> (b: bool)
    requires
        ghost_e@.min == emin@,
        ghost_e@.max == emax@,
    ensures
        b == spec_excl_cmp(op, lit@, ghost_e@),
{
    let sent = matches!(*emin, Value::Null) || matches!(*emax, Value::Null);
    if sent {
        return false;
    }
    let cmin = compare(lit, emin);
    let cmax = compare(lit, emax);
    match (cmin, cmax) {
        (Some(cm), Some(cx)) => {
            proof {
                lemma_val_le_refl(lit@);
            }
            match op {
                CompareOp::Eq => cm == Cmp::Less || cx == Cmp::Greater,
                CompareOp::NotEq => cm == Cmp::Equal && cx == Cmp::Equal,
                CompareOp::Lt => cm == Cmp::Less || cm == Cmp::Equal,
                CompareOp::LtEq => cm == Cmp::Less,
                CompareOp::Gt => cx == Cmp::Greater || cx == Cmp::Equal,
                CompareOp::GtEq => cx == Cmp::Greater,
            }
        },
        _ => false,
    }
}

fn excluded_at(p: &Predicate, schemas: &[IndexSchema], page: usize, file: bool) -> (b: bool)
    ensures
        b == spec_excluded_at(
            *p,
            schemas.deep_view(),
            if file {
                -1
            } else {
                page as int
            },
        ),
    decreases *p,
{
    let ghost dv = schemas.deep_view();
    let ghost pg: int = if file {
        -1
    } else {
        page as int
    };
    match p {
        Predicate::Comparison(op, col, lit) => match find_schema(schemas, col) {
            None => false,
            Some(s) => {
                if file {
                    let b = excluded_by_cmp(
                        *op,
                        lit,
                        &s.min_max.min,
                        &s.min_max.max,
                        Ghost(file_entry(s@)),
                    );
                    b
                } else if page < s.sparse.values.len() {
                    proof {
                        assert(s@.sparse[page as int] == s.sparse.values@[page as int]@);
                    }
                    let e = &s.sparse.values[page];
                    excluded_by_cmp(*op, lit, &e.min, &e.max, Ghost(e@))
                } else {
                    false
                }
            },
        },
        Predicate::IsNull(col) => match find_schema(schemas, col) {
            None => false,
            Some(s) => {
                if file {
                    false
                } else if page < s.sparse.values.len() {
                    proof {
                        assert(s@.sparse[page as int] == s.sparse.values@[page as int]@);
                    }
                    !s.sparse.values[page].has_null
                } else {
                    false
                }
            },
        },
        Predicate::IsNotNull(col) => match find_schema(schemas, col) {
            None => false,
            Some(s) => {
                if file {
                    matches!(s.min_max.min, Value::Null) || matches!(s.min_max.max, Value::Null)
                } else if page < s.sparse.values.len() {
                    proof {
                        assert(s@.sparse[page as int] == s.sparse.values@[page as int]@);
                    }
                    let e = &s.sparse.values[page];
                    matches!(e.min, Value::Null) || matches!(e.max, Value::Null)
                } else {
                    false
                }
            },
        },
        Predicate::And(l, r) => {
            let bl = excluded_at(l, schemas, page, file);
            let br = excluded_at(r, schemas, page, file);
            bl || br
        },
        Predicate::Or(l, r) => {
            let bl = excluded_at(l, schemas, page, file);
            let br = excluded_at(r, schemas, page, file);
            bl && br
        },
        Predicate::Not(inner) => match &**inner {
            Predicate::Comparison(op, col, lit) => match find_schema(schemas, col) {
                None => false,
                Some(s) => {
                    let iop = invert(*op);
                    if file {
                        excluded_by_cmp(
                            iop,
                            lit,
                            &s.min_max.min,
                            &s.min_max.max,
                            Ghost(file_entry(s@)),
                        )
                    } else if page < s.sparse.values.len() {
                        proof {
                            assert(s@.sparse[page as int] == s.sparse.values@[page as int]@);
                        }
                        let e = &s.sparse.values[page];
                        excluded_by_cmp(iop, lit, &e.min, &e.max, Ghost(e@))
                    } else {
                        false
                    }
                },
            },
            _ => false,
        },
        Predicate::Literal(_) => false,
        Predicate::ColumnRef(_) => false,
    }
}

fn page_count(schemas: &[IndexSchema]) -> (n: usize)
    ensures
        n as int == spec_page_count(schemas.deep_view()),
{
    let ghost dv = schemas.deep_view();
    let len = schemas.len();
    let mut i: usize = len;
    let mut acc: usize = 0;
    proof {
        assert(dv.len() == schemas@.len());
    }
    while i > 0
        invariant
            0 <= i <= len,
            len == schemas@.len(),
            dv == schemas.deep_view(),
            dv.len() == schemas@.len(),
            acc as int == page_count_from(dv, i as int),
        decreases i,
    {
        i = i - 1;
        proof {
            assert(dv[i as int] == schemas@[i as int]@);
        }
        let here = schemas[i].sparse.values.len();
        if here > acc {
            acc = here;
        }
    }
    acc
}

/// Evaluate a predicate against summary records. Step one judges the
/// global bound: if it already excludes the whole file, no page-level
/// work is done and the result is proven empty. Step two judges every
/// page and returns those that could not be excluded.
pub fn evaluate(predicate: &Predicate, schemas: &[IndexSchema]) -> (r: SearchResult)
    ensures
        r.proven_empty == spec_excluded_at(*predicate, schemas.deep_view(), -1),
        r.proven_empty ==> r.scan_pages@ == Seq::<usize>::empty(),
        !r.proven_empty ==> r.scan_pages@ == spec_scan_pages(*predicate, schemas.deep_view()),
{
    let ghost dv = schemas.deep_view();
    if excluded_at(predicate, schemas, 0, true) {
        let empty: Vec<usize> = Vec::new();
        proof {
            assert(empty@ =~= Seq::<usize>::empty());
        }
        return SearchResult { scan_pages: empty, proven_empty: true };
    }
    let n = page_count(schemas);
    let mut pages: Vec<usize> = Vec::new();
    let mut pg: usize = 0;
    proof {
        assert(pages@ =~= scan_pages_upto(*predicate, dv, 0));
    }
    while pg < n
        invariant
            0 <= pg <= n,
            n as int == spec_page_count(dv),
            dv == schemas.deep_view(),
            pages@ == scan_pages_upto(*predicate, dv, pg as int),
        decreases n - pg,
    {
        if !excluded_at(predicate, schemas, pg, false) {
            pages.push(pg);
        }
        pg += 1;
    }
    SearchResult { scan_pages: pages, proven_empty: false }
}

} // verus!
