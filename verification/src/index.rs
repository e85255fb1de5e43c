//! The persisted summary records: per-block "zone map" bounds plus a global
//! min/max bound, one record per indexed column, and the interface that
//! builds and consumes them.

use vstd::prelude::*;

use crate::block::Block;
use crate::builder::spec_create_index;
use crate::evaluator::spec_excluded_at;
use crate::evaluator::spec_scan_pages;
use crate::evaluator::Predicate;
use crate::evaluator::SearchResult;
use crate::value::Value;
use crate::value::ValueView;

verus! {

/// Bounds observed within one block for one column. `page_no` is the
/// zero-based position of the block in the input sequence. A block whose
/// column is entirely null still appears, with null sentinel bounds and
/// `has_null` set, so page addressing stays contiguous.
#[derive(Clone, Debug, PartialEq)]
pub struct SparseIndexValue {
    pub min: Value,
    pub max: Value,
    pub page_no: usize,
    pub has_null: bool,
}

/// The mathematical shape of one sparse entry.
pub struct EntryView {
    pub min: ValueView,
    pub max: ValueView,
    pub page_no: int,
    pub has_null: bool,
}

impl View for SparseIndexValue {
    type V = EntryView;

    open spec fn view(&self) -> EntryView {
        EntryView {
            min: self.min@,
            max: self.max@,
            page_no: self.page_no as int,
            has_null: self.has_null,
        }
    }
}

impl DeepView for SparseIndexValue {
    type V = EntryView;

    open spec fn deep_view(&self) -> EntryView {
        self.view()
    }
}

/// An entry that carries no usable bound: its block held no non-null value
/// for the column.
pub open spec fn is_sentinel(e: EntryView) -> bool {
    e.min is Null || e.max is Null
}

/// The ordered sequence of per-block bounds of one column.
#[derive(Clone, Debug, PartialEq)]
pub struct SparseIndex {
    pub values: Vec<SparseIndexValue>,
}

impl View for SparseIndex {
    type V = Seq<EntryView>;

    open spec fn view(&self) -> Seq<EntryView> {
        self.values.deep_view()
    }
}

impl DeepView for SparseIndex {
    type V = Seq<EntryView>;

    open spec fn deep_view(&self) -> Seq<EntryView> {
        self.view()
    }
}

/// Bounds across all non-null values of a column over the full block set;
/// both fields are the null sentinel when every value was null or no
/// blocks were supplied.
#[derive(Clone, Debug, PartialEq)]
pub struct MinMaxIndex {
    pub min: Value,
    pub max: Value,
}

/// The mathematical shape of the global bound.
pub struct MinMaxView {
    pub min: ValueView,
    pub max: ValueView,
}

impl View for MinMaxIndex {
    type V = MinMaxView;

    open spec fn view(&self) -> MinMaxView {
        MinMaxView { min: self.min@, max: self.max@ }
    }
}

impl DeepView for MinMaxIndex {
    type V = MinMaxView;

    open spec fn deep_view(&self) -> MinMaxView {
        self.view()
    }
}

/// The persisted unit of output: one summary record per requested column.
#[derive(Clone, Debug, PartialEq)]
pub struct IndexSchema {
    pub col: String,
    pub min_max: MinMaxIndex,
    pub sparse: SparseIndex,
}

/// The mathematical shape of one summary record.
pub struct SchemaView {
    pub col: Seq<char>,
    pub min_max: MinMaxView,
    pub sparse: Seq<EntryView>,
}

impl View for IndexSchema {
    type V = SchemaView;

    open spec fn view(&self) -> SchemaView {
        SchemaView { col: self.col@, min_max: self.min_max@, sparse: self.sparse@ }
    }
}

impl DeepView for IndexSchema {
    type V = SchemaView;

    open spec fn deep_view(&self) -> SchemaView {
        self.view()
    }
}

/// A build-time failure. Build failures abort the whole call: no partial
/// result is ever returned.
#[derive(Clone, Debug, PartialEq)]
pub enum IndexError {
    /// A requested key column is absent from the block at the given
    /// position.
    SchemaError { col: String, block: usize },
    /// A column's value kind differs within or across blocks.
    TypeMismatch { col: String },
}

/// The mathematical shape of a build failure.
pub enum ErrorView {
    SchemaError { col: Seq<char>, block: int },
    TypeMismatch { col: Seq<char> },
}

impl View for IndexError {
    type V = ErrorView;

    open spec fn view(&self) -> ErrorView {
        match self {
            IndexError::SchemaError { col, block } => ErrorView::SchemaError {
                col: col@,
                block: *block as int,
            },
            IndexError::TypeMismatch { col } => ErrorView::TypeMismatch { col: col@ },
        }
    }
}

/// The index capability: build summary records from blocks, and search
/// them with a predicate to find the pages that must be scanned.
pub trait Index {
    /// Create one summary record per key column, in key order, over the
    /// given ordered block sequence. Identical inputs always yield a
    /// structurally identical result; any failure aborts the whole call.
    fn create_index(&self, keys: &[String], blocks: &[Block]) -> (r: Result<
        Vec<IndexSchema>,
        IndexError,
    >)
        ensures
            match r {
                Ok(schemas) => spec_create_index(keys.deep_view(), blocks.deep_view()) == Ok::<
                    Seq<SchemaView>,
                    ErrorView,
                >(schemas.deep_view()),
                Err(e) => spec_create_index(keys.deep_view(), blocks.deep_view()) == Err::<
                    Seq<SchemaView>,
                    ErrorView,
                >(e@),
            },
    ;

    /// Evaluate a predicate against summary records: `proven_empty` says the
    /// whole file was excluded on the global bound; otherwise `scan_pages`
    /// lists, in ascending page order, every page the summaries cannot
    /// exclude.
    fn evaluate(&self, predicate: &Predicate, schemas: &[IndexSchema]) -> (r: SearchResult)
        ensures
            r.proven_empty == spec_excluded_at(*predicate, schemas.deep_view(), -1),
            r.proven_empty ==> r.scan_pages@ == Seq::<usize>::empty(),
            !r.proven_empty ==> r.scan_pages@ == spec_scan_pages(*predicate, schemas.deep_view()),
    ;
}

} // verus!
