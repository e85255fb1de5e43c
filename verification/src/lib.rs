//! Statistics-based pruning core of a columnar query engine.
//!
//! The library builds lightweight per-column summaries over batches of
//! columnar data (a global min/max bound plus per-block "zone map" bounds)
//! and later uses those summaries to decide, for a given filter predicate,
//! which blocks can be skipped without reading their raw values.

pub mod block;
pub mod builder;
pub mod evaluator;
pub mod index;
pub mod repo_prs;
pub mod scanner;
pub mod soundness;
pub mod value;

pub use block::Block;
pub use block::Column;
pub use builder::Indexer;
pub use evaluator::CompareOp;
pub use evaluator::Predicate;
pub use evaluator::SearchResult;
pub use index::Index;
pub use index::IndexError;
pub use index::IndexSchema;
pub use index::MinMaxIndex;
pub use index::SparseIndex;
pub use index::SparseIndexValue;
pub use repo_prs::FieldDef;
pub use repo_prs::PrRecord;
pub use repo_prs::PrState;
pub use scanner::ColumnStat;
pub use scanner::ScanError;
pub use value::Cmp;
pub use value::Value;
pub use value::ValueKind;
