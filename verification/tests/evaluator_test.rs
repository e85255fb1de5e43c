use indexing::Block;
use indexing::Column;
use indexing::CompareOp;
use indexing::Index;
use indexing::IndexSchema;
use indexing::Indexer;
use indexing::Predicate;
use indexing::Value;

fn utf8(s: &str) -> Value {
    Value::Utf8(s.as_bytes().to_vec())
}

fn column(name: &str, values: Vec<Value>) -> Column {
    Column { name: name.to_string(), values }
}

fn age_schemas() -> Vec<IndexSchema> {
    let block1 = Block {
        columns: vec![column("age", vec![Value::Int32(11), Value::Int32(6), Value::Int32(24)])],
    };
    let block2 = Block {
        columns: vec![column("age", vec![Value::Int32(11), Value::Int32(6), Value::Int32(24)])],
    };
    Indexer::create().create_index(&["age".to_string()], &[block1, block2]).unwrap()
}

fn cmp(op: CompareOp, col: &str, lit: Value) -> Predicate {
    Predicate::Comparison(op, col.to_string(), lit)
}

#[test]
fn global_bound_proves_emptiness() {
    let schemas = age_schemas();
    let result = Indexer::create().evaluate(&cmp(CompareOp::Gt, "age", Value::Int32(30)), &schemas);
    assert!(result.proven_empty);
    assert_eq!(result.scan_pages, Vec::<usize>::new());
}

#[test]
fn overlapping_equality_scans_both_pages() {
    let schemas = age_schemas();
    let result = Indexer::create().evaluate(&cmp(CompareOp::Eq, "age", Value::Int32(11)), &schemas);
    assert!(!result.proven_empty);
    assert_eq!(result.scan_pages, vec![0, 1]);
}

#[test]
fn equality_below_every_page_proves_emptiness() {
    let schemas = age_schemas();
    let result = Indexer::create().evaluate(&cmp(CompareOp::Eq, "age", Value::Int32(5)), &schemas);
    assert!(result.proven_empty);
    assert_eq!(result.scan_pages, Vec::<usize>::new());
}

#[test]
fn evaluating_against_empty_index_scans_nothing() {
    let schemas = Indexer::create().create_index(&["age".to_string()], &[]).unwrap();
    let result = Indexer::create().evaluate(&cmp(CompareOp::Eq, "age", Value::Int32(11)), &schemas);
    assert!(!result.proven_empty);
    assert_eq!(result.scan_pages, Vec::<usize>::new());
}

#[test]
fn per_page_pruning_keeps_only_overlapping_pages() {
    let block1 = Block {
        columns: vec![column("name", vec![utf8("jack"), utf8("ace"), utf8("bohu")])],
    };
    let block2 = Block {
        columns: vec![column("name", vec![utf8("xjack"), utf8("xace"), utf8("xbohu")])],
    };
    let schemas = Indexer::create()
        .create_index(&["name".to_string()], &[block1, block2])
        .unwrap();
    // "ace" lies below every value of the second page, so only the first
    // page, which really holds "ace", is left to scan.
    let result = Indexer::create().evaluate(&cmp(CompareOp::Eq, "name", utf8("ace")), &schemas);
    assert!(!result.proven_empty);
    assert_eq!(result.scan_pages, vec![0]);
}

#[test]
fn unknown_column_excludes_nothing() {
    let schemas = age_schemas();
    let result = Indexer::create().evaluate(&cmp(CompareOp::Gt, "size", Value::Int32(30)), &schemas);
    assert!(!result.proven_empty);
    assert_eq!(result.scan_pages, vec![0, 1]);
}

#[test]
fn mismatched_literal_kind_excludes_nothing() {
    let schemas = age_schemas();
    let result = Indexer::create().evaluate(&cmp(CompareOp::Gt, "age", Value::Int64(30)), &schemas);
    assert!(!result.proven_empty);
    assert_eq!(result.scan_pages, vec![0, 1]);
}

#[test]
fn not_over_comparison_inverts_the_operator() {
    let schemas = age_schemas();
    // Not(age < 30) is judged as age >= 30: every page's maximum is 24.
    let inner = cmp(CompareOp::Lt, "age", Value::Int32(30));
    let result = Indexer::create().evaluate(&Predicate::Not(Box::new(inner)), &schemas);
    assert!(result.proven_empty);
    assert_eq!(result.scan_pages, Vec::<usize>::new());
}

#[test]
fn not_over_anything_else_is_conservative() {
    let schemas = age_schemas();
    let inner = Predicate::IsNull("age".to_string());
    let result = Indexer::create().evaluate(&Predicate::Not(Box::new(inner)), &schemas);
    assert!(!result.proven_empty);
    assert_eq!(result.scan_pages, vec![0, 1]);
}

#[test]
fn and_excludes_when_either_side_excludes() {
    let schemas = age_schemas();
    let p = Predicate::And(
        Box::new(cmp(CompareOp::Eq, "age", Value::Int32(11))),
        Box::new(cmp(CompareOp::Gt, "age", Value::Int32(30))),
    );
    let result = Indexer::create().evaluate(&p, &schemas);
    assert!(result.proven_empty);
}

#[test]
fn or_excludes_only_when_both_sides_exclude() {
    let schemas = age_schemas();
    let p = Predicate::Or(
        Box::new(cmp(CompareOp::Eq, "age", Value::Int32(11))),
        Box::new(cmp(CompareOp::Gt, "age", Value::Int32(30))),
    );
    let result = Indexer::create().evaluate(&p, &schemas);
    assert!(!result.proven_empty);
    assert_eq!(result.scan_pages, vec![0, 1]);
}

#[test]
fn is_null_prunes_pages_without_nulls() {
    let block1 = Block { columns: vec![column("v", vec![Value::Int32(1), Value::Null])] };
    let block2 = Block { columns: vec![column("v", vec![Value::Int32(2)])] };
    let schemas = Indexer::create().create_index(&["v".to_string()], &[block1, block2]).unwrap();
    let result = Indexer::create().evaluate(&Predicate::IsNull("v".to_string()), &schemas);
    assert!(!result.proven_empty);
    assert_eq!(result.scan_pages, vec![0]);
}

#[test]
fn is_not_null_prunes_all_null_pages() {
    let block1 = Block { columns: vec![column("v", vec![Value::Null, Value::Null])] };
    let block2 = Block { columns: vec![column("v", vec![Value::Int32(2)])] };
    let schemas = Indexer::create().create_index(&["v".to_string()], &[block1, block2]).unwrap();
    let result = Indexer::create().evaluate(&Predicate::IsNotNull("v".to_string()), &schemas);
    assert!(!result.proven_empty);
    assert_eq!(result.scan_pages, vec![1]);
}

#[test]
fn bare_literal_or_column_nodes_exclude_nothing() {
    let schemas = age_schemas();
    let r1 = Indexer::create().evaluate(&Predicate::Literal(Value::Int32(1)), &schemas);
    assert!(!r1.proven_empty);
    assert_eq!(r1.scan_pages, vec![0, 1]);
    let r2 = Indexer::create().evaluate(&Predicate::ColumnRef("age".to_string()), &schemas);
    assert!(!r2.proven_empty);
    assert_eq!(r2.scan_pages, vec![0, 1]);
}

#[test]
fn tightening_a_range_never_scans_more() {
    let block1 = Block { columns: vec![column("v", vec![Value::Int32(1), Value::Int32(4)])] };
    let block2 = Block { columns: vec![column("v", vec![Value::Int32(10), Value::Int32(20)])] };
    let schemas = Indexer::create().create_index(&["v".to_string()], &[block1, block2]).unwrap();
    let loose = Indexer::create().evaluate(&cmp(CompareOp::Lt, "v", Value::Int32(100)), &schemas);
    let tight = Indexer::create().evaluate(&cmp(CompareOp::Lt, "v", Value::Int32(5)), &schemas);
    assert_eq!(loose.scan_pages, vec![0, 1]);
    assert_eq!(tight.scan_pages, vec![0]);
    for page in &tight.scan_pages {
        assert!(loose.scan_pages.contains(page));
    }
}

#[test]
fn not_over_comparison_excludes_null_only_rows_too() {
    // Under SQL null semantics a null row satisfies neither `v < 30` nor
    // its negation, so a page of small and null values is safely excluded
    // for Not(v < 30).
    let block = Block { columns: vec![column("v", vec![Value::Int32(3), Value::Null])] };
    let schemas = Indexer::create().create_index(&["v".to_string()], &[block]).unwrap();
    let inner = cmp(CompareOp::Lt, "v", Value::Int32(30));
    let result = Indexer::create().evaluate(&Predicate::Not(Box::new(inner)), &schemas);
    assert!(result.proven_empty);
    assert_eq!(result.scan_pages, Vec::<usize>::new());
}
