use indexing::Block;
use indexing::Column;
use indexing::Index;
use indexing::IndexError;
use indexing::IndexSchema;
use indexing::Indexer;
use indexing::MinMaxIndex;
use indexing::SparseIndex;
use indexing::SparseIndexValue;
use indexing::Value;

fn utf8(s: &str) -> Value {
    Value::Utf8(s.as_bytes().to_vec())
}

fn column(name: &str, values: Vec<Value>) -> Column {
    Column { name: name.to_string(), values }
}

fn entry(min: Value, max: Value, page_no: usize, has_null: bool) -> SparseIndexValue {
    SparseIndexValue { min, max, page_no, has_null }
}

#[test]
fn test_indexer() {
    let block1 = Block {
        columns: vec![
            column("name", vec![utf8("jack"), utf8("ace"), utf8("bohu")]),
            column("age", vec![Value::Int32(11), Value::Int32(6), Value::Int32(24)]),
        ],
    };
    let block2 = Block {
        columns: vec![
            column("name", vec![utf8("xjack"), utf8("xace"), utf8("xbohu")]),
            column("age", vec![Value::Int32(11), Value::Int32(6), Value::Int32(24)]),
        ],
    };

    let indexer = Indexer::create();
    let actual = indexer
        .create_index(&["name".to_string(), "age".to_string()], &[block1, block2])
        .unwrap();
    let expected = vec![
        IndexSchema {
            col: "name".to_string(),
            min_max: MinMaxIndex { min: utf8("ace"), max: utf8("xjack") },
            sparse: SparseIndex {
                values: vec![
                    entry(utf8("ace"), utf8("jack"), 0, false),
                    entry(utf8("xace"), utf8("xjack"), 1, false),
                ],
            },
        },
        IndexSchema {
            col: "age".to_string(),
            min_max: MinMaxIndex { min: Value::Int32(6), max: Value::Int32(24) },
            sparse: SparseIndex {
                values: vec![
                    entry(Value::Int32(6), Value::Int32(24), 0, false),
                    entry(Value::Int32(6), Value::Int32(24), 1, false),
                ],
            },
        },
    ];
    assert_eq!(actual, expected);
}

#[test]
fn create_index_is_idempotent() {
    let make_blocks = || {
        vec![
            Block { columns: vec![column("age", vec![Value::Int32(3), Value::Int32(9)])] },
            Block { columns: vec![column("age", vec![Value::Int32(7), Value::Null])] },
        ]
    };
    let indexer = Indexer::create();
    let keys = ["age".to_string()];
    let first = indexer.create_index(&keys, &make_blocks()).unwrap();
    let second = indexer.create_index(&keys, &make_blocks()).unwrap();
    assert_eq!(first, second);
}

#[test]
fn empty_block_sequence_gives_empty_index() {
    let indexer = Indexer::create();
    let actual = indexer.create_index(&["name".to_string()], &[]).unwrap();
    let expected = vec![IndexSchema {
        col: "name".to_string(),
        min_max: MinMaxIndex { min: Value::Null, max: Value::Null },
        sparse: SparseIndex { values: vec![] },
    }];
    assert_eq!(actual, expected);
}

#[test]
fn missing_column_fails_with_schema_error() {
    let indexer = Indexer::create();
    let blocks = vec![Block { columns: vec![column("age", vec![Value::Int32(1)])] }];
    let err = indexer.create_index(&["name".to_string()], &blocks).unwrap_err();
    assert_eq!(err, IndexError::SchemaError { col: "name".to_string(), block: 0 });
}

#[test]
fn inconsistent_column_reports_first_offending_block() {
    let indexer = Indexer::create();
    let blocks = vec![
        Block { columns: vec![column("name", vec![utf8("a")])] },
        Block { columns: vec![column("other", vec![utf8("b")])] },
    ];
    let err = indexer.create_index(&["name".to_string()], &blocks).unwrap_err();
    assert_eq!(err, IndexError::SchemaError { col: "name".to_string(), block: 1 });
}

#[test]
fn mixed_kinds_in_one_column_fail() {
    let indexer = Indexer::create();
    let blocks = vec![Block {
        columns: vec![column("v", vec![Value::Int32(1), utf8("two")])],
    }];
    let err = indexer.create_index(&["v".to_string()], &blocks).unwrap_err();
    assert_eq!(err, IndexError::TypeMismatch { col: "v".to_string() });
}

#[test]
fn mixed_kinds_across_blocks_fail() {
    let indexer = Indexer::create();
    let blocks = vec![
        Block { columns: vec![column("v", vec![Value::Int32(1)])] },
        Block { columns: vec![column("v", vec![Value::Int64(2)])] },
    ];
    let err = indexer.create_index(&["v".to_string()], &blocks).unwrap_err();
    assert_eq!(err, IndexError::TypeMismatch { col: "v".to_string() });
}

#[test]
fn nulls_are_recorded_and_skipped_in_bounds() {
    let indexer = Indexer::create();
    let blocks = vec![Block {
        columns: vec![column("v", vec![Value::Null, Value::Int32(5), Value::Null])],
    }];
    let actual = indexer.create_index(&["v".to_string()], &blocks).unwrap();
    assert_eq!(
        actual[0].sparse.values,
        vec![entry(Value::Int32(5), Value::Int32(5), 0, true)]
    );
    assert_eq!(
        actual[0].min_max,
        MinMaxIndex { min: Value::Int32(5), max: Value::Int32(5) }
    );
}

#[test]
fn all_null_block_keeps_its_page_as_sentinel() {
    let indexer = Indexer::create();
    let blocks = vec![
        Block { columns: vec![column("v", vec![Value::Null, Value::Null])] },
        Block { columns: vec![column("v", vec![Value::Int32(8)])] },
    ];
    let actual = indexer.create_index(&["v".to_string()], &blocks).unwrap();
    assert_eq!(
        actual[0].sparse.values,
        vec![
            entry(Value::Null, Value::Null, 0, true),
            entry(Value::Int32(8), Value::Int32(8), 1, false),
        ]
    );
    assert_eq!(
        actual[0].min_max,
        MinMaxIndex { min: Value::Int32(8), max: Value::Int32(8) }
    );
}

#[test]
fn zero_row_block_counts_as_all_null() {
    let indexer = Indexer::create();
    let blocks = vec![Block { columns: vec![column("v", vec![])] }];
    let actual = indexer.create_index(&["v".to_string()], &blocks).unwrap();
    assert_eq!(actual[0].sparse.values, vec![entry(Value::Null, Value::Null, 0, true)]);
    assert_eq!(actual[0].min_max, MinMaxIndex { min: Value::Null, max: Value::Null });
}
