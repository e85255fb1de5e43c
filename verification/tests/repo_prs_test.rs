use indexing::repo_prs::prs_to_block;
use indexing::repo_prs::repo_prs_schema;
use indexing::scanner::scan;
use indexing::value::compare;
use indexing::Cmp;
use indexing::PrRecord;
use indexing::PrState;
use indexing::Value;
use indexing::ValueKind;

fn utf8(s: &str) -> Value {
    Value::Utf8(s.as_bytes().to_vec())
}

#[test]
fn schema_lists_the_six_table_fields() {
    let fields = repo_prs_schema();
    let names: Vec<&str> = fields.iter().map(|f| f.name.as_str()).collect();
    assert_eq!(names, vec!["number", "title", "state", "user", "labels", "assigness"]);
    assert_eq!(fields[0].kind, ValueKind::UInt64);
    assert!(!fields[0].nullable);
    for f in &fields[1..] {
        assert_eq!(f.kind, ValueKind::Utf8);
        assert!(f.nullable);
    }
}

#[test]
fn records_materialize_into_six_columns() {
    let prs = vec![
        PrRecord {
            number: 42,
            title: Some(b"fix build".to_vec()),
            state: Some(PrState::Closed),
            user: Some(b"ann".to_vec()),
            labels: Some(vec![b"bug".to_vec(), b"ci".to_vec()]),
            assignees: Some(vec![b"bob".to_vec()]),
        },
        PrRecord {
            number: 43,
            title: None,
            state: None,
            user: None,
            labels: None,
            assignees: Some(vec![]),
        },
    ];
    let block = prs_to_block(&prs);
    let names: Vec<&str> = block.columns.iter().map(|c| c.name.as_str()).collect();
    assert_eq!(names, vec!["number", "title", "state", "user", "labels", "assigness"]);
    assert_eq!(
        block.columns[0].values,
        vec![Value::UInt64(42), Value::UInt64(43)]
    );
    assert_eq!(block.columns[1].values, vec![utf8("fix build"), utf8("")]);
    assert_eq!(block.columns[2].values, vec![utf8("Closed"), utf8("Unknown")]);
    assert_eq!(block.columns[3].values, vec![utf8("ann"), utf8("")]);
    assert_eq!(block.columns[4].values, vec![utf8("bug,ci,"), utf8(" ")]);
    assert_eq!(block.columns[5].values, vec![utf8("bob,"), utf8("")]);
}

#[test]
fn unrecognized_state_is_stored_as_unknown() {
    let prs = vec![PrRecord {
        number: 1,
        title: None,
        state: Some(PrState::Other),
        user: None,
        labels: None,
        assignees: None,
    }];
    let block = prs_to_block(&prs);
    assert_eq!(block.columns[2].values, vec![utf8("Unknown")]);
}

#[test]
fn fetched_records_can_be_indexed_and_scanned() {
    let prs = vec![
        PrRecord {
            number: 7,
            title: Some(b"first".to_vec()),
            state: Some(PrState::Open),
            user: Some(b"ann".to_vec()),
            labels: None,
            assignees: None,
        },
        PrRecord {
            number: 3,
            title: Some(b"second".to_vec()),
            state: Some(PrState::Open),
            user: Some(b"bob".to_vec()),
            labels: None,
            assignees: None,
        },
    ];
    let block = prs_to_block(&prs);
    let stat = scan(&block, &"number".to_string()).unwrap();
    assert_eq!(stat.min, Value::UInt64(3));
    assert_eq!(stat.max, Value::UInt64(7));
    assert!(!stat.has_null);
    assert!(!stat.all_null);
}

#[test]
fn compare_orders_byte_strings_lexicographically() {
    assert_eq!(compare(&utf8("ace"), &utf8("jack")), Some(Cmp::Less));
    assert_eq!(compare(&utf8("jack"), &utf8("jack")), Some(Cmp::Equal));
    assert_eq!(compare(&utf8("xjack"), &utf8("jack")), Some(Cmp::Greater));
    assert_eq!(compare(&utf8("jack"), &utf8("jackson")), Some(Cmp::Less));
}

#[test]
fn compare_refuses_nulls_and_mixed_kinds() {
    assert_eq!(compare(&Value::Null, &Value::Int32(1)), None);
    assert_eq!(compare(&Value::Int32(1), &Value::Int64(1)), None);
    assert_eq!(compare(&Value::Int32(1), &utf8("1")), None);
}

#[test]
fn compare_orders_integers() {
    assert_eq!(compare(&Value::Int32(6), &Value::Int32(24)), Some(Cmp::Less));
    assert_eq!(compare(&Value::UInt64(9), &Value::UInt64(9)), Some(Cmp::Equal));
    assert_eq!(compare(&Value::Int8(-1), &Value::Int8(-2)), Some(Cmp::Greater));
}

#[test]
fn scan_reports_a_missing_column() {
    let prs = vec![];
    let block = prs_to_block(&prs);
    let err = scan(&block, &"age".to_string()).unwrap_err();
    assert_eq!(err, indexing::ScanError::MissingColumn);
}

#[test]
fn scan_reports_mixed_kinds() {
    let block = indexing::Block {
        columns: vec![indexing::Column {
            name: "v".to_string(),
            values: vec![Value::Int32(1), Value::UInt32(2)],
        }],
    };
    let err = scan(&block, &"v".to_string()).unwrap_err();
    assert_eq!(err, indexing::ScanError::MixedKinds);
}

#[test]
fn scan_flags_nulls_and_all_null_columns() {
    let block = indexing::Block {
        columns: vec![
            indexing::Column { name: "a".to_string(), values: vec![Value::Null, Value::Null] },
            indexing::Column {
                name: "b".to_string(),
                values: vec![Value::Int32(2), Value::Null],
            },
        ],
    };
    let a = scan(&block, &"a".to_string()).unwrap();
    assert!(a.all_null);
    assert!(a.has_null);
    assert_eq!(a.min, Value::Null);
    assert_eq!(a.max, Value::Null);
    let b = scan(&block, &"b".to_string()).unwrap();
    assert!(!b.all_null);
    assert!(b.has_null);
    assert_eq!(b.min, Value::Int32(2));
    assert_eq!(b.max, Value::Int32(2));
}
