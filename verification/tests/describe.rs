use taotie::describe::AggOutcome;
use taotie::describe::assemble_describe;
use taotie::describe::describe_fields;
use taotie::describe::describe_table;
use taotie::describe::metric_names;
use taotie::error::EngineError;
use taotie::table::Cell;
use taotie::table::Field;
use taotie::table::Table;

fn sample() -> Table {
    Table::new(
        vec![Field::new("age", true), Field::new("name", false)],
        vec![
            vec![Cell::Num(31), Cell::Text("ada".to_string())],
            vec![Cell::Null, Cell::Text("brian".to_string())],
            vec![Cell::Num(47), Cell::Null],
        ],
    )
    .unwrap()
}

#[test]
fn metrics_in_declaration_order() {
    let names = metric_names();
    assert_eq!(names, vec!["count".to_string(), "null_count".to_string()]);
}

#[test]
fn describe_computes_counts() {
    let t = sample();
    let d = describe_table(&t);
    let expected = Table::new(
        vec![
            Field::new("describe", false),
            Field::new("age", true),
            Field::new("name", false),
        ],
        vec![
            vec![
                Cell::Text("count".to_string()),
                Cell::Num(2),
                Cell::Text("2".to_string()),
            ],
            vec![
                Cell::Text("null_count".to_string()),
                Cell::Num(1),
                Cell::Text("1".to_string()),
            ],
        ],
    )
    .unwrap();
    assert_eq!(d, expected);
}

#[test]
fn describe_twice_is_identical() {
    let t = sample();
    let first = describe_table(&t);
    let second = describe_table(&t);
    assert_eq!(first, second);
}

#[test]
fn describe_shape_counts_columns_and_rows() {
    let t = sample();
    let d = describe_table(&t);
    assert_eq!(d.fields.len(), 1 + t.fields.len());
    assert_eq!(d.rows.len(), 2);
    for row in &d.rows {
        assert_eq!(row.len(), 1 + t.fields.len());
    }
}

#[test]
fn describe_zero_rows_substitutes_null() {
    let t = Table::new(
        vec![Field::new("age", true), Field::new("name", false)],
        vec![],
    )
    .unwrap();
    let d = describe_table(&t);
    assert_eq!(d.rows.len(), 2);
    for row in &d.rows {
        for cell in &row[1..] {
            assert_eq!(cell, &Cell::Text("null".to_string()));
        }
    }
}

#[test]
fn describe_zero_fields_keeps_only_metric_column() {
    let t = Table::new(vec![], vec![]).unwrap();
    let d = describe_table(&t);
    assert_eq!(d.fields.len(), 1);
    assert_eq!(d.rows.len(), 2);
    assert_eq!(d.rows[0], vec![Cell::Text("count".to_string())]);
    assert_eq!(d.rows[1], vec![Cell::Text("null_count".to_string())]);
}

#[test]
fn describe_fields_prepends_metric_column() {
    let fields = vec![Field::new("x", true)];
    let out = describe_fields(&fields);
    assert_eq!(out, vec![Field::new("describe", false), Field::new("x", true)]);
}

#[test]
fn assemble_surfaces_first_failure() {
    let fields = vec![Field::new("x", true)];
    let outcomes = vec![
        AggOutcome::Row(vec![3]),
        AggOutcome::Failed("disk vanished".to_string()),
    ];
    let err = assemble_describe(&fields, &outcomes).unwrap_err();
    assert_eq!(err, EngineError::Query("disk vanished".to_string()));
}

#[test]
fn assemble_substitutes_null_per_metric() {
    let fields = vec![Field::new("x", true)];
    let outcomes = vec![AggOutcome::NoAggregate, AggOutcome::Row(vec![0])];
    let t = assemble_describe(&fields, &outcomes).unwrap();
    assert_eq!(t.rows[0][1], Cell::Text("null".to_string()));
    assert_eq!(t.rows[1][1], Cell::Num(0));
}
