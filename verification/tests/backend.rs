use taotie::backend::MemBackend;
use taotie::backend::connect_plan;
use taotie::backend::head_query;
use taotie::backend::list_query;
use taotie::backend::schema_query;
use taotie::backend::source_query;
use taotie::backend::LoadAction;
use taotie::conn::DatasetConn;
use taotie::conn::FileCompression;
use taotie::conn::FileOpts;
use taotie::error::EngineError;
use taotie::table::Cell;
use taotie::table::Field;
use taotie::table::Table;

fn people() -> Table {
    Table::new(
        vec![Field::new("age", true), Field::new("name", false)],
        vec![
            vec![Cell::Num(31), Cell::Text("ada".to_string())],
            vec![Cell::Num(56), Cell::Text("brian".to_string())],
            vec![Cell::Null, Cell::Text("grace".to_string())],
        ],
    )
    .unwrap()
}

#[test]
fn list_names_registered_datasets_in_order() {
    let mut b = MemBackend::new();
    b.connect("people", people());
    b.connect("empty", Table::new(vec![Field::new("x", true)], vec![]).unwrap());
    let t = b.list();
    assert_eq!(
        t.fields,
        vec![Field::new("table_name", false), Field::new("table_type", false)]
    );
    assert_eq!(
        t.rows,
        vec![
            vec![
                Cell::Text("people".to_string()),
                Cell::Text("BASE TABLE".to_string()),
            ],
            vec![
                Cell::Text("empty".to_string()),
                Cell::Text("BASE TABLE".to_string()),
            ],
        ]
    );
}

#[test]
fn reconnect_replaces_entry_under_same_name() {
    let mut b = MemBackend::new();
    b.connect("d", people());
    b.connect("d", Table::new(vec![Field::new("x", true)], vec![]).unwrap());
    let t = b.list();
    assert_eq!(t.rows.len(), 1);
    let s = b.schema("d").unwrap();
    assert_eq!(
        s.rows,
        vec![vec![
            Cell::Text("x".to_string()),
            Cell::Text("Float64".to_string()),
        ]]
    );
}

#[test]
fn schema_reports_names_and_types() {
    let mut b = MemBackend::new();
    b.connect("people", people());
    let s = b.schema("people").unwrap();
    assert_eq!(
        s.fields,
        vec![Field::new("column_name", false), Field::new("data_type", false)]
    );
    assert_eq!(
        s.rows,
        vec![
            vec![
                Cell::Text("age".to_string()),
                Cell::Text("Float64".to_string()),
            ],
            vec![
                Cell::Text("name".to_string()),
                Cell::Text("Utf8".to_string()),
            ],
        ]
    );
}

#[test]
fn unknown_name_is_not_found() {
    let b = MemBackend::new();
    let err = b.schema("nope").unwrap_err();
    assert_eq!(err, EngineError::NotFound("nope".to_string()));
    assert_eq!(err.message(), "dataset not found: nope");
}

#[test]
fn head_zero_keeps_schema_and_no_rows() {
    let mut b = MemBackend::new();
    b.connect("people", people());
    let t = b.head("people", 0).unwrap();
    assert_eq!(t.fields, people().fields);
    assert_eq!(t.rows.len(), 0);
}

#[test]
fn head_truncates_and_saturates() {
    let mut b = MemBackend::new();
    b.connect("people", people());
    let t = b.head("people", 2).unwrap();
    assert_eq!(t.rows, people().rows[..2].to_vec());
    let t = b.head("people", 100).unwrap();
    assert_eq!(t.rows, people().rows);
}

#[test]
fn describe_through_backend() {
    let mut b = MemBackend::new();
    b.connect("people", people());
    let d = b.describe("people").unwrap();
    assert_eq!(d.rows[0][1], Cell::Num(2));
    assert_eq!(d.rows[0][2], Cell::Text("3".to_string()));
    assert_eq!(d.rows[1][1], Cell::Num(1));
    assert_eq!(d.rows[1][2], Cell::Text("0".to_string()));
}

#[test]
fn connect_plan_maps_each_variant() {
    let plan = connect_plan(&DatasetConn::Postgres("postgres://x".to_string()));
    assert!(matches!(plan, Err(EngineError::Unsupported)));
    let opts = FileOpts::new("d.csv", "csv", FileCompression::Uncompressed);
    match connect_plan(&DatasetConn::Csv(opts.clone())).unwrap() {
        LoadAction::Csv(f) => assert_eq!(f, opts),
        other => panic!("expected a csv load, got {:?}", other),
    }
    match connect_plan(&DatasetConn::Parquet("d.parquet".to_string())).unwrap() {
        LoadAction::Parquet(p) => assert_eq!(p, "d.parquet"),
        other => panic!("expected a parquet load, got {:?}", other),
    }
}

#[test]
fn engine_queries_are_exact() {
    assert_eq!(
        list_query(),
        "select table_name, table_type from information_schema.tables where table_schema = 'public'"
    );
    assert_eq!(schema_query("people"), "DESCRIBE people");
    assert_eq!(source_query("people"), "select * from people");
    assert_eq!(head_query("people", 5), "SELECT * FROM people LIMIT 5");
    assert_eq!(head_query("people", 0), "SELECT * FROM people LIMIT 0");
}
