use taotie::command::ConnectOpts;
use taotie::command::DescribeOpts;
use taotie::command::ExitOpts;
use taotie::command::HeadOpts;
use taotie::command::ListOpts;
use taotie::command::ReplCommand;
use taotie::command::SchemaOpts;
use taotie::command::SqlOpts;
use taotie::conn::DatasetConn;
use taotie::backend::MemBackend;
use taotie::error::EngineError;
use taotie::session::EngineEvent;
use taotie::session::SessionInput;
use taotie::session::run;
use taotie::session::step;
use taotie::table::Cell;
use taotie::table::Field;
use taotie::table::Table;

fn people() -> Table {
    Table::new(
        vec![Field::new("age", true), Field::new("name", false)],
        vec![
            vec![Cell::Num(31), Cell::Text("ada".to_string())],
            vec![Cell::Null, Cell::Text("brian".to_string())],
        ],
    )
    .unwrap()
}

fn connect_cmd(name: &str) -> ReplCommand {
    ReplCommand::Connect(ConnectOpts::new(
        DatasetConn::Parquet("people.parquet".to_string()),
        None,
        name.to_string(),
    ))
}

#[test]
fn connect_then_list_replies_in_order() {
    let mut b = MemBackend::new();
    let inputs = vec![
        SessionInput {
            cmd: connect_cmd("people"),
            ev: EngineEvent::Loaded(Ok(people())),
        },
        SessionInput {
            cmd: ReplCommand::List(ListOpts),
            ev: EngineEvent::Absent,
        },
    ];
    let replies = run(&mut b, &inputs);
    assert_eq!(replies.len(), 2);
    assert_eq!(
        replies[0].as_ref().unwrap(),
        "Connected to database: people"
    );
    let listing = replies[1].as_ref().unwrap();
    assert!(listing.contains("people"));
    assert!(listing.contains("BASE TABLE"));
}

#[test]
fn failed_sql_is_isolated_to_its_request() {
    let mut b = MemBackend::new();
    let inputs = vec![
        SessionInput {
            cmd: connect_cmd("people"),
            ev: EngineEvent::Loaded(Ok(people())),
        },
        SessionInput {
            cmd: ReplCommand::Sql(SqlOpts::new("select * from missing".to_string())),
            ev: EngineEvent::SqlResult(Err("table missing not found".to_string())),
        },
        SessionInput {
            cmd: ReplCommand::Schema(SchemaOpts::new("people".to_string())),
            ev: EngineEvent::Absent,
        },
    ];
    let replies = run(&mut b, &inputs);
    assert_eq!(replies.len(), 3);
    assert_eq!(
        replies[1].as_ref().unwrap_err(),
        &EngineError::Query("table missing not found".to_string())
    );
    let schema = replies[2].as_ref().unwrap();
    assert!(schema.contains("age"));
    assert!(schema.contains("Float64"));
}

#[test]
fn successful_sql_renders_engine_result() {
    let mut b = MemBackend::new();
    let result = Table::new(
        vec![Field::new("total", true)],
        vec![vec![Cell::Num(2)]],
    )
    .unwrap();
    let reply = step(
        &mut b,
        &ReplCommand::Sql(SqlOpts::new("select count(*) from people".to_string())),
        &EngineEvent::SqlResult(Ok(result)),
    );
    assert_eq!(reply.unwrap(), "total\n2    \n");
}

#[test]
fn postgres_connect_is_reported_unsupported() {
    let mut b = MemBackend::new();
    let cmd = ReplCommand::Connect(ConnectOpts::new(
        DatasetConn::Postgres("postgres://x/y".to_string()),
        Some("t".to_string()),
        "pg".to_string(),
    ));
    let reply = step(&mut b, &cmd, &EngineEvent::Absent);
    let err = reply.unwrap_err();
    assert_eq!(err, EngineError::Unsupported);
    assert_eq!(err.message(), "Postgres connection is not supported yet");
    assert_eq!(b.list().rows.len(), 0);
}

#[test]
fn failed_load_does_not_register() {
    let mut b = MemBackend::new();
    let reply = step(
        &mut b,
        &connect_cmd("people"),
        &EngineEvent::Loaded(Err("no such file".to_string())),
    );
    assert_eq!(
        reply.unwrap_err(),
        EngineError::Query("no such file".to_string())
    );
    assert_eq!(b.list().rows.len(), 0);
}

#[test]
fn describe_and_head_through_session() {
    let mut b = MemBackend::new();
    step(&mut b, &connect_cmd("people"), &EngineEvent::Loaded(Ok(people()))).unwrap();
    let d = step(
        &mut b,
        &ReplCommand::Describe(DescribeOpts::new("people".to_string())),
        &EngineEvent::Absent,
    )
    .unwrap();
    assert!(d.contains("count"));
    assert!(d.contains("null_count"));
    let h = step(
        &mut b,
        &ReplCommand::Head(HeadOpts::new("people".to_string(), 1)),
        &EngineEvent::Absent,
    )
    .unwrap();
    assert!(h.contains("ada"));
    assert!(!h.contains("brian"));
}

#[test]
fn exit_never_reaches_the_worker() {
    let cmd = ReplCommand::Exit(ExitOpts);
    assert!(cmd.is_exit());
    assert!(!ReplCommand::List(ListOpts).is_exit());
}
