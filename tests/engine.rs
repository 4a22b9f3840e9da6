use sqlthink::{
    isolation_statement, transaction_statement, validation_statement, Column, ConnectAction,
    ConnectEvent, Engine, ErrorClass, StatementKind, TransactionOp,
};

fn connect_fresh(e: &mut Engine<u32>, d: &str, conn: u32) {
    match e.begin_connect(d) {
        ConnectAction::Open(s) => {
            assert!(matches!(e.connect_step(d, s, ConnectEvent::Opened(conn)), ConnectAction::Installed));
        }
        _ => panic!("expected a fresh open"),
    }
}

#[test]
fn reconnect_hits_pool() {
    let d = "server=h;user id=u;password=p";
    let mut e: Engine<u32> = Engine::new();
    connect_fresh(&mut e, d, 7);
    assert_eq!(e.get_conn_key(), Some(d.to_string()));
    e.disconnect_db();
    assert!(!e.is_connected());
    match e.begin_connect(d) {
        ConnectAction::Validate(c, s) => {
            assert_eq!(c, 7);
            assert_eq!(s.user, "u");
            assert!(matches!(e.connect_step(d, s, ConnectEvent::Validated(c)), ConnectAction::Installed));
        }
        _ => panic!("expected a pool hit"),
    }
    assert!(e.is_connected());
}

#[test]
fn other_descriptor_misses_pool() {
    let mut e: Engine<u32> = Engine::new();
    connect_fresh(&mut e, "server=a", 1);
    e.disconnect_db();
    assert!(matches!(e.begin_connect("server=b"), ConnectAction::Open(_)));
    assert!(matches!(e.begin_connect("server=a"), ConnectAction::Validate(1, _)));
    assert!(matches!(e.begin_connect("server=a"), ConnectAction::Open(_)));
}

#[test]
fn pool_is_last_in_first_out() {
    let mut e: Engine<u32> = Engine::new();
    connect_fresh(&mut e, "server=a", 1);
    e.disconnect_db();
    connect_fresh(&mut e, "server=b", 9);
    e.disconnect_db();
    assert!(matches!(e.begin_connect("server=a"), ConnectAction::Validate(1, _)));
    let s = sqlthink::parse_connection_string("server=a").ok().unwrap();
    e.connect_step("server=a", s, ConnectEvent::Validated(1));
    let s2 = sqlthink::parse_connection_string("server=a").ok().unwrap();
    match e.begin_connect("server=a") {
        ConnectAction::Open(_) => {}
        _ => panic!("bucket should be empty"),
    }
    e.connect_step("server=a", s2, ConnectEvent::Opened(2));
    e.disconnect_db();
    connect_fresh(&mut e, "server=c", 3);
    e.disconnect_db();
    assert!(matches!(e.begin_connect("server=a"), ConnectAction::Validate(2, _)));
}

#[test]
fn stale_hit_is_discarded_and_reopened() {
    let d = "server=h";
    let mut e: Engine<u32> = Engine::new();
    connect_fresh(&mut e, d, 4);
    e.disconnect_db();
    match e.begin_connect(d) {
        ConnectAction::Validate(c, s) => match e.connect_step(d, s, ConnectEvent::Stale(c)) {
            ConnectAction::Open(s2) => {
                assert_eq!(s2.host, "h");
                e.connect_step(d, s2, ConnectEvent::Opened(5));
            }
            _ => panic!("expected a fresh open"),
        },
        _ => panic!("expected a pool hit"),
    }
    e.disconnect_db();
    assert!(matches!(e.begin_connect(d), ConnectAction::Validate(5, _)));
    assert!(matches!(e.begin_connect(d), ConnectAction::Open(_)));
}

#[test]
fn connect_without_host_fails() {
    let mut e: Engine<u32> = Engine::new();
    match e.begin_connect("database=x") {
        ConnectAction::Failed(err) => assert_eq!(err.class, ErrorClass::Connectivity),
        _ => panic!("expected a failure"),
    }
    assert!(!e.is_connected());
}

#[test]
fn open_failure_is_connectivity_error() {
    let mut e: Engine<u32> = Engine::new();
    let s = sqlthink::parse_connection_string("server=h").ok().unwrap();
    match e.connect_step("server=h", s, ConnectEvent::OpenFailed("Failed to connect to server: refused".to_string())) {
        ConnectAction::Failed(err) => {
            assert_eq!(err.class, ErrorClass::Connectivity);
            assert_eq!(err.message(), "ERROR: Failed to connect to server: refused");
        }
        _ => panic!("expected a failure"),
    }
    assert!(!e.is_connected());
}

#[test]
fn execute_before_connect_is_state_error() {
    let mut e: Engine<u32> = Engine::new();
    let err = e.begin_execute("SELECT 1").err().unwrap();
    assert_eq!(err.class, ErrorClass::State);
    assert_eq!(err.message(), "ERROR: Database not connected. Call ConnectDb first.");
    let err = e.begin_transaction_op(TransactionOp::Begin).err().unwrap();
    assert_eq!(err.class, ErrorClass::State);
    assert_eq!(err.message(), "ERROR: Database not connected.");
    let err = e.begin_transaction_op(TransactionOp::Commit).err().unwrap();
    assert_eq!(err.message(), "ERROR: Database not connected.");
}

#[test]
fn disconnect_without_connection_is_noop() {
    let mut e: Engine<u32> = Engine::new();
    e.disconnect_db();
    e.disconnect_db();
    assert!(!e.is_connected());
    assert_eq!(e.get_conn_key(), None);
    assert!(matches!(e.begin_connect("server=h"), ConnectAction::Open(_)));
}

#[test]
fn disconnect_twice_pools_once() {
    let mut e: Engine<u32> = Engine::new();
    connect_fresh(&mut e, "server=h", 8);
    e.disconnect_db();
    e.disconnect_db();
    assert!(matches!(e.begin_connect("server=h"), ConnectAction::Validate(8, _)));
    assert!(matches!(e.begin_connect("server=h"), ConnectAction::Open(_)));
}

#[test]
fn mutation_yields_no_payload() {
    let mut e: Engine<u32> = Engine::new();
    connect_fresh(&mut e, "server=h", 1);
    let (c, plan) = e.begin_execute("INSERT INTO t VALUES (1)").ok().unwrap();
    assert_eq!(plan.kind, StatementKind::MutationOrControl);
    assert_eq!(plan.text, "INSERT INTO t VALUES (1)");
    assert!(!e.is_connected());
    let out = e.finish_execute(c, plan.kind, Ok(vec![vec![]])).ok().unwrap();
    assert_eq!(out, None);
    assert!(e.is_connected());
}

#[test]
fn query_yields_rows() {
    let mut e: Engine<u32> = Engine::new();
    connect_fresh(&mut e, "server=h", 1);
    let (c, plan) = e.begin_execute("SELECT 1 AS x").ok().unwrap();
    assert_eq!(plan.kind, StatementKind::Query);
    assert_eq!(plan.text, "BEGIN TRANSACTION; SELECT 1 AS x ; COMMIT TRANSACTION");
    let probe = sqlthink::CellProbe { text: None, int32: Some(1), int64: Some(1), float_text: Some("1.0".to_string()), boolean: None };
    let sets = vec![vec![], vec![vec![Column { name: "x".to_string(), value: probe }]], vec![]];
    assert_eq!(e.finish_execute(c, plan.kind, Ok(sets)).ok().unwrap(), Some("[{\"x\":1}]".to_string()));
}

#[test]
fn query_with_no_rows_yields_empty_array() {
    let mut e: Engine<u32> = Engine::new();
    connect_fresh(&mut e, "server=h", 1);
    let (c, plan) = e.begin_execute("SELECT * FROM t WHERE 1 = 0").ok().unwrap();
    assert_eq!(e.finish_execute(c, plan.kind, Ok(vec![vec![], vec![], vec![]])).ok().unwrap(), Some("[]".to_string()));
}

#[test]
fn rejected_statement_is_execution_error() {
    let mut e: Engine<u32> = Engine::new();
    connect_fresh(&mut e, "server=h", 1);
    let (c, plan) = e.begin_execute("DROP TABLE nope").ok().unwrap();
    let err = e.finish_execute(c, plan.kind, Err("SQL execution failed: no such table".to_string())).err().unwrap();
    assert_eq!(err.class, ErrorClass::Execution);
    assert!(e.is_connected());
}

#[test]
fn transaction_ops() {
    let mut e: Engine<u32> = Engine::new();
    connect_fresh(&mut e, "server=h", 1);
    let (c, text) = e.begin_transaction_op(TransactionOp::Begin).ok().unwrap();
    assert_eq!(text, "BEGIN TRANSACTION");
    assert!(e.finish_transaction_op(c, Ok(())).is_ok());
    let (c, text) = e.begin_transaction_op(TransactionOp::Commit).ok().unwrap();
    assert_eq!(text, "COMMIT TRANSACTION");
    let err = e.finish_transaction_op(c, Err("Failed to commit transaction: x".to_string())).err().unwrap();
    assert_eq!(err.class, ErrorClass::Execution);
}

#[test]
fn fixed_statements() {
    assert_eq!(validation_statement(), "/* ping */");
    assert_eq!(isolation_statement(), "SET TRANSACTION ISOLATION LEVEL SNAPSHOT");
    assert_eq!(transaction_statement(TransactionOp::Commit), "COMMIT TRANSACTION");
}

#[test]
fn trace_toggle() {
    let mut e: Engine<u32> = Engine::new();
    assert!(!e.trace_enabled());
    e.enable_trace();
    assert!(e.trace_enabled());
    e.disable_trace();
    assert!(!e.trace_enabled());
}
