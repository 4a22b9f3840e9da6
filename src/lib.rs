//! A verified core for a SQL execution bridge: connection pooling, session
//! management, statement classification and rewriting, and materialization of
//! result rows as JSON text.
pub mod descriptor;
pub mod engine;
pub mod error;
pub mod pool;
pub mod rows;
pub mod statement;
pub mod text;

pub use descriptor::{parse_connection_string, parse_port, ConnSettings, KeyRole};
pub use engine::{
    isolation_statement, transaction_statement, validation_statement, ConnectAction, ConnectEvent,
    Engine, TransactionOp,
};
pub use error::{BridgeError, ErrorClass};
pub use pool::Pool;
pub use rows::{
    decimal_text, execute_select_query, first_nonempty, row_entries, row_to_json, row_to_json_value,
    rows_to_json, scalar_text, CellProbe, Column, Scalar,
};
pub use statement::{
    build_snapshot_batch, classify, classify_folded, inject_primary_key, plan_statement,
    preprocess, process_create_table, process_select, StatementKind, StatementPlan,
};
