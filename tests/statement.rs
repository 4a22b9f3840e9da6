use sqlthink::{
    build_snapshot_batch, classify, classify_folded, inject_primary_key, plan_statement,
    preprocess, process_create_table, process_select, StatementKind,
};

#[test]
fn classify_select_with_leading_whitespace_lowercase() {
    assert_eq!(classify("  select * from t"), StatementKind::Query);
}

#[test]
fn classify_declare_with_select() {
    assert_eq!(classify("DECLARE @x INT; SELECT @x"), StatementKind::Query);
}

#[test]
fn classify_declare_without_select() {
    assert_eq!(classify("DECLARE @x INT = 1"), StatementKind::MutationOrControl);
}

#[test]
fn classify_with_needs_trailing_space() {
    assert_eq!(classify("with cte as (select 1 as a) select a from cte"), StatementKind::Query);
    assert_eq!(classify("WITHOUT"), StatementKind::MutationOrControl);
}

#[test]
fn classify_mutations() {
    assert_eq!(classify("INSERT INTO t VALUES (1)"), StatementKind::MutationOrControl);
    assert_eq!(classify("update t set a = 1"), StatementKind::MutationOrControl);
    assert_eq!(classify(""), StatementKind::MutationOrControl);
}

#[test]
fn classify_folded_takes_text_as_is() {
    assert_eq!(classify_folded("SELECT 1"), StatementKind::Query);
    assert_eq!(classify_folded(" SELECT 1"), StatementKind::MutationOrControl);
    assert_eq!(classify_folded("select 1"), StatementKind::MutationOrControl);
}

#[test]
fn create_table_gains_identity_column() {
    assert_eq!(
        process_create_table("CREATE TABLE t (a INT)"),
        "CREATE TABLE t (ID INT PRIMARY KEY IDENTITY(1,1), a INT)"
    );
}

#[test]
fn create_table_with_primary_key_is_unmodified() {
    let sql = "CREATE TABLE t (id INT PRIMARY KEY, a INT)";
    assert_eq!(process_create_table(sql), sql);
    let lower = "create table t (id int primary key, a int)";
    assert_eq!(process_create_table(lower), lower);
}

#[test]
fn create_table_without_paren_is_unmodified() {
    assert_eq!(process_create_table("CREATE TABLE t"), "CREATE TABLE t");
}

#[test]
fn inject_uses_given_upper_form() {
    assert_eq!(inject_primary_key("x (y)", "PRIMARY KEY"), "x (y)");
    assert_eq!(inject_primary_key("x (y)", "X (Y)"), "x (ID INT PRIMARY KEY IDENTITY(1,1), y)");
}

#[test]
fn preprocess_only_rewrites_create_table() {
    assert_eq!(
        preprocess("create table t (a int)", "CREATE TABLE T (A INT)"),
        "create table t (ID INT PRIMARY KEY IDENTITY(1,1), a int)"
    );
    assert_eq!(preprocess("INSERT INTO t (a) VALUES (1)", "INSERT INTO T (A) VALUES (1)"), "INSERT INTO t (a) VALUES (1)");
}

#[test]
fn process_select_is_identity() {
    assert_eq!(process_select(" SELECT 1 "), " SELECT 1 ");
}

#[test]
fn snapshot_batch_wraps_trimmed_query() {
    assert_eq!(
        build_snapshot_batch("  SELECT 1 AS x  "),
        "BEGIN TRANSACTION; SELECT 1 AS x ; COMMIT TRANSACTION"
    );
}

#[test]
fn plan_query_and_mutation() {
    let q = plan_statement(" SELECT 1 AS x");
    assert_eq!(q.kind, StatementKind::Query);
    assert_eq!(q.text, "BEGIN TRANSACTION; SELECT 1 AS x ; COMMIT TRANSACTION");
    let m = plan_statement("CREATE TABLE t (a INT)");
    assert_eq!(m.kind, StatementKind::MutationOrControl);
    assert_eq!(m.text, "CREATE TABLE t (ID INT PRIMARY KEY IDENTITY(1,1), a INT)");
}
