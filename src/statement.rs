//! Statement classification, `CREATE TABLE` rewriting and batch assembly.
use vstd::prelude::*;
use crate::text::{
    contains, find_char, first_index_of, has_infix, has_prefix, starts_with, to_upper, trim,
    trim_of, upper_of,
};

verus! {

/// How a statement is executed.
#[derive(Clone, Copy, Debug, PartialEq, Eq, Structural)]
pub enum StatementKind {
    /// Produces rows: run inside a snapshot batch and materialized.
    Query,
    /// Anything else: run directly, results discarded.
    MutationOrControl,
}

pub open spec fn kw_select() -> Seq<char> {
    seq!['S', 'E', 'L', 'E', 'C', 'T']
}

pub open spec fn kw_with() -> Seq<char> {
    seq!['W', 'I', 'T', 'H', ' ']
}

pub open spec fn kw_declare() -> Seq<char> {
    seq!['D', 'E', 'C', 'L', 'A', 'R', 'E']
}

pub open spec fn kw_create_table() -> Seq<char> {
    seq!['C', 'R', 'E', 'A', 'T', 'E', ' ', 'T', 'A', 'B', 'L', 'E']
}

pub open spec fn kw_primary_key() -> Seq<char> {
    seq!['P', 'R', 'I', 'M', 'A', 'R', 'Y', ' ', 'K', 'E', 'Y']
}

/// The column definition injected into a `CREATE TABLE` without a primary key.
pub open spec fn identity_column() -> Seq<char> {
    seq![
        'I', 'D', ' ', 'I', 'N', 'T', ' ', 'P', 'R', 'I', 'M', 'A', 'R', 'Y', ' ', 'K', 'E', 'Y',
        ' ', 'I', 'D', 'E', 'N', 'T', 'I', 'T', 'Y', '(', '1', ',', '1', ')', ',', ' ',
    ]
}

pub open spec fn batch_head() -> Seq<char> {
    seq![
        'B', 'E', 'G', 'I', 'N', ' ', 'T', 'R', 'A', 'N', 'S', 'A', 'C', 'T', 'I', 'O', 'N', ';',
        ' ',
    ]
}

pub open spec fn batch_tail() -> Seq<char> {
    seq![
        ' ', ';', ' ', 'C', 'O', 'M', 'M', 'I', 'T', ' ', 'T', 'R', 'A', 'N', 'S', 'A', 'C', 'T',
        'I', 'O', 'N',
    ]
}

/// Classification of a statement whose text is already trimmed and upper-cased.
pub open spec fn kind_of_folded(u: Seq<char>) -> StatementKind {
    if has_prefix(u, kw_select()) || has_prefix(u, kw_with()) || (has_prefix(u, kw_declare())
        && has_infix(u, kw_select())) {
        StatementKind::Query
    } else {
        StatementKind::MutationOrControl
    }
}

/// The trimmed, upper-cased form that classification looks at.
pub open spec fn folded(sql: Seq<char>) -> Seq<char> {
    upper_of(trim_of(sql))
}

/// Classification of a raw statement.
pub open spec fn kind_of(sql: Seq<char>) -> StatementKind {
    kind_of_folded(folded(sql))
}

/// `sql` with the identity column inserted right after its first `(`, unless
/// `upper` (its upper-cased form) already mentions a primary key or there is
/// no `(`.
pub open spec fn with_primary_key(sql: Seq<char>, upper: Seq<char>) -> Seq<char> {
    if has_infix(upper, kw_primary_key()) {
        sql
    } else {
        match first_index_of(sql, '(') {
            Some(i) => sql.subrange(0, i + 1) + identity_column() + sql.subrange(i + 1, sql.len() as int),
            None => sql,
        }
    }
}

/// The text that is sent for `sql`, whose folded form is `f`: only a
/// `CREATE TABLE` is rewritten.
pub open spec fn preprocessed(sql: Seq<char>, f: Seq<char>) -> Seq<char> {
    if has_prefix(f, kw_create_table()) {
        with_primary_key(sql, upper_of(sql))
    } else {
        sql
    }
}

/// The single round trip that runs a query inside its own transaction.
pub open spec fn snapshot_batch(stmt: Seq<char>) -> Seq<char> {
    batch_head() + trim_of(stmt) + batch_tail()
}

/// Classifies a statement whose text is already trimmed and upper-cased.
pub fn classify_folded(u: &str) -> (r: StatementKind)
    ensures
        r == kind_of_folded(u@),
{
    proof {
        reveal_strlit("SELECT");
        assert("SELECT"@ =~= kw_select());
        reveal_strlit("WITH ");
        assert("WITH "@ =~= kw_with());
        reveal_strlit("DECLARE");
        assert("DECLARE"@ =~= kw_declare());
    }
    if starts_with(u, "SELECT") || starts_with(u, "WITH ") || (starts_with(u, "DECLARE")
        && contains(u, "SELECT")) {
        StatementKind::Query
    } else {
        StatementKind::MutationOrControl
    }
}

/// Classifies a raw statement: after trimming and upper-casing, a query
/// starts with `SELECT`, with `WITH ` or with `DECLARE` and mentions `SELECT`.
pub fn classify(sql: &str) -> (r: StatementKind)
    ensures
        r == kind_of(sql@),
{
    let u = to_upper(trim(sql));
    classify_folded(u.as_str())
}

/// Inserts the identity column after the first `(` of `sql`, given `upper`,
/// the upper-cased form of `sql`.
pub fn inject_primary_key(sql: &str, upper: &str) -> (r: String)
    ensures
        r@ == with_primary_key(sql@, upper@),
{
    proof {
        reveal_strlit("PRIMARY KEY");
        assert("PRIMARY KEY"@ =~= kw_primary_key());
        reveal_strlit("ID INT PRIMARY KEY IDENTITY(1,1), ");
        assert("ID INT PRIMARY KEY IDENTITY(1,1), "@ =~= identity_column());
    }
    if contains(upper, "PRIMARY KEY") {
        return sql.to_owned();
    }
    match find_char(sql, '(') {
        Some(i) => {
            let n = sql.unicode_len();
            let mut out = sql.substring_char(0, i + 1).to_owned();
            out.append("ID INT PRIMARY KEY IDENTITY(1,1), ");
            out.append(sql.substring_char(i + 1, n));
            out
        },
        None => sql.to_owned(),
    }
}

/// Rewrites a `CREATE TABLE` statement so that it declares a primary key.
pub fn process_create_table(sql: &str) -> (r: String)
    ensures
        r@ == with_primary_key(sql@, upper_of(sql@)),
{
    let upper = to_upper(sql);
    inject_primary_key(sql, upper.as_str())
}

/// Queries are sent as written.
pub fn process_select(sql: &str) -> (r: String)
    ensures
        r@ == sql@,
{
    sql.to_owned()
}

/// The text to send for `sql`, whose trimmed, upper-cased form is `f`.
pub fn preprocess(sql: &str, f: &str) -> (r: String)
    ensures
        r@ == preprocessed(sql@, f@),
{
    proof {
        reveal_strlit("CREATE TABLE");
        assert("CREATE TABLE"@ =~= kw_create_table());
    }
    if starts_with(f, "CREATE TABLE") {
        process_create_table(sql)
    } else {
        process_select(sql)
    }
}

/// Wraps a query between a begin and a commit, as one batch.
pub fn build_snapshot_batch(stmt: &str) -> (r: String)
    ensures
        r@ == snapshot_batch(stmt@),
{
    proof {
        reveal_strlit("BEGIN TRANSACTION; ");
        assert("BEGIN TRANSACTION; "@ =~= batch_head());
        reveal_strlit(" ; COMMIT TRANSACTION");
        assert(" ; COMMIT TRANSACTION"@ =~= batch_tail());
    }
    let mut out = "BEGIN TRANSACTION; ".to_owned();
    out.append(trim(stmt));
    out.append(" ; COMMIT TRANSACTION");
    out
}

/// A statement ready to be sent: how to run it and the exact text.
pub struct StatementPlan {
    pub kind: StatementKind,
    pub text: String,
}

/// What is sent for `sql`: a query goes inside a snapshot batch, anything
/// else goes as preprocessed.
pub open spec fn planned_text(sql: Seq<char>) -> Seq<char> {
    let p = preprocessed(sql, folded(sql));
    if kind_of(sql) == StatementKind::Query {
        snapshot_batch(p)
    } else {
        p
    }
}

/// Classifies and preprocesses a statement and builds the text to send.
pub fn plan_statement(sql: &str) -> (r: StatementPlan)
    ensures
        r.kind == kind_of(sql@),
        r.text@ == planned_text(sql@),
{
    let f = to_upper(trim(sql));
    let kind = classify_folded(f.as_str());
    let processed = preprocess(sql, f.as_str());
    match kind {
        StatementKind::Query => StatementPlan { kind, text: build_snapshot_batch(processed.as_str()) },
        StatementKind::MutationOrControl => StatementPlan { kind, text: processed },
    }
}

} // verus!
