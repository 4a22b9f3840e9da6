//! The session: at most one active connection, the descriptor it came from,
//! the pool it returns to, and the decisions of the connect, execute and
//! disconnect protocols. The caller performs the network work that each
//! decision asks for and reports back what happened.
use vstd::prelude::*;
use crate::descriptor::{
    descriptor_ok, parse_connection_string, settings_of, ConnSettings, SettingsView,
};
use crate::error::{BridgeError, ErrorClass};
use crate::pool::Pool;
use crate::rows::{execute_select_query, query_json, Column};
use crate::statement::{kind_of, plan_statement, planned_text, StatementKind, StatementPlan};

verus! {

/// What the connect protocol asks the caller to do next.
pub enum ConnectAction<C> {
    /// Run the validation statement on this pooled connection; the settings
    /// are those of the descriptor, should a new connection be needed.
    Validate(C, ConnSettings),
    /// Open a new connection with these settings, then run the isolation
    /// statement on it as a top-level statement.
    Open(ConnSettings),
    /// The connection is now the session's active connection.
    Installed,
    /// Connecting failed; the session is as it was.
    Failed(BridgeError),
}

/// What the caller reports after doing what a [`ConnectAction`] asked.
pub enum ConnectEvent<C> {
    /// The pooled connection answered the validation statement.
    Validated(C),
    /// The pooled connection failed validation; it is handed back to be discarded.
    Stale(C),
    /// A new connection was opened and set to snapshot isolation.
    Opened(C),
    /// Opening, authenticating or setting the isolation level failed.
    OpenFailed(String),
}

/// An explicit transaction-control statement.
#[derive(Clone, Copy, Debug, PartialEq, Eq, Structural)]
pub enum TransactionOp {
    Begin,
    Commit,
}

/// The statement a validation sends: a comment, which does nothing.
pub fn validation_statement() -> (r: &'static str)
    ensures
        r@ == "/* ping */"@,
{
    "/* ping */"
}

/// The statement sent once on each new connection.
pub fn isolation_statement() -> (r: &'static str)
    ensures
        r@ == "SET TRANSACTION ISOLATION LEVEL SNAPSHOT"@,
{
    "SET TRANSACTION ISOLATION LEVEL SNAPSHOT"
}

/// The text of a transaction-control statement.
pub open spec fn transaction_text(op: TransactionOp) -> Seq<char> {
    match op {
        TransactionOp::Begin => "BEGIN TRANSACTION"@,
        TransactionOp::Commit => "COMMIT TRANSACTION"@,
    }
}

pub fn transaction_statement(op: TransactionOp) -> (r: &'static str)
    ensures
        r@ == transaction_text(op),
{
    match op {
        TransactionOp::Begin => "BEGIN TRANSACTION",
        TransactionOp::Commit => "COMMIT TRANSACTION",
    }
}

/// The output of a statement of kind `kind` whose result sets were `sets`:
/// a query's JSON rows, or nothing for anything else.
pub open spec fn output_of(kind: StatementKind, sets: Seq<Vec<Vec<Column>>>) -> Option<Seq<char>> {
    if kind == StatementKind::Query {
        Some(query_json(sets))
    } else {
        None
    }
}

/// A session with its pool of idle connections of type `C`.
pub struct Engine<C> {
    pool: Pool<C>,
    active: Option<C>,
    active_key: Option<String>,
    trace: bool,
}

impl<C> Engine<C> {
    pub closed spec fn wf(&self) -> bool {
        self.pool.wf()
    }

    /// The idle connections kept under descriptor `k`, most recent last.
    pub closed spec fn idle(&self, k: Seq<char>) -> Seq<C> {
        self.pool.idle(k)
    }

    /// The active connection, if any.
    pub closed spec fn active(&self) -> Option<C> {
        self.active
    }

    /// The descriptor that the active connection returns to on disconnect.
    pub closed spec fn key(&self) -> Option<Seq<char>> {
        match self.active_key {
            Some(k) => Some(k@),
            None => None,
        }
    }

    pub closed spec fn tracing(&self) -> bool {
        self.trace
    }

    /// `self` and `other` keep the same idle connections under every descriptor.
    pub open spec fn same_pool(&self, other: &Self) -> bool {
        forall|k: Seq<char>| #[trigger] self.idle(k) == other.idle(k)
    }

    /// What [`Self::begin_connect`] does with descriptor `d`, from `pre` to
    /// `post`, answering `r`: a descriptor without a server fails with nothing
    /// changed; otherwise the most recently released connection kept under `d`
    /// is handed out to be validated, or, with none kept, a connection is to be
    /// opened with the settings `d` describes.
    pub open spec fn connect_begun(pre: Self, post: Self, d: Seq<char>, r: ConnectAction<C>) -> bool {
        &&& post.active() == pre.active()
        &&& post.key() == pre.key()
        &&& post.tracing() == pre.tracing()
        &&& forall|k: Seq<char>| k != d ==> #[trigger] post.idle(k) == pre.idle(k)
        &&& !descriptor_ok(d) ==> (r matches ConnectAction::Failed(e) && e.class
            == ErrorClass::Connectivity) && post.idle(d) == pre.idle(d)
        &&& descriptor_ok(d) && pre.idle(d).len() > 0 ==> (r matches ConnectAction::Validate(c, s)
            && c == pre.idle(d).last() && s@ == settings_of(d)) && post.idle(d) == pre.idle(
            d,
        ).drop_last()
        &&& descriptor_ok(d) && pre.idle(d).len() == 0 ==> (r matches ConnectAction::Open(s) && s@
            == settings_of(d)) && post.idle(d) == pre.idle(d)
    }

    /// What [`Self::connect_step`] does on event `ev`: a validated or newly
    /// opened connection becomes active under `d`; a stale one is dropped and a
    /// connection is to be opened with `settings`; a failure to open is a
    /// connectivity error. The pool is never touched.
    pub open spec fn connect_stepped(
        pre: Self,
        post: Self,
        d: Seq<char>,
        settings: SettingsView,
        ev: ConnectEvent<C>,
        r: ConnectAction<C>,
    ) -> bool {
        &&& post.same_pool(&pre)
        &&& post.tracing() == pre.tracing()
        &&& ev matches ConnectEvent::Validated(c) ==> r is Installed && post.active() == Some(c)
            && post.key() == Some(d)
        &&& ev matches ConnectEvent::Opened(c) ==> r is Installed && post.active() == Some(c)
            && post.key() == Some(d)
        &&& ev is Stale ==> (r matches ConnectAction::Open(s) && s@ == settings) && post.active()
            == pre.active() && post.key() == pre.key()
        &&& ev matches ConnectEvent::OpenFailed(m) ==> (r matches ConnectAction::Failed(e)
            && e.class == ErrorClass::Connectivity && e.detail@ == m@) && post.active()
            == pre.active() && post.key() == pre.key()
    }

    /// What [`Self::disconnect_db`] does: the active connection, if any, is
    /// pushed onto the pool under its recorded descriptor (dropped when none is
    /// recorded) and the session is emptied; with no active connection nothing
    /// changes.
    pub open spec fn disconnected(pre: Self, post: Self) -> bool {
        &&& post.active() is None
        &&& post.tracing() == pre.tracing()
        &&& pre.active() is None ==> post == pre
        &&& pre.active() is Some ==> post.key() is None
        &&& pre.active() is Some && pre.key() is None ==> post.same_pool(&pre)
        &&& pre.active() matches Some(c) ==> (pre.key() matches Some(k) ==> (post.idle(k)
            == pre.idle(k).push(c) && forall|j: Seq<char>|
            j != k ==> #[trigger] post.idle(j) == pre.idle(j)))
    }

    /// What [`Self::begin_execute`] does with statement `sql`: with no active
    /// connection it fails with a state error; otherwise it hands out the active
    /// connection with the plan for `sql`. The pool and the recorded descriptor
    /// are untouched.
    pub open spec fn execute_begun(
        pre: Self,
        post: Self,
        sql: Seq<char>,
        r: Result<(C, StatementPlan), BridgeError>,
    ) -> bool {
        &&& post.key() == pre.key()
        &&& post.tracing() == pre.tracing()
        &&& post.same_pool(&pre)
        &&& post.active() is None
        &&& pre.active() is None ==> (r matches Err(e) && e.class == ErrorClass::State && e.detail@
            == "Database not connected. Call ConnectDb first."@)
        &&& pre.active() matches Some(c) ==> (r matches Ok(p) && p.0 == c && p.1.kind == kind_of(
            sql,
        ) && p.1.text@ == planned_text(sql))
    }

    /// A session with nothing connected, nothing pooled, and tracing off.
    pub fn new() -> (r: Engine<C>)
        ensures
            r.wf(),
            r.active() is None,
            r.key() is None,
            !r.tracing(),
            forall|k: Seq<char>| r.idle(k) == Seq::<C>::empty(),
    {
        Engine { pool: Pool::new(), active: None, active_key: None, trace: false }
    }

    /// Turns diagnostics on.
    pub fn enable_trace(&mut self)
        ensures
            final(self).tracing(),
            final(self).wf() == old(self).wf(),
            final(self).active() == old(self).active(),
            final(self).key() == old(self).key(),
            final(self).same_pool(old(self)),
    {
        self.trace = true;
    }

    /// Turns diagnostics off.
    pub fn disable_trace(&mut self)
        ensures
            !final(self).tracing(),
            final(self).wf() == old(self).wf(),
            final(self).active() == old(self).active(),
            final(self).key() == old(self).key(),
            final(self).same_pool(old(self)),
    {
        self.trace = false;
    }

    pub fn trace_enabled(&self) -> (r: bool)
        ensures
            r == self.tracing(),
    {
        self.trace
    }

    pub fn is_connected(&self) -> (r: bool)
        ensures
            r == self.active() is Some,
    {
        self.active.is_some()
    }

    /// The descriptor the active connection returns to, if one is recorded.
    pub fn get_conn_key(&self) -> (r: Option<String>)
        ensures
            r matches Some(k) ==> self.key() == Some(k@),
            r is None ==> self.key() is None,
    {
        match &self.active_key {
            Some(k) => Some(k.clone()),
            None => None,
        }
    }

    /// Starts connecting with `descriptor`: a descriptor without a server
    /// fails; otherwise the most recently released connection for it is taken
    /// out of the pool to be validated, or, when none is kept, a new one is to
    /// be opened.
    pub fn begin_connect(&mut self, descriptor: &str) -> (r: ConnectAction<C>)
        requires
            old(self).wf(),
        ensures
            final(self).wf(),
            Self::connect_begun(*old(self), *final(self), descriptor@, r),
    {
        match parse_connection_string(descriptor) {
            Err(e) => ConnectAction::Failed(e),
            Ok(settings) => match self.pool.acquire(descriptor) {
                Some(c) => ConnectAction::Validate(c, settings),
                None => ConnectAction::Open(settings),
            },
        }
    }

    /// Makes `c` the active connection, to be returned under `descriptor`.
    fn install(&mut self, descriptor: &str, c: C)
        ensures
            final(self).pool == old(self).pool,
            final(self).active == Some(c),
            final(self).key() == Some(descriptor@),
            final(self).trace == old(self).trace,
    {
        self.active = Some(c);
        self.active_key = Some(descriptor.to_owned());
    }

    /// Takes the caller's report of the last requested step. A validated or
    /// newly opened connection becomes active under `descriptor`; a stale one
    /// is discarded, never pooled again, and a new connection is to be opened
    /// with `settings`; a failure to open leaves the session as it was.
    pub fn connect_step(&mut self, descriptor: &str, settings: ConnSettings, ev: ConnectEvent<C>) -> (r:
        ConnectAction<C>)
        requires
            old(self).wf(),
        ensures
            final(self).wf(),
            Self::connect_stepped(*old(self), *final(self), descriptor@, settings@, ev, r),
    {
        match ev {
            ConnectEvent::Validated(c) => {
                self.install(descriptor, c);
                ConnectAction::Installed
            },
            ConnectEvent::Opened(c) => {
                self.install(descriptor, c);
                ConnectAction::Installed
            },
            ConnectEvent::Stale(_) => ConnectAction::Open(settings),
            ConnectEvent::OpenFailed(m) => ConnectAction::Failed(
                BridgeError { class: ErrorClass::Connectivity, detail: m },
            ),
        }
    }

    /// Ends the session: the active connection, if any, goes back to the pool
    /// under its recorded descriptor (or is dropped when none is recorded).
    /// Without an active connection nothing changes.
    pub fn disconnect_db(&mut self)
        requires
            old(self).wf(),
        ensures
            final(self).wf(),
            Self::disconnected(*old(self), *final(self)),
    {
        let taken = self.active.take();
        match taken {
            None => {},
            Some(c) => {
                let key = self.active_key.take();
                match key {
                    Some(k) => {
                        self.pool.release(k.as_str(), c);
                    },
                    None => {},
                }
            },
        }
    }

    /// Takes the active connection out for a statement; fails with a state
    /// error when there is none.
    pub fn take_active(&mut self) -> (r: Result<C, BridgeError>)
        ensures
            final(self).wf() == old(self).wf(),
            final(self).key() == old(self).key(),
            final(self).tracing() == old(self).tracing(),
            final(self).same_pool(old(self)),
            final(self).active() is None,
            old(self).active() matches Some(c) ==> r == Ok::<C, BridgeError>(c),
            old(self).active() is None ==> (r matches Err(e) && e.class == ErrorClass::State
                && e.detail@ == "Database not connected. Call ConnectDb first."@),
    {
        match self.active.take() {
            Some(c) => Ok(c),
            None => Err(BridgeError::new(ErrorClass::State, "Database not connected. Call ConnectDb first.")),
        }
    }

    /// Puts a connection taken by [`Self::take_active`] back.
    pub fn restore_active(&mut self, c: C)
        ensures
            final(self).wf() == old(self).wf(),
            final(self).key() == old(self).key(),
            final(self).tracing() == old(self).tracing(),
            final(self).same_pool(old(self)),
            final(self).active() == Some(c),
    {
        self.active = Some(c);
    }

    /// Starts running `sql`: takes the active connection and decides what text
    /// to send and how. Fails with a state error when nothing is connected.
    pub fn begin_execute(&mut self, sql: &str) -> (r: Result<(C, StatementPlan), BridgeError>)
        ensures
            final(self).wf() == old(self).wf(),
            Self::execute_begun(*old(self), *final(self), sql@, r),
    {
        match self.take_active() {
            Err(e) => Err(e),
            Ok(c) => Ok((c, plan_statement(sql))),
        }
    }

    /// Ends running a statement of kind `kind` on `c`, which becomes active
    /// again. `outcome` holds the result sets the server returned, or the
    /// reason it rejected the statement. A query yields its JSON rows, any
    /// other statement yields no payload.
    pub fn finish_execute(
        &mut self,
        c: C,
        kind: StatementKind,
        outcome: Result<Vec<Vec<Vec<Column>>>, String>,
    ) -> (r: Result<Option<String>, BridgeError>)
        ensures
            final(self).wf() == old(self).wf(),
            final(self).key() == old(self).key(),
            final(self).tracing() == old(self).tracing(),
            final(self).same_pool(old(self)),
            final(self).active() == Some(c),
            outcome matches Err(m) ==> (r matches Err(e) && e.class == ErrorClass::Execution
                && e.detail@ == m@),
            outcome is Ok && kind == StatementKind::MutationOrControl ==> r == Ok::<
                Option<String>,
                BridgeError,
            >(None),
            outcome matches Ok(sets) ==> (kind == StatementKind::Query ==> (r matches Ok(Some(t))
                && Some(t@) == output_of(kind, sets@))),
    {
        self.active = Some(c);
        match outcome {
            Err(m) => Err(BridgeError { class: ErrorClass::Execution, detail: m }),
            Ok(sets) => match kind {
                StatementKind::MutationOrControl => Ok(None),
                StatementKind::Query => Ok(Some(execute_select_query(&sets))),
            },
        }
    }

    /// Starts an explicit transaction-control statement: takes the active
    /// connection and gives the text to send. Fails with a state error when
    /// nothing is connected.
    pub fn begin_transaction_op(&mut self, op: TransactionOp) -> (r: Result<(C, &'static str), BridgeError>)
        ensures
            final(self).wf() == old(self).wf(),
            final(self).key() == old(self).key(),
            final(self).tracing() == old(self).tracing(),
            final(self).same_pool(old(self)),
            final(self).active() is None,
            old(self).active() is None ==> (r matches Err(e) && e.class == ErrorClass::State
                && e.detail@ == "Database not connected."@),
            old(self).active() matches Some(c) ==> (r matches Ok(p) && p.0 == c && p.1@
                == transaction_text(op)),
    {
        match self.active.take() {
            Some(c) => Ok((c, transaction_statement(op))),
            None => Err(BridgeError::new(ErrorClass::State, "Database not connected.")),
        }
    }

    /// Ends a transaction-control statement on `c`, which becomes active again.
    pub fn finish_transaction_op(&mut self, c: C, outcome: Result<(), String>) -> (r: Result<(), BridgeError>)
        ensures
            final(self).wf() == old(self).wf(),
            final(self).key() == old(self).key(),
            final(self).tracing() == old(self).tracing(),
            final(self).same_pool(old(self)),
            final(self).active() == Some(c),
            outcome is Ok ==> r is Ok,
            outcome matches Err(m) ==> (r matches Err(e) && e.class == ErrorClass::Execution
                && e.detail@ == m@),
    {
        self.active = Some(c);
        match outcome {
            Ok(()) => Ok(()),
            Err(m) => Err(BridgeError { class: ErrorClass::Execution, detail: m }),
        }
    }
}

/// Connecting with a descriptor, disconnecting, then connecting with the same
/// descriptor again hands back, for validation, the very connection that the
/// first connect installed, and leaves that descriptor's idle stack as it was
/// before the first connect.
pub proof fn lemma_reconnect_reuses_connection<C>(
    s0: Engine<C>,
    s1: Engine<C>,
    s2: Engine<C>,
    s3: Engine<C>,
    d: Seq<char>,
    settings: SettingsView,
    ev: ConnectEvent<C>,
    c: C,
    r1: ConnectAction<C>,
    r3: ConnectAction<C>,
)
    requires
        s0.wf(),
        s1.wf(),
        s2.wf(),
        ev == ConnectEvent::Opened(c) || ev == ConnectEvent::Validated(c),
        Engine::connect_stepped(s0, s1, d, settings, ev, r1),
        Engine::disconnected(s1, s2),
        descriptor_ok(d),
        Engine::connect_begun(s2, s3, d, r3),
    ensures
        r3 matches ConnectAction::Validate(c3, s) && c3 == c && s@ == settings_of(d),
        s3.idle(d) == s0.idle(d),
{
    assert(s1.idle(d) == s0.idle(d));
    assert(s2.idle(d) == s1.idle(d).push(c));
    assert(s2.idle(d).drop_last() =~= s1.idle(d));
}

/// Disconnecting twice is the same as disconnecting once.
pub proof fn lemma_disconnect_idempotent<C>(s0: Engine<C>, s1: Engine<C>, s2: Engine<C>)
    requires
        Engine::disconnected(s0, s1),
        Engine::disconnected(s1, s2),
    ensures
        s2 == s1,
{
}

/// Running a statement on a session that has never connected fails with a
/// state error.
pub proof fn lemma_execute_needs_connection<C>(
    s0: Engine<C>,
    s1: Engine<C>,
    sql: Seq<char>,
    r: Result<(C, StatementPlan), BridgeError>,
)
    requires
        s0.active() is None,
        Engine::execute_begun(s0, s1, sql, r),
    ensures
        r matches Err(e) && e.class == ErrorClass::State && e.detail@ == "Database not connected. Call ConnectDb first."@,
        s1.same_pool(&s0),
        s1.key() == s0.key(),
        s1.active() == s0.active(),
{
}

/// Connecting with a descriptor under which connections are kept, when the
/// most recently released one passes validation, makes that connection active
/// and takes it off the top of the descriptor's stack; what other descriptors
/// keep is untouched.
pub proof fn lemma_pool_hit_reuses_latest<C>(
    s0: Engine<C>,
    s1: Engine<C>,
    s2: Engine<C>,
    d: Seq<char>,
    c: C,
    settings: SettingsView,
    r1: ConnectAction<C>,
    r2: ConnectAction<C>,
)
    requires
        s0.wf(),
        s1.wf(),
        descriptor_ok(d),
        s0.idle(d).len() > 0,
        Engine::connect_begun(s0, s1, d, r1),
        r1 matches ConnectAction::Validate(c1, s) && c1 == c && s@ == settings,
        Engine::connect_stepped(s1, s2, d, settings, ConnectEvent::Validated(c), r2),
    ensures
        r2 is Installed,
        c == s0.idle(d).last(),
        s2.active() == Some(c),
        s2.key() == Some(d),
        s2.idle(d) == s0.idle(d).drop_last(),
        forall|k: Seq<char>| k != d ==> #[trigger] s2.idle(k) == s0.idle(k),
{
    assert forall|k: Seq<char>| k != d implies #[trigger] s2.idle(k) == s0.idle(k) by {
        assert(s2.idle(k) == s1.idle(k));
    }
    assert(s2.idle(d) == s1.idle(d));
}

} // verus!
