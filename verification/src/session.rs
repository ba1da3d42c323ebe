//! The decisions around a database session: the state of the connection
//! and the write policy, the state of the running query and its result
//! page, the events that report them, and the text that each puts up.
//!
//! The session's own work (connecting, running a statement, cancelling)
//! happens outside; what comes back is handed in as plain values. Times are
//! milliseconds since the epoch, query ids are 128-bit numbers, and an
//! error is carried as the text it displays.
use crate::chars::{decimal, u64_to_decimal, usize_to_decimal};
use vstd::prelude::*;

verus! {

/// The state of the connection. Profile and session ids are 128-bit
/// numbers.
#[derive(Debug, Clone)]
pub enum ConnectionState {
    Disconnected,
    Connecting { profile_id: u128, attempt: u32 },
    Connected {
        profile_id: u128,
        session_id: u128,
        server_version: String,
        database: String,
        read_only: bool,
    },
    Failed { profile_id: u128, error: String, retries: u32 },
}

/// Whether statements that write may run: never, or each after the user
/// confirms it.
#[derive(Debug, Clone, Copy, PartialEq, Eq, Structural)]
pub enum WritePolicy {
    ReadOnly,
    ConfirmWrites,
}

/// The state of a query.
#[derive(Debug, Clone)]
pub enum QueryState {
    Executing { started_at: i64 },
    Completed { started_at: i64, completed_at: i64, total_rows: usize },
    Failed { started_at: i64, error: String },
    Cancelled { started_at: i64, cancelled_at: i64 },
}

/// A page of results: the result set's columns by name, its rows as the
/// text each cell displays, which page it is, and whether more follow.
#[derive(Debug, Clone)]
pub struct ResultPage {
    pub columns: Vec<String>,
    pub rows: Vec<Vec<String>>,
    pub page_index: usize,
    pub has_more: bool,
}

/// What the session reports to the views.
#[derive(Debug, Clone)]
pub enum AppEvent {
    /// The connection changed state.
    ConnectionStateChanged(ConnectionState),
    /// A query changed state.
    QueryStateChanged { query_id: u128, state: QueryState },
    /// A page of results is ready.
    ResultPageReady { query_id: u128, page: ResultPage },
    /// The write policy changed.
    WritePolicyChanged(WritePolicy),
}

/// `e` reports that query `id` is now in state `s` (an error by its text).
pub open spec fn reports_state(e: AppEvent, id: u128, s: QueryState) -> bool {
    e matches AppEvent::QueryStateChanged { query_id, state } && query_id == id && same_state(
        state,
        s,
    )
}

/// Two query states agree, errors compared by their text.
pub open spec fn same_state(a: QueryState, b: QueryState) -> bool {
    match (a, b) {
        (
            QueryState::Failed { started_at: s1, error: e1 },
            QueryState::Failed { started_at: s2, error: e2 },
        ) => s1 == s2 && e1@ == e2@,
        (QueryState::Failed { .. }, _) => false,
        (_, QueryState::Failed { .. }) => false,
        _ => a == b,
    }
}

/// The current time in milliseconds since the epoch:
/// `chrono::Utc::now().timestamp_millis()`. The clock decides, so nothing
/// is promised of the value; `Utc::now` panics if the system clock reads
/// before the epoch.
#[verifier::external_body]
fn now_millis() -> (t: i64) {
    chrono::Utc::now().timestamp_millis()
}

/// The running query, as the session tracks it.
pub struct QueryTracker {
    active: Option<(u128, QueryState)>,
}

impl QueryTracker {
    /// The latest query and its state, if any was started.
    pub closed spec fn active_view(&self) -> Option<(u128, QueryState)> {
        self.active
    }

    pub fn new() -> (t: Self)
        ensures
            t.active_view() is None,
    {
        QueryTracker { active: None }
    }

    /// Starts query `query_id` at time `now`: without a session nothing
    /// happens; else the query is executing and that is reported.
    pub fn start(&mut self, has_session: bool, query_id: u128, now: i64) -> (e: Option<AppEvent>)
        ensures
            !has_session ==> e is None && final(self).active_view() == old(self).active_view(),
            has_session ==> final(self).active_view() == Some(
                (query_id, (QueryState::Executing { started_at: now })),
            ) && (e matches Some(ev) && reports_state(
                ev,
                query_id,
                (QueryState::Executing { started_at: now }),
            )),
    {
        if !has_session {
            return None;
        }
        self.active = Some((query_id, QueryState::Executing { started_at: now }));
        Some(
            AppEvent::QueryStateChanged {
                query_id,
                state: QueryState::Executing { started_at: now },
            },
        )
    }

    /// Starts query `query_id` now, as `start` does at the clock's current
    /// time.
    pub fn start_now(&mut self, has_session: bool, query_id: u128) -> (e: Option<AppEvent>)
        ensures
            !has_session ==> e is None && final(self).active_view() == old(self).active_view(),
            has_session ==> exists|now: i64|
                final(self).active_view() == Some(
                    (query_id, (QueryState::Executing { started_at: now })),
                ) && (e matches Some(ev) && reports_state(
                    ev,
                    query_id,
                    (QueryState::Executing { started_at: now }),
                )),
    {
        if !has_session {
            return None;
        }
        let now = now_millis();
        self.start(has_session, query_id, now)
    }

    /// Completes query `query_id` now, as `complete` does at the clock's
    /// current time.
    pub fn complete_now(
        &mut self,
        query_id: u128,
        started_at: i64,
        total_rows: usize,
        columns: Vec<String>,
        rows: Vec<Vec<String>>,
    ) -> (events: Vec<AppEvent>)
        ensures
            exists|completed_at: i64|
                {
                    &&& final(self).active_view() == Some(
                        (
                            query_id,
                            (QueryState::Completed { started_at, completed_at, total_rows }),
                        ),
                    )
                    &&& events@.len() == 2
                    &&& reports_state(
                        events@[0],
                        query_id,
                        (QueryState::Completed { started_at, completed_at, total_rows }),
                    )
                },
            events@.len() == 2,
            events@[1] == (AppEvent::ResultPageReady {
                query_id,
                page: ResultPage { columns, rows, page_index: 0, has_more: false },
            }),
    {
        let completed_at = now_millis();
        self.complete(query_id, started_at, completed_at, total_rows, columns, rows)
    }

    /// Records query `query_id` as cancelled now, as `cancelled` does at the
    /// clock's current time.
    pub fn cancelled_now(&mut self, query_id: u128, started_at: i64) -> (e: AppEvent)
        ensures
            exists|cancelled_at: i64|
                final(self).active_view() == Some(
                    (query_id, (QueryState::Cancelled { started_at, cancelled_at })),
                ) && reports_state(e, query_id, (QueryState::Cancelled { started_at, cancelled_at })),
    {
        let cancelled_at = now_millis();
        self.cancelled(query_id, started_at, cancelled_at)
    }

    /// Query `query_id`, started at `started_at`, finished at `completed_at`
    /// with `total_rows` rows; the result set has `columns` and `rows`: the
    /// query is completed, which is reported, followed by the result set as
    /// its first and only page.
    pub fn complete(
        &mut self,
        query_id: u128,
        started_at: i64,
        completed_at: i64,
        total_rows: usize,
        columns: Vec<String>,
        rows: Vec<Vec<String>>,
    ) -> (events: Vec<AppEvent>)
        ensures
            final(self).active_view() == Some(
                (query_id, (QueryState::Completed { started_at, completed_at, total_rows })),
            ),
            events@.len() == 2,
            reports_state(
                events@[0],
                query_id,
                (QueryState::Completed { started_at, completed_at, total_rows }),
            ),
            events@[1] == (AppEvent::ResultPageReady {
                query_id,
                page: ResultPage { columns, rows, page_index: 0, has_more: false },
            }),
    {
        let state = QueryState::Completed { started_at, completed_at, total_rows };
        self.active = Some((query_id, QueryState::Completed { started_at, completed_at, total_rows }));
        vec![
            AppEvent::QueryStateChanged { query_id, state },
            AppEvent::ResultPageReady {
                query_id,
                page: ResultPage { columns, rows, page_index: 0, has_more: false },
            },
        ]
    }

    /// Query `query_id`, started at `started_at`, failed with `error`: it is
    /// failed, which is reported.
    pub fn fail(&mut self, query_id: u128, started_at: i64, error: String) -> (e: AppEvent)
        ensures
            (final(self).active_view() matches Some((id, s)) && id == query_id && same_state(
                s,
                (QueryState::Failed { started_at, error }),
            )),
            reports_state(e, query_id, (QueryState::Failed { started_at, error })),
    {
        let kept = error.clone();
        self.active = Some((query_id, QueryState::Failed { started_at, error: kept }));
        AppEvent::QueryStateChanged { query_id, state: QueryState::Failed { started_at, error } }
    }

    /// The query a cancel request is for: the active one while it is
    /// executing and there is a session; else none.
    pub fn cancel_target(&self, has_session: bool) -> (r: Option<(u128, i64)>)
        ensures
            r == if has_session {
                match self.active_view() {
                    Some((id, (QueryState::Executing { started_at }))) => Some((id, started_at)),
                    _ => None,
                }
            } else {
                None
            },
    {
        if !has_session {
            return None;
        }
        match &self.active {
            Some((id, QueryState::Executing { started_at })) => Some((*id, *started_at)),
            _ => None,
        }
    }

    /// Query `query_id`, started at `started_at`, was cancelled at
    /// `cancelled_at`: it is cancelled, which is reported.
    pub fn cancelled(&mut self, query_id: u128, started_at: i64, cancelled_at: i64) -> (e: AppEvent)
        ensures
            final(self).active_view() == Some(
                (query_id, (QueryState::Cancelled { started_at, cancelled_at })),
            ),
            reports_state(e, query_id, (QueryState::Cancelled { started_at, cancelled_at })),
    {
        self.active = Some((query_id, QueryState::Cancelled { started_at, cancelled_at }));
        AppEvent::QueryStateChanged {
            query_id,
            state: QueryState::Cancelled { started_at, cancelled_at },
        }
    }
}

/// A fresh random session id: the 128-bit value of `uuid::Uuid::new_v4()`.
/// The value comes from the operating system's random source, so nothing
/// is promised of it beyond the version and variant bits that `new_v4`
/// sets; `new_v4` panics if no random bytes can be had.
#[verifier::external_body]
fn new_session_id() -> (id: u128)
    ensures
        (id >> 76u128) & 0xfu128 == 4u128,
        (id >> 62u128) & 0x3u128 == 2u128,
{
    uuid::Uuid::new_v4().as_u128()
}

/// The state and write policy once profile `profile_id` has connected as
/// session `session_id`: connected to `database` at `server_version`,
/// read-only exactly when the profile says so by default, and the policy
/// to match.
pub fn connected_outcome(
    profile_id: u128,
    session_id: u128,
    server_version: String,
    database: String,
    read_only_default: bool,
) -> (r: (ConnectionState, WritePolicy))
    ensures
        r.0 == (ConnectionState::Connected {
            profile_id,
            session_id,
            server_version,
            database,
            read_only: read_only_default,
        }),
        r.1 == (if read_only_default {
            WritePolicy::ReadOnly
        } else {
            WritePolicy::ConfirmWrites
        }),
{
    let policy = if read_only_default {
        WritePolicy::ReadOnly
    } else {
        WritePolicy::ConfirmWrites
    };
    (
        ConnectionState::Connected {
            profile_id,
            session_id,
            server_version,
            database,
            read_only: read_only_default,
        },
        policy,
    )
}

/// The other write policy.
pub open spec fn toggled(p: WritePolicy) -> WritePolicy {
    match p {
        WritePolicy::ReadOnly => WritePolicy::ConfirmWrites,
        WritePolicy::ConfirmWrites => WritePolicy::ReadOnly,
    }
}

/// A copy of a connection state.
fn copy_state(s: &ConnectionState) -> (c: ConnectionState)
    ensures
        c == *s,
{
    match s {
        ConnectionState::Disconnected => ConnectionState::Disconnected,
        ConnectionState::Connecting { profile_id, attempt } => ConnectionState::Connecting {
            profile_id: *profile_id,
            attempt: *attempt,
        },
        ConnectionState::Connected {
            profile_id,
            session_id,
            server_version,
            database,
            read_only,
        } => ConnectionState::Connected {
            profile_id: *profile_id,
            session_id: *session_id,
            server_version: server_version.clone(),
            database: database.clone(),
            read_only: *read_only,
        },
        ConnectionState::Failed { profile_id, error, retries } => ConnectionState::Failed {
            profile_id: *profile_id,
            error: error.clone(),
            retries: *retries,
        },
    }
}

/// The connection as the session tracks it, with the write policy in force.
pub struct ConnectionTracker {
    state: ConnectionState,
    policy: WritePolicy,
}

impl ConnectionTracker {
    /// The state of the connection.
    pub closed spec fn state_view(&self) -> ConnectionState {
        self.state
    }

    /// The write policy in force.
    pub closed spec fn policy_view(&self) -> WritePolicy {
        self.policy
    }

    /// Disconnected, and read-only.
    pub fn new() -> (t: Self)
        ensures
            t.state_view() == ConnectionState::Disconnected,
            t.policy_view() == WritePolicy::ReadOnly,
    {
        ConnectionTracker { state: ConnectionState::Disconnected, policy: WritePolicy::ReadOnly }
    }

    /// The state of the connection.
    pub fn state(&self) -> (s: &ConnectionState)
        ensures
            *s == self.state_view(),
    {
        &self.state
    }

    /// The write policy in force.
    pub fn write_policy(&self) -> (p: WritePolicy)
        ensures
            p == self.policy_view(),
    {
        self.policy
    }

    /// Whether a session is connected.
    pub fn is_connected(&self) -> (b: bool)
        ensures
            b == (self.state_view() is Connected),
    {
        matches!(self.state, ConnectionState::Connected { .. })
    }

    /// A connection to profile `profile_id` begins: its first attempt is
    /// under way, which is reported; the policy stays.
    pub fn begin_connect(&mut self, profile_id: u128) -> (e: AppEvent)
        ensures
            final(self).state_view() == (ConnectionState::Connecting { profile_id, attempt: 1 }),
            final(self).policy_view() == old(self).policy_view(),
            e == AppEvent::ConnectionStateChanged(final(self).state_view()),
    {
        self.state = ConnectionState::Connecting { profile_id, attempt: 1 };
        AppEvent::ConnectionStateChanged(ConnectionState::Connecting { profile_id, attempt: 1 })
    }

    /// Profile `profile_id` connected to `database` at `server_version`:
    /// the connection gets a fresh session id, is read-only exactly when
    /// the profile says so by default, the policy follows, and the new
    /// state is reported.
    pub fn connected(
        &mut self,
        profile_id: u128,
        server_version: String,
        database: String,
        read_only_default: bool,
    ) -> (e: AppEvent)
        ensures
            exists|session_id: u128|
                final(self).state_view() == (ConnectionState::Connected {
                    profile_id,
                    session_id,
                    server_version,
                    database,
                    read_only: read_only_default,
                }),
            final(self).policy_view() == (if read_only_default {
                WritePolicy::ReadOnly
            } else {
                WritePolicy::ConfirmWrites
            }),
            e == AppEvent::ConnectionStateChanged(final(self).state_view()),
    {
        let session_id = new_session_id();
        let (state, policy) = connected_outcome(
            profile_id,
            session_id,
            server_version,
            database,
            read_only_default,
        );
        let reported = copy_state(&state);
        self.state = state;
        self.policy = policy;
        AppEvent::ConnectionStateChanged(reported)
    }

    /// The connection to profile `profile_id` failed with `error`: it is
    /// failed, with no retries yet, which is reported; the policy stays.
    pub fn connect_failed(&mut self, profile_id: u128, error: String) -> (e: AppEvent)
        ensures
            final(self).state_view() == (ConnectionState::Failed { profile_id, error, retries: 0 }),
            final(self).policy_view() == old(self).policy_view(),
            e == AppEvent::ConnectionStateChanged(final(self).state_view()),
    {
        let reported = error.clone();
        self.state = ConnectionState::Failed { profile_id, error, retries: 0 };
        AppEvent::ConnectionStateChanged(
            ConnectionState::Failed { profile_id, error: reported, retries: 0 },
        )
    }

    /// The session is dropped: disconnected, which is reported; the policy
    /// stays.
    pub fn disconnect(&mut self) -> (e: AppEvent)
        ensures
            final(self).state_view() == ConnectionState::Disconnected,
            final(self).policy_view() == old(self).policy_view(),
            e == AppEvent::ConnectionStateChanged(ConnectionState::Disconnected),
    {
        self.state = ConnectionState::Disconnected;
        AppEvent::ConnectionStateChanged(ConnectionState::Disconnected)
    }

    /// Read-only is switched on or off: the policy flips, which is
    /// reported; the connection stays.
    pub fn toggle_write_policy(&mut self) -> (e: AppEvent)
        ensures
            final(self).policy_view() == toggled(old(self).policy_view()),
            final(self).state_view() == old(self).state_view(),
            e == AppEvent::WritePolicyChanged(final(self).policy_view()),
    {
        self.policy = match self.policy {
            WritePolicy::ReadOnly => WritePolicy::ConfirmWrites,
            WritePolicy::ConfirmWrites => WritePolicy::ReadOnly,
        };
        AppEvent::WritePolicyChanged(self.policy)
    }
}

/// Toggling the write policy twice gives back the policy it started from.
pub proof fn law_toggle_twice_restores(p: WritePolicy)
    ensures
        toggled(toggled(p)) == p,
{
}

/// The status line for a connection state.
pub open spec fn connection_status_text(state: ConnectionState) -> Seq<char> {
    match state {
        ConnectionState::Connected { database, server_version, .. } => "Connected to "@
            + database@ + " — "@ + server_version@,
        ConnectionState::Disconnected => "Disconnected"@,
        ConnectionState::Connecting { .. } => "Connecting..."@,
        ConnectionState::Failed { error, .. } => "Connection failed: "@ + error@,
    }
}

/// The status line for a query state, if it puts one up.
pub open spec fn query_status_text(state: QueryState) -> Option<Seq<char>> {
    match state {
        QueryState::Executing { .. } => Some("Executing..."@),
        QueryState::Failed { error, .. } => Some("Error: "@ + error@),
        QueryState::Cancelled { .. } => Some("Query cancelled"@),
        QueryState::Completed { .. } => None,
    }
}

/// The status line for a page of `rows` rows that took `ms` milliseconds.
pub open spec fn rows_status_text(rows: nat, ms: nat) -> Seq<char> {
    decimal(rows) + (if rows == 1 {
        " row in "@
    } else {
        " rows in "@
    }) + decimal(ms) + "ms"@
}

/// The status line for a connection state.
pub fn connection_status(state: &ConnectionState) -> (s: String)
    ensures
        s@ == connection_status_text(*state),
{
    match state {
        ConnectionState::Connected { database, server_version, .. } => {
            let mut s = "Connected to ".to_owned();
            s.append(database.as_str());
            s.append(" — ");
            s.append(server_version.as_str());
            s
        },
        ConnectionState::Disconnected => "Disconnected".to_owned(),
        ConnectionState::Connecting { .. } => "Connecting...".to_owned(),
        ConnectionState::Failed { error, .. } => {
            let mut s = "Connection failed: ".to_owned();
            s.append(error.as_str());
            s
        },
    }
}

/// The status line for a query state, if it puts one up: a completed query
/// leaves the line to its result page.
pub fn query_status(state: &QueryState) -> (s: Option<String>)
    ensures
        match (s, query_status_text(*state)) {
            (Some(t), Some(u)) => t@ == u,
            (None, None) => true,
            _ => false,
        },
{
    match state {
        QueryState::Executing { .. } => Some("Executing...".to_owned()),
        QueryState::Failed { error, .. } => {
            let mut s = "Error: ".to_owned();
            s.append(error.as_str());
            Some(s)
        },
        QueryState::Cancelled { .. } => Some("Query cancelled".to_owned()),
        QueryState::Completed { .. } => None,
    }
}

/// The status line for a page of `row_count` rows that took `duration_ms`:
/// `1 row in 5ms`, `3 rows in 12ms`.
pub fn rows_status(row_count: usize, duration_ms: u64) -> (s: String)
    ensures
        s@ == rows_status_text(row_count as nat, duration_ms as nat),
{
    let mut s = usize_to_decimal(row_count);
    if row_count == 1 {
        s.append(" row in ");
    } else {
        s.append(" rows in ");
    }
    let ms = u64_to_decimal(duration_ms);
    s.append(ms.as_str());
    s.append("ms");
    s
}

/// The status line an event puts up, if any; `duration_ms` is how long the
/// query whose page is ready took.
pub fn status_for_event(event: &AppEvent, duration_ms: u64) -> (s: Option<String>)
    ensures
        match event {
            AppEvent::ConnectionStateChanged(state) => s matches Some(t) && t@
                == connection_status_text(*state),
            AppEvent::QueryStateChanged { state, .. } => match (s, query_status_text(*state)) {
                (Some(t), Some(u)) => t@ == u,
                (None, None) => true,
                _ => false,
            },
            AppEvent::ResultPageReady { page, .. } => s matches Some(t) && t@ == rows_status_text(
                page.rows@.len(),
                duration_ms as nat,
            ),
            AppEvent::WritePolicyChanged(_) => s is None,
        },
{
    match event {
        AppEvent::ConnectionStateChanged(state) => Some(connection_status(state)),
        AppEvent::QueryStateChanged { state, .. } => query_status(state),
        AppEvent::ResultPageReady { page, .. } => Some(rows_status(page.rows.len(), duration_ms)),
        AppEvent::WritePolicyChanged(_) => None,
    }
}

/// The toolbar's label for a connection state, with its colour as
/// `0xRRGGBB`.
pub open spec fn toolbar_label_text(state: ConnectionState) -> (Seq<char>, u32) {
    match state {
        ConnectionState::Disconnected => ("Disconnected"@, 0x888888u32),
        ConnectionState::Connecting { .. } => ("Connecting..."@, 0xccaa00u32),
        ConnectionState::Connected { database, read_only, .. } => (
            database@ + (if read_only {
                " (read-only)"@
            } else {
                ""@
            }),
            0x4ec94eu32,
        ),
        ConnectionState::Failed { error, .. } => ("Failed: "@ + error@, 0xf14c4cu32),
    }
}

/// The toolbar's label for a connection state, with its colour: the
/// database's name, marked when the session is read-only.
pub fn toolbar_label(state: &ConnectionState) -> (r: (String, u32))
    ensures
        r.0@ == toolbar_label_text(*state).0,
        r.1 == toolbar_label_text(*state).1,
{
    match state {
        ConnectionState::Disconnected => ("Disconnected".to_owned(), 0x888888),
        ConnectionState::Connecting { .. } => ("Connecting...".to_owned(), 0xccaa00),
        ConnectionState::Connected { database, read_only, .. } => {
            let mut s = database.clone();
            if *read_only {
                s.append(" (read-only)");
            }
            proof {
                reveal_strlit("");
            }
            (s, 0x4ec94e)
        },
        ConnectionState::Failed { error, .. } => {
            let mut s = "Failed: ".to_owned();
            s.append(error.as_str());
            (s, 0xf14c4c)
        },
    }
}

/// The cells of a row joined by tabs.
pub open spec fn tab_joined(cells: Seq<String>) -> Seq<char>
    decreases cells.len(),
{
    if cells.len() == 0 {
        Seq::empty()
    } else if cells.len() == 1 {
        cells[0]@
    } else {
        tab_joined(cells.drop_last()) + seq!['\t'] + cells.last()@
    }
}

/// What copying the selected row puts on the clipboard: its cells joined
/// by tabs; nothing when no row is selected or the selection is past the
/// last row.
pub fn copied_row(rows: &Vec<Vec<String>>, selected: Option<usize>) -> (r: Option<String>)
    ensures
        match selected {
            Some(i) if i < rows@.len() => r matches Some(t) && t@ == tab_joined(rows@[i as int]@),
            _ => r is None,
        },
{
    match selected {
        Some(i) => {
            if i < rows.len() {
                let row = &rows[i];
                let mut s = String::new();
                let mut k: usize = 0;
                while k < row.len()
                    invariant
                        k <= row@.len(),
                        s@ == tab_joined(row@.take(k as int)),
                    decreases row@.len() - k,
                {
                    proof {
                        assert(row@.take(k + 1).drop_last() =~= row@.take(k as int));
                    }
                    if k > 0 {
                        s.append("\t");
                        proof {
                            reveal_strlit("\t");
                        }
                    }
                    s.append(row[k].as_str());
                    k += 1;
                }
                proof {
                    assert(row@.take(row@.len() as int) =~= row@);
                }
                Some(s)
            } else {
                None
            }
        },
        None => None,
    }
}

/// The hint beside the row count: which row is selected (counted from 1)
/// and how to copy it; empty when none is.
pub open spec fn selection_hint_text(selected: Option<usize>) -> Seq<char> {
    match selected {
        Some(i) => "Row "@ + decimal((i + 1) as nat) + " selected — Cmd+C to copy"@,
        None => Seq::empty(),
    }
}

/// The hint beside the row count for the selected row.
pub fn selection_hint(selected: Option<usize>) -> (s: String)
    requires
        selected matches Some(i) ==> i < usize::MAX,
    ensures
        s@ == selection_hint_text(selected),
{
    match selected {
        Some(i) => {
            let mut s = "Row ".to_owned();
            let n = usize_to_decimal(i + 1);
            s.append(n.as_str());
            s.append(" selected — Cmd+C to copy");
            s
        },
        None => String::new(),
    }
}

} // verus!
