use pgblade::session::{
    connected_outcome, connection_status, copied_row, query_status, rows_status, selection_hint,
    status_for_event, toolbar_label, AppEvent, ConnectionState, ConnectionTracker, QueryState,
    QueryTracker, ResultPage, WritePolicy,
};

fn strings(xs: &[&str]) -> Vec<String> {
    xs.iter().map(|x| x.to_string()).collect()
}

#[test]
fn starting_without_a_session_does_nothing() {
    let mut t = QueryTracker::new();
    assert!(t.start(false, 7, 1000).is_none());
    assert!(t.cancel_target(true).is_none());
}

#[test]
fn a_query_runs_to_completion() {
    let mut t = QueryTracker::new();
    match t.start(true, 7, 1000) {
        Some(AppEvent::QueryStateChanged { query_id: 7, state: QueryState::Executing { started_at: 1000 } }) => {}
        other => panic!("unexpected {:?}", other),
    }
    assert_eq!(t.cancel_target(true), Some((7, 1000)));
    assert_eq!(t.cancel_target(false), None);
    let rows = vec![strings(&["1", "a"]), strings(&["2", "b"]), strings(&["3", "NULL"])];
    let events = t.complete(7, 1000, 1012, 3, strings(&["id", "name"]), rows.clone());
    assert_eq!(events.len(), 2);
    assert!(matches!(
        events[0],
        AppEvent::QueryStateChanged {
            query_id: 7,
            state: QueryState::Completed { started_at: 1000, completed_at: 1012, total_rows: 3 }
        }
    ));
    match &events[1] {
        AppEvent::ResultPageReady { query_id: 7, page } => {
            assert_eq!(page.columns, strings(&["id", "name"]));
            assert_eq!(page.rows, rows);
            assert_eq!(page.page_index, 0);
            assert!(!page.has_more);
        }
        other => panic!("unexpected {:?}", other),
    }
    assert_eq!(status_for_event(&events[1], 12).as_deref(), Some("3 rows in 12ms"));
    assert!(t.cancel_target(true).is_none());
}

#[test]
fn failures_and_cancellations_are_reported() {
    let mut t = QueryTracker::new();
    t.start(true, 1, 10);
    match t.fail(1, 10, "syntax error".to_string()) {
        AppEvent::QueryStateChanged { query_id: 1, state: QueryState::Failed { started_at: 10, error } } => {
            assert_eq!(error, "syntax error")
        }
        other => panic!("unexpected {:?}", other),
    }
    t.start(true, 2, 20);
    assert!(matches!(
        t.cancelled(2, 20, 25),
        AppEvent::QueryStateChanged { query_id: 2, state: QueryState::Cancelled { started_at: 20, cancelled_at: 25 } }
    ));
}

#[test]
fn status_lines_follow_the_events() {
    let connected = ConnectionState::Connected {
        profile_id: 1,
        session_id: 2,
        database: "app".to_string(),
        server_version: "PostgreSQL 16.2".to_string(),
        read_only: false,
    };
    assert_eq!(connection_status(&connected), "Connected to app — PostgreSQL 16.2");
    assert_eq!(connection_status(&ConnectionState::Disconnected), "Disconnected");
    assert_eq!(
        connection_status(&ConnectionState::Connecting { profile_id: 1, attempt: 1 }),
        "Connecting..."
    );
    assert_eq!(
        connection_status(&ConnectionState::Failed {
            profile_id: 1,
            error: "timeout".to_string(),
            retries: 0
        }),
        "Connection failed: timeout"
    );
    assert_eq!(query_status(&QueryState::Executing { started_at: 0 }).as_deref(), Some("Executing..."));
    assert_eq!(
        query_status(&QueryState::Failed { started_at: 0, error: "boom".to_string() }).as_deref(),
        Some("Error: boom")
    );
    assert_eq!(
        query_status(&QueryState::Cancelled { started_at: 0, cancelled_at: 1 }).as_deref(),
        Some("Query cancelled")
    );
    assert_eq!(
        query_status(&QueryState::Completed { started_at: 0, completed_at: 1, total_rows: 2 }),
        None
    );
    assert_eq!(rows_status(1, 5), "1 row in 5ms");
    assert_eq!(rows_status(0, 0), "0 rows in 0ms");
    assert_eq!(rows_status(42, 1234), "42 rows in 1234ms");
    let page = AppEvent::ResultPageReady {
        query_id: 3,
        page: ResultPage {
            columns: strings(&["n"]),
            rows: vec![strings(&["1"])],
            page_index: 0,
            has_more: false,
        },
    };
    assert_eq!(status_for_event(&page, 17).as_deref(), Some("1 row in 17ms"));
    assert_eq!(
        status_for_event(&AppEvent::ConnectionStateChanged(ConnectionState::Disconnected), 0).as_deref(),
        Some("Disconnected")
    );
    assert_eq!(status_for_event(&AppEvent::WritePolicyChanged(WritePolicy::ReadOnly), 0), None);
}

#[test]
fn connecting_sets_state_and_policy() {
    let mut c = ConnectionTracker::new();
    assert!(matches!(c.state(), ConnectionState::Disconnected));
    assert_eq!(c.write_policy(), WritePolicy::ReadOnly);
    assert!(!c.is_connected());
    assert!(matches!(
        c.begin_connect(9),
        AppEvent::ConnectionStateChanged(ConnectionState::Connecting { profile_id: 9, attempt: 1 })
    ));
    match c.connected(9, "16.2".to_string(), "app".to_string(), false) {
        AppEvent::ConnectionStateChanged(ConnectionState::Connected {
            profile_id: 9,
            server_version,
            database,
            read_only: false,
            ..
        }) => {
            assert_eq!(server_version, "16.2");
            assert_eq!(database, "app");
        }
        other => panic!("unexpected {:?}", other),
    }
    assert!(c.is_connected());
    assert_eq!(c.write_policy(), WritePolicy::ConfirmWrites);
    assert!(matches!(c.disconnect(), AppEvent::ConnectionStateChanged(ConnectionState::Disconnected)));
    assert!(!c.is_connected());
    assert_eq!(c.write_policy(), WritePolicy::ConfirmWrites);
}

#[test]
fn read_only_profiles_connect_read_only() {
    let (state, policy) = connected_outcome(4, 77, "15".to_string(), "prod".to_string(), true);
    assert_eq!(policy, WritePolicy::ReadOnly);
    match state {
        ConnectionState::Connected { profile_id: 4, session_id: 77, read_only: true, database, .. } => {
            assert_eq!(database, "prod")
        }
        other => panic!("unexpected {:?}", other),
    }
    let mut c = ConnectionTracker::new();
    c.connected(4, "15".to_string(), "prod".to_string(), true);
    assert_eq!(c.write_policy(), WritePolicy::ReadOnly);
}

#[test]
fn session_ids_are_random_version_four() {
    let mut c = ConnectionTracker::new();
    let first = match c.connected(1, "16".to_string(), "a".to_string(), false) {
        AppEvent::ConnectionStateChanged(ConnectionState::Connected { session_id, .. }) => session_id,
        other => panic!("unexpected {:?}", other),
    };
    let second = match c.connected(1, "16".to_string(), "a".to_string(), false) {
        AppEvent::ConnectionStateChanged(ConnectionState::Connected { session_id, .. }) => session_id,
        other => panic!("unexpected {:?}", other),
    };
    assert_ne!(first, second);
    assert_eq!((first >> 76) & 0xf, 4);
    assert_eq!((first >> 62) & 0x3, 2);
}

#[test]
fn failed_connections_start_without_retries() {
    let mut c = ConnectionTracker::new();
    c.begin_connect(3);
    match c.connect_failed(3, "refused".to_string()) {
        AppEvent::ConnectionStateChanged(ConnectionState::Failed { profile_id: 3, error, retries: 0 }) => {
            assert_eq!(error, "refused")
        }
        other => panic!("unexpected {:?}", other),
    }
    assert!(!c.is_connected());
    assert_eq!(c.write_policy(), WritePolicy::ReadOnly);
}

#[test]
fn toggling_the_write_policy_twice_restores_it() {
    let mut c = ConnectionTracker::new();
    assert!(matches!(c.toggle_write_policy(), AppEvent::WritePolicyChanged(WritePolicy::ConfirmWrites)));
    assert!(matches!(c.toggle_write_policy(), AppEvent::WritePolicyChanged(WritePolicy::ReadOnly)));
    assert_eq!(c.write_policy(), WritePolicy::ReadOnly);
    assert!(matches!(c.state(), ConnectionState::Disconnected));
}

#[test]
fn toolbar_labels_name_the_state() {
    assert_eq!(toolbar_label(&ConnectionState::Disconnected), ("Disconnected".to_string(), 0x888888));
    assert_eq!(
        toolbar_label(&ConnectionState::Connecting { profile_id: 1, attempt: 1 }),
        ("Connecting...".to_string(), 0xccaa00)
    );
    let ro = ConnectionState::Connected {
        profile_id: 1,
        session_id: 2,
        server_version: "16".to_string(),
        database: "app".to_string(),
        read_only: true,
    };
    assert_eq!(toolbar_label(&ro), ("app (read-only)".to_string(), 0x4ec94e));
    let rw = ConnectionState::Connected {
        profile_id: 1,
        session_id: 2,
        server_version: "16".to_string(),
        database: "app".to_string(),
        read_only: false,
    };
    assert_eq!(toolbar_label(&rw), ("app".to_string(), 0x4ec94e));
    assert_eq!(
        toolbar_label(&ConnectionState::Failed { profile_id: 1, error: "x".to_string(), retries: 0 }),
        ("Failed: x".to_string(), 0xf14c4c)
    );
}

#[test]
fn a_selected_row_copies_as_tab_separated_text() {
    let rows = vec![strings(&["1", "alice", "a@x"]), strings(&["2", "bob", ""])];
    assert_eq!(copied_row(&rows, Some(0)).as_deref(), Some("1\talice\ta@x"));
    assert_eq!(copied_row(&rows, Some(1)).as_deref(), Some("2\tbob\t"));
    assert_eq!(copied_row(&rows, Some(2)), None);
    assert_eq!(copied_row(&rows, None), None);
    assert_eq!(copied_row(&vec![Vec::new()], Some(0)).as_deref(), Some(""));
    assert_eq!(selection_hint(Some(0)), "Row 1 selected — Cmd+C to copy");
    assert_eq!(selection_hint(Some(41)), "Row 42 selected — Cmd+C to copy");
    assert_eq!(selection_hint(None), "");
}

#[test]
fn queries_are_timed_by_the_clock() {
    let mut t = QueryTracker::new();
    assert!(t.start_now(false, 5).is_none());
    let started_at = match t.start_now(true, 5) {
        Some(AppEvent::QueryStateChanged { query_id: 5, state: QueryState::Executing { started_at } }) => started_at,
        other => panic!("unexpected {:?}", other),
    };
    assert!(started_at > 1_600_000_000_000);
    assert_eq!(t.cancel_target(true), Some((5, started_at)));
    let events = t.complete_now(5, started_at, 1, strings(&["n"]), vec![strings(&["1"])]);
    match &events[0] {
        AppEvent::QueryStateChanged {
            query_id: 5,
            state: QueryState::Completed { started_at: s, completed_at, total_rows: 1 },
        } => {
            assert_eq!(*s, started_at);
            assert!(*completed_at >= started_at);
        }
        other => panic!("unexpected {:?}", other),
    }
    t.start(true, 6, 100);
    match t.cancelled_now(6, 100) {
        AppEvent::QueryStateChanged { query_id: 6, state: QueryState::Cancelled { started_at: 100, cancelled_at } } => {
            assert!(cancelled_at > 100)
        }
        other => panic!("unexpected {:?}", other),
    }
}
