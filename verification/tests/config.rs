//! Settings, clock and showcase tests.

use miniapp_factory::database::Database;
use miniapp_factory::env::{database, datadir, gh, ghtoken, hostname, httprpc, port, wsrpc};
use miniapp_factory::error::ResponseError;
use miniapp_factory::handlers::{project_create, ApiOutcome};
use miniapp_factory::showcase::{projects_all, projects_count, queue_count, queue_workers};
use miniapp_factory::time::get_time_i64;

#[test]
fn settings_fall_back_to_documented_defaults() {
    assert_eq!(hostname(None), "0.0.0.0");
    assert_eq!(hostname(Some("1.2.3.4".to_string())), "1.2.3.4");
    assert_eq!(port(None), "54428");
    assert_eq!(datadir(None), "/var/lib/miniapp-factory");
    assert_eq!(gh(None), "");
    assert_eq!(ghtoken(Some("token-value".to_string())), "token-value");
    assert_eq!(database(None), "postgres:openxai-indexer?host=/run/postgresql");
    assert_eq!(httprpc(None), "https://base-rpc.publicnode.com");
    assert_eq!(wsrpc(None), "wss://base-rpc.publicnode.com");
}

#[test]
fn clock_is_non_negative() {
    assert!(get_time_i64() >= 0);
}

#[test]
fn response_error_keeps_the_message() {
    let e = ResponseError::new("went wrong".to_string());
    assert_eq!(e.error, "went wrong");
}

#[test]
fn showcase_reports_counts_and_names() {
    let mut db = Database::new();
    assert_eq!(projects_count(&db), 0);
    assert_eq!(queue_count(&db), 0);
    assert_eq!(queue_workers(&db), 0);
    match project_create(&mut db, "eth:00000000000000000000000000000000000000aa", "demo", 1) {
        ApiOutcome::Success(()) => {}
        _ => panic!("expected project creation to succeed"),
    }
    assert_eq!(projects_count(&db), 1);
    let all = projects_all(&db);
    assert_eq!(all.len(), 1);
    assert_eq!(all[0].id, 1);
    assert_eq!(all[0].name, "demo");
}
