use rusqlite::Connection;
use ssync::config::paths::{PathText, Platform};
use ssync::state::db::{
    db_path, migrate, seen_statement, state_dir, CURRENT_VERSION, FILE_SYNCED, INSERT_SNAPSHOT,
    LOG_OPERATION,
};
use ssync::state::retention::{cleanup, DELETE_LOG, DELETE_SNAPSHOTS};

fn bring_up_to_date(conn: &Connection) {
    let version: u32 = conn.pragma_query_value(None, "user_version", |r| r.get(0)).unwrap();
    if let Some((statements, now)) = migrate(version) {
        conn.execute_batch(statements).unwrap();
        conn.pragma_update(None, "user_version", now).unwrap();
    }
}

fn fresh() -> Connection {
    let conn = Connection::open_in_memory().unwrap();
    bring_up_to_date(&conn);
    conn
}

#[test]
fn test_open_in_memory() {
    let conn = Connection::open_in_memory().unwrap();
    conn.execute_batch("PRAGMA journal_mode=WAL;").unwrap();
    bring_up_to_date(&conn);

    let version: u32 = conn.pragma_query_value(None, "user_version", |r| r.get(0)).unwrap();
    assert_eq!(version, CURRENT_VERSION);
}

#[test]
fn a_database_is_brought_up_to_date_once() {
    assert!(migrate(0).is_some());
    assert!(migrate(CURRENT_VERSION).is_none());
    let conn = fresh();
    bring_up_to_date(&conn);
}

#[test]
fn going_down_keeps_when_a_host_was_up() {
    let conn = fresh();
    conn.execute(seen_statement(true), rusqlite::params_from_iter(["a", "100"])).unwrap();
    conn.execute(seen_statement(false), rusqlite::params_from_iter(["a", "200"])).unwrap();
    let row: (i64, i64) = conn
        .query_row("SELECT last_seen, last_online FROM host_last_seen", [], |r| {
            Ok((r.get(0)?, r.get(1)?))
        })
        .unwrap();
    assert_eq!(row, (200, 100));
}

#[test]
fn rows_are_kept_and_cleaned_up() {
    let conn = fresh();
    conn.execute(INSERT_SNAPSHOT, rusqlite::params_from_iter(["a", "1", "1", "{}"])).unwrap();
    conn.execute(
        LOG_OPERATION,
        rusqlite::params_from_iter(["1", "run", "a", "uptime", "ok", "5", ""]),
    )
    .unwrap();
    let seconds = cleanup(90).unwrap() as i64;
    assert_eq!(seconds, 7776000);
    assert_eq!(conn.execute(DELETE_SNAPSHOTS, [seconds]).unwrap(), 1);
    assert_eq!(conn.execute(DELETE_LOG, [seconds]).unwrap(), 1);
    assert!(cleanup(0).is_none());
}

#[test]
fn a_synced_file_is_kept_once() {
    let conn = fresh();
    for at in ["10", "20"] {
        conn.execute(
            FILE_SYNCED,
            rusqlite::params_from_iter(["global", "a", "/etc/x", "0", "0", "", at]),
        )
        .unwrap();
    }
    let at: i64 = conn.query_row("SELECT synced_at FROM sync_state", [], |r| r.get(0)).unwrap();
    assert_eq!(at, 20);
}

#[test]
fn the_database_has_its_place() {
    assert!(matches!(
        state_dir(None, Platform::Other),
        PathText::BelowHome(ref d) if d == ".local/state/ssync"
    ));
    assert!(matches!(
        state_dir(None, Platform::Windows),
        PathText::BelowDataDir(ref d) if d == "ssync"
    ));
    assert!(matches!(
        state_dir(Some("~/s"), Platform::Other),
        PathText::BelowHome(ref d) if d == "s"
    ));
    assert!(matches!(
        db_path(Platform::Other),
        PathText::BelowHome(ref p) if p == ".local/state/ssync/ssync.db"
    ));
    assert!(matches!(
        db_path(Platform::Windows),
        PathText::BelowDataDir(ref p) if p == "ssync\\ssync.db"
    ));
}
