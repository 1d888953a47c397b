//! The form of the database, and the rows that a check leaves in it.

use vstd::prelude::*;

use crate::config::paths::{any_tilde, expand_any_tilde, PathText, PathView, Platform};
use crate::text::copy;

verus! {

/// The directory of the database where the configuration names none:
/// `.local/state/ssync` below the home directory; on Windows `ssync` in the directory
/// for local data.
pub open spec fn default_state_dir(platform: Platform) -> PathView {
    match platform {
        Platform::Windows => PathView::BelowDataDir("ssync"@),
        Platform::Other => PathView::BelowHome(".local/state/ssync"@),
    }
}

/// The directory of the database: the one that the configuration names, with a leading
/// tilde taken apart, or else the default one.
pub fn state_dir(configured: Option<&str>, platform: Platform) -> (r: PathText)
    ensures
        r@ == (match configured {
            Some(dir) => any_tilde(dir@),
            None => default_state_dir(platform),
        }),
{
    match configured {
        Some(dir) => expand_any_tilde(dir),
        None => match platform {
            Platform::Windows => PathText::BelowDataDir(copy("ssync")),
            Platform::Other => PathText::BelowHome(copy(".local/state/ssync")),
        },
    }
}

/// The name of the database in its directory.
pub const DB_NAME: &'static str = "ssync.db";

/// The database where the configuration names no directory.
pub fn db_path(platform: Platform) -> (r: PathText)
    ensures
        r@ == (match platform {
            Platform::Windows => PathView::BelowDataDir("ssync\\ssync.db"@),
            Platform::Other => PathView::BelowHome(".local/state/ssync/ssync.db"@),
        }),
{
    match platform {
        Platform::Windows => PathText::BelowDataDir(copy("ssync\\ssync.db")),
        Platform::Other => PathText::BelowHome(copy(".local/state/ssync/ssync.db")),
    }
}

/// The version of the database that this program works with.
pub const CURRENT_VERSION: u32 = 1;

/// The tables of the first version.
pub const INIT: &'static str = "\
CREATE TABLE IF NOT EXISTS check_snapshots (
    id INTEGER PRIMARY KEY AUTOINCREMENT,
    host TEXT NOT NULL,
    collected_at INTEGER NOT NULL,
    online INTEGER NOT NULL,
    raw_json TEXT NOT NULL
);
CREATE INDEX IF NOT EXISTS idx_check_snapshots_host ON check_snapshots (host, collected_at);
CREATE TABLE IF NOT EXISTS host_last_seen (
    host TEXT PRIMARY KEY,
    last_seen INTEGER NOT NULL,
    last_online INTEGER NOT NULL
);
CREATE TABLE IF NOT EXISTS operation_log (
    id INTEGER PRIMARY KEY AUTOINCREMENT,
    timestamp INTEGER NOT NULL,
    command TEXT NOT NULL,
    host TEXT NOT NULL,
    action TEXT NOT NULL,
    status TEXT NOT NULL,
    duration_ms INTEGER,
    note TEXT
);
CREATE TABLE IF NOT EXISTS sync_state (
    sync_group TEXT NOT NULL,
    host TEXT NOT NULL,
    path TEXT NOT NULL,
    mtime INTEGER NOT NULL,
    size_bytes INTEGER NOT NULL,
    blake3 TEXT NOT NULL,
    synced_at INTEGER NOT NULL,
    PRIMARY KEY (sync_group, host, path)
);
";

/// The statements that bring a database up to date, and its version then; none
/// where it is up to date.
pub fn migrate(version: u32) -> (r: Option<(&'static str, u32)>)
    ensures
        r is None <==> version >= 1,
        r matches Some(m) ==> m.0@ == INIT@ && m.1 == CURRENT_VERSION,
{
    if version < 1 {
        Some((INIT, CURRENT_VERSION))
    } else {
        None
    }
}

/// Keeps a snapshot.
pub const INSERT_SNAPSHOT: &'static str =
    "INSERT INTO check_snapshots (host, collected_at, online, raw_json) VALUES (?1, ?2, ?3, ?4)";

/// Notes that a host was tried, and that it was up.
pub const SEEN_ONLINE: &'static str =
    "INSERT INTO host_last_seen (host, last_seen, last_online) VALUES (?1, ?2, ?2) \
     ON CONFLICT(host) DO UPDATE SET last_seen = ?2, last_online = ?2";

/// Notes that a host was tried; when it was last up stays as it is.
pub const SEEN_OFFLINE: &'static str =
    "INSERT INTO host_last_seen (host, last_seen, last_online) VALUES (?1, ?2, 0) \
     ON CONFLICT(host) DO UPDATE SET last_seen = ?2";

/// Adds an entry to the operation log.
pub const LOG_OPERATION: &'static str =
    "INSERT INTO operation_log (timestamp, command, host, action, status, duration_ms, note) \
     VALUES (?1, ?2, ?3, ?4, ?5, ?6, ?7)";

/// Notes that a file was brought to a host.
pub const FILE_SYNCED: &'static str =
    "INSERT INTO sync_state (sync_group, host, path, mtime, size_bytes, blake3, synced_at) \
     VALUES (?1, ?2, ?3, ?4, ?5, ?6, ?7) \
     ON CONFLICT(sync_group, host, path) DO UPDATE SET mtime=?4, size_bytes=?5, blake3=?6, synced_at=?7";

/// Chooses the statement that notes that a host was tried.
pub fn seen_statement(online: bool) -> (r: &'static str)
    ensures
        r@ == (if online {
            SEEN_ONLINE@
        } else {
            SEEN_OFFLINE@
        }),
{
    if online {
        SEEN_ONLINE
    } else {
        SEEN_OFFLINE
    }
}

} // verus!
