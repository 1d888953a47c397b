//! How long rows stay in the database.

use vstd::prelude::*;

verus! {

/// Deletes the snapshots that are older than so many seconds.
pub const DELETE_SNAPSHOTS: &'static str =
    "DELETE FROM check_snapshots WHERE collected_at < (strftime('%s', 'now') - ?1)";

/// Deletes the log entries that are older than so many seconds.
pub const DELETE_LOG: &'static str =
    "DELETE FROM operation_log WHERE timestamp < (strftime('%s', 'now') - ?1)";

/// After how many seconds rows are deleted; none where they are kept for ever.
pub fn cleanup(retention_days: u64) -> (r: Option<u64>)
    requires
        retention_days * 86400 <= u64::MAX,
    ensures
        r == (if retention_days == 0 {
            None::<u64>
        } else {
            Some((retention_days * 86400) as u64)
        }),
{
    if retention_days == 0 {
        None
    } else {
        Some(retention_days * 86400)
    }
}

} // verus!
