//! Opening the configuration file in an editor.

use vstd::prelude::*;

use crate::error::Error;
use crate::text::{concat3, copy, str_opt};

verus! {

/// The editor to use: the two that the environment may name, in this order, or
/// else that of the platform.
pub open spec fn editor(
    first: Option<Seq<char>>,
    second: Option<Seq<char>>,
    windows: bool,
) -> Seq<char> {
    match first {
        Some(e) => e,
        None => match second {
            Some(v) => v,
            None => if windows {
                "notepad"@
            } else {
                "vi"@
            },
        },
    }
}

/// Chooses the editor.
pub fn choose_editor(first: Option<&str>, second: Option<&str>, windows: bool) -> (r: String)
    ensures
        r@ == editor(str_opt(first), str_opt(second), windows),
{
    match first {
        Some(e) => copy(e),
        None => match second {
            Some(v) => copy(v),
            None => if windows {
                copy("notepad")
            } else {
                copy("vi")
            },
        },
    }
}

/// The error where there is no configuration file.
pub fn not_found(path: &str) -> (r: Error)
    ensures
        r@ == "Config file not found at "@ + path@ + "\nRun 'ssync init' first to create it."@,
{
    Error {
        message: concat3(
            "Config file not found at ",
            path,
            "\nRun 'ssync init' first to create it.",
        ),
    }
}

// ---------------------------------------------------------------------------
// Laws
// ---------------------------------------------------------------------------

/// The first editor that is set is taken, then the second, and else that of the platform.
pub proof fn the_first_editor_is_taken(first: Seq<char>, second: Seq<char>, windows: bool)
    ensures
        editor(Some(first), Some(second), windows) == first,
        editor(Some(first), None, windows) == first,
        editor(None, Some(second), windows) == second,
        editor(None, None, true) == "notepad"@,
        editor(None, None, false) == "vi"@,
{
}

} // verus!
