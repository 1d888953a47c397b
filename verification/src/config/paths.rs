//! Paths that may begin at the home directory.

use vstd::prelude::*;

use crate::scan::{after_prefix, strip_prefix};
use crate::text::{copy, same};

verus! {

/// The platforms, as far as the places of files differ between them.
#[derive(Debug, Clone, Copy, PartialEq, Eq, Structural)]
pub enum Platform {
    Windows,
    /// Any other one.
    Other,
}

/// A path, with the directory of the user that it begins at taken apart. What that
/// directory is, and how the platform joins the parts of a path, is not known here.
#[derive(Debug)]
pub enum PathText {
    /// The path as it was written.
    AsWritten(String),
    /// The home directory itself.
    Home,
    /// A path below the home directory.
    BelowHome(String),
    /// A path below the directory for configurations, on Windows.
    BelowConfigDir(String),
    /// A path below the directory for local data, on Windows.
    BelowDataDir(String),
}

/// A path as a value of the specification language.
pub ghost enum PathView {
    AsWritten(Seq<char>),
    Home,
    BelowHome(Seq<char>),
    BelowConfigDir(Seq<char>),
    BelowDataDir(Seq<char>),
}

impl View for PathText {
    type V = PathView;

    open spec fn view(&self) -> PathView {
        match self {
            PathText::AsWritten(s) => PathView::AsWritten(s@),
            PathText::Home => PathView::Home,
            PathText::BelowHome(s) => PathView::BelowHome(s@),
            PathText::BelowConfigDir(s) => PathView::BelowConfigDir(s@),
            PathText::BelowDataDir(s) => PathView::BelowDataDir(s@),
        }
    }
}

/// What a path begins with, where `~/` leads to the home directory.
pub open spec fn tilde(s: Seq<char>) -> PathView {
    match after_prefix(s, "~/"@) {
        Some(rest) => PathView::BelowHome(rest),
        None => PathView::AsWritten(s),
    }
}

/// Takes a leading `~/` off a path.
pub fn expand_tilde(s: &str) -> (r: PathText)
    ensures
        r@ == tilde(s@),
{
    match strip_prefix(s, "~/") {
        Some(rest) => PathText::BelowHome(rest),
        None => PathText::AsWritten(copy(s)),
    }
}

/// What a path begins with, where `~`, `~/` and `~\` lead to the home directory.
pub open spec fn any_tilde(s: Seq<char>) -> PathView {
    if s == "~"@ {
        PathView::Home
    } else {
        match after_prefix(s, "~/"@) {
            Some(rest) => PathView::BelowHome(rest),
            None => match after_prefix(s, "~\\"@) {
                Some(rest) => PathView::BelowHome(rest),
                None => PathView::AsWritten(s),
            },
        }
    }
}

/// Takes a leading tilde off a path, with either kind of separator.
pub fn expand_any_tilde(s: &str) -> (r: PathText)
    ensures
        r@ == any_tilde(s@),
{
    if same(s, "~") {
        return PathText::Home;
    }
    match strip_prefix(s, "~/") {
        Some(rest) => PathText::BelowHome(rest),
        None => match strip_prefix(s, "~\\") {
            Some(rest) => PathText::BelowHome(rest),
            None => PathText::AsWritten(copy(s)),
        },
    }
}

// ---------------------------------------------------------------------------
// Laws
// ---------------------------------------------------------------------------

/// A path that does not begin with a tilde stays as it was written, and what follows
/// `~/` is the path below the home directory.
pub proof fn only_tildes_are_expanded(s: Seq<char>, rest: Seq<char>)
    ensures
        s.len() == 0 || s[0] != '~' ==> any_tilde(s) == PathView::AsWritten(s) && tilde(s)
            == PathView::AsWritten(s),
        any_tilde("~"@) == PathView::Home,
        any_tilde("~/"@ + rest) == PathView::BelowHome(rest),
        tilde("~/"@ + rest) == PathView::BelowHome(rest),
{
    reveal_strlit("~");
    reveal_strlit("~/");
    reveal_strlit("~\\");
    let below = "~/"@ + rest;
    assert(below.len() >= 2);
    assert(below != "~"@);
    assert(below.take(2) =~= "~/"@);
    assert(below.skip(2) =~= rest);
    if s.len() >= 2 && s[0] != '~' {
        assert(s.take(2)[0] == s[0]);
    }
}

} // verus!
