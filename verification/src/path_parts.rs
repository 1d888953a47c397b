//! The parts of a path, as the platform sees them.

use vstd::prelude::*;

use crate::scan::{ends, has_text};
use crate::text::text_opt;

verus! {

/// Whether a path means the same on every platform: its parts are set apart by
/// single slashes, none of them is a lone dot, and nothing in it is a drive or a
/// backslash.
pub open spec fn plain(path: Seq<char>) -> bool {
    &&& path.len() > 0
    &&& path.last() != '/'
    &&& !path.contains('\\')
    &&& !path.contains(':')
    &&& !has_text(path, "//"@)
    &&& !has_text(path, "/./"@)
    &&& !ends(path, "/."@)
    &&& path != "."@
}

/// Where a character last stands among the first `n`; -1 where it does not.
pub open spec fn last_place(s: Seq<char>, c: char, n: int) -> int
    decreases n,
{
    if n <= 0 {
        -1
    } else if s[n - 1] == c {
        n - 1
    } else {
        last_place(s, c, n - 1)
    }
}

/// What follows the last slash of a path.
pub open spec fn last_part(path: Seq<char>) -> Seq<char> {
    path.skip(last_place(path, '/', path.len() as int) + 1)
}

/// The name of the file that a plain path leads to; `None` for the parent of a
/// directory.
pub open spec fn plain_name(path: Seq<char>) -> Option<Seq<char>> {
    if last_part(path) == ".."@ {
        None
    } else {
        Some(last_part(path))
    }
}

/// The extension of a file name: what follows its last dot. A dot at the very
/// beginning does not count.
pub open spec fn extension_in(name: Seq<char>) -> Option<Seq<char>> {
    let dot = last_place(name, '.', name.len() as int);
    if dot <= 0 {
        None
    } else {
        Some(name.skip(dot + 1))
    }
}

/// The extension of a plain path.
pub open spec fn plain_extension(path: Seq<char>) -> Option<Seq<char>> {
    match plain_name(path) {
        Some(name) => extension_in(name),
        None => None,
    }
}

/// The directory of a plain path: what stands before its last slash.
pub open spec fn plain_parent(path: Seq<char>) -> Seq<char> {
    let slash = last_place(path, '/', path.len() as int);
    if slash < 0 {
        Seq::empty()
    } else if slash == 0 {
        "/"@
    } else {
        path.take(slash)
    }
}

/// Whether a text can be the extension of a path.
pub open spec fn extension_fits(path: Seq<char>, ext: Option<Seq<char>>) -> bool {
    &&& !path.contains('.') ==> ext is None
    &&& ext matches Some(e) ==> !e.contains('.')
    &&& plain(path) ==> ext == plain_extension(path)
}

/// Whether a text can be the file name of a path.
pub open spec fn name_fits(path: Seq<char>, name: Option<Seq<char>>) -> bool {
    &&& name matches Some(n) ==> n.len() > 0
    &&& plain(path) ==> name == plain_name(path)
}

/// Whether a text can be the parent of a path; it is empty for no parent.
pub open spec fn parent_fits(path: Seq<char>, parent: Seq<char>) -> bool {
    &&& path.len() == 0 ==> parent.len() == 0
    &&& plain(path) ==> parent == plain_parent(path)
}

/// `Path::extension` of std: what follows the last dot of the file name, but for a
/// dot at its beginning. How a path falls into its parts differs between platforms;
/// the contract says what it is for a path that all of them take alike, and of any
/// other that an extension holds no dot and that a path without a dot has none.
#[verifier::external_body]
pub(crate) fn extension_of(path: &str) -> (r: Option<String>)
    ensures
        extension_fits(path@, text_opt(r)),
{
    std::path::Path::new(path).extension().and_then(|e| e.to_str()).map(|e| e.to_string())
}

/// `Path::file_name` of std: the last part of the path, unless that is `..`. How a
/// path falls into its parts differs between platforms; the contract says what it is
/// for a path that all of them take alike, and of any other only that a name is not
/// empty.
#[verifier::external_body]
pub(crate) fn file_name_of(path: &str) -> (r: Option<String>)
    ensures
        name_fits(path@, text_opt(r)),
{
    std::path::Path::new(path).file_name().and_then(|n| n.to_str()).map(|n| n.to_string())
}

/// `Path::parent` of std, as text; empty where the path has no parent: the path
/// without its last part. How a path falls into its parts differs between platforms;
/// the contract says what it is for a path that all of them take alike, and that the
/// empty path has no parent.
#[verifier::external_body]
pub(crate) fn parent_of(path: &str) -> (r: String)
    ensures
        parent_fits(path@, r@),
{
    match std::path::Path::new(path).parent() {
        Some(p) => p.to_string_lossy().to_string(),
        None => String::new(),
    }
}

// ---------------------------------------------------------------------------
// Laws
// ---------------------------------------------------------------------------

proof fn nothing_after_last(s: Seq<char>, c: char, n: int)
    requires
        n <= s.len(),
    ensures
        -1 <= last_place(s, c, n),
        n >= 0 ==> last_place(s, c, n) < n,
        forall|k: int| last_place(s, c, n) < k < n ==> #[trigger] s[k] != c,
    decreases n,
{
    if n > 0 && s[n - 1] != c {
        nothing_after_last(s, c, n - 1);
    }
}

/// The file name of a plain path is not empty and holds no slash.
pub proof fn plain_names_are_single_parts(path: Seq<char>)
    requires
        plain(path),
    ensures
        plain_name(path) matches Some(n) ==> n.len() > 0 && !n.contains('/'),
{
    let len = path.len() as int;
    nothing_after_last(path, '/', len);
    let slash = last_place(path, '/', len);
    assert(slash < len - 1) by {
        assert(path[len - 1] != '/');
        if slash == len - 1 {
            last_is_there(path, '/', len);
        }
    }
    assert forall|k: int| 0 <= k < last_part(path).len() implies last_part(path)[k] != '/' by {
        assert(last_part(path)[k] == path[k + slash + 1]);
    }
}

proof fn last_is_there(s: Seq<char>, c: char, n: int)
    requires
        n <= s.len(),
        last_place(s, c, n) >= 0,
    ensures
        s[last_place(s, c, n)] == c,
    decreases n,
{
    if n > 0 && s[n - 1] != c {
        last_is_there(s, c, n - 1);
    }
}

proof fn last_place_is_last(s: Seq<char>, c: char, n: int)
    requires
        0 <= n <= s.len(),
    ensures
        -1 <= last_place(s, c, n) < n,
        last_place(s, c, n) >= 0 ==> s[last_place(s, c, n)] == c,
        forall|i: int| last_place(s, c, n) < i < n ==> #[trigger] s[i] != c,
    decreases n,
{
    if n > 0 && s[n - 1] != c {
        last_place_is_last(s, c, n - 1);
    }
}

/// A path is its parent, a slash and its name; a path without a slash has no parent.
pub proof fn paths_are_parent_and_name(parent: Seq<char>, name: Seq<char>)
    requires
        !name.contains('/'),
    ensures
        plain_parent(name).len() == 0,
        name != ".."@ ==> plain_name(name) == Some(name),
        parent.len() > 0 ==> plain_parent(parent + seq!['/'] + name) == parent,
        name != ".."@ ==> plain_name(parent + seq!['/'] + name) == Some(name),
        plain_parent(seq!['/'] + name) == "/"@,
{
    let p = parent + seq!['/'] + name;
    let n = name.len() as int;
    last_place_is_last(name, '/', n);
    if last_place(name, '/', n) >= 0 {
        assert(name.contains(name[last_place(name, '/', n)]));
    }
    assert(name.skip(0) =~= name);
    last_place_is_last(p, '/', p.len() as int);
    let k = last_place(p, '/', p.len() as int);
    assert(p[parent.len() as int] == '/');
    if k > parent.len() {
        assert(name.contains(name[k - parent.len() - 1]));
    }
    assert(k == parent.len());
    assert(p.take(k) =~= parent);
    assert(p.skip(k + 1) =~= name);
    let q = seq!['/'] + name;
    last_place_is_last(q, '/', q.len() as int);
    let j = last_place(q, '/', q.len() as int);
    assert(q[0] == '/');
    if j > 0 {
        assert(name.contains(name[j - 1]));
    }
}

/// The extension of a name is what follows its last dot; a name without one, or with one in
/// front alone, has none.
pub proof fn extensions_follow_the_last_dot(stem: Seq<char>, ext: Seq<char>)
    requires
        !ext.contains('.'),
    ensures
        stem.len() > 0 ==> extension_in(stem + seq!['.'] + ext) == Some(ext),
        extension_in(seq!['.'] + ext) is None,
        extension_in(ext) is None,
{
    let s = stem + seq!['.'] + ext;
    last_place_is_last(s, '.', s.len() as int);
    let k = last_place(s, '.', s.len() as int);
    assert(s[stem.len() as int] == '.');
    if k > stem.len() {
        assert(ext.contains(ext[k - stem.len() - 1]));
    }
    assert(s.skip(k + 1) =~= ext);
    let t = seq!['.'] + ext;
    last_place_is_last(t, '.', t.len() as int);
    let j = last_place(t, '.', t.len() as int);
    if j > 0 {
        assert(ext.contains(ext[j - 1]));
    }
    last_place_is_last(ext, '.', ext.len() as int);
    let e = last_place(ext, '.', ext.len() as int);
    if e >= 0 {
        assert(ext.contains(ext[e]));
    }
}

} // verus!
