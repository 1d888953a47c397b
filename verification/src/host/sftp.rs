//! Paths and limits of file transfers over SFTP.

use vstd::prelude::*;

use crate::config::schema::ShellType;
use crate::error::Error;
use crate::scan::{after_prefix, split_char, split_on, strip_prefix, trim, trimmed};
use crate::text::{
    chars_of, concat2, concat3, copy, decimal, decimal_text, same, text_of, texts, texts_push,
};

verus! {

broadcast use texts_push;

/// The text without the slashes at its end.
pub open spec fn without_slashes(s: Seq<char>) -> Seq<char>
    decreases s.len(),
{
    if s.len() > 0 && s.last() == '/' {
        without_slashes(s.drop_last())
    } else {
        s
    }
}

/// A path on a host with a leading tilde replaced by the home directory.
pub open spec fn resolved(remote: Seq<char>, home: Seq<char>) -> Seq<char> {
    if remote == "~"@ {
        home
    } else {
        match after_prefix(remote, "~/"@) {
            Some(rest) => without_slashes(home) + "/"@ + rest,
            None => remote,
        }
    }
}

fn strip_slashes(s: &str) -> (r: String)
    ensures
        r@ == without_slashes(s@),
{
    let cs = chars_of(s);
    let mut n: usize = cs.len();
    assert(s@.take(n as int) =~= s@);
    while n > 0 && cs[n - 1] == '/'
        invariant
            cs@ == s@,
            n <= cs.len(),
            without_slashes(s@) == without_slashes(s@.take(n as int)),
        decreases n,
    {
        assert(s@.take(n as int).drop_last() =~= s@.take(n - 1));
        n -= 1;
    }
    let r = text_of(&cs, 0, n);
    assert(r@ =~= s@.take(n as int));
    r
}

/// Replaces a leading tilde by the home directory of the host.
pub fn resolve_remote_path(remote: &str, home_dir: &str) -> (r: String)
    ensures
        r@ == resolved(remote@, home_dir@),
{
    if same(remote, "~") {
        return copy(home_dir);
    }
    match strip_prefix(remote, "~/") {
        Some(rest) => concat3(strip_slashes(home_dir).as_str(), "/", rest.as_str()),
        None => copy(remote),
    }
}

/// The command that prints the home directory.
pub fn home_command(shell: ShellType) -> (r: &'static str)
    ensures
        r@ == (match shell {
            ShellType::Sh => "echo $HOME"@,
            ShellType::PowerShell => "Write-Output $env:USERPROFILE"@,
            ShellType::Cmd => "echo %USERPROFILE%"@,
        }),
{
    match shell {
        ShellType::Sh => "echo $HOME",
        ShellType::PowerShell => "Write-Output $env:USERPROFILE",
        ShellType::Cmd => "echo %USERPROFILE%",
    }
}

/// The home directory, out of what the command printed.
pub fn remote_home_dir(stdout: &str) -> (r: String)
    ensures
        r@ == trim(stdout@),
{
    trimmed(stdout)
}

/// The size in bytes beyond which a file is not transferred.
pub const MAX_SFTP_FILE_SIZE: u64 = 67_108_864;

/// Whether a file may be sent; an error that names the file and both sizes where
/// it is too large.
pub fn check_upload_size(local_path: &str, size: u64) -> (r: Result<(), Error>)
    ensures
        r is Ok <==> size <= MAX_SFTP_FILE_SIZE,
        r matches Err(e) ==> e@ == "File "@ + local_path@ + " is too large for SFTP transfer ("@
            + decimal(size as nat) + " > "@ + decimal(MAX_SFTP_FILE_SIZE as nat)
            + " bytes). Chunked transfer not yet implemented."@,
{
    if size <= MAX_SFTP_FILE_SIZE {
        return Ok(());
    }
    let mut m = concat3("File ", local_path, " is too large for SFTP transfer (");
    m.append(decimal_text(size).as_str());
    m.append(" > ");
    m.append(decimal_text(MAX_SFTP_FILE_SIZE).as_str());
    m.append(" bytes). Chunked transfer not yet implemented.");
    Err(Error { message: m })
}

/// Whether a fetched file may be kept; an error that names the file and both
/// sizes where it is too large.
pub fn check_download_size(remote_path: &str, size: u64) -> (r: Result<(), Error>)
    ensures
        r is Ok <==> size <= MAX_SFTP_FILE_SIZE,
        r matches Err(e) ==> e@ == "Remote file "@ + remote_path@ + " is too large ("@ + decimal(
            size as nat,
        ) + " > "@ + decimal(MAX_SFTP_FILE_SIZE as nat)
            + " bytes). Chunked transfer not yet implemented."@,
{
    if size <= MAX_SFTP_FILE_SIZE {
        return Ok(());
    }
    let mut m = concat3("Remote file ", remote_path, " is too large (");
    m.append(decimal_text(size).as_str());
    m.append(" > ");
    m.append(decimal_text(MAX_SFTP_FILE_SIZE).as_str());
    m.append(" bytes). Chunked transfer not yet implemented.");
    Err(Error { message: m })
}

/// A directory and a name below it, with one slash between them.
pub open spec fn below(dir: Seq<char>, name: Seq<char>) -> Seq<char> {
    if dir.len() > 0 && dir.last() != '/' {
        dir + "/"@ + name
    } else {
        dir + name
    }
}

/// The directories from the top down to the one that the names lead to, below
/// `root`; empty names lead nowhere.
pub open spec fn directories(root: Seq<char>, names: Seq<Seq<char>>) -> Seq<Seq<char>>
    decreases names.len(),
{
    if names.len() == 0 {
        Seq::empty()
    } else {
        let before = directories(root, names.drop_last());
        let last = if before.len() == 0 {
            root
        } else {
            before.last()
        };
        if names.last().len() == 0 {
            before
        } else {
            before.push(below(last, names.last()))
        }
    }
}

/// The directories to create for a path, outermost first.
pub open spec fn directory_chain(path: Seq<char>) -> Seq<Seq<char>> {
    let root = if path.len() > 0 && path[0] == '/' {
        "/"@
    } else {
        Seq::empty()
    };
    directories(root, split_on(path, '/'))
}

/// Lists the directories to create so that a path exists, outermost first.
pub fn mkdir_p_sftp(path: &str) -> (r: Vec<String>)
    ensures
        texts(r@) == directory_chain(path@),
{
    let parts = split_char(path, '/');
    let cs = chars_of(path);
    let mut current = if cs.len() > 0 && cs[0] == '/' {
        copy("/")
    } else {
        String::new()
    };
    let ghost root = current@;
    let ghost all = texts(parts@);
    let mut out: Vec<String> = Vec::new();
    let mut i: usize = 0;
    assert(texts(out@) =~= directories(root, all.take(0)));
    assert(root =~= if path@.len() > 0 && path@[0] == '/' {
        "/"@
    } else {
        Seq::empty()
    });
    while i < parts.len()
        invariant
            i <= parts.len(),
            all == texts(parts@),
            texts(out@) == directories(root, all.take(i as int)),
            current@ == (if out@.len() == 0 {
                root
            } else {
                texts(out@).last()
            }),
        decreases parts.len() - i,
    {
        assert(all.take(i + 1).drop_last() =~= all.take(i as int));
        assert(all.take(i + 1).last() == parts@[i as int]@);
        assert(texts(out@).len() == out@.len());
        let part = parts[i].as_str();
        if chars_of(part).len() > 0 {
            let ghost before = current@;
            let so_far = chars_of(current.as_str());
            if so_far.len() > 0 && so_far[so_far.len() - 1] != '/' {
                current.append("/");
            }
            current.append(part);
            assert(current@ =~= below(before, part@));
            out.push(copy(current.as_str()));
        }
        i += 1;
    }
    assert(all.take(i as int) =~= all);
    out
}

/// Where the trial file of a host is put.
pub fn probe_path(home_dir: &str) -> (r: String)
    ensures
        r@ == home_dir@ + "/.ssync_probe"@,
{
    concat2(home_dir, "/.ssync_probe")
}

// ---------------------------------------------------------------------------
// Laws
// ---------------------------------------------------------------------------

proof fn slashes_are_cut(s: Seq<char>) -> (n: int)
    ensures
        0 <= n <= s.len(),
        without_slashes(s) == s.take(n),
        forall|i: int| n <= i < s.len() ==> #[trigger] s[i] == '/',
        n > 0 ==> s[n - 1] != '/',
    decreases s.len(),
{
    if s.len() > 0 && s.last() == '/' {
        let rest = s.drop_last();
        let n = slashes_are_cut(rest);
        assert(rest.take(n) =~= s.take(n));
        assert forall|i: int| n <= i < s.len() implies #[trigger] s[i] == '/' by {
            if i < rest.len() {
                assert(rest[i] == s[i]);
            }
        }
        n
    } else {
        assert(s.take(s.len() as int) =~= s);
        s.len() as int
    }
}

/// A tilde stands for the home directory, with one slash between it and what follows; any
/// other path stays as it is.
pub proof fn tildes_are_resolved(home: Seq<char>, rest: Seq<char>, path: Seq<char>)
    ensures
        resolved("~"@, home) == home,
        home.len() > 0 && home.last() != '/' ==> resolved("~/"@ + rest, home) == home + "/"@ + rest,
        resolved("~/"@ + rest, home.push('/')) == resolved("~/"@ + rest, home),
        path.len() > 0 && path[0] != '~' ==> resolved(path, home) == path,
{
    reveal_strlit("~");
    reveal_strlit("~/");
    let p = "~/"@ + rest;
    assert(p.subrange(0, 2) =~= "~/"@);
    assert(p.skip(2) =~= rest);
    assert(p.len() >= 2);
    assert(home.push('/').drop_last() =~= home);
    if path.len() > 0 && path[0] != '~' {
        assert("~"@[0] == '~');
        if crate::scan::begins(path, "~/"@) {
            assert(path.subrange(0, 2)[0] == '~');
        }
    }
}

proof fn directories_grow(root: Seq<char>, names: Seq<Seq<char>>) -> (at: Seq<int>)
    requires
        forall|i: int| 0 <= i < names.len() ==> !(#[trigger] names[i]).contains('/'),
    ensures
        forall|i: int, j: int| 0 <= i < j < at.len() ==> #[trigger] at[i] < #[trigger] at[j],
        forall|k: int| #[trigger] at.contains(k) <==> 0 <= k < names.len() && names[k].len() > 0,
        directories(root, names).len() == at.len(),
        at.len() > 0 ==> directories(root, names)[0] == below(root, names[at[0]]),
        forall|i: int|
            0 < i < at.len() ==> #[trigger] directories(root, names)[i]
                == directories(root, names)[i
                - 1] + "/"@ + names[at[i]],
    decreases names.len(),
{
    if names.len() == 0 {
        Seq::empty()
    } else {
        let rest = names.drop_last();
        let n = names.len() - 1;
        assert forall|i: int| 0 <= i < rest.len() implies !(#[trigger] rest[i]).contains('/') by {
            assert(rest[i] == names[i]);
        }
        let before = directories_grow(root, rest);
        let list = directories(root, rest);
        let all = directories(root, names);
        assert forall|i: int| 0 <= i < before.len() implies 0 <= #[trigger] before[i] < n by {
            assert(before.contains(before[i]));
        }
        let keep = names[n].len() > 0;
        let at = if keep {
            before.push(n)
        } else {
            before
        };
        assert forall|k: int| #[trigger] at.contains(k) <==> 0 <= k < names.len()
            && names[k].len() > 0 by {
            assert(before.contains(k) <==> 0 <= k < n && rest[k].len() > 0);
            if keep {
                assert(at[before.len() as int] == n);
                if before.contains(k) {
                    assert(at[before.index_of(k)] == k);
                }
                if at.contains(k) && k != n {
                    assert(before[at.index_of(k)] == k);
                }
            }
        }
        if before.len() > 0 {
            // The path so far ends with a name, so not with a slash.
            let m = before.len() - 1;
            assert(before.contains(before[m]));
            let name = rest[before[m]];
            assert(name.len() > 0);
            assert(!name.contains('/'));
            assert(name.contains(name.last()));
            if m == 0 {
                assert(list[0].last() == name.last());
            } else {
                assert(list[m].last() == name.last());
            }
        }
        assert forall|i: int| 0 < i < at.len() implies #[trigger] all[i] == all[i - 1] + "/"@
            + names[at[i]] by {
            if i < before.len() {
                assert(list[i] == list[i - 1] + "/"@ + rest[before[i]]);
            }
        }
        at
    }
}

/// The directories on the way to a path: each is the one before, a slash and the next name
/// of the path, and the first begins at the root where the path does.
pub proof fn every_directory_on_the_way_is_listed(path: Seq<char>) -> (at: Seq<int>)
    ensures
        ({
            let names = split_on(path, '/');
            let chain = directory_chain(path);
            &&& forall|i: int, j: int| 0 <= i < j < at.len() ==> #[trigger] at[i] < #[trigger] at[j]
            &&& forall|k: int| #[trigger]
                at.contains(k) <==> 0 <= k < names.len() && names[k].len() > 0
            &&& chain.len() == at.len()
            &&& at.len() > 0 ==> chain[0] == (if path[0] == '/' {
                "/"@ + names[at[0]]
            } else {
                names[at[0]]
            })
            &&& forall|i: int|
                0 < i < at.len() ==> #[trigger] chain[i] == chain[i - 1] + "/"@ + names[at[i]]
        }),
{
    reveal_strlit("/");
    crate::scan::splitting_and_joining(path, '/');
    let names = split_on(path, '/');
    let root = if path.len() > 0 && path[0] == '/' {
        "/"@
    } else {
        Seq::empty()
    };
    let at = directories_grow(root, names);
    if at.len() > 0 {
        assert(at.contains(at[0]));
        if path.len() == 0 {
            crate::scan::find_char_facts(path, '/', 0);
        }
        assert(Seq::<char>::empty() + names[at[0]] =~= names[at[0]]);
    }
    at
}

} // verus!
