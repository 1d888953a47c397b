//! The commands that a sync sends to the hosts, and reading what they answer.

use vstd::prelude::*;

use crate::commands::sync::decide::{CollectResult, FileInfo, FileView};
use crate::config::schema::ShellType;
use crate::lookup::TextMap;
use crate::path_parts::{parent_fits, parent_of, plain, plain_parent};
use crate::scan::{
    after_prefix, begins, begins_with, join, join_all, lines, replace_char, replaced,
    split_at_marker, split_lines, split_marker, split_words, strip_prefix, trim, trimmed, words,
};
use crate::text::{
    concat2, concat3, copy, decimal, parse_signed, parse_unsigned, same, signed_decimal,
        signed_value,
    str_opt, text_opt, texts, texts_push, unsigned_value,
};

verus! {

broadcast use texts_push;

// ---------------------------------------------------------------------------
// Quoting
// ---------------------------------------------------------------------------

/// A text inside single quotes, for a POSIX shell.
pub open spec fn single_quoted(s: Seq<char>) -> Seq<char> {
    "'"@ + replace_char(s, '\'', "'\\''"@) + "'"@
}

/// A path for a POSIX shell: quoted, with a leading `~/` left to the shell.
pub open spec fn sh_path(path: Seq<char>) -> Seq<char> {
    match after_prefix(path, "~/"@) {
        Some(rest) => "$HOME/"@ + single_quoted(rest),
        None => single_quoted(path),
    }
}

/// A path for PowerShell, without quotes: a leading `~/` becomes `$HOME\` and
/// the separators behind it are turned round.
pub open spec fn ps_path(path: Seq<char>) -> Seq<char> {
    match after_prefix(path, "~/"@) {
        Some(rest) => "$HOME\\"@ + replace_char(rest, '/', "\\"@),
        None => path,
    }
}

/// A path for PowerShell in double quotes.
pub open spec fn ps_quoted(path: Seq<char>) -> Seq<char> {
    "\""@ + ps_path(path) + "\""@
}

/// The path as the shell is to see it.
pub open spec fn shell_path(path: Seq<char>, shell: ShellType) -> Seq<char> {
    match shell {
        ShellType::PowerShell => ps_quoted(path),
        _ => sh_path(path),
    }
}

/// All paths as the shell is to see them.
pub open spec fn shell_paths(paths: Seq<Seq<char>>, shell: ShellType) -> Seq<Seq<char>> {
    Seq::new(paths.len(), |i: int| shell_path(paths[i], shell))
}

/// Puts a text into single quotes, for a POSIX shell.
pub fn quote_single(s: &str) -> (r: String)
    ensures
        r@ == single_quoted(s@),
{
    concat3("'", replaced(s, '\'', "'\\''").as_str(), "'")
}

fn quote_sh(path: &str) -> (r: String)
    ensures
        r@ == sh_path(path@),
{
    match strip_prefix(path, "~/") {
        Some(rest) => concat2("$HOME/", quote_single(rest.as_str()).as_str()),
        None => quote_single(path),
    }
}

fn path_for_ps(path: &str) -> (r: String)
    ensures
        r@ == ps_path(path@),
{
    match strip_prefix(path, "~/") {
        Some(rest) => concat2("$HOME\\", replaced(rest.as_str(), '/', "\\").as_str()),
        None => copy(path),
    }
}

fn quote_all(paths: &[String], shell: ShellType) -> (r: Vec<String>)
    ensures
        texts(r@) == shell_paths(texts(paths@), shell),
{
    let ghost all = shell_paths(texts(paths@), shell);
    let mut out: Vec<String> = Vec::new();
    let mut i: usize = 0;
    while i < paths.len()
        invariant
            i <= paths.len(),
            all == shell_paths(texts(paths@), shell),
            texts(out@) == all.take(i as int),
        decreases paths.len() - i,
    {
        let q = match shell {
            ShellType::PowerShell => concat3("\"", path_for_ps(paths[i].as_str()).as_str(), "\""),
            _ => quote_sh(paths[i].as_str()),
        };
        out.push(q);
        i += 1;
        assert(texts(out@) =~= all.take(i as int));
    }
    assert(all.take(i as int) =~= all);
    out
}

// ---------------------------------------------------------------------------
// Listing directories
// ---------------------------------------------------------------------------

pub const PS_EXPAND_HEAD: &'static str = "$h=$HOME; foreach ($p in @(";

pub const PS_EXPAND_LIST: &'static str =
    ")) { $orig=$p -replace [regex]::Escape($h),'~'; \"---PATH:$orig\"; \
     if (Test-Path $p -PathType Container) { \"DIR\"; Get-ChildItem $p -File";

pub const PS_EXPAND_TAIL: &'static str =
    " | ForEach-Object { $_.FullName -replace [regex]::Escape($h),'~' } } \
     elseif (Test-Path $p) { \"FILE\" } else { \"MISSING\" } }";

pub const SH_EXPAND_HEAD: &'static str = "for p in ";

pub const SH_EXPAND_LIST: &'static str =
    "; do orig=$(echo \"$p\" | sed \"s|^$HOME/|~/|;s|^$HOME$|~|\"); echo \"---PATH:$orig\"; \
     if [ -d \"$p\" ]; then echo \"DIR\"; find \"$p\"";

pub const SH_EXPAND_TAIL: &'static str =
    " -type f 2>/dev/null | sed \"s|^$HOME/|~/|\" | sort; \
     elif [ -e \"$p\" ]; then echo \"FILE\"; else echo \"MISSING\"; fi; done";

/// The command that says of each path whether it is a directory or a file, and
/// lists the files of a directory.
pub open spec fn dir_expand_cmd(paths: Seq<Seq<char>>, recursive: bool, shell: ShellType) -> Seq<
    char,
> {
    let quoted = shell_paths(paths, shell);
    match shell {
        ShellType::PowerShell => PS_EXPAND_HEAD@ + join(quoted, ","@) + PS_EXPAND_LIST@ + (
        if recursive {
            " -Recurse"@
        } else {
            ""@
        }) + PS_EXPAND_TAIL@,
        _ => SH_EXPAND_HEAD@ + join(quoted, " "@) + SH_EXPAND_LIST@ + (if recursive {
            ""@
        } else {
            " -maxdepth 1"@
        }) + SH_EXPAND_TAIL@,
    }
}

/// Builds the command that says of each path whether it is a directory or a
/// file, and lists the files of a directory.
///
/// For each path the answer is a line `---PATH:` with the path, a line `DIR`,
/// `FILE` or `MISSING`, and the files, one to a line.
pub fn build_dir_expand_cmd(paths: &[String], recursive: bool, shell: ShellType) -> (r: String)
    ensures
        r@ == dir_expand_cmd(texts(paths@), recursive, shell),
{
    let quoted = quote_all(paths, shell);
    match shell {
        ShellType::PowerShell => {
            let mut cmd = copy(PS_EXPAND_HEAD);
            cmd.append(join_all(quoted.as_slice(), ",").as_str());
            cmd.append(PS_EXPAND_LIST);
            cmd.append(
                if recursive {
                    " -Recurse"
                } else {
                    ""
                },
            );
            cmd.append(PS_EXPAND_TAIL);
            cmd
        },
        ShellType::Sh | ShellType::Cmd => {
            let mut cmd = copy(SH_EXPAND_HEAD);
            cmd.append(join_all(quoted.as_slice(), " ").as_str());
            cmd.append(SH_EXPAND_LIST);
            cmd.append(
                if recursive {
                    ""
                } else {
                    " -maxdepth 1"
                },
            );
            cmd.append(SH_EXPAND_TAIL);
            cmd
        },
    }
}

/// What a path is on the source host.
#[derive(Debug)]
pub enum DirExpandResult {
    /// A regular file.
    File,
    /// A directory, with the paths of the files in it.
    Directory(Vec<String>),
    /// Nothing.
    Missing,
}

/// What a path is on the source host, with its files as texts.
pub ghost enum ExpandView {
    File,
    Directory(Seq<Seq<char>>),
    Missing,
}

impl View for DirExpandResult {
    type V = ExpandView;

    open spec fn view(&self) -> ExpandView {
        match *self {
            DirExpandResult::File => ExpandView::File,
            DirExpandResult::Directory(files) => ExpandView::Directory(texts(files@)),
            DirExpandResult::Missing => ExpandView::Missing,
        }
    }
}

/// The trimmed lines that are not empty.
pub open spec fn filled_lines(list: Seq<Seq<char>>) -> Seq<Seq<char>>
    decreases list.len(),
{
    if list.len() == 0 {
        Seq::empty()
    } else {
        let rest = filled_lines(list.drop_last());
        let t = trim(list.last());
        if t.len() > 0 {
            rest.push(t)
        } else {
            rest
        }
    }
}

/// What the answer for one path says: its second line is the kind, and behind
/// `DIR` each line that is not blank is a file.
pub open spec fn expand_block(block: Seq<char>) -> ExpandView {
    let ls = lines(block);
    if ls.len() < 2 {
        ExpandView::Missing
    } else if trim(ls[1]) == "DIR"@ {
        ExpandView::Directory(filled_lines(ls.skip(2)))
    } else if trim(ls[1]) == "FILE"@ {
        ExpandView::File
    } else {
        ExpandView::Missing
    }
}

/// The answers for the first `n` paths, each under its path.
pub open spec fn expand_map(blocks: Seq<Seq<char>>, paths: Seq<Seq<char>>, n: nat) -> Map<
    Seq<char>,
    ExpandView,
>
    decreases n,
{
    if n == 0 {
        Map::empty()
    } else {
        expand_map(blocks, paths, (n - 1) as nat).insert(paths[n - 1], expand_block(blocks[n as int]))
    }
}

/// The smaller of two lengths.
pub open spec fn smaller(a: nat, b: nat) -> nat {
    if a < b {
        a
    } else {
        b
    }
}

/// What the values of a map of expansions hold.
pub open spec fn expand_views(m: Map<Seq<char>, DirExpandResult>) -> Map<Seq<char>, ExpandView> {
    m.map_values(|v: DirExpandResult| v@)
}

/// The answers to a directory listing: what stands behind the n-th marker
/// belongs to the n-th path.
pub open spec fn expand_output(output: Seq<char>, paths: Seq<Seq<char>>) -> Map<
    Seq<char>,
    ExpandView,
> {
    let blocks = split_at_marker(output, "---PATH:"@);
    expand_map(blocks, paths, smaller((blocks.len() - 1) as nat, paths.len()))
}

fn filled(list: &[String], from: usize) -> (r: Vec<String>)
    requires
        from <= list@.len(),
    ensures
        texts(r@) == filled_lines(texts(list@).skip(from as int)),
{
    let ghost all = texts(list@).skip(from as int);
    let mut out: Vec<String> = Vec::new();
    let mut i: usize = from;
    assert(texts(out@) =~= filled_lines(all.take(0)));
    while i < list.len()
        invariant
            from <= i <= list@.len(),
            all == texts(list@).skip(from as int),
            texts(out@) == filled_lines(all.take(i - from)),
        decreases list@.len() - i,
    {
        let t = trimmed(list[i].as_str());
        assert(all.take(i - from + 1).drop_last() =~= all.take(i - from));
        assert(all.take(i - from + 1).last() == list@[i as int]@);
        if !t.as_str().is_empty() {
            out.push(t);
        }
        i += 1;
    }
    assert(all.take(i - from) =~= all);
    out
}

fn parse_expand_block(block: &str) -> (r: DirExpandResult)
    ensures
        r@ == expand_block(block@),
{
    let ls = split_lines(block);
    assert(texts(ls@).len() == ls@.len());
    if ls.len() < 2 {
        return DirExpandResult::Missing;
    }
    let kind = trimmed(ls[1].as_str());
    assert(texts(ls@)[1] == ls@[1]@);
    if same(kind.as_str(), "DIR") {
        DirExpandResult::Directory(filled(ls.as_slice(), 2))
    } else if same(kind.as_str(), "FILE") {
        DirExpandResult::File
    } else {
        DirExpandResult::Missing
    }
}

/// Reads the answer to `build_dir_expand_cmd`.
pub fn parse_dir_expand_output(output: &str, paths: &[String]) -> (r: TextMap<DirExpandResult>)
    ensures
        r.wf(),
        expand_views(r@) == expand_output(output@, texts(paths@)),
{
    let mut result: TextMap<DirExpandResult> = TextMap::new();
    proof {
        reveal_strlit("---PATH:");
    }
    let blocks = split_marker(output, "---PATH:");
    let ghost bs = texts(blocks@);
    let ghost ps = texts(paths@);
    assert(bs.len() == blocks@.len());
    let mut i: usize = 0;
    assert(expand_views(result@) =~= expand_map(bs, ps, 0));
    while blocks.len() - i > 1 && i < paths.len()
        invariant
            result.wf(),
            i < blocks@.len(),
            i <= paths@.len(),
            bs == texts(blocks@),
            ps == texts(paths@),
            expand_views(result@) == expand_map(bs, ps, i as nat),
        decreases blocks@.len() - i,
    {
        let kind = parse_expand_block(blocks[i + 1].as_str());
        let ghost before = result@;
        result.insert(copy(paths[i].as_str()), kind);
        assert(expand_views(before.insert(ps[i as int], kind)) =~= expand_views(before).insert(
            ps[i as int],
            kind@,
        ));
        i += 1;
    }
    assert(i == smaller((bs.len() - 1) as nat, ps.len()));
    result
}

/// What every path counts as when the listing failed on the source.
pub open spec fn all_missing(paths: Seq<Seq<char>>, n: nat) -> Map<Seq<char>, ExpandView>
    decreases n,
{
    if n == 0 {
        Map::empty()
    } else {
        all_missing(paths, (n - 1) as nat).insert(paths[n - 1], ExpandView::Missing)
    }
}

/// Reads the outcome of a directory listing: where the command failed on the
/// source, every path counts as missing.
pub fn expand_result(success: bool, stdout: &str, paths: &[String]) -> (r: TextMap<
    DirExpandResult,
>)
    ensures
        r.wf(),
        expand_views(r@) == (if success {
            expand_output(stdout@, texts(paths@))
        } else {
            all_missing(texts(paths@), paths@.len())
        }),
{
    if success {
        return parse_dir_expand_output(stdout, paths);
    }
    let mut result: TextMap<DirExpandResult> = TextMap::new();
    let mut i: usize = 0;
    assert(expand_views(result@) =~= all_missing(texts(paths@), 0));
    while i < paths.len()
        invariant
            result.wf(),
            i <= paths@.len(),
            expand_views(result@) == all_missing(texts(paths@), i as nat),
        decreases paths@.len() - i,
    {
        let ghost before = result@;
        result.insert(copy(paths[i].as_str()), DirExpandResult::Missing);
        assert(expand_views(before.insert(paths@[i as int]@, DirExpandResult::Missing))
            =~= expand_views(before).insert(paths@[i as int]@, ExpandView::Missing));
        i += 1;
    }
    result
}

// ---------------------------------------------------------------------------
// File metadata
// ---------------------------------------------------------------------------

pub const PS_BATCH_HEAD: &'static str = "foreach ($f in @(";

pub const PS_BATCH_TAIL: &'static str =
    ")) { \"---FILE:$f\"; $i=Get-Item $f -ErrorAction SilentlyContinue; if ($i) { \
     [int64](($i.LastWriteTimeUtc-[datetime]\"1970-01-01\").TotalSeconds), $i.Length -join \" \"; \
     (Get-FileHash $f -Algorithm SHA256).Hash.ToLower() } else { \"MISSING\" } }";

pub const SH_BATCH_HEAD: &'static str = "for f in ";

pub const SH_BATCH_TAIL: &'static str =
    "; do echo \"---FILE:$f\"; \
     stat -c '%Y %s' \"$f\" 2>/dev/null || stat -f '%m %z' \"$f\" 2>/dev/null || echo \"MISSING\"; \
     (sha256sum \"$f\" 2>/dev/null || shasum -a 256 \"$f\" 2>/dev/null) || echo \"NOHASH\"; done";

/// The command that reports time, size and hash of all files at once.
pub open spec fn batch_metadata_cmd(paths: Seq<Seq<char>>, shell: ShellType) -> Seq<char> {
    let quoted = shell_paths(paths, shell);
    match shell {
        ShellType::PowerShell => PS_BATCH_HEAD@ + join(quoted, ","@) + PS_BATCH_TAIL@,
        _ => SH_BATCH_HEAD@ + join(quoted, " "@) + SH_BATCH_TAIL@,
    }
}

/// Builds the command that reports time, size and hash of all files at once.
pub fn build_batch_metadata_cmd(paths: &[String], shell: ShellType) -> (r: String)
    ensures
        r@ == batch_metadata_cmd(texts(paths@), shell),
{
    let quoted = quote_all(paths, shell);
    match shell {
        ShellType::PowerShell => concat3(
            PS_BATCH_HEAD,
            join_all(quoted.as_slice(), ",").as_str(),
            PS_BATCH_TAIL,
        ),
        ShellType::Sh | ShellType::Cmd => concat3(
            SH_BATCH_HEAD,
            join_all(quoted.as_slice(), " ").as_str(),
            SH_BATCH_TAIL,
        ),
    }
}

pub const PS_FILE_TAIL: &'static str =
    "\"; $i=Get-Item $f -ErrorAction SilentlyContinue; if ($i) { \
     [int64](($i.LastWriteTimeUtc-[datetime]\"1970-01-01\").TotalSeconds), $i.Length -join \" \"; \
     (Get-FileHash $f -Algorithm SHA256).Hash.ToLower() }";

/// The command that reports time, size and hash of one file.
pub open spec fn file_metadata_cmd(path: Seq<char>, shell: ShellType) -> Seq<char> {
    match shell {
        ShellType::PowerShell => "$f=\""@ + ps_path(path) + PS_FILE_TAIL@,
        _ => "stat -c '%Y %s' "@ + sh_path(path) + " 2>/dev/null || stat -f '%m %z' "@ + sh_path(
            path,
        ) + " 2>/dev/null; (sha256sum "@ + sh_path(path) + " 2>/dev/null || shasum -a 256 "@
            + sh_path(path) + " 2>/dev/null) || true"@,
    }
}

/// Builds the command that reports time, size and hash of one file. A missing
/// hash tool does not make it fail.
pub fn build_file_metadata_cmd(path: &str, shell: ShellType) -> (r: String)
    ensures
        r@ == file_metadata_cmd(path@, shell),
{
    match shell {
        ShellType::PowerShell => concat3("$f=\"", path_for_ps(path).as_str(), PS_FILE_TAIL),
        ShellType::Sh | ShellType::Cmd => {
            let p = quote_sh(path);
            let mut cmd = copy("stat -c '%Y %s' ");
            cmd.append(p.as_str());
            cmd.append(" 2>/dev/null || stat -f '%m %z' ");
            cmd.append(p.as_str());
            cmd.append(" 2>/dev/null; (sha256sum ");
            cmd.append(p.as_str());
            cmd.append(" 2>/dev/null || shasum -a 256 ");
            cmd.append(p.as_str());
            cmd.append(" 2>/dev/null) || true");
            cmd
        },
    }
}

/// The first word of a text; empty where there is none.
pub open spec fn first_word(s: Seq<char>) -> Seq<char> {
    let ws = words(s);
    if ws.len() > 0 {
        ws[0]
    } else {
        Seq::empty()
    }
}

fn take_first_word(s: &str) -> (r: String)
    ensures
        r@ == first_word(s@),
{
    let ws = split_words(s);
    assert(texts(ws@).len() == ws@.len());
    if ws.len() > 0 {
        assert(texts(ws@)[0] == ws@[0]@);
        copy(ws[0].as_str())
    } else {
        String::new()
    }
}

/// The modification time on a `time size` line.
pub open spec fn stat_mtime(line: Seq<char>) -> Option<int> {
    let ws = words(line);
    if ws.len() > 0 {
        signed_value(ws[0])
    } else {
        None
    }
}

/// The size on a `time size` line; zero where it cannot be read.
pub open spec fn stat_size(line: Seq<char>) -> nat {
    let ws = words(line);
    if ws.len() > 1 {
        match unsigned_value(ws[1], u64::MAX as nat) {
            Some(n) => n,
            None => 0,
        }
    } else {
        0
    }
}

fn read_stat(line: &str) -> (r: (Option<i64>, u64))
    ensures
        r.0 is Some <==> stat_mtime(line@) is Some,
        r.0 matches Some(t) ==> stat_mtime(line@) == Some(t as int),
        r.1 == stat_size(line@),
{
    let ws = split_words(line);
    assert(texts(ws@).len() == ws@.len());
    let mtime = if ws.len() > 0 {
        assert(texts(ws@)[0] == ws@[0]@);
        parse_signed(ws[0].as_str())
    } else {
        None
    };
    let size: u64 = if ws.len() > 1 {
        assert(texts(ws@)[1] == ws@[1]@);
        match parse_unsigned(ws[1].as_str(), u64::MAX) {
            Some(n) => n,
            None => 0,
        }
    } else {
        0
    };
    (mtime, size)
}

/// What one host reports about one file of a batch.
#[derive(Debug)]
pub struct SingleFileResult {
    pub found: Option<FileInfo>,
    pub is_missing: bool,
}

/// The contents of such a report; `None` where the host has no copy.
pub ghost struct SingleView {
    pub found: Option<FileView>,
    pub is_missing: bool,
}

impl View for SingleFileResult {
    type V = SingleView;

    open spec fn view(&self) -> SingleView {
        SingleView {
            found: match self.found {
                Some(f) => Some(f@),
                None => None,
            },
            is_missing: self.is_missing,
        }
    }
}

/// What the answer for one file says: the second line holds time and size, or
/// `MISSING`; the third begins with the hash, or is `NOHASH`.
pub open spec fn file_block(block: Seq<char>, path: Seq<char>, host: Seq<char>) -> SingleView {
    let ls = lines(block);
    if ls.len() < 2 || trim(ls[1]) == "MISSING"@ {
        SingleView { found: None, is_missing: true }
    } else {
        SingleView {
            found: Some(
                FileView {
                    host,
                    path,
                    mtime: match stat_mtime(trim(ls[1])) {
                        Some(t) => t,
                        None => 0,
                    },
                    size: stat_size(trim(ls[1])),
                    hash: if ls.len() > 2 && trim(ls[2]) != "NOHASH"@ {
                        first_word(trim(ls[2]))
                    } else {
                        Seq::empty()
                    },
                },
            ),
            is_missing: false,
        }
    }
}

/// The reports on the first `n` files, each under its path.
pub open spec fn file_map(
    blocks: Seq<Seq<char>>,
    paths: Seq<Seq<char>>,
    host: Seq<char>,
    n: nat,
) -> Map<Seq<char>, SingleView>
    decreases n,
{
    if n == 0 {
        Map::empty()
    } else {
        file_map(blocks, paths, host, (n - 1) as nat).insert(
            paths[n - 1],
            file_block(blocks[n as int], paths[n - 1], host),
        )
    }
}

/// What the values of a map of reports hold.
pub open spec fn single_views(m: Map<Seq<char>, SingleFileResult>) -> Map<Seq<char>, SingleView> {
    m.map_values(|v: SingleFileResult| v@)
}

/// The answers to a batch command: what stands behind the n-th marker belongs
/// to the n-th path.
pub open spec fn batch_output(output: Seq<char>, paths: Seq<Seq<char>>, host: Seq<char>) -> Map<
    Seq<char>,
    SingleView,
> {
    let blocks = split_at_marker(output, "---FILE:"@);
    file_map(blocks, paths, host, smaller((blocks.len() - 1) as nat, paths.len()))
}

fn parse_file_block(block: &str, path: &str, host: &str) -> (r: SingleFileResult)
    ensures
        r@ == file_block(block@, path@, host@),
{
    let ls = split_lines(block);
    assert(texts(ls@).len() == ls@.len());
    if ls.len() < 2 {
        return SingleFileResult { found: None, is_missing: true };
    }
    let data = trimmed(ls[1].as_str());
    assert(texts(ls@)[1] == ls@[1]@);
    if same(data.as_str(), "MISSING") {
        return SingleFileResult { found: None, is_missing: true };
    }
    let (time, size) = read_stat(data.as_str());
    let mtime: i64 = match time {
        Some(t) => t,
        None => 0,
    };
    let hash = if ls.len() > 2 {
        assert(texts(ls@)[2] == ls@[2]@);
        let line = trimmed(ls[2].as_str());
        if same(line.as_str(), "NOHASH") {
            String::new()
        } else {
            take_first_word(line.as_str())
        }
    } else {
        String::new()
    };
    SingleFileResult {
        found: Some(FileInfo { host: copy(host), path: copy(path), mtime, size, hash }),
        is_missing: false,
    }
}

/// Reads the answer to `build_batch_metadata_cmd`.
pub fn parse_batch_metadata_output(output: &str, paths: &[String], host_name: &str) -> (r: TextMap<
    SingleFileResult,
>)
    ensures
        r.wf(),
        single_views(r@) == batch_output(output@, texts(paths@), host_name@),
{
    let mut result: TextMap<SingleFileResult> = TextMap::new();
    proof {
        reveal_strlit("---FILE:");
    }
    let blocks = split_marker(output, "---FILE:");
    let ghost bs = texts(blocks@);
    let ghost ps = texts(paths@);
    assert(bs.len() == blocks@.len());
    let mut i: usize = 0;
    assert(single_views(result@) =~= file_map(bs, ps, host_name@, 0));
    while blocks.len() - i > 1 && i < paths.len()
        invariant
            result.wf(),
            i < blocks@.len(),
            i <= paths@.len(),
            bs == texts(blocks@),
            ps == texts(paths@),
            single_views(result@) == file_map(bs, ps, host_name@, i as nat),
        decreases blocks@.len() - i,
    {
        let report = parse_file_block(blocks[i + 1].as_str(), paths[i].as_str(), host_name);
        let ghost before = result@;
        result.insert(copy(paths[i].as_str()), report);
        assert(single_views(before.insert(ps[i as int], report)) =~= single_views(before).insert(
            ps[i as int],
            report@,
        ));
        i += 1;
    }
    assert(i == smaller((bs.len() - 1) as nat, ps.len()));
    result
}

/// What the answer to a single-file command says: nothing where the first line
/// does not begin with a modification time.
pub open spec fn file_output(output: Seq<char>, path: Seq<char>, host: Seq<char>) -> Option<
    FileView,
> {
    let ls = lines(output);
    if ls.len() == 0 || stat_mtime(ls[0]) is None {
        None
    } else {
        Some(
            FileView {
                host,
                path,
                mtime: stat_mtime(ls[0])->0,
                size: stat_size(ls[0]),
                hash: if ls.len() > 1 {
                    first_word(ls[1])
                } else {
                    Seq::empty()
                },
            },
        )
    }
}

/// Reads the answer to `build_file_metadata_cmd`; `None` where the host has no
/// such file.
pub fn parse_file_metadata_output(output: &str, path: &str, host_name: &str) -> (r: Option<
    FileInfo,
>)
    ensures
        (match r {
            Some(f) => Some(f@),
            None => None,
        }) == file_output(output@, path@, host_name@),
{
    let ls = split_lines(output);
    assert(texts(ls@).len() == ls@.len());
    if ls.len() == 0 {
        return None;
    }
    assert(texts(ls@)[0] == ls@[0]@);
    let (time, size) = read_stat(ls[0].as_str());
    match time {
        None => None,
        Some(mtime) => {
            let hash = if ls.len() > 1 {
                assert(texts(ls@)[1] == ls@[1]@);
                take_first_word(ls[1].as_str())
            } else {
                String::new()
            };
            Some(FileInfo { host: copy(host_name), path: copy(path), mtime, size, hash })
        },
    }
}

// ---------------------------------------------------------------------------
// Putting the hosts' answers together
// ---------------------------------------------------------------------------

/// The answer of one host about one file: `None` where the host could not be
/// reached, else what it reported.
pub struct FileAnswer {
    pub host: String,
    pub answer: Option<SingleFileResult>,
}

/// The reports among some answers, in order.
pub open spec fn found_in(answers: Seq<FileAnswer>) -> Seq<FileInfo>
    decreases answers.len(),
{
    if answers.len() == 0 {
        Seq::empty()
    } else {
        let rest = found_in(answers.drop_last());
        match answers.last().answer {
            Some(a) => match a.found {
                Some(f) => rest.push(f),
                None => rest,
            },
            None => rest,
        }
    }
}

/// The hosts among some answers that have no copy, in order.
pub open spec fn missing_in(answers: Seq<FileAnswer>) -> Seq<Seq<char>>
    decreases answers.len(),
{
    if answers.len() == 0 {
        Seq::empty()
    } else {
        let rest = missing_in(answers.drop_last());
        match answers.last().answer {
            Some(a) => if a.found is None && a.is_missing {
                rest.push(answers.last().host@)
            } else {
                rest
            },
            None => rest,
        }
    }
}

/// Sorts the hosts' answers about one file; hosts that could not be reached
/// appear nowhere.
pub fn collect_answers(answers: &[FileAnswer]) -> (r: CollectResult)
    ensures
        r.found@ == found_in(answers@),
        texts(r.missing@) == missing_in(answers@),
{
    let mut found: Vec<FileInfo> = Vec::new();
    let mut missing: Vec<String> = Vec::new();
    let mut i: usize = 0;
    assert(texts(missing@) =~= missing_in(answers@.take(0)));
    while i < answers.len()
        invariant
            i <= answers@.len(),
            found@ == found_in(answers@.take(i as int)),
            texts(missing@) == missing_in(answers@.take(i as int)),
        decreases answers@.len() - i,
    {
        let a = &answers[i];
        assert(answers@.take(i + 1).drop_last() =~= answers@.take(i as int));
        assert(answers@.take(i + 1).last() == *a);
        match &a.answer {
            Some(s) => match &s.found {
                Some(f) => {
                    found.push(f.copy());
                },
                None => {
                    if s.is_missing {
                        missing.push(copy(a.host.as_str()));
                    }
                },
            },
            None => {},
        }
        i += 1;
    }
    assert(answers@.take(i as int) =~= answers@);
    CollectResult { found, missing }
}

/// What one host reported on a batch of files; `None` where it could not be
/// reached or the command failed.
pub struct BatchAnswer {
    pub host: String,
    pub reports: Option<TextMap<SingleFileResult>>,
}

/// The reports on one path among batch answers, in order.
pub open spec fn batch_found(answers: Seq<BatchAnswer>, path: Seq<char>) -> Seq<FileInfo>
    decreases answers.len(),
{
    if answers.len() == 0 {
        Seq::empty()
    } else {
        let rest = batch_found(answers.drop_last(), path);
        match answers.last().reports {
            Some(m) => if m@.dom().contains(path) {
                match m@[path].found {
                    Some(f) => rest.push(f),
                    None => rest,
                }
            } else {
                rest
            },
            None => rest,
        }
    }
}

/// The hosts among batch answers that have no copy of one path, in order.
pub open spec fn batch_missing(answers: Seq<BatchAnswer>, path: Seq<char>) -> Seq<Seq<char>>
    decreases answers.len(),
{
    if answers.len() == 0 {
        Seq::empty()
    } else {
        let rest = batch_missing(answers.drop_last(), path);
        match answers.last().reports {
            Some(m) => if m@.dom().contains(path) && m@[path].found is None && m@[path].is_missing {
                rest.push(answers.last().host@)
            } else {
                rest
            },
            None => rest,
        }
    }
}

/// The hosts among batch answers that could not be reached, in order.
pub open spec fn batch_unreachable(answers: Seq<BatchAnswer>) -> Seq<Seq<char>>
    decreases answers.len(),
{
    if answers.len() == 0 {
        Seq::empty()
    } else {
        let rest = batch_unreachable(answers.drop_last());
        if answers.last().reports is None {
            rest.push(answers.last().host@)
        } else {
            rest
        }
    }
}

/// Each map of reports in the answers has its keys once.
pub open spec fn answers_wf(answers: Seq<BatchAnswer>) -> bool {
    forall|i: int|
        0 <= i < answers.len() ==> ((#[trigger] answers[i]).reports matches Some(m) ==> m.wf())
}

fn collect_path(answers: &[BatchAnswer], path: &str) -> (r: CollectResult)
    requires
        answers_wf(answers@),
    ensures
        r.found@ == batch_found(answers@, path@),
        texts(r.missing@) == batch_missing(answers@, path@),
{
    let mut found: Vec<FileInfo> = Vec::new();
    let mut missing: Vec<String> = Vec::new();
    let mut i: usize = 0;
    assert(texts(missing@) =~= batch_missing(answers@.take(0), path@));
    while i < answers.len()
        invariant
            i <= answers@.len(),
            answers_wf(answers@),
            found@ == batch_found(answers@.take(i as int), path@),
            texts(missing@) == batch_missing(answers@.take(i as int), path@),
        decreases answers@.len() - i,
    {
        let a = &answers[i];
        assert(answers@.take(i + 1).drop_last() =~= answers@.take(i as int));
        assert(answers@.take(i + 1).last() == *a);
        match &a.reports {
            Some(m) => {
                assert(answers@[i as int].reports matches Some(m) ==> m.wf());
                match m.get(path) {
                    Some(s) => match &s.found {
                        Some(f) => {
                            found.push(f.copy());
                        },
                        None => {
                            if s.is_missing {
                                missing.push(copy(a.host.as_str()));
                            }
                        },
                    },
                    None => {},
                }
            },
            None => {},
        }
        i += 1;
    }
    assert(answers@.take(i as int) =~= answers@);
    CollectResult { found, missing }
}

/// What the hosts reported on a batch of files.
pub struct BatchCollectResult {
    pub per_file: TextMap<CollectResult>,
    pub unreachable_hosts: Vec<String>,
}

/// Sorts the answers to a batch by file. `skipped` are hosts that were not even
/// asked because there is no connection to them.
pub fn collect_batch(paths: &[String], answers: &[BatchAnswer], skipped: Vec<String>) -> (r:
    BatchCollectResult)
    requires
        answers_wf(answers@),
    ensures
        r.per_file.wf(),
        forall|p: Seq<char>|
            #[trigger] r.per_file@.dom().contains(p) <==> texts(paths@).contains(p),
        forall|p: Seq<char>| #[trigger]
            r.per_file@.dom().contains(p) ==> {
                &&& r.per_file@[p].found@ == batch_found(answers@, p)
                &&& texts(r.per_file@[p].missing@) == batch_missing(answers@, p)
            },
        texts(r.unreachable_hosts@) == texts(skipped@) + batch_unreachable(answers@),
{
    let mut per_file: TextMap<CollectResult> = TextMap::new();
    let ghost ps = texts(paths@);
    let mut i: usize = 0;
    while i < paths.len()
        invariant
            i <= paths@.len(),
            ps == texts(paths@),
            answers_wf(answers@),
            per_file.wf(),
            forall|p: Seq<char>| #[trigger]
                per_file@.dom().contains(p) <==> ps.take(i as int).contains(p),
            forall|p: Seq<char>| #[trigger]
                per_file@.dom().contains(p) ==> {
                    &&& per_file@[p].found@ == batch_found(answers@, p)
                    &&& texts(per_file@[p].missing@) == batch_missing(answers@, p)
                },
        decreases paths@.len() - i,
    {
        let ghost before = per_file@;
        let c = collect_path(answers, paths[i].as_str());
        per_file.insert(copy(paths[i].as_str()), c);
        proof {
            let t0 = ps.take(i as int);
            let t1 = ps.take(i + 1);
            assert forall|p: Seq<char>| #[trigger] per_file@.dom().contains(p) <==> t1.contains(
                p,
            ) by {
                assert(before.dom().contains(p) <==> t0.contains(p));
                if t0.contains(p) {
                    let k = t0.index_of(p);
                    assert(t1[k] == p);
                }
                if p == ps[i as int] {
                    assert(t1[i as int] == p);
                }
                if t1.contains(p) {
                    let k = t1.index_of(p);
                    if k < i {
                        assert(t0[k] == p);
                    }
                }
            }
        }
        i += 1;
    }
    assert(ps.take(i as int) =~= ps);
    let mut unreachable_hosts = skipped;
    let ghost before = texts(unreachable_hosts@);
    let mut j: usize = 0;
    assert(before + batch_unreachable(answers@.take(0)) =~= before);
    while j < answers.len()
        invariant
            j <= answers@.len(),
            texts(unreachable_hosts@) == before + batch_unreachable(answers@.take(j as int)),
        decreases answers@.len() - j,
    {
        let a = &answers[j];
        assert(answers@.take(j + 1).drop_last() =~= answers@.take(j as int));
        assert(answers@.take(j + 1).last() == *a);
        if a.reports.is_none() {
            unreachable_hosts.push(copy(a.host.as_str()));
        }
        assert(texts(unreachable_hosts@) =~= before + batch_unreachable(answers@.take(j + 1)));
        j += 1;
    }
    assert(answers@.take(j as int) =~= answers@);
    BatchCollectResult { per_file, unreachable_hosts }
}

// ---------------------------------------------------------------------------
// Paths on the way
// ---------------------------------------------------------------------------

/// A path below the local home directory with `~` in its place, so that each
/// remote host resolves it to its own home; any other path as it is.
pub open spec fn tilde_path(path: Seq<char>, home: Option<Seq<char>>) -> Seq<char> {
    match home {
        Some(h) => if h.len() == 0 {
            path
        } else if path == h {
            "~"@
        } else {
            match after_prefix(path, h + "/"@) {
                Some(rest) => "~/"@ + rest,
                None => path,
            }
        },
        None => path,
    }
}

/// Writes a path below the local home directory with `~` in its place.
pub fn to_tilde_path(path: &str, home: Option<&str>) -> (r: String)
    ensures
        r@ == tilde_path(
            path@,
            str_opt(home),
        ),
{
    match home {
        Some(h) => {
            if !h.is_empty() {
                if same(path, h) {
                    return copy("~");
                }
                let prefix = concat2(h, "/");
                if let Some(rest) = strip_prefix(path, prefix.as_str()) {
                    return concat2("~/", rest.as_str());
                }
            }
            copy(path)
        },
        None => copy(path),
    }
}

/// The command that creates a parent directory on the target; none for the
/// root, for the home directory itself, and where the path has no parent.
pub open spec fn mkdir_command(parent: Seq<char>) -> Option<Seq<char>> {
    if parent.len() == 0 || parent == "/"@ || parent == "~"@ {
        None
    } else if begins(parent, "~"@) {
        match after_prefix(parent, "~/"@) {
            Some(sub) => if sub.len() == 0 {
                None
            } else {
                Some("mkdir -p \"$HOME/"@ + replace_char(sub, '"', "\\\""@) + "\""@)
            },
            None => None,
        }
    } else {
        Some("mkdir -p "@ + single_quoted(parent))
    }
}

/// Builds the command that creates a parent directory on the target.
pub fn build_mkdir_command(parent: &str) -> (r: Option<String>)
    ensures
        text_opt(r) == mkdir_command(parent@),
{
    if parent.is_empty() || same(parent, "/") || same(parent, "~") {
        None
    } else if begins_with(parent, "~") {
        match strip_prefix(parent, "~/") {
            Some(sub) => if sub.as_str().is_empty() {
                None
            } else {
                Some(
                    concat3(
                        "mkdir -p \"$HOME/",
                        replaced(sub.as_str(), '"', "\\\"").as_str(),
                        "\"",
                    ),
                )
            },
            None => None,
        }
    } else {
        Some(concat2("mkdir -p ", quote_single(parent).as_str()))
    }
}

/// The command to run on a target before a file is written to `remote_path`, so
/// that the directory of the file exists.
pub fn prepare_target(remote_path: &str) -> (r: Option<String>)
    ensures
        exists|parent: Seq<char>| #[trigger]
            parent_fits(remote_path@, parent) && text_opt(r) == mkdir_command(parent),
        plain(remote_path@) ==> text_opt(r) == mkdir_command(plain_parent(remote_path@)),
{
    let parent = parent_of(remote_path);
    assert(parent_fits(remote_path@, parent@));
    build_mkdir_command(parent.as_str())
}

// ---------------------------------------------------------------------------
// Laws
// ---------------------------------------------------------------------------

/// What a POSIX shell reads out of a word made of single quotes and backslashes: inside
/// quotes every character is itself, outside a backslash makes the next one so.
pub open spec fn shell_word(s: Seq<char>, inside: bool) -> Seq<char>
    decreases s.len(),
{
    if s.len() == 0 {
        Seq::empty()
    } else if s[0] == '\'' {
        shell_word(s.skip(1), !inside)
    } else if !inside && s[0] == '\\' && s.len() > 1 {
        seq![s[1]] + shell_word(s.skip(2), false)
    } else {
        seq![s[0]] + shell_word(s.skip(1), inside)
    }
}

proof fn quotes_are_undone(s: Seq<char>, tail: Seq<char>)
    ensures
        shell_word(replace_char(s, '\'', "'\\''"@) + tail, true) == s + shell_word(tail, true),
    decreases s.len(),
{
    reveal_strlit("'\\''");
    let by = "'\\''"@;
    if s.len() == 0 {
        assert(replace_char(s, '\'', by) + tail =~= tail);
        assert(s + shell_word(tail, true) =~= shell_word(tail, true));
    } else {
        let rest = s.drop_last();
        let c = s.last();
        let piece = if c == '\'' {
            by
        } else {
            seq![c]
        };
        quotes_are_undone(rest, piece + tail);
        assert(replace_char(s, '\'', by) + tail =~= replace_char(rest, '\'', by) + (piece + tail));
        let t = piece + tail;
        if c == '\'' {
            let t1 = t.skip(1);
            let t3 = t1.skip(2);
            assert(t[0] == '\'');
            assert(t1[0] == '\\' && t1[1] == '\'');
            assert(t3[0] == '\'');
            assert(t3.skip(1) =~= tail);
            assert(shell_word(t3, false) == shell_word(t3.skip(1), true));
            assert(shell_word(t1, false) == seq!['\''] + shell_word(t3, false));
            assert(shell_word(t, true) == shell_word(t1, false));
        } else {
            assert(t[0] == c);
            assert(t.skip(1) =~= tail);
        }
        assert(shell_word(t, true) =~= seq![c] + shell_word(tail, true));
        assert(rest + (seq![c] + shell_word(tail, true)) =~= s + shell_word(tail, true));
    }
}

/// A POSIX shell reads a quoted text as that text, whatever it holds.
pub proof fn quoted_texts_are_read_back(s: Seq<char>)
    ensures
        shell_word(single_quoted(s), false) == s,
{
    reveal_strlit("'");
    let mid = replace_char(s, '\'', "'\\''"@);
    let q = single_quoted(s);
    let end = "'"@;
    quotes_are_undone(s, end);
    assert(q[0] == '\'');
    assert(q.skip(1) =~= mid + end);
    assert(end.skip(1) =~= Seq::empty());
    assert(shell_word(end.skip(1), false) =~= Seq::empty());
    assert(shell_word(end, true) =~= Seq::empty());
    assert(s + shell_word(end, true) =~= s);
}

/// A path below the home directory is handed to a POSIX shell as `$HOME`, a slash and its
/// rest; any other path as it is.
pub proof fn posix_paths_are_read_back(path: Seq<char>, rest: Seq<char>)
    ensures
        sh_path("~/"@ + rest) == "$HOME/"@ + single_quoted(rest),
        !(exists|r: Seq<char>| path == #[trigger] ("~/"@ + r)) ==> shell_word(sh_path(path), false)
            == path,
{
    reveal_strlit("~/");
    let p = "~/"@ + rest;
    assert(p.skip(2) =~= rest);
    assert(p.take(2) =~= "~/"@);
    assert(begins(p, "~/"@)) by {
        assert(p.subrange(0, 2) =~= "~/"@);
    }
    if begins(path, "~/"@) {
        assert(path =~= "~/"@ + path.skip(2)) by {
            assert(path.subrange(0, 2) =~= "~/"@);
            assert(path[0] == path.subrange(0, 2)[0]);
            assert(path[1] == path.subrange(0, 2)[1]);
        }
    } else {
        quoted_texts_are_read_back(path);
    }
}

proof fn replaced_one_for_one(s: Seq<char>, c: char, by: Seq<char>)
    requires
        by.len() == 1,
    ensures
        replace_char(s, c, by).len() == s.len(),
        forall|i: int|
            0 <= i < s.len() ==> #[trigger] replace_char(s, c, by)[i] == (if s[i] == c {
                by[0]
            } else {
                s[i]
            }),
    decreases s.len(),
{
    if s.len() > 0 {
        let rest = s.drop_last();
        replaced_one_for_one(rest, c, by);
        assert forall|i: int| 0 <= i < s.len() implies #[trigger] replace_char(s, c, by)[i] == (
        if s[i] == c {
            by[0]
        } else {
            s[i]
        }) by {
            if i < rest.len() {
                assert(replace_char(s, c, by)[i] == replace_char(rest, c, by)[i]);
                assert(rest[i] == s[i]);
            }
        }
    }
}

/// A path below the home directory is handed to PowerShell as `$HOME` and its rest, with a
/// backslash for each slash.
pub proof fn powershell_paths_have_backslashes(rest: Seq<char>)
    ensures
        ps_path("~/"@ + rest).len() == rest.len() + 6,
        ps_path("~/"@ + rest).take(6) == "$HOME\\"@,
        forall|i: int|
            0 <= i < rest.len() ==> #[trigger] ps_path("~/"@ + rest)[i + 6] == (if rest[i] == '/' {
                '\\'
            } else {
                rest[i]
            }),
{
    reveal_strlit("~/");
    reveal_strlit("$HOME\\");
    reveal_strlit("\\");
    let p = "~/"@ + rest;
    assert(p.skip(2) =~= rest);
    assert(p.subrange(0, 2) =~= "~/"@);
    assert(begins(p, "~/"@));
    replaced_one_for_one(rest, '/', "\\"@);
    let tail = replace_char(rest, '/', "\\"@);
    assert(ps_path(p) == "$HOME\\"@ + tail);
    assert(ps_path(p).take(6) =~= "$HOME\\"@);
    assert forall|i: int| 0 <= i < rest.len() implies #[trigger] ps_path(p)[i + 6] == (if rest[i]
        == '/' {
        '\\'
    } else {
        rest[i]
    }) by {
        assert(ps_path(p)[i + 6] == tail[i]);
    }
}

/// A path in the home directory is written with a tilde, the home directory itself as one,
/// and every other path as it is.
pub proof fn tildes_stand_for_home(home: Seq<char>, rest: Seq<char>, path: Seq<char>)
    requires
        home.len() > 0,
    ensures
        tilde_path(home, Some(home)) == "~"@,
        tilde_path(home + "/"@ + rest, Some(home)) == "~/"@ + rest,
        path != home && !(exists|r: Seq<char>| path == #[trigger] (home + "/"@ + r)) ==> tilde_path(
            path,
            Some(home),
        ) == path,
        tilde_path(path, None) == path,
{
    reveal_strlit("/");
    let pre = home + "/"@;
    let n = pre.len() as int;
    let p = pre + rest;
    assert(p.len() > home.len());
    assert(p.subrange(0, n) =~= pre);
    assert(p.skip(n) =~= rest);
    assert(begins(p, pre));
    if begins(path, pre) {
        assert(path.subrange(0, n) =~= pre);
        assert(path =~= pre + path.skip(n)) by {
            assert forall|i: int| 0 <= i < n implies path[i] == pre[i] by {
                assert(path.subrange(0, n)[i] == pre[i]);
            }
        }
    }
}

/// A directory is made in front of a file unless there is none to make: an empty parent, the
/// root, the home directory or that of another user.
pub proof fn parents_are_made(parent: Seq<char>, sub: Seq<char>)
    ensures
        parent.len() > 0 && parent != "/"@ && parent[0] != '~'
            ==> (mkdir_command(parent) matches Some(
            c,
        ) && c.take(9) == "mkdir -p "@ && shell_word(c.skip(9), false) == parent),
        sub.len() > 0 ==> mkdir_command("~/"@ + sub) is Some,
        mkdir_command(""@) is None && mkdir_command("/"@) is None && mkdir_command("~"@) is None,
        parent.len() > 0 && parent[0] == '~' && (parent.len() < 3 || parent[1] != '/')
            ==> mkdir_command(parent) is None,
{
    reveal_strlit("");
    reveal_strlit("/");
    reveal_strlit("~");
    reveal_strlit("~/");
    reveal_strlit("mkdir -p ");
    if parent.len() > 0 {
        assert(begins(parent, "~"@) == (parent[0] == '~')) by {
            if parent[0] == '~' {
                assert(parent.subrange(0, 1) =~= "~"@);
            } else {
                assert(parent.subrange(0, 1)[0] == parent[0]);
            }
        }
        if parent != "/"@ && parent[0] != '~' {
            let c = mkdir_command(parent)->0;
            assert("~"@[0] == '~');
            assert(c.take(9) =~= "mkdir -p "@);
            assert(c.skip(9) =~= single_quoted(parent));
            quoted_texts_are_read_back(parent);
        }
        if parent[0] == '~' && (parent.len() < 3 || parent[1] != '/') {
            if begins(parent, "~/"@) {
                assert(parent.subrange(0, 2)[1] == '/');
            }
        }
    }
    let p = "~/"@ + sub;
    if sub.len() > 0 {
        assert(p.subrange(0, 2) =~= "~/"@);
        assert(p.subrange(0, 1) =~= "~"@);
        assert(p.skip(2) =~= sub);
        assert(p.len() > 2);
    }
}

/// The files that were found are those that the answers report, in the order of the
/// answers.
pub proof fn found_files_are_reported(answers: Seq<FileAnswer>) -> (at: Seq<int>)
    ensures
        forall|i: int, j: int|
            0 <= i < j < at.len() ==> #[trigger] at[i] < #[trigger] at[j],
        forall|k: int| #[trigger] at.contains(k) <==> 0 <= k < answers.len()
            && (answers[k].answer matches Some(a) && a.found is Some),
        found_in(answers).len() == at.len(),
        forall|i: int|
            0 <= i < at.len() ==> #[trigger] found_in(answers)[i]
                == answers[at[i]].answer->0.found->0,
    decreases answers.len(),
{
    if answers.len() == 0 {
        Seq::empty()
    } else {
        let rest = answers.drop_last();
        let n = answers.len() - 1;
        let before = found_files_are_reported(rest);
        assert forall|i: int| 0 <= i < before.len() implies 0 <= #[trigger] before[i] < n by {
            assert(before.contains(before[i]));
        }
        let keep = (answers[n].answer matches Some(a) && a.found is Some);
        let at = if keep {
            before.push(n)
        } else {
            before
        };
        assert forall|k: int| #[trigger] at.contains(k) <==> 0 <= k < answers.len()
            && (answers[k].answer matches Some(a) && a.found is Some) by {
            assert(before.contains(k) <==> 0 <= k < n
                && (rest[k].answer matches Some(a) && a.found is Some));
            if keep {
                assert(at[before.len() as int] == n);
                if before.contains(k) {
                    assert(at[before.index_of(k)] == k);
                }
                if at.contains(k) && k != n {
                    assert(before[at.index_of(k)] == k);
                }
            }
        }
        assert forall|i: int| 0 <= i < at.len()
            implies #[trigger] found_in(answers)[i] == answers[at[i]].answer->0.found->0 by {
            if i < before.len() {
                assert(found_in(rest)[i] == rest[before[i]].answer->0.found->0);
            }
        }
        at
    }
}

/// The hosts where a file is missing are those that answered that they have none, in the
/// order of the answers; a host that gave no answer is none of them.
pub proof fn missing_files_are_reported(answers: Seq<FileAnswer>) -> (at: Seq<int>)
    ensures
        forall|i: int, j: int|
            0 <= i < j < at.len() ==> #[trigger] at[i] < #[trigger] at[j],
        forall|k: int| #[trigger] at.contains(k) <==> 0 <= k < answers.len()
            && (answers[k].answer matches Some(a) && a.found is None && a.is_missing),
        missing_in(answers).len() == at.len(),
        forall|i: int|
            0 <= i < at.len() ==> #[trigger] missing_in(answers)[i] == answers[at[i]].host@,
    decreases answers.len(),
{
    if answers.len() == 0 {
        Seq::empty()
    } else {
        let rest = answers.drop_last();
        let n = answers.len() - 1;
        let before = missing_files_are_reported(rest);
        assert forall|i: int| 0 <= i < before.len() implies 0 <= #[trigger] before[i] < n by {
            assert(before.contains(before[i]));
        }
        let keep = (answers[n].answer matches Some(a) && a.found is None && a.is_missing);
        let at = if keep {
            before.push(n)
        } else {
            before
        };
        assert forall|k: int| #[trigger] at.contains(k) <==> 0 <= k < answers.len()
            && (answers[k].answer matches Some(a) && a.found is None && a.is_missing) by {
            assert(before.contains(k) <==> 0 <= k < n
                && (rest[k].answer matches Some(a) && a.found is None && a.is_missing));
            if keep {
                assert(at[before.len() as int] == n);
                if before.contains(k) {
                    assert(at[before.index_of(k)] == k);
                }
                if at.contains(k) && k != n {
                    assert(before[at.index_of(k)] == k);
                }
            }
        }
        assert forall|i: int| 0 <= i < at.len()
            implies #[trigger] missing_in(answers)[i] == answers[at[i]].host@ by {
            if i < before.len() {
                assert(missing_in(rest)[i] == rest[before[i]].host@);
            }
        }
        at
    }
}

/// The copies of a path that a batch found are those that the hosts reported for that
/// path, in the order of the hosts.
pub proof fn batches_find_what_is_reported(
    answers: Seq<BatchAnswer>,
    path: Seq<char>,
) -> (at: Seq<int>)
    ensures
        forall|i: int, j: int|
            0 <= i < j < at.len() ==> #[trigger] at[i] < #[trigger] at[j],
        forall|k: int| #[trigger] at.contains(k) <==> 0 <= k < answers.len()
            && (answers[k].reports matches Some(m) && m@.dom().contains(path)
            && m@[path].found is Some),
        batch_found(answers, path).len() == at.len(),
        forall|i: int|
            0 <= i < at.len() ==> #[trigger] batch_found(answers, path)[i]
                == answers[at[i]].reports->0@[path].found->0,
    decreases answers.len(),
{
    if answers.len() == 0 {
        Seq::empty()
    } else {
        let rest = answers.drop_last();
        let n = answers.len() - 1;
        let before = batches_find_what_is_reported(rest, path);
        assert forall|i: int| 0 <= i < before.len() implies 0 <= #[trigger] before[i] < n by {
            assert(before.contains(before[i]));
        }
        let keep = (answers[n].reports matches Some(m) && m@.dom().contains(path)
            && m@[path].found is Some);
        let at = if keep {
            before.push(n)
        } else {
            before
        };
        assert forall|k: int| #[trigger] at.contains(k) <==> 0 <= k < answers.len()
            && (answers[k].reports matches Some(m) && m@.dom().contains(path)
            && m@[path].found is Some) by {
            assert(before.contains(k) <==> 0 <= k < n
                && (rest[k].reports matches Some(m) && m@.dom().contains(path)
                && m@[path].found is Some));
            if keep {
                assert(at[before.len() as int] == n);
                if before.contains(k) {
                    assert(at[before.index_of(k)] == k);
                }
                if at.contains(k) && k != n {
                    assert(before[at.index_of(k)] == k);
                }
            }
        }
        assert forall|i: int| 0 <= i < at.len()
            implies #[trigger] batch_found(answers, path)[i]
            == answers[at[i]].reports->0@[path].found->0 by {
            if i < before.len() {
                assert(batch_found(rest, path)[i] == rest[before[i]].reports->0@[path].found->0);
            }
        }
        at
    }
}

/// A batch misses a path on the hosts that reported that they have none.
pub proof fn batches_miss_what_is_reported(
    answers: Seq<BatchAnswer>,
    path: Seq<char>,
) -> (at: Seq<int>)
    ensures
        forall|i: int, j: int|
            0 <= i < j < at.len() ==> #[trigger] at[i] < #[trigger] at[j],
        forall|k: int| #[trigger] at.contains(k) <==> 0 <= k < answers.len()
            && (answers[k].reports matches Some(m) && m@.dom().contains(path)
            && m@[path].found is None && m@[path].is_missing),
        batch_missing(answers, path).len() == at.len(),
        forall|i: int|
            0 <= i < at.len() ==> #[trigger] batch_missing(answers, path)[i]
                == answers[at[i]].host@,
    decreases answers.len(),
{
    if answers.len() == 0 {
        Seq::empty()
    } else {
        let rest = answers.drop_last();
        let n = answers.len() - 1;
        let before = batches_miss_what_is_reported(rest, path);
        assert forall|i: int| 0 <= i < before.len() implies 0 <= #[trigger] before[i] < n by {
            assert(before.contains(before[i]));
        }
        let keep = (answers[n].reports matches Some(m) && m@.dom().contains(path)
            && m@[path].found is None && m@[path].is_missing);
        let at = if keep {
            before.push(n)
        } else {
            before
        };
        assert forall|k: int| #[trigger] at.contains(k) <==> 0 <= k < answers.len()
            && (answers[k].reports matches Some(m) && m@.dom().contains(path)
            && m@[path].found is None && m@[path].is_missing) by {
            assert(before.contains(k) <==> 0 <= k < n
                && (rest[k].reports matches Some(m) && m@.dom().contains(path)
                && m@[path].found is None && m@[path].is_missing));
            if keep {
                assert(at[before.len() as int] == n);
                if before.contains(k) {
                    assert(at[before.index_of(k)] == k);
                }
                if at.contains(k) && k != n {
                    assert(before[at.index_of(k)] == k);
                }
            }
        }
        assert forall|i: int| 0 <= i < at.len()
            implies #[trigger] batch_missing(answers, path)[i] == answers[at[i]].host@ by {
            if i < before.len() {
                assert(batch_missing(rest, path)[i] == rest[before[i]].host@);
            }
        }
        at
    }
}

/// The hosts that a batch did not reach are those without reports.
pub proof fn silent_hosts_are_unreachable(answers: Seq<BatchAnswer>) -> (at: Seq<int>)
    ensures
        forall|i: int, j: int|
            0 <= i < j < at.len() ==> #[trigger] at[i] < #[trigger] at[j],
        forall|k: int| #[trigger] at.contains(k) <==> 0 <= k < answers.len()
            && (answers[k].reports is None),
        batch_unreachable(answers).len() == at.len(),
        forall|i: int|
            0 <= i < at.len() ==> #[trigger] batch_unreachable(answers)[i] == answers[at[i]].host@,
    decreases answers.len(),
{
    if answers.len() == 0 {
        Seq::empty()
    } else {
        let rest = answers.drop_last();
        let n = answers.len() - 1;
        let before = silent_hosts_are_unreachable(rest);
        assert forall|i: int| 0 <= i < before.len() implies 0 <= #[trigger] before[i] < n by {
            assert(before.contains(before[i]));
        }
        let keep = (answers[n].reports is None);
        let at = if keep {
            before.push(n)
        } else {
            before
        };
        assert forall|k: int| #[trigger] at.contains(k) <==> 0 <= k < answers.len()
            && (answers[k].reports is None) by {
            assert(before.contains(k) <==> 0 <= k < n && (rest[k].reports is None));
            if keep {
                assert(at[before.len() as int] == n);
                if before.contains(k) {
                    assert(at[before.index_of(k)] == k);
                }
                if at.contains(k) && k != n {
                    assert(before[at.index_of(k)] == k);
                }
            }
        }
        assert forall|i: int| 0 <= i < at.len()
            implies #[trigger] batch_unreachable(answers)[i] == answers[at[i]].host@ by {
            if i < before.len() {
                assert(batch_unreachable(rest)[i] == rest[before[i]].host@);
            }
        }
        at
    }
}

/// The lines of a listing that hold more than white space are kept, trimmed and in order.
pub proof fn filled_lines_are_kept(answers: Seq<Seq<char>>) -> (at: Seq<int>)
    ensures
        forall|i: int, j: int|
            0 <= i < j < at.len() ==> #[trigger] at[i] < #[trigger] at[j],
        forall|k: int| #[trigger] at.contains(k) <==> 0 <= k < answers.len()
            && trim(answers[k]).len() > 0,
        filled_lines(answers).len() == at.len(),
        forall|i: int|
            0 <= i < at.len() ==> #[trigger] filled_lines(answers)[i] == trim(answers[at[i]]),
    decreases answers.len(),
{
    if answers.len() == 0 {
        Seq::empty()
    } else {
        let rest = answers.drop_last();
        let n = answers.len() - 1;
        let before = filled_lines_are_kept(rest);
        assert forall|i: int| 0 <= i < before.len() implies 0 <= #[trigger] before[i] < n by {
            assert(before.contains(before[i]));
        }
        let keep = trim(answers[n]).len() > 0;
        let at = if keep {
            before.push(n)
        } else {
            before
        };
        assert forall|k: int| #[trigger] at.contains(k) <==> 0 <= k < answers.len()
            && trim(answers[k]).len() > 0 by {
            assert(before.contains(k) <==> 0 <= k < n && trim(rest[k]).len() > 0);
            if keep {
                assert(at[before.len() as int] == n);
                if before.contains(k) {
                    assert(at[before.index_of(k)] == k);
                }
                if at.contains(k) && k != n {
                    assert(before[at.index_of(k)] == k);
                }
            }
        }
        assert forall|i: int| 0 <= i < at.len()
            implies #[trigger] filled_lines(answers)[i] == trim(answers[at[i]]) by {
            if i < before.len() {
                assert(filled_lines(rest)[i] == trim(rest[before[i]]));
            }
        }
        at
    }
}

/// The block that follows the n-th marker belongs to the n-th path, for directories.
pub proof fn listings_belong_to_their_paths(
    blocks: Seq<Seq<char>>,
    paths: Seq<Seq<char>>,
    n: nat,
)
    requires
        paths.no_duplicates(),
        n <= paths.len(),
    ensures
        forall|p: Seq<char>| #[trigger]
            expand_map(blocks, paths, n).dom().contains(p) <==> paths.take(n as int).contains(p),
        forall|i: int|
            0 <= i < n ==> expand_map(blocks, paths, n)[#[trigger] paths[i]] == expand_block(
                blocks[i + 1],
            ),
    decreases n,
{
    if n > 0 {
        listings_belong_to_their_paths(blocks, paths, (n - 1) as nat);
        taken_paths(paths, n);
        assert forall|i: int| 0 <= i < n implies expand_map(blocks, paths, n)[#[trigger] paths[i]]
            == expand_block(blocks[i + 1]) by {
            if i < n - 1 {
                assert(paths[i] != paths[n - 1]);
            }
        }
    }
}

/// The block that follows the n-th marker belongs to the n-th path, for files.
pub proof fn reports_belong_to_their_paths(
    blocks: Seq<Seq<char>>,
    paths: Seq<Seq<char>>,
    host: Seq<char>,
    n: nat,
)
    requires
        paths.no_duplicates(),
        n <= paths.len(),
    ensures
        forall|p: Seq<char>| #[trigger]
            file_map(blocks, paths, host, n).dom().contains(p) <==> paths.take(n as int).contains(
                p,
            ),
        forall|i: int|
            0 <= i < n ==> file_map(blocks, paths, host, n)[#[trigger] paths[i]] == file_block(
                blocks[i + 1],
                paths[i],
                host,
            ),
    decreases n,
{
    if n > 0 {
        reports_belong_to_their_paths(blocks, paths, host, (n - 1) as nat);
        taken_paths(paths, n);
        assert forall|i: int| 0 <= i < n implies file_map(blocks, paths, host, n)[
            #[trigger] paths[i]
        ] == file_block(blocks[i + 1], paths[i], host) by {
            if i < n - 1 {
                assert(paths[i] != paths[n - 1]);
            }
        }
    }
}

proof fn taken_paths(paths: Seq<Seq<char>>, n: nat)
    requires
        0 < n <= paths.len(),
    ensures
        forall|p: Seq<char>| #[trigger]
            paths.take(n as int).contains(p) <==> paths.take(n - 1).contains(p)
                || p == paths[n - 1],
{
    let less = paths.take(n - 1);
    let all = paths.take(n as int);
    assert forall|p: Seq<char>| #[trigger] all.contains(p) <==> less.contains(p) || p == paths[n
        - 1] by {
        assert(all[n - 1] == paths[n - 1]);
        if less.contains(p) {
            assert(all[less.index_of(p)] == p);
        }
        if all.contains(p) && p != paths[n - 1] {
            assert(less[all.index_of(p)] == p);
        }
    }
}

/// Where nothing could be asked, every path is taken for missing.
pub proof fn unasked_paths_are_missing(paths: Seq<Seq<char>>, n: nat)
    requires
        n <= paths.len(),
    ensures
        forall|i: int|
            0 <= i < n ==> all_missing(paths, n).dom().contains(#[trigger] paths[i]) && all_missing(
                paths,
                n,
            )[paths[i]] == ExpandView::Missing,
    decreases n,
{
    if n > 0 {
        unasked_paths_are_missing(paths, (n - 1) as nat);
    }
}

/// Texts, each followed by a line feed.
pub open spec fn one_per_line(list: Seq<Seq<char>>) -> Seq<char>
    decreases list.len(),
{
    if list.len() == 0 {
        Seq::empty()
    } else {
        list[0] + seq!['\n'] + one_per_line(list.skip(1))
    }
}

/// Whether a text can stand on a line of its own: no line feed, and no white space at
/// either end.
pub open spec fn fits_a_line(s: Seq<char>) -> bool {
    &&& s.len() > 0
    &&& !s.contains('\n')
    &&& !crate::scan::is_white(s[0])
    &&& !crate::scan::is_white(s.last())
}

proof fn lined_texts_are_read_back(list: Seq<Seq<char>>)
    requires
        forall|i: int| 0 <= i < list.len() ==> fits_a_line(#[trigger] list[i]),
    ensures
        lines(one_per_line(list)) == list,
    decreases list.len(),
{
    if list.len() > 0 {
        let rest = list.skip(1);
        assert forall|i: int| 0 <= i < rest.len() implies fits_a_line(#[trigger] rest[i]) by {
            assert(rest[i] == list[i + 1]);
        }
        lined_texts_are_read_back(rest);
        assert(fits_a_line(list[0]));
        crate::scan::a_line_comes_first(list[0], one_per_line(rest));
        assert(seq![list[0]] + rest =~= list);
    } else {
        assert(lines(one_per_line(list)) =~= list);
    }
}

proof fn filled_lines_stay(list: Seq<Seq<char>>)
    requires
        forall|i: int| 0 <= i < list.len() ==> fits_a_line(#[trigger] list[i]),
    ensures
        filled_lines(list) == list,
    decreases list.len(),
{
    if list.len() > 0 {
        let rest = list.drop_last();
        assert forall|i: int| 0 <= i < rest.len() implies fits_a_line(#[trigger] rest[i]) by {
            assert(rest[i] == list[i]);
        }
        filled_lines_stay(rest);
        assert(fits_a_line(list[list.len() - 1]));
        crate::scan::trimmed_texts_stay(list.last());
        assert(rest.push(list.last()) =~= list);
    } else {
        assert(filled_lines(list) =~= list);
    }
}

/// A directory that a host lists is read back with exactly the files it listed, and a file
/// and a missing path as what they are.
pub proof fn listings_are_read_back(head: Seq<char>, files: Seq<Seq<char>>)
    requires
        !head.contains('\n'),
        head.len() > 0 ==> head.last() != '\r',
        forall|i: int| 0 <= i < files.len() ==> fits_a_line(#[trigger] files[i]),
    ensures
        expand_block(head + seq!['\n'] + ("DIR"@ + seq!['\n'] + one_per_line(files)))
            == ExpandView::Directory(files),
        expand_block(head + seq!['\n'] + ("FILE"@ + seq!['\n'])) == ExpandView::File,
        expand_block(head + seq!['\n'] + ("MISSING"@ + seq!['\n'])) == ExpandView::Missing,
{
    reveal_strlit("DIR");
    reveal_strlit("FILE");
    reveal_strlit("MISSING");
    let none = Seq::<char>::empty();
    lined_texts_are_read_back(files);
    filled_lines_stay(files);
    crate::scan::a_line_comes_first("DIR"@, one_per_line(files));
    crate::scan::a_line_comes_first("FILE"@, none);
    crate::scan::a_line_comes_first("MISSING"@, none);
    crate::scan::trimmed_texts_stay("DIR"@);
    crate::scan::trimmed_texts_stay("FILE"@);
    crate::scan::trimmed_texts_stay("MISSING"@);
    let d = "DIR"@ + seq!['\n'] + one_per_line(files);
    let f = "FILE"@ + seq!['\n'];
    let m = "MISSING"@ + seq!['\n'];
    assert(f + none =~= f);
    assert(m + none =~= m);
    assert(lines(none) =~= Seq::empty());
    crate::scan::a_line_comes_first(head, d);
    crate::scan::a_line_comes_first(head, f);
    crate::scan::a_line_comes_first(head, m);
    let ls = lines(head + seq!['\n'] + d);
    assert(ls[1] == "DIR"@);
    assert(ls.skip(2) =~= files);
    assert(lines(head + seq!['\n'] + f)[1] == "FILE"@);
    assert(lines(head + seq!['\n'] + m)[1] == "MISSING"@);
    assert("FILE"@.len() == 4 && "DIR"@.len() == 3 && "MISSING"@.len() == 7);
}

/// A number in decimal as a word of its own.
proof fn decimals_are_words(n: int)
    ensures
        signed_decimal(n).len() > 0,
        forall|i: int|
            0 <= i < signed_decimal(n).len() ==> !crate::scan::is_white(
                #[trigger] signed_decimal(n)[i],
            ),
        !signed_decimal(n).contains('\n'),
        n >= 0 ==> signed_decimal(n) == decimal(n as nat),
{
    let d = signed_decimal(n);
    let m = if n < 0 {
        (-n) as nat
    } else {
        n as nat
    };
    crate::text::decimals_are_read_back(m);
    assert forall|i: int| 0 <= i < d.len() implies !crate::scan::is_white(#[trigger] d[i]) && d[i]
        != '\n' by {
        if n < 0 {
            if i > 0 {
                assert(d[i] == decimal(m)[i - 1]);
                assert(crate::text::is_digit(decimal(m)[i - 1]));
            }
        } else {
            assert(crate::text::is_digit(decimal(m)[i]));
        }
    }
}

proof fn stat_lines_are_read_back(mtime: int, size: nat)
    requires
        i64::MIN <= mtime <= i64::MAX,
        size <= u64::MAX,
    ensures
        ({
            let line = signed_decimal(mtime) + seq![' '] + decimal(size);
            &&& fits_a_line(line)
            &&& stat_mtime(line) == Some(mtime)
            &&& stat_size(line) == size
            &&& line != "MISSING"@
        }),
{
    reveal_strlit("MISSING");
    let a = signed_decimal(mtime);
    let b = decimal(size);
    decimals_are_words(mtime);
    decimals_are_words(size as int);
    crate::text::signed_decimals_are_read_back(mtime);
    crate::text::decimals_are_read_back(size);
    let line = a + seq![' '] + b;
    let tail = seq![' '] + b;
    assert(line =~= a + tail);
    crate::scan::a_word_comes_first(a, tail);
    crate::scan::leading_white_space_adds_no_word(' ', b);
    crate::scan::words_are_runs(b);
    assert(words(line) =~= seq![a, b]);
    assert(line[0] == a[0]);
    assert(line.last() == b[b.len() - 1]);
    assert(!line.contains('\n')) by {
        if line.contains('\n') {
            let i = line.index_of('\n');
            if i < a.len() {
                assert(a.contains(line[i]));
            } else if i > a.len() {
                assert(b[i - a.len() - 1] == line[i]);
                assert(b.contains(line[i]));
            }
        }
    }
    assert(line[a.len() as int] == ' ');
    assert("MISSING"@.len() == 7);
    if line == "MISSING"@ {
        let k = a.len() as int;
        assert("MISSING"@[k] == ' ');
        assert(0 <= k < 7);
        assert(k == 0 || k == 1 || k == 2 || k == 3 || k == 4 || k == 5 || k == 6);
    }
}

/// What a host reports about a file is read back as it was printed: the time, the size and
/// the hash, with whatever follows the hash on its line left out.
pub proof fn reports_are_read_back(
    head: Seq<char>,
    mtime: int,
    size: nat,
    hash: Seq<char>,
    tail: Seq<char>,
    path: Seq<char>,
    host: Seq<char>,
)
    requires
        !head.contains('\n'),
        head.len() > 0 ==> head.last() != '\r',
        i64::MIN <= mtime <= i64::MAX,
        size <= u64::MAX,
        hash.len() > 0,
        forall|i: int| 0 <= i < hash.len() ==> !crate::scan::is_white(#[trigger] hash[i]),
        tail.len() > 0 ==> crate::scan::is_white(tail[0]) && !crate::scan::is_white(tail.last()),
        !tail.contains('\n'),
        hash + tail != "NOHASH"@,
    ensures
        ({
            let stat = signed_decimal(mtime) + seq![' '] + decimal(size);
            let text = stat + seq!['\n'] + (hash + tail + seq!['\n']);
            let file = FileView { host, path, mtime, size, hash };
            &&& file_block(head + seq!['\n'] + text, path, host) == SingleView {
                found: Some(file),
                is_missing: false,
            }
            &&& file_output(text, path, host) == Some(file)
        }),
{
    let stat = signed_decimal(mtime) + seq![' '] + decimal(size);
    let third = hash + tail;
    let none = Seq::<char>::empty();
    let text = stat + seq!['\n'] + (third + seq!['\n']);
    stat_lines_are_read_back(mtime, size);
    crate::scan::trimmed_texts_stay(stat);
    assert(third[0] == hash[0]);
    assert(third.last() == (if tail.len() > 0 {
        tail.last()
    } else {
        hash[hash.len() - 1]
    }));
    crate::scan::trimmed_texts_stay(third);
    assert(!third.contains('\n')) by {
        if third.contains('\n') {
            let i = third.index_of('\n');
            if i < hash.len() {
                assert(!crate::scan::is_white(hash[i]));
            } else {
                assert(tail[i - hash.len()] == '\n');
                assert(tail.contains('\n'));
            }
        }
    }
    crate::scan::a_word_comes_first(hash, tail);
    assert(words(third)[0] == hash);
    crate::scan::a_line_comes_first(third, none);
    assert(third + seq!['\n'] + none =~= third + seq!['\n']);
    assert(lines(none) =~= Seq::empty());
    assert(lines(third + seq!['\n']) =~= seq![third]);
    crate::scan::a_line_comes_first(stat, third + seq!['\n']);
    assert(lines(text) =~= seq![stat, third]);
    crate::scan::a_line_comes_first(head, text);
    assert(lines(head + seq!['\n'] + text) =~= seq![head, stat, third]);
}

/// A file that a host says it does not have is missing, and so is one it says nothing about.
pub proof fn missing_files_are_told(head: Seq<char>, path: Seq<char>, host: Seq<char>)
    requires
        !head.contains('\n'),
        head.len() > 0 ==> head.last() != '\r',
    ensures
        file_block(head, path, host) == (SingleView { found: None, is_missing: true }),
        file_block(head + seq!['\n'] + ("MISSING"@ + seq!['\n']), path, host) == (SingleView {
            found: None,
            is_missing: true,
        }),
{
    reveal_strlit("MISSING");
    let none = Seq::<char>::empty();
    let m = "MISSING"@ + seq!['\n'];
    assert(m + none =~= m);
    crate::scan::a_line_comes_first("MISSING"@, none);
    crate::scan::trimmed_texts_stay("MISSING"@);
    crate::scan::a_line_comes_first(head, m);
    assert(lines(head + seq!['\n'] + m)[1] == "MISSING"@);
    crate::scan::find_char_facts(head, '\n', 0);
    if head.len() > 0 {
        let k = crate::scan::find_char(head, '\n', 0);
        if k < head.len() {
            assert(head.contains(head[k]));
        }
    }
    assert(lines(head).len() < 2);
}

/// A host is asked about every path, in the form that its shell reads.
pub proof fn questions_name_every_path(
    paths: Seq<Seq<char>>,
    recursive: bool,
    shell: ShellType,
    i: int,
) -> (around: ((Seq<char>, Seq<char>), (Seq<char>, Seq<char>)))
    requires
        0 <= i < paths.len(),
    ensures
        ({
            let word = if shell == ShellType::PowerShell {
                "\""@ + ps_path(paths[i]) + "\""@
            } else {
                sh_path(paths[i])
            };
            &&& batch_metadata_cmd(paths, shell) == around.0.0 + word + around.0.1
            &&& dir_expand_cmd(paths, recursive, shell) == around.1.0 + word + around.1.1
        }),
{
    let quoted = shell_paths(paths, shell);
    let sep = if shell == ShellType::PowerShell {
        ","@
    } else {
        " "@
    };
    let (a, b) = crate::scan::joined_texts_hold_their_parts(quoted, sep, i);
    let word = shell_path(paths[i], shell);
    assert(quoted[i] == word);
    let (h1, t1) = if shell == ShellType::PowerShell {
        (PS_BATCH_HEAD@, PS_BATCH_TAIL@)
    } else {
        (SH_BATCH_HEAD@, SH_BATCH_TAIL@)
    };
    let (h2, t2) = if shell == ShellType::PowerShell {
        (
            PS_EXPAND_HEAD@,
            PS_EXPAND_LIST@ + (if recursive {
                " -Recurse"@
            } else {
                ""@
            }) + PS_EXPAND_TAIL@,
        )
    } else {
        (
            SH_EXPAND_HEAD@,
            SH_EXPAND_LIST@ + (if recursive {
                ""@
            } else {
                " -maxdepth 1"@
            }) + SH_EXPAND_TAIL@,
        )
    };
    assert(batch_metadata_cmd(paths, shell) =~= (h1 + a) + word + (b + t1));
    assert(dir_expand_cmd(paths, recursive, shell) =~= (h2 + a) + word + (b + t2));
    ((h1 + a, b + t1), (h2 + a, b + t2))
}

/// An answer to a batch tells of each path what follows its marker, in the order of the
/// paths; a path without a block has no report.
pub proof fn batches_are_read_in_order(
    output: Seq<char>,
    paths: Seq<Seq<char>>,
    host: Seq<char>,
    i: int,
)
    requires
        paths.no_duplicates(),
        0 <= i < paths.len(),
    ensures
        ({
            let blocks = split_at_marker(output, "---FILE:"@);
            &&& i + 1 < blocks.len() ==> batch_output(output, paths, host).dom().contains(paths[i])
                && batch_output(output, paths, host)[paths[i]] == file_block(
                blocks[i + 1],
                paths[i],
                host,
            )
            &&& i + 1 >= blocks.len() && blocks.len() > 0 ==> !batch_output(
                output,
                paths,
                host,
            ).dom().contains(paths[i])
        }),
        ({
            let blocks = split_at_marker(output, "---PATH:"@);
            &&& i + 1 < blocks.len() ==> expand_output(output, paths).dom().contains(paths[i])
                && expand_output(output, paths)[paths[i]] == expand_block(blocks[i + 1])
            &&& i + 1 >= blocks.len() && blocks.len() > 0 ==> !expand_output(
                output,
                paths,
            ).dom().contains(paths[i])
        }),
{
    let files = split_at_marker(output, "---FILE:"@);
    let dirs = split_at_marker(output, "---PATH:"@);
    let n = smaller((files.len() - 1) as nat, paths.len());
    let m = smaller((dirs.len() - 1) as nat, paths.len());
    if files.len() > 0 {
        reports_belong_to_their_paths(files, paths, host, n);
        first_paths(paths, n, i);
    }
    if dirs.len() > 0 {
        listings_belong_to_their_paths(dirs, paths, m);
        first_paths(paths, m, i);
    }
}

proof fn first_paths(paths: Seq<Seq<char>>, n: nat, i: int)
    requires
        paths.no_duplicates(),
        n <= paths.len(),
        0 <= i < paths.len(),
    ensures
        paths.take(n as int).contains(paths[i]) <==> i < n,
{
    let t = paths.take(n as int);
    if i < n {
        assert(t[i] == paths[i]);
    }
    if t.contains(paths[i]) {
        let k = t.index_of(paths[i]);
        assert(paths[k] == paths[i]);
    }
}

} // verus!
