//! Counting what happened in a run, and the text that sums it up.

use vstd::prelude::*;

use crate::order::{
    by_row, by_text, insert_row, insert_sorted, push_all_new, row_listed, rows, rows_push, same_row,
    sorted_set, unique,
};
use crate::scan::{join, join_all};
use crate::text::{
    concat2, copy, copy_all, copy_strs, decimal, strs, text_opt, texts, texts_push, usize_text,
};

verus! {

broadcast use {texts_push, rows_push};

/// Why a file was left out of a sync.
#[derive(Debug)]
pub struct SkipReason {
    pub path: String,
    pub host: String,
    pub reason: String,
}

/// One error, with the file it concerns if there is one.
#[derive(Debug)]
pub struct ErrorEntry {
    pub host: String,
    pub message: String,
    pub path: Option<String>,
}

/// The contents of a skip reason: path, host and reason.
pub ghost struct SkipView {
    pub path: Seq<char>,
    pub host: Seq<char>,
    pub reason: Seq<char>,
}

/// The contents of an error.
pub ghost struct ErrorView {
    pub host: Seq<char>,
    pub message: Seq<char>,
    pub path: Option<Seq<char>>,
}

impl View for SkipReason {
    type V = SkipView;

    open spec fn view(&self) -> SkipView {
        SkipView { path: self.path@, host: self.host@, reason: self.reason@ }
    }
}

impl View for ErrorEntry {
    type V = ErrorView;

    open spec fn view(&self) -> ErrorView {
        ErrorView { host: self.host@, message: self.message@, path: text_opt(self.path) }
    }
}

/// The contents of each error of a list.
pub open spec fn error_views(list: Seq<ErrorEntry>) -> Seq<ErrorView> {
    Seq::new(list.len(), |i: int| list[i]@)
}

/// The contents of each skip reason of a list.
pub open spec fn skip_views(list: Seq<SkipReason>) -> Seq<SkipView> {
    Seq::new(list.len(), |i: int| list[i]@)
}

// ---------------------------------------------------------------------------
// The text of the error section
// ---------------------------------------------------------------------------

/// Host and message of an error.
pub open spec fn error_key(e: ErrorView) -> Seq<Seq<char>> {
    seq![e.host, e.message]
}

/// Host and message of every error without a file, in the order they came.
pub open spec fn pathless_keys(errors: Seq<ErrorView>) -> Seq<Seq<Seq<char>>>
    decreases errors.len(),
{
    if errors.len() == 0 {
        Seq::empty()
    } else {
        let rest = pathless_keys(errors.drop_last());
        if errors.last().path is None {
            rest.push(error_key(errors.last()))
        } else {
            rest
        }
    }
}

/// Host and message of every error with a file, in the order they came.
pub open spec fn path_keys(errors: Seq<ErrorView>) -> Seq<Seq<Seq<char>>>
    decreases errors.len(),
{
    if errors.len() == 0 {
        Seq::empty()
    } else {
        let rest = path_keys(errors.drop_last());
        if errors.last().path is Some {
            rest.push(error_key(errors.last()))
        } else {
            rest
        }
    }
}

/// The files that a host and a message concern, in the order they came.
pub open spec fn files_of(errors: Seq<ErrorView>, key: Seq<Seq<char>>) -> Seq<Seq<char>>
    decreases errors.len(),
{
    if errors.len() == 0 {
        Seq::empty()
    } else {
        let rest = files_of(errors.drop_last(), key);
        if error_key(errors.last()) == key {
            match errors.last().path {
                Some(p) => rest.push(p),
                None => rest,
            }
        } else {
            rest
        }
    }
}

/// The files that a host and a message concern, sorted, each once.
pub open spec fn file_set(errors: Seq<ErrorView>, key: Seq<Seq<char>>) -> Seq<Seq<char>> {
    sorted_set(files_of(errors, key), by_text())
}

/// The file set of each key.
pub open spec fn file_sets(errors: Seq<ErrorView>, keys: Seq<Seq<Seq<char>>>) -> Seq<
    Seq<Seq<char>>,
> {
    Seq::new(keys.len(), |i: int| file_set(errors, keys[i]))
}

/// `host: message` behind an indent.
pub open spec fn key_line(indent: Seq<char>, key: Seq<Seq<char>>) -> Seq<char> {
    indent + key[0] + ": "@ + key[1]
}

/// One line for each key.
pub open spec fn key_lines(indent: Seq<char>, keys: Seq<Seq<Seq<char>>>) -> Seq<Seq<char>> {
    Seq::new(keys.len(), |i: int| key_line(indent, keys[i]))
}

/// The keys whose file set is the given one.
pub open spec fn keys_with(
    errors: Seq<ErrorView>,
    keys: Seq<Seq<Seq<char>>>,
    files: Seq<Seq<char>>,
) -> Seq<Seq<Seq<char>>>
    decreases keys.len(),
{
    if keys.len() == 0 {
        Seq::empty()
    } else {
        let rest = keys_with(errors, keys.drop_last(), files);
        if file_set(errors, keys.last()) == files {
            rest.push(keys.last())
        } else {
            rest
        }
    }
}

/// The lines of the clusters: for each file set its files in brackets, then the
/// hosts and messages that concern exactly those files.
pub open spec fn cluster_lines(
    errors: Seq<ErrorView>,
    keys: Seq<Seq<Seq<char>>>,
    clusters: Seq<Seq<Seq<char>>>,
) -> Seq<Seq<char>>
    decreases clusters.len(),
{
    if clusters.len() == 0 {
        Seq::empty()
    } else {
        cluster_lines(errors, keys, clusters.drop_last()).push(
            "    ["@ + join(clusters.last(), ", "@) + "]"@,
        ) + key_lines("      "@, keys_with(errors, keys, clusters.last()))
    }
}

/// The error section: nothing without errors; else a heading, the errors that
/// concern no file, each once, and the others clustered by the files they
/// concern.
pub open spec fn error_section(errors: Seq<ErrorView>) -> Seq<Seq<char>> {
    if errors.len() == 0 {
        Seq::empty()
    } else {
        let keys = sorted_set(path_keys(errors), by_row());
        let clusters = sorted_set(file_sets(errors, keys), by_row());
        seq!["  Errors:"@] + key_lines("    "@, unique(pathless_keys(errors))) + cluster_lines(
            errors,
            keys,
            clusters,
        )
    }
}

/// The skip section: nothing without skips; else a heading and one line each.
pub open spec fn skip_section(skips: Seq<SkipView>) -> Seq<Seq<char>> {
    if skips.len() == 0 {
        Seq::empty()
    } else {
        seq!["  Skipped:"@] + Seq::new(
            skips.len(),
            |i: int| "    "@ + skips[i].path + " ("@ + skips[i].host + "): "@ + skips[i].reason,
        )
    }
}

fn key_of(e: &ErrorEntry) -> (r: Vec<String>)
    ensures
        texts(r@) == error_key(e@),
{
    let mut row: Vec<String> = Vec::new();
    row.push(copy(e.host.as_str()));
    row.push(copy(e.message.as_str()));
    assert(texts(row@) =~= error_key(e@));
    row
}

fn key_text(indent: &str, key: &[String]) -> (r: String)
    requires
        key@.len() == 2,
    ensures
        r@ == key_line(indent@, texts(key@)),
{
    let mut out = copy(indent);
    out.append(key[0].as_str());
    out.append(": ");
    out.append(key[1].as_str());
    out
}

fn file_set_of(errors: &[ErrorEntry], key: &[String]) -> (r: Vec<String>)
    ensures
        texts(r@) == file_set(error_views(errors@), texts(key@)),
{
    let ghost all = error_views(errors@);
    let mut out: Vec<String> = Vec::new();
    let mut i: usize = 0;
    while i < errors.len()
        invariant
            i <= errors.len(),
            all == error_views(errors@),
            texts(out@) == file_set(all.take(i as int), texts(key@)),
        decreases errors.len() - i,
    {
        let e = &errors[i];
        let k = key_of(e);
        proof {
            assert(all.take(i + 1).drop_last() =~= all.take(i as int));
            assert(all.take(i + 1).last() == e@);
        }
        if same_row(k.as_slice(), key) {
            match &e.path {
                Some(p) => {
                    insert_sorted(&mut out, p.as_str());
                    let ghost f = files_of(all.take(i as int), texts(key@));
                    assert(f.push(p@).drop_last() =~= f);
                },
                None => {},
            }
        }
        i += 1;
    }
    assert(all.take(i as int) =~= all);
    out
}

proof fn key_rows_are_pairs(errors: Seq<ErrorView>)
    ensures
        forall|i: int| 0 <= i < path_keys(errors).len() ==> #[trigger] path_keys(errors)[i].len()
            == 2,
        forall|i: int|
            0 <= i < pathless_keys(errors).len() ==> #[trigger] pathless_keys(errors)[i].len() == 2,
    decreases errors.len(),
{
    if errors.len() > 0 {
        let rest = errors.drop_last();
        key_rows_are_pairs(rest);
        assert forall|i: int| 0 <= i < path_keys(errors).len() implies #[trigger] path_keys(
            errors,
        )[i].len() == 2 by {
            if i < path_keys(rest).len() {
                assert(path_keys(rest)[i].len() == 2);
            }
        }
        assert forall|i: int| 0 <= i < pathless_keys(errors).len() implies #[trigger] pathless_keys(
            errors,
        )[i].len() == 2 by {
            if i < pathless_keys(rest).len() {
                assert(pathless_keys(rest)[i].len() == 2);
            }
        }
    }
}

proof fn sorted_pairs(list: Seq<Seq<Seq<char>>>)
    requires
        forall|i: int| 0 <= i < list.len() ==> #[trigger] list[i].len() == 2,
    ensures
        forall|i: int|
            0 <= i < sorted_set(list, by_row()).len() ==> #[trigger] sorted_set(
                list,
                by_row(),
            )[i].len() == 2,
{
    crate::order::by_row_is_strict();
    crate::order::sorted_set_facts(list, by_row());
    let s = sorted_set(list, by_row());
    assert forall|i: int| 0 <= i < s.len() implies #[trigger] s[i].len() == 2 by {
        assert(s.contains(s[i]));
    }
}

proof fn unique_pairs(list: Seq<Seq<Seq<char>>>)
    requires
        forall|i: int| 0 <= i < list.len() ==> #[trigger] list[i].len() == 2,
    ensures
        forall|i: int| 0 <= i < unique(list).len() ==> #[trigger] unique(list)[i].len() == 2,
{
    crate::order::with_all_new_facts(Seq::empty(), list);
    let s = unique(list);
    assert forall|i: int| 0 <= i < s.len() implies #[trigger] s[i].len() == 2 by {
        assert(s.contains(s[i]));
    }
}

fn pathless_keys_of(errors: &[ErrorEntry]) -> (r: Vec<Vec<String>>)
    ensures
        rows(r@) == unique(pathless_keys(error_views(errors@))),
{
    let ghost all = error_views(errors@);
    let mut out: Vec<Vec<String>> = Vec::new();
    let mut i: usize = 0;
    assert(rows(out@) =~= unique(pathless_keys(all.take(0))));
    while i < errors.len()
        invariant
            i <= errors.len(),
            all == error_views(errors@),
            rows(out@) == unique(pathless_keys(all.take(i as int))),
        decreases errors.len() - i,
    {
        let e = &errors[i];
        proof {
            assert(all.take(i + 1).drop_last() =~= all.take(i as int));
            assert(all.take(i + 1).last() == e@);
        }
        if e.path.is_none() {
            let k = key_of(e);
            let ghost f = pathless_keys(all.take(i as int));
            assert(f.push(error_key(e@)).drop_last() =~= f);
            if !row_listed(out.as_slice(), k.as_slice()) {
                out.push(k);
            }
        }
        i += 1;
    }
    assert(all.take(i as int) =~= all);
    out
}

fn path_keys_of(errors: &[ErrorEntry]) -> (r: Vec<Vec<String>>)
    ensures
        rows(r@) == sorted_set(path_keys(error_views(errors@)), by_row()),
{
    let ghost all = error_views(errors@);
    let mut out: Vec<Vec<String>> = Vec::new();
    let mut i: usize = 0;
    assert(rows(out@) =~= sorted_set(path_keys(all.take(0)), by_row()));
    while i < errors.len()
        invariant
            i <= errors.len(),
            all == error_views(errors@),
            rows(out@) == sorted_set(path_keys(all.take(i as int)), by_row()),
        decreases errors.len() - i,
    {
        let e = &errors[i];
        proof {
            assert(all.take(i + 1).drop_last() =~= all.take(i as int));
            assert(all.take(i + 1).last() == e@);
        }
        if e.path.is_some() {
            let k = key_of(e);
            let ghost f = path_keys(all.take(i as int));
            assert(f.push(error_key(e@)).drop_last() =~= f);
            insert_row(&mut out, k);
        }
        i += 1;
    }
    assert(all.take(i as int) =~= all);
    out
}

fn clusters_of(errors: &[ErrorEntry], keys: &[Vec<String>]) -> (r: Vec<Vec<String>>)
    ensures
        rows(r@) == sorted_set(file_sets(error_views(errors@), rows(keys@)), by_row()),
{
    let ghost all = file_sets(error_views(errors@), rows(keys@));
    let mut out: Vec<Vec<String>> = Vec::new();
    let mut i: usize = 0;
    assert(rows(out@) =~= sorted_set(all.take(0), by_row()));
    while i < keys.len()
        invariant
            i <= keys.len(),
            all == file_sets(error_views(errors@), rows(keys@)),
            rows(out@) == sorted_set(all.take(i as int), by_row()),
        decreases keys.len() - i,
    {
        let files = file_set_of(errors, keys[i].as_slice());
        assert(all.take(i + 1).drop_last() =~= all.take(i as int));
        assert(all.take(i + 1).last() == texts(files@));
        insert_row(&mut out, files);
        i += 1;
    }
    assert(all.take(i as int) =~= all);
    out
}

fn push_key_lines(out: &mut Vec<String>, indent: &str, keys: &[Vec<String>])
    requires
        forall|i: int| 0 <= i < keys@.len() ==> (#[trigger] keys@[i])@.len() == 2,
    ensures
        texts(final(out)@) == texts(old(out)@) + key_lines(indent@, rows(keys@)),
{
    let ghost before = texts(out@);
    let ghost all = key_lines(indent@, rows(keys@));
    let mut i: usize = 0;
    assert(before + all.take(0) =~= before);
    while i < keys.len()
        invariant
            i <= keys.len(),
            all == key_lines(indent@, rows(keys@)),
            forall|i: int| 0 <= i < keys@.len() ==> (#[trigger] keys@[i])@.len() == 2,
            texts(out@) == before + all.take(i as int),
        decreases keys.len() - i,
    {
        out.push(key_text(indent, keys[i].as_slice()));
        assert(before + all.take(i + 1) =~= (before + all.take(i as int)).push(all[i as int]));
        i += 1;
    }
    assert(all.take(i as int) =~= all);
}

fn push_cluster(
    out: &mut Vec<String>,
    errors: &[ErrorEntry],
    keys: &[Vec<String>],
    files: &[String],
)
    requires
        forall|i: int| 0 <= i < keys@.len() ==> (#[trigger] keys@[i])@.len() == 2,
    ensures
        texts(final(out)@) == texts(old(out)@).push("    ["@ + join(texts(files@), ", "@) + "]"@)
            + key_lines("      "@, keys_with(error_views(errors@), rows(keys@), texts(files@))),
{
    let ghost all = error_views(errors@);
    let mut head = copy("    [");
    head.append(join_all(files, ", ").as_str());
    head.append("]");
    out.push(head);
    let ghost before = texts(out@);
    let mut i: usize = 0;
    assert(rows(keys@).take(0) =~= Seq::empty());
    assert(key_lines("      "@, keys_with(all, rows(keys@).take(0), texts(files@)))
        =~= Seq::empty());
    assert(before + Seq::<Seq<char>>::empty() =~= before);
    while i < keys.len()
        invariant
            i <= keys.len(),
            all == error_views(errors@),
            forall|i: int| 0 <= i < keys@.len() ==> (#[trigger] keys@[i])@.len() == 2,
            texts(out@) == before + key_lines(
                "      "@,
                keys_with(all, rows(keys@).take(i as int), texts(files@)),
            ),
        decreases keys.len() - i,
    {
        let mine = file_set_of(errors, keys[i].as_slice());
        let ghost k0 = keys_with(all, rows(keys@).take(i as int), texts(files@));
        let ghost k1 = keys_with(all, rows(keys@).take(i + 1), texts(files@));
        assert(rows(keys@).take(i + 1).drop_last() =~= rows(keys@).take(i as int));
        if same_row(mine.as_slice(), files) {
            out.push(key_text("      ", keys[i].as_slice()));
            assert(key_lines("      "@, k1) =~= key_lines("      "@, k0).push(
                key_line("      "@, rows(keys@)[i as int]),
            ));
            assert(before + key_lines("      "@, k1) =~= (before + key_lines("      "@, k0)).push(
                key_line("      "@, rows(keys@)[i as int]),
            ));
        }
        i += 1;
    }
    assert(rows(keys@).take(i as int) =~= rows(keys@));
}

/// The error section of a summary.
pub fn error_lines(errors: &[ErrorEntry]) -> (r: Vec<String>)
    ensures
        texts(r@) == error_section(error_views(errors@)),
{
    let ghost all = error_views(errors@);
    let mut out: Vec<String> = Vec::new();
    if errors.len() == 0 {
        assert(texts(out@) =~= Seq::empty());
        return out;
    }
    out.push(copy("  Errors:"));
    let pathless = pathless_keys_of(errors);
    let keys = path_keys_of(errors);
    proof {
        key_rows_are_pairs(all);
        sorted_pairs(path_keys(all));
        unique_pairs(pathless_keys(all));
        assert forall|i: int| 0 <= i < keys@.len() implies (#[trigger] keys@[i])@.len() == 2 by {
            assert(rows(keys@)[i].len() == 2);
        }
        assert forall|i: int| 0 <= i < pathless@.len() implies (#[trigger] pathless@[i])@.len()
            == 2 by {
            assert(rows(pathless@)[i].len() == 2);
        }
    }
    push_key_lines(&mut out, "    ", pathless.as_slice());
    let clusters = clusters_of(errors, keys.as_slice());
    let ghost head = texts(out@);
    assert(head =~= seq!["  Errors:"@] + key_lines("    "@, unique(pathless_keys(all))));
    let mut i: usize = 0;
    assert(rows(clusters@).take(0) =~= Seq::empty());
    assert(head + Seq::<Seq<char>>::empty() =~= head);
    while i < clusters.len()
        invariant
            i <= clusters.len(),
            all == error_views(errors@),
            forall|i: int| 0 <= i < keys@.len() ==> (#[trigger] keys@[i])@.len() == 2,
            texts(out@) == head + cluster_lines(
                all,
                rows(keys@),
                rows(clusters@).take(i as int),
            ),
        decreases clusters.len() - i,
    {
        let ghost before = cluster_lines(all, rows(keys@), rows(clusters@).take(i as int));
        push_cluster(&mut out, errors, keys.as_slice(), clusters[i].as_slice());
        proof {
            let t = rows(clusters@).take(i + 1);
            assert(t.drop_last() =~= rows(clusters@).take(i as int));
            assert(t.last() == rows(clusters@)[i as int]);
            assert(texts(out@) =~= head + cluster_lines(all, rows(keys@), t));
        }
        i += 1;
    }
    assert(rows(clusters@).take(i as int) =~= rows(clusters@));
    out
}

/// The skip section of a summary.
pub fn skip_lines(skips: &[SkipReason]) -> (r: Vec<String>)
    ensures
        texts(r@) == skip_section(skip_views(skips@)),
{
    let mut out: Vec<String> = Vec::new();
    if skips.len() == 0 {
        assert(texts(out@) =~= Seq::empty());
        return out;
    }
    out.push(copy("  Skipped:"));
    let ghost all = skip_section(skip_views(skips@));
    let mut i: usize = 0;
    assert(texts(out@) =~= all.take(1));
    while i < skips.len()
        invariant
            i <= skips.len(),
            skips.len() > 0,
            all == skip_section(skip_views(skips@)),
            texts(out@) == all.take(i + 1),
        decreases skips.len() - i,
    {
        let s = &skips[i];
        let mut line = copy("    ");
        line.append(s.path.as_str());
        line.append(" (");
        line.append(s.host.as_str());
        line.append("): ");
        line.append(s.reason.as_str());
        out.push(line);
        assert(all[i + 1] == line@);
        assert(all.take(i + 2) =~= all.take(i + 1).push(line@));
        i += 1;
    }
    assert(all.take(i + 1) =~= all);
    out
}

// ---------------------------------------------------------------------------
// Summary
// ---------------------------------------------------------------------------

/// Outcome counts of a batch operation.
pub struct Summary {
    pub succeeded: usize,
    pub failed: usize,
    pub skipped: usize,
    pub errors: Vec<ErrorEntry>,
    pub skip_reasons: Vec<SkipReason>,
}

impl Default for Summary {
    fn default() -> (r: Self)
        ensures
            r.succeeded == 0,
            r.failed == 0,
            r.skipped == 0,
            r.errors@.len() == 0,
            r.skip_reasons@.len() == 0,
    {
        Summary {
            succeeded: 0,
            failed: 0,
            skipped: 0,
            errors: Vec::new(),
            skip_reasons: Vec::new(),
        }
    }
}

/// The line with the counts.
pub open spec fn counts_line(succeeded: nat, failed: nat, skipped: nat) -> Seq<char> {
    let s = "  "@ + decimal(succeeded) + " succeeded"@;
    let f = if failed > 0 {
        s + "  "@ + decimal(failed) + " failed"@
    } else {
        s
    };
    if skipped > 0 {
        f + "  "@ + decimal(skipped) + " skipped"@
    } else {
        f
    }
}

impl Summary {
    /// Each failure has left one error, and each skip reason stands for a skip.
    pub open spec fn wf(&self) -> bool {
        &&& self.failed == self.errors@.len()
        &&& self.skip_reasons@.len() <= self.skipped
    }

    /// Counts a host on which the operation succeeded.
    pub fn add_success(&mut self)
        requires
            old(self).succeeded < usize::MAX,
        ensures
            *final(self) == (Summary { succeeded: (old(self).succeeded + 1) as usize, ..*old(self) }),
    {
        self.succeeded += 1;
    }

    /// Counts a failure and keeps its message.
    pub fn add_failure(&mut self, host: &str, message: &str)
        requires
            old(self).failed < usize::MAX,
        ensures
            final(self).failed == old(self).failed + 1,
            error_views(final(self).errors@) == error_views(old(self).errors@).push(
                ErrorView { host: host@, message: message@, path: None },
            ),
            final(self).succeeded == old(self).succeeded,
            final(self).skipped == old(self).skipped,
            final(self).skip_reasons == old(self).skip_reasons,
            old(self).wf() ==> final(self).wf(),
    {
        self.failed += 1;
        self.errors.push(ErrorEntry { host: copy(host), message: copy(message), path: None });
        assert(error_views(self.errors@) =~= error_views(old(self).errors@).push(
            ErrorView { host: host@, message: message@, path: None },
        ));
    }

    /// Counts a failure that concerns one file, and keeps its message.
    pub fn add_failure_with_path(&mut self, host: &str, message: &str, path: &str)
        requires
            old(self).failed < usize::MAX,
        ensures
            final(self).failed == old(self).failed + 1,
            error_views(final(self).errors@) == error_views(old(self).errors@).push(
                ErrorView { host: host@, message: message@, path: Some(path@) },
            ),
            final(self).succeeded == old(self).succeeded,
            final(self).skipped == old(self).skipped,
            final(self).skip_reasons == old(self).skip_reasons,
            old(self).wf() ==> final(self).wf(),
    {
        self.failed += 1;
        self.errors.push(
            ErrorEntry { host: copy(host), message: copy(message), path: Some(copy(path)) },
        );
        assert(error_views(self.errors@) =~= error_views(old(self).errors@).push(
            ErrorView { host: host@, message: message@, path: Some(path@) },
        ));
    }

    /// Counts a host that was left out.
    pub fn add_skip(&mut self)
        requires
            old(self).skipped < usize::MAX,
        ensures
            *final(self) == (Summary { skipped: (old(self).skipped + 1) as usize, ..*old(self) }),
    {
        self.skipped += 1;
    }

    /// Counts a skip and keeps why.
    pub fn add_skip_with_reason(&mut self, path: &str, host: &str, reason: &str)
        requires
            old(self).skipped < usize::MAX,
        ensures
            final(self).skipped == old(self).skipped + 1,
            skip_views(final(self).skip_reasons@) == skip_views(old(self).skip_reasons@).push(
                SkipView { path: path@, host: host@, reason: reason@ },
            ),
            final(self).succeeded == old(self).succeeded,
            final(self).failed == old(self).failed,
            final(self).errors == old(self).errors,
            old(self).wf() ==> final(self).wf(),
    {
        self.skipped += 1;
        self.skip_reasons.push(
            SkipReason { path: copy(path), host: copy(host), reason: copy(reason) },
        );
        assert(skip_views(self.skip_reasons@) =~= skip_views(old(self).skip_reasons@).push(
            SkipView { path: path@, host: host@, reason: reason@ },
        ));
    }

    /// The lines that sum up the operation.
    pub open spec fn shown(&self) -> Seq<Seq<char>> {
        seq![""@, "── Summary ──────────────────────────────"@].push(
            counts_line(self.succeeded as nat, self.failed as nat, self.skipped as nat),
        ) + error_section(error_views(self.errors@)) + skip_section(skip_views(self.skip_reasons@))
    }

    /// The lines that sum up the operation.
    pub fn lines(&self) -> (r: Vec<String>)
        ensures
            texts(r@) == self.shown(),
    {
        let mut counts = copy("  ");
        counts.append(usize_text(self.succeeded).as_str());
        counts.append(" succeeded");
        if self.failed > 0 {
            counts.append("  ");
            counts.append(usize_text(self.failed).as_str());
            counts.append(" failed");
        }
        if self.skipped > 0 {
            counts.append("  ");
            counts.append(usize_text(self.skipped).as_str());
            counts.append(" skipped");
        }
        let mut out: Vec<String> = Vec::new();
        out.push(copy(""));
        out.push(copy("── Summary ──────────────────────────────"));
        out.push(counts);
        let ghost head = texts(out@);
        assert(head =~= seq![""@, "── Summary ──────────────────────────────"@].push(
            counts_line(self.succeeded as nat, self.failed as nat, self.skipped as nat),
        ));
        push_lines(&mut out, error_lines(self.errors.as_slice()));
        push_lines(&mut out, skip_lines(self.skip_reasons.as_slice()));
        out
    }
}

/// Appends lines.
pub fn push_lines(out: &mut Vec<String>, more: Vec<String>)
    ensures
        texts(final(out)@) == texts(old(out)@) + texts(more@),
{
    let mut rest = more;
    out.append(&mut rest);
    assert(texts(out@) =~= texts(old(out)@) + texts(more@));
}

// ---------------------------------------------------------------------------
// Sync summary
// ---------------------------------------------------------------------------

/// Outcome counts of a sync, by file and by transfer.
pub struct SyncSummary {
    pub files_synced: usize,
    pub files_partial: usize,
    pub files_failed: usize,
    pub files_skipped: usize,
    pub transfers_passed: usize,
    pub transfers_synced: usize,
    pub transfers_failed: usize,
    pub transfers_passed_hosts: Vec<String>,
    pub transfers_synced_hosts: Vec<String>,
    pub transfers_failed_hosts: Vec<String>,
    pub errors: Vec<ErrorEntry>,
    pub skip_reasons: Vec<SkipReason>,
}

impl Default for SyncSummary {
    fn default() -> (r: Self)
        ensures
            r.wf(),
            r.files_synced == 0,
            r.files_partial == 0,
            r.files_failed == 0,
            r.files_skipped == 0,
            r.transfers_passed == 0,
            r.transfers_synced == 0,
            r.transfers_failed == 0,
    {
        SyncSummary {
            files_synced: 0,
            files_partial: 0,
            files_failed: 0,
            files_skipped: 0,
            transfers_passed: 0,
            transfers_synced: 0,
            transfers_failed: 0,
            transfers_passed_hosts: Vec::new(),
            transfers_synced_hosts: Vec::new(),
            transfers_failed_hosts: Vec::new(),
            errors: Vec::new(),
            skip_reasons: Vec::new(),
        }
    }
}

/// The hosts of failed transfers.
pub open spec fn failed_hosts(failed: Seq<(String, String)>) -> Seq<Seq<char>> {
    Seq::new(failed.len(), |i: int| failed[i].0@)
}

/// The errors of failed transfers of one file.
pub open spec fn failed_errors(failed: Seq<(String, String)>, path: Seq<char>) -> Seq<ErrorView> {
    Seq::new(
        failed.len(),
        |i: int| ErrorView { host: failed[i].0@, message: failed[i].1@, path: Some(path) },
    )
}

/// The parts of a line of counts that are not zero.
pub open spec fn part(n: nat, text: Seq<char>) -> Seq<Seq<char>> {
    if n > 0 {
        seq![text]
    } else {
        Seq::empty()
    }
}

/// A heading and parts two spaces apart, if there are parts.
pub open spec fn parts_line(heading: Seq<char>, parts: Seq<Seq<char>>) -> Seq<Seq<char>> {
    if parts.len() == 0 {
        Seq::empty()
    } else {
        seq![heading + join(parts, "  "@)]
    }
}

impl SyncSummary {
    /// Each transfer counter is the number of hosts on its list; each failed
    /// transfer has left one error and each skipped file one reason.
    pub open spec fn wf(&self) -> bool {
        &&& self.transfers_passed == self.transfers_passed_hosts@.len()
        &&& self.transfers_synced == self.transfers_synced_hosts@.len()
        &&& self.transfers_failed == self.transfers_failed_hosts@.len()
        &&& self.transfers_failed == self.errors@.len()
        &&& self.files_skipped == self.skip_reasons@.len()
    }

    /// Joins host names with a comma, each at its first occurrence only.
    pub fn format_hosts(hosts: &[String]) -> (r: String)
        ensures
            r@ == join(unique(texts(hosts@)), ", "@),
    {
        let mut order: Vec<String> = Vec::new();
        assert(texts(order@) =~= Seq::empty());
        push_all_new(&mut order, hosts);
        join_all(order.as_slice(), ", ")
    }

    /// Records the outcome of one file: hosts that had it already, hosts that
    /// received it, and hosts on which the transfer failed, with the messages.
    pub fn complete_file(
        &mut self,
        path: &str,
        passed: &[String],
        synced: &[String],
        failed: &[(String, String)],
    )
        requires
            old(self).wf(),
            old(self).files_synced < usize::MAX,
            old(self).files_partial < usize::MAX,
            old(self).files_failed < usize::MAX,
            old(self).transfers_passed + passed@.len() <= usize::MAX,
            old(self).transfers_synced + synced@.len() <= usize::MAX,
            old(self).transfers_failed + failed@.len() <= usize::MAX,
        ensures
            final(self).wf(),
            final(self).transfers_passed == old(self).transfers_passed + passed@.len(),
            final(self).transfers_synced == old(self).transfers_synced + synced@.len(),
            final(self).transfers_failed == old(self).transfers_failed + failed@.len(),
            texts(final(self).transfers_passed_hosts@) == texts(old(self).transfers_passed_hosts@)
                + texts(passed@),
            texts(final(self).transfers_synced_hosts@) == texts(old(self).transfers_synced_hosts@)
                + texts(synced@),
            texts(final(self).transfers_failed_hosts@) == texts(old(self).transfers_failed_hosts@)
                + failed_hosts(failed@),
            error_views(final(self).errors@) == error_views(old(self).errors@) + failed_errors(
                failed@,
                path@,
            ),
            final(self).files_synced == old(self).files_synced + (if failed@.len() == 0 {
                1int
            } else {
                0
            }),
            final(self).files_partial == old(self).files_partial + (if failed@.len() > 0 && (
            synced@.len() > 0 || passed@.len() > 0) {
                1int
            } else {
                0
            }),
            final(self).files_failed == old(self).files_failed + (if failed@.len() > 0
                && synced@.len() == 0 && passed@.len() == 0 {
                1int
            } else {
                0
            }),
            final(self).files_skipped == old(self).files_skipped,
            final(self).skip_reasons == old(self).skip_reasons,
    {
        self.transfers_passed += passed.len();
        self.transfers_synced += synced.len();
        self.transfers_failed += failed.len();
        push_lines(&mut self.transfers_passed_hosts, copy_all(passed));
        push_lines(&mut self.transfers_synced_hosts, copy_all(synced));
        assert(texts(self.transfers_passed_hosts@).len() == self.transfers_passed_hosts@.len());
        assert(texts(self.transfers_synced_hosts@).len() == self.transfers_synced_hosts@.len());
        assert(texts(passed@).len() == passed@.len());
        assert(texts(synced@).len() == synced@.len());

        let ghost hosts0 = texts(self.transfers_failed_hosts@);
        let ghost errors0 = error_views(self.errors@);
        let ghost mid = *self;
        let mut i: usize = 0;
        assert(hosts0 + failed_hosts(failed@).take(0) =~= hosts0);
        assert(errors0 + failed_errors(failed@, path@).take(0) =~= errors0);
        while i < failed.len()
            invariant
                i <= failed.len(),
                self.transfers_failed_hosts@.len() == hosts0.len() + i,
                self.errors@.len() == errors0.len() + i,
                texts(self.transfers_failed_hosts@) == hosts0 + failed_hosts(failed@).take(
                    i as int,
                ),
                error_views(self.errors@) == errors0 + failed_errors(failed@, path@).take(i as int),
                *self == (SyncSummary {
                    transfers_failed_hosts: self.transfers_failed_hosts,
                    errors: self.errors,
                    ..mid
                }),
            decreases failed.len() - i,
        {
            let ghost h0 = texts(self.transfers_failed_hosts@);
            let ghost e0 = error_views(self.errors@);
            self.transfers_failed_hosts.push(copy(failed[i].0.as_str()));
            self.errors.push(
                ErrorEntry {
                    host: copy(failed[i].0.as_str()),
                    message: copy(failed[i].1.as_str()),
                    path: Some(copy(path)),
                },
            );
            assert(error_views(self.errors@) =~= e0.push(failed_errors(failed@, path@)[i as int]));
            assert(e0.push(failed_errors(failed@, path@)[i as int]) =~= errors0 + failed_errors(
                failed@,
                path@,
            ).take(i + 1));
            assert(h0.push(failed[i as int].0@) =~= hosts0 + failed_hosts(failed@).take(i + 1));
            i += 1;
        }
        assert(failed_hosts(failed@).take(i as int) =~= failed_hosts(failed@));
        assert(failed_errors(failed@, path@).take(i as int) =~= failed_errors(failed@, path@));

        if failed.len() == 0 {
            self.files_synced += 1;
        } else if synced.len() > 0 || passed.len() > 0 {
            self.files_partial += 1;
        } else {
            self.files_failed += 1;
        }
    }

    /// Records a file that every host already has.
    pub fn file_in_sync(&mut self, passed_hosts: &[&str])
        requires
            old(self).wf(),
            old(self).files_synced < usize::MAX,
            old(self).transfers_passed + passed_hosts@.len() <= usize::MAX,
        ensures
            final(self).wf(),
            final(self).transfers_passed == old(self).transfers_passed + passed_hosts@.len(),
            texts(final(self).transfers_passed_hosts@) == texts(old(self).transfers_passed_hosts@)
                + strs(passed_hosts@),
            *final(self) == (SyncSummary {
                transfers_passed: final(self).transfers_passed,
                transfers_passed_hosts: final(self).transfers_passed_hosts,
                files_synced: (old(self).files_synced + 1) as usize,
                ..*old(self)
            }),
    {
        self.transfers_passed += passed_hosts.len();
        push_lines(&mut self.transfers_passed_hosts, copy_strs(passed_hosts));
        assert(texts(self.transfers_passed_hosts@).len() == self.transfers_passed_hosts@.len());
        assert(strs(passed_hosts@).len() == passed_hosts@.len());
        self.files_synced += 1;
    }

    /// Records a host that could not be used at all.
    pub fn add_host_failure(&mut self, host: &str, message: &str)
        requires
            old(self).wf(),
            old(self).transfers_failed < usize::MAX,
        ensures
            final(self).wf(),
            final(self).transfers_failed == old(self).transfers_failed + 1,
            texts(final(self).transfers_failed_hosts@) == texts(
                old(self).transfers_failed_hosts@,
            ).push(host@),
            error_views(final(self).errors@) == error_views(old(self).errors@).push(
                ErrorView { host: host@, message: message@, path: None },
            ),
            *final(self) == (SyncSummary {
                transfers_failed: final(self).transfers_failed,
                transfers_failed_hosts: final(self).transfers_failed_hosts,
                errors: final(self).errors,
                ..*old(self)
            }),
    {
        self.transfers_failed += 1;
        self.transfers_failed_hosts.push(copy(host));
        self.errors.push(ErrorEntry { host: copy(host), message: copy(message), path: None });
        assert(error_views(self.errors@) =~= error_views(old(self).errors@).push(
            ErrorView { host: host@, message: message@, path: None },
        ));
    }

    /// Records a file that was left out, and why.
    pub fn add_skip_with_reason(&mut self, path: &str, host: &str, reason: &str)
        requires
            old(self).wf(),
            old(self).files_skipped < usize::MAX,
        ensures
            final(self).wf(),
            final(self).files_skipped == old(self).files_skipped + 1,
            skip_views(final(self).skip_reasons@) == skip_views(old(self).skip_reasons@).push(
                SkipView { path: path@, host: host@, reason: reason@ },
            ),
            *final(self) == (SyncSummary {
                files_skipped: final(self).files_skipped,
                skip_reasons: final(self).skip_reasons,
                ..*old(self)
            }),
    {
        self.files_skipped += 1;
        self.skip_reasons.push(
            SkipReason { path: copy(path), host: copy(host), reason: copy(reason) },
        );
        assert(skip_views(self.skip_reasons@) =~= skip_views(old(self).skip_reasons@).push(
            SkipView { path: path@, host: host@, reason: reason@ },
        ));
    }

    /// The file counters that are not zero.
    pub open spec fn file_parts(&self) -> Seq<Seq<char>> {
        part(self.files_synced as nat, decimal(self.files_synced as nat) + " synced"@) + part(
            self.files_partial as nat,
            decimal(self.files_partial as nat) + " partial"@,
        ) + part(self.files_failed as nat, decimal(self.files_failed as nat) + " failed"@) + part(
            self.files_skipped as nat,
            decimal(self.files_skipped as nat) + " skipped"@,
        )
    }

    /// The transfer counters that are not zero, with the hosts of each.
    pub open spec fn transfer_parts(&self) -> Seq<Seq<char>> {
        part(
            self.transfers_passed as nat,
            decimal(self.transfers_passed as nat) + " passed("@ + join(
                unique(texts(self.transfers_passed_hosts@)),
                ", "@,
            ) + ")"@,
        ) + part(
            self.transfers_synced as nat,
            decimal(self.transfers_synced as nat) + " synced("@ + join(
                unique(texts(self.transfers_synced_hosts@)),
                ", "@,
            ) + ")"@,
        ) + part(
            self.transfers_failed as nat,
            decimal(self.transfers_failed as nat) + " failed("@ + join(
                unique(texts(self.transfers_failed_hosts@)),
                ", "@,
            ) + ")"@,
        )
    }

    /// The lines that sum up the sync.
    pub open spec fn shown(&self) -> Seq<Seq<char>> {
        seq![""@, "── Summary ──────────────────────────────"@] + parts_line(
            "  Files:      "@,
            self.file_parts(),
        ) + parts_line("  Transfers:  "@, self.transfer_parts()) + error_section(
            error_views(self.errors@),
        ) + skip_section(skip_views(self.skip_reasons@))
    }

    /// The lines that sum up the sync.
    pub fn lines(&self) -> (r: Vec<String>)
        ensures
            texts(r@) == self.shown(),
    {
        let mut files: Vec<String> = Vec::new();
        push_count(&mut files, self.files_synced, " synced");
        push_count(&mut files, self.files_partial, " partial");
        push_count(&mut files, self.files_failed, " failed");
        push_count(&mut files, self.files_skipped, " skipped");
        assert(texts(files@) =~= self.file_parts());
        let mut transfers: Vec<String> = Vec::new();
        push_hosts(
            &mut transfers,
            self.transfers_passed,
            " passed(",
            self.transfers_passed_hosts.as_slice(),
        );
        push_hosts(
            &mut transfers,
            self.transfers_synced,
            " synced(",
            self.transfers_synced_hosts.as_slice(),
        );
        push_hosts(
            &mut transfers,
            self.transfers_failed,
            " failed(",
            self.transfers_failed_hosts.as_slice(),
        );
        assert(texts(transfers@) =~= self.transfer_parts());
        let mut out: Vec<String> = Vec::new();
        out.push(copy(""));
        out.push(copy("── Summary ──────────────────────────────"));
        assert(texts(out@) =~= seq![""@, "── Summary ──────────────────────────────"@]);
        push_parts(&mut out, "  Files:      ", files.as_slice());
        push_parts(&mut out, "  Transfers:  ", transfers.as_slice());
        push_lines(&mut out, error_lines(self.errors.as_slice()));
        push_lines(&mut out, skip_lines(self.skip_reasons.as_slice()));
        out
    }
}

fn push_count(out: &mut Vec<String>, n: usize, word: &str)
    ensures
        texts(final(out)@) == texts(old(out)@) + part(n as nat, decimal(n as nat) + word@),
{
    if n > 0 {
        out.push(concat2(usize_text(n).as_str(), word));
    }
    assert(texts(out@) =~= texts(old(out)@) + part(n as nat, decimal(n as nat) + word@));
}

fn push_hosts(out: &mut Vec<String>, n: usize, word: &str, hosts: &[String])
    ensures
        texts(final(out)@) == texts(old(out)@) + part(
            n as nat,
            decimal(n as nat) + word@ + join(unique(texts(hosts@)), ", "@) + ")"@,
        ),
{
    if n > 0 {
        let mut line = usize_text(n);
        line.append(word);
        line.append(SyncSummary::format_hosts(hosts).as_str());
        line.append(")");
        out.push(line);
    }
    assert(texts(out@) =~= texts(old(out)@) + part(
        n as nat,
        decimal(n as nat) + word@ + join(unique(texts(hosts@)), ", "@) + ")"@,
    ));
}

fn push_parts(out: &mut Vec<String>, heading: &str, parts: &[String])
    ensures
        texts(final(out)@) == texts(old(out)@) + parts_line(heading@, texts(parts@)),
{
    if parts.len() > 0 {
        out.push(concat2(heading, join_all(parts, "  ").as_str()));
    }
    assert(texts(out@) =~= texts(old(out)@) + parts_line(heading@, texts(parts@)));
}

// ---------------------------------------------------------------------------
// Laws
// ---------------------------------------------------------------------------

/// However the errors came in, the clusters of the error section are the same:
/// the keys that concern files are sorted and none occurs twice, and the same
/// holds of each key's files and of the clusters themselves.
pub proof fn error_clusters_are_sorted(errors: Seq<ErrorView>, key: Seq<Seq<char>>)
    ensures
        crate::order::ascending(sorted_set(path_keys(errors), by_row()), by_row()),
        crate::order::ascending(file_set(errors, key), by_text()),
        crate::order::ascending(
            sorted_set(file_sets(errors, sorted_set(path_keys(errors), by_row())), by_row()),
            by_row(),
        ),
{
    crate::order::by_row_is_strict();
    crate::order::by_text_is_strict();
    crate::order::sorted_set_facts(path_keys(errors), by_row());
    crate::order::sorted_set_facts(files_of(errors, key), by_text());
    crate::order::sorted_set_facts(
        file_sets(errors, sorted_set(path_keys(errors), by_row())),
        by_row(),
    );
}

/// The files of an error are those that it was told of, in order.
pub proof fn files_are_told_with_their_error(
    errors: Seq<ErrorView>,
    key: Seq<Seq<char>>,
) -> (at: Seq<int>)
    ensures
        forall|i: int, j: int|
            0 <= i < j < at.len() ==> #[trigger] at[i] < #[trigger] at[j],
        forall|k: int| #[trigger] at.contains(k) <==> 0 <= k < errors.len()
            && (error_key(errors[k]) == key && errors[k].path is Some),
        files_of(errors, key).len() == at.len(),
        forall|i: int|
            0 <= i < at.len() ==> #[trigger] files_of(errors, key)[i] == errors[at[i]].path->0,
    decreases errors.len(),
{
    if errors.len() == 0 {
        Seq::empty()
    } else {
        let rest = errors.drop_last();
        let n = errors.len() - 1;
        let before = files_are_told_with_their_error(rest, key);
        assert forall|i: int| 0 <= i < before.len() implies 0 <= #[trigger] before[i] < n by {
            assert(before.contains(before[i]));
        }
        let keep = (error_key(errors[n]) == key && errors[n].path is Some);
        let at = if keep {
            before.push(n)
        } else {
            before
        };
        assert forall|k: int| #[trigger] at.contains(k) <==> 0 <= k < errors.len()
            && (error_key(errors[k]) == key && errors[k].path is Some) by {
            assert(before.contains(k) <==> 0 <= k < n
                && (error_key(rest[k]) == key && rest[k].path is Some));
            if keep {
                assert(at[before.len() as int] == n);
                if before.contains(k) {
                    assert(at[before.index_of(k)] == k);
                }
                if at.contains(k) && k != n {
                    assert(before[at.index_of(k)] == k);
                }
            }
        }
        assert forall|i: int| 0 <= i < at.len()
            implies #[trigger] files_of(errors, key)[i] == errors[at[i]].path->0 by {
            if i < before.len() {
                assert(files_of(rest, key)[i] == rest[before[i]].path->0);
            }
        }
        at
    }
}

/// The errors that concern no file, in order.
pub proof fn errors_without_a_file(errors: Seq<ErrorView>) -> (at: Seq<int>)
    ensures
        forall|i: int, j: int|
            0 <= i < j < at.len() ==> #[trigger] at[i] < #[trigger] at[j],
        forall|k: int| #[trigger] at.contains(k) <==> 0 <= k < errors.len()
            && (errors[k].path is None),
        pathless_keys(errors).len() == at.len(),
        forall|i: int|
            0 <= i < at.len() ==> #[trigger] pathless_keys(errors)[i]
                == seq![errors[at[i]].host, errors[at[i]].message],
    decreases errors.len(),
{
    if errors.len() == 0 {
        Seq::empty()
    } else {
        let rest = errors.drop_last();
        let n = errors.len() - 1;
        let before = errors_without_a_file(rest);
        assert forall|i: int| 0 <= i < before.len() implies 0 <= #[trigger] before[i] < n by {
            assert(before.contains(before[i]));
        }
        let keep = (errors[n].path is None);
        let at = if keep {
            before.push(n)
        } else {
            before
        };
        assert forall|k: int| #[trigger] at.contains(k) <==> 0 <= k < errors.len()
            && (errors[k].path is None) by {
            assert(before.contains(k) <==> 0 <= k < n && (rest[k].path is None));
            if keep {
                assert(at[before.len() as int] == n);
                if before.contains(k) {
                    assert(at[before.index_of(k)] == k);
                }
                if at.contains(k) && k != n {
                    assert(before[at.index_of(k)] == k);
                }
            }
        }
        assert forall|i: int| 0 <= i < at.len()
            implies #[trigger] pathless_keys(errors)[i]
            == seq![errors[at[i]].host, errors[at[i]].message] by {
            if i < before.len() {
                assert(pathless_keys(rest)[i]
                    == seq![rest[before[i]].host, rest[before[i]].message]);
            }
        }
        at
    }
}

/// The errors that concern a file, in order.
pub proof fn errors_with_a_file(errors: Seq<ErrorView>) -> (at: Seq<int>)
    ensures
        forall|i: int, j: int|
            0 <= i < j < at.len() ==> #[trigger] at[i] < #[trigger] at[j],
        forall|k: int| #[trigger] at.contains(k) <==> 0 <= k < errors.len()
            && (errors[k].path is Some),
        path_keys(errors).len() == at.len(),
        forall|i: int|
            0 <= i < at.len() ==> #[trigger] path_keys(errors)[i]
                == seq![errors[at[i]].host, errors[at[i]].message],
    decreases errors.len(),
{
    if errors.len() == 0 {
        Seq::empty()
    } else {
        let rest = errors.drop_last();
        let n = errors.len() - 1;
        let before = errors_with_a_file(rest);
        assert forall|i: int| 0 <= i < before.len() implies 0 <= #[trigger] before[i] < n by {
            assert(before.contains(before[i]));
        }
        let keep = (errors[n].path is Some);
        let at = if keep {
            before.push(n)
        } else {
            before
        };
        assert forall|k: int| #[trigger] at.contains(k) <==> 0 <= k < errors.len()
            && (errors[k].path is Some) by {
            assert(before.contains(k) <==> 0 <= k < n && (rest[k].path is Some));
            if keep {
                assert(at[before.len() as int] == n);
                if before.contains(k) {
                    assert(at[before.index_of(k)] == k);
                }
                if at.contains(k) && k != n {
                    assert(before[at.index_of(k)] == k);
                }
            }
        }
        assert forall|i: int| 0 <= i < at.len()
            implies #[trigger] path_keys(errors)[i]
            == seq![errors[at[i]].host, errors[at[i]].message] by {
            if i < before.len() {
                assert(path_keys(rest)[i] == seq![rest[before[i]].host, rest[before[i]].message]);
            }
        }
        at
    }
}

/// Every error that concerns no file has its line under the heading.
pub proof fn every_plain_error_is_shown(errors: Seq<ErrorView>, i: int)
    requires
        0 <= i < errors.len(),
        errors[i].path is None,
    ensures
        error_section(errors).contains("    "@ + errors[i].host + ": "@ + errors[i].message),
{
    let at = errors_without_a_file(errors);
    let keys = pathless_keys(errors);
    let key = seq![errors[i].host, errors[i].message];
    assert(at.contains(i));
    let j = at.index_of(i);
    assert(keys[j] == key);
    assert(keys.contains(key));
    crate::order::with_all_new_facts(Seq::empty(), keys);
    let list = unique(keys);
    assert(list.contains(key));
    let n = list.index_of(key);
    let lines = key_lines("    "@, list);
    let line = "    "@ + errors[i].host + ": "@ + errors[i].message;
    assert(lines[n] == line);
    let section = error_section(errors);
    assert(section[n + 1] == line);
}

proof fn clusters_show_their_files(
    errors: Seq<ErrorView>,
    keys: Seq<Seq<Seq<char>>>,
    clusters: Seq<Seq<Seq<char>>>,
    c: int,
    k: int,
)
    requires
        0 <= c < clusters.len(),
        0 <= k < keys.len(),
        file_set(errors, keys[k]) == clusters[c],
    ensures
        cluster_lines(errors, keys, clusters).contains("    ["@ + join(clusters[c], ", "@) + "]"@),
        cluster_lines(errors, keys, clusters).contains("      "@ + keys[k][0] + ": "@ + keys[k][1]),
    decreases clusters.len(),
{
    let rest = clusters.drop_last();
    let head = "    ["@ + join(clusters[c], ", "@) + "]"@;
    let line = "      "@ + keys[k][0] + ": "@ + keys[k][1];
    let before = cluster_lines(errors, keys, rest);
    let all = cluster_lines(errors, keys, clusters);
    let list = keys_with(errors, keys, clusters.last());
    let last = "    ["@ + join(clusters.last(), ", "@) + "]"@;
    assert(all == before.push(last) + key_lines("      "@, list));
    if c < rest.len() {
        assert(rest[c] == clusters[c]);
        clusters_show_their_files(errors, keys, rest, c, k);
        assert(all[before.index_of(head)] == head);
        assert(all[before.index_of(line)] == line);
    } else {
        let at = clusters_hold_their_errors(errors, keys, clusters[c]);
        assert(at.contains(k));
        let i = at.index_of(k);
        assert(list[i] == keys[k]);
        assert(key_lines("      "@, list)[i] == line);
        assert(all[before.len() as int] == head);
        assert(all[before.len() + 1 + i] == line);
    }
}

/// A cluster holds the errors with exactly its files, in order.
pub proof fn clusters_hold_their_errors(
    errors: Seq<ErrorView>,
    keys: Seq<Seq<Seq<char>>>,
    files: Seq<Seq<char>>,
) -> (at: Seq<int>)
    ensures
        forall|i: int, j: int|
            0 <= i < j < at.len() ==> #[trigger] at[i] < #[trigger] at[j],
        forall|k: int| #[trigger] at.contains(k) <==> 0 <= k < keys.len()
            && file_set(errors, keys[k]) == files,
        keys_with(errors, keys, files).len() == at.len(),
        forall|i: int|
            0 <= i < at.len() ==> #[trigger] keys_with(errors, keys, files)[i] == keys[at[i]],
    decreases keys.len(),
{
    if keys.len() == 0 {
        Seq::empty()
    } else {
        let rest = keys.drop_last();
        let n = keys.len() - 1;
        let before = clusters_hold_their_errors(errors, rest, files);
        assert forall|i: int| 0 <= i < before.len() implies 0 <= #[trigger] before[i] < n by {
            assert(before.contains(before[i]));
        }
        let keep = file_set(errors, keys[n]) == files;
        let at = if keep {
            before.push(n)
        } else {
            before
        };
        assert forall|k: int| #[trigger] at.contains(k) <==> 0 <= k < keys.len()
            && file_set(errors, keys[k]) == files by {
            assert(before.contains(k) <==> 0 <= k < n && file_set(errors, rest[k]) == files);
            if keep {
                assert(at[before.len() as int] == n);
                if before.contains(k) {
                    assert(at[before.index_of(k)] == k);
                }
                if at.contains(k) && k != n {
                    assert(before[at.index_of(k)] == k);
                }
            }
        }
        assert forall|i: int| 0 <= i < at.len()
            implies #[trigger] keys_with(errors, keys, files)[i] == keys[at[i]] by {
            if i < before.len() {
                assert(keys_with(errors, rest, files)[i] == rest[before[i]]);
            }
        }
        at
    }
}

/// Every error that concerns a file has its line below a line that names the file.
pub proof fn every_file_error_is_shown(errors: Seq<ErrorView>, i: int) -> (files: Seq<Seq<char>>)
    requires
        0 <= i < errors.len(),
        errors[i].path is Some,
    ensures
        files.contains(errors[i].path->0),
        forall|f: Seq<char>| #[trigger]
            files.contains(f) <==> exists|j: int|
                0 <= j < errors.len() && (#[trigger] errors[j]).path == Some(f) && errors[j].host
                    == errors[i].host && errors[j].message == errors[i].message,
        crate::order::ascending(files, by_text()),
        error_section(errors).contains("    ["@ + join(files, ", "@) + "]"@),
        error_section(errors).contains("      "@ + errors[i].host + ": "@ + errors[i].message),
{
    let key = seq![errors[i].host, errors[i].message];
    let files = file_set(errors, key);
    crate::order::by_text_is_strict();
    crate::order::by_row_is_strict();
    crate::order::sorted_set_facts(files_of(errors, key), by_text());
    let told = files_are_told_with_their_error(errors, key);
    assert forall|f: Seq<char>| #[trigger] files.contains(f) <==> exists|j: int|
        0 <= j < errors.len() && (#[trigger] errors[j]).path == Some(f) && errors[j].host
            == errors[i].host && errors[j].message == errors[i].message by {
        let list = files_of(errors, key);
        if list.contains(f) {
            let n = list.index_of(f);
            assert(told.contains(told[n]));
            let j = told[n];
            assert(list[n] == errors[j].path->0);
            assert(error_key(errors[j])[0] == key[0]);
            assert(error_key(errors[j])[1] == key[1]);
            assert(errors[j].path == Some(f));
        }
        if exists|j: int|
            0 <= j < errors.len() && (#[trigger] errors[j]).path == Some(f) && errors[j].host
                == errors[i].host && errors[j].message == errors[i].message {
            let j = choose|j: int|
                0 <= j < errors.len() && (#[trigger] errors[j]).path == Some(f) && errors[j].host
                    == errors[i].host && errors[j].message == errors[i].message;
            assert(error_key(errors[j]) =~= key);
            assert(told.contains(j));
            assert(list[told.index_of(j)] == f);
        }
    }
    assert(errors[i].path == Some(errors[i].path->0));
    let all = path_keys(errors);
    let at = errors_with_a_file(errors);
    assert(at.contains(i));
    assert(all[at.index_of(i)] == key);
    assert(all.contains(key));
    crate::order::sorted_set_facts(all, by_row());
    let keys = sorted_set(all, by_row());
    let k = keys.index_of(key);
    assert(keys.contains(key));
    let sets = file_sets(errors, keys);
    assert(sets[k] == files);
    assert(sets.contains(files));
    crate::order::sorted_set_facts(sets, by_row());
    let clusters = sorted_set(sets, by_row());
    assert(clusters.contains(files));
    let c = clusters.index_of(files);
    clusters_show_their_files(errors, keys, clusters, c, k);
    let tail = cluster_lines(errors, keys, clusters);
    let front = seq!["  Errors:"@] + key_lines("    "@, unique(pathless_keys(errors)));
    let section = error_section(errors);
    assert(section == front + tail);
    let head = "    ["@ + join(files, ", "@) + "]"@;
    let line = "      "@ + errors[i].host + ": "@ + errors[i].message;
    assert(section[front.len() + tail.index_of(head)] == head);
    assert(section[front.len() + tail.index_of(line)] == line);
    files
}

/// Every skip has its line under the heading.
pub proof fn every_skip_is_shown(skips: Seq<SkipView>, i: int)
    requires
        0 <= i < skips.len(),
    ensures
        skip_section(skips).contains(
            "    "@ + skips[i].path + " ("@ + skips[i].host + "): "@ + skips[i].reason,
        ),
{
    let line = "    "@ + skips[i].path + " ("@ + skips[i].host + "): "@ + skips[i].reason;
    assert(skip_section(skips)[i + 1] == line);
}

/// The first line of a summary tells how many succeeded, and how many failed or were
/// skipped where there are any.
pub proof fn the_counts_are_told(succeeded: nat, failed: nat, skipped: nat)
    ensures
        failed == 0 && skipped == 0 ==> counts_line(succeeded, failed, skipped) == "  "@ + decimal(
            succeeded,
        ) + " succeeded"@,
        failed > 0 && skipped == 0 ==> counts_line(succeeded, failed, skipped) == counts_line(
            succeeded,
            0,
            0,
        ) + "  "@ + decimal(failed) + " failed"@,
        skipped > 0 ==> counts_line(succeeded, failed, skipped) == counts_line(succeeded, failed, 0)
            + "  "@ + decimal(skipped) + " skipped"@,
{
}

/// A count of the files is told exactly where it is not zero.
pub proof fn file_counts_are_told(s: SyncSummary)
    ensures
        s.files_synced > 0 ==> s.file_parts().contains(decimal(s.files_synced as nat) + " synced"@),
        s.files_partial > 0 ==> s.file_parts().contains(
            decimal(s.files_partial as nat) + " partial"@,
        ),
        s.files_failed > 0 ==> s.file_parts().contains(decimal(s.files_failed as nat) + " failed"@),
        s.files_skipped > 0 ==> s.file_parts().contains(
            decimal(s.files_skipped as nat) + " skipped"@,
        ),
        s.file_parts().len() == (if s.files_synced > 0 {
            1int
        } else {
            0
        }) + (if s.files_partial > 0 {
            1int
        } else {
            0
        }) + (if s.files_failed > 0 {
            1int
        } else {
            0
        }) + (if s.files_skipped > 0 {
            1int
        } else {
            0
        }),
{
    let a = part(s.files_synced as nat, decimal(s.files_synced as nat) + " synced"@);
    let b = part(s.files_partial as nat, decimal(s.files_partial as nat) + " partial"@);
    let c = part(s.files_failed as nat, decimal(s.files_failed as nat) + " failed"@);
    let d = part(s.files_skipped as nat, decimal(s.files_skipped as nat) + " skipped"@);
    let all = s.file_parts();
    assert(all == a + b + c + d);
    if a.len() > 0 {
        assert(all[0] == a[0]);
    }
    if b.len() > 0 {
        assert(all[a.len() as int] == b[0]);
    }
    if c.len() > 0 {
        assert(all[(a.len() + b.len()) as int] == c[0]);
    }
    if d.len() > 0 {
        assert(all[(a.len() + b.len() + c.len()) as int] == d[0]);
    }
}

} // verus!
