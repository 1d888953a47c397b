//! Deciding, file by file, which host's copy goes to which other hosts.

use vstd::prelude::*;

use crate::config::schema::ConflictStrategy;
use crate::error::Error;
use crate::order::{push_all_new, with_all_new, with_all_new_facts};
use crate::text::{
    copy, copy_all, decimal, same, signed_decimal, signed_text, texts, texts_push, usize_text,
};

verus! {

broadcast use texts_push;

/// What a host reported about its copy of a file.
#[derive(Debug)]
pub struct FileInfo {
    pub host: String,
    pub path: String,
    pub mtime: i64,
    pub size: u64,
    /// Empty where the host has no tool to compute it.
    pub hash: String,
}

/// The contents of a report.
pub ghost struct FileView {
    pub host: Seq<char>,
    pub path: Seq<char>,
    pub mtime: int,
    pub size: nat,
    pub hash: Seq<char>,
}

impl View for FileInfo {
    type V = FileView;

    open spec fn view(&self) -> FileView {
        FileView {
            host: self.host@,
            path: self.path@,
            mtime: self.mtime as int,
            size: self.size as nat,
            hash: self.hash@,
        }
    }
}

impl FileInfo {
    /// A copy of the report.
    pub fn copy(&self) -> (r: FileInfo)
        ensures
            r == *self,
    {
        FileInfo {
            host: self.host.clone(),
            path: self.path.clone(),
            mtime: self.mtime,
            size: self.size,
            hash: self.hash.clone(),
        }
    }
}

/// The hosts that reported a copy, and those that answered without having one.
#[derive(Debug)]
pub struct CollectResult {
    pub found: Vec<FileInfo>,
    pub missing: Vec<String>,
}

/// From where to where a file is to be copied.
#[derive(Debug)]
pub struct SyncDecision {
    pub path: String,
    pub source_host: String,
    pub target_hosts: Vec<String>,
    /// Hosts that already have what the source has.
    pub synced_hosts: Vec<String>,
    pub reason: String,
}

/// The contents of a decision.
pub ghost struct DecisionView {
    pub path: Seq<char>,
    pub source_host: Seq<char>,
    pub target_hosts: Seq<Seq<char>>,
    pub synced_hosts: Seq<Seq<char>>,
    pub reason: Seq<char>,
}

impl View for SyncDecision {
    type V = DecisionView;

    open spec fn view(&self) -> DecisionView {
        DecisionView {
            path: self.path@,
            source_host: self.source_host@,
            target_hosts: texts(self.target_hosts@),
            synced_hosts: texts(self.synced_hosts@),
            reason: self.reason@,
        }
    }
}

/// The contents of each decision of a list.
pub open spec fn decision_views(list: Seq<SyncDecision>) -> Seq<DecisionView> {
    Seq::new(list.len(), |i: int| list[i]@)
}

/// At most one decision as a list.
pub open spec fn as_list(d: Option<DecisionView>) -> Seq<DecisionView> {
    match d {
        Some(d) => seq![d],
        None => Seq::empty(),
    }
}

/// The source and the path of a file that the source does not have.
pub type SkipInfo = Option<(String, String)>;

// ---------------------------------------------------------------------------
// The rules
// ---------------------------------------------------------------------------

/// The hosts of some reports.
pub open spec fn hosts_of(infos: Seq<FileInfo>) -> Seq<Seq<char>> {
    Seq::new(infos.len(), |i: int| infos[i].host@)
}

/// Whether another host's copy differs from the source's.
pub open spec fn differs(f: FileInfo, source: FileInfo) -> bool {
    f.host@ != source.host@ && f.hash@ != source.hash@
}

/// Whether another host's copy equals the source's.
pub open spec fn agrees(f: FileInfo, source: FileInfo) -> bool {
    f.host@ != source.host@ && f.hash@ == source.hash@
}

/// The hosts whose copy differs from the source's, in the order they reported.
pub open spec fn differing(infos: Seq<FileInfo>, source: FileInfo) -> Seq<Seq<char>> {
    hosts_of(infos.filter(|f: FileInfo| differs(f, source)))
}

/// The other hosts whose copy equals the source's, in the order they reported.
pub open spec fn agreeing(infos: Seq<FileInfo>, source: FileInfo) -> Seq<Seq<char>> {
    hosts_of(infos.filter(|f: FileInfo| agrees(f, source)))
}

/// Where the copy goes: to the hosts whose copy differs and, if wanted, to the
/// hosts that have none.
pub open spec fn targets(
    infos: Seq<FileInfo>,
    source: FileInfo,
    push_missing: bool,
    missing: Seq<Seq<char>>,
) -> Seq<Seq<char>> {
    if push_missing {
        with_all_new(differing(infos, source), missing)
    } else {
        differing(infos, source)
    }
}

/// Every host reported the same hash, and there is one.
pub open spec fn all_in_sync(infos: Seq<FileInfo>) -> bool {
    &&& infos.len() > 0
    &&& infos[0].hash@.len() > 0
    &&& same_hashes(infos)
}

/// Every host reported the same hash, or none could compute one.
pub open spec fn same_hashes(infos: Seq<FileInfo>) -> bool {
    forall|i: int| 0 <= i < infos.len() ==> (#[trigger] infos[i]).hash@ == infos[0].hash@
}

/// Which report is the newest: the last one with the greatest modification time.
pub open spec fn newest(infos: Seq<FileInfo>) -> int
    decreases infos.len(),
{
    if infos.len() <= 1 {
        0
    } else {
        let k = newest(infos.drop_last());
        if infos.last().mtime >= infos[k].mtime {
            infos.len() - 1
        } else {
            k
        }
    }
}

/// `, +n missing` if files are pushed to hosts that have none.
pub open spec fn missing_note(push_missing: bool, missing: Seq<Seq<char>>) -> Seq<char> {
    if push_missing && missing.len() > 0 {
        ", +"@ + decimal(missing.len()) + " missing"@
    } else {
        Seq::empty()
    }
}

/// Why the newest copy is distributed.
pub open spec fn newest_reason(
    infos: Seq<FileInfo>,
    source: FileInfo,
    push_missing: bool,
    missing: Seq<Seq<char>>,
) -> Seq<char> {
    if differing(infos, source).len() == 0 && push_missing && missing.len() > 0 {
        "in sync on reachable hosts, pushing to "@ + decimal(missing.len()) + " missing"@
    } else {
        "newest mtime: "@ + signed_decimal(source.mtime as int) + missing_note(
            push_missing,
            missing,
        )
    }
}

/// The decision for a file by the conflict strategy; none where nothing has to
/// be copied, or where copies differ and differing copies are to be left alone.
pub open spec fn decision(
    infos: Seq<FileInfo>,
    strategy: ConflictStrategy,
    path: Seq<char>,
    push_missing: bool,
    missing: Seq<Seq<char>>,
) -> Option<DecisionView> {
    if infos.len() == 0 || (all_in_sync(infos) && (!push_missing || missing.len() == 0)) {
        None
    } else {
        match strategy {
            ConflictStrategy::Newest => {
                let source = infos[newest(infos)];
                let to = targets(infos, source, push_missing, missing);
                if to.len() == 0 {
                    None
                } else {
                    Some(
                        DecisionView {
                            path,
                            source_host: source.host@,
                            target_hosts: to,
                            synced_hosts: agreeing(infos, source),
                            reason: newest_reason(infos, source, push_missing, missing),
                        },
                    )
                }
            },
            ConflictStrategy::Skip => {
                if push_missing && missing.len() > 0 && all_in_sync(infos) {
                    Some(
                        DecisionView {
                            path,
                            source_host: infos[0].host@,
                            target_hosts: missing,
                            synced_hosts: hosts_of(infos).skip(1),
                            reason: "push to "@ + decimal(missing.len()) + " missing host(s)"@,
                        },
                    )
                } else {
                    None
                }
            },
        }
    }
}

/// Which report is the first of a host; the length where it has none.
pub open spec fn report_of(infos: Seq<FileInfo>, host: Seq<char>) -> int
    decreases infos.len(),
{
    if infos.len() == 0 {
        0
    } else if infos[0].host@ == host {
        0
    } else {
        1 + report_of(infos.skip(1), host)
    }
}

/// The decision for a file whose source is fixed.
pub open spec fn fixed_decision(
    infos: Seq<FileInfo>,
    path: Seq<char>,
    push_missing: bool,
    missing: Seq<Seq<char>>,
    source_name: Seq<char>,
) -> Option<DecisionView> {
    let k = report_of(infos, source_name);
    if k >= infos.len() {
        None
    } else {
        let source = infos[k];
        let to = targets(infos, source, push_missing, missing);
        if to.len() == 0 {
            None
        } else {
            Some(
                DecisionView {
                    path,
                    source_host: source.host@,
                    target_hosts: to,
                    synced_hosts: agreeing(infos, source),
                    reason: "fixed source: "@ + source_name + missing_note(push_missing, missing),
                },
            )
        }
    }
}

// ---------------------------------------------------------------------------
// Computing them
// ---------------------------------------------------------------------------

proof fn filter_step(infos: Seq<FileInfo>, p: spec_fn(FileInfo) -> bool, i: int)
    requires
        0 <= i < infos.len(),
    ensures
        hosts_of(infos.take(i + 1).filter(p)) == (if p(infos[i]) {
            hosts_of(infos.take(i).filter(p)).push(infos[i].host@)
        } else {
            hosts_of(infos.take(i).filter(p))
        }),
{
    reveal(Seq::filter);
    let t = infos.take(i + 1);
    assert(t.drop_last() =~= infos.take(i));
    assert(t.last() == infos[i]);
    assert(hosts_of(infos.take(i + 1).filter(p)) =~= (if p(infos[i]) {
        hosts_of(infos.take(i).filter(p)).push(infos[i].host@)
    } else {
        hosts_of(infos.take(i).filter(p))
    }));
}

fn differing_hosts(infos: &[FileInfo], source: &FileInfo) -> (r: Vec<String>)
    ensures
        texts(r@) == differing(infos@, *source),
{
    let ghost p = |f: FileInfo| differs(f, *source);
    let mut out: Vec<String> = Vec::new();
    let mut i: usize = 0;
    proof {
        reveal(Seq::filter);
        assert(texts(out@) =~= hosts_of(infos@.take(0).filter(p)));
    }
    while i < infos.len()
        invariant
            i <= infos.len(),
            p == (|f: FileInfo| differs(f, *source)),
            texts(out@) == hosts_of(infos@.take(i as int).filter(p)),
        decreases infos.len() - i,
    {
        let f = &infos[i];
        proof {
            filter_step(infos@, p, i as int);
        }
        if !same(f.host.as_str(), source.host.as_str()) && !same(
            f.hash.as_str(),
            source.hash.as_str(),
        ) {
            out.push(copy(f.host.as_str()));
        }
        i += 1;
    }
    assert(infos@.take(i as int) =~= infos@);
    out
}

fn agreeing_hosts(infos: &[FileInfo], source: &FileInfo) -> (r: Vec<String>)
    ensures
        texts(r@) == agreeing(infos@, *source),
{
    let ghost p = |f: FileInfo| agrees(f, *source);
    let mut out: Vec<String> = Vec::new();
    let mut i: usize = 0;
    proof {
        reveal(Seq::filter);
        assert(texts(out@) =~= hosts_of(infos@.take(0).filter(p)));
    }
    while i < infos.len()
        invariant
            i <= infos.len(),
            p == (|f: FileInfo| agrees(f, *source)),
            texts(out@) == hosts_of(infos@.take(i as int).filter(p)),
        decreases infos.len() - i,
    {
        let f = &infos[i];
        proof {
            filter_step(infos@, p, i as int);
        }
        if !same(f.host.as_str(), source.host.as_str()) && same(
            f.hash.as_str(),
            source.hash.as_str(),
        ) {
            out.push(copy(f.host.as_str()));
        }
        i += 1;
    }
    assert(infos@.take(i as int) =~= infos@);
    out
}

/// The hosts of some reports.
pub fn report_hosts(infos: &[FileInfo]) -> (r: Vec<String>)
    ensures
        texts(r@) == hosts_of(infos@),
{
    let mut out: Vec<String> = Vec::new();
    let mut i: usize = 0;
    while i < infos.len()
        invariant
            i <= infos.len(),
            texts(out@) == hosts_of(infos@).take(i as int),
        decreases infos.len() - i,
    {
        out.push(copy(infos[i].host.as_str()));
        i += 1;
        assert(texts(out@) =~= hosts_of(infos@).take(i as int));
    }
    assert(hosts_of(infos@).take(i as int) =~= hosts_of(infos@));
    out
}

fn hashes_are_same(infos: &[FileInfo]) -> (r: bool)
    requires
        infos@.len() > 0,
    ensures
        r == same_hashes(infos@),
{
    let mut i: usize = 0;
    while i < infos.len()
        invariant
            i <= infos.len(),
            infos@.len() > 0,
            forall|j: int| 0 <= j < i ==> (#[trigger] infos@[j]).hash@ == infos@[0].hash@,
        decreases infos.len() - i,
    {
        if !same(infos[i].hash.as_str(), infos[0].hash.as_str()) {
            return false;
        }
        i += 1;
    }
    true
}

fn newest_of(infos: &[FileInfo]) -> (r: usize)
    requires
        infos@.len() > 0,
    ensures
        r < infos@.len(),
        r == newest(infos@),
{
    let mut k: usize = 0;
    let mut i: usize = 1;
    while i < infos.len()
        invariant
            1 <= i <= infos@.len(),
            k < i,
            k == newest(infos@.take(i as int)),
        decreases infos@.len() - i,
    {
        assert(infos@.take(i + 1).drop_last() =~= infos@.take(i as int));
        if infos[i].mtime >= infos[k].mtime {
            k = i;
        }
        i += 1;
    }
    assert(infos@.take(i as int) =~= infos@);
    k
}

fn targets_of(
    infos: &[FileInfo],
    source: &FileInfo,
    push_missing: bool,
    missing_hosts: &[String],
) -> (r: Vec<String>)
    ensures
        texts(r@) == targets(infos@, *source, push_missing, texts(missing_hosts@)),
{
    let mut to = differing_hosts(infos, source);
    if push_missing {
        push_all_new(&mut to, missing_hosts);
    }
    to
}

fn append_missing_note(reason: &mut String, push_missing: bool, missing_hosts: &[String])
    ensures
        final(reason)@ == old(reason)@ + missing_note(push_missing, texts(missing_hosts@)),
{
    if push_missing && missing_hosts.len() > 0 {
        reason.append(", +");
        reason.append(usize_text(missing_hosts.len()).as_str());
        reason.append(" missing");
    }
    assert(reason@ =~= old(reason)@ + missing_note(push_missing, texts(missing_hosts@)));
}

/// Decides by the conflict strategy what has to be copied.
pub fn make_decisions(
    file_infos: &[FileInfo],
    strategy: &ConflictStrategy,
    path: &str,
    push_missing: bool,
    missing_hosts: &[String],
) -> (r: Vec<SyncDecision>)
    ensures
        decision_views(r@) == as_list(
            decision(file_infos@, *strategy, path@, push_missing, texts(missing_hosts@)),
        ),
        r@.len() <= 1,
        *strategy == ConflictStrategy::Newest ==> forall|k: int|
            0 <= k < r@.len() ==> exists|i: int|
                0 <= i < file_infos@.len() && (#[trigger] file_infos@[i]).host@ == (
                #[trigger] r@[k]).source_host@ && forall|j: int|
                    0 <= j < file_infos@.len() ==> (#[trigger] file_infos@[j]).mtime
                        <= file_infos@[i].mtime,
{
    let mut out: Vec<SyncDecision> = Vec::new();
    assert(decision_views(out@) =~= Seq::empty());
    if file_infos.len() == 0 {
        return out;
    }
    let uniform = hashes_are_same(file_infos);
    let in_sync = !file_infos[0].hash.as_str().is_empty() && uniform;
    if in_sync && (!push_missing || missing_hosts.len() == 0) {
        return out;
    }
    match strategy {
        ConflictStrategy::Newest => {
            let source = &file_infos[newest_of(file_infos)];
            proof {
                newest_is_newest(file_infos@);
            }
            let to = targets_of(file_infos, source, push_missing, missing_hosts);
            assert(texts(to@).len() == to@.len());
            if to.len() == 0 {
                return out;
            }
            let conflicts = differing_hosts(file_infos, source);
            assert(texts(conflicts@).len() == conflicts@.len());
            let reason = if conflicts.len() == 0 && push_missing && missing_hosts.len() > 0 {
                let mut t = copy("in sync on reachable hosts, pushing to ");
                t.append(usize_text(missing_hosts.len()).as_str());
                t.append(" missing");
                t
            } else {
                let mut t = copy("newest mtime: ");
                t.append(signed_text(source.mtime).as_str());
                append_missing_note(&mut t, push_missing, missing_hosts);
                t
            };
            out.push(
                SyncDecision {
                    path: copy(path),
                    source_host: copy(source.host.as_str()),
                    target_hosts: to,
                    synced_hosts: agreeing_hosts(file_infos, source),
                    reason,
                },
            );
        },
        ConflictStrategy::Skip => {
            if push_missing && missing_hosts.len() > 0 && in_sync {
                let all = report_hosts(file_infos);
                let mut synced: Vec<String> = Vec::new();
                let mut i: usize = 1;
                while i < all.len()
                    invariant
                        1 <= i <= all@.len(),
                        texts(synced@) == texts(all@).subrange(1, i as int),
                    decreases all@.len() - i,
                {
                    synced.push(copy(all[i].as_str()));
                    i += 1;
                    assert(texts(synced@) =~= texts(all@).subrange(1, i as int));
                }
                assert(texts(synced@) =~= hosts_of(file_infos@).skip(1));
                let mut reason = copy("push to ");
                reason.append(usize_text(missing_hosts.len()).as_str());
                reason.append(" missing host(s)");
                out.push(
                    SyncDecision {
                        path: copy(path),
                        source_host: copy(file_infos[0].host.as_str()),
                        target_hosts: copy_all(missing_hosts),
                        synced_hosts: synced,
                        reason,
                    },
                );
            }
        },
    }
    assert(decision_views(out@) =~= as_list(
        decision(file_infos@, *strategy, path@, push_missing, texts(missing_hosts@)),
    ));
    out
}

proof fn report_of_step(infos: Seq<FileInfo>, host: Seq<char>, i: int)
    requires
        0 <= i <= infos.len(),
        forall|j: int| 0 <= j < i ==> (#[trigger] infos[j]).host@ != host,
    ensures
        report_of(infos, host) == i + report_of(infos.skip(i), host),
        report_of(infos, host) <= infos.len(),
    decreases infos.len(),
{
    if i == 0 {
        assert(infos.skip(0) =~= infos);
        if infos.len() > 0 && infos[0].host@ != host {
            let rest = infos.skip(1);
            report_of_step(rest, host, 0);
        }
    } else {
        let rest = infos.skip(1);
        assert forall|j: int| 0 <= j < i - 1 implies (#[trigger] rest[j]).host@ != host by {
            assert(rest[j] == infos[j + 1]);
        }
        report_of_step(rest, host, i - 1);
        assert(rest.skip(i - 1) =~= infos.skip(i));
        assert(infos[0].host@ != host);
    }
}

/// Where a host's report stands.
pub fn find_report(infos: &[FileInfo], host: &str) -> (r: Option<usize>)
    ensures
        r matches Some(i) ==> i < infos@.len() && i == report_of(infos@, host@) && infos@[i as
            int].host@ == host@,
        r is None ==> report_of(infos@, host@) >= infos@.len(),
{
    let mut i: usize = 0;
    while i < infos.len()
        invariant
            i <= infos@.len(),
            forall|j: int| 0 <= j < i ==> (#[trigger] infos@[j]).host@ != host@,
        decreases infos@.len() - i,
    {
        if same(infos[i].host.as_str(), host) {
            proof {
                report_of_step(infos@, host@, i as int);
                assert(infos@.skip(i as int)[0] == infos@[i as int]);
            }
            return Some(i);
        }
        i += 1;
    }
    proof {
        report_of_step(infos@, host@, i as int);
    }
    None
}

/// Decides what has to be copied when the source is fixed. Where the source has
/// no copy there is no decision, and the source and the path come back.
pub fn make_decisions_fixed_source(
    file_infos: &[FileInfo],
    path: &str,
    push_missing: bool,
    missing_hosts: &[String],
    source_name: &str,
) -> (r: Result<(Vec<SyncDecision>, SkipInfo), Error>)
    ensures
        r is Ok,
        decision_views(r->Ok_0.0@) == as_list(
            fixed_decision(
                file_infos@,
                path@,
                push_missing,
                texts(missing_hosts@),
                source_name@,
            ),
        ),
        r->Ok_0.1 is Some <==> !hosts_of(file_infos@).contains(source_name@),
        r->Ok_0.1 matches Some(skip) ==> skip.0@ == source_name@ && skip.1@ == path@,
{
    let mut out: Vec<SyncDecision> = Vec::new();
    assert(decision_views(out@) =~= Seq::empty());
    let found = find_report(file_infos, source_name);
    let k: usize = match found {
        Some(k) => k,
        None => {
            proof {
                report_absent(file_infos@, source_name@);
            }
            return Ok((out, Some((copy(source_name), copy(path)))));
        },
    };
    assert(hosts_of(file_infos@)[k as int] == source_name@);
    let source = &file_infos[k];
    let to = targets_of(file_infos, source, push_missing, missing_hosts);
    assert(texts(to@).len() == to@.len());
    if to.len() == 0 {
        return Ok((out, None));
    }
    let mut reason = copy("fixed source: ");
    reason.append(source_name);
    append_missing_note(&mut reason, push_missing, missing_hosts);
    out.push(
        SyncDecision {
            path: copy(path),
            source_host: copy(source.host.as_str()),
            target_hosts: to,
            synced_hosts: agreeing_hosts(file_infos, source),
            reason,
        },
    );
    assert(decision_views(out@) =~= as_list(
        fixed_decision(file_infos@, path@, push_missing, texts(missing_hosts@), source_name@),
    ));
    Ok((out, None))
}

proof fn report_absent(infos: Seq<FileInfo>, host: Seq<char>)
    requires
        report_of(infos, host) >= infos.len(),
    ensures
        !hosts_of(infos).contains(host),
    decreases infos.len(),
{
    if infos.len() > 0 {
        report_absent(infos.skip(1), host);
        if hosts_of(infos).contains(host) {
            let i = hosts_of(infos).index_of(host);
            assert(i > 0);
            assert(hosts_of(infos.skip(1))[i - 1] == host);
        }
    }
}

// ---------------------------------------------------------------------------
// Laws
// ---------------------------------------------------------------------------

/// `filter` picks elements of the list that satisfy the predicate, and all of
/// them.
proof fn filter_members(infos: Seq<FileInfo>, p: spec_fn(FileInfo) -> bool, t: Seq<char>)
    ensures
        hosts_of(infos.filter(p)).contains(t) <==> exists|i: int|
            0 <= i < infos.len() && p(#[trigger] infos[i]) && infos[i].host@ == t,
    decreases infos.len(),
{
    reveal(Seq::filter);
    if infos.len() > 0 {
        let rest = infos.drop_last();
        let x = infos.last();
        filter_members(rest, p, t);
        let f0 = rest.filter(p);
        let f1 = infos.filter(p);
        if p(x) {
            assert(f1 == f0.push(x));
            if hosts_of(f0).contains(t) {
                let k = hosts_of(f0).index_of(t);
                assert(hosts_of(f1)[k] == t);
            }
            if x.host@ == t {
                assert(hosts_of(f1)[f0.len() as int] == t);
            }
            if hosts_of(f1).contains(t) {
                let k = hosts_of(f1).index_of(t);
                if k < f0.len() {
                    assert(hosts_of(f0)[k] == t);
                }
            }
        }
        if hosts_of(f0).contains(t) {
            let i = choose|i: int| 0 <= i < rest.len() && p(#[trigger] rest[i]) && rest[i].host@ == t;
            assert(infos[i] == rest[i]);
        }
        if exists|i: int| 0 <= i < infos.len() && p(#[trigger] infos[i]) && infos[i].host@ == t {
            let i = choose|i: int|
                0 <= i < infos.len() && p(#[trigger] infos[i]) && infos[i].host@ == t;
            if i < rest.len() {
                assert(rest[i] == infos[i]);
            }
        }
        assert(infos[infos.len() - 1] == x);
    }
}

/// The newest report is one of the reports, and none is newer.
pub proof fn newest_is_newest(infos: Seq<FileInfo>)
    requires
        infos.len() > 0,
    ensures
        0 <= newest(infos) < infos.len(),
        forall|i: int|
            0 <= i < infos.len() ==> (#[trigger] infos[i]).mtime <= infos[newest(infos)].mtime,
        forall|i: int|
            newest(infos) < i < infos.len() ==> (#[trigger] infos[i]).mtime
                < infos[newest(infos)].mtime,
    decreases infos.len(),
{
    if infos.len() > 1 {
        let rest = infos.drop_last();
        newest_is_newest(rest);
        assert forall|i: int| 0 <= i < infos.len() implies (#[trigger] infos[i]).mtime
            <= infos[newest(infos)].mtime by {
            if i < rest.len() {
                assert(rest[i] == infos[i]);
            }
        }
        assert forall|i: int| newest(infos) < i < infos.len() implies (#[trigger] infos[i]).mtime
            < infos[newest(infos)].mtime by {
            if i < rest.len() {
                assert(rest[i] == infos[i]);
            }
        }
    }
}

/// A file is never copied onto the host it comes from, as long as a host that
/// reported a copy is not also listed as having none.
pub proof fn source_is_no_target(
    infos: Seq<FileInfo>,
    strategy: ConflictStrategy,
    path: Seq<char>,
    push_missing: bool,
    missing: Seq<Seq<char>>,
    source_name: Seq<char>,
)
    requires
        forall|i: int| 0 <= i < infos.len() ==> !missing.contains((#[trigger] infos[i]).host@),
    ensures
        decision(infos, strategy, path, push_missing, missing) matches Some(d)
            ==> !d.target_hosts.contains(d.source_host),
        fixed_decision(infos, path, push_missing, missing, source_name) matches Some(d)
            ==> !d.target_hosts.contains(d.source_host),
{
    if infos.len() > 0 {
        newest_is_newest(infos);
        let source = infos[newest(infos)];
        filter_members(infos, |f: FileInfo| differs(f, source), source.host@);
        with_all_new_facts(differing(infos, source), missing);
        assert(!missing.contains(infos[0].host@));
        let k = report_of(infos, source_name);
        if k < infos.len() {
            report_of_step(infos, source_name, 0);
            report_is_there(infos, source_name);
            let fixed = infos[k];
            filter_members(infos, |f: FileInfo| differs(f, fixed), fixed.host@);
            with_all_new_facts(differing(infos, fixed), missing);
        }
    }
}

proof fn report_is_there(infos: Seq<FileInfo>, host: Seq<char>)
    requires
        report_of(infos, host) < infos.len(),
    ensures
        0 <= report_of(infos, host),
        infos[report_of(infos, host)].host@ == host,
    decreases infos.len(),
{
    if infos.len() > 0 && infos[0].host@ != host {
        report_is_there(infos.skip(1), host);
    }
}

/// A host that already has the source's copy receives nothing: no host is both
/// in sync and a target, as long as each host reports once and no host that
/// reported a copy is listed as having none.
pub proof fn synced_hosts_receive_nothing(
    infos: Seq<FileInfo>,
    strategy: ConflictStrategy,
    path: Seq<char>,
    push_missing: bool,
    missing: Seq<Seq<char>>,
    host: Seq<char>,
)
    requires
        hosts_of(infos).no_duplicates(),
        forall|i: int| 0 <= i < infos.len() ==> !missing.contains((#[trigger] infos[i]).host@),
    ensures
        decision(infos, strategy, path, push_missing, missing) matches Some(d)
            ==> !(d.target_hosts.contains(host) && d.synced_hosts.contains(host)),
{
    if infos.len() > 0 {
        newest_is_newest(infos);
        let source = infos[newest(infos)];
        filter_members(infos, |f: FileInfo| differs(f, source), host);
        filter_members(infos, |f: FileInfo| agrees(f, source), host);
        with_all_new_facts(differing(infos, source), missing);
        if differing(infos, source).contains(host) && agreeing(infos, source).contains(host) {
            let i = choose|i: int|
                0 <= i < infos.len() && differs(#[trigger] infos[i], source) && infos[i].host@
                    == host;
            let j = choose|j: int|
                0 <= j < infos.len() && agrees(#[trigger] infos[j], source) && infos[j].host@
                    == host;
            assert(hosts_of(infos)[i] == hosts_of(infos)[j]);
            assert(i == j);
        }
        if hosts_of(infos).skip(1).contains(host) && missing.contains(host) {
            let k = hosts_of(infos).skip(1).index_of(host);
            assert(infos[k + 1].host@ == host);
        }
    }
}

/// The reports after the source's copy has reached the targets.
pub open spec fn received(
    infos: Seq<FileInfo>,
    to: Seq<Seq<char>>,
    source: FileInfo,
) -> Seq<FileInfo> {
    Seq::new(
        infos.len(),
        |i: int|
            if to.contains(infos[i].host@) {
                FileInfo { hash: source.hash, ..infos[i] }
            } else {
                infos[i]
            },
    )
}

/// Once every host reports one hash and none is without the file, there is
/// nothing left to decide, whatever the strategy.
pub proof fn files_in_sync_stay(
    infos: Seq<FileInfo>,
    strategy: ConflictStrategy,
    path: Seq<char>,
    push_missing: bool,
)
    requires
        all_in_sync(infos),
    ensures
        decision(infos, strategy, path, push_missing, Seq::empty()) is None,
{
}

/// A sync is done after one round: when the newest copy has reached its targets
/// and the hosts report again, no copying is decided any more.
pub proof fn one_round_settles(
    infos: Seq<FileInfo>,
    strategy: ConflictStrategy,
    path: Seq<char>,
    push_missing: bool,
    missing: Seq<Seq<char>>,
)
    requires
        hosts_of(infos).no_duplicates(),
        infos.len() > 0,
        infos[newest(infos)].hash@.len() > 0,
    ensures
        ({
            let source = infos[newest(infos)];
            let to = targets(infos, source, push_missing, missing);
            decision(
                received(infos, to, source),
                strategy,
                path,
                push_missing,
                Seq::empty(),
            ) is None
        }),
{
    newest_is_newest(infos);
    let n = newest(infos);
    let source = infos[n];
    let to = targets(infos, source, push_missing, missing);
    let after = received(infos, to, source);
    with_all_new_facts(differing(infos, source), missing);
    assert forall|i: int| 0 <= i < after.len() implies (#[trigger] after[i]).hash@
        == source.hash@ by {
        let h = infos[i].host@;
        filter_members(infos, |f: FileInfo| differs(f, source), h);
        if h == source.host@ {
            assert(hosts_of(infos)[i] == hosts_of(infos)[n]);
            assert(i == n);
        } else if differs(infos[i], source) {
            assert(to.contains(h));
        }
    }
    assert(all_in_sync(after));
    files_in_sync_stay(after, strategy, path, push_missing);
}

/// Every host is accounted for: by the newest-copy rule, a host that reported a
/// copy is the source, a target, or already in sync; a host without a copy is a
/// target if files are pushed to such hosts.
pub proof fn newest_covers_every_host(
    infos: Seq<FileInfo>,
    path: Seq<char>,
    push_missing: bool,
    missing: Seq<Seq<char>>,
    i: int,
)
    requires
        0 <= i < infos.len(),
        decision(infos, ConflictStrategy::Newest, path, push_missing, missing) is Some,
    ensures
        ({
            let d = decision(infos, ConflictStrategy::Newest, path, push_missing, missing)->0;
            ||| infos[i].host@ == d.source_host
            ||| d.target_hosts.contains(infos[i].host@)
            ||| d.synced_hosts.contains(infos[i].host@)
        }),
        push_missing ==> forall|m: Seq<char>| #[trigger]
            missing.contains(m) ==> decision(
                infos,
                ConflictStrategy::Newest,
                path,
                push_missing,
                missing,
            )->0.target_hosts.contains(m),
{
    newest_is_newest(infos);
    let source = infos[newest(infos)];
    let h = infos[i].host@;
    filter_members(infos, |f: FileInfo| differs(f, source), h);
    filter_members(infos, |f: FileInfo| agrees(f, source), h);
    with_all_new_facts(differing(infos, source), missing);
    assert(differs(infos[i], source) || agrees(infos[i], source) || h == source.host@);
}

/// By the newest-copy rule, the copy that goes out is one that no other is newer than:
/// of several such copies, the one reported last. It goes to the hosts whose copy has
/// another hash and, where files are pushed to hosts without one, to those; the others
/// that reported are in sync. Nothing is decided exactly where there is nowhere to send
/// it.
pub proof fn the_newest_copy_goes_out(
    infos: Seq<FileInfo>,
    path: Seq<char>,
    push_missing: bool,
    missing: Seq<Seq<char>>,
) -> (s: int)
    requires
        infos.len() > 0,
    ensures
        0 <= s < infos.len(),
        forall|j: int| 0 <= j < infos.len() ==> (#[trigger] infos[j]).mtime <= infos[s].mtime,
        forall|j: int| s < j < infos.len() ==> (#[trigger] infos[j]).mtime < infos[s].mtime,
        match decision(infos, ConflictStrategy::Newest, path, push_missing, missing) {
            Some(d) => {
                &&& d.path == path
                &&& d.source_host == infos[s].host@
                &&& forall|t: Seq<char>| #[trigger]
                    d.target_hosts.contains(t) <==> (push_missing && missing.contains(t)) || exists|
                        j: int,
                    |
                        0 <= j < infos.len() && (#[trigger] infos[j]).host@ == t && t
                            != infos[s].host@ && infos[j].hash@ != infos[s].hash@
                &&& forall|t: Seq<char>| #[trigger]
                    d.synced_hosts.contains(t) <==> exists|j: int|
                        0 <= j < infos.len() && (#[trigger] infos[j]).host@ == t && t
                            != infos[s].host@ && infos[j].hash@ == infos[s].hash@
                &&& d.target_hosts.len() > 0
                &&& !push_missing || missing.len() == 0 ==> d.reason == "newest mtime: "@
                    + signed_decimal(infos[s].mtime as int)
            },
            None => {
                &&& !push_missing || missing.len() == 0
                &&& forall|j: int|
                    0 <= j < infos.len() ==> (#[trigger] infos[j]).host@ == infos[s].host@
                        || infos[j].hash@ == infos[s].hash@
            },
        },
{
    newest_is_newest(infos);
    let s = newest(infos);
    let source = infos[s];
    let to = targets(infos, source, push_missing, missing);
    with_all_new_facts(differing(infos, source), missing);
    assert forall|t: Seq<char>| #[trigger]
        to.contains(t) <==> (push_missing && missing.contains(t)) || exists|j: int|
            0 <= j < infos.len() && (#[trigger] infos[j]).host@ == t && t != infos[s].host@
                && infos[j].hash@ != infos[s].hash@ by {
        filter_members(infos, |f: FileInfo| differs(f, source), t);
    }
    assert forall|t: Seq<char>| #[trigger]
        agreeing(infos, source).contains(t) <==> exists|j: int|
            0 <= j < infos.len() && (#[trigger] infos[j]).host@ == t && t != infos[s].host@
                && infos[j].hash@ == infos[s].hash@ by {
        filter_members(infos, |f: FileInfo| agrees(f, source), t);
    }
    if to.len() == 0 {
        if push_missing && missing.len() > 0 {
            assert(missing.contains(missing[0]));
            assert(to.contains(missing[0]));
        }
        assert forall|j: int| 0 <= j < infos.len() implies (#[trigger] infos[j]).host@
            == infos[s].host@ || infos[j].hash@ == infos[s].hash@ by {
            if infos[j].host@ != infos[s].host@ && infos[j].hash@ != infos[s].hash@ {
                assert(to.contains(infos[j].host@));
            }
        }
    }
    if !push_missing || missing.len() == 0 {
        assert("newest mtime: "@ + signed_decimal(source.mtime as int) + missing_note(
            push_missing,
            missing,
        ) =~= "newest mtime: "@ + signed_decimal(source.mtime as int));
    }
    s
}

/// By the rule that leaves differing copies alone, a file goes only to hosts that have
/// none, only where that is wanted, and only where all that reported have one hash; it
/// comes from a host that reported it.
pub proof fn differing_copies_can_be_left_alone(
    infos: Seq<FileInfo>,
    path: Seq<char>,
    push_missing: bool,
    missing: Seq<Seq<char>>,
)
    ensures
        match decision(infos, ConflictStrategy::Skip, path, push_missing, missing) {
            Some(d) => {
                &&& push_missing
                &&& d.path == path
                &&& d.target_hosts == missing
                &&& missing.len() > 0
                &&& infos.len() > 0
                &&& d.source_host == infos[0].host@
                &&& forall|i: int, j: int|
                    0 <= i < infos.len() && 0 <= j < infos.len() ==> (#[trigger] infos[i]).hash@
                        == (#[trigger] infos[j]).hash@ && infos[i].hash@.len() > 0
                &&& d.synced_hosts.len() == infos.len() - 1
                &&& forall|i: int|
                    1 <= i < infos.len() ==> (#[trigger] infos[i]).host@ == d.synced_hosts[i - 1]
            },
            None => infos.len() == 0 || !push_missing || missing.len() == 0 || (exists|i: int|
                0 <= i < infos.len() && (#[trigger] infos[i]).hash@ != infos[0].hash@)
                || infos[0].hash@.len() == 0,
        },
{
    if infos.len() > 0 {
        assert(hosts_of(infos).skip(1).len() == infos.len() - 1);
        assert forall|i: int| 1 <= i < infos.len() implies (#[trigger] infos[i]).host@ == hosts_of(
            infos,
        ).skip(1)[i - 1] by {
            assert(hosts_of(infos)[i] == infos[i].host@);
        }
    }
}

/// With a fixed source, the copy of that host goes out, however old it is; where that
/// host reported none, nothing does.
pub proof fn the_fixed_source_goes_out(
    infos: Seq<FileInfo>,
    path: Seq<char>,
    push_missing: bool,
    missing: Seq<Seq<char>>,
    source_name: Seq<char>,
)
    ensures
        match fixed_decision(infos, path, push_missing, missing, source_name) {
            Some(d) => {
                &&& d.path == path
                &&& d.source_host == source_name
                &&& d.target_hosts.len() > 0
                &&& exists|s: int| #![trigger infos[s]]
                    0 <= s < infos.len() && infos[s].host@ == source_name && (forall|j: int|
                        0 <= j < s ==> (#[trigger] infos[j]).host@ != source_name) && (forall|
                        t: Seq<char>,
                    | #[trigger]
                        d.target_hosts.contains(t) <==> (push_missing && missing.contains(t))
                            || exists|j: int|
                            0 <= j < infos.len() && (#[trigger] infos[j]).host@ == t && t
                                != source_name && infos[j].hash@ != infos[s].hash@) && (forall|
                        t: Seq<char>,
                    | #[trigger]
                        d.synced_hosts.contains(t) <==> exists|j: int|
                            0 <= j < infos.len() && (#[trigger] infos[j]).host@ == t && t
                                != source_name && infos[j].hash@ == infos[s].hash@)
            },
            None => {
                ||| forall|j: int| 0 <= j < infos.len()
                    ==> (#[trigger] infos[j]).host@ != source_name
                ||| (!push_missing || missing.len() == 0) && exists|s: int| #![trigger infos[s]]
                    0 <= s < infos.len() && infos[s].host@ == source_name && forall|j: int|
                        0 <= j < infos.len() ==> (#[trigger] infos[j]).host@ == source_name
                            || infos[j].hash@ == infos[s].hash@
            },
        },
{
    let s = report_of(infos, source_name);
    if s < infos.len() {
        report_is_there(infos, source_name);
        report_is_first(infos, source_name);
        let source = infos[s];
        let to = targets(infos, source, push_missing, missing);
        with_all_new_facts(differing(infos, source), missing);
        assert forall|t: Seq<char>| #[trigger]
            to.contains(t) <==> (push_missing && missing.contains(t)) || exists|j: int|
                0 <= j < infos.len() && (#[trigger] infos[j]).host@ == t && t != source_name
                    && infos[j].hash@ != infos[s].hash@ by {
            filter_members(infos, |f: FileInfo| differs(f, source), t);
        }
        assert forall|t: Seq<char>| #[trigger]
            agreeing(infos, source).contains(t) <==> exists|j: int|
                0 <= j < infos.len() && (#[trigger] infos[j]).host@ == t && t != source_name
                    && infos[j].hash@ == infos[s].hash@ by {
            filter_members(infos, |f: FileInfo| agrees(f, source), t);
        }
        if to.len() == 0 {
            if push_missing && missing.len() > 0 {
                assert(missing.contains(missing[0]));
                assert(to.contains(missing[0]));
            }
            assert forall|j: int| 0 <= j < infos.len() implies (#[trigger] infos[j]).host@
                == source_name || infos[j].hash@ == infos[s].hash@ by {
                if infos[j].host@ != source_name && infos[j].hash@ != infos[s].hash@ {
                    assert(to.contains(infos[j].host@));
                }
            }
        }
    } else {
        report_absent(infos, source_name);
        assert forall|j: int| 0 <= j < infos.len() implies (#[trigger] infos[j]).host@
            != source_name by {
            assert(hosts_of(infos)[j] == infos[j].host@);
        }
    }
}

proof fn report_is_first(infos: Seq<FileInfo>, host: Seq<char>)
    ensures
        forall|j: int|
            0 <= j < report_of(infos, host) && j < infos.len() ==> (#[trigger] infos[j]).host@
                != host,
    decreases infos.len(),
{
    if infos.len() > 0 && infos[0].host@ != host {
        let rest = infos.skip(1);
        report_is_first(rest, host);
        assert forall|j: int|
            0 <= j < report_of(infos, host) && j < infos.len() implies (#[trigger] infos[j]).host@
            != host by {
            if j > 0 {
                assert(rest[j - 1] == infos[j]);
            }
        }
    }
}

} // verus!
