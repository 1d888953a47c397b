//! Which paths a sync works on, where each applies and which host is its source.

use vstd::prelude::*;

use crate::commands::sync::decide::{CollectResult, FileInfo};
use crate::commands::sync::remote::{DirExpandResult, ExpandView};
use crate::commands::{applies, Context, TargetMode, TargetView};
use crate::config::schema::{HostEntry, SyncEntry};
use crate::host::filter::{filter_next, filter_none, pointees};
use crate::lookup::TextMap;
use crate::order::{
    listed, push_all_new, push_new, unique, with_all_new, with_all_new_facts, with_new,
};
use crate::text::{copy, copy_all, copy_opt, same, str_opt, text_opt, texts, texts_push};

verus! {

broadcast use texts_push;

// ---------------------------------------------------------------------------
// Types
// ---------------------------------------------------------------------------

/// A recursive entry, by its place in the configuration, with the hosts it
/// applies to and the source that holds for it.
#[derive(Debug)]
pub struct RecursiveEntry {
    pub entry: usize,
    pub hosts: Vec<String>,
    pub source: Option<String>,
}

/// The contents of a recursive entry.
pub ghost struct RecursiveView {
    pub entry: int,
    pub hosts: Seq<Seq<char>>,
    pub source: Option<Seq<char>>,
}

impl View for RecursiveEntry {
    type V = RecursiveView;

    open spec fn view(&self) -> RecursiveView {
        RecursiveView {
            entry: self.entry as int,
            hosts: texts(self.hosts@),
            source: text_opt(self.source),
        }
    }
}

/// The contents of each recursive entry of a list.
pub open spec fn recursive_views(list: Seq<RecursiveEntry>) -> Seq<RecursiveView> {
    Seq::new(list.len(), |i: int| list[i]@)
}

/// Which path applies to which host: pairs of host and path.
#[derive(Debug)]
pub struct HostPathMap {
    pub pairs: Vec<(String, String)>,
}

impl View for HostPathMap {
    type V = Set<(Seq<char>, Seq<char>)>;

    open spec fn view(&self) -> Set<(Seq<char>, Seq<char>)> {
        Set::new(
            |x: (Seq<char>, Seq<char>)|
                exists|i: int|
                    0 <= i < self.pairs@.len() && (#[trigger] self.pairs@[i]).0@ == x.0
                        && self.pairs@[i].1@ == x.1,
        )
    }
}

impl HostPathMap {
    /// Whether a path applies to a host.
    pub fn allows(&self, host: &str, path: &str) -> (r: bool)
        ensures
            r == self@.contains((host@, path@)),
    {
        let mut i: usize = 0;
        while i < self.pairs.len()
            invariant
                i <= self.pairs@.len(),
                forall|j: int|
                    0 <= j < i ==> !((#[trigger] self.pairs@[j]).0@ == host@ && self.pairs@[j].1@
                        == path@),
            decreases self.pairs@.len() - i,
        {
            if same(self.pairs[i].0.as_str(), host) && same(self.pairs[i].1.as_str(), path) {
                return true;
            }
            i += 1;
        }
        false
    }

    /// Lets a path apply to a host.
    pub fn allow(&mut self, host: &str, path: &str)
        ensures
            final(self)@ == old(self)@.insert((host@, path@)),
    {
        let ghost before = self.pairs@;
        self.pairs.push((copy(host), copy(path)));
        proof {
            assert forall|x: (Seq<char>, Seq<char>)| self@.contains(x) <==> old(self)@.insert(
                (host@, path@),
            ).contains(x) by {
                if old(self)@.contains(x) {
                    let i = choose|i: int|
                        0 <= i < before.len() && (#[trigger] before[i]).0@ == x.0 && before[i].1@
                            == x.1;
                    assert(self.pairs@[i] == before[i]);
                }
                if x == (host@, path@) {
                    assert(self.pairs@[before.len() as int].0@ == x.0);
                }
                if self@.contains(x) {
                    let i = choose|i: int|
                        0 <= i < self.pairs@.len() && (#[trigger] self.pairs@[i]).0@ == x.0
                            && self.pairs@[i].1@ == x.1;
                    if i < before.len() {
                        assert(before[i].0@ == x.0);
                    }
                }
            }
            assert(self@ =~= old(self)@.insert((host@, path@)));
        }
    }
}

/// The fixed source of each path; a path without one has the value `None`.
pub type PathSourceMap = TextMap<Option<String>>;

/// The sources as texts.
pub open spec fn source_views(m: Map<Seq<char>, Option<String>>) -> Map<
    Seq<char>,
    Option<Seq<char>>,
> {
    m.map_values(|v: Option<String>| text_opt(v))
}

/// What a sync works on.
pub struct SyncPaths {
    /// Paths of entries that are not recursive.
    pub paths: Vec<String>,
    pub recursive: Vec<RecursiveEntry>,
    /// Which path applies to which host; `None` where all apply to all.
    pub host_paths: Option<HostPathMap>,
    pub sources: PathSourceMap,
}

// ---------------------------------------------------------------------------
// Steps: which entry applies to which host
// ---------------------------------------------------------------------------

/// The places of the entries that are scoped to a group.
pub open spec fn entries_of_group(entries: Seq<SyncEntry>, group: Seq<char>) -> Seq<int>
    decreases entries.len(),
{
    if entries.len() == 0 {
        Seq::empty()
    } else {
        let rest = entries_of_group(entries.drop_last(), group);
        if texts(entries.last().groups@).contains(group) {
            rest.push(entries.len() - 1)
        } else {
            rest
        }
    }
}

/// The places of the entries that apply to a host through its groups, group by
/// group.
pub open spec fn entries_of_host(
    entries: Seq<SyncEntry>,
    host_groups: Seq<Seq<char>>,
    groups: Seq<Seq<char>>,
) -> Seq<int>
    decreases host_groups.len(),
{
    if host_groups.len() == 0 {
        Seq::empty()
    } else {
        let rest = entries_of_host(entries, host_groups.drop_last(), groups);
        if groups.contains(host_groups.last()) {
            with_all_new(rest, entries_of_group(entries, host_groups.last()))
        } else {
            rest
        }
    }
}

/// A host together with an entry that applies to it.
pub open spec fn pair_with(host: Seq<char>, places: Seq<int>) -> Seq<(Seq<char>, int)> {
    Seq::new(places.len(), |i: int| (host, places[i]))
}

/// Host by host, the entries that apply to it through the targeted groups.
pub open spec fn group_steps(
    entries: Seq<SyncEntry>,
    hosts: Seq<HostEntry>,
    groups: Seq<Seq<char>>,
) -> Seq<(Seq<char>, int)>
    decreases hosts.len(),
{
    if hosts.len() == 0 {
        Seq::empty()
    } else {
        group_steps(entries, hosts.drop_last(), groups) + pair_with(
            hosts.last().name@,
            entries_of_host(entries, texts(hosts.last().groups@), groups),
        )
    }
}

/// The places of the entries that apply to the targets.
pub open spec fn applying(entries: Seq<SyncEntry>, mode: TargetView) -> Seq<int>
    decreases entries.len(),
{
    if entries.len() == 0 {
        Seq::empty()
    } else {
        let rest = applying(entries.drop_last(), mode);
        if applies(entries.last(), mode) {
            rest.push(entries.len() - 1)
        } else {
            rest
        }
    }
}

/// The source that holds for an entry: the one given for the run, else its own.
pub open spec fn effective_source(cli: Option<Seq<char>>, e: SyncEntry) -> Option<Seq<char>> {
    match cli {
        Some(s) => Some(s),
        None => text_opt(e.source),
    }
}

/// The paths of the entries of some steps that are not recursive, in order.
pub open spec fn step_paths(entries: Seq<SyncEntry>, steps: Seq<(Seq<char>, int)>) -> Seq<
    Seq<char>,
>
    decreases steps.len(),
{
    if steps.len() == 0 {
        Seq::empty()
    } else {
        let rest = step_paths(entries, steps.drop_last());
        let e = entries[steps.last().1];
        if e.recursive {
            rest
        } else {
            rest + texts(e.paths@)
        }
    }
}

/// The sources of the paths: the first entry that names a path decides.
pub open spec fn step_sources(
    entries: Seq<SyncEntry>,
    cli: Option<Seq<char>>,
    steps: Seq<(Seq<char>, int)>,
) -> Map<Seq<char>, Option<Seq<char>>>
    decreases steps.len(),
{
    if steps.len() == 0 {
        Map::empty()
    } else {
        let rest = step_sources(entries, cli, steps.drop_last());
        let e = entries[steps.last().1];
        if e.recursive {
            rest
        } else {
            with_source(rest, texts(e.paths@), effective_source(cli, e))
        }
    }
}

/// Sources to which one source is added for every path that has none yet.
pub open spec fn with_source(
    sources: Map<Seq<char>, Option<Seq<char>>>,
    paths: Seq<Seq<char>>,
    source: Option<Seq<char>>,
) -> Map<Seq<char>, Option<Seq<char>>> {
    Map::new(
        |p: Seq<char>| sources.dom().contains(p) || paths.contains(p),
        |p: Seq<char>|
            if sources.dom().contains(p) {
                sources[p]
            } else {
                source
            },
    )
}

/// The pairs of host and path of the steps that are not recursive.
pub open spec fn step_pairs(entries: Seq<SyncEntry>, steps: Seq<(Seq<char>, int)>) -> Set<
    (Seq<char>, Seq<char>),
> {
    Set::new(
        |x: (Seq<char>, Seq<char>)|
            exists|k: int|
                0 <= k < steps.len() && (#[trigger] steps[k]).0 == x.0
                    && !entries[steps[k].1].recursive && texts(
                    entries[steps[k].1].paths@,
                ).contains(x.1),
    )
}

/// The recursive entries of some steps, each at its first step with the hosts
/// of all its steps.
pub open spec fn step_recursive(
    entries: Seq<SyncEntry>,
    cli: Option<Seq<char>>,
    steps: Seq<(Seq<char>, int)>,
) -> Seq<RecursiveView>
    decreases steps.len(),
{
    if steps.len() == 0 {
        Seq::empty()
    } else {
        let rest = step_recursive(entries, cli, steps.drop_last());
        let (host, place) = steps.last();
        let e = entries[place];
        if e.recursive {
            with_recursive(rest, host, place, effective_source(cli, e))
        } else {
            rest
        }
    }
}

/// Where an entry stands in a list of recursive entries; the length if nowhere.
pub open spec fn place_in(list: Seq<RecursiveView>, entry: int) -> int
    decreases list.len(),
{
    if list.len() == 0 || list[0].entry == entry {
        0
    } else {
        1 + place_in(list.skip(1), entry)
    }
}

/// A list of recursive entries to which one more host of an entry is added.
pub open spec fn with_recursive(
    list: Seq<RecursiveView>,
    host: Seq<char>,
    entry: int,
    source: Option<Seq<char>>,
) -> Seq<RecursiveView> {
    let k = place_in(list, entry);
    if k < list.len() {
        list.update(k, RecursiveView { hosts: with_new(list[k].hosts, host), ..list[k] })
    } else {
        list.push(RecursiveView { entry, hosts: seq![host], source })
    }
}

/// The recursive entries among those at some places, each for all hosts.
pub open spec fn flat_recursive(
    entries: Seq<SyncEntry>,
    cli: Option<Seq<char>>,
    places: Seq<int>,
    hosts: Seq<Seq<char>>,
) -> Seq<RecursiveView>
    decreases places.len(),
{
    if places.len() == 0 {
        Seq::empty()
    } else {
        let rest = flat_recursive(entries, cli, places.drop_last(), hosts);
        let e = entries[places.last()];
        if e.recursive {
            rest.push(
                RecursiveView {
                    entry: places.last(),
                    hosts,
                    source: effective_source(cli, e),
                },
            )
        } else {
            rest
        }
    }
}

/// The names of hosts behind references.
pub open spec fn ref_names(hosts: Seq<&HostEntry>) -> Seq<Seq<char>> {
    Seq::new(hosts.len(), |i: int| hosts[i].name@)
}

// ---------------------------------------------------------------------------
// Computing the steps
// ---------------------------------------------------------------------------

/// The places as mathematical integers.
pub open spec fn places(list: Seq<usize>) -> Seq<int> {
    Seq::new(list.len(), |i: int| list[i] as int)
}

fn place_listed(list: &Vec<usize>, place: usize) -> (r: bool)
    ensures
        r == places(list@).contains(place as int),
{
    let mut i: usize = 0;
    while i < list.len()
        invariant
            i <= list@.len(),
            forall|j: int| 0 <= j < i ==> #[trigger] places(list@)[j] != place,
        decreases list@.len() - i,
    {
        if list[i] == place {
            assert(places(list@)[i as int] == place as int);
            return true;
        }
        i += 1;
    }
    false
}

fn add_entries_of_group(found: &mut Vec<usize>, entries: &[SyncEntry], group: &str)
    requires
        forall|i: int| 0 <= i < old(found)@.len() ==> (#[trigger] old(found)@[i]) < entries@.len(),
    ensures
        places(final(found)@) == with_all_new(
            places(old(found)@),
            entries_of_group(entries@, group@),
        ),
        forall|i: int|
            0 <= i < final(found)@.len() ==> (#[trigger] final(found)@[i]) < entries@.len(),
{
    let ghost before = places(found@);
    let mut i: usize = 0;
    assert(entries_of_group(entries@.take(0), group@) =~= Seq::empty());
    while i < entries.len()
        invariant
            i <= entries@.len(),
            places(found@) == with_all_new(
                before,
                entries_of_group(entries@.take(i as int), group@),
            ),
            forall|k: int| 0 <= k < found@.len() ==> (#[trigger] found@[k]) < entries@.len(),
        decreases entries@.len() - i,
    {
        let ghost g0 = entries_of_group(entries@.take(i as int), group@);
        assert(entries@.take(i + 1).drop_last() =~= entries@.take(i as int));
        assert(entries@.take(i + 1).last() == entries@[i as int]);
        if listed(entries[i].groups.as_slice(), group) {
            let ghost was = places(found@);
            assert(g0.push(i as int).drop_last() =~= g0);
            if !place_listed(found, i) {
                found.push(i);
                assert(places(found@) =~= was.push(i as int));
            }
        }
        i += 1;
    }
    assert(entries@.take(i as int) =~= entries@);
}

fn find_entries_of_host(entries: &[SyncEntry], host_groups: &[String], groups: &[String]) -> (r:
    Vec<usize>)
    ensures
        places(r@) == entries_of_host(entries@, texts(host_groups@), texts(groups@)),
        forall|i: int| 0 <= i < r@.len() ==> (#[trigger] r@[i]) < entries@.len(),
{
    let ghost hg = texts(host_groups@);
    let mut out: Vec<usize> = Vec::new();
    let mut i: usize = 0;
    assert(places(out@) =~= entries_of_host(entries@, hg.take(0), texts(groups@)));
    while i < host_groups.len()
        invariant
            i <= host_groups@.len(),
            hg == texts(host_groups@),
            places(out@) == entries_of_host(entries@, hg.take(i as int), texts(groups@)),
            forall|k: int| 0 <= k < out@.len() ==> (#[trigger] out@[k]) < entries@.len(),
        decreases host_groups@.len() - i,
    {
        assert(hg.take(i + 1).drop_last() =~= hg.take(i as int));
        assert(hg.take(i + 1).last() == host_groups@[i as int]@);
        if listed(groups, host_groups[i].as_str()) {
            add_entries_of_group(&mut out, entries, host_groups[i].as_str());
        }
        i += 1;
    }
    assert(hg.take(i as int) =~= hg);
    out
}

/// A host, by name, together with the place of an entry.
pub open spec fn step_views(steps: Seq<(String, usize)>) -> Seq<(Seq<char>, int)> {
    Seq::new(steps.len(), |i: int| (steps[i].0@, steps[i].1 as int))
}

fn find_group_steps(entries: &[SyncEntry], hosts: &[&HostEntry], groups: &[String]) -> (r: Vec<
    (String, usize),
>)
    ensures
        step_views(r@) == group_steps(entries@, pointees(hosts@), texts(groups@)),
        forall|i: int| 0 <= i < r@.len() ==> (#[trigger] r@[i]).1 < entries@.len(),
{
    let ghost all = pointees(hosts@);
    let mut out: Vec<(String, usize)> = Vec::new();
    let mut i: usize = 0;
    assert(step_views(out@) =~= group_steps(entries@, all.take(0), texts(groups@)));
    while i < hosts.len()
        invariant
            i <= hosts@.len(),
            all == pointees(hosts@),
            step_views(out@) == group_steps(entries@, all.take(i as int), texts(groups@)),
            forall|k: int| 0 <= k < out@.len() ==> (#[trigger] out@[k]).1 < entries@.len(),
        decreases hosts@.len() - i,
    {
        let found = find_entries_of_host(entries, hosts[i].groups.as_slice(), groups);
        let ghost before = step_views(out@);
        let ghost here = pair_with(hosts@[i as int].name@, places(found@));
        let mut j: usize = 0;
        assert(before + here.take(0) =~= before);
        while j < found.len()
            invariant
                j <= found@.len(),
                i < hosts@.len(),
                here == pair_with(hosts@[i as int].name@, places(found@)),
                step_views(out@) == before + here.take(j as int),
                forall|k: int| 0 <= k < found@.len() ==> (#[trigger] found@[k]) < entries@.len(),
                forall|k: int| 0 <= k < out@.len() ==> (#[trigger] out@[k]).1 < entries@.len(),
            decreases found@.len() - j,
        {
            let ghost was = step_views(out@);
            out.push((copy(hosts[i].name.as_str()), found[j]));
            assert(step_views(out@) =~= was.push(here[j as int]));
            assert(before + here.take(j + 1) =~= (before + here.take(j as int)).push(
                here[j as int],
            ));
            j += 1;
        }
        assert(here.take(j as int) =~= here);
        assert(all.take(i + 1).drop_last() =~= all.take(i as int));
        assert(all.take(i + 1).last() == *hosts@[i as int]);
        i += 1;
    }
    assert(all.take(i as int) =~= all);
    out
}

fn find_applying(ctx: &Context) -> (r: Vec<usize>)
    ensures
        places(r@) == applying(ctx.config.sync@, ctx.mode@),
        forall|i: int| 0 <= i < r@.len() ==> (#[trigger] r@[i]) < ctx.config.sync@.len(),
{
    let entries = &ctx.config.sync;
    let mut out: Vec<usize> = Vec::new();
    let mut i: usize = 0;
    assert(places(out@) =~= applying(entries@.take(0), ctx.mode@));
    while i < entries.len()
        invariant
            i <= entries@.len(),
            *entries == ctx.config.sync,
            places(out@) == applying(entries@.take(i as int), ctx.mode@),
            forall|k: int| 0 <= k < out@.len() ==> (#[trigger] out@[k]) < entries@.len(),
        decreases entries@.len() - i,
    {
        let e = &entries[i];
        assert(entries@.take(i + 1).drop_last() =~= entries@.take(i as int));
        assert(entries@.take(i + 1).last() == *e);
        let wanted = match &ctx.mode {
            TargetMode::All => e.enable_all,
            TargetMode::Groups(g) => crate::host::filter::any_shared(
                e.groups.as_slice(),
                g.as_slice(),
            ),
            TargetMode::Hosts(_) => e.enable_hosts,
            TargetMode::Shell(_) => e.enable_hosts,
        };
        let ghost was = places(out@);
        if wanted {
            out.push(i);
            assert(places(out@) =~= was.push(i as int));
        }
        i += 1;
    }
    assert(entries@.take(i as int) =~= entries@);
    out
}

// ---------------------------------------------------------------------------
// From steps to paths
// ---------------------------------------------------------------------------

fn source_for(cli: Option<&str>, e: &SyncEntry) -> (r: Option<String>)
    ensures
        text_opt(r) == effective_source(
            str_opt(cli),
            *e,
        ),
{
    match cli {
        Some(s) => Some(copy(s)),
        None => copy_opt(&e.source),
    }
}

/// Adds a source for every path that has none yet.
pub fn add_source(sources: &mut PathSourceMap, paths: &[String], source: &Option<String>)
    requires
        old(sources).wf(),
    ensures
        final(sources).wf(),
        source_views(final(sources)@) == with_source(
            source_views(old(sources)@),
            texts(paths@),
            text_opt(*source),
        ),
{
    let ghost before = source_views(sources@);
    let ghost ps = texts(paths@);
    let mut i: usize = 0;
    assert(source_views(sources@) =~= with_source(before, ps.take(0), text_opt(*source)));
    while i < paths.len()
        invariant
            i <= paths@.len(),
            ps == texts(paths@),
            sources.wf(),
            source_views(sources@) == with_source(before, ps.take(i as int), text_opt(*source)),
        decreases paths@.len() - i,
    {
        let ghost m0 = sources@;
        let ghost p = ps[i as int];
        let known = sources.get(paths[i].as_str()).is_some();
        proof {
            assert(source_views(m0).dom().contains(p) == m0.dom().contains(p));
            let t0 = ps.take(i as int);
            let t1 = ps.take(i + 1);
            assert forall|q: Seq<char>| t1.contains(q) <==> t0.contains(q) || q == p by {
                if t0.contains(q) {
                    let k = t0.index_of(q);
                    assert(t1[k] == q);
                }
                if q == p {
                    assert(t1[i as int] == q);
                }
                if t1.contains(q) {
                    let k = t1.index_of(q);
                    if k < i {
                        assert(t0[k] == q);
                    }
                }
            }
        }
        if !known {
            let v = copy_opt(source);
            sources.insert(copy(paths[i].as_str()), v);
            assert(source_views(m0.insert(p, v)) =~= source_views(m0).insert(p, text_opt(v)));
        }
        assert(source_views(sources@) =~= with_source(before, ps.take(i + 1), text_opt(*source)));
        i += 1;
    }
    assert(ps.take(i as int) =~= ps);
}

proof fn place_in_step(list: Seq<RecursiveView>, entry: int, i: int)
    requires
        0 <= i <= list.len(),
        forall|j: int| 0 <= j < i ==> (#[trigger] list[j]).entry != entry,
    ensures
        place_in(list, entry) == i + place_in(list.skip(i), entry),
    decreases i,
{
    if i == 0 {
        assert(list.skip(0) =~= list);
    } else {
        let rest = list.skip(1);
        assert(list[0].entry != entry);
        assert forall|j: int| 0 <= j < i - 1 implies (#[trigger] rest[j]).entry != entry by {
            assert(rest[j] == list[j + 1]);
        }
        place_in_step(rest, entry, i - 1);
        assert(rest.skip(i - 1) =~= list.skip(i));
    }
}

fn add_recursive(
    list: &mut Vec<RecursiveEntry>,
    host: &str,
    entry: usize,
    source: Option<String>,
)
    ensures
        recursive_views(final(list)@) == with_recursive(
            recursive_views(old(list)@),
            host@,
            entry as int,
            text_opt(source),
        ),
{
    let ghost before = recursive_views(list@);
    let mut i: usize = 0;
    while i < list.len()
        invariant
            i <= list@.len(),
            list@ == old(list)@,
            before == recursive_views(list@),
            forall|j: int| 0 <= j < i ==> (#[trigger] before[j]).entry != entry,
        decreases list@.len() - i,
    {
        if list[i].entry == entry {
            proof {
                place_in_step(before, entry as int, i as int);
                assert(before.skip(i as int)[0] == before[i as int]);
            }
            let mut hosts = copy_all(list[i].hosts.as_slice());
            push_new(&mut hosts, host);
            let kept = copy_opt(&list[i].source);
            let updated = RecursiveEntry { entry, hosts, source: kept };
            list.set(i, updated);
            assert(recursive_views(list@) =~= with_recursive(
                before,
                host@,
                entry as int,
                text_opt(source),
            ));
            return ;
        }
        assert(before[i as int].entry != entry);
        i += 1;
    }
    proof {
        place_in_step(before, entry as int, i as int);
        assert(before.skip(i as int).len() == 0);
    }
    let mut hosts: Vec<String> = Vec::new();
    hosts.push(copy(host));
    assert(texts(hosts@) =~= seq![host@]);
    list.push(RecursiveEntry { entry, hosts, source });
    assert(recursive_views(list@) =~= with_recursive(
        before,
        host@,
        entry as int,
        text_opt(source),
    ));
}

proof fn unique_append(a: Seq<Seq<char>>, b: Seq<Seq<char>>)
    ensures
        unique(a + b) == with_all_new(unique(a), b),
    decreases b.len(),
{
    if b.len() == 0 {
        assert(a + b =~= a);
    } else {
        unique_append(a, b.drop_last());
        assert((a + b).drop_last() =~= a + b.drop_last());
        assert((a + b).last() == b.last());
    }
}

/// Lets each of some paths apply to a host.
fn allow_all(map: &mut HostPathMap, host: &str, paths: &[String])
    ensures
        forall|x: (Seq<char>, Seq<char>)| #[trigger]
            final(map)@.contains(x) <==> old(map)@.contains(x) || (x.0 == host@ && texts(
                paths@,
            ).contains(x.1)),
{
    let ghost ps = texts(paths@);
    let mut i: usize = 0;
    while i < paths.len()
        invariant
            i <= paths@.len(),
            ps == texts(paths@),
            forall|x: (Seq<char>, Seq<char>)| #[trigger]
                map@.contains(x) <==> old(map)@.contains(x) || (x.0 == host@ && ps.take(
                    i as int,
                ).contains(x.1)),
        decreases paths@.len() - i,
    {
        let ghost m0 = map@;
        map.allow(host, paths[i].as_str());
        proof {
            let t0 = ps.take(i as int);
            let t1 = ps.take(i + 1);
            assert forall|x: (Seq<char>, Seq<char>)| #[trigger]
                map@.contains(x) <==> old(map)@.contains(x) || (x.0 == host@ && t1.contains(
                    x.1,
                )) by {
                assert(m0.contains(x) <==> old(map)@.contains(x) || (x.0 == host@ && t0.contains(
                    x.1,
                )));
                if t0.contains(x.1) {
                    let k = t0.index_of(x.1);
                    assert(t1[k] == x.1);
                }
                if x.1 == ps[i as int] {
                    assert(t1[i as int] == x.1);
                }
                if t1.contains(x.1) {
                    let k = t1.index_of(x.1);
                    if k < i {
                        assert(t0[k] == x.1);
                    }
                }
            }
        }
        i += 1;
    }
    assert(ps.take(i as int) =~= ps);
}

fn paths_from_steps(
    entries: &[SyncEntry],
    steps: &[(String, usize)],
    cli_source: Option<&str>,
) -> (r: SyncPaths)
    requires
        forall|i: int| 0 <= i < steps@.len() ==> (#[trigger] steps@[i]).1 < entries@.len(),
    ensures
        texts(r.paths@) == unique(step_paths(entries@, step_views(steps@))),
        recursive_views(r.recursive@) == step_recursive(
            entries@,
            str_opt(cli_source),
            step_views(steps@),
        ),
        r.host_paths matches Some(m) && m@ == step_pairs(entries@, step_views(steps@)),
        r.sources.wf(),
        source_views(r.sources@) == step_sources(
            entries@,
            str_opt(cli_source),
            step_views(steps@),
        ),
{
    let ghost cli = str_opt(cli_source);
    let ghost all = step_views(steps@);
    let mut paths: Vec<String> = Vec::new();
    let mut recursive: Vec<RecursiveEntry> = Vec::new();
    let mut map = HostPathMap { pairs: Vec::new() };
    let mut sources: PathSourceMap = TextMap::new();
    let mut i: usize = 0;
    assert(texts(paths@) =~= unique(step_paths(entries@, all.take(0))));
    assert(recursive_views(recursive@) =~= step_recursive(entries@, cli, all.take(0)));
    assert(map@ =~= step_pairs(entries@, all.take(0)));
    assert(source_views(sources@) =~= step_sources(entries@, cli, all.take(0)));
    while i < steps.len()
        invariant
            i <= steps@.len(),
            all == step_views(steps@),
            cli == str_opt(cli_source),
            forall|k: int| 0 <= k < steps@.len() ==> (#[trigger] steps@[k]).1 < entries@.len(),
            texts(paths@) == unique(step_paths(entries@, all.take(i as int))),
            recursive_views(recursive@) == step_recursive(entries@, cli, all.take(i as int)),
            map@ == step_pairs(entries@, all.take(i as int)),
            sources.wf(),
            source_views(sources@) == step_sources(entries@, cli, all.take(i as int)),
        decreases steps@.len() - i,
    {
        let place: usize = steps[i].1;
        let host = &steps[i].0;
        let e = &entries[place];
        let source = source_for(cli_source, e);
        let ghost t0 = all.take(i as int);
        let ghost t1 = all.take(i + 1);
        let ghost m0 = map@;
        proof {
            assert(t1.drop_last() =~= t0);
            assert(t1.last() == (host@, place as int));
        }
        if e.recursive {
            add_recursive(&mut recursive, host.as_str(), place, source);
        } else {
            proof {
                unique_append(step_paths(entries@, t0), texts(e.paths@));
            }
            push_all_new(&mut paths, e.paths.as_slice());
            allow_all(&mut map, host.as_str(), e.paths.as_slice());
            add_source(&mut sources, e.paths.as_slice(), &source);
        }
        proof {
            assert forall|x: (Seq<char>, Seq<char>)| #[trigger]
                map@.contains(x) <==> step_pairs(entries@, t1).contains(x) by {
                assert(m0.contains(x) == step_pairs(entries@, t0).contains(x));
                if step_pairs(entries@, t0).contains(x) {
                    let k = choose|k: int|
                        0 <= k < t0.len() && (#[trigger] t0[k]).0 == x.0
                            && !entries@[t0[k].1].recursive && texts(
                            entries@[t0[k].1].paths@,
                        ).contains(x.1);
                    assert(t1[k] == t0[k]);
                }
                if !e.recursive && x.0 == host@ && texts(e.paths@).contains(x.1) {
                    assert(t1[i as int].0 == x.0);
                }
                if step_pairs(entries@, t1).contains(x) {
                    let k = choose|k: int|
                        0 <= k < t1.len() && (#[trigger] t1[k]).0 == x.0
                            && !entries@[t1[k].1].recursive && texts(
                            entries@[t1[k].1].paths@,
                        ).contains(x.1);
                    if k < i {
                        assert(t0[k] == t1[k]);
                    }
                }
            }
            assert(map@ =~= step_pairs(entries@, t1));
        }
        i += 1;
    }
    assert(all.take(i as int) =~= all);
    SyncPaths { paths, recursive, host_paths: Some(map), sources }
}

/// The places with no host beside them.
pub open spec fn bare_steps(list: Seq<int>) -> Seq<(Seq<char>, int)> {
    pair_with(Seq::empty(), list)
}

fn flat_paths(
    entries: &[SyncEntry],
    list: &[usize],
    hosts: &[&HostEntry],
    cli_source: Option<&str>,
) -> (r: SyncPaths)
    requires
        forall|i: int| 0 <= i < list@.len() ==> (#[trigger] list@[i]) < entries@.len(),
    ensures
        texts(r.paths@) == unique(step_paths(entries@, bare_steps(places(list@)))),
        recursive_views(r.recursive@) == flat_recursive(
            entries@,
            str_opt(cli_source),
            places(list@),
            unique(ref_names(hosts@)),
        ),
        r.host_paths is None,
        r.sources.wf(),
        source_views(r.sources@) == step_sources(
            entries@,
            str_opt(cli_source),
            bare_steps(places(list@)),
        ),
{
    let ghost cli = str_opt(cli_source);
    let ghost all = bare_steps(places(list@));
    let ghost ls = places(list@);
    let mut names: Vec<String> = Vec::new();
    let mut k: usize = 0;
    assert(texts(names@) =~= unique(ref_names(hosts@).take(0)));
    while k < hosts.len()
        invariant
            k <= hosts@.len(),
            texts(names@) == unique(ref_names(hosts@).take(k as int)),
        decreases hosts@.len() - k,
    {
        push_new(&mut names, hosts[k].name.as_str());
        assert(ref_names(hosts@).take(k + 1).drop_last() =~= ref_names(hosts@).take(k as int));
        k += 1;
    }
    assert(ref_names(hosts@).take(k as int) =~= ref_names(hosts@));
    let mut paths: Vec<String> = Vec::new();
    let mut recursive: Vec<RecursiveEntry> = Vec::new();
    let mut sources: PathSourceMap = TextMap::new();
    let mut i: usize = 0;
    assert(texts(paths@) =~= unique(step_paths(entries@, all.take(0))));
    assert(recursive_views(recursive@) =~= flat_recursive(
        entries@,
        cli,
        ls.take(0),
        texts(names@),
    ));
    assert(source_views(sources@) =~= step_sources(entries@, cli, all.take(0)));
    while i < list.len()
        invariant
            i <= list@.len(),
            all == bare_steps(places(list@)),
            ls == places(list@),
            cli == str_opt(cli_source),
            forall|k: int| 0 <= k < list@.len() ==> (#[trigger] list@[k]) < entries@.len(),
            texts(paths@) == unique(step_paths(entries@, all.take(i as int))),
            recursive_views(recursive@) == flat_recursive(
                entries@,
                cli,
                ls.take(i as int),
                texts(names@),
            ),
            sources.wf(),
            source_views(sources@) == step_sources(entries@, cli, all.take(i as int)),
        decreases list@.len() - i,
    {
        let place: usize = list[i];
        let e = &entries[place];
        let source = source_for(cli_source, e);
        let ghost t0 = all.take(i as int);
        let ghost t1 = all.take(i + 1);
        proof {
            assert(t1.drop_last() =~= t0);
            assert(t1.last().1 == place as int);
            assert(ls.take(i + 1).drop_last() =~= ls.take(i as int));
            assert(ls.take(i + 1).last() == place as int);
        }
        if e.recursive {
            let ghost was = recursive_views(recursive@);
            let entry = RecursiveEntry { entry: place, hosts: copy_all(names.as_slice()), source };
            recursive.push(entry);
            assert(recursive_views(recursive@) =~= was.push(entry@));
        } else {
            proof {
                unique_append(step_paths(entries@, t0), texts(e.paths@));
            }
            push_all_new(&mut paths, e.paths.as_slice());
            add_source(&mut sources, e.paths.as_slice(), &source);
        }
        i += 1;
    }
    assert(all.take(i as int) =~= all);
    assert(ls.take(i as int) =~= ls);
    SyncPaths { paths, recursive, host_paths: None, sources }
}

/// Whether some work is what applies to the targets. With groups as targets a
/// path applies only to the hosts whose groups bring it in; otherwise all paths
/// apply to all hosts.
pub open spec fn is_scoped_work(
    r: SyncPaths,
    entries: Seq<SyncEntry>,
    mode: TargetView,
    hosts: Seq<&HostEntry>,
    cli: Option<Seq<char>>,
) -> bool {
    &&& r.sources.wf()
    &&& match mode {
        TargetView::Groups(groups) => {
            let steps = group_steps(entries, pointees(hosts), groups);
            &&& texts(r.paths@) == unique(step_paths(entries, steps))
            &&& recursive_views(r.recursive@) == step_recursive(entries, cli, steps)
            &&& r.host_paths matches Some(m) && m@ == step_pairs(entries, steps)
            &&& source_views(r.sources@) == step_sources(entries, cli, steps)
        },
        _ => {
            let list = applying(entries, mode);
            &&& texts(r.paths@) == unique(step_paths(entries, bare_steps(list)))
            &&& recursive_views(r.recursive@) == flat_recursive(
                entries,
                cli,
                list,
                unique(ref_names(hosts)),
            )
            &&& r.host_paths is None
            &&& source_views(r.sources@) == step_sources(entries, cli, bare_steps(list))
        },
    }
}

/// The paths that apply to the targets.
pub fn collect_sync_paths_scoped(
    ctx: &Context,
    hosts: &[&HostEntry],
    cli_source: Option<&str>,
) -> (r: SyncPaths)
    ensures
        is_scoped_work(
            r,
            ctx.config.sync@,
            ctx.mode@,
            hosts@,
            str_opt(cli_source),
        ),
{
    match &ctx.mode {
        TargetMode::Groups(groups) => {
            let steps = find_group_steps(ctx.config.sync.as_slice(), hosts, groups.as_slice());
            paths_from_steps(ctx.config.sync.as_slice(), steps.as_slice(), cli_source)
        },
        _ => {
            let list = find_applying(ctx);
            flat_paths(ctx.config.sync.as_slice(), list.as_slice(), hosts, cli_source)
        },
    }
}

// ---------------------------------------------------------------------------
// Narrowing reports to the hosts a path applies to
// ---------------------------------------------------------------------------

/// Whether a path applies to a host.
pub open spec fn in_scope(
    map: Option<HostPathMap>,
    host: Seq<char>,
    path: Seq<char>,
) -> bool {
    match map {
        Some(m) => m@.contains((host, path)),
        None => true,
    }
}

/// The hosts of a list that a path applies to.
pub open spec fn hosts_in_scope(
    map: Option<HostPathMap>,
    hosts: Seq<Seq<char>>,
    path: Seq<char>,
) -> Seq<Seq<char>> {
    hosts.filter(|h: Seq<char>| in_scope(map, h, path))
}

fn scoped(map: &Option<HostPathMap>, host: &str, path: &str) -> (r: bool)
    ensures
        r == in_scope(*map, host@, path@),
{
    match map {
        Some(m) => m.allows(host, path),
        None => true,
    }
}

/// The reports on a path from the hosts it applies to.
pub fn scope_collect_result(
    collect: &CollectResult,
    path: &str,
    host_applicable_paths: &Option<HostPathMap>,
) -> (r: (Vec<FileInfo>, Vec<String>))
    ensures
        r.0@ == collect.found@.filter(
            |f: FileInfo| in_scope(*host_applicable_paths, f.host@, path@),
        ),
        texts(r.1@) == hosts_in_scope(*host_applicable_paths, texts(collect.missing@), path@),
{
    let ghost p = |f: FileInfo| in_scope(*host_applicable_paths, f.host@, path@);
    let ghost q = |h: Seq<char>| in_scope(*host_applicable_paths, h, path@);
    let ghost all = texts(collect.missing@);
    let mut found: Vec<FileInfo> = Vec::new();
    let mut i: usize = 0;
    proof {
        filter_none(collect.found@, p);
    }
    while i < collect.found.len()
        invariant
            i <= collect.found@.len(),
            p == (|f: FileInfo| in_scope(*host_applicable_paths, f.host@, path@)),
            found@ == collect.found@.take(i as int).filter(p),
        decreases collect.found@.len() - i,
    {
        proof {
            filter_next(collect.found@, p, i as int);
        }
        if scoped(host_applicable_paths, collect.found[i].host.as_str(), path) {
            found.push(collect.found[i].copy());
        }
        i += 1;
    }
    assert(collect.found@.take(i as int) =~= collect.found@);
    let mut missing: Vec<String> = Vec::new();
    let mut j: usize = 0;
    proof {
        filter_none(all, q);
        assert(texts(missing@) =~= Seq::empty());
    }
    while j < collect.missing.len()
        invariant
            j <= collect.missing@.len(),
            all == texts(collect.missing@),
            q == (|h: Seq<char>| in_scope(*host_applicable_paths, h, path@)),
            texts(missing@) == all.take(j as int).filter(q),
        decreases collect.missing@.len() - j,
    {
        proof {
            filter_next(all, q, j as int);
        }
        if scoped(host_applicable_paths, collect.missing[j].as_str(), path) {
            missing.push(copy(collect.missing[j].as_str()));
        }
        j += 1;
    }
    assert(all.take(j as int) =~= all);
    (found, missing)
}

// ---------------------------------------------------------------------------
// Directories of fixed sources
// ---------------------------------------------------------------------------

/// The fixed source of a path, if it has one.
pub open spec fn fixed_source(
    sources: Map<Seq<char>, Option<Seq<char>>>,
    path: Seq<char>,
) -> Option<Seq<char>> {
    if sources.dom().contains(path) {
        sources[path]
    } else {
        None
    }
}

/// The fixed source of a path, if it has one.
pub fn source_of(sources: &PathSourceMap, path: &str) -> (r: Option<String>)
    requires
        sources.wf(),
    ensures
        text_opt(r) == fixed_source(source_views(sources@), path@),
{
    match sources.get(path) {
        Some(s) => copy_opt(s),
        None => None,
    }
}

/// The fixed sources of some paths, each once, in the order of the paths.
pub open spec fn fixed_sources(
    sources: Map<Seq<char>, Option<Seq<char>>>,
    paths: Seq<Seq<char>>,
) -> Seq<Seq<char>>
    decreases paths.len(),
{
    if paths.len() == 0 {
        Seq::empty()
    } else {
        let rest = fixed_sources(sources, paths.drop_last());
        match fixed_source(sources, paths.last()) {
            Some(s) => with_new(rest, s),
            None => rest,
        }
    }
}

/// The paths with a given fixed source.
pub open spec fn paths_of_source(
    sources: Map<Seq<char>, Option<Seq<char>>>,
    paths: Seq<Seq<char>>,
    source: Seq<char>,
) -> Seq<Seq<char>> {
    paths.filter(|p: Seq<char>| fixed_source(sources, p) == Some(source))
}

/// The fixed sources of some paths, each once.
pub fn list_sources(sources: &PathSourceMap, paths: &[String]) -> (r: Vec<String>)
    requires
        sources.wf(),
    ensures
        texts(r@) == fixed_sources(source_views(sources@), texts(paths@)),
{
    let ghost ps = texts(paths@);
    let mut out: Vec<String> = Vec::new();
    let mut i: usize = 0;
    assert(texts(out@) =~= fixed_sources(source_views(sources@), ps.take(0)));
    while i < paths.len()
        invariant
            i <= paths@.len(),
            sources.wf(),
            ps == texts(paths@),
            texts(out@) == fixed_sources(source_views(sources@), ps.take(i as int)),
        decreases paths@.len() - i,
    {
        assert(ps.take(i + 1).drop_last() =~= ps.take(i as int));
        assert(ps.take(i + 1).last() == paths@[i as int]@);
        if let Some(s) = source_of(sources, paths[i].as_str()) {
            push_new(&mut out, s.as_str());
        }
        i += 1;
    }
    assert(ps.take(i as int) =~= ps);
    out
}

/// The paths with a given fixed source.
pub fn list_paths_of_source(sources: &PathSourceMap, paths: &[String], source: &str) -> (r: Vec<
    String,
>)
    requires
        sources.wf(),
    ensures
        texts(r@) == paths_of_source(source_views(sources@), texts(paths@), source@),
{
    let ghost ps = texts(paths@);
    let ghost q = |p: Seq<char>| fixed_source(source_views(sources@), p) == Some(source@);
    let mut out: Vec<String> = Vec::new();
    let mut i: usize = 0;
    proof {
        filter_none(ps, q);
        assert(texts(out@) =~= Seq::empty());
    }
    while i < paths.len()
        invariant
            i <= paths@.len(),
            sources.wf(),
            ps == texts(paths@),
            q == (|p: Seq<char>| fixed_source(source_views(sources@), p) == Some(source@)),
            texts(out@) == ps.take(i as int).filter(q),
        decreases paths@.len() - i,
    {
        proof {
            filter_next(ps, q, i as int);
        }
        if let Some(s) = source_of(sources, paths[i].as_str()) {
            if same(s.as_str(), source) {
                out.push(copy(paths[i].as_str()));
            }
        }
        i += 1;
    }
    assert(ps.take(i as int) =~= ps);
    out
}

/// The files of a path that is a directory.
pub open spec fn files_in(m: Map<Seq<char>, ExpandView>, path: Seq<char>) -> Option<
    Seq<Seq<char>>,
> {
    if m.dom().contains(path) {
        match m[path] {
            ExpandView::Directory(files) => Some(files),
            _ => None,
        }
    } else {
        None
    }
}

/// Paths in which each directory is replaced by its files; a file that stands
/// in the list already is not added again.
pub open spec fn expanded_paths(m: Map<Seq<char>, ExpandView>, paths: Seq<Seq<char>>) -> Seq<
    Seq<char>,
>
    decreases paths.len(),
{
    if paths.len() == 0 {
        Seq::empty()
    } else {
        let rest = expanded_paths(m, paths.drop_last());
        match files_in(m, paths.last()) {
            Some(files) => with_all_new(rest, files),
            None => rest.push(paths.last()),
        }
    }
}

/// Files of a list that another list does not hold.
pub open spec fn files_not_in(list: Seq<Seq<char>>, files: Seq<Seq<char>>) -> Seq<Seq<char>> {
    files.filter(|f: Seq<char>| !list.contains(f))
}

/// The sources after each directory has been replaced by its files: a file that
/// is new to the list takes the directory's source unless it has one already.
pub open spec fn expanded_sources(
    m: Map<Seq<char>, ExpandView>,
    paths: Seq<Seq<char>>,
    sources: Map<Seq<char>, Option<Seq<char>>>,
) -> Map<Seq<char>, Option<Seq<char>>>
    decreases paths.len(),
{
    if paths.len() == 0 {
        sources
    } else {
        let rest = expanded_sources(m, paths.drop_last(), sources);
        match files_in(m, paths.last()) {
            Some(files) => with_source(
                rest,
                files_not_in(expanded_paths(m, paths.drop_last()), files),
                fixed_source(rest, paths.last()),
            ),
            None => rest,
        }
    }
}

/// The pairs of host and path after a directory has been replaced by its files.
pub open spec fn replaced_dir(
    pairs: Set<(Seq<char>, Seq<char>)>,
    dir: Seq<char>,
    files: Seq<Seq<char>>,
) -> Set<(Seq<char>, Seq<char>)> {
    Set::new(
        |x: (Seq<char>, Seq<char>)|
            (pairs.contains(x) && x.1 != dir) || (pairs.contains((x.0, dir)) && files.contains(
                x.1,
            )),
    )
}

/// The pairs of host and path after each directory has been replaced.
pub open spec fn expanded_pairs(
    m: Map<Seq<char>, ExpandView>,
    paths: Seq<Seq<char>>,
    pairs: Set<(Seq<char>, Seq<char>)>,
) -> Set<(Seq<char>, Seq<char>)>
    decreases paths.len(),
{
    if paths.len() == 0 {
        pairs
    } else {
        let rest = expanded_pairs(m, paths.drop_last(), pairs);
        match files_in(m, paths.last()) {
            Some(files) => replaced_dir(rest, paths.last(), files),
            None => rest,
        }
    }
}

/// The paths that turned out to be empty directories.
pub open spec fn empty_dirs(m: Map<Seq<char>, ExpandView>, paths: Seq<Seq<char>>) -> Seq<
    Seq<char>,
> {
    paths.filter(|p: Seq<char>| files_in(m, p) == Some(Seq::<Seq<char>>::empty()))
}

fn files_not_listed(list: &[String], files: &[String]) -> (r: Vec<String>)
    ensures
        texts(r@) == files_not_in(texts(list@), texts(files@)),
{
    let ghost fs = texts(files@);
    let ghost q = |f: Seq<char>| !texts(list@).contains(f);
    let mut out: Vec<String> = Vec::new();
    let mut i: usize = 0;
    proof {
        filter_none(fs, q);
        assert(texts(out@) =~= Seq::empty());
    }
    while i < files.len()
        invariant
            i <= files@.len(),
            fs == texts(files@),
            q == (|f: Seq<char>| !texts(list@).contains(f)),
            texts(out@) == fs.take(i as int).filter(q),
        decreases files@.len() - i,
    {
        proof {
            filter_next(fs, q, i as int);
        }
        if !listed(list, files[i].as_str()) {
            out.push(copy(files[i].as_str()));
        }
        i += 1;
    }
    assert(fs.take(i as int) =~= fs);
    out
}

fn replace_dir(map: HostPathMap, dir: &str, files: &[String]) -> (r: HostPathMap)
    ensures
        r@ == replaced_dir(map@, dir@, texts(files@)),
{
    let mut out = HostPathMap { pairs: Vec::new() };
    let ghost fs = texts(files@);
    let mut i: usize = 0;
    while i < map.pairs.len()
        invariant
            i <= map.pairs@.len(),
            fs == texts(files@),
            forall|x: (Seq<char>, Seq<char>)| #[trigger]
                out@.contains(x) <==> exists|k: int|
                    0 <= k < i && (#[trigger] map.pairs@[k]).0@ == x.0 && (if map.pairs@[k].1@
                        == dir@ {
                        fs.contains(x.1)
                    } else {
                        map.pairs@[k].1@ == x.1
                    }),
        decreases map.pairs@.len() - i,
    {
        let ghost before = out@;
        if same(map.pairs[i].1.as_str(), dir) {
            allow_all(&mut out, map.pairs[i].0.as_str(), files);
        } else {
            out.allow(map.pairs[i].0.as_str(), map.pairs[i].1.as_str());
        }
        proof {
            assert forall|x: (Seq<char>, Seq<char>)| #[trigger]
                out@.contains(x) <==> exists|k: int|
                    0 <= k < i + 1 && (#[trigger] map.pairs@[k]).0@ == x.0 && (if map.pairs@[k].1@
                        == dir@ {
                        fs.contains(x.1)
                    } else {
                        map.pairs@[k].1@ == x.1
                    }) by {
                if before.contains(x) {
                    let k = choose|k: int|
                        0 <= k < i && (#[trigger] map.pairs@[k]).0@ == x.0 && (if map.pairs@[k].1@
                            == dir@ {
                            fs.contains(x.1)
                        } else {
                            map.pairs@[k].1@ == x.1
                        });
                    assert(0 <= k < i + 1);
                }
                if out@.contains(x) && !before.contains(x) {
                    assert(map.pairs@[i as int].0@ == x.0);
                }
            }
        }
        i += 1;
    }
    proof {
        assert forall|x: (Seq<char>, Seq<char>)| #[trigger]
            out@.contains(x) <==> replaced_dir(map@, dir@, fs).contains(x) by {
            if out@.contains(x) {
                let k = choose|k: int|
                    0 <= k < map.pairs@.len() && (#[trigger] map.pairs@[k]).0@ == x.0 && (
                    if map.pairs@[k].1@ == dir@ {
                        fs.contains(x.1)
                    } else {
                        map.pairs@[k].1@ == x.1
                    });
                assert(map@.contains((x.0, map.pairs@[k].1@)));
            }
            if map@.contains(x) && x.1 != dir@ {
                let k = choose|k: int|
                    0 <= k < map.pairs@.len() && (#[trigger] map.pairs@[k]).0@ == x.0
                        && map.pairs@[k].1@ == x.1;
                assert(map.pairs@[k].1@ != dir@);
            }
            if map@.contains((x.0, dir@)) && fs.contains(x.1) {
                let k = choose|k: int|
                    0 <= k < map.pairs@.len() && (#[trigger] map.pairs@[k]).0@ == x.0
                        && map.pairs@[k].1@ == dir@;
                assert(map.pairs@[k].1@ == dir@);
            }
        }
        assert(out@ =~= replaced_dir(map@, dir@, fs));
    }
    out
}

/// Whether a path is a directory, and its files.
fn find_files<'a>(m: &'a TextMap<DirExpandResult>, path: &str) -> (r: Option<&'a Vec<String>>)
    requires
        m.wf(),
    ensures
        (match r {
            Some(files) => Some(texts(files@)),
            None => None,
        }) == files_in(crate::commands::sync::remote::expand_views(m@), path@),
{
    match m.get(path) {
        Some(DirExpandResult::Directory(files)) => Some(files),
        _ => None,
    }
}

/// The pairs of host and path, if paths are narrowed to hosts.
pub open spec fn pairs_of(map: Option<HostPathMap>) -> Option<Set<(Seq<char>, Seq<char>)>> {
    match map {
        Some(m) => Some(m@),
        None => None,
    }
}

/// Replaces each directory of a fixed source by its files, in the list of
/// paths, in the sources and in the pairs of host and path. The empty
/// directories come back.
pub fn expand_paths(work: SyncPaths, expansions: &TextMap<DirExpandResult>) -> (r: (
    SyncPaths,
    Vec<String>,
))
    requires
        work.sources.wf(),
        expansions.wf(),
    ensures
        ({
            let m = crate::commands::sync::remote::expand_views(expansions@);
            let ps = texts(work.paths@);
            &&& texts(r.0.paths@) == expanded_paths(m, ps)
            &&& r.0.sources.wf()
            &&& source_views(r.0.sources@) == expanded_sources(
                m,
                ps,
                source_views(work.sources@),
            )
            &&& pairs_of(r.0.host_paths) == (match work.host_paths {
                Some(map) => Some(expanded_pairs(m, ps, map@)),
                None => None,
            })
            &&& r.0.recursive == work.recursive
            &&& texts(r.1@) == empty_dirs(m, ps)
        }),
{
    let SyncPaths { paths, recursive, host_paths, sources } = work;
    let ghost m = crate::commands::sync::remote::expand_views(expansions@);
    let ghost ps = texts(paths@);
    let ghost s0 = source_views(sources@);
    let ghost pairs0 = pairs_of(host_paths);
    let ghost q = |p: Seq<char>| files_in(m, p) == Some(Seq::<Seq<char>>::empty());
    let mut map = host_paths;
    let mut srcs = sources;
    let mut new_paths: Vec<String> = Vec::new();
    let mut empty: Vec<String> = Vec::new();
    let mut i: usize = 0;
    proof {
        filter_none(ps, q);
        assert(texts(empty@) =~= Seq::empty());
        assert(texts(new_paths@) =~= expanded_paths(m, ps.take(0)));
    }
    while i < paths.len()
        invariant
            i <= paths@.len(),
            expansions.wf(),
            m == crate::commands::sync::remote::expand_views(expansions@),
            ps == texts(paths@),
            q == (|p: Seq<char>| files_in(m, p) == Some(Seq::<Seq<char>>::empty())),
            texts(new_paths@) == expanded_paths(m, ps.take(i as int)),
            srcs.wf(),
            source_views(srcs@) == expanded_sources(m, ps.take(i as int), s0),
            pairs_of(map) == (match pairs0 {
                Some(s) => Some(expanded_pairs(m, ps.take(i as int), s)),
                None => None,
            }),
            texts(empty@) == ps.take(i as int).filter(q),
        decreases paths@.len() - i,
    {
        let path = paths[i].as_str();
        proof {
            assert(ps.take(i + 1).drop_last() =~= ps.take(i as int));
            assert(ps.take(i + 1).last() == path@);
            filter_next(ps, q, i as int);
        }
        match find_files(expansions, path) {
            Some(files) => {
                let source = source_of(&srcs, path);
                let fresh = files_not_listed(new_paths.as_slice(), files.as_slice());
                push_all_new(&mut new_paths, files.as_slice());
                add_source(&mut srcs, fresh.as_slice(), &source);
                map = match map {
                    Some(old_map) => Some(replace_dir(old_map, path, files.as_slice())),
                    None => None,
                };
                if files.len() == 0 {
                    assert(texts(files@) =~= Seq::empty());
                    empty.push(copy(path));
                } else {
                    assert(texts(files@).len() > 0);
                }
            },
            None => {
                new_paths.push(copy(path));
            },
        }
        i += 1;
    }
    assert(ps.take(i as int) =~= ps);
    (SyncPaths { paths: new_paths, recursive, host_paths: map, sources: srcs }, empty)
}

/// The paths of a recursive entry with each directory replaced by its files;
/// what is no directory, or of unknown kind, stays.
pub open spec fn expanded_entry(m: Map<Seq<char>, ExpandView>, paths: Seq<Seq<char>>) -> Seq<
    Seq<char>,
>
    decreases paths.len(),
{
    if paths.len() == 0 {
        Seq::empty()
    } else {
        let rest = expanded_entry(m, paths.drop_last());
        match files_in(m, paths.last()) {
            Some(files) => rest + files,
            None => rest.push(paths.last()),
        }
    }
}

/// Replaces each directory of a recursive entry by its files. The empty
/// directories come back beside the paths.
pub fn expand_entry(paths: &[String], expansions: &TextMap<DirExpandResult>) -> (r: (
    Vec<String>,
    Vec<String>,
))
    requires
        expansions.wf(),
    ensures
        texts(r.0@) == expanded_entry(
            crate::commands::sync::remote::expand_views(expansions@),
            texts(paths@),
        ),
        texts(r.1@) == empty_dirs(
            crate::commands::sync::remote::expand_views(expansions@),
            texts(paths@),
        ),
{
    let ghost m = crate::commands::sync::remote::expand_views(expansions@);
    let ghost ps = texts(paths@);
    let ghost q = |p: Seq<char>| files_in(m, p) == Some(Seq::<Seq<char>>::empty());
    let mut out: Vec<String> = Vec::new();
    let mut empty: Vec<String> = Vec::new();
    let mut i: usize = 0;
    proof {
        filter_none(ps, q);
        assert(texts(empty@) =~= Seq::empty());
        assert(texts(out@) =~= expanded_entry(m, ps.take(0)));
    }
    while i < paths.len()
        invariant
            i <= paths@.len(),
            expansions.wf(),
            m == crate::commands::sync::remote::expand_views(expansions@),
            ps == texts(paths@),
            q == (|p: Seq<char>| files_in(m, p) == Some(Seq::<Seq<char>>::empty())),
            texts(out@) == expanded_entry(m, ps.take(i as int)),
            texts(empty@) == ps.take(i as int).filter(q),
        decreases paths@.len() - i,
    {
        let path = paths[i].as_str();
        proof {
            assert(ps.take(i + 1).drop_last() =~= ps.take(i as int));
            assert(ps.take(i + 1).last() == path@);
            filter_next(ps, q, i as int);
        }
        match find_files(expansions, path) {
            Some(files) => {
                crate::output::summary::push_lines(&mut out, copy_all(files.as_slice()));
                if files.len() == 0 {
                    assert(texts(files@) =~= Seq::empty());
                    empty.push(copy(path));
                } else {
                    assert(texts(files@).len() > 0);
                }
            },
            None => {
                out.push(copy(path));
            },
        }
        i += 1;
    }
    assert(ps.take(i as int) =~= ps);
    (out, empty)
}

// ---------------------------------------------------------------------------
// Laws
// ---------------------------------------------------------------------------

/// With groups as targets, a path that applies to a host is one of the paths of
/// the sync, and it has an entry among the sources.
pub proof fn scoped_paths_are_paths(
    entries: Seq<SyncEntry>,
    cli: Option<Seq<char>>,
    steps: Seq<(Seq<char>, int)>,
    host: Seq<char>,
    path: Seq<char>,
)
    requires
        step_pairs(entries, steps).contains((host, path)),
    ensures
        unique(step_paths(entries, steps)).contains(path),
        step_sources(entries, cli, steps).dom().contains(path),
    decreases steps.len(),
{
    let k = choose|k: int|
        0 <= k < steps.len() && (#[trigger] steps[k]).0 == host && !entries[steps[k].1].recursive
            && texts(entries[steps[k].1].paths@).contains(path);
    step_holds_path(entries, cli, steps, k, path);
    with_all_new_facts(Seq::empty(), step_paths(entries, steps));
}

proof fn step_holds_path(
    entries: Seq<SyncEntry>,
    cli: Option<Seq<char>>,
    steps: Seq<(Seq<char>, int)>,
    k: int,
    path: Seq<char>,
)
    requires
        0 <= k < steps.len(),
        !entries[steps[k].1].recursive,
        texts(entries[steps[k].1].paths@).contains(path),
    ensures
        step_paths(entries, steps).contains(path),
        step_sources(entries, cli, steps).dom().contains(path),
    decreases steps.len(),
{
    let rest = steps.drop_last();
    let all = step_paths(entries, steps);
    let before = step_paths(entries, rest);
    if k < rest.len() {
        assert(rest[k] == steps[k]);
        step_holds_path(entries, cli, rest, k, path);
        let i = before.index_of(path);
        assert(all[i] == path);
    } else {
        let here = texts(entries[steps[k].1].paths@);
        let i = here.index_of(path);
        assert(all[before.len() + i] == path);
    }
}

/// No path stands twice in the list of paths of a sync.
pub proof fn paths_are_distinct(entries: Seq<SyncEntry>, steps: Seq<(Seq<char>, int)>)
    ensures
        unique(step_paths(entries, steps)).no_duplicates(),
{
    with_all_new_facts(Seq::empty(), step_paths(entries, steps));
}

proof fn entries_of_group_hold(entries: Seq<SyncEntry>, group: Seq<char>, c: int)
    ensures
        entries_of_group(entries, group).contains(c) <==> 0 <= c < entries.len() && texts(
            entries[c].groups@,
        ).contains(group),
    decreases entries.len(),
{
    if entries.len() > 0 {
        let rest = entries.drop_last();
        let n = entries.len() - 1;
        entries_of_group_hold(rest, group, c);
        let before = entries_of_group(rest, group);
        let all = entries_of_group(entries, group);
        if 0 <= c < n {
            assert(rest[c] == entries[c]);
        }
        if texts(entries.last().groups@).contains(group) {
            assert(all == before.push(n));
            assert(all[before.len() as int] == n);
            if before.contains(c) {
                assert(all[before.index_of(c)] == c);
            }
            if all.contains(c) && c != n {
                assert(before[all.index_of(c)] == c);
            }
        }
    }
}

proof fn entries_of_host_hold(
    entries: Seq<SyncEntry>,
    own: Seq<Seq<char>>,
    groups: Seq<Seq<char>>,
    c: int,
)
    ensures
        entries_of_host(entries, own, groups).contains(c) <==> 0 <= c < entries.len() && exists|
            g: Seq<char>,
        | #[trigger]
            own.contains(g) && groups.contains(g) && texts(entries[c].groups@).contains(g),
        entries_of_host(entries, own, groups).no_duplicates(),
    decreases own.len(),
{
    if own.len() > 0 {
        let rest = own.drop_last();
        let last = own.last();
        entries_of_host_hold(entries, rest, groups, c);
        entries_of_group_hold(entries, last, c);
        with_all_new_facts(
            entries_of_host(entries, rest, groups),
            entries_of_group(entries, last),
        );
        assert(own[own.len() - 1] == last);
        assert(own.contains(last));
        assert forall|g: Seq<char>| #[trigger] own.contains(g) <==> rest.contains(g)
            || g == last by {
            if rest.contains(g) {
                assert(own[rest.index_of(g)] == g);
            }
            if own.contains(g) && g != last {
                assert(rest[own.index_of(g)] == g);
            }
        }
        if exists|g: Seq<char>| #[trigger]
            rest.contains(g) && groups.contains(g) && texts(entries[c].groups@).contains(g) {
            let g = choose|g: Seq<char>| #[trigger]
                rest.contains(g) && groups.contains(g) && texts(entries[c].groups@).contains(g);
            assert(own.contains(g));
        }
        if exists|g: Seq<char>| #[trigger]
            own.contains(g) && groups.contains(g) && texts(entries[c].groups@).contains(g) {
            let g = choose|g: Seq<char>| #[trigger]
                own.contains(g) && groups.contains(g) && texts(entries[c].groups@).contains(g);
            assert(rest.contains(g) || g == last);
        }
    }
}

/// Aimed at groups, an entry applies to a host exactly where some group is at once one of
/// the host's, one of the targeted ones and one of the entry's.
pub proof fn groups_decide_which_entries_apply(
    entries: Seq<SyncEntry>,
    hosts: Seq<HostEntry>,
    groups: Seq<Seq<char>>,
    host: Seq<char>,
    c: int,
)
    ensures
        group_steps(entries, hosts, groups).contains((host, c)) <==> 0 <= c < entries.len()
            && exists|k: int, g: Seq<char>|
            0 <= k < hosts.len() && hosts[k].name@ == host && #[trigger] texts(
                hosts[k].groups@,
            ).contains(g) && groups.contains(g) && texts(entries[c].groups@).contains(g),
    decreases hosts.len(),
{
    if hosts.len() > 0 {
        let rest = hosts.drop_last();
        let last = hosts.last();
        let n = hosts.len() - 1;
        let own = texts(last.groups@);
        groups_decide_which_entries_apply(entries, rest, groups, host, c);
        entries_of_host_hold(entries, own, groups, c);
        let before = group_steps(entries, rest, groups);
        let list = entries_of_host(entries, own, groups);
        let more = pair_with(last.name@, list);
        let all = group_steps(entries, hosts, groups);
        let x = (host, c);
        assert(all == before + more);
        assert(hosts[n] == last);
        if before.contains(x) {
            assert(all[before.index_of(x)] == x);
            let (k, g) = choose|k: int, g: Seq<char>|
                0 <= k < rest.len() && rest[k].name@ == host && #[trigger] texts(
                    rest[k].groups@,
                ).contains(g) && groups.contains(g) && texts(entries[c].groups@).contains(g);
            assert(texts(hosts[k].groups@).contains(g));
        }
        if last.name@ == host && list.contains(c) {
            let i = list.index_of(c);
            assert(more[i] == x);
            assert(all[before.len() + i] == x);
            let g = choose|g: Seq<char>| #[trigger]
                own.contains(g) && groups.contains(g) && texts(entries[c].groups@).contains(g);
            assert(texts(hosts[n].groups@).contains(g));
        }
        if all.contains(x) {
            let i = all.index_of(x);
            if i < before.len() {
                assert(before[i] == x);
            } else {
                assert(more[i - before.len()] == x);
                assert(list[i - before.len()] == c);
            }
        }
        if 0 <= c < entries.len() && exists|k: int, g: Seq<char>|
            0 <= k < hosts.len() && hosts[k].name@ == host && #[trigger] texts(
                hosts[k].groups@,
            ).contains(g) && groups.contains(g) && texts(entries[c].groups@).contains(g) {
            let (k, g) = choose|k: int, g: Seq<char>|
                0 <= k < hosts.len() && hosts[k].name@ == host && #[trigger] texts(
                    hosts[k].groups@,
                ).contains(g) && groups.contains(g) && texts(entries[c].groups@).contains(g);
            if k < n {
                assert(texts(rest[k].groups@).contains(g));
            } else {
                assert(own.contains(g));
            }
        }
    }
}

/// Aimed at groups, a path is synced on a host exactly where some entry that is not
/// recursive lists it and some group is at once one of the host's, one of the targeted
/// ones and one of the entry's.
pub proof fn groups_decide_which_paths_apply(
    entries: Seq<SyncEntry>,
    hosts: Seq<HostEntry>,
    groups: Seq<Seq<char>>,
    host: Seq<char>,
    path: Seq<char>,
)
    ensures
        step_pairs(entries, group_steps(entries, hosts, groups)).contains((host, path)) <==> exists|
            c: int,
            k: int,
            g: Seq<char>,
        |
            0 <= c < entries.len() && 0 <= k < hosts.len() && !entries[c].recursive && texts(
                entries[c].paths@,
            ).contains(path) && hosts[k].name@ == host && #[trigger] texts(
                hosts[k].groups@,
            ).contains(g) && groups.contains(g) && #[trigger] texts(entries[c].groups@).contains(g),
{
    let steps = group_steps(entries, hosts, groups);
    if step_pairs(entries, steps).contains((host, path)) {
        let i = choose|i: int|
            0 <= i < steps.len() && (#[trigger] steps[i]).0 == host
                && !entries[steps[i].1].recursive && texts(entries[steps[i].1].paths@).contains(
                path,
            );
        let c = steps[i].1;
        assert(steps.contains((host, c)));
        groups_decide_which_entries_apply(entries, hosts, groups, host, c);
        let (k, g) = choose|k: int, g: Seq<char>|
            0 <= k < hosts.len() && hosts[k].name@ == host && #[trigger] texts(
                hosts[k].groups@,
            ).contains(g) && groups.contains(g) && texts(entries[c].groups@).contains(g);
        assert(texts(hosts[k].groups@).contains(g) && texts(entries[c].groups@).contains(g));
    }
    if exists|c: int, k: int, g: Seq<char>|
        0 <= c < entries.len() && 0 <= k < hosts.len() && !entries[c].recursive && texts(
            entries[c].paths@,
        ).contains(path) && hosts[k].name@ == host && #[trigger] texts(hosts[k].groups@).contains(g)
            && groups.contains(g) && #[trigger] texts(entries[c].groups@).contains(g) {
        let (c, k, g) = choose|c: int, k: int, g: Seq<char>|
            0 <= c < entries.len() && 0 <= k < hosts.len() && !entries[c].recursive && texts(
                entries[c].paths@,
            ).contains(path) && hosts[k].name@ == host && #[trigger] texts(
                hosts[k].groups@,
            ).contains(g) && groups.contains(g) && #[trigger] texts(entries[c].groups@).contains(g);
        groups_decide_which_entries_apply(entries, hosts, groups, host, c);
        assert(texts(hosts[k].groups@).contains(g));
        let i = steps.index_of((host, c));
        assert(steps[i].0 == host);
    }
}

/// Aimed otherwise, the entries of a sync are those that apply, in their order.
pub proof fn applying_entries_are_taken(entries: Seq<SyncEntry>, mode: TargetView)
    ensures
        forall|c: int| #[trigger]
            applying(entries, mode).contains(c) <==> 0 <= c < entries.len() && applies(
                entries[c],
                mode,
            ),
        forall|i: int, j: int|
            0 <= i < j < applying(entries, mode).len() ==> #[trigger] applying(entries, mode)[i]
                < #[trigger] applying(entries, mode)[j],
    decreases entries.len(),
{
    if entries.len() > 0 {
        let rest = entries.drop_last();
        let n = entries.len() - 1;
        applying_entries_are_taken(rest, mode);
        let before = applying(rest, mode);
        let all = applying(entries, mode);
        assert forall|i: int| 0 <= i < before.len() implies 0 <= #[trigger] before[i] < n by {
            assert(before.contains(before[i]));
        }
        assert forall|c: int| #[trigger] all.contains(c) <==> 0 <= c < entries.len() && applies(
            entries[c],
            mode,
        ) by {
            assert(before.contains(c) <==> 0 <= c < rest.len() && applies(rest[c], mode));
            if applies(entries.last(), mode) {
                assert(all[before.len() as int] == n);
                if before.contains(c) {
                    assert(all[before.index_of(c)] == c);
                }
                if all.contains(c) && c != n {
                    assert(before[all.index_of(c)] == c);
                }
            }
        }
    }
}

/// The paths of a sync are those that an entry of it lists that is not recursive.
pub proof fn steps_list_their_paths(
    entries: Seq<SyncEntry>,
    steps: Seq<(Seq<char>, int)>,
    path: Seq<char>,
)
    ensures
        unique(step_paths(entries, steps)).contains(path) <==> exists|k: int|
            0 <= k < steps.len() && !entries[(#[trigger] steps[k]).1].recursive && texts(
                entries[steps[k].1].paths@,
            ).contains(path),
{
    with_all_new_facts(Seq::empty(), step_paths(entries, steps));
    if exists|k: int|
        0 <= k < steps.len() && !entries[(#[trigger] steps[k]).1].recursive && texts(
            entries[steps[k].1].paths@,
        ).contains(path) {
        let k = choose|k: int|
            0 <= k < steps.len() && !entries[(#[trigger] steps[k]).1].recursive && texts(
                entries[steps[k].1].paths@,
            ).contains(path);
        step_holds_path(entries, None, steps, k, path);
    }
    if step_paths(entries, steps).contains(path) {
        listed_paths_have_a_step(entries, steps, path);
    }
}

proof fn listed_paths_have_a_step(
    entries: Seq<SyncEntry>,
    steps: Seq<(Seq<char>, int)>,
    path: Seq<char>,
) -> (k: int)
    requires
        step_paths(entries, steps).contains(path),
    ensures
        0 <= k < steps.len(),
        !entries[steps[k].1].recursive,
        texts(entries[steps[k].1].paths@).contains(path),
    decreases steps.len(),
{
    let rest = steps.drop_last();
    let n = steps.len() - 1;
    let all = step_paths(entries, steps);
    let i = all.index_of(path);
    let before = step_paths(entries, rest);
    let e = entries[steps.last().1];
    if !e.recursive && i >= before.len() {
        assert(texts(e.paths@)[i - before.len()] == path);
        n
    } else {
        assert(before[i] == path);
        let k = listed_paths_have_a_step(entries, rest, path);
        assert(rest[k] == steps[k]);
        k
    }
}

/// The source that is named on the command line holds for every path; without one, a path
/// has the source of the first entry that lists it.
pub proof fn sources_come_from_the_first_entry(
    entries: Seq<SyncEntry>,
    cli: Option<Seq<char>>,
    steps: Seq<(Seq<char>, int)>,
    k: int,
    path: Seq<char>,
)
    requires
        0 <= k < steps.len(),
        !entries[steps[k].1].recursive,
        texts(entries[steps[k].1].paths@).contains(path),
        forall|j: int|
            0 <= j < k ==> entries[(#[trigger] steps[j]).1].recursive || !texts(
                entries[steps[j].1].paths@,
            ).contains(path),
    ensures
        fixed_source(step_sources(entries, cli, steps), path) == (match cli {
            Some(s) => Some(s),
            None => text_opt(entries[steps[k].1].source),
        }),
    decreases steps.len(),
{
    step_holds_path(entries, cli, steps, k, path);
    let rest = steps.drop_last();
    if k < rest.len() {
        assert(rest[k] == steps[k]);
        assert forall|j: int| 0 <= j < k implies entries[(#[trigger] rest[j]).1].recursive
            || !texts(
            entries[rest[j].1].paths@,
        ).contains(path) by {
            assert(rest[j] == steps[j]);
        }
        sources_come_from_the_first_entry(entries, cli, rest, k, path);
        step_holds_path(entries, cli, rest, k, path);
    } else {
        assert(!step_sources(entries, cli, rest).dom().contains(path)) by {
            no_source_without_a_step(entries, cli, rest, path);
        }
    }
}

proof fn no_source_without_a_step(
    entries: Seq<SyncEntry>,
    cli: Option<Seq<char>>,
    steps: Seq<(Seq<char>, int)>,
    path: Seq<char>,
)
    requires
        forall|j: int|
            0 <= j < steps.len() ==> entries[(#[trigger] steps[j]).1].recursive || !texts(
                entries[steps[j].1].paths@,
            ).contains(path),
    ensures
        !step_sources(entries, cli, steps).dom().contains(path),
    decreases steps.len(),
{
    if steps.len() > 0 {
        let rest = steps.drop_last();
        assert forall|j: int| 0 <= j < rest.len() implies entries[(
        #[trigger] rest[j]).1].recursive || !texts(entries[rest[j].1].paths@).contains(path) by {
            assert(rest[j] == steps[j]);
        }
        no_source_without_a_step(entries, cli, rest, path);
        assert(entries[steps[steps.len() - 1].1].recursive || !texts(
            entries[steps[steps.len() - 1].1].paths@,
        ).contains(path));
    }
}

proof fn place_in_finds(list: Seq<RecursiveView>, entry: int)
    ensures
        0 <= place_in(list, entry) <= list.len(),
        place_in(list, entry) < list.len() ==> list[place_in(list, entry)].entry == entry,
        forall|i: int| 0 <= i < place_in(list, entry) ==> (#[trigger] list[i]).entry != entry,
    decreases list.len(),
{
    if list.len() > 0 && list[0].entry != entry {
        let rest = list.skip(1);
        place_in_finds(rest, entry);
        assert forall|i: int| 0 <= i < place_in(list, entry) implies (#[trigger] list[i]).entry
            != entry by {
            if i > 0 {
                assert(rest[i - 1] == list[i]);
            }
        }
    }
}

/// Every recursive entry that applies to a host is worked on once, on exactly the hosts it
/// applies to, and with the source that holds for it.
pub proof fn recursive_entries_have_their_hosts(
    entries: Seq<SyncEntry>,
    cli: Option<Seq<char>>,
    steps: Seq<(Seq<char>, int)>,
)
    ensures
        ({
            let list = step_recursive(entries, cli, steps);
            &&& forall|i: int, j: int|
                0 <= i < j < list.len() ==> (#[trigger] list[i]).entry != (#[trigger] list[j]).entry
            &&& forall|i: int|
                0 <= i < list.len() ==> entries[(#[trigger] list[i]).entry].recursive
                    && list[i].source == (match cli {
                    Some(s) => Some(s),
                    None => text_opt(entries[list[i].entry].source),
                })
            &&& forall|host: Seq<char>, c: int|
                (entries[c].recursive && #[trigger] steps.contains((host, c))) <==> (exists|i: int|
                    0 <= i < list.len() && (#[trigger] list[i]).entry == c
                        && list[i].hosts.contains(
                        host,
                    ))
        }),
    decreases steps.len(),
{
    let list = step_recursive(entries, cli, steps);
    if steps.len() == 0 {
    } else {
        let rest = steps.drop_last();
        let before = step_recursive(entries, cli, rest);
        let (name, place) = steps.last();
        recursive_entries_have_their_hosts(entries, cli, rest);
        assert(steps[steps.len() - 1] == (name, place));
        assert forall|x: (Seq<char>, int)| #[trigger] steps.contains(x) <==> rest.contains(x) || x
            == (name, place) by {
            if rest.contains(x) {
                assert(steps[rest.index_of(x)] == x);
            }
            if steps.contains(x) && x != (name, place) {
                assert(rest[steps.index_of(x)] == x);
            }
        }
        if entries[place].recursive {
            place_in_finds(before, place);
            let k = place_in(before, place);
            if k < before.len() {
                let old_hosts = before[k].hosts;
                let new_hosts = with_new(old_hosts, name);
                assert forall|h: Seq<char>| #[trigger] new_hosts.contains(h)
                    <==> old_hosts.contains(
                    h,
                ) || h == name by {
                    if !old_hosts.contains(name) {
                        assert(new_hosts[old_hosts.len() as int] == name);
                        if old_hosts.contains(h) {
                            assert(new_hosts[old_hosts.index_of(h)] == h);
                        }
                        if new_hosts.contains(h) && h != name {
                            assert(old_hosts[new_hosts.index_of(h)] == h);
                        }
                    }
                }
                assert(list[k].entry == place);
                assert(list[k].hosts == new_hosts);
                assert forall|i: int, j: int| 0 <= i < j < list.len() implies (
                #[trigger] list[i]).entry != (#[trigger] list[j]).entry by {
                    assert(before[i].entry != before[j].entry);
                }
                assert forall|i: int| 0 <= i < list.len() implies entries[(
                #[trigger] list[i]).entry].recursive && list[i].source == (match cli {
                    Some(s) => Some(s),
                    None => text_opt(entries[list[i].entry].source),
                }) by {
                    assert(entries[before[i].entry].recursive);
                }
                assert forall|host: Seq<char>, c: int|
                    (entries[c].recursive && #[trigger] steps.contains((host, c))) <==> (exists|
                        i: int,
                    |
                        0 <= i < list.len() && (#[trigger] list[i]).entry == c
                            && list[i].hosts.contains(host)) by {
                    assert((entries[c].recursive && rest.contains((host, c))) <==> (exists|i: int|
                        0 <= i < before.len() && (#[trigger] before[i]).entry == c
                            && before[i].hosts.contains(host)));
                    if exists|i: int|
                        0 <= i < before.len() && (#[trigger] before[i]).entry == c
                            && before[i].hosts.contains(host) {
                        let i = choose|i: int|
                            0 <= i < before.len() && (#[trigger] before[i]).entry == c
                                && before[i].hosts.contains(host);
                        assert(list[i].entry == c && list[i].hosts.contains(host));
                    }
                    if exists|i: int|
                        0 <= i < list.len() && (#[trigger] list[i]).entry == c
                            && list[i].hosts.contains(host) {
                        let i = choose|i: int|
                            0 <= i < list.len() && (#[trigger] list[i]).entry == c
                                && list[i].hosts.contains(host);
                        if i != k || host != name {
                            assert(before[i].entry == c && before[i].hosts.contains(host));
                        }
                    }
                }
            } else {
                let new = list[before.len() as int];
                assert(new.hosts[0] == name);
                assert forall|i: int| 0 <= i < list.len() implies entries[(
                #[trigger] list[i]).entry].recursive && list[i].source == (match cli {
                    Some(s) => Some(s),
                    None => text_opt(entries[list[i].entry].source),
                }) by {
                    if i < before.len() {
                        assert(entries[before[i].entry].recursive);
                        assert(list[i] == before[i]);
                    }
                }
                assert forall|i: int, j: int| 0 <= i < j < list.len() implies (
                #[trigger] list[i]).entry != (#[trigger] list[j]).entry by {
                    assert(list[i] == before[i]);
                    if j < before.len() {
                        assert(before[i].entry != before[j].entry);
                    }
                }
                assert forall|host: Seq<char>, c: int|
                    (entries[c].recursive && #[trigger] steps.contains((host, c))) <==> (exists|
                        i: int,
                    |
                        0 <= i < list.len() && (#[trigger] list[i]).entry == c
                            && list[i].hosts.contains(host)) by {
                    assert((entries[c].recursive && rest.contains((host, c))) <==> (exists|i: int|
                        0 <= i < before.len() && (#[trigger] before[i]).entry == c
                            && before[i].hosts.contains(host)));
                    if exists|i: int|
                        0 <= i < before.len() && (#[trigger] before[i]).entry == c
                            && before[i].hosts.contains(host) {
                        let i = choose|i: int|
                            0 <= i < before.len() && (#[trigger] before[i]).entry == c
                                && before[i].hosts.contains(host);
                        assert(list[i].entry == c && list[i].hosts.contains(host));
                    }
                    if exists|i: int|
                        0 <= i < list.len() && (#[trigger] list[i]).entry == c
                            && list[i].hosts.contains(host) {
                        let i = choose|i: int|
                            0 <= i < list.len() && (#[trigger] list[i]).entry == c
                                && list[i].hosts.contains(host);
                        if i < before.len() {
                            assert(before[i].entry == c && before[i].hosts.contains(host));
                        }
                    }
                    if host == name && c == place {
                        assert(new.entry == c && new.hosts.contains(host));
                    }
                }
            }
        } else {
            assert forall|host: Seq<char>, c: int|
                (entries[c].recursive && #[trigger] steps.contains((host, c))) <==> (exists|i: int|
                    0 <= i < list.len() && (#[trigger] list[i]).entry == c
                        && list[i].hosts.contains(
                        host,
                    )) by {
                assert((entries[c].recursive && rest.contains((host, c))) <==> (exists|i: int|
                    0 <= i < before.len() && (#[trigger] before[i]).entry == c
                        && before[i].hosts.contains(host)));
            }
        }
    }
}

/// A path of a list stands for a file: it is the file, or a directory that holds it.
pub open spec fn stands_for(
    m: Map<Seq<char>, ExpandView>,
    path: Seq<char>,
    f: Seq<char>,
) -> bool {
    match files_in(m, path) {
        Some(files) => files.contains(f),
        None => path == f,
    }
}

proof fn stands_for_splits(m: Map<Seq<char>, ExpandView>, paths: Seq<Seq<char>>, f: Seq<char>)
    requires
        paths.len() > 0,
    ensures
        (exists|k: int| 0 <= k < paths.len() && stands_for(m, #[trigger] paths[k], f)) <==> (
        exists|k: int|
            0 <= k < paths.drop_last().len() && stands_for(m, #[trigger] paths.drop_last()[k], f))
            || stands_for(m, paths.last(), f),
{
    let rest = paths.drop_last();
    if exists|k: int| 0 <= k < rest.len() && stands_for(m, #[trigger] rest[k], f) {
        let k = choose|k: int| 0 <= k < rest.len() && stands_for(m, #[trigger] rest[k], f);
        assert(stands_for(m, paths[k], f));
    }
    if stands_for(m, paths.last(), f) {
        assert(stands_for(m, paths[paths.len() - 1], f));
    }
    if exists|k: int| 0 <= k < paths.len() && stands_for(m, #[trigger] paths[k], f) {
        let k = choose|k: int| 0 <= k < paths.len() && stands_for(m, #[trigger] paths[k], f);
        if k < rest.len() {
            assert(stands_for(m, rest[k], f));
        }
    }
}

/// A file is synced in place of the directory that holds it; every other path stays.
pub proof fn directories_give_way_to_their_files(
    m: Map<Seq<char>, ExpandView>,
    paths: Seq<Seq<char>>,
    f: Seq<char>,
)
    ensures
        expanded_paths(m, paths).contains(f) <==> exists|k: int|
            0 <= k < paths.len() && stands_for(m, #[trigger] paths[k], f),
    decreases paths.len(),
{
    if paths.len() > 0 {
        let rest = paths.drop_last();
        let last = paths.last();
        directories_give_way_to_their_files(m, rest, f);
        stands_for_splits(m, paths, f);
        let before = expanded_paths(m, rest);
        let all = expanded_paths(m, paths);
        match files_in(m, last) {
            Some(files) => {
                with_all_new_facts(before, files);
                assert(all == with_all_new(before, files));
            },
            None => {
                assert(all[before.len() as int] == last);
                if before.contains(f) {
                    assert(all[before.index_of(f)] == f);
                }
                if all.contains(f) && f != last {
                    assert(before[all.index_of(f)] == f);
                }
            },
        }
    }
}

/// A recursive entry goes over the files of its directories and its other paths.
pub proof fn recursive_entries_cover_their_files(
    m: Map<Seq<char>, ExpandView>,
    paths: Seq<Seq<char>>,
    f: Seq<char>,
)
    ensures
        expanded_entry(m, paths).contains(f) <==> exists|k: int|
            0 <= k < paths.len() && stands_for(m, #[trigger] paths[k], f),
    decreases paths.len(),
{
    if paths.len() > 0 {
        let rest = paths.drop_last();
        let last = paths.last();
        recursive_entries_cover_their_files(m, rest, f);
        stands_for_splits(m, paths, f);
        let before = expanded_entry(m, rest);
        let all = expanded_entry(m, paths);
        let more = match files_in(m, last) {
            Some(files) => files,
            None => seq![last],
        };
        assert(all =~= before + more);
        if before.contains(f) {
            assert(all[before.index_of(f)] == f);
        }
        if more.contains(f) {
            assert(all[before.len() + more.index_of(f)] == f);
        }
        if all.contains(f) {
            let i = all.index_of(f);
            if i < before.len() {
                assert(before[i] == f);
            } else {
                assert(more[i - before.len()] == f);
            }
        }
        assert(more.contains(f) == stands_for(m, last, f)) by {
            if files_in(m, last) is None {
                assert(more[0] == last);
            }
        }
    }
}

/// Whether a list names a path and it is a directory.
pub open spec fn lists_dir(
    m: Map<Seq<char>, ExpandView>,
    paths: Seq<Seq<char>>,
    dir: Seq<char>,
) -> bool {
    paths.contains(dir) && files_in(m, dir) is Some
}

/// A host that is in the scope of a directory is in the scope of its files, and no longer
/// in that of the directory; other scopes stay. This holds where no file of a directory
/// is itself one of the directories.
pub proof fn scopes_follow_the_files(
    m: Map<Seq<char>, ExpandView>,
    paths: Seq<Seq<char>>,
    pairs: Set<(Seq<char>, Seq<char>)>,
    host: Seq<char>,
    f: Seq<char>,
)
    requires
        forall|d: Seq<char>, e: Seq<char>| #[trigger]
            lists_dir(m, paths, d) && #[trigger] lists_dir(m, paths, e) ==> !files_in(
                m,
                d,
            )->0.contains(e),
    ensures
        expanded_pairs(m, paths, pairs).contains((host, f)) <==> (pairs.contains((host, f))
            && !lists_dir(m, paths, f)) || exists|d: Seq<char>| #[trigger]
            lists_dir(m, paths, d) && files_in(m, d)->0.contains(f) && pairs.contains((host, d)),
    decreases paths.len(),
{
    if paths.len() > 0 {
        let rest = paths.drop_last();
        let last = paths.last();
        assert forall|d: Seq<char>| #[trigger] lists_dir(m, paths, d) <==> lists_dir(m, rest, d)
            || (d == last && files_in(m, last) is Some) by {
            if rest.contains(d) {
                assert(paths[rest.index_of(d)] == d);
            }
            assert(paths[paths.len() - 1] == last);
            if paths.contains(d) && d != last {
                assert(rest[paths.index_of(d)] == d);
            }
        }
        assert forall|d: Seq<char>, e: Seq<char>| #[trigger]
            lists_dir(m, rest, d) && #[trigger] lists_dir(m, rest, e) implies !files_in(
            m,
            d,
        )->0.contains(e) by {
            assert(lists_dir(m, paths, d) && lists_dir(m, paths, e));
        }
        scopes_follow_the_files(m, rest, pairs, host, f);
        scopes_follow_the_files(m, rest, pairs, host, last);
        let before = expanded_pairs(m, rest, pairs);
        let after = expanded_pairs(m, paths, pairs);
        let found = exists|d: Seq<char>| #[trigger]
            lists_dir(m, paths, d) && files_in(m, d)->0.contains(f) && pairs.contains((host, d));
        let found_before = exists|d: Seq<char>| #[trigger]
            lists_dir(m, rest, d) && files_in(m, d)->0.contains(f) && pairs.contains((host, d));
        if found_before {
            let d = choose|d: Seq<char>| #[trigger]
                lists_dir(m, rest, d) && files_in(m, d)->0.contains(f) && pairs.contains((host, d));
            assert(lists_dir(m, paths, d));
        }
        if files_in(m, last) is Some {
            let files = files_in(m, last)->0;
            assert(lists_dir(m, paths, last));
            assert(!files.contains(last));
            // No directory among the others holds `last`.
            assert(before.contains((host, last)) == (pairs.contains((host, last)) && !lists_dir(
                m,
                rest,
                last,
            ))) by {
                assert forall|d: Seq<char>| #[trigger] lists_dir(m, rest, d) implies !files_in(
                    m,
                    d,
                )->0.contains(last) by {
                    assert(lists_dir(m, paths, d));
                }
            }
            assert(after == replaced_dir(before, last, files));
            assert(after.contains((host, f)) == (if before.contains((host, last)) {
                files.contains(f) || (before.contains((host, f)) && f != last)
            } else {
                before.contains((host, f))
            }));
            assert(found == (found_before || (files.contains(f) && pairs.contains((host, last)))))
                by {
                if files.contains(f) && pairs.contains((host, last)) {
                    assert(lists_dir(m, paths, last));
                }
            }
            if files.contains(f) && pairs.contains((host, last)) && lists_dir(m, rest, last) {
                assert(found_before);
            }
            if f == last {
                assert(lists_dir(m, paths, f));
            }
        } else {
            assert(found == found_before);
        }
    }
}

/// With no map of scopes every host is in scope; with one, the hosts that it names for
/// the path, in their order.
pub proof fn scopes_choose_the_hosts(
    map: Option<HostPathMap>,
    hosts: Seq<Seq<char>>,
    path: Seq<char>,
    h: Seq<char>,
)
    ensures
        hosts_in_scope(map, hosts, path).contains(h) <==> hosts.contains(h) && (map matches Some(m)
            ==> exists|i: int|
            0 <= i < m.pairs@.len() && (#[trigger] m.pairs@[i]).0@ == h && m.pairs@[i].1@ == path),
{
    crate::host::filter::filter_holds(hosts, |x: Seq<char>| in_scope(map, x, path), h);
}

/// The sources to ask first are those that some path has, each once.
pub proof fn every_fixed_source_is_listed(
    sources: Map<Seq<char>, Option<Seq<char>>>,
    paths: Seq<Seq<char>>,
    source: Seq<char>,
)
    ensures
        fixed_sources(sources, paths).contains(source) <==> exists|k: int|
            0 <= k < paths.len() && sources.dom().contains(#[trigger] paths[k])
                && sources[paths[k]] == Some(source),
        fixed_sources(sources, paths).no_duplicates(),
        forall|p: Seq<char>| #[trigger]
            paths_of_source(sources, paths, source).contains(p) <==> paths.contains(p)
                && sources.dom().contains(p) && sources[p] == Some(source),
    decreases paths.len(),
{
    assert forall|p: Seq<char>| #[trigger]
        paths_of_source(sources, paths, source).contains(p) <==> paths.contains(p)
            && sources.dom().contains(p) && sources[p] == Some(source) by {
        crate::host::filter::filter_holds(
            paths,
            |p: Seq<char>| fixed_source(sources, p) == Some(source),
            p,
        );
    }
    if paths.len() > 0 {
        let rest = paths.drop_last();
        let last = paths.last();
        let n = paths.len() - 1;
        every_fixed_source_is_listed(sources, rest, source);
        let before = fixed_sources(sources, rest);
        let all = fixed_sources(sources, paths);
        assert(paths[n] == last);
        if fixed_source(sources, last) is Some {
            let s = fixed_source(sources, last)->0;
            if !before.contains(s) {
                assert(all == before.push(s));
                assert(all[before.len() as int] == s);
                if before.contains(source) {
                    assert(all[before.index_of(source)] == source);
                }
                if all.contains(source) && source != s {
                    assert(before[all.index_of(source)] == source);
                }
            }
        }
        if before.contains(source) {
            let k = choose|k: int|
                0 <= k < rest.len() && sources.dom().contains(#[trigger] rest[k])
                    && sources[rest[k]] == Some(source);
            assert(paths[k] == rest[k]);
        }
        if exists|k: int|
            0 <= k < paths.len() && sources.dom().contains(#[trigger] paths[k])
                && sources[paths[k]] == Some(source) {
            let k = choose|k: int|
                0 <= k < paths.len() && sources.dom().contains(#[trigger] paths[k])
                    && sources[paths[k]] == Some(source);
            if k < n {
                assert(rest[k] == paths[k]);
            }
        }
    }
}

/// What a sync works on is what the target asks for: a path where some entry that is not
/// recursive lists it and applies; for groups, where some group is at once one of a
/// targeted host's, one of the targeted ones and one of the entry's.
pub proof fn the_work_is_what_applies(
    r: SyncPaths,
    entries: Seq<SyncEntry>,
    mode: TargetView,
    hosts: Seq<&HostEntry>,
    cli: Option<Seq<char>>,
    path: Seq<char>,
)
    requires
        is_scoped_work(r, entries, mode, hosts, cli),
    ensures
        texts(r.paths@).contains(path) <==> exists|c: int|
            0 <= c < entries.len() && !(#[trigger] entries[c]).recursive && texts(
                entries[c].paths@,
            ).contains(path) && (match mode {
                TargetView::All => entries[c].enable_all,
                TargetView::Hosts(_) => entries[c].enable_hosts,
                TargetView::Shell(_) => entries[c].enable_hosts,
                TargetView::Groups(groups) => exists|k: int, g: Seq<char>|
                    0 <= k < hosts.len() && #[trigger] texts(hosts[k].groups@).contains(g)
                        && groups.contains(g) && texts(entries[c].groups@).contains(g),
            }),
        texts(r.paths@).no_duplicates(),
        mode is Groups <==> r.host_paths is Some,
{
    match mode {
        TargetView::Groups(groups) => {
            let list = pointees(hosts);
            let steps = group_steps(entries, list, groups);
            steps_list_their_paths(entries, steps, path);
            with_all_new_facts(Seq::empty(), step_paths(entries, steps));
            if texts(r.paths@).contains(path) {
                let i = choose|i: int|
                    0 <= i < steps.len() && !entries[(#[trigger] steps[i]).1].recursive && texts(
                        entries[steps[i].1].paths@,
                    ).contains(path);
                let (host, c) = steps[i];
                assert(steps.contains((host, c)));
                groups_decide_which_entries_apply(entries, list, groups, host, c);
                let (k, g) = choose|k: int, g: Seq<char>|
                    0 <= k < list.len() && list[k].name@ == host && #[trigger] texts(
                        list[k].groups@,
                    ).contains(g) && groups.contains(g) && texts(entries[c].groups@).contains(g);
                assert(texts(hosts[k].groups@).contains(g));
                assert(!entries[c].recursive);
            }
            if exists|c: int|
                0 <= c < entries.len() && !(#[trigger] entries[c]).recursive && texts(
                    entries[c].paths@,
                ).contains(path) && exists|k: int, g: Seq<char>|
                    0 <= k < hosts.len() && #[trigger] texts(hosts[k].groups@).contains(g)
                        && groups.contains(g) && texts(entries[c].groups@).contains(g) {
                let c = choose|c: int|
                    0 <= c < entries.len() && !(#[trigger] entries[c]).recursive && texts(
                        entries[c].paths@,
                    ).contains(path) && exists|k: int, g: Seq<char>|
                        0 <= k < hosts.len() && #[trigger] texts(hosts[k].groups@).contains(g)
                            && groups.contains(g) && texts(entries[c].groups@).contains(g);
                let (k, g) = choose|k: int, g: Seq<char>|
                    0 <= k < hosts.len() && #[trigger] texts(hosts[k].groups@).contains(g)
                        && groups.contains(g) && texts(entries[c].groups@).contains(g);
                let host = hosts[k].name@;
                assert(texts(list[k].groups@).contains(g));
                groups_decide_which_entries_apply(entries, list, groups, host, c);
                let i = steps.index_of((host, c));
                assert(steps[i].1 == c);
            }
        },
        _ => {
            let list = applying(entries, mode);
            let steps = bare_steps(list);
            applying_entries_are_taken(entries, mode);
            steps_list_their_paths(entries, steps, path);
            with_all_new_facts(Seq::empty(), step_paths(entries, steps));
            if texts(r.paths@).contains(path) {
                let i = choose|i: int|
                    0 <= i < steps.len() && !entries[(#[trigger] steps[i]).1].recursive && texts(
                        entries[steps[i].1].paths@,
                    ).contains(path);
                let c = steps[i].1;
                assert(list[i] == c);
                assert(list.contains(c));
                assert(!entries[c].recursive);
            }
            if exists|c: int|
                0 <= c < entries.len() && !(#[trigger] entries[c]).recursive && texts(
                    entries[c].paths@,
                ).contains(path) && applies(entries[c], mode) {
                let c = choose|c: int|
                    0 <= c < entries.len() && !(#[trigger] entries[c]).recursive && texts(
                        entries[c].paths@,
                    ).contains(path) && applies(entries[c], mode);
                assert(list.contains(c));
                let i = list.index_of(c);
                assert(steps[i].1 == c);
            }
            assert forall|c: int| 0 <= c < entries.len() implies applies(
                #[trigger] entries[c],
                mode,
            ) == (match mode {
                TargetView::All => entries[c].enable_all,
                _ => entries[c].enable_hosts,
            }) by {}
        },
    }
}

/// The recursive entries of a sync are those that apply, each with the hosts it applies to
/// and the source that holds for it.
pub proof fn the_recursive_work_is_what_applies(
    r: SyncPaths,
    entries: Seq<SyncEntry>,
    mode: TargetView,
    hosts: Seq<&HostEntry>,
    cli: Option<Seq<char>>,
    c: int,
)
    requires
        is_scoped_work(r, entries, mode, hosts, cli),
        !(mode is Groups),
    ensures
        (exists|i: int|
            0 <= i < r.recursive@.len() && (#[trigger] recursive_views(r.recursive@)[i]).entry == c)
            <==> 0 <= c < entries.len() && entries[c].recursive && (match mode {
            TargetView::All => entries[c].enable_all,
            _ => entries[c].enable_hosts,
        }),
        forall|i: int|
            0 <= i < r.recursive@.len() ==> {
                let v = #[trigger] recursive_views(r.recursive@)[i];
                &&& forall|h: Seq<char>| #[trigger]
                    v.hosts.contains(h) <==> exists|k: int|
                        0 <= k < hosts.len() && (#[trigger] hosts[k]).name@ == h
                &&& v.source == (match cli {
                    Some(s) => Some(s),
                    None => text_opt(entries[v.entry].source),
                })
            },
{
    let list = applying(entries, mode);
    let names = ref_names(hosts);
    applying_entries_are_taken(entries, mode);
    let at = flat_entries_are_the_recursive_ones(entries, cli, list, unique(names));
    let views = recursive_views(r.recursive@);
    with_all_new_facts(Seq::empty(), names);
    assert(views.len() == r.recursive@.len());
    assert forall|h: Seq<char>| #[trigger] unique(names).contains(h) <==> exists|k: int|
        0 <= k < hosts.len() && (#[trigger] hosts[k]).name@ == h by {
        if names.contains(h) {
            assert(hosts[names.index_of(h)].name@ == h);
        }
        if exists|k: int| 0 <= k < hosts.len() && (#[trigger] hosts[k]).name@ == h {
            let k = choose|k: int| 0 <= k < hosts.len() && (#[trigger] hosts[k]).name@ == h;
            assert(names[k] == h);
        }
    }
    if exists|i: int| 0 <= i < r.recursive@.len() && (#[trigger] views[i]).entry == c {
        let i = choose|i: int| 0 <= i < r.recursive@.len() && (#[trigger] views[i]).entry == c;
        assert(at.contains(at[i]));
        assert(list[at[i]] == c);
        assert(list.contains(c));
    }
    if 0 <= c < entries.len() && entries[c].recursive && applies(entries[c], mode) {
        assert(list.contains(c));
        let k = list.index_of(c);
        assert(at.contains(k));
        let i = at.index_of(k);
        assert(views[i].entry == c);
    }
    if 0 <= c < entries.len() {
        assert(applies(entries[c], mode) == (match mode {
            TargetView::All => entries[c].enable_all,
            _ => entries[c].enable_hosts,
        }));
    }
}

proof fn flat_entries_are_the_recursive_ones(
    entries: Seq<SyncEntry>,
    cli: Option<Seq<char>>,
    places: Seq<int>,
    hosts: Seq<Seq<char>>,
) -> (at: Seq<int>)
    ensures
        forall|i: int, j: int| 0 <= i < j < at.len() ==> #[trigger] at[i] < #[trigger] at[j],
        forall|k: int| #[trigger]
            at.contains(k) <==> 0 <= k < places.len() && entries[places[k]].recursive,
        flat_recursive(entries, cli, places, hosts).len() == at.len(),
        forall|i: int|
            0 <= i < at.len() ==> #[trigger] flat_recursive(entries, cli, places, hosts)[i] == (
            RecursiveView {
                entry: places[at[i]],
                hosts,
                source: match cli {
                    Some(s) => Some(s),
                    None => text_opt(entries[places[at[i]]].source),
                },
            }),
    decreases places.len(),
{
    if places.len() == 0 {
        Seq::empty()
    } else {
        let rest = places.drop_last();
        let n = places.len() - 1;
        let before = flat_entries_are_the_recursive_ones(entries, cli, rest, hosts);
        assert forall|i: int| 0 <= i < before.len() implies 0 <= #[trigger] before[i] < n by {
            assert(before.contains(before[i]));
        }
        let keep = entries[places[n]].recursive;
        let at = if keep {
            before.push(n)
        } else {
            before
        };
        assert forall|k: int| #[trigger] at.contains(k) <==> 0 <= k < places.len()
            && entries[places[k]].recursive by {
            assert(before.contains(k) <==> 0 <= k < n && entries[rest[k]].recursive);
            if keep {
                assert(at[before.len() as int] == n);
                if before.contains(k) {
                    assert(at[before.index_of(k)] == k);
                }
                if at.contains(k) && k != n {
                    assert(before[at.index_of(k)] == k);
                }
            }
        }
        let all = flat_recursive(entries, cli, places, hosts);
        assert forall|i: int| 0 <= i < at.len() implies #[trigger] all[i] == (RecursiveView {
            entry: places[at[i]],
            hosts,
            source: match cli {
                Some(s) => Some(s),
                None => text_opt(entries[places[at[i]]].source),
            },
        }) by {
            if i < before.len() {
                assert(all[i] == flat_recursive(entries, cli, rest, hosts)[i]);
            }
        }
        at
    }
}

/// A source that is known stays, and a file gets none but that of a directory that holds it.
pub proof fn known_sources_stay(
    m: Map<Seq<char>, ExpandView>,
    paths: Seq<Seq<char>>,
    sources: Map<Seq<char>, Option<Seq<char>>>,
    f: Seq<char>,
)
    ensures
        sources.dom().contains(f) ==> expanded_sources(m, paths, sources).dom().contains(f)
            && expanded_sources(m, paths, sources)[f] == sources[f],
        expanded_sources(m, paths, sources).dom().contains(f) && !sources.dom().contains(f)
            ==> exists|d: Seq<char>| #[trigger]
            lists_dir(m, paths, d) && files_in(m, d)->0.contains(f),
    decreases paths.len(),
{
    if paths.len() > 0 {
        let rest = paths.drop_last();
        let last = paths.last();
        known_sources_stay(m, rest, sources, f);
        let before = expanded_sources(m, rest, sources);
        if before.dom().contains(f) && !sources.dom().contains(f) {
            let d = choose|d: Seq<char>| #[trigger]
                lists_dir(m, rest, d) && files_in(m, d)->0.contains(f);
            assert(paths[rest.index_of(d)] == d);
            assert(lists_dir(m, paths, d));
        }
        if files_in(m, last) is Some {
            let files = files_in(m, last)->0;
            assert(paths[paths.len() - 1] == last);
            assert(lists_dir(m, paths, last));
            crate::host::filter::filter_holds(
                files,
                |f: Seq<char>| !expanded_paths(m, rest).contains(f),
                f,
            );
        }
    }
}

/// A file that is new to the list has the source of the first directory that holds it. This
/// holds where no file of a directory is itself among the paths.
pub proof fn files_have_the_source_of_their_directory(
    m: Map<Seq<char>, ExpandView>,
    paths: Seq<Seq<char>>,
    sources: Map<Seq<char>, Option<Seq<char>>>,
    k: int,
    f: Seq<char>,
)
    requires
        0 <= k < paths.len(),
        files_in(m, paths[k]) is Some,
        files_in(m, paths[k])->0.contains(f),
        !sources.dom().contains(f),
        forall|i: int|
            0 <= i < k && files_in(m, #[trigger] paths[i]) is Some ==> !files_in(
                m,
                paths[i],
            )->0.contains(f),
        forall|d: Seq<char>, p: Seq<char>| #[trigger]
            lists_dir(m, paths, d) && #[trigger] paths.contains(p) ==> !files_in(m, d)->0.contains(
                p,
            ),
    ensures
        expanded_sources(m, paths, sources).dom().contains(f),
        expanded_sources(m, paths, sources)[f] == fixed_source(sources, paths[k]),
    decreases paths.len(),
{
    let rest = paths.drop_last();
    let n = paths.len() - 1;
    assert(paths.contains(paths[k]));
    assert(lists_dir(m, paths, paths[k]));
    assert forall|p: Seq<char>| rest.contains(p) implies paths.contains(p) by {
        assert(paths[rest.index_of(p)] == p);
    }
    let before = expanded_sources(m, rest, sources);
    if k < n {
        assert(rest[k] == paths[k]);
        assert forall|i: int| 0 <= i < k && files_in(m, #[trigger] rest[i]) is Some
            implies !files_in(
            m,
            rest[i],
        )->0.contains(f) by {
            assert(rest[i] == paths[i]);
        }
        assert forall|d: Seq<char>, p: Seq<char>| #[trigger]
            lists_dir(m, rest, d) && #[trigger] rest.contains(p) implies !files_in(
            m,
            d,
        )->0.contains(p) by {
            assert(lists_dir(m, paths, d) && paths.contains(p));
        }
        files_have_the_source_of_their_directory(m, rest, sources, k, f);
    } else {
        let last = paths[n];
        known_sources_stay(m, rest, sources, f);
        known_sources_stay(m, rest, sources, last);
        directories_give_way_to_their_files(m, rest, f);
        crate::host::filter::filter_holds(
            files_in(m, last)->0,
            |f: Seq<char>| !expanded_paths(m, rest).contains(f),
            f,
        );
        if before.dom().contains(f) {
            let d = choose|d: Seq<char>| #[trigger]
                lists_dir(m, rest, d) && files_in(m, d)->0.contains(f);
            assert(paths[rest.index_of(d)] == d);
        }
        if before.dom().contains(last) && !sources.dom().contains(last) {
            let d = choose|d: Seq<char>| #[trigger]
                lists_dir(m, rest, d) && files_in(m, d)->0.contains(last);
            assert(lists_dir(m, paths, d));
        }
        if expanded_paths(m, rest).contains(f) {
            let i = choose|i: int| 0 <= i < rest.len() && stands_for(m, #[trigger] rest[i], f);
            assert(rest[i] == paths[i]);
            if files_in(m, paths[i]) is None {
                assert(paths.contains(f));
            }
        }
    }
}

/// The empty directories are those that are listed and hold no file.
pub proof fn empty_directories_are_told(
    m: Map<Seq<char>, ExpandView>,
    paths: Seq<Seq<char>>,
    d: Seq<char>,
)
    ensures
        empty_dirs(m, paths).contains(d) <==> paths.contains(d) && m.dom().contains(d) && (
        m[d] matches ExpandView::Directory(files) && files.len() == 0),
{
    crate::host::filter::filter_holds(
        paths,
        |p: Seq<char>| files_in(m, p) == Some(Seq::<Seq<char>>::empty()),
        d,
    );
    if files_in(m, d) is Some && files_in(m, d)->0.len() == 0 {
        assert(files_in(m, d)->0 =~= Seq::empty());
    }
}

} // verus!
