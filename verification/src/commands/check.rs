//! The check: what to measure on which host, and what the answers amount to.

use vstd::prelude::*;

use crate::commands::report::{
    check_rows, count, no_summary, no_tally, tally_of, CheckHostResult, CheckReport, CheckRow,
    HostStatus, Tally, Verdict, VerdictView,
};
use crate::commands::{applies, Context, TargetMode, TargetView};
use crate::config::schema::{CheckEntry, CheckPath, HostEntry, ShellType};
use crate::error::Error;
use crate::host::filter::{filter_holds, filter_picks, pointees};
use crate::host::session_pool::copy_pairs;
use crate::lookup::TextMap;
use crate::metrics::collector::{CollectionResult, CollectionView};
use crate::metrics::data::{no_values, snapshot_wf, values, DataView};
use crate::order::{
    ascending, by_text, by_text_is_strict, insert_sorted, listed, push_all_new, sorted_set,
    sorted_set_facts, with_all_new, with_all_new_facts,
};
use crate::output::report::{HostOutput, HostResult, ResultView};
use crate::output::summary::Summary;
use crate::scan::{after_prefix, strip_prefix};
use crate::text::{
    concat2, concat3, copy, copy_all, decimal, pair_texts, same, texts, texts_push, usize_text,
};

verus! {

broadcast use texts_push;

// ---------------------------------------------------------------------------
// What to measure
// ---------------------------------------------------------------------------

/// What is measured on one host: metrics, and paths with their labels.
pub struct HostCheckConfig {
    pub enabled: Vec<String>,
    pub check_paths: Vec<(String, String)>,
}

/// What is measured on one host, as a value of the specification language.
pub ghost struct Wanted {
    pub enabled: Seq<Seq<char>>,
    pub paths: Seq<(Seq<char>, Seq<char>)>,
}

impl View for HostCheckConfig {
    type V = Wanted;

    open spec fn view(&self) -> Wanted {
        Wanted { enabled: texts(self.enabled@), paths: pair_texts(self.check_paths@) }
    }
}

impl Wanted {
    /// Nothing is measured.
    pub open spec fn nothing() -> Wanted {
        Wanted { enabled: Seq::empty(), paths: Seq::empty() }
    }

    /// With all that an entry asks for, each thing once.
    pub open spec fn with_entry(self, e: CheckEntry) -> Wanted {
        Wanted {
            enabled: with_all_new(self.enabled, texts(e.enabled@)),
            paths: with_all_new(self.paths, path_pairs(e.path@)),
        }
    }

    /// Whether nothing is measured.
    pub open spec fn is_nothing(self) -> bool {
        self.enabled.len() == 0 && self.paths.len() == 0
    }
}

/// The paths of an entry with their labels.
pub open spec fn path_pairs(list: Seq<CheckPath>) -> Seq<(Seq<char>, Seq<char>)> {
    Seq::new(list.len(), |i: int| (list[i].path@, list[i].label@))
}

/// What a row of entries asks for together.
pub open spec fn merged(entries: Seq<CheckEntry>) -> Wanted
    decreases entries.len(),
{
    if entries.len() == 0 {
        Wanted::nothing()
    } else {
        merged(entries.drop_last()).with_entry(entries.last())
    }
}

/// The entries that are scoped to one of a host's groups, among the groups that
/// the check is aimed at, group by group.
pub open spec fn group_entries(
    checks: Seq<CheckEntry>,
    own: Seq<Seq<char>>,
    groups: Seq<Seq<char>>,
) -> Seq<CheckEntry>
    decreases own.len(),
{
    if own.len() == 0 {
        Seq::empty()
    } else {
        let before = group_entries(checks, own.drop_last(), groups);
        let g = own.last();
        if groups.contains(g) {
            before + checks.filter(|e: CheckEntry| texts(e.groups@).contains(g))
        } else {
            before
        }
    }
}

/// What is measured on a host. Aimed at groups, a host is measured by the entries
/// of its own groups; otherwise by all entries that apply.
pub open spec fn host_wants(checks: Seq<CheckEntry>, mode: TargetView, h: HostEntry) -> Wanted {
    match mode {
        TargetView::Groups(groups) => merged(group_entries(checks, texts(h.groups@), groups)),
        _ => merged(checks.filter(|e: CheckEntry| applies(e, mode))),
    }
}

/// What is measured on each of the hosts, by name; hosts on which nothing is
/// measured are left out.
pub open spec fn all_wants(
    checks: Seq<CheckEntry>,
    mode: TargetView,
    hosts: Seq<HostEntry>,
) -> Map<Seq<char>, Wanted>
    decreases hosts.len(),
{
    if hosts.len() == 0 {
        Map::empty()
    } else {
        let before = all_wants(checks, mode, hosts.drop_last());
        let w = host_wants(checks, mode, hosts.last());
        if w.is_nothing() {
            before
        } else {
            before.insert(hosts.last().name@, w)
        }
    }
}

/// What is measured on each host, by name.
pub open spec fn wants(m: TextMap<HostCheckConfig>) -> Map<Seq<char>, Wanted> {
    m@.map_values(|c: HostCheckConfig| c@)
}

fn pair_listed(list: &[(String, String)], path: &str, label: &str) -> (r: bool)
    ensures
        r == pair_texts(list@).contains((path@, label@)),
{
    let ghost all = pair_texts(list@);
    let mut i: usize = 0;
    while i < list.len()
        invariant
            i <= list.len(),
            all == pair_texts(list@),
            forall|j: int| 0 <= j < i ==> #[trigger] all[j] != (path@, label@),
        decreases list.len() - i,
    {
        assert(all[i as int] == (list@[i as int].0@, list@[i as int].1@));
        if same(list[i].0.as_str(), path) && same(list[i].1.as_str(), label) {
            return true;
        }
        i += 1;
    }
    false
}

impl HostCheckConfig {
    fn nothing() -> (r: HostCheckConfig)
        ensures
            r@ == Wanted::nothing(),
    {
        let r = HostCheckConfig { enabled: Vec::new(), check_paths: Vec::new() };
        assert(texts(r.enabled@) =~= Seq::empty());
        assert(pair_texts(r.check_paths@) =~= Seq::empty());
        r
    }

    fn add(&mut self, e: &CheckEntry)
        ensures
            final(self)@ == old(self)@.with_entry(*e),
    {
        push_all_new(&mut self.enabled, e.enabled.as_slice());
        let ghost start = pair_texts(self.check_paths@);
        let ghost more = path_pairs(e.path@);
        let ghost enabled = self.enabled;
        let mut i: usize = 0;
        assert(more.take(0) =~= Seq::empty());
        while i < e.path.len()
            invariant
                i <= e.path@.len(),
                more == path_pairs(e.path@),
                self.enabled == enabled,
                pair_texts(self.check_paths@) == with_all_new(start, more.take(i as int)),
            decreases e.path@.len() - i,
        {
            proof {
                assert(more.take(i + 1).drop_last() =~= more.take(i as int));
                assert(more.take(i + 1).last() == (e.path@[i as int].path@, e.path@[i as int].label@));
            }
            let path = e.path[i].path.as_str();
            let label = e.path[i].label.as_str();
            let ghost before = pair_texts(self.check_paths@);
            if !pair_listed(self.check_paths.as_slice(), path, label) {
                self.check_paths.push((copy(path), copy(label)));
                assert(pair_texts(self.check_paths@) =~= before.push((path@, label@)));
            }
            i += 1;
        }
        assert(more.take(i as int) =~= more);
    }

    fn add_all(&mut self, entries: &Vec<&CheckEntry>, Ghost(before): Ghost<Seq<CheckEntry>>)
        requires
            old(self)@ == merged(before),
        ensures
            final(self)@ == merged(before + pointees(entries@)),
    {
        let ghost more = pointees(entries@);
        let mut i: usize = 0;
        assert(before + more.take(0) =~= before);
        while i < entries.len()
            invariant
                i <= entries@.len(),
                more == pointees(entries@),
                self@ == merged(before + more.take(i as int)),
            decreases entries@.len() - i,
        {
            assert((before + more.take(i + 1)).drop_last() =~= before + more.take(i as int));
            assert((before + more.take(i + 1)).last() == *entries@[i as int]);
            self.add(entries[i]);
            i += 1;
        }
        assert(more.take(i as int) =~= more);
    }

    fn copy(&self) -> (r: HostCheckConfig)
        ensures
            r@ == self@,
    {
        HostCheckConfig {
            enabled: copy_all(self.enabled.as_slice()),
            check_paths: copy_pairs(self.check_paths.as_slice()),
        }
    }
}

fn host_config(ctx: &Context, groups: &Vec<String>, h: &HostEntry) -> (r: HostCheckConfig)
    ensures
        r@ == merged(group_entries(ctx.config.check@, texts(h.groups@), texts(groups@))),
{
    let ghost own = texts(h.groups@);
    let ghost wanted = texts(groups@);
    let mut c = HostCheckConfig::nothing();
    let mut i: usize = 0;
    assert(own.take(0) =~= Seq::empty());
    while i < h.groups.len()
        invariant
            i <= h.groups@.len(),
            own == texts(h.groups@),
            wanted == texts(groups@),
            c@ == merged(group_entries(ctx.config.check@, own.take(i as int), wanted)),
        decreases h.groups@.len() - i,
    {
        assert(own.take(i + 1).drop_last() =~= own.take(i as int));
        assert(own.take(i + 1).last() == h.groups@[i as int]@);
        let g = h.groups[i].as_str();
        if listed(groups.as_slice(), g) {
            let entries = ctx.resolve_checks_for_group(g);
            c.add_all(
                &entries,
                Ghost(group_entries(ctx.config.check@, own.take(i as int), wanted)),
            );
        }
        i += 1;
    }
    assert(own.take(i as int) =~= own);
    c
}

/// Works out what is measured on each host.
pub fn build_host_check_configs(ctx: &Context, hosts: &[&HostEntry]) -> (r: TextMap<
    HostCheckConfig,
>)
    ensures
        r.wf(),
        wants(r) == all_wants(ctx.config.check@, ctx.mode@, pointees(hosts@)),
{
    let ghost all = pointees(hosts@);
    let ghost checks = ctx.config.check@;
    let mut shared = HostCheckConfig::nothing();
    match &ctx.mode {
        TargetMode::Groups(groups) => {},
        _ => {
            let entries = ctx.resolve_checks();
            shared.add_all(&entries, Ghost(Seq::empty()));
            assert(Seq::<CheckEntry>::empty() + pointees(entries@) =~= pointees(entries@));
        },
    }
    let mut out: TextMap<HostCheckConfig> = TextMap::new();
    let mut i: usize = 0;
    assert(wants(out) =~= all_wants(checks, ctx.mode@, all.take(0)));
    while i < hosts.len()
        invariant
            i <= hosts@.len(),
            all == pointees(hosts@),
            checks == ctx.config.check@,
            !(ctx.mode is Groups) ==> shared@ == merged(
                checks.filter(|e: CheckEntry| applies(e, ctx.mode@)),
            ),
            out.wf(),
            wants(out) == all_wants(checks, ctx.mode@, all.take(i as int)),
        decreases hosts@.len() - i,
    {
        assert(all.take(i + 1).drop_last() =~= all.take(i as int));
        assert(all.take(i + 1).last() == *hosts@[i as int]);
        let h = hosts[i];
        let c = match &ctx.mode {
            TargetMode::Groups(groups) => host_config(ctx, groups, h),
            _ => shared.copy(),
        };
        assert(c@ == host_wants(checks, ctx.mode@, *h));
        assert(c@.enabled.len() == c.enabled@.len());
        assert(c@.paths.len() == c.check_paths@.len());
        if c.enabled.len() > 0 || c.check_paths.len() > 0 {
            let ghost before = out;
            let ghost w = c@;
            out.insert(copy(h.name.as_str()), c);
            assert(wants(out) =~= wants(before).insert(h.name@, w));
        }
        i += 1;
    }
    assert(all.take(i as int) =~= all);
    out
}

/// Whether a metric is asked for on some host.
pub open spec fn asked_somewhere(m: Map<Seq<char>, Wanted>, metric: Seq<char>) -> bool {
    exists|h: Seq<char>| #[trigger] m.dom().contains(h) && m[h].enabled.contains(metric)
}

/// Lists the metrics that are asked for on some host, in the order of the
/// alphabet and each once.
pub fn enabled_metrics(configs: &TextMap<HostCheckConfig>) -> (r: Vec<String>)
    requires
        configs.wf(),
    ensures
        ascending(texts(r@), by_text()),
        forall|metric: Seq<char>| #[trigger]
            texts(r@).contains(metric) <==> asked_somewhere(wants(*configs), metric),
{
    let ghost m = wants(*configs);
    let mut out: Vec<String> = Vec::new();
    let mut i: usize = 0;
    proof {
        by_text_is_strict();
    }
    let ghost mut seen = Seq::<Seq<char>>::empty();
    assert(texts(out@) =~= sorted_set(seen, by_text()));
    while i < configs.entries.len()
        invariant
            i <= configs.entries@.len(),
            configs.wf(),
            m == wants(*configs),
            texts(out@) == sorted_set(seen, by_text()),
            forall|x: Seq<char>| #[trigger]
                seen.contains(x) <==> exists|j: int|
                    0 <= j < i && texts((#[trigger] configs.entries@[j]).1.enabled@).contains(x),
        decreases configs.entries@.len() - i,
    {
        let list = &configs.entries[i].1.enabled;
        let ghost start = seen;
        let mut k: usize = 0;
        while k < list.len()
            invariant
                k <= list@.len(),
                texts(out@) == sorted_set(seen, by_text()),
                seen == start + texts(list@).take(k as int),
            decreases list@.len() - k,
        {
            insert_sorted(&mut out, list[k].as_str());
            proof {
                let next = seen.push(list@[k as int]@);
                assert(next.drop_last() =~= seen);
                seen = next;
                assert(seen =~= start + texts(list@).take(k + 1));
            }
            k += 1;
        }
        proof {
            assert(texts(list@).take(k as int) =~= texts(list@));
            assert forall|x: Seq<char>| #[trigger] seen.contains(x) <==> exists|j: int|
                0 <= j < i + 1 && texts((#[trigger] configs.entries@[j]).1.enabled@).contains(x) by {
                if seen.contains(x) {
                    let n = seen.index_of(x);
                    if n < start.len() {
                        assert(start[n] == x);
                        assert(start.contains(x));
                    } else {
                        assert(texts(list@)[n - start.len()] == x);
                        assert(texts(configs.entries@[i as int].1.enabled@).contains(x));
                    }
                }
                if exists|j: int|
                    0 <= j < i + 1 && texts((#[trigger] configs.entries@[j]).1.enabled@).contains(x) {
                    let j = choose|j: int|
                        0 <= j < i + 1 && texts((#[trigger] configs.entries@[j]).1.enabled@).contains(x);
                    if j < i {
                        assert(start.contains(x));
                        let n = start.index_of(x);
                        assert(seen[n] == x);
                    } else {
                        let n = texts(list@).index_of(x);
                        assert(seen[start.len() + n] == x);
                    }
                }
            }
        }
        i += 1;
    }
    proof {
        sorted_set_facts(seen, by_text());
        assert forall|metric: Seq<char>| #[trigger]
            texts(out@).contains(metric) <==> asked_somewhere(m, metric) by {
            assert(texts(out@).contains(metric) <==> seen.contains(metric));
            if seen.contains(metric) {
                let j = choose|j: int|
                    0 <= j < i && texts((#[trigger] configs.entries@[j]).1.enabled@).contains(metric);
                configs.value_at(j);
                assert(m.dom().contains(configs.entries@[j].0@));
            }
            if asked_somewhere(m, metric) {
                let h = choose|h: Seq<char>| #[trigger]
                    m.dom().contains(h) && m[h].enabled.contains(metric);
                let j = configs.keys().index_of(h);
                assert(configs.entries@[j].0@ == h);
                configs.value_at(j);
                assert(texts(configs.entries@[j].1.enabled@).contains(metric));
            }
        }
    }
    out
}

// ---------------------------------------------------------------------------
// What the answers amount to
// ---------------------------------------------------------------------------

/// The status of a host on which so many parts were measured and so many were
/// not.
pub open spec fn check_status(succeeded: nat, failed: nat) -> HostStatus {
    if succeeded == 0 {
        HostStatus::Offline
    } else if failed > 0 {
        HostStatus::Partial
    } else {
        HostStatus::Online
    }
}

/// The first error of a list, or that there is none known.
pub open spec fn first_error(errors: Seq<Seq<char>>) -> Seq<char> {
    if errors.len() > 0 {
        errors[0]
    } else {
        "unknown"@
    }
}

/// What is shown of a host that was measured; `took` is the time in seconds.
pub open spec fn check_detail(c: CollectionView, took: Seq<char>) -> Seq<char> {
    match check_status(c.succeeded, c.failed) {
        HostStatus::Offline => "failed ("@ + took + "s) — "@ + first_error(c.errors),
        HostStatus::Partial => "partial ("@ + decimal(c.succeeded) + "/"@ + decimal(
            c.succeeded + c.failed,
        ) + " metrics, "@ + took + "s) — warn: "@ + first_error(c.errors),
        _ => "collected ("@ + decimal(c.succeeded) + " metrics, "@ + took + "s)"@,
    }
}

/// The row of a host that could not be reached.
pub open spec fn unreachable_row(host: Seq<char>, error: Seq<char>) -> CheckRow {
    CheckRow {
        host,
        status: HostStatus::Unreachable,
        duration_ms: None,
        detail: "unreachable — "@ + error,
        metrics_succeeded: 0,
        metrics_failed: 0,
        data: Map::empty(),
        raw_stdout: Seq::empty(),
        raw_stderr: Seq::empty(),
    }
}

/// The row of a host on which the check broke off.
pub open spec fn broken_row(host: Seq<char>, error: Seq<char>, ms: u64) -> CheckRow {
    CheckRow {
        host,
        status: HostStatus::Error,
        duration_ms: Some(ms),
        detail: error,
        metrics_succeeded: 0,
        metrics_failed: 0,
        data: Map::empty(),
        raw_stdout: Seq::empty(),
        raw_stderr: Seq::empty(),
    }
}

/// The row of a host that was measured.
pub open spec fn measured_row(
    host: Seq<char>,
    c: CollectionView,
    took: Seq<char>,
    ms: u64,
    raw_stdout: Seq<char>,
    raw_stderr: Seq<char>,
) -> CheckRow {
    CheckRow {
        host,
        status: check_status(c.succeeded, c.failed),
        duration_ms: Some(ms),
        detail: check_detail(c, took),
        metrics_succeeded: c.succeeded,
        metrics_failed: c.failed,
        data: c.values,
        raw_stdout,
        raw_stderr,
    }
}

/// What came back from a host that was asked.
pub struct CheckOutcome {
    pub host: String,
    pub result: Result<CollectionResult, Error>,
    /// The time it took, in seconds with one digit behind the point.
    pub took: String,
    pub ms: u64,
    pub raw_stdout: String,
    pub raw_stderr: String,
}

impl CheckOutcome {
    /// The counts fit in a machine word, and the snapshot is well formed.
    pub open spec fn wf(&self) -> bool {
        self.result matches Ok(c) ==> c.succeeded + c.failed <= usize::MAX && snapshot_wf(c.data)
    }

    /// The row of the host.
    pub open spec fn row(&self) -> CheckRow {
        match self.result {
            Ok(c) => measured_row(
                self.host@,
                c@,
                self.took@,
                self.ms,
                self.raw_stdout@,
                self.raw_stderr@,
            ),
            Err(e) => broken_row(self.host@, e@, self.ms),
        }
    }
}

fn first_error_text(errors: &Vec<String>) -> (r: String)
    ensures
        r@ == first_error(texts(errors@)),
{
    assert(texts(errors@).len() == errors@.len());
    if errors.len() > 0 {
        assert(texts(errors@)[0] == errors@[0]@);
        copy(errors[0].as_str())
    } else {
        copy("unknown")
    }
}

fn detail_text(c: &CollectionResult, took: &str) -> (r: String)
    requires
        c.succeeded + c.failed <= usize::MAX,
    ensures
        r@ == check_detail(c@, took@),
{
    if c.succeeded == 0 {
        let mut out = concat3("failed (", took, "s) — ");
        out.append(first_error_text(&c.errors).as_str());
        out
    } else if c.failed > 0 {
        let mut out = concat3("partial (", usize_text(c.succeeded).as_str(), "/");
        out.append(usize_text(c.succeeded + c.failed).as_str());
        out.append(" metrics, ");
        out.append(took);
        out.append("s) — warn: ");
        out.append(first_error_text(&c.errors).as_str());
        out
    } else {
        let mut out = concat3("collected (", usize_text(c.succeeded).as_str(), " metrics, ");
        out.append(took);
        out.append("s)");
        out
    }
}

/// The result for a host that could not be reached.
pub fn unreachable_result(host: &str, error: &str) -> (r: CheckHostResult)
    ensures
        snapshot_wf(r.data),
        r@ == unreachable_row(host@, error@),
{
    let r = CheckHostResult {
        host: copy(host),
        status: HostStatus::Unreachable,
        duration_ms: None,
        detail: concat2("unreachable — ", error),
        metrics_succeeded: 0,
        metrics_failed: 0,
        data: no_values(),
        raw_stdout: String::new(),
        raw_stderr: String::new(),
    };
    assert(r.raw_stdout@ =~= Seq::empty());
    r
}

/// The result for a host that was asked.
pub fn asked_result(o: CheckOutcome) -> (r: CheckHostResult)
    requires
        o.wf(),
    ensures
        snapshot_wf(r.data),
        r@ == o.row(),
{
    match o.result {
        Ok(c) => {
            let detail = detail_text(&c, o.took.as_str());
            let status = if c.succeeded == 0 {
                HostStatus::Offline
            } else if c.failed > 0 {
                HostStatus::Partial
            } else {
                HostStatus::Online
            };
            CheckHostResult {
                host: o.host,
                status,
                duration_ms: Some(o.ms),
                detail,
                metrics_succeeded: c.succeeded,
                metrics_failed: c.failed,
                data: c.data,
                raw_stdout: o.raw_stdout,
                raw_stderr: o.raw_stderr,
            }
        },
        Err(e) => {
            let r = CheckHostResult {
                host: o.host,
                status: HostStatus::Error,
                duration_ms: Some(o.ms),
                detail: e.message,
                metrics_succeeded: 0,
                metrics_failed: 0,
                data: no_values(),
                raw_stdout: String::new(),
                raw_stderr: String::new(),
            };
            assert(r.raw_stdout@ =~= Seq::empty());
            r
        },
    }
}

/// The rows of a check: the hosts that could not be reached, then those that
/// were asked.
pub open spec fn check_result_rows(
    failed: Seq<(Seq<char>, Seq<char>)>,
    outcomes: Seq<CheckOutcome>,
) -> Seq<CheckRow> {
    Seq::new(failed.len(), |i: int| unreachable_row(failed[i].0, failed[i].1)) + Seq::new(
        outcomes.len(),
        |i: int| outcomes[i].row(),
    )
}

/// Whether a snapshot is kept as that of a host that is up: where at least one
/// part was measured.
pub fn is_online(status: HostStatus) -> (r: bool)
    ensures
        r == (status == HostStatus::Online || status == HostStatus::Partial),
{
    match status {
        HostStatus::Online | HostStatus::Partial => true,
        _ => false,
    }
}

/// Of the hosts that can be reached, those on which something is measured.
pub fn asked_hosts<'a>(reachable: &[&'a HostEntry], configs: &TextMap<HostCheckConfig>) -> (r: Vec<
    &'a HostEntry,
>)
    requires
        configs.wf(),
    ensures
        pointees(r@) == pointees(reachable@).filter(
            |h: HostEntry| wants(*configs).dom().contains(h.name@),
        ),
{
    let ghost all = pointees(reachable@);
    let ghost p = |h: HostEntry| wants(*configs).dom().contains(h.name@);
    let mut out: Vec<&'a HostEntry> = Vec::new();
    let mut i: usize = 0;
    proof {
        crate::host::filter::filter_none(all, p);
        assert(pointees(out@) =~= Seq::empty());
    }
    while i < reachable.len()
        invariant
            i <= reachable@.len(),
            configs.wf(),
            all == pointees(reachable@),
            p == (|h: HostEntry| wants(*configs).dom().contains(h.name@)),
            pointees(out@) == all.take(i as int).filter(p),
        decreases reachable@.len() - i,
    {
        proof {
            crate::host::filter::filter_next(all, p, i as int);
        }
        let h = reachable[i];
        let ghost before = pointees(out@);
        if configs.get(h.name.as_str()).is_some() {
            out.push(h);
            assert(pointees(out@) =~= before.push(*h));
        }
        i += 1;
    }
    assert(all.take(i as int) =~= all);
    out
}

/// Puts the report of a check together: from the hosts that could not be reached
/// and the outcomes on those that were asked.
pub fn check_core(
    executed_at: String,
    configs: &TextMap<HostCheckConfig>,
    targets: Vec<String>,
    failed: &[(String, String)],
    outcomes: Vec<CheckOutcome>,
) -> (r: CheckReport)
    requires
        configs.wf(),
        forall|i: int| 0 <= i < outcomes@.len() ==> (#[trigger] outcomes@[i]).wf(),
    ensures
        r.executed_at == executed_at,
        r.targets == targets,
        ascending(texts(r.enabled_metrics@), by_text()),
        forall|metric: Seq<char>| #[trigger]
            texts(r.enabled_metrics@).contains(metric) <==> asked_somewhere(wants(*configs), metric),
        check_rows(r.hosts@) == check_result_rows(pair_texts(failed@), outcomes@),
        forall|i: int| 0 <= i < r.hosts@.len() ==> snapshot_wf((#[trigger] r.hosts@[i]).data),
{
    let metrics = enabled_metrics(configs);
    let ghost down = pair_texts(failed@);
    let ghost want_down = Seq::new(down.len(), |i: int| unreachable_row(down[i].0, down[i].1));
    let mut hosts: Vec<CheckHostResult> = Vec::new();
    let mut i: usize = 0;
    while i < failed.len()
        invariant
            i <= failed@.len(),
            down == pair_texts(failed@),
            want_down == Seq::new(down.len(), |i: int| unreachable_row(down[i].0, down[i].1)),
            check_rows(hosts@) == want_down.take(i as int),
            forall|j: int| 0 <= j < hosts@.len() ==> snapshot_wf((#[trigger] hosts@[j]).data),
        decreases failed@.len() - i,
    {
        let ghost before = check_rows(hosts@);
        let row = unreachable_result(failed[i].0.as_str(), failed[i].1.as_str());
        let ghost v = row@;
        hosts.push(row);
        assert(check_rows(hosts@) =~= before.push(v));
        assert(want_down[i as int] == v);
        i += 1;
        assert(before.push(v) =~= want_down.take(i as int));
    }
    assert(want_down.take(i as int) =~= want_down);
    let ghost given = outcomes@;
    let ghost want_up = Seq::new(given.len(), |i: int| given[i].row());
    let mut rest = outcomes;
    let mut asked: Vec<CheckHostResult> = Vec::new();
    assert(given.skip(0) =~= given);
    while rest.len() > 0
        invariant
            rest@.len() <= given.len(),
            rest@ == given.take(rest@.len() as int),
            want_up == Seq::new(given.len(), |i: int| given[i].row()),
            forall|i: int| 0 <= i < given.len() ==> (#[trigger] given[i]).wf(),
            check_rows(asked@).reverse() == want_up.skip(rest@.len() as int),
            forall|j: int| 0 <= j < asked@.len() ==> snapshot_wf((#[trigger] asked@[j]).data),
        decreases rest@.len(),
    {
        let ghost n = rest@.len() as int;
        let ghost before = check_rows(asked@);
        match rest.pop() {
            Some(o) => {
                assert(o == given[n - 1]);
                assert(rest@ =~= given.take(n - 1));
                let row = asked_result(o);
                let ghost v = row@;
                asked.push(row);
                assert(check_rows(asked@) =~= before.push(v));
                assert(want_up[n - 1] == v);
                assert(before.push(v).reverse() =~= seq![v] + before.reverse());
                assert(seq![v] + want_up.skip(n) =~= want_up.skip(n - 1));
            },
            None => {},
        }
    }
    let ghost asked_rows = check_rows(asked@);
    assert(want_up.skip(0) =~= want_up);
    let ghost start = check_rows(hosts@);
    while asked.len() > 0
        invariant
            asked@.len() <= asked_rows.len(),
            check_rows(asked@) == asked_rows.take(asked@.len() as int),
            asked_rows.reverse() == want_up,
            check_rows(hosts@) == start + want_up.take(asked_rows.len() - asked@.len()),
            forall|j: int| 0 <= j < asked@.len() ==> snapshot_wf((#[trigger] asked@[j]).data),
            forall|j: int| 0 <= j < hosts@.len() ==> snapshot_wf((#[trigger] hosts@[j]).data),
        decreases asked@.len(),
    {
        let ghost n = asked@.len() as int;
        let ghost before = check_rows(hosts@);
        let ghost list = asked@;
        match asked.pop() {
            Some(row) => {
                let ghost v = row@;
                assert(check_rows(list)[n - 1] == v);
                assert(asked_rows[n - 1] == v);
                assert(check_rows(asked@) =~= asked_rows.take(n - 1));
                hosts.push(row);
                assert(check_rows(hosts@) =~= before.push(v));
                assert(want_up[asked_rows.len() - n] == v);
                assert(before.push(v) =~= start + want_up.take(asked_rows.len() - (n - 1)));
            },
            None => {},
        }
    }
    assert(want_up.take(asked_rows.len() as int) =~= want_up);
    CheckReport { executed_at, enabled_metrics: metrics, targets, hosts }
}

// ---------------------------------------------------------------------------
// What is shown
// ---------------------------------------------------------------------------

/// The kind of line that is printed for a host.
pub fn line_kind(status: HostStatus) -> (r: &'static str)
    ensures
        r@ == (match status {
            HostStatus::Online => "ok"@,
            HostStatus::Partial => "skip"@,
            _ => "error"@,
        }),
{
    match status {
        HostStatus::Online => "ok",
        HostStatus::Partial => "skip",
        _ => "error",
    }
}

/// The error of a host that could not be reached, without the words that say so.
pub open spec fn bare_error(detail: Seq<char>) -> Seq<char> {
    match after_prefix(detail, "unreachable — "@) {
        Some(rest) => rest,
        None => detail,
    }
}

fn bare_error_text(detail: &str) -> (r: String)
    ensures
        r@ == bare_error(detail@),
{
    match strip_prefix(detail, "unreachable — ") {
        Some(rest) => rest,
        None => copy(detail),
    }
}

/// How a host counts: it succeeded where something was measured.
pub open spec fn check_verdict(row: CheckRow) -> VerdictView {
    match row.status {
        HostStatus::Online | HostStatus::Partial => VerdictView::Success,
        HostStatus::Offline | HostStatus::Error | HostStatus::TimedOut => VerdictView::Failure(
            row.detail,
        ),
        HostStatus::Unreachable => VerdictView::Failure(bare_error(row.detail)),
        HostStatus::Skipped => VerdictView::Uncounted,
    }
}

/// The counts of a check.
pub open spec fn check_tally(rows: Seq<CheckRow>) -> Tally
    decreases rows.len(),
{
    if rows.len() == 0 {
        no_tally()
    } else {
        check_tally(rows.drop_last()).counted(rows.last().host, check_verdict(rows.last()))
    }
}

proof fn check_tally_counts(rows: Seq<CheckRow>)
    ensures
        check_tally(rows).succeeded + check_tally(rows).failed + check_tally(rows).skipped
            <= rows.len(),
    decreases rows.len(),
{
    if rows.len() > 0 {
        check_tally_counts(rows.drop_last());
    }
}

/// Sums a check up.
pub fn summarize(hosts: &[CheckHostResult]) -> (r: Summary)
    ensures
        r.wf(),
        tally_of(r) == check_tally(check_rows(hosts@)),
        r.skip_reasons@.len() == 0,
{
    let ghost rows = check_rows(hosts@);
    let mut s = no_summary();
    let mut i: usize = 0;
    assert(rows.take(0) =~= Seq::empty());
    while i < hosts.len()
        invariant
            i <= hosts@.len(),
            rows == check_rows(hosts@),
            s.wf(),
            s.skip_reasons@.len() == 0,
            tally_of(s) == check_tally(rows.take(i as int)),
        decreases hosts@.len() - i,
    {
        proof {
            assert(rows.take(i + 1).drop_last() =~= rows.take(i as int));
            assert(rows.take(i + 1).last() == hosts@[i as int]@);
            check_tally_counts(rows.take(i as int));
        }
        let h = &hosts[i];
        let v = match h.status {
            HostStatus::Online | HostStatus::Partial => Verdict::Success,
            HostStatus::Offline | HostStatus::Error | HostStatus::TimedOut => Verdict::Failure(
                copy(h.detail.as_str()),
            ),
            HostStatus::Unreachable => Verdict::Failure(bare_error_text(h.detail.as_str())),
            HostStatus::Skipped => Verdict::Uncounted,
        };
        count(&mut s, h.host.as_str(), v);
        i += 1;
    }
    assert(rows.take(i as int) =~= rows);
    s
}

/// The entry of a host in the written report.
pub open spec fn check_result(row: CheckRow) -> ResultView {
    ResultView {
        host: row.host,
        status: if row.status == HostStatus::Online || row.status == HostStatus::Partial {
            "success"@
        } else {
            "error"@
        },
        duration_ms: row.duration_ms,
    }
}

/// The error that the written report gives for a host; none where the host was
/// measured.
pub open spec fn check_result_error(row: CheckRow) -> Option<Seq<char>> {
    match row.status {
        HostStatus::Unreachable => Some("unreachable: "@ + bare_error(row.detail)),
        HostStatus::Error => Some(row.detail),
        _ => None,
    }
}

/// Whether the output in the written report is what the check found.
pub open spec fn check_output(row: CheckRow, out: HostOutput) -> bool {
    match check_result_error(row) {
        Some(e) => out matches HostOutput::CheckError(error) && error@ == e,
        None => out matches HostOutput::Check { metrics, stdout, stderr } && {
            &&& values(metrics) == row.data
            &&& snapshot_wf(metrics)
            &&& stdout@ == row.raw_stdout
            &&& stderr@ == row.raw_stderr
        },
    }
}

/// Writes the entry of a host in the written report.
pub fn report_result(h: CheckHostResult) -> (r: HostResult)
    requires
        snapshot_wf(h.data),
    ensures
        r@ == check_result(h@),
        check_output(h@, r.output),
{
    let status = if is_online(h.status) {
        copy("success")
    } else {
        copy("error")
    };
    let output = match h.status {
        HostStatus::Unreachable => HostOutput::CheckError(
            concat2("unreachable: ", bare_error_text(h.detail.as_str()).as_str()),
        ),
        HostStatus::Error => HostOutput::CheckError(h.detail),
        _ => HostOutput::Check { metrics: h.data, stdout: h.raw_stdout, stderr: h.raw_stderr },
    };
    HostResult { host: h.host, status, duration_ms: h.duration_ms, output }
}

/// What is said where no entry applies.
pub const NO_ENTRIES: &'static str =
    "No check entries matched the current filter. Add [[check]] to config.toml.";

// ---------------------------------------------------------------------------
// Laws
// ---------------------------------------------------------------------------

/// A host is kept as one that is up exactly where something was measured on it.
pub proof fn online_means_measured(succeeded: nat, failed: nat)
    ensures
        ({
            let s = check_status(succeeded, failed);
            (s == HostStatus::Online || s == HostStatus::Partial) <==> succeeded > 0
        }),
        check_status(succeeded, failed) == HostStatus::Online <==> succeeded > 0 && failed == 0,
{
}

/// Every targeted host that was tried has exactly one row: the unreachable ones
/// and the asked ones.
pub proof fn every_tried_host_has_a_row(
    failed: Seq<(Seq<char>, Seq<char>)>,
    outcomes: Seq<CheckOutcome>,
)
    ensures
        check_result_rows(failed, outcomes).len() == failed.len() + outcomes.len(),
        forall|i: int|
            0 <= i < failed.len() ==> (#[trigger] check_result_rows(failed, outcomes)[i]).host
                == failed[i].0,
        forall|i: int|
            0 <= i < outcomes.len() ==> check_result_rows(failed, outcomes)[failed.len() + i].host
                == (#[trigger] outcomes[i]).host@,
{
}

/// What a row of entries asks for together is what one of them asks for, each thing
/// once.
pub proof fn merged_entries_ask_for_all(entries: Seq<CheckEntry>)
    ensures
        forall|m: Seq<char>| #[trigger]
            merged(entries).enabled.contains(m) <==> exists|k: int|
                0 <= k < entries.len() && texts((#[trigger] entries[k]).enabled@).contains(m),
        forall|p: (Seq<char>, Seq<char>)| #[trigger]
            merged(entries).paths.contains(p) <==> exists|k: int|
                0 <= k < entries.len() && path_pairs((#[trigger] entries[k]).path@).contains(p),
        merged(entries).enabled.no_duplicates(),
        merged(entries).paths.no_duplicates(),
    decreases entries.len(),
{
    if entries.len() > 0 {
        let rest = entries.drop_last();
        let e = entries.last();
        merged_entries_ask_for_all(rest);
        with_all_new_facts(merged(rest).enabled, texts(e.enabled@));
        with_all_new_facts(merged(rest).paths, path_pairs(e.path@));
        assert(entries[entries.len() - 1] == e);
        assert forall|m: Seq<char>| #[trigger]
            merged(entries).enabled.contains(m) <==> exists|k: int|
                0 <= k < entries.len() && texts((#[trigger] entries[k]).enabled@).contains(m) by {
            assert(merged(entries).enabled.contains(m) <==> merged(rest).enabled.contains(m)
                || texts(e.enabled@).contains(m));
            if merged(rest).enabled.contains(m) {
                let k = choose|k: int|
                    0 <= k < rest.len() && texts((#[trigger] rest[k]).enabled@).contains(m);
                assert(entries[k] == rest[k]);
            }
            if exists|k: int|
                0 <= k < entries.len() && texts((#[trigger] entries[k]).enabled@).contains(m) {
                let k = choose|k: int|
                    0 <= k < entries.len() && texts((#[trigger] entries[k]).enabled@).contains(m);
                if k < rest.len() {
                    assert(rest[k] == entries[k]);
                }
            }
        }
        assert forall|p: (Seq<char>, Seq<char>)| #[trigger]
            merged(entries).paths.contains(p) <==> exists|k: int|
                0 <= k < entries.len() && path_pairs((#[trigger] entries[k]).path@).contains(p) by {
            assert(merged(entries).paths.contains(p) <==> merged(rest).paths.contains(p)
                || path_pairs(e.path@).contains(p));
            if merged(rest).paths.contains(p) {
                let k = choose|k: int|
                    0 <= k < rest.len() && path_pairs((#[trigger] rest[k]).path@).contains(p);
                assert(entries[k] == rest[k]);
            }
            if exists|k: int|
                0 <= k < entries.len() && path_pairs((#[trigger] entries[k]).path@).contains(p) {
                let k = choose|k: int|
                    0 <= k < entries.len() && path_pairs((#[trigger] entries[k]).path@).contains(p);
                if k < rest.len() {
                    assert(rest[k] == entries[k]);
                }
            }
        }
    }
}

proof fn group_entries_hold(
    checks: Seq<CheckEntry>,
    own: Seq<Seq<char>>,
    groups: Seq<Seq<char>>,
    e: CheckEntry,
)
    ensures
        group_entries(checks, own, groups).contains(e) <==> checks.contains(e) && exists|
            g: Seq<char>,
        | #[trigger]
            own.contains(g) && groups.contains(g) && texts(e.groups@).contains(g),
    decreases own.len(),
{
    if own.len() > 0 {
        let rest = own.drop_last();
        let last = own.last();
        group_entries_hold(checks, rest, groups, e);
        let before = group_entries(checks, rest, groups);
        let p = |x: CheckEntry| texts(x.groups@).contains(last);
        let more = checks.filter(p);
        filter_holds(checks, p, e);
        let all = group_entries(checks, own, groups);
        if groups.contains(last) {
            assert(all == before + more);
            if before.contains(e) {
                assert(all[before.index_of(e)] == e);
            }
            if more.contains(e) {
                assert(all[before.len() + more.index_of(e)] == e);
            }
            if all.contains(e) {
                let i = all.index_of(e);
                if i < before.len() {
                    assert(before[i] == e);
                } else {
                    assert(more[i - before.len()] == e);
                }
            }
        }
        assert(own[own.len() - 1] == last);
        assert(own.contains(last));
        assert forall|g: Seq<char>| #[trigger] own.contains(g) <==> rest.contains(g)
            || g == last by {
            if rest.contains(g) {
                assert(own[rest.index_of(g)] == g);
            }
            if own.contains(g) && g != last {
                assert(rest[own.index_of(g)] == g);
            }
        }
        if exists|g: Seq<char>| #[trigger]
            rest.contains(g) && groups.contains(g) && texts(e.groups@).contains(g) {
            let g = choose|g: Seq<char>| #[trigger]
                rest.contains(g) && groups.contains(g) && texts(e.groups@).contains(g);
            assert(own.contains(g));
        }
        if exists|g: Seq<char>| #[trigger]
            own.contains(g) && groups.contains(g) && texts(e.groups@).contains(g) {
            let g = choose|g: Seq<char>| #[trigger]
                own.contains(g) && groups.contains(g) && texts(e.groups@).contains(g);
            assert(rest.contains(g) || g == last);
        }
    }
}

/// Aimed at groups, a metric or a path is measured on a host exactly where some entry
/// asks for it and some group is at once one of the host's, one of the targeted ones and
/// one of the entry's.
pub proof fn groups_decide_what_is_measured(
    checks: Seq<CheckEntry>,
    groups: Seq<Seq<char>>,
    h: HostEntry,
    m: Seq<char>,
    p: (Seq<char>, Seq<char>),
)
    ensures
        host_wants(checks, TargetView::Groups(groups), h).enabled.contains(m) <==> exists|
            c: int,
            g: Seq<char>,
        |
            0 <= c < checks.len() && texts(checks[c].enabled@).contains(m) && texts(
                h.groups@,
            ).contains(g) && groups.contains(g) && #[trigger] texts(checks[c].groups@).contains(g),
        host_wants(checks, TargetView::Groups(groups), h).paths.contains(p) <==> exists|
            c: int,
            g: Seq<char>,
        |
            0 <= c < checks.len() && path_pairs(checks[c].path@).contains(p) && texts(
                h.groups@,
            ).contains(g) && groups.contains(g) && #[trigger] texts(checks[c].groups@).contains(g),
{
    let own = texts(h.groups@);
    let list = group_entries(checks, own, groups);
    merged_entries_ask_for_all(list);
    assert forall|e: CheckEntry| #[trigger] list.contains(e) <==> checks.contains(e) && exists|
        g: Seq<char>,
    | #[trigger] own.contains(g) && groups.contains(g) && texts(e.groups@).contains(g) by {
        group_entries_hold(checks, own, groups, e);
    }
    let w = merged(list);
    if w.enabled.contains(m) {
        let k = choose|k: int|
            0 <= k < list.len() && texts((#[trigger] list[k]).enabled@).contains(m);
        let e = list[k];
        assert(list.contains(e));
        let c = checks.index_of(e);
        let g = choose|g: Seq<char>| #[trigger]
            own.contains(g) && groups.contains(g) && texts(e.groups@).contains(g);
        assert(texts(checks[c].groups@).contains(g));
    }
    if exists|c: int, g: Seq<char>|
        0 <= c < checks.len() && texts(checks[c].enabled@).contains(m) && own.contains(g)
            && groups.contains(g) && #[trigger] texts(checks[c].groups@).contains(g) {
        let (c, g) = choose|c: int, g: Seq<char>|
            0 <= c < checks.len() && texts(checks[c].enabled@).contains(m) && own.contains(g)
                && groups.contains(g) && #[trigger] texts(checks[c].groups@).contains(g);
        assert(checks.contains(checks[c]));
        assert(own.contains(g));
        assert(list.contains(checks[c]));
        assert(texts(list[list.index_of(checks[c])].enabled@).contains(m));
    }
    if w.paths.contains(p) {
        let k = choose|k: int|
            0 <= k < list.len() && path_pairs((#[trigger] list[k]).path@).contains(p);
        let e = list[k];
        assert(list.contains(e));
        let c = checks.index_of(e);
        let g = choose|g: Seq<char>| #[trigger]
            own.contains(g) && groups.contains(g) && texts(e.groups@).contains(g);
        assert(texts(checks[c].groups@).contains(g));
    }
    if exists|c: int, g: Seq<char>|
        0 <= c < checks.len() && path_pairs(checks[c].path@).contains(p) && own.contains(g)
            && groups.contains(g) && #[trigger] texts(checks[c].groups@).contains(g) {
        let (c, g) = choose|c: int, g: Seq<char>|
            0 <= c < checks.len() && path_pairs(checks[c].path@).contains(p) && own.contains(g)
                && groups.contains(g) && #[trigger] texts(checks[c].groups@).contains(g);
        assert(checks.contains(checks[c]));
        assert(own.contains(g));
        assert(list.contains(checks[c]));
        assert(path_pairs(list[list.index_of(checks[c])].path@).contains(p));
    }
}

/// Aimed at all hosts, a metric is measured on every host where some entry that is
/// enabled for all asks for it; aimed at hosts by name or by shell, where some entry that
/// is enabled for those does.
pub proof fn entries_decide_what_is_measured(
    checks: Seq<CheckEntry>,
    names: Seq<Seq<char>>,
    shells: Seq<ShellType>,
    h: HostEntry,
    m: Seq<char>,
)
    ensures
        host_wants(checks, TargetView::All, h).enabled.contains(m) <==> exists|c: int|
            0 <= c < checks.len() && (#[trigger] checks[c]).enable_all && texts(
                checks[c].enabled@,
            ).contains(m),
        host_wants(checks, TargetView::Hosts(names), h).enabled.contains(m) <==> exists|c: int|
            0 <= c < checks.len() && (#[trigger] checks[c]).enable_hosts && texts(
                checks[c].enabled@,
            ).contains(m),
        host_wants(checks, TargetView::Shell(shells), h).enabled.contains(m) <==> exists|c: int|
            0 <= c < checks.len() && (#[trigger] checks[c]).enable_hosts && texts(
                checks[c].enabled@,
            ).contains(m),
{
    applying_entries_ask(checks, TargetView::All, m);
    applying_entries_ask(checks, TargetView::Hosts(names), m);
    applying_entries_ask(checks, TargetView::Shell(shells), m);
}

proof fn applying_entries_ask(checks: Seq<CheckEntry>, mode: TargetView, m: Seq<char>)
    ensures
        merged(checks.filter(|e: CheckEntry| applies(e, mode))).enabled.contains(m) <==> exists|
            c: int,
        |
            0 <= c < checks.len() && applies(#[trigger] checks[c], mode) && texts(
                checks[c].enabled@,
            ).contains(m),
{
    let q = |e: CheckEntry| applies(e, mode);
    let list = checks.filter(q);
    merged_entries_ask_for_all(list);
    let at = filter_picks(checks, q);
    if merged(list).enabled.contains(m) {
        let k = choose|k: int|
            0 <= k < list.len() && texts((#[trigger] list[k]).enabled@).contains(m);
        assert(at.contains(at[k]));
        assert(checks[at[k]] == list[k]);
    }
    if exists|c: int|
        0 <= c < checks.len() && applies(#[trigger] checks[c], mode) && texts(
            checks[c].enabled@,
        ).contains(m) {
        let c = choose|c: int|
            0 <= c < checks.len() && applies(#[trigger] checks[c], mode) && texts(
                checks[c].enabled@,
            ).contains(m);
        assert(at.contains(c));
        let k = at.index_of(c);
        assert(texts(list[k].enabled@).contains(m));
    }
}

/// Every host on which something is measured has an entry under its name, and no other
/// name has one, as long as no two hosts share a name.
pub proof fn every_measured_host_is_listed(
    checks: Seq<CheckEntry>,
    mode: TargetView,
    hosts: Seq<HostEntry>,
)
    requires
        forall|i: int, j: int|
            0 <= i < j < hosts.len() ==> (#[trigger] hosts[i]).name@ != (#[trigger] hosts[j]).name@,
    ensures
        forall|k: int|
            0 <= k < hosts.len() ==> ({
                let w = host_wants(checks, mode, #[trigger] hosts[k]);
                let all = all_wants(checks, mode, hosts);
                if w.enabled.len() > 0 || w.paths.len() > 0 {
                    all.dom().contains(hosts[k].name@) && all[hosts[k].name@] == w
                } else {
                    !all.dom().contains(hosts[k].name@)
                }
            }),
        forall|n: Seq<char>| #[trigger]
            all_wants(checks, mode, hosts).dom().contains(n) ==> exists|k: int|
                0 <= k < hosts.len() && (#[trigger] hosts[k]).name@ == n,
    decreases hosts.len(),
{
    if hosts.len() > 0 {
        let rest = hosts.drop_last();
        let last = hosts.last();
        assert forall|i: int, j: int| 0 <= i < j < rest.len()
            implies (#[trigger] rest[i]).name@ != (
        #[trigger] rest[j]).name@ by {
            assert(hosts[i].name@ != hosts[j].name@);
        }
        every_measured_host_is_listed(checks, mode, rest);
        let before = all_wants(checks, mode, rest);
        let all = all_wants(checks, mode, hosts);
        assert(hosts[hosts.len() - 1] == last);
        assert(!before.dom().contains(last.name@)) by {
            if before.dom().contains(last.name@) {
                let k = choose|k: int|
                    0 <= k < rest.len() && (#[trigger] rest[k]).name@ == last.name@;
                assert(hosts[k].name@ != hosts[hosts.len() - 1].name@);
            }
        }
        assert forall|k: int| 0 <= k < hosts.len() implies ({
            let w = host_wants(checks, mode, #[trigger] hosts[k]);
            if w.enabled.len() > 0 || w.paths.len() > 0 {
                all.dom().contains(hosts[k].name@) && all[hosts[k].name@] == w
            } else {
                !all.dom().contains(hosts[k].name@)
            }
        }) by {
            if k < rest.len() {
                assert(rest[k] == hosts[k]);
                assert(hosts[k].name@ != hosts[hosts.len() - 1].name@);
            }
        }
        assert forall|n: Seq<char>| #[trigger] all.dom().contains(n) implies exists|k: int|
            0 <= k < hosts.len() && (#[trigger] hosts[k]).name@ == n by {
            if before.dom().contains(n) {
                let k = choose|k: int| 0 <= k < rest.len() && (#[trigger] rest[k]).name@ == n;
                assert(hosts[k].name@ == n);
            }
        }
    }
}

/// A check counts as a success every host on which something was measured, and as a
/// failure every other one that was tried.
pub proof fn every_check_counts(
    failed: Seq<(Seq<char>, Seq<char>)>,
    outcomes: Seq<CheckOutcome>,
)
    ensures
        ({
            let t = check_tally(check_result_rows(failed, outcomes));
            &&& t.succeeded == outcomes.filter(
                |o: CheckOutcome| o.result is Ok && o.result->Ok_0.succeeded > 0,
            ).len()
            &&& t.succeeded + t.failed == failed.len() + outcomes.len()
            &&& t.skipped == 0
        }),
    decreases failed.len() + outcomes.len(),
{
    let rows = check_result_rows(failed, outcomes);
    let p = |o: CheckOutcome| o.result is Ok && o.result->Ok_0.succeeded > 0;
    reveal(Seq::filter);
    if outcomes.len() > 0 {
        every_check_counts(failed, outcomes.drop_last());
        assert(rows.drop_last() =~= check_result_rows(failed, outcomes.drop_last()));
        assert(rows.last() == outcomes.last().row());
    } else if failed.len() > 0 {
        every_check_counts(failed.drop_last(), outcomes);
        assert(rows.drop_last() =~= check_result_rows(failed.drop_last(), outcomes));
        assert(rows.last() == unreachable_row(failed.last().0, failed.last().1));
    }
}

/// What a host measured is what its row holds, and a host that could not be asked has
/// nothing in its row.
pub proof fn rows_hold_what_was_measured(o: CheckOutcome)
    ensures
        o.row().host == o.host@,
        o.row().duration_ms == Some(o.ms),
        o.result matches Ok(c) ==> o.row().data == values(c.data) && o.row().metrics_succeeded
            == c.succeeded && o.row().metrics_failed == c.failed && o.row().raw_stdout
            == o.raw_stdout@ && o.row().raw_stderr == o.raw_stderr@,
        o.result matches Err(e) ==> o.row().status == HostStatus::Error && o.row().detail == e@
            && o.row().data == Map::<Seq<char>, DataView>::empty(),
{
}

/// A host counts as a success in the report where it was measured, at least in part.
pub proof fn measured_hosts_are_successes(row: CheckRow)
    ensures
        check_result(row).host == row.host,
        check_result(row).duration_ms == row.duration_ms,
        check_result(row).status == "success"@ <==> row.status == HostStatus::Online || row.status
            == HostStatus::Partial,
        check_result(row).status == "error"@ <==> !(row.status == HostStatus::Online || row.status
            == HostStatus::Partial),
{
    reveal_strlit("success");
    reveal_strlit("error");
    assert("success"@.len() == 7 && "error"@.len() == 5);
}

/// A host is told by how much of it was measured, and with the first thing that went wrong.
pub proof fn the_first_error_is_told(c: CollectionView, took: Seq<char>)
    requires
        c.errors.len() > 0,
    ensures
        c.succeeded == 0 ==> check_status(c.succeeded, c.failed)
            == HostStatus::Offline && check_detail(c, took) == "failed ("@ + took + "s) — "@
            + c.errors[0],
        c.failed > 0 && c.succeeded > 0 ==> check_status(c.succeeded, c.failed)
            == HostStatus::Partial && check_detail(c, took) == "partial ("@ + decimal(c.succeeded)
            + "/"@ + decimal(c.succeeded + c.failed) + " metrics, "@ + took + "s) — warn: "@
            + c.errors[0],
        c.failed == 0 && c.succeeded > 0 ==> check_status(c.succeeded, c.failed)
            == HostStatus::Online,
{
}

} // verus!
