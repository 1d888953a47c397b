//! Gathering the answers of a host into one snapshot.

use vstd::prelude::*;

use crate::config::schema::ShellType;
use crate::error::Error;
use crate::host::session_pool::RemoteOutput;
use crate::metrics::data::{
    field_rows, fields, no_fields, no_values, set_field, set_value, snapshot_wf, values, DataView,
    MetricData, Record, Scalar, ScalarView, Snapshot,
};
use crate::metrics::parser::{
    batch, labels, parse, parse_batch, parse_batch_paths, parse_path_size, parsed, path_batch,
    path_size, sizes,
};
use crate::metrics::probes;
use crate::scan::{trim, trimmed};
use crate::text::{chars_of, concat2, concat3, copy, pair_texts, texts, texts_push};

verus! {

broadcast use texts_push;

/// The snapshot of a host, and how many of its parts could be measured.
pub struct CollectionResult {
    pub data: Snapshot,
    pub succeeded: usize,
    pub failed: usize,
    pub errors: Vec<String>,
}

/// A collection as a value of the specification language.
pub ghost struct CollectionView {
    pub values: Map<Seq<char>, DataView>,
    pub succeeded: nat,
    pub failed: nat,
    pub errors: Seq<Seq<char>>,
}

impl View for CollectionResult {
    type V = CollectionView;

    open spec fn view(&self) -> CollectionView {
        CollectionView {
            values: values(self.data),
            succeeded: self.succeeded as nat,
            failed: self.failed as nat,
            errors: texts(self.errors@),
        }
    }
}

impl CollectionView {
    /// A collection that holds nothing but the version of its form.
    pub open spec fn start() -> CollectionView {
        CollectionView {
            values: Map::empty().insert(
                "schema_version"@,
                DataView::Scalar(ScalarView::Number(1)),
            ),
            succeeded: 0,
            failed: 0,
            errors: Seq::empty(),
        }
    }

    /// With one more value measured.
    pub open spec fn measured(self, name: Seq<char>, value: DataView) -> CollectionView {
        CollectionView {
            values: self.values.insert(name, value),
            succeeded: self.succeeded + 1,
            ..self
        }
    }

    /// With one more value missing.
    pub open spec fn missed(self, error: Seq<char>) -> CollectionView {
        CollectionView { failed: self.failed + 1, errors: self.errors.push(error), ..self }
    }

    /// With `n` values missing for one reason.
    pub open spec fn missed_all(self, n: nat, error: Seq<char>) -> CollectionView {
        CollectionView { failed: self.failed + n, errors: self.errors.push(error), ..self }
    }
}

impl CollectionResult {
    fn start() -> (r: CollectionResult)
        ensures
            snapshot_wf(r.data),
            r@ == CollectionView::start(),
    {
        let mut data = no_values();
        set_value(&mut data, "schema_version", MetricData::Scalar(Scalar::Number(1)));
        let r = CollectionResult { data, succeeded: 0, failed: 0, errors: Vec::new() };
        assert(texts(r.errors@) =~= Seq::empty());
        r
    }

    fn measure(&mut self, name: &str, value: MetricData)
        requires
            snapshot_wf(old(self).data),
            value.wf(),
            old(self).succeeded < usize::MAX,
        ensures
            snapshot_wf(final(self).data),
            final(self)@ == old(self)@.measured(name@, value@),
    {
        set_value(&mut self.data, name, value);
        self.succeeded = self.succeeded + 1;
    }

    fn miss(&mut self, error: String)
        requires
            snapshot_wf(old(self).data),
            old(self).failed < usize::MAX,
        ensures
            snapshot_wf(final(self).data),
            final(self)@ == old(self)@.missed(error@),
    {
        self.failed = self.failed + 1;
        self.errors.push(error);
    }
}

// ---------------------------------------------------------------------------
// One answer for all metrics
// ---------------------------------------------------------------------------

/// The outcome of running a command, as the texts that matter.
pub ghost enum AnswerView {
    Output { success: bool, stdout: Seq<char>, stderr: Seq<char> },
    Error(Seq<char>),
}

/// The outcome of running a command.
pub open spec fn answer(a: Result<RemoteOutput, Error>) -> AnswerView {
    match a {
        Ok(o) => AnswerView::Output { success: o.success, stdout: o.stdout@, stderr: o.stderr@ },
        Err(e) => AnswerView::Error(e@),
    }
}

/// Each wanted metric is measured where the batch gave it and missed where not.
pub open spec fn take_found(
    v: CollectionView,
    wanted: Seq<Seq<char>>,
    found: Map<Seq<char>, DataView>,
    why: Seq<char>,
) -> CollectionView
    decreases wanted.len(),
{
    if wanted.len() == 0 {
        v
    } else {
        let before = take_found(v, wanted.drop_last(), found, why);
        let m = wanted.last();
        if found.dom().contains(m) {
            before.measured(m, found[m])
        } else {
            before.missed(m + ": "@ + why)
        }
    }
}

/// A collection after the answer to a metric batch. A command that failed may
/// still have printed some metrics: those count.
pub open spec fn after_batch(
    v: CollectionView,
    shell: ShellType,
    wanted: Seq<Seq<char>>,
    a: AnswerView,
) -> CollectionView {
    match a {
        AnswerView::Output { success, stdout, stderr } => take_found(
            v,
            wanted,
            batch(shell, wanted, stdout),
            if success {
                "no output in batch"@
            } else {
                trim(stderr)
            },
        ),
        AnswerView::Error(e) => v.missed_all(wanted.len(), "batch metrics: "@ + e),
    }
}

proof fn take_found_counts(
    v: CollectionView,
    wanted: Seq<Seq<char>>,
    found: Map<Seq<char>, DataView>,
    why: Seq<char>,
)
    ensures
        take_found(v, wanted, found, why).succeeded + take_found(v, wanted, found, why).failed
            == v.succeeded + v.failed + wanted.len(),
        take_found(v, wanted, found, why).succeeded >= v.succeeded,
        take_found(v, wanted, found, why).failed >= v.failed,
    decreases wanted.len(),
{
    if wanted.len() > 0 {
        take_found_counts(v, wanted.drop_last(), found, why);
    }
}

fn add_batch(
    c: &mut CollectionResult,
    shell: ShellType,
    enabled: &[String],
    a: &Result<RemoteOutput, Error>,
)
    requires
        snapshot_wf(old(c).data),
        old(c).succeeded + old(c).failed + enabled@.len() <= usize::MAX,
    ensures
        snapshot_wf(final(c).data),
        final(c)@ == after_batch(old(c)@, shell, texts(enabled@), answer(*a)),
{
    let ghost v = c@;
    let ghost wanted = texts(enabled@);
    match a {
        Ok(o) => {
            let found = parse_batch(shell, enabled, o.stdout.as_str());
            let why = if o.success {
                copy("no output in batch")
            } else {
                trimmed(o.stderr.as_str())
            };
            let mut i: usize = 0;
            assert(wanted.take(0) =~= Seq::empty());
            while i < enabled.len()
                invariant
                    i <= enabled.len(),
                    wanted == texts(enabled@),
                    snapshot_wf(c.data),
                    snapshot_wf(found),
                    v.succeeded + v.failed + enabled@.len() <= usize::MAX,
                    c@ == take_found(v, wanted.take(i as int), values(found), why@),
                decreases enabled.len() - i,
            {
                proof {
                    assert(wanted.take(i + 1).drop_last() =~= wanted.take(i as int));
                    assert(wanted.take(i + 1).last() == enabled@[i as int]@);
                    take_found_counts(v, wanted.take(i as int), values(found), why@);
                }
                let metric = enabled[i].as_str();
                match found.get(metric) {
                    Some(value) => {
                        proof {
                            let n = found.keys().index_of(metric@);
                            found.value_at(n);
                            assert(found.entries@[n].1.wf());
                        }
                        c.measure(metric, value.copy());
                    },
                    None => c.miss(concat3(metric, ": ", why.as_str())),
                }
                i += 1;
            }
            assert(wanted.take(i as int) =~= wanted);
        },
        Err(e) => {
            c.failed = c.failed + enabled.len();
            c.errors.push(concat2("batch metrics: ", e.message.as_str()));
        },
    }
}

// ---------------------------------------------------------------------------
// One answer for all paths
// ---------------------------------------------------------------------------

/// The record that a snapshot keeps of one path.
pub open spec fn path_record(path: Seq<char>, label: Seq<char>, size: nat) -> Map<
    Seq<char>,
    ScalarView,
> {
    Map::<Seq<char>, ScalarView>::empty().insert("label"@, ScalarView::Text(label)).insert(
        "path"@,
        ScalarView::Text(path),
    ).insert("size_bytes"@, ScalarView::Number(size))
}

fn build_path_record(path: &str, label: &str, size: u64) -> (r: Record)
    ensures
        r.wf(),
        fields(r) == path_record(path@, label@, size as nat),
{
    let mut entry = no_fields();
    set_field(&mut entry, "label", Scalar::Text(copy(label)));
    set_field(&mut entry, "path", Scalar::Text(copy(path)));
    set_field(&mut entry, "size_bytes", Scalar::Number(size));
    entry
}

/// What is known of a list of paths so far: the records, the number of those
/// that are missing, and the errors.
pub ghost struct PathsView {
    pub records: Seq<Map<Seq<char>, ScalarView>>,
    pub failed: nat,
    pub errors: Seq<Seq<char>>,
}

impl PathsView {
    /// With one more path measured.
    pub open spec fn measured(self, record: Map<Seq<char>, ScalarView>) -> PathsView {
        PathsView { records: self.records.push(record), ..self }
    }

    /// With one more path missing.
    pub open spec fn missed(self, error: Seq<char>) -> PathsView {
        PathsView { failed: self.failed + 1, errors: self.errors.push(error), ..self }
    }
}

/// The error for one path.
pub open spec fn path_error(label: Seq<char>, why: Seq<char>) -> Seq<char> {
    "path("@ + label + "): "@ + why
}

fn build_path_error(label: &str, why: &str) -> (r: String)
    ensures
        r@ == path_error(label@, why@),
{
    let mut out = concat3("path(", label, "): ");
    out.append(why);
    out
}

/// What a path batch says of each path, in their order.
pub open spec fn take_sizes(
    paths: Seq<(Seq<char>, Seq<char>)>,
    found: Map<Seq<char>, Option<nat>>,
) -> PathsView
    decreases paths.len(),
{
    if paths.len() == 0 {
        PathsView { records: Seq::empty(), failed: 0, errors: Seq::empty() }
    } else {
        let before = take_sizes(paths.drop_last(), found);
        let (path, label) = paths.last();
        if !found.dom().contains(label) {
            before.missed(path_error(label, "no output in batch"@))
        } else {
            match found[label] {
                Some(size) => before.measured(path_record(path, label, size)),
                None => before.missed(path_error(label, "MISSING"@)),
            }
        }
    }
}

/// A collection with the paths added.
pub open spec fn with_paths(v: CollectionView, p: PathsView) -> CollectionView {
    CollectionView {
        values: v.values.insert("paths"@, DataView::Records(p.records)),
        succeeded: v.succeeded + p.records.len(),
        failed: v.failed + p.failed,
        errors: v.errors + p.errors,
    }
}

/// A collection after the answer to a path batch.
pub open spec fn after_path_batch(
    v: CollectionView,
    paths: Seq<(Seq<char>, Seq<char>)>,
    a: AnswerView,
) -> CollectionView {
    match a {
        AnswerView::Output { success, stdout, stderr } => with_paths(
            v,
            take_sizes(paths, path_batch(second_texts(paths), stdout)),
        ),
        AnswerView::Error(e) => v.missed_all(paths.len(), "batch paths: "@ + e),
    }
}

/// The second text of every pair.
pub open spec fn second_texts(list: Seq<(Seq<char>, Seq<char>)>) -> Seq<Seq<char>> {
    Seq::new(list.len(), |i: int| list[i].1)
}

proof fn take_sizes_counts(paths: Seq<(Seq<char>, Seq<char>)>, found: Map<Seq<char>, Option<nat>>)
    ensures
        take_sizes(paths, found).records.len() + take_sizes(paths, found).failed == paths.len(),
    decreases paths.len(),
{
    if paths.len() > 0 {
        take_sizes_counts(paths.drop_last(), found);
    }
}

fn add_path_batch(
    c: &mut CollectionResult,
    shell: ShellType,
    paths: &[(String, String)],
    a: &Result<RemoteOutput, Error>,
)
    requires
        snapshot_wf(old(c).data),
        old(c).succeeded + old(c).failed + paths@.len() <= usize::MAX,
    ensures
        snapshot_wf(final(c).data),
        final(c)@ == after_path_batch(old(c)@, pair_texts(paths@), answer(*a)),
{
    let ghost v = c@;
    let ghost all = pair_texts(paths@);
    match a {
        Ok(o) => {
            let found = parse_batch_paths(shell, paths, o.stdout.as_str());
            assert(labels(paths@) =~= second_texts(all));
            let mut records: Vec<Record> = Vec::new();
            let mut i: usize = 0;
            assert(field_rows(records@) =~= Seq::empty());
            assert(c.errors@ =~= old(c).errors@ + Seq::empty());
            while i < paths.len()
                invariant
                    i <= paths.len(),
                    all == pair_texts(paths@),
                    found.wf(),
                    snapshot_wf(c.data),
                    v == old(c)@,
                    v.succeeded + v.failed + paths@.len() <= usize::MAX,
                    c.data == old(c).data,
                    c.succeeded == v.succeeded + take_sizes(all.take(i as int), sizes(found)).records.len(),
                    c.failed == v.failed + take_sizes(all.take(i as int), sizes(found)).failed,
                    texts(c.errors@) == v.errors + take_sizes(all.take(i as int), sizes(found)).errors,
                    field_rows(records@) == take_sizes(all.take(i as int), sizes(found)).records,
                    forall|j: int| 0 <= j < records@.len() ==> (#[trigger] records@[j]).wf(),
                decreases paths.len() - i,
            {
                proof {
                    assert(all.take(i + 1).drop_last() =~= all.take(i as int));
                    assert(all.take(i + 1).last() == (paths@[i as int].0@, paths@[i as int].1@));
                    take_sizes_counts(all.take(i as int), sizes(found));
                }
                let path = paths[i].0.as_str();
                let label = paths[i].1.as_str();
                let ghost before = c.errors@;
                let ghost rows = field_rows(records@);
                match found.get(label) {
                    Some(size) => match *size {
                        Some(n) => {
                            let entry = build_path_record(path, label, n);
                            let ghost e = entry;
                            records.push(entry);
                            assert(field_rows(records@) =~= rows.push(fields(e)));
                            c.succeeded = c.succeeded + 1;
                        },
                        None => {
                            c.failed = c.failed + 1;
                            c.errors.push(build_path_error(label, "MISSING"));
                            assert(texts(c.errors@) =~= v.errors + take_sizes(
                                all.take(i + 1),
                                sizes(found),
                            ).errors);
                        },
                    },
                    None => {
                        c.failed = c.failed + 1;
                        c.errors.push(build_path_error(label, "no output in batch"));
                        assert(texts(c.errors@) =~= v.errors + take_sizes(
                            all.take(i + 1),
                            sizes(found),
                        ).errors);
                    },
                }
                i += 1;
            }
            assert(all.take(i as int) =~= all);
            set_value(&mut c.data, "paths", MetricData::Records(records));
        },
        Err(e) => {
            c.failed = c.failed + paths.len();
            c.errors.push(concat2("batch paths: ", e.message.as_str()));
        },
    }
}

/// What a host reports through one metric batch and one path batch, each of
/// which is left out where there is nothing to ask.
pub open spec fn pooled(
    shell: ShellType,
    wanted: Seq<Seq<char>>,
    paths: Seq<(Seq<char>, Seq<char>)>,
    metrics: Option<AnswerView>,
    sized: Option<AnswerView>,
) -> CollectionView {
    let v = match metrics {
        Some(a) => after_batch(CollectionView::start(), shell, wanted, a),
        None => CollectionView::start(),
    };
    match sized {
        Some(a) => after_path_batch(v, paths, a),
        None => v,
    }
}

/// An answer that may not have been asked for.
pub open spec fn answer_opt(a: Option<Result<RemoteOutput, Error>>) -> Option<AnswerView> {
    match a {
        Some(r) => Some(answer(r)),
        None => None,
    }
}

/// The metric batch to send; none where no enabled metric has a command.
pub fn metric_batch(shell: ShellType, enabled: &[String]) -> (r: Option<String>)
    ensures
        r is None <==> enabled@.len() == 0 || probes::batch(shell, texts(enabled@)).len() == 0,
        r matches Some(c) ==> c@ == probes::batch(shell, texts(enabled@)),
{
    if enabled.len() == 0 {
        return None;
    }
    let cmd = probes::batch_command(shell, enabled);
    if chars_of(cmd.as_str()).len() == 0 {
        None
    } else {
        Some(cmd)
    }
}

/// The path batch to send; none where there is no path.
pub fn path_size_batch(shell: ShellType, paths: &[(String, String)]) -> (r: Option<String>)
    ensures
        r is None <==> paths@.len() == 0 || probes::path_batch(shell, paths@).len() == 0,
        r matches Some(c) ==> c@ == probes::path_batch(shell, paths@),
{
    if paths.len() == 0 {
        return None;
    }
    let cmd = probes::batch_path_command(shell, paths);
    if chars_of(cmd.as_str()).len() == 0 {
        None
    } else {
        Some(cmd)
    }
}

/// Gathers the answers to the two batches.
pub fn collect_pooled(
    shell: ShellType,
    enabled: &[String],
    check_paths: &[(String, String)],
    metrics: &Option<Result<RemoteOutput, Error>>,
    sized: &Option<Result<RemoteOutput, Error>>,
) -> (r: CollectionResult)
    requires
        enabled@.len() + check_paths@.len() <= usize::MAX,
    ensures
        snapshot_wf(r.data),
        r@ == pooled(
            shell,
            texts(enabled@),
            pair_texts(check_paths@),
            answer_opt(*metrics),
            answer_opt(*sized),
        ),
{
    let mut c = CollectionResult::start();
    match metrics {
        Some(a) => {
            proof {
                match answer(*a) {
                    AnswerView::Output { success, stdout, stderr } => {
                        let wanted = texts(enabled@);
                        take_found_counts(
                            c@,
                            wanted,
                            batch(shell, wanted, stdout),
                            if success {
                                "no output in batch"@
                            } else {
                                trim(stderr)
                            },
                        );
                    },
                    AnswerView::Error(e) => {},
                }
            }
            add_batch(&mut c, shell, enabled, a);
        },
        None => {},
    }
    match sized {
        Some(a) => add_path_batch(&mut c, shell, check_paths, a),
        None => {},
    }
    c
}

// ---------------------------------------------------------------------------
// One answer for each metric and each path
// ---------------------------------------------------------------------------

/// The metrics that have a command, in their order.
pub open spec fn asked(shell: ShellType, enabled: Seq<Seq<char>>) -> Seq<Seq<char>>
    decreases enabled.len(),
{
    if enabled.len() == 0 {
        Seq::empty()
    } else {
        let before = asked(shell, enabled.drop_last());
        if probes::probe(shell, enabled.last()).len() > 0 {
            before.push(enabled.last())
        } else {
            before
        }
    }
}

/// The metrics to ask for one by one: those that have a command.
pub fn asked_metrics(shell: ShellType, enabled: &[String]) -> (r: Vec<String>)
    ensures
        texts(r@) == asked(shell, texts(enabled@)),
{
    let ghost all = texts(enabled@);
    let mut out: Vec<String> = Vec::new();
    let mut i: usize = 0;
    assert(texts(out@) =~= asked(shell, all.take(0)));
    while i < enabled.len()
        invariant
            i <= enabled.len(),
            all == texts(enabled@),
            texts(out@) == asked(shell, all.take(i as int)),
        decreases enabled.len() - i,
    {
        assert(all.take(i + 1).drop_last() =~= all.take(i as int));
        assert(all.take(i + 1).last() == enabled@[i as int]@);
        let cmd = probes::command_for(shell, enabled[i].as_str());
        if chars_of(cmd.as_str()).len() > 0 {
            out.push(copy(enabled[i].as_str()));
        }
        i += 1;
    }
    assert(all.take(i as int) =~= all);
    out
}

/// A collection after the answer for one metric.
pub open spec fn after_metric(
    v: CollectionView,
    shell: ShellType,
    metric: Seq<char>,
    a: AnswerView,
) -> CollectionView {
    match a {
        AnswerView::Output { success, stdout, stderr } => if success {
            v.measured(metric, parsed(shell, metric, stdout))
        } else {
            v.missed(metric + ": "@ + trim(stderr))
        },
        AnswerView::Error(e) => v.missed(metric + ": "@ + e),
    }
}

/// A collection after the answers for a row of metrics.
pub open spec fn after_metrics(
    shell: ShellType,
    metrics: Seq<Seq<char>>,
    answers: Seq<AnswerView>,
) -> CollectionView
    decreases metrics.len(),
{
    if metrics.len() == 0 {
        CollectionView::start()
    } else {
        after_metric(
            after_metrics(shell, metrics.drop_last(), answers),
            shell,
            metrics.last(),
            answers[metrics.len() - 1],
        )
    }
}

/// What the answer for one path adds.
pub open spec fn after_path(
    p: PathsView,
    path: Seq<char>,
    label: Seq<char>,
    a: AnswerView,
) -> PathsView {
    match a {
        AnswerView::Output { success, stdout, stderr } => if success {
            p.measured(path_record(path, label, path_size(stdout)))
        } else {
            p.missed(path_error(label, trim(stderr)))
        },
        AnswerView::Error(e) => p.missed(path_error(label, e)),
    }
}

/// What the answers for a row of paths say.
pub open spec fn after_paths(
    paths: Seq<(Seq<char>, Seq<char>)>,
    answers: Seq<AnswerView>,
) -> PathsView
    decreases paths.len(),
{
    if paths.len() == 0 {
        PathsView { records: Seq::empty(), failed: 0, errors: Seq::empty() }
    } else {
        after_path(
            after_paths(paths.drop_last(), answers),
            paths.last().0,
            paths.last().1,
            answers[paths.len() - 1],
        )
    }
}

/// The outcomes of a row of commands.
pub open spec fn answers(list: Seq<Result<RemoteOutput, Error>>) -> Seq<AnswerView> {
    Seq::new(list.len(), |i: int| answer(list[i]))
}

/// What a host reports when every metric and every path is asked for by itself.
pub open spec fn one_by_one(
    shell: ShellType,
    metrics: Seq<Seq<char>>,
    metric_answers: Seq<AnswerView>,
    paths: Seq<(Seq<char>, Seq<char>)>,
    path_answers: Seq<AnswerView>,
) -> CollectionView {
    let v = after_metrics(shell, metrics, metric_answers);
    if paths.len() == 0 {
        v
    } else {
        with_paths(v, after_paths(paths, path_answers))
    }
}

proof fn after_metrics_counts(shell: ShellType, metrics: Seq<Seq<char>>, answers: Seq<AnswerView>)
    ensures
        after_metrics(shell, metrics, answers).succeeded + after_metrics(
            shell,
            metrics,
            answers,
        ).failed == metrics.len(),
    decreases metrics.len(),
{
    if metrics.len() > 0 {
        after_metrics_counts(shell, metrics.drop_last(), answers);
    }
}

proof fn after_paths_counts(paths: Seq<(Seq<char>, Seq<char>)>, answers: Seq<AnswerView>)
    ensures
        after_paths(paths, answers).records.len() + after_paths(paths, answers).failed
            == paths.len(),
    decreases paths.len(),
{
    if paths.len() > 0 {
        after_paths_counts(paths.drop_last(), answers);
    }
}

/// Gathers the answers for metrics and paths that were asked for one by one.
pub fn collect(
    shell: ShellType,
    metrics: &[String],
    metric_answers: &[Result<RemoteOutput, Error>],
    check_paths: &[(String, String)],
    path_answers: &[Result<RemoteOutput, Error>],
) -> (r: CollectionResult)
    requires
        metric_answers@.len() == metrics@.len(),
        path_answers@.len() == check_paths@.len(),
        metrics@.len() + check_paths@.len() <= usize::MAX,
    ensures
        snapshot_wf(r.data),
        r@ == one_by_one(
            shell,
            texts(metrics@),
            answers(metric_answers@),
            pair_texts(check_paths@),
            answers(path_answers@),
        ),
{
    let ghost names = texts(metrics@);
    let ghost ma = answers(metric_answers@);
    let mut c = CollectionResult::start();
    let mut i: usize = 0;
    while i < metrics.len()
        invariant
            i <= metrics.len(),
            metric_answers@.len() == metrics@.len(),
            metrics@.len() + check_paths@.len() <= usize::MAX,
            names == texts(metrics@),
            ma == answers(metric_answers@),
            snapshot_wf(c.data),
            c@ == after_metrics(shell, names.take(i as int), ma),
        decreases metrics.len() - i,
    {
        proof {
            assert(names.take(i + 1).drop_last() =~= names.take(i as int));
            assert(names.take(i + 1).last() == metrics@[i as int]@);
            assert(ma[i as int] == answer(metric_answers@[i as int]));
            after_metrics_counts(shell, names.take(i as int), ma);
        }
        let metric = metrics[i].as_str();
        match &metric_answers[i] {
            Ok(o) => if o.success {
                c.measure(metric, parse(shell, metric, o.stdout.as_str()));
            } else {
                c.miss(concat3(metric, ": ", trimmed(o.stderr.as_str()).as_str()));
            },
            Err(e) => c.miss(concat3(metric, ": ", e.message.as_str())),
        }
        i += 1;
    }
    assert(names.take(i as int) =~= names);
    if check_paths.len() == 0 {
        return c;
    }
    let ghost v = c@;
    let ghost all = pair_texts(check_paths@);
    let ghost pa = answers(path_answers@);
    let ghost data = c.data;
    proof {
        after_metrics_counts(shell, names, ma);
    }
    let mut records: Vec<Record> = Vec::new();
    let mut k: usize = 0;
    assert(field_rows(records@) =~= Seq::empty());
    assert(texts(c.errors@) =~= v.errors + Seq::empty());
    while k < check_paths.len()
        invariant
            k <= check_paths.len(),
            path_answers@.len() == check_paths@.len(),
            v.succeeded + v.failed + check_paths@.len() <= usize::MAX,
            all == pair_texts(check_paths@),
            pa == answers(path_answers@),
            data == c.data,
            c.succeeded == v.succeeded + after_paths(all.take(k as int), pa).records.len(),
            c.failed == v.failed + after_paths(all.take(k as int), pa).failed,
            texts(c.errors@) == v.errors + after_paths(all.take(k as int), pa).errors,
            field_rows(records@) == after_paths(all.take(k as int), pa).records,
            forall|j: int| 0 <= j < records@.len() ==> (#[trigger] records@[j]).wf(),
        decreases check_paths.len() - k,
    {
        proof {
            assert(all.take(k + 1).drop_last() =~= all.take(k as int));
            assert(all.take(k + 1).last() == (check_paths@[k as int].0@, check_paths@[k as int].1@));
            assert(pa[k as int] == answer(path_answers@[k as int]));
            after_paths_counts(all.take(k as int), pa);
        }
        let path = check_paths[k].0.as_str();
        let label = check_paths[k].1.as_str();
        let ghost rows = field_rows(records@);
        match &path_answers[k] {
            Ok(o) => if o.success {
                let entry = build_path_record(path, label, parse_path_size(shell, o.stdout.as_str()));
                let ghost e = entry;
                records.push(entry);
                assert(field_rows(records@) =~= rows.push(fields(e)));
                c.succeeded = c.succeeded + 1;
            } else {
                c.failed = c.failed + 1;
                c.errors.push(build_path_error(label, trimmed(o.stderr.as_str()).as_str()));
                assert(texts(c.errors@) =~= v.errors + after_paths(all.take(k + 1), pa).errors);
            },
            Err(e) => {
                c.failed = c.failed + 1;
                c.errors.push(build_path_error(label, e.message.as_str()));
                assert(texts(c.errors@) =~= v.errors + after_paths(all.take(k + 1), pa).errors);
            },
        }
        k += 1;
    }
    assert(all.take(k as int) =~= all);
    set_value(&mut c.data, "paths", MetricData::Records(records));
    c
}

// ---------------------------------------------------------------------------
// Laws
// ---------------------------------------------------------------------------

/// Every enabled metric and every path that is asked for in a batch is counted
/// exactly once, as measured or as failed.
pub proof fn pooled_counts_everything(
    shell: ShellType,
    wanted: Seq<Seq<char>>,
    paths: Seq<(Seq<char>, Seq<char>)>,
    metrics: AnswerView,
    sized: AnswerView,
)
    ensures
        ({
            let v = pooled(shell, wanted, paths, Some(metrics), Some(sized));
            v.succeeded + v.failed == wanted.len() + paths.len()
        }),
{
    match metrics {
        AnswerView::Output { success, stdout, stderr } => {
            take_found_counts(
                CollectionView::start(),
                wanted,
                batch(shell, wanted, stdout),
                if success {
                    "no output in batch"@
                } else {
                    trim(stderr)
                },
            );
        },
        AnswerView::Error(e) => {},
    }
    match sized {
        AnswerView::Output { success, stdout, stderr } => {
            take_sizes_counts(paths, path_batch(second_texts(paths), stdout));
        },
        AnswerView::Error(e) => {},
    }
}

/// Every metric and every path that is asked for by itself is counted exactly
/// once, as measured or as failed.
pub proof fn one_by_one_counts_everything(
    shell: ShellType,
    metrics: Seq<Seq<char>>,
    metric_answers: Seq<AnswerView>,
    paths: Seq<(Seq<char>, Seq<char>)>,
    path_answers: Seq<AnswerView>,
)
    ensures
        ({
            let v = one_by_one(shell, metrics, metric_answers, paths, path_answers);
            v.succeeded + v.failed == metrics.len() + paths.len()
        }),
{
    after_metrics_counts(shell, metrics, metric_answers);
    after_paths_counts(paths, path_answers);
}

/// A metric that was asked for and found has the value that was found; one that was not
/// found is told as an error, and keeps the value it had.
pub proof fn found_metrics_are_taken(
    v: CollectionView,
    wanted: Seq<Seq<char>>,
    found: Map<Seq<char>, DataView>,
    why: Seq<char>,
    name: Seq<char>,
)
    ensures
        ({
            let after = take_found(v, wanted, found, why);
            let taken = wanted.contains(name) && found.dom().contains(name);
            &&& after.values.dom().contains(name) <==> v.values.dom().contains(name) || taken
            &&& taken ==> after.values[name] == found[name]
            &&& !taken && v.values.dom().contains(name) ==> after.values[name] == v.values[name]
            &&& wanted.contains(name) && !found.dom().contains(name) ==> after.errors.contains(
                name + ": "@ + why,
            )
            &&& after.errors.len() == v.errors.len() + (after.failed - v.failed)
            &&& v.errors.is_prefix_of(after.errors)
        }),
    decreases wanted.len(),
{
    if wanted.len() > 0 {
        let rest = wanted.drop_last();
        let last = wanted.last();
        found_metrics_are_taken(v, rest, found, why, name);
        let before = take_found(v, rest, found, why);
        let after = take_found(v, wanted, found, why);
        assert(wanted[wanted.len() - 1] == last);
        if rest.contains(name) {
            assert(wanted[rest.index_of(name)] == name);
        }
        if wanted.contains(name) && name != last {
            assert(rest[wanted.index_of(name)] == name);
        }
        if !found.dom().contains(last) {
            let e = last + ": "@ + why;
            assert(after.errors == before.errors.push(e));
            assert(after.errors[before.errors.len() as int] == e);
            let x = name + ": "@ + why;
            if before.errors.contains(x) {
                assert(after.errors[before.errors.index_of(x)] == x);
            }
        }
    }
}

/// The metrics that are asked for are the enabled ones that the shell has a command for, in
/// order.
pub proof fn known_metrics_are_asked_for(
    shell: ShellType,
    enabled: Seq<Seq<char>>,
) -> (at: Seq<int>)
    ensures
        forall|i: int, j: int|
            0 <= i < j < at.len() ==> #[trigger] at[i] < #[trigger] at[j],
        forall|k: int| #[trigger] at.contains(k) <==> 0 <= k < enabled.len()
            && probes::probe(shell, enabled[k]).len() > 0,
        asked(shell, enabled).len() == at.len(),
        forall|i: int|
            0 <= i < at.len() ==> #[trigger] asked(shell, enabled)[i] == enabled[at[i]],
    decreases enabled.len(),
{
    if enabled.len() == 0 {
        Seq::empty()
    } else {
        let rest = enabled.drop_last();
        let n = enabled.len() - 1;
        let before = known_metrics_are_asked_for(shell, rest);
        assert forall|i: int| 0 <= i < before.len() implies 0 <= #[trigger] before[i] < n by {
            assert(before.contains(before[i]));
        }
        let keep = probes::probe(shell, enabled[n]).len() > 0;
        let at = if keep {
            before.push(n)
        } else {
            before
        };
        assert forall|k: int| #[trigger] at.contains(k) <==> 0 <= k < enabled.len()
            && probes::probe(shell, enabled[k]).len() > 0 by {
            assert(before.contains(k) <==> 0 <= k < n && probes::probe(shell, rest[k]).len() > 0);
            if keep {
                assert(at[before.len() as int] == n);
                if before.contains(k) {
                    assert(at[before.index_of(k)] == k);
                }
                if at.contains(k) && k != n {
                    assert(before[at.index_of(k)] == k);
                }
            }
        }
        assert forall|i: int| 0 <= i < at.len()
            implies #[trigger] asked(shell, enabled)[i] == enabled[at[i]] by {
            if i < before.len() {
                assert(asked(shell, rest)[i] == rest[before[i]]);
            }
        }
        at
    }
}

/// What a record tells of a path: its label, the path itself and its size.
pub open spec fn tells_size(
    m: Map<Seq<char>, ScalarView>,
    path: Seq<char>,
    label: Seq<char>,
    size: nat,
) -> bool {
    &&& m.dom().contains("label"@) && m["label"@] == ScalarView::Text(label)
    &&& m.dom().contains("path"@) && m["path"@] == ScalarView::Text(path)
    &&& m.dom().contains("size_bytes"@) && m["size_bytes"@] == ScalarView::Number(size)
}

proof fn records_tell_their_size(path: Seq<char>, label: Seq<char>, size: nat)
    ensures
        tells_size(path_record(path, label, size), path, label, size),
{
    reveal_strlit("label");
    reveal_strlit("path");
    reveal_strlit("size_bytes");
    assert("label"@[0] == 'l' && "path"@[0] == 'p' && "size_bytes"@[0] == 's');
}

/// The paths of a batch that are measured are those with a size, in order, each with its own
/// path, label and size.
pub proof fn sized_paths_are_recorded(
    paths: Seq<(Seq<char>, Seq<char>)>,
    found: Map<Seq<char>, Option<nat>>,
) -> (at: Seq<int>)
    ensures
        forall|i: int, j: int|
            0 <= i < j < at.len() ==> #[trigger] at[i] < #[trigger] at[j],
        forall|k: int| #[trigger] at.contains(k) <==> 0 <= k < paths.len()
            && (found.dom().contains(paths[k].1) && found[paths[k].1] is Some),
        take_sizes(paths, found).records.len() == at.len(),
        forall|i: int|
            0 <= i < at.len() ==> tells_size(#[trigger] take_sizes(paths, found).records[i],
                paths[at[i]].0, paths[at[i]].1, found[paths[at[i]].1]->0),
    decreases paths.len(),
{
    if paths.len() == 0 {
        Seq::empty()
    } else {
        let rest = paths.drop_last();
        let n = paths.len() - 1;
        let before = sized_paths_are_recorded(rest, found);
        assert forall|i: int| 0 <= i < before.len() implies 0 <= #[trigger] before[i] < n by {
            assert(before.contains(before[i]));
        }
        let keep = (found.dom().contains(paths[n].1) && found[paths[n].1] is Some);
        let at = if keep {
            before.push(n)
        } else {
            before
        };
        assert forall|k: int| #[trigger] at.contains(k) <==> 0 <= k < paths.len()
            && (found.dom().contains(paths[k].1) && found[paths[k].1] is Some) by {
            assert(before.contains(k) <==> 0 <= k < n
                && (found.dom().contains(rest[k].1) && found[rest[k].1] is Some));
            if keep {
                assert(at[before.len() as int] == n);
                if before.contains(k) {
                    assert(at[before.index_of(k)] == k);
                }
                if at.contains(k) && k != n {
                    assert(before[at.index_of(k)] == k);
                }
            }
        }
        assert forall|i: int| 0 <= i < at.len()
            implies tells_size(#[trigger] take_sizes(paths, found).records[i], paths[at[i]].0,
            paths[at[i]].1, found[paths[at[i]].1]->0) by {
            if i < before.len() {
                assert(tells_size(take_sizes(rest, found).records[i], rest[before[i]].0,
                    rest[before[i]].1, found[rest[before[i]].1]->0));
            } else {
                records_tell_their_size(paths[n].0, paths[n].1, found[paths[n].1]->0);
            }
        }
        at
    }
}

/// Of paths that are asked for one by one, those are recorded whose command succeeded, in
/// order, each with the size that was read from its answer.
pub proof fn answered_paths_are_recorded(
    paths: Seq<(Seq<char>, Seq<char>)>,
    replies: Seq<AnswerView>,
) -> (at: Seq<int>)
    ensures
        forall|i: int, j: int|
            0 <= i < j < at.len() ==> #[trigger] at[i] < #[trigger] at[j],
        forall|k: int| #[trigger] at.contains(k) <==> 0 <= k < paths.len()
            && (replies[k] matches AnswerView::Output { success, .. } && success),
        after_paths(paths, replies).records.len() == at.len(),
        forall|i: int|
            0 <= i < at.len() ==> tells_size(#[trigger] after_paths(paths, replies).records[i],
                paths[at[i]].0, paths[at[i]].1, path_size(replies[at[i]]->stdout)),
    decreases paths.len(),
{
    if paths.len() == 0 {
        Seq::empty()
    } else {
        let rest = paths.drop_last();
        let n = paths.len() - 1;
        let before = answered_paths_are_recorded(rest, replies);
        assert forall|i: int| 0 <= i < before.len() implies 0 <= #[trigger] before[i] < n by {
            assert(before.contains(before[i]));
        }
        let keep = (replies[n] matches AnswerView::Output { success, .. } && success);
        let at = if keep {
            before.push(n)
        } else {
            before
        };
        assert forall|k: int| #[trigger] at.contains(k) <==> 0 <= k < paths.len()
            && (replies[k] matches AnswerView::Output { success, .. } && success) by {
            assert(before.contains(k) <==> 0 <= k < n
                && (replies[k] matches AnswerView::Output { success, .. } && success));
            if keep {
                assert(at[before.len() as int] == n);
                if before.contains(k) {
                    assert(at[before.index_of(k)] == k);
                }
                if at.contains(k) && k != n {
                    assert(before[at.index_of(k)] == k);
                }
            }
        }
        assert forall|i: int| 0 <= i < at.len()
            implies tells_size(#[trigger] after_paths(paths, replies).records[i], paths[at[i]].0,
            paths[at[i]].1, path_size(replies[at[i]]->stdout)) by {
            if i < before.len() {
                assert(tells_size(after_paths(rest, replies).records[i], rest[before[i]].0,
                    rest[before[i]].1, path_size(replies[before[i]]->stdout)));
            } else {
                records_tell_their_size(paths[n].0, paths[n].1, path_size(replies[n]->stdout));
            }
        }
        at
    }
}

/// A metric whose command succeeded has the value that its answer is read as; the others
/// have none from it.
pub proof fn answered_metrics_are_taken(
    shell: ShellType,
    metrics: Seq<Seq<char>>,
    answers: Seq<AnswerView>,
    k: int,
)
    requires
        metrics.no_duplicates(),
        0 <= k < metrics.len(),
        metrics[k] != "schema_version"@,
    ensures
        match answers[k] {
            AnswerView::Output { success, stdout, stderr } => if success {
                &&& after_metrics(shell, metrics, answers).values.dom().contains(metrics[k])
                &&& after_metrics(shell, metrics, answers).values[metrics[k]] == parsed(
                    shell,
                    metrics[k],
                    stdout,
                )
            } else {
                &&& !after_metrics(shell, metrics, answers).values.dom().contains(metrics[k])
                &&& after_metrics(shell, metrics, answers).errors.contains(
                    metrics[k] + ": "@ + trim(stderr),
                )
            },
            AnswerView::Error(e) => {
                &&& !after_metrics(shell, metrics, answers).values.dom().contains(metrics[k])
                &&& after_metrics(shell, metrics, answers).errors.contains(metrics[k] + ": "@ + e)
            },
        },
    decreases metrics.len(),
{
    let rest = metrics.drop_last();
    let n = metrics.len() - 1;
    let before = after_metrics(shell, rest, answers);
    let after = after_metrics(shell, metrics, answers);
    assert forall|e: Seq<char>| before.errors.contains(e) implies after.errors.contains(e) by {
        let i = before.errors.index_of(e);
        assert(after.errors[i] == e);
    }
    if k < n {
        assert(rest[k] == metrics[k]);
        assert(rest.no_duplicates()) by {
            assert forall|i: int, j: int| 0 <= i < rest.len() && 0 <= j < rest.len() && i
                != j implies rest[i] != rest[j] by {
                assert(metrics[i] != metrics[j]);
            }
        }
        answered_metrics_are_taken(shell, rest, answers, k);
        assert(metrics[k] != metrics[n]);
    } else {
        no_other_values(shell, rest, answers, metrics[n]);
        if after.errors.len() > before.errors.len() {
            assert(after.errors[before.errors.len() as int] == after.errors.last());
        }
    }
}

proof fn no_other_values(
    shell: ShellType,
    metrics: Seq<Seq<char>>,
    answers: Seq<AnswerView>,
    name: Seq<char>,
)
    requires
        !metrics.contains(name),
        name != "schema_version"@,
    ensures
        !after_metrics(shell, metrics, answers).values.dom().contains(name),
    decreases metrics.len(),
{
    if metrics.len() > 0 {
        let rest = metrics.drop_last();
        if rest.contains(name) {
            assert(metrics[rest.index_of(name)] == name);
        }
        no_other_values(shell, rest, answers, name);
        assert(metrics[metrics.len() - 1] != name);
    }
}

} // verus!
