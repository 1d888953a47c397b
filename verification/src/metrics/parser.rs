//! Reading what the probe commands print.

use vstd::prelude::*;

use crate::config::schema::ShellType;
use crate::lookup::TextMap;
use crate::metrics::data::{
    field_rows, fields, no_fields, no_values, set_field, set_value, snapshot_wf, text_data,
    text_value, values, DataView, MetricData, Record, Scalar, ScalarView, Snapshot,
};
use crate::metrics::number::{is_float_text, reads_as_float};
use crate::order::listed;
use crate::scan::{
    after_prefix, begins, begins_with, contains_text, has_text, join, join_all, lines,
    split_lines, split_words, strip_prefix, trim, trimmed, words,
};
use crate::text::{
    chars_of, copy, decimal, pair_texts, parse_unsigned, same, text_of, texts, texts_push,
        unsigned_value,
};

verus! {

broadcast use texts_push;

/// The fields of a record with a number added, where the word is one.
pub open spec fn with_number(
    m: Map<Seq<char>, ScalarView>,
    name: Seq<char>,
    word: Seq<char>,
) -> Map<Seq<char>, ScalarView> {
    match unsigned_value(word, u64::MAX as nat) {
        Some(n) => m.insert(name, ScalarView::Number(n)),
        None => m,
    }
}

fn add_number(r: &mut Record, name: &str, word: &str)
    requires
        old(r).wf(),
    ensures
        final(r).wf(),
        fields(*final(r)) == with_number(fields(*old(r)), name@, word@),
{
    match parse_unsigned(word, u64::MAX) {
        Some(n) => set_field(r, name, Scalar::Number(n)),
        None => {},
    }
}

// ---------------------------------------------------------------------------
// Blocks of a batch
// ---------------------------------------------------------------------------

/// The sections of a batch: each begins at a line with the marker, is named by
/// what follows the marker and holds the lines up to the next one. Lines before
/// the first marker belong to none.
pub open spec fn sections(ls: Seq<Seq<char>>, prefix: Seq<char>) -> Seq<
    (Seq<char>, Seq<Seq<char>>),
>
    decreases ls.len(),
{
    if ls.len() == 0 {
        Seq::empty()
    } else {
        let before = sections(ls.drop_last(), prefix);
        match after_prefix(ls.last(), prefix) {
            Some(rest) => before.push((trim(rest), Seq::empty())),
            None => if before.len() == 0 {
                before
            } else {
                before.drop_last().push((before.last().0, before.last().1.push(ls.last())))
            },
        }
    }
}

/// The sections of a batch, each as its name and its text.
pub open spec fn blocks(output: Seq<char>, prefix: Seq<char>) -> Seq<(Seq<char>, Seq<char>)> {
    let all = sections(lines(output), prefix);
    Seq::new(all.len(), |i: int| (all[i].0, join(all[i].1, "\n"@)))
}

spec fn section_views(list: Seq<(String, Vec<String>)>) -> Seq<(Seq<char>, Seq<Seq<char>>)> {
    Seq::new(list.len(), |i: int| (list[i].0@, texts(list[i].1@)))
}

/// Splits the output of a batch into the name and the text of each section.
pub fn split_by_marker(output: &str, prefix: &str) -> (r: Vec<(String, String)>)
    ensures
        pair_texts(r@) == blocks(output@, prefix@),
{
    let ls = split_lines(output);
    let ghost all = texts(ls@);
    let mut found: Vec<(String, Vec<String>)> = Vec::new();
    let mut i: usize = 0;
    while i < ls.len()
        invariant
            i <= ls.len(),
            all == texts(ls@),
            section_views(found@) == sections(all.take(i as int), prefix@),
        decreases ls.len() - i,
    {
        let ghost before = section_views(found@);
        assert(all.take(i + 1).drop_last() =~= all.take(i as int));
        assert(all.take(i + 1).last() == ls@[i as int]@);
        match strip_prefix(ls[i].as_str(), prefix) {
            Some(rest) => {
                found.push((trimmed(rest.as_str()), Vec::new()));
                assert(section_views(found@).last().1 =~= Seq::empty());
                assert(section_views(found@) =~= sections(all.take(i + 1), prefix@));
            },
            None => {
                match found.pop() {
                    Some(last) => {
                        let mut last = last;
                        assert(before.last() == (last.0@, texts(last.1@)));
                        last.1.push(copy(ls[i].as_str()));
                        found.push(last);
                        assert(section_views(found@) =~= sections(all.take(i + 1), prefix@));
                    },
                    None => {},
                }
            },
        }
        i += 1;
    }
    assert(all.take(i as int) =~= all);
    let mut out: Vec<(String, String)> = Vec::new();
    let mut k: usize = 0;
    while k < found.len()
        invariant
            k <= found.len(),
            section_views(found@) == sections(lines(output@), prefix@),
            pair_texts(out@) == blocks(output@, prefix@).take(k as int),
        decreases found.len() - k,
    {
        assert(section_views(found@)[k as int] == (found@[k as int].0@, texts(found@[k as int].1@)));
        let ghost before = out@;
        let name = copy(found[k].0.as_str());
        let text = join_all(found[k].1.as_slice(), "\n");
        assert(blocks(output@, prefix@)[k as int] == (name@, text@));
        out.push((name, text));
        assert(pair_texts(out@) =~= pair_texts(before).push((name@, text@)));
        k += 1;
        assert(pair_texts(out@) =~= blocks(output@, prefix@).take(k as int));
    }
    assert(pair_texts(out@) =~= blocks(output@, prefix@));
    out
}

// ---------------------------------------------------------------------------
// Single metrics
// ---------------------------------------------------------------------------

/// What `uname -a` says of a host: the line, its second word and its third.
pub open spec fn system_info(stdout: Seq<char>) -> Map<Seq<char>, ScalarView> {
    let ls = lines(stdout);
    if ls.len() == 0 {
        Map::empty()
    } else {
        let w = words(ls[0]);
        let m = Map::<Seq<char>, ScalarView>::empty().insert("uname"@, ScalarView::Text(trim(ls[0])));
        let m = if w.len() >= 2 {
            m.insert("hostname"@, ScalarView::Text(w[1]))
        } else {
            m
        };
        if w.len() >= 3 {
            m.insert("kernel"@, ScalarView::Text(w[2]))
        } else {
            m
        }
    }
}

fn parse_sh_system_info(stdout: &str) -> (r: MetricData)
    ensures
        r.wf(),
        r@ == DataView::Record(system_info(stdout@)),
{
    let ls = split_lines(stdout);
    let mut map = no_fields();
    assert(texts(ls@).len() == ls@.len());
    if ls.len() > 0 {
        assert(texts(ls@)[0] == ls@[0]@);
        set_field(&mut map, "uname", Scalar::Text(trimmed(ls[0].as_str())));
        let parts = split_words(ls[0].as_str());
        assert(texts(parts@).len() == parts@.len());
        if parts.len() >= 2 {
            assert(texts(parts@)[1] == parts@[1]@);
            set_field(&mut map, "hostname", Scalar::Text(copy(parts[1].as_str())));
        }
        if parts.len() >= 3 {
            assert(texts(parts@)[2] == parts@[2]@);
            set_field(&mut map, "kernel", Scalar::Text(copy(parts[2].as_str())));
        }
    }
    MetricData::Record(map)
}

/// A total and a used number of bytes, the second and the third word of a line.
pub open spec fn with_usage(m: Map<Seq<char>, ScalarView>, w: Seq<Seq<char>>) -> Map<
    Seq<char>,
    ScalarView,
> {
    with_number(with_number(m, "total_bytes"@, w[1]), "used_bytes"@, w[2])
}

/// The usage that the lines with a heading report; a later line counts.
pub open spec fn usage(ls: Seq<Seq<char>>, heading: Seq<char>) -> Map<Seq<char>, ScalarView>
    decreases ls.len(),
{
    if ls.len() == 0 {
        Map::empty()
    } else {
        let m = usage(ls.drop_last(), heading);
        if begins(ls.last(), heading) && words(ls.last()).len() >= 3 {
            with_usage(m, words(ls.last()))
        } else {
            m
        }
    }
}

fn parse_usage(stdout: &str, heading: &str) -> (r: MetricData)
    ensures
        r.wf(),
        r@ == DataView::Record(usage(lines(stdout@), heading@)),
{
    let ls = split_lines(stdout);
    let ghost all = texts(ls@);
    let mut map = no_fields();
    let mut i: usize = 0;
    while i < ls.len()
        invariant
            i <= ls.len(),
            all == texts(ls@),
            map.wf(),
            fields(map) == usage(all.take(i as int), heading@),
        decreases ls.len() - i,
    {
        assert(all.take(i + 1).drop_last() =~= all.take(i as int));
        assert(all.take(i + 1).last() == ls@[i as int]@);
        if begins_with(ls[i].as_str(), heading) {
            let parts = split_words(ls[i].as_str());
            assert(texts(parts@).len() == parts@.len());
            if parts.len() >= 3 {
                assert(texts(parts@)[1] == parts@[1]@);
                assert(texts(parts@)[2] == parts@[2]@);
                add_number(&mut map, "total_bytes", parts[1].as_str());
                add_number(&mut map, "used_bytes", parts[2].as_str());
            }
        }
        i += 1;
    }
    assert(all.take(i as int) =~= all);
    MetricData::Record(map)
}

fn parse_sh_memory(stdout: &str) -> (r: MetricData)
    ensures
        r.wf(),
        r@ == DataView::Record(usage(lines(stdout@), "Mem:"@)),
{
    parse_usage(stdout, "Mem:")
}

fn parse_sh_swap(stdout: &str) -> (r: MetricData)
    ensures
        r.wf(),
        r@ == DataView::Record(usage(lines(stdout@), "Swap:"@)),
{
    parse_usage(stdout, "Swap:")
}

/// One disk: its usage, and the last word of the line as its mount point.
pub open spec fn disk(w: Seq<Seq<char>>) -> Map<Seq<char>, ScalarView> {
    with_usage(Map::empty(), w).insert("mount"@, ScalarView::Text(w.last()))
}

/// The disks that the lines after the heading list, those with six words or
/// more.
pub open spec fn disks(ls: Seq<Seq<char>>) -> Seq<Map<Seq<char>, ScalarView>>
    decreases ls.len(),
{
    if ls.len() <= 1 {
        Seq::empty()
    } else {
        let before = disks(ls.drop_last());
        if words(ls.last()).len() >= 6 {
            before.push(disk(words(ls.last())))
        } else {
            before
        }
    }
}

fn parse_sh_disk(stdout: &str) -> (r: MetricData)
    ensures
        r.wf(),
        r@ == DataView::Records(disks(lines(stdout@))),
{
    let ls = split_lines(stdout);
    let ghost all = texts(ls@);
    let mut out: Vec<Record> = Vec::new();
    if ls.len() == 0 {
        assert(field_rows(out@) =~= disks(all));
        return MetricData::Records(out);
    }
    let mut i: usize = 1;
    assert(field_rows(out@) =~= disks(all.take(1)));
    while i < ls.len()
        invariant
            1 <= i <= ls.len(),
            all == texts(ls@),
            forall|j: int| 0 <= j < out@.len() ==> (#[trigger] out@[j]).wf(),
            field_rows(out@) == disks(all.take(i as int)),
        decreases ls.len() - i,
    {
        assert(all.take(i + 1).drop_last() =~= all.take(i as int));
        assert(all.take(i + 1).last() == ls@[i as int]@);
        let parts = split_words(ls[i].as_str());
        assert(texts(parts@).len() == parts@.len());
        let ghost before = field_rows(out@);
        if parts.len() >= 6 {
            assert(texts(parts@)[1] == parts@[1]@);
            assert(texts(parts@)[2] == parts@[2]@);
            assert(texts(parts@).last() == parts@.last()@);
            let mut entry = no_fields();
            add_number(&mut entry, "total_bytes", parts[1].as_str());
            add_number(&mut entry, "used_bytes", parts[2].as_str());
            set_field(&mut entry, "mount", Scalar::Text(copy(parts[parts.len() - 1].as_str())));
            let ghost e = entry;
            out.push(entry);
            assert(field_rows(out@) =~= before.push(fields(e)));
        }
        i += 1;
    }
    assert(all.take(i as int) =~= all);
    MetricData::Records(out)
}

/// The fields of a record with a decimal number added, where the word is one.
pub open spec fn with_decimal(
    m: Map<Seq<char>, ScalarView>,
    name: Seq<char>,
    word: Seq<char>,
) -> Map<Seq<char>, ScalarView> {
    if is_float_text(word) {
        m.insert(name, ScalarView::Decimal(word))
    } else {
        m
    }
}

/// The load averages, the first three words where there are three.
pub open spec fn cpu_load(w: Seq<Seq<char>>) -> Map<Seq<char>, ScalarView> {
    if w.len() >= 3 {
        with_decimal(
            with_decimal(with_decimal(Map::empty(), "load1"@, w[0]), "load5"@, w[1]),
            "load15"@,
            w[2],
        )
    } else {
        Map::empty()
    }
}

fn add_decimal(r: &mut Record, name: &str, word: &str)
    requires
        old(r).wf(),
    ensures
        final(r).wf(),
        fields(*final(r)) == with_decimal(fields(*old(r)), name@, word@),
{
    if reads_as_float(word) {
        set_field(r, name, Scalar::Decimal(copy(word)));
    }
}

fn parse_sh_cpu_load(stdout: &str) -> (r: MetricData)
    ensures
        r.wf(),
        r@ == DataView::Record(cpu_load(words(stdout@))),
{
    let parts = split_words(stdout);
    let mut map = no_fields();
    assert(texts(parts@).len() == parts@.len());
    if parts.len() >= 3 {
        assert(texts(parts@)[0] == parts@[0]@);
        assert(texts(parts@)[1] == parts@[1]@);
        assert(texts(parts@)[2] == parts@[2]@);
        add_decimal(&mut map, "load1", parts[0].as_str());
        add_decimal(&mut map, "load5", parts[1].as_str());
        add_decimal(&mut map, "load15", parts[2].as_str());
    }
    MetricData::Record(map)
}

/// The number before a per cent sign at the end of a line.
pub open spec fn percent_of(line: Seq<char>) -> Option<nat> {
    let t = trim(line);
    if t.len() > 0 && t.last() == '%' {
        unsigned_value(trim(t.drop_last()), u64::MAX as nat)
    } else {
        None
    }
}

/// The percentage on the first line that gives one.
pub open spec fn first_percent(ls: Seq<Seq<char>>) -> Option<nat>
    decreases ls.len(),
{
    if ls.len() == 0 {
        None
    } else if percent_of(ls[0]) is Some {
        percent_of(ls[0])
    } else {
        first_percent(ls.skip(1))
    }
}

/// Whether there is a battery, and how full it is where that is told.
pub open spec fn battery(stdout: Seq<char>) -> Map<Seq<char>, ScalarView> {
    let none = Map::<Seq<char>, ScalarView>::empty();
    if trim(stdout).len() == 0 || has_text(trim(stdout), "No such file"@) {
        none.insert("present"@, ScalarView::Flag(false))
    } else {
        let some = none.insert("present"@, ScalarView::Flag(true));
        match first_percent(lines(stdout)) {
            Some(n) => some.insert("percent"@, ScalarView::Number(n)),
            None => some,
        }
    }
}

fn percent(line: &str) -> (r: Option<u64>)
    ensures
        r is Some <==> percent_of(line@) is Some,
        r matches Some(n) ==> percent_of(line@) == Some(n as nat),
{
    let t = trimmed(line);
    let cs = chars_of(t.as_str());
    if cs.len() > 0 && cs[cs.len() - 1] == '%' {
        let head = text_of(&cs, 0, cs.len() - 1);
        assert(head@ =~= t@.drop_last());
        parse_unsigned(trimmed(head.as_str()).as_str(), u64::MAX)
    } else {
        None
    }
}

fn parse_sh_battery(stdout: &str) -> (r: MetricData)
    ensures
        r.wf(),
        r@ == DataView::Record(battery(stdout@)),
{
    let mut map = no_fields();
    let t = trimmed(stdout);
    if chars_of(t.as_str()).len() == 0 || contains_text(t.as_str(), "No such file") {
        set_field(&mut map, "present", Scalar::Flag(false));
        return MetricData::Record(map);
    }
    set_field(&mut map, "present", Scalar::Flag(true));
    let ls = split_lines(stdout);
    let ghost all = texts(ls@);
    let mut i: usize = 0;
    assert(all.skip(0) =~= all);
    while i < ls.len()
        invariant
            i <= ls.len(),
            all == texts(ls@),
            map.wf(),
            fields(map) == Map::<Seq<char>, ScalarView>::empty().insert(
                "present"@,
                ScalarView::Flag(true),
            ),
            first_percent(all) == first_percent(all.skip(i as int)),
            all == lines(stdout@),
            !(trim(stdout@).len() == 0 || has_text(trim(stdout@), "No such file"@)),
        decreases ls.len() - i,
    {
        assert(all.skip(i as int)[0] == ls@[i as int]@);
        assert(all.skip(i as int).skip(1) =~= all.skip(i + 1));
        match percent(ls[i].as_str()) {
            Some(n) => {
                set_field(&mut map, "percent", Scalar::Number(n));
                return MetricData::Record(map);
            },
            None => {},
        }
        i += 1;
    }
    assert(all.skip(i as int).len() == 0);
    MetricData::Record(map)
}

fn parse_sh_network(stdout: &str) -> (r: MetricData)
    ensures
        r.wf(),
        r@ == text_data(trim(stdout@)),
{
    text_value(trimmed(stdout).as_str())
}

fn parse_ps_system_info(stdout: &str) -> (r: MetricData)
    ensures
        r.wf(),
        r@ == text_data(trim(stdout@)),
{
    text_value(trimmed(stdout).as_str())
}

fn parse_ps_memory(stdout: &str) -> (r: MetricData)
    ensures
        r.wf(),
        r@ == text_data(trim(stdout@)),
{
    text_value(trimmed(stdout).as_str())
}

/// What the output of a probe says: on POSIX shells six metrics have a form of
/// their own; everything else is kept as text.
pub open spec fn parsed(shell: ShellType, metric: Seq<char>, stdout: Seq<char>) -> DataView {
    if shell != ShellType::Sh {
        text_data(trim(stdout))
    } else if metric == "system_info"@ {
        DataView::Record(system_info(stdout))
    } else if metric == "memory"@ {
        DataView::Record(usage(lines(stdout), "Mem:"@))
    } else if metric == "swap"@ {
        DataView::Record(usage(lines(stdout), "Swap:"@))
    } else if metric == "disk"@ {
        DataView::Records(disks(lines(stdout)))
    } else if metric == "cpu_load"@ {
        DataView::Record(cpu_load(words(stdout)))
    } else if metric == "battery"@ {
        DataView::Record(battery(stdout))
    } else {
        text_data(trim(stdout))
    }
}

/// Reads the output of the probe for a metric.
pub fn parse(shell: ShellType, metric: &str, stdout: &str) -> (r: MetricData)
    ensures
        r.wf(),
        r@ == parsed(shell, metric@, stdout@),
{
    match shell {
        ShellType::Sh => {
            if same(metric, "system_info") {
                parse_sh_system_info(stdout)
            } else if same(metric, "memory") {
                parse_sh_memory(stdout)
            } else if same(metric, "swap") {
                parse_sh_swap(stdout)
            } else if same(metric, "disk") {
                parse_sh_disk(stdout)
            } else if same(metric, "cpu_load") {
                parse_sh_cpu_load(stdout)
            } else if same(metric, "battery") {
                parse_sh_battery(stdout)
            } else if same(metric, "network") {
                parse_sh_network(stdout)
            } else {
                text_value(trimmed(stdout).as_str())
            }
        },
        ShellType::PowerShell => {
            if same(metric, "system_info") {
                parse_ps_system_info(stdout)
            } else if same(metric, "memory") {
                parse_ps_memory(stdout)
            } else {
                text_value(trimmed(stdout).as_str())
            }
        },
        ShellType::Cmd => text_value(trimmed(stdout).as_str()),
    }
}

/// The size that the first word of an answer gives; 0 where it is no number.
pub open spec fn path_size(stdout: Seq<char>) -> nat {
    let w = words(trim(stdout));
    if w.len() == 0 {
        0
    } else {
        match unsigned_value(w[0], u64::MAX as nat) {
            Some(n) => n,
            None => 0,
        }
    }
}

/// Reads the size of a path.
pub fn parse_path_size(_shell: ShellType, stdout: &str) -> (r: u64)
    ensures
        r == path_size(stdout@),
{
    let w = split_words(trimmed(stdout).as_str());
    assert(texts(w@).len() == w@.len());
    if w.len() == 0 {
        return 0;
    }
    assert(texts(w@)[0] == w@[0]@);
    match parse_unsigned(w[0].as_str(), u64::MAX) {
        Some(n) => n,
        None => 0,
    }
}

// ---------------------------------------------------------------------------
// Batches
// ---------------------------------------------------------------------------

/// The values of the asked-for metrics among the blocks of a batch; where a
/// metric has several blocks the last one counts.
pub open spec fn batch_values(
    shell: ShellType,
    metrics: Seq<Seq<char>>,
    found: Seq<(Seq<char>, Seq<char>)>,
) -> Map<Seq<char>, DataView>
    decreases found.len(),
{
    if found.len() == 0 {
        Map::empty()
    } else {
        let m = batch_values(shell, metrics, found.drop_last());
        if metrics.contains(found.last().0) {
            m.insert(found.last().0, parsed(shell, found.last().0, found.last().1))
        } else {
            m
        }
    }
}

/// What the output of a metric batch says.
pub open spec fn batch(shell: ShellType, metrics: Seq<Seq<char>>, stdout: Seq<char>) -> Map<
    Seq<char>,
    DataView,
> {
    batch_values(shell, metrics, blocks(stdout, "---METRIC:"@))
}

/// Reads the output of a metric batch.
pub fn parse_batch(shell: ShellType, metrics: &[String], stdout: &str) -> (r: Snapshot)
    ensures
        snapshot_wf(r),
        values(r) == batch(shell, texts(metrics@), stdout@),
{
    let found = split_by_marker(stdout, "---METRIC:");
    let ghost all = pair_texts(found@);
    let mut out = no_values();
    let mut i: usize = 0;
    while i < found.len()
        invariant
            i <= found.len(),
            all == pair_texts(found@),
            snapshot_wf(out),
            values(out) == batch_values(shell, texts(metrics@), all.take(i as int)),
        decreases found.len() - i,
    {
        assert(all.take(i + 1).drop_last() =~= all.take(i as int));
        assert(all.take(i + 1).last() == (found@[i as int].0@, found@[i as int].1@));
        let name = found[i].0.as_str();
        if listed(metrics, name) {
            set_value(&mut out, name, parse(shell, name, found[i].1.as_str()));
        }
        i += 1;
    }
    assert(all.take(i as int) =~= all);
    out
}

/// The labels of a list of paths, each a path and its label.
pub open spec fn labels(paths: Seq<(String, String)>) -> Seq<Seq<char>> {
    Seq::new(paths.len(), |i: int| paths[i].1@)
}

/// The size that a block reports; none where it says the path is missing or
/// says nothing.
pub open spec fn block_size(content: Seq<char>) -> Option<nat> {
    let t = trim(content);
    if t == "MISSING"@ || t.len() == 0 {
        None
    } else {
        Some(path_size(content))
    }
}

/// The sizes of the asked-for labels among the blocks of a batch.
pub open spec fn batch_sizes(
    wanted: Seq<Seq<char>>,
    found: Seq<(Seq<char>, Seq<char>)>,
) -> Map<Seq<char>, Option<nat>>
    decreases found.len(),
{
    if found.len() == 0 {
        Map::empty()
    } else {
        let m = batch_sizes(wanted, found.drop_last());
        if wanted.contains(found.last().0) {
            m.insert(found.last().0, block_size(found.last().1))
        } else {
            m
        }
    }
}

/// What the output of a path batch says.
pub open spec fn path_batch(wanted: Seq<Seq<char>>, stdout: Seq<char>) -> Map<
    Seq<char>,
    Option<nat>,
> {
    batch_sizes(wanted, blocks(stdout, "---PATH:"@))
}

/// A size as a natural number.
pub open spec fn size_view(s: Option<u64>) -> Option<nat> {
    match s {
        Some(n) => Some(n as nat),
        None => None,
    }
}

/// The sizes by label.
pub open spec fn sizes(m: TextMap<Option<u64>>) -> Map<Seq<char>, Option<nat>> {
    m@.map_values(|s: Option<u64>| size_view(s))
}

fn label_listed(paths: &[(String, String)], label: &str) -> (r: bool)
    ensures
        r == labels(paths@).contains(label@),
{
    let mut i: usize = 0;
    while i < paths.len()
        invariant
            i <= paths.len(),
            forall|j: int| 0 <= j < i ==> #[trigger] labels(paths@)[j] != label@,
        decreases paths.len() - i,
    {
        if same(paths[i].1.as_str(), label) {
            assert(labels(paths@)[i as int] == label@);
            return true;
        }
        assert(labels(paths@)[i as int] != label@);
        i += 1;
    }
    false
}

/// Reads the output of a path batch.
pub fn parse_batch_paths(shell: ShellType, paths: &[(String, String)], stdout: &str) -> (r: TextMap<
    Option<u64>,
>)
    ensures
        r.wf(),
        sizes(r) == path_batch(labels(paths@), stdout@),
{
    let found = split_by_marker(stdout, "---PATH:");
    let ghost all = pair_texts(found@);
    let mut out: TextMap<Option<u64>> = TextMap::new();
    let mut i: usize = 0;
    assert(sizes(out) =~= batch_sizes(labels(paths@), all.take(0)));
    while i < found.len()
        invariant
            i <= found.len(),
            all == pair_texts(found@),
            out.wf(),
            sizes(out) == batch_sizes(labels(paths@), all.take(i as int)),
        decreases found.len() - i,
    {
        assert(all.take(i + 1).drop_last() =~= all.take(i as int));
        assert(all.take(i + 1).last() == (found@[i as int].0@, found@[i as int].1@));
        let label = found[i].0.as_str();
        if label_listed(paths, label) {
            let ghost before = out;
            let t = trimmed(found[i].1.as_str());
            let size: Option<u64> = if same(t.as_str(), "MISSING") || chars_of(t.as_str()).len() == 0 {
                None
            } else {
                Some(parse_path_size(shell, found[i].1.as_str()))
            };
            out.insert(copy(label), size);
            assert(sizes(out) =~= sizes(before).insert(label@, size_view(size)));
        }
        i += 1;
    }
    assert(all.take(i as int) =~= all);
    out
}

// ---------------------------------------------------------------------------
// Laws
// ---------------------------------------------------------------------------

/// The lines that a batch prints: for every part its marker, then its lines.
pub open spec fn written(parts: Seq<(Seq<char>, Seq<Seq<char>>)>, prefix: Seq<char>) -> Seq<
    Seq<char>,
>
    decreases parts.len(),
{
    if parts.len() == 0 {
        Seq::empty()
    } else {
        written(parts.drop_last(), prefix).push(prefix + parts.last().0) + parts.last().1
    }
}

/// Whether none of the lines begins with the marker.
pub open spec fn unmarked(ls: Seq<Seq<char>>, prefix: Seq<char>) -> bool {
    forall|i: int| 0 <= i < ls.len() ==> !begins(#[trigger] ls[i], prefix)
}

proof fn sections_grow(ls: Seq<Seq<char>>, more: Seq<Seq<char>>, prefix: Seq<char>)
    requires
        sections(ls, prefix).len() > 0,
        unmarked(more, prefix),
    ensures
        ({
            let s = sections(ls, prefix);
            sections(ls + more, prefix) == s.drop_last().push((s.last().0, s.last().1 + more))
        }),
    decreases more.len(),
{
    let s = sections(ls, prefix);
    if more.len() == 0 {
        assert(ls + more =~= ls);
        assert(s.last().1 + more =~= s.last().1);
        assert(s =~= s.drop_last().push((s.last().0, s.last().1 + more)));
    } else {
        let less = more.drop_last();
        assert forall|i: int| 0 <= i < less.len() implies !begins(#[trigger] less[i], prefix) by {
            assert(less[i] == more[i]);
        }
        sections_grow(ls, less, prefix);
        assert((ls + more).drop_last() =~= ls + less);
        assert((ls + more).last() == more.last());
        assert(!begins(more[more.len() - 1], prefix));
        let before = sections(ls + less, prefix);
        assert(before.drop_last() =~= s.drop_last());
        assert(before.last().1.push(more.last()) =~= s.last().1 + more);
        assert(sections(ls + more, prefix) =~= s.drop_last().push((s.last().0, s.last().1 + more)));
    }
}

/// Reading a batch gives back the parts that were printed: their names, in
/// their order, each with its own lines, provided that no name begins or ends
/// with white space and no line looks like a marker.
pub proof fn reading_gives_back_what_was_printed(
    parts: Seq<(Seq<char>, Seq<Seq<char>>)>,
    prefix: Seq<char>,
)
    requires
        forall|i: int| 0 <= i < parts.len() ==> trim((#[trigger] parts[i]).0) == parts[i].0,
        forall|i: int| 0 <= i < parts.len() ==> unmarked((#[trigger] parts[i]).1, prefix),
    ensures
        sections(written(parts, prefix), prefix) == parts,
    decreases parts.len(),
{
    if parts.len() > 0 {
        let less = parts.drop_last();
        assert forall|i: int| 0 <= i < less.len() implies trim((#[trigger] less[i]).0) == less[i].0 by {
            assert(less[i] == parts[i]);
        }
        assert forall|i: int| 0 <= i < less.len() implies unmarked((#[trigger] less[i]).1, prefix) by {
            assert(less[i] == parts[i]);
        }
        reading_gives_back_what_was_printed(less, prefix);
        let n = parts.len() - 1;
        let (name, text) = parts[n];
        assert(trim(parts[n].0) == name);
        let head = written(less, prefix).push(prefix + name);
        assert(head.drop_last() =~= written(less, prefix));
        assert((prefix + name).subrange(0, prefix.len() as int) =~= prefix);
        assert((prefix + name).skip(prefix.len() as int) =~= name);
        assert(after_prefix(prefix + name, prefix) == Some(name));
        let s = sections(head, prefix);
        assert(s =~= less.push((name, Seq::empty())));
        sections_grow(head, text, prefix);
        assert(Seq::<Seq<char>>::empty() + text =~= text);
        assert(s.drop_last() =~= less);
        assert(less.push((name, text)) =~= parts);
    } else {
        assert(sections(written(parts, prefix), prefix) =~= parts);
    }
}

/// A batch yields values for metrics that were asked for, and for no others.
pub proof fn only_asked_metrics_are_read(
    shell: ShellType,
    metrics: Seq<Seq<char>>,
    found: Seq<(Seq<char>, Seq<char>)>,
    name: Seq<char>,
)
    ensures
        batch_values(shell, metrics, found).dom().contains(name) <==> metrics.contains(name)
            && exists|i: int| 0 <= i < found.len() && (#[trigger] found[i]).0 == name,
    decreases found.len(),
{
    if found.len() > 0 {
        let less = found.drop_last();
        only_asked_metrics_are_read(shell, metrics, less, name);
        assert(found.last() == found[found.len() - 1]);
        if exists|i: int| 0 <= i < less.len() && (#[trigger] less[i]).0 == name {
            let i = choose|i: int| 0 <= i < less.len() && (#[trigger] less[i]).0 == name;
            assert(found[i].0 == name);
        }
        if exists|i: int| 0 <= i < found.len() && (#[trigger] found[i]).0 == name {
            let i = choose|i: int| 0 <= i < found.len() && (#[trigger] found[i]).0 == name;
            if i < less.len() {
                assert(less[i].0 == name);
            }
        }
    }
}

proof fn numbers_are_taken(m: Map<Seq<char>, ScalarView>, name: Seq<char>, n: nat)
    requires
        n <= u64::MAX,
    ensures
        with_number(m, name, decimal(n)) == m.insert(name, ScalarView::Number(n)),
{
    crate::text::decimals_are_read_back(n);
}

proof fn usage_names_differ()
    ensures
        "total_bytes"@ != "used_bytes"@,
        "mount"@ != "used_bytes"@,
        "mount"@ != "total_bytes"@,
{
    reveal_strlit("total_bytes");
    reveal_strlit("used_bytes");
    reveal_strlit("mount");
    assert("total_bytes"@[0] == 't' && "used_bytes"@[0] == 'u' && "mount"@[0] == 'm');
}

/// The last line under a heading tells the size and how much of it is used: its second word
/// is the one and its third the other.
pub proof fn usage_is_read_under_its_heading(
    ls: Seq<Seq<char>>,
    heading: Seq<char>,
    k: int,
    total: nat,
    used: nat,
)
    requires
        0 <= k < ls.len(),
        begins(ls[k], heading),
        words(ls[k]).len() >= 3,
        words(ls[k])[1] == decimal(total),
        words(ls[k])[2] == decimal(used),
        total <= u64::MAX,
        used <= u64::MAX,
        forall|i: int| k < i < ls.len() ==> !begins(#[trigger] ls[i], heading),
    ensures
        usage(ls, heading).dom().contains("total_bytes"@),
        usage(ls, heading)["total_bytes"@] == ScalarView::Number(total),
        usage(ls, heading).dom().contains("used_bytes"@),
        usage(ls, heading)["used_bytes"@] == ScalarView::Number(used),
    decreases ls.len(),
{
    usage_names_differ();
    let rest = ls.drop_last();
    if k < ls.len() - 1 {
        assert(rest[k] == ls[k]);
        assert forall|i: int| k < i < rest.len() implies !begins(#[trigger] rest[i], heading) by {
            assert(rest[i] == ls[i]);
        }
        usage_is_read_under_its_heading(rest, heading, k, total, used);
        assert(!begins(ls[ls.len() - 1], heading));
    } else {
        let m = usage(rest, heading);
        numbers_are_taken(m, "total_bytes"@, total);
        numbers_are_taken(with_number(m, "total_bytes"@, decimal(total)), "used_bytes"@, used);
    }
}

/// Memory is read under `Mem:` and swap under `Swap:`.
pub proof fn memory_and_swap_are_read(
    stdout: Seq<char>,
    k: int,
    total: nat,
    used: nat,
    heading: Seq<char>,
)
    requires
        0 <= k < lines(stdout).len(),
        begins(lines(stdout)[k], heading),
        words(lines(stdout)[k]).len() >= 3,
        words(lines(stdout)[k])[1] == decimal(total),
        words(lines(stdout)[k])[2] == decimal(used),
        total <= u64::MAX,
        used <= u64::MAX,
        forall|i: int| k < i < lines(stdout).len()
            ==> !begins(#[trigger] lines(stdout)[i], heading),
    ensures
        heading == "Mem:"@ ==> (parsed(ShellType::Sh, "memory"@, stdout) matches DataView::Record(
            m,
        ) && m.dom().contains("total_bytes"@) && m["total_bytes"@] == ScalarView::Number(total)
            && m.dom().contains("used_bytes"@) && m["used_bytes"@] == ScalarView::Number(used)),
        heading == "Swap:"@ ==> (parsed(ShellType::Sh, "swap"@, stdout) matches DataView::Record(m)
            && m.dom().contains("total_bytes"@) && m["total_bytes"@] == ScalarView::Number(total)
            && m.dom().contains("used_bytes"@) && m["used_bytes"@] == ScalarView::Number(used)),
{
    metric_names_differ();
    usage_is_read_under_its_heading(lines(stdout), heading, k, total, used);
}

proof fn metric_names_differ()
    ensures
        "memory"@ != "system_info"@,
        "swap"@ != "system_info"@ && "swap"@ != "memory"@,
        "disk"@ != "system_info"@ && "disk"@ != "memory"@ && "disk"@ != "swap"@,
        "cpu_load"@ != "system_info"@ && "cpu_load"@ != "memory"@ && "cpu_load"@ != "swap"@
            && "cpu_load"@ != "disk"@,
        "battery"@ != "system_info"@ && "battery"@ != "memory"@ && "battery"@ != "swap"@
            && "battery"@
            != "disk"@ && "battery"@ != "cpu_load"@,
{
    reveal_strlit("memory");
    reveal_strlit("system_info");
    reveal_strlit("swap");
    reveal_strlit("disk");
    reveal_strlit("cpu_load");
    reveal_strlit("battery");
    assert("memory"@[0] == 'm' && "disk"@[0] == 'd' && "cpu_load"@[0] == 'c'
        && "battery"@[0] == 'b');
    assert("system_info"@.len() == 11 && "swap"@.len() == 4);
    assert("swap"@[0] == 's');
    assert("system_info"@[0] == 's');
}

/// A disk is read from the words of its line: the second is its size, the third what is
/// used of it, and the last where it is mounted.
pub proof fn disks_are_read_from_their_words(w: Seq<Seq<char>>, total: nat, used: nat)
    requires
        w.len() >= 6,
        w[1] == decimal(total),
        w[2] == decimal(used),
        total <= u64::MAX,
        used <= u64::MAX,
    ensures
        disk(w).dom().contains("total_bytes"@)
            && disk(w)["total_bytes"@] == ScalarView::Number(total),
        disk(w).dom().contains("used_bytes"@) && disk(w)["used_bytes"@] == ScalarView::Number(used),
        disk(w).dom().contains("mount"@) && disk(w)["mount"@] == ScalarView::Text(w[w.len() - 1]),
{
    usage_names_differ();
    let none = Map::<Seq<char>, ScalarView>::empty();
    numbers_are_taken(none, "total_bytes"@, total);
    numbers_are_taken(with_number(none, "total_bytes"@, decimal(total)), "used_bytes"@, used);
}

/// Each line of a disk listing but the first, with six words or more, gives one disk, in
/// order.
pub proof fn every_disk_line_gives_a_disk(ls: Seq<Seq<char>>) -> (at: Seq<int>)
    ensures
        forall|i: int, j: int| 0 <= i < j < at.len() ==> #[trigger] at[i] < #[trigger] at[j],
        forall|k: int| #[trigger] at.contains(k) <==> 1 <= k < ls.len() && words(ls[k]).len() >= 6,
        disks(ls).len() == at.len(),
        forall|i: int| 0 <= i < at.len() ==> #[trigger] disks(ls)[i] == disk(words(ls[at[i]])),
    decreases ls.len(),
{
    if ls.len() <= 1 {
        Seq::empty()
    } else {
        let rest = ls.drop_last();
        let n = ls.len() - 1;
        let before = every_disk_line_gives_a_disk(rest);
        assert forall|i: int| 0 <= i < before.len() implies 0 <= #[trigger] before[i] < n by {
            assert(before.contains(before[i]));
        }
        let keep = words(ls[n]).len() >= 6;
        let at = if keep {
            before.push(n)
        } else {
            before
        };
        assert forall|k: int| #[trigger] at.contains(k) <==> 1 <= k < ls.len() && words(
            ls[k],
        ).len() >= 6 by {
            assert(before.contains(k) <==> 1 <= k < n && words(rest[k]).len() >= 6);
            if keep {
                assert(at[before.len() as int] == n);
                if before.contains(k) {
                    assert(at[before.index_of(k)] == k);
                }
                if at.contains(k) && k != n {
                    assert(before[at.index_of(k)] == k);
                }
            }
        }
        assert forall|i: int| 0 <= i < at.len() implies #[trigger] disks(ls)[i] == disk(
            words(ls[at[i]]),
        ) by {
            if i < before.len() {
                assert(disks(rest)[i] == disk(words(rest[before[i]])));
            }
        }
        at
    }
}

/// The first three words of a load average are the loads over one, five and fifteen
/// minutes.
pub proof fn loads_are_read_in_order(stdout: Seq<char>)
    requires
        words(stdout).len() >= 3,
        is_float_text(words(stdout)[0]) && is_float_text(words(stdout)[1]) && is_float_text(
            words(stdout)[2],
        ),
    ensures
        parsed(ShellType::Sh, "cpu_load"@, stdout) matches DataView::Record(m) && m.dom().contains(
            "load1"@,
        ) && m["load1"@] == ScalarView::Decimal(words(stdout)[0]) && m.dom().contains("load5"@)
            && m["load5"@] == ScalarView::Decimal(words(stdout)[1]) && m.dom().contains("load15"@)
            && m["load15"@] == ScalarView::Decimal(words(stdout)[2]),
{
    metric_names_differ();
    reveal_strlit("load1");
    reveal_strlit("load5");
    reveal_strlit("load15");
    assert("load1"@.len() == 5 && "load5"@.len() == 5 && "load15"@.len() == 6);
    assert("load1"@[4] == '1' && "load5"@[4] == '5');
}

proof fn the_first_percentage_counts(ls: Seq<Seq<char>>, k: int)
    requires
        0 <= k < ls.len(),
        percent_of(ls[k]) is Some,
        forall|i: int| 0 <= i < k ==> percent_of(#[trigger] ls[i]) is None,
    ensures
        first_percent(ls) == percent_of(ls[k]),
    decreases ls.len(),
{
    if k > 0 {
        let rest = ls.skip(1);
        assert(percent_of(ls[0]) is None);
        assert forall|i: int| 0 <= i < k - 1 implies percent_of(#[trigger] rest[i]) is None by {
            assert(rest[i] == ls[i + 1]);
        }
        assert(rest[k - 1] == ls[k]);
        the_first_percentage_counts(rest, k - 1);
    }
}

/// A battery is read with the first percentage of its answer; a host that prints nothing
/// has none.
pub proof fn batteries_are_read(stdout: Seq<char>, k: int, percent: nat)
    requires
        percent <= u64::MAX,
    ensures
        trim(stdout).len() == 0
            ==> (parsed(ShellType::Sh, "battery"@, stdout) matches DataView::Record(
            m,
        ) && m.dom().contains("present"@) && m["present"@] == ScalarView::Flag(false)),
        trim(stdout).len() > 0 && !has_text(trim(stdout), "No such file"@) && 0 <= k < lines(
            stdout,
        ).len() && trim(lines(stdout)[k]) == decimal(percent) + "%"@ && (forall|i: int|
            0 <= i < k ==> percent_of(#[trigger] lines(stdout)[i]) is None) ==> (parsed(
            ShellType::Sh,
            "battery"@,
            stdout,
        ) matches DataView::Record(m) && m.dom().contains("present"@) && m["present"@]
            == ScalarView::Flag(true) && m.dom().contains("percent"@) && m["percent"@]
            == ScalarView::Number(percent)),
{
    metric_names_differ();
    reveal_strlit("present");
    reveal_strlit("percent");
    reveal_strlit("%");
    assert("present"@[3] == 's' && "percent"@[3] == 'c');
    if trim(stdout).len() > 0 && 0 <= k < lines(stdout).len() && trim(lines(stdout)[k]) == decimal(
        percent,
    ) + "%"@ && (forall|i: int| 0 <= i < k ==> percent_of(#[trigger] lines(stdout)[i]) is None) {
        let t = trim(lines(stdout)[k]);
        let d = decimal(percent);
        crate::text::decimals_are_read_back(percent);
        assert(t.last() == '%');
        assert(t.drop_last() =~= d);
        assert(crate::text::is_digit(d[0]));
        assert(crate::text::is_digit(d[d.len() - 1]));
        crate::scan::trimmed_texts_stay(d);
        assert(percent_of(lines(stdout)[k]) == Some(percent));
        the_first_percentage_counts(lines(stdout), k);
    }
}

/// Any other shell's answer, and any other metric's, is kept as the trimmed text it is.
pub proof fn other_answers_are_kept_as_text(shell: ShellType, metric: Seq<char>, stdout: Seq<char>)
    requires
        shell != ShellType::Sh
            || (metric != "system_info"@ && metric != "memory"@ && metric != "swap"@
            && metric != "disk"@ && metric != "cpu_load"@ && metric != "battery"@),
    ensures
        parsed(shell, metric, stdout) == DataView::Scalar(ScalarView::Text(trim(stdout))),
{
}

/// A path's size is the first word of the answer, and a path that is missing has none.
pub proof fn sizes_are_read(size: nat, rest: Seq<char>)
    requires
        size <= u64::MAX,
        rest.len() > 0 ==> crate::scan::is_white(rest[0]) && !crate::scan::is_white(rest.last()),
    ensures
        path_size(decimal(size) + rest) == size,
        block_size(decimal(size) + rest) == Some(size),
        block_size("MISSING"@) is None,
        block_size(""@) is None,
{
    reveal_strlit("MISSING");
    reveal_strlit("");
    let d = decimal(size);
    let s = d + rest;
    crate::text::decimals_are_read_back(size);
    assert forall|i: int| 0 <= i < d.len() implies !crate::scan::is_white(#[trigger] d[i]) by {
        assert(crate::text::is_digit(d[i]));
    }
    assert(s[0] == d[0]);
    assert(crate::text::is_digit(d[0]));
    assert(s.last() == (if rest.len() > 0 {
        rest.last()
    } else {
        d[d.len() - 1]
    }));
    crate::scan::trimmed_texts_stay(s);
    crate::scan::a_word_comes_first(d, rest);
    assert(words(s)[0] == d);
    assert("MISSING"@[0] == 'M');
    crate::scan::trimmed_texts_stay("MISSING"@);
    crate::scan::trimmed_texts_stay(""@);
}

/// A metric has a value exactly where it was asked for and a block stands under its name.
pub proof fn asked_metrics_with_a_block_have_a_value(
    shell: ShellType,
    metrics: Seq<Seq<char>>,
    found: Seq<(Seq<char>, Seq<char>)>,
    name: Seq<char>,
)
    ensures
        batch_values(shell, metrics, found).dom().contains(name) <==> metrics.contains(name)
            && exists|k: int|
            0 <= k < found.len() && (#[trigger] found[k]).0 == name,
    decreases found.len(),
{
    if found.len() > 0 {
        let rest = found.drop_last();
        let n = found.len() - 1;
        asked_metrics_with_a_block_have_a_value(shell, metrics, rest, name);
        let here = exists|k: int| 0 <= k < found.len() && (#[trigger] found[k]).0 == name;
        let there = exists|k: int| 0 <= k < rest.len() && (#[trigger] rest[k]).0 == name;
        if there {
            let k = choose|k: int| 0 <= k < rest.len() && (#[trigger] rest[k]).0 == name;
            assert(found[k].0 == name);
        }
        if found[n].0 == name {
            assert(here);
        } else if here {
            let k = choose|k: int| 0 <= k < found.len() && (#[trigger] found[k]).0 == name;
            assert(rest[k].0 == name);
        }
        assert(here == (there || found.last().0 == name));
    }
}

/// A metric has the value that the last block under its name gives.
pub proof fn the_last_block_gives_the_value(
    shell: ShellType,
    metrics: Seq<Seq<char>>,
    found: Seq<(Seq<char>, Seq<char>)>,
    k: int,
)
    requires
        0 <= k < found.len(),
        metrics.contains(found[k].0),
        forall|j: int| k < j < found.len() ==> (#[trigger] found[j]).0 != found[k].0,
    ensures
        batch_values(shell, metrics, found)[found[k].0] == parsed(shell, found[k].0, found[k].1),
    decreases found.len(),
{
    let rest = found.drop_last();
    let n = found.len() - 1;
    if k < n {
        assert(found[n].0 != found[k].0);
        assert(rest[k] == found[k]);
        assert forall|j: int| k < j < rest.len() implies (#[trigger] rest[j]).0 != rest[k].0 by {
            assert(found[j].0 != found[k].0);
        }
        the_last_block_gives_the_value(shell, metrics, rest, k);
    }
}

/// A path has a size, or is told to be missing, exactly where it was asked for and a block
/// stands under its label.
pub proof fn asked_paths_with_a_block_have_a_size(
    wanted: Seq<Seq<char>>,
    found: Seq<(Seq<char>, Seq<char>)>,
    name: Seq<char>,
)
    ensures
        batch_sizes(wanted, found).dom().contains(name) <==> wanted.contains(name) && exists|k: int|
            0 <= k < found.len() && (#[trigger] found[k]).0 == name,
    decreases found.len(),
{
    if found.len() > 0 {
        let rest = found.drop_last();
        let n = found.len() - 1;
        asked_paths_with_a_block_have_a_size(wanted, rest, name);
        let here = exists|k: int| 0 <= k < found.len() && (#[trigger] found[k]).0 == name;
        let there = exists|k: int| 0 <= k < rest.len() && (#[trigger] rest[k]).0 == name;
        if there {
            let k = choose|k: int| 0 <= k < rest.len() && (#[trigger] rest[k]).0 == name;
            assert(found[k].0 == name);
        }
        if found[n].0 == name {
            assert(here);
        } else if here {
            let k = choose|k: int| 0 <= k < found.len() && (#[trigger] found[k]).0 == name;
            assert(rest[k].0 == name);
        }
        assert(here == (there || found.last().0 == name));
    }
}

/// A path has the size that the last block under its label gives.
pub proof fn the_last_block_gives_the_size(
    wanted: Seq<Seq<char>>,
    found: Seq<(Seq<char>, Seq<char>)>,
    k: int,
)
    requires
        0 <= k < found.len(),
        wanted.contains(found[k].0),
        forall|j: int| k < j < found.len() ==> (#[trigger] found[j]).0 != found[k].0,
    ensures
        batch_sizes(wanted, found)[found[k].0] == block_size(found[k].1),
    decreases found.len(),
{
    let rest = found.drop_last();
    let n = found.len() - 1;
    if k < n {
        assert(found[n].0 != found[k].0);
        assert(rest[k] == found[k]);
        assert forall|j: int| k < j < rest.len() implies (#[trigger] rest[j]).0 != rest[k].0 by {
            assert(found[j].0 != found[k].0);
        }
        the_last_block_gives_the_size(wanted, rest, k);
    }
}

/// A system is told by the first line of its answer: the line itself, and its second and
/// third word as name and kernel.
pub proof fn systems_are_read_from_the_first_line(stdout: Seq<char>)
    requires
        lines(stdout).len() > 0,
    ensures
        ({
            let line = lines(stdout)[0];
            parsed(ShellType::Sh, "system_info"@, stdout) matches DataView::Record(m) && {
                &&& m.dom().contains("uname"@) && m["uname"@] == ScalarView::Text(trim(line))
                &&& words(line).len() >= 2 ==> m.dom().contains("hostname"@) && m["hostname"@]
                    == ScalarView::Text(words(line)[1])
                &&& words(line).len() >= 3 ==> m.dom().contains("kernel"@) && m["kernel"@]
                    == ScalarView::Text(words(line)[2])
                &&& words(line).len() < 3 ==> !m.dom().contains("kernel"@)
            }
        }),
{
    reveal_strlit("uname");
    reveal_strlit("hostname");
    reveal_strlit("kernel");
    assert("uname"@[0] == 'u' && "hostname"@[0] == 'h' && "kernel"@[0] == 'k');
}

} // verus!
