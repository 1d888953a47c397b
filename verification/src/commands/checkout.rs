//! Showing what the last check found.

use vstd::prelude::*;

use crate::commands::log::{read_since, since, since_fits};
use crate::commands::{applies, Context};
use crate::config::schema::CheckEntry;
use crate::error::Error;
use crate::host::filter::pointees;
use crate::metrics::data::{
    field_rows, fields, snapshot_wf, values, DataView, MetricData, Record, Scalar, ScalarView,
    Snapshot,
};
use crate::metrics::number::{is_float_text, reads_as_float};
use crate::order::with_new;
use crate::output::printer::{pad, padded};
use crate::scan::{join, join_all, split_words, trim, trimmed, words};
use crate::text::{
    byte_len, chars_of, concat2, concat3, copy, decimal, decimal_text, same, signed_decimal,
    signed_text, texts, texts_push,
};

verus! {

broadcast use texts_push;

// ---------------------------------------------------------------------------
// Reading values
// ---------------------------------------------------------------------------

/// A value to show. How numbers with a fraction are rounded is not decided here.
pub enum MetricValue {
    /// A text, as it is.
    Text(String),
    /// A number, to be shown with two digits behind the point.
    Decimal(String),
    /// So much of the whole is used; shown in per cent.
    Used { used: u64, total: u64 },
    /// So much of the whole is free; the rest is shown in per cent.
    Free { free: u64, total: u64 },
    /// So much is used and so much is free; the first is shown in per cent.
    Parts { used: u64, free: u64 },
    /// The stored value as JSON.
    Json,
}

/// A value to show, as a value of the specification language.
pub ghost enum ValueView {
    Text(Seq<char>),
    Decimal(Seq<char>),
    Used(nat, nat),
    Free(nat, nat),
    Parts(nat, nat),
    Json,
}

impl View for MetricValue {
    type V = ValueView;

    open spec fn view(&self) -> ValueView {
        match self {
            MetricValue::Text(s) => ValueView::Text(s@),
            MetricValue::Decimal(s) => ValueView::Decimal(s@),
            MetricValue::Used { used, total } => ValueView::Used(*used as nat, *total as nat),
            MetricValue::Free { free, total } => ValueView::Free(*free as nat, *total as nat),
            MetricValue::Parts { used, free } => ValueView::Parts(*used as nat, *free as nat),
            MetricValue::Json => ValueView::Json,
        }
    }
}

/// What is shown where nothing is known.
pub open spec fn dash() -> ValueView {
    ValueView::Text("-"@)
}

fn no_value() -> (r: MetricValue)
    ensures
        r@ == dash(),
{
    MetricValue::Text(copy("-"))
}

/// The whole number that a field holds.
pub open spec fn number_field(m: Map<Seq<char>, ScalarView>, name: Seq<char>) -> Option<nat> {
    if m.dom().contains(name) {
        match m[name] {
            ScalarView::Number(n) => Some(n),
            _ => None,
        }
    } else {
        None
    }
}

fn number_of(r: &Record, name: &str) -> (n: Option<u64>)
    requires
        r.wf(),
    ensures
        n is Some <==> number_field(fields(*r), name@) is Some,
        n matches Some(k) ==> number_field(fields(*r), name@) == Some(k as nat),
{
    match r.get(name) {
        Some(Scalar::Number(n)) => Some(*n),
        _ => None,
    }
}

/// The text that a field holds.
pub open spec fn text_field(m: Map<Seq<char>, ScalarView>, name: Seq<char>) -> Option<Seq<char>> {
    if m.dom().contains(name) {
        match m[name] {
            ScalarView::Text(t) => Some(t),
            _ => None,
        }
    } else {
        None
    }
}

fn text_of_field<'a>(r: &'a Record, name: &str) -> (t: Option<&'a str>)
    requires
        r.wf(),
    ensures
        crate::text::str_opt(t) == text_field(fields(*r), name@),
{
    match r.get(name) {
        Some(Scalar::Text(t)) => Some(t.as_str()),
        _ => None,
    }
}

/// The share of a whole that is used, where both are known and the whole is not
/// nothing.
pub open spec fn usage(m: Map<Seq<char>, ScalarView>) -> Option<ValueView> {
    match (number_field(m, "total_bytes"@), number_field(m, "used_bytes"@)) {
        (Some(total), Some(used)) => if total > 0 {
            Some(ValueView::Used(used, total))
        } else {
            None
        },
        _ => None,
    }
}

fn usage_of(r: &Record) -> (v: Option<MetricValue>)
    requires
        r.wf(),
    ensures
        v is Some <==> usage(fields(*r)) is Some,
        v matches Some(x) ==> usage(fields(*r)) == Some(x@),
{
    match (number_of(r, "total_bytes"), number_of(r, "used_bytes")) {
        (Some(total), Some(used)) => if total > 0 {
            Some(MetricValue::Used { used, total })
        } else {
            None
        },
        _ => None,
    }
}

/// A number as the text of a decimal one.
pub open spec fn decimal_scalar(s: ScalarView) -> Option<Seq<char>> {
    match s {
        ScalarView::Number(n) => Some(decimal(n)),
        ScalarView::Decimal(t) => Some(t),
        _ => None,
    }
}

fn decimal_of(s: &Scalar) -> (r: Option<String>)
    ensures
        crate::text::text_opt(r) == decimal_scalar(s@),
{
    match s {
        Scalar::Number(n) => Some(decimal_text(*n)),
        Scalar::Decimal(t) => Some(copy(t.as_str())),
        _ => None,
    }
}

/// The decimal number that a field holds.
pub open spec fn decimal_field(m: Map<Seq<char>, ScalarView>, name: Seq<char>) -> Option<Seq<char>> {
    if m.dom().contains(name) {
        decimal_scalar(m[name])
    } else {
        None
    }
}

/// What is shown of a load: the first of the three averages that is known, or the
/// number that was stored.
pub open spec fn load_value(v: DataView) -> ValueView {
    match v {
        DataView::Record(m) => if decimal_field(m, "load1"@) is Some {
            ValueView::Decimal(decimal_field(m, "load1"@)->0)
        } else if decimal_field(m, "load5"@) is Some {
            ValueView::Decimal(decimal_field(m, "load5"@)->0)
        } else if decimal_field(m, "load15"@) is Some {
            ValueView::Decimal(decimal_field(m, "load15"@)->0)
        } else {
            dash()
        },
        DataView::Scalar(s) => match s {
            ScalarView::Text(t) => if is_float_text(trim(t)) {
                ValueView::Decimal(trim(t))
            } else {
                dash()
            },
            ScalarView::Number(n) => ValueView::Decimal(decimal(n)),
            ScalarView::Decimal(t) => ValueView::Decimal(t),
            _ => dash(),
        },
        DataView::Records(list) => dash(),
    }
}

fn decimal_in(r: &Record, name: &str) -> (d: Option<String>)
    requires
        r.wf(),
    ensures
        crate::text::text_opt(d) == decimal_field(fields(*r), name@),
{
    match r.get(name) {
        Some(s) => decimal_of(s),
        None => None,
    }
}

/// Reads the load of a host.
pub fn extract_cpu_load(v: &MetricData) -> (r: MetricValue)
    requires
        v.wf(),
    ensures
        r@ == load_value(v@),
{
    match v {
        MetricData::Record(m) => {
            match decimal_in(m, "load1") {
                Some(t) => return MetricValue::Decimal(t),
                None => {},
            }
            match decimal_in(m, "load5") {
                Some(t) => return MetricValue::Decimal(t),
                None => {},
            }
            match decimal_in(m, "load15") {
                Some(t) => return MetricValue::Decimal(t),
                None => {},
            }
            no_value()
        },
        MetricData::Scalar(s) => match s {
            Scalar::Text(t) => {
                let bare = trimmed(t.as_str());
                if reads_as_float(bare.as_str()) {
                    MetricValue::Decimal(bare)
                } else {
                    no_value()
                }
            },
            Scalar::Number(n) => MetricValue::Decimal(decimal_text(*n)),
            Scalar::Decimal(t) => MetricValue::Decimal(copy(t.as_str())),
            _ => no_value(),
        },
        MetricData::Records(list) => no_value(),
    }
}

// ---------------------------------------------------------------------------
// Values that are JSON texts themselves
// ---------------------------------------------------------------------------

/// The whole numbers under two keys of a JSON object, as serde_json reads it; none
/// where the text is no such object.
pub uninterp spec fn json_numbers(
    text: Seq<char>,
    first: Seq<char>,
    second: Seq<char>,
) -> Option<(u64, u64)>;

/// `serde_json::from_str`, `Value::get` and `Value::as_u64`: the whole numbers that
/// an object holds under two keys.
#[verifier::external_body]
fn numbers_in_json(text: &str, first: &str, second: &str) -> (r: Option<(u64, u64)>)
    ensures
        r == json_numbers(text@, first@, second@),
{
    let v: serde_json::Value = serde_json::from_str(text).ok()?;
    Some((v.get(first)?.as_u64()?, v.get(second)?.as_u64()?))
}

/// The whole numbers under two keys of the first object of a JSON array, as
/// serde_json reads it; none where the text is no such array.
pub uninterp spec fn first_json_numbers(
    text: Seq<char>,
    first: Seq<char>,
    second: Seq<char>,
) -> Option<(u64, u64)>;

/// `serde_json::from_str`, `Value::as_array`, `Value::get` and `Value::as_u64`: the
/// whole numbers that the first object of an array holds under two keys.
#[verifier::external_body]
fn numbers_in_json_array(text: &str, first: &str, second: &str) -> (r: Option<(u64, u64)>)
    ensures
        r == first_json_numbers(text@, first@, second@),
{
    let v: serde_json::Value = serde_json::from_str(text).ok()?;
    let e = v.as_array()?.first()?;
    Some((e.get(first)?.as_u64()?, e.get(second)?.as_u64()?))
}

/// What is shown of the memory: a record of total and used, or the total and the
/// free size that a JSON text gives.
pub open spec fn memory_value(v: DataView, nested: Option<(u64, u64)>) -> ValueView {
    match v {
        DataView::Record(m) => match usage(m) {
            Some(u) => u,
            None => dash(),
        },
        DataView::Scalar(ScalarView::Text(t)) => match nested {
            Some((total, free)) => if total > 0 {
                ValueView::Free(free as nat, total as nat)
            } else {
                dash()
            },
            None => dash(),
        },
        _ => dash(),
    }
}

/// Reads the memory, given the total and the free size in a JSON text.
pub fn memory_from(v: &MetricData, nested: Option<(u64, u64)>) -> (r: MetricValue)
    requires
        v.wf(),
    ensures
        r@ == memory_value(v@, nested),
{
    match v {
        MetricData::Record(m) => match usage_of(m) {
            Some(u) => u,
            None => no_value(),
        },
        MetricData::Scalar(Scalar::Text(t)) => match nested {
            Some((total, free)) => if total > 0 {
                MetricValue::Free { free, total }
            } else {
                no_value()
            },
            None => no_value(),
        },
        _ => no_value(),
    }
}

/// The text of a value that is one.
pub open spec fn plain_text(v: DataView) -> Option<Seq<char>> {
    match v {
        DataView::Scalar(ScalarView::Text(t)) => Some(t),
        _ => None,
    }
}

fn as_text(v: &MetricData) -> (r: Option<&str>)
    ensures
        crate::text::str_opt(r) == plain_text(v@),
{
    match v {
        MetricData::Scalar(Scalar::Text(t)) => Some(t.as_str()),
        _ => None,
    }
}

/// The total and the free size that a JSON text gives, where the value is one.
pub open spec fn memory_json(v: DataView) -> Option<(u64, u64)> {
    match plain_text(v) {
        Some(t) => json_numbers(t, "TotalVisibleMemorySize"@, "FreePhysicalMemory"@),
        None => None,
    }
}

/// Reads the memory of a host.
pub fn extract_memory(v: &MetricData) -> (r: MetricValue)
    requires
        v.wf(),
    ensures
        r@ == memory_value(v@, memory_json(v@)),
{
    let nested = match as_text(v) {
        Some(t) => numbers_in_json(t, "TotalVisibleMemorySize", "FreePhysicalMemory"),
        None => None,
    };
    memory_from(v, nested)
}

/// Where the first disk stands that is mounted at the root; the length where there
/// is none.
pub open spec fn root_disk(list: Seq<Map<Seq<char>, ScalarView>>, from: int) -> int
    decreases list.len() - from,
{
    if from < 0 || from >= list.len() {
        list.len() as int
    } else if text_field(list[from], "mount"@) == Some("/"@) {
        from
    } else {
        root_disk(list, from + 1)
    }
}

/// Where the first disk stands whose size is given; the length where there is
/// none.
pub open spec fn sized_disk(list: Seq<Map<Seq<char>, ScalarView>>, from: int) -> int
    decreases list.len() - from,
{
    if from < 0 || from >= list.len() {
        list.len() as int
    } else if list[from].dom().contains("total_bytes"@) {
        from
    } else {
        sized_disk(list, from + 1)
    }
}

/// What is shown of the disks: the one at the root, or else the first whose size is
/// given; or the used and the free size that a JSON text gives.
pub open spec fn disk_value(v: DataView, nested: Option<(u64, u64)>) -> ValueView {
    match v {
        DataView::Records(list) => {
            let i = if root_disk(list, 0) < list.len() {
                root_disk(list, 0)
            } else {
                sized_disk(list, 0)
            };
            if i < list.len() {
                match usage(list[i]) {
                    Some(u) => u,
                    None => dash(),
                }
            } else {
                dash()
            }
        },
        DataView::Scalar(ScalarView::Text(t)) => match nested {
            Some((used, free)) => if used > 0 || free > 0 {
                ValueView::Parts(used as nat, free as nat)
            } else {
                dash()
            },
            None => dash(),
        },
        _ => dash(),
    }
}

fn find_disk(list: &Vec<Record>) -> (r: usize)
    requires
        forall|i: int| 0 <= i < list@.len() ==> (#[trigger] list@[i]).wf(),
    ensures
        r == (if root_disk(field_rows(list@), 0) < list@.len() {
            root_disk(field_rows(list@), 0)
        } else {
            sized_disk(field_rows(list@), 0)
        }),
        r <= list@.len(),
{
    let ghost rows = field_rows(list@);
    let mut i: usize = 0;
    while i < list.len()
        invariant
            i <= list@.len(),
            rows == field_rows(list@),
            forall|i: int| 0 <= i < list@.len() ==> (#[trigger] list@[i]).wf(),
            root_disk(rows, 0) == root_disk(rows, i as int),
        decreases list@.len() - i,
    {
        assert(rows[i as int] == fields(list@[i as int]));
        match text_of_field(&list[i], "mount") {
            Some(m) => {
                if same(m, "/") {
                    return i;
                }
            },
            None => {},
        }
        i += 1;
    }
    let mut k: usize = 0;
    while k < list.len()
        invariant
            k <= list@.len(),
            rows == field_rows(list@),
            forall|i: int| 0 <= i < list@.len() ==> (#[trigger] list@[i]).wf(),
            root_disk(rows, 0) == rows.len(),
            sized_disk(rows, 0) == sized_disk(rows, k as int),
        decreases list@.len() - k,
    {
        assert(rows[k as int] == fields(list@[k as int]));
        if list[k].get("total_bytes").is_some() {
            return k;
        }
        k += 1;
    }
    k
}

/// Reads the disks, given the used and the free size in a JSON text.
pub fn disk_from(v: &MetricData, nested: Option<(u64, u64)>) -> (r: MetricValue)
    requires
        v.wf(),
    ensures
        r@ == disk_value(v@, nested),
{
    match v {
        MetricData::Records(list) => {
            let i: usize = find_disk(list);
            if i < list.len() {
                assert(field_rows(list@)[i as int] == fields(list@[i as int]));
                match usage_of(&list[i]) {
                    Some(u) => u,
                    None => no_value(),
                }
            } else {
                no_value()
            }
        },
        MetricData::Scalar(Scalar::Text(t)) => match nested {
            Some((used, free)) => if used > 0 || free > 0 {
                MetricValue::Parts { used, free }
            } else {
                no_value()
            },
            None => no_value(),
        },
        _ => no_value(),
    }
}

/// The used and the free size that a JSON text gives, where the value is one.
pub open spec fn disk_json(v: DataView) -> Option<(u64, u64)> {
    match plain_text(v) {
        Some(t) => first_json_numbers(t, "Used"@, "Free"@),
        None => None,
    }
}

/// Reads the disks of a host.
pub fn extract_disk(v: &MetricData) -> (r: MetricValue)
    requires
        v.wf(),
    ensures
        r@ == disk_value(v@, disk_json(v@)),
{
    let nested = match as_text(v) {
        Some(t) => numbers_in_json_array(t, "Used", "Free"),
        None => None,
    };
    disk_from(v, nested)
}

/// What is shown of a battery.
pub open spec fn battery_value(v: DataView) -> ValueView {
    match v {
        DataView::Record(m) => if m.dom().contains("present"@) && m["present"@]
            == ScalarView::Flag(false) {
            ValueView::Text("N/A"@)
        } else {
            match number_field(m, "percent"@) {
                Some(n) => ValueView::Text(decimal(n) + "%"@),
                None => dash(),
            }
        },
        _ => dash(),
    }
}

/// Reads the battery of a host.
pub fn extract_battery(v: &MetricData) -> (r: MetricValue)
    requires
        v.wf(),
    ensures
        r@ == battery_value(v@),
{
    match v {
        MetricData::Record(m) => {
            match m.get("present") {
                Some(Scalar::Flag(b)) => {
                    if !*b {
                        return MetricValue::Text(copy("N/A"));
                    }
                },
                _ => {},
            }
            match number_of(m, "percent") {
                Some(n) => MetricValue::Text(concat2(decimal_text(n).as_str(), "%")),
                None => no_value(),
            }
        },
        _ => no_value(),
    }
}

/// What is shown of the addresses.
pub open spec fn address_value(v: DataView) -> ValueView {
    match plain_text(v) {
        Some(t) => if trim(t).len() > 0 {
            ValueView::Text(trim(t))
        } else {
            dash()
        },
        None => dash(),
    }
}

/// Reads the addresses of a host.
pub fn extract_ip_address(v: &MetricData) -> (r: MetricValue)
    ensures
        r@ == address_value(v@),
{
    match as_text(v) {
        Some(t) => {
            let bare = trimmed(t);
            if chars_of(bare.as_str()).len() > 0 {
                MetricValue::Text(bare)
            } else {
                no_value()
            }
        },
        None => no_value(),
    }
}

/// The first three words of a text.
pub open spec fn three_words(s: Seq<char>) -> Seq<char> {
    let w = words(s);
    join(
        if w.len() > 3 {
            w.take(3)
        } else {
            w
        },
        " "@,
    )
}

fn first_three_words(s: &str) -> (r: String)
    ensures
        r@ == three_words(s@),
{
    let w = split_words(s);
    let mut out: Vec<String> = Vec::new();
    let mut i: usize = 0;
    while i < w.len() && i < 3
        invariant
            i <= w@.len(),
            i <= 3,
            texts(out@) == texts(w@).take(i as int),
        decreases w@.len() - i,
    {
        out.push(copy(w[i].as_str()));
        i += 1;
        assert(texts(out@) =~= texts(w@).take(i as int));
    }
    assert(texts(w@).len() == w@.len());
    assert(w@.len() <= 3 ==> texts(w@).take(i as int) =~= texts(w@));
    join_all(out.as_slice(), " ")
}

/// What is shown of the system.
pub open spec fn system_value(v: DataView) -> ValueView {
    match v {
        DataView::Record(m) => match text_field(m, "uname"@) {
            Some(u) => ValueView::Text(three_words(u)),
            None => dash(),
        },
        DataView::Scalar(ScalarView::Text(t)) => ValueView::Text(three_words(t)),
        _ => dash(),
    }
}

fn extract_system(v: &MetricData) -> (r: MetricValue)
    requires
        v.wf(),
    ensures
        r@ == system_value(v@),
{
    match v {
        MetricData::Record(m) => match text_of_field(m, "uname") {
            Some(u) => MetricValue::Text(first_three_words(u)),
            None => no_value(),
        },
        MetricData::Scalar(Scalar::Text(t)) => MetricValue::Text(first_three_words(t.as_str())),
        _ => no_value(),
    }
}

/// What is shown of the swap space.
pub open spec fn swap_value(v: DataView) -> ValueView {
    match v {
        DataView::Record(m) => match usage(m) {
            Some(u) => u,
            None => dash(),
        },
        _ => dash(),
    }
}

/// What is shown of a metric of a snapshot.
pub open spec fn shown_value(m: Map<Seq<char>, DataView>, metric: Seq<char>) -> ValueView {
    if metric == "network"@ {
        ValueView::Text("…"@)
    } else if !m.dom().contains(metric) {
        dash()
    } else {
        let v = m[metric];
        if metric == "cpu_load"@ {
            load_value(v)
        } else if metric == "memory"@ {
            memory_value(v, memory_json(v))
        } else if metric == "disk"@ {
            disk_value(v, disk_json(v))
        } else if metric == "battery"@ {
            battery_value(v)
        } else if metric == "ip_address"@ {
            address_value(v)
        } else if metric == "swap"@ {
            swap_value(v)
        } else if metric == "system_info"@ {
            system_value(v)
        } else {
            match plain_text(v) {
                Some(t) => ValueView::Text(trim(t)),
                None => if metric == "cpu_arch"@ {
                    dash()
                } else {
                    ValueView::Json
                },
            }
        }
    }
}

/// Reads what is shown of a metric.
pub fn extract_metric_value(data: &Snapshot, metric: &str) -> (r: MetricValue)
    requires
        snapshot_wf(*data),
    ensures
        r@ == shown_value(values(*data), metric@),
{
    if same(metric, "network") {
        return MetricValue::Text(copy("…"));
    }
    match data.get(metric) {
        None => no_value(),
        Some(v) => {
            proof {
                let n = data.keys().index_of(metric@);
                data.value_at(n);
                assert(data.entries@[n].1.wf());
            }
            if same(metric, "cpu_load") {
                extract_cpu_load(v)
            } else if same(metric, "memory") {
                extract_memory(v)
            } else if same(metric, "disk") {
                extract_disk(v)
            } else if same(metric, "battery") {
                extract_battery(v)
            } else if same(metric, "ip_address") {
                extract_ip_address(v)
            } else if same(metric, "swap") {
                match v {
                    MetricData::Record(m) => match usage_of(m) {
                        Some(u) => u,
                        None => no_value(),
                    },
                    _ => no_value(),
                }
            } else if same(metric, "system_info") {
                extract_system(v)
            } else {
                match as_text(v) {
                    Some(t) => MetricValue::Text(trimmed(t)),
                    None => if same(metric, "cpu_arch") {
                        no_value()
                    } else {
                        MetricValue::Json
                    },
                }
            }
        },
    }
}

// ---------------------------------------------------------------------------
// Time
// ---------------------------------------------------------------------------

/// How long ago something was, by the clock; 0 stands for never.
pub open spec fn relative_time(ts: int, now: int) -> Seq<char> {
    let diff = now - ts;
    if ts == 0 {
        "never"@
    } else if diff < 60 {
        signed_decimal(diff) + "s ago"@
    } else if diff < 3600 {
        signed_decimal(diff / 60) + "m ago"@
    } else if diff < 86400 {
        signed_decimal(diff / 3600) + "h ago"@
    } else {
        signed_decimal(diff / 86400) + "d ago"@
    }
}

/// Says how long ago something was.
pub fn format_relative_time(ts: i64, now: i64) -> (r: String)
    requires
        ts != 0 ==> i64::MIN <= now - ts <= i64::MAX,
    ensures
        r@ == relative_time(ts as int, now as int),
{
    if ts == 0 {
        return copy("never");
    }
    let diff: i64 = now - ts;
    if diff < 60 {
        concat2(signed_text(diff).as_str(), "s ago")
    } else if diff < 3600 {
        concat2(signed_text(diff / 60).as_str(), "m ago")
    } else if diff < 86400 {
        concat2(signed_text(diff / 3600).as_str(), "h ago")
    } else {
        concat2(signed_text(diff / 86400).as_str(), "d ago")
    }
}

/// Reads from when on snapshots are shown: all of them where nothing is said.
pub fn parse_since(s: Option<&str>, now: i64) -> (r: Result<i64, Error>)
    requires
        s matches Some(t) ==> since_fits(t@, now as int),
    ensures
        s is None ==> r == Ok::<i64, Error>(0),
        s matches Some(t) ==> (match since(t@, now as int) {
            Some(ts) => r matches Ok(n) && n == ts,
            None => r matches Err(e) && e@ == "Invalid --since value: "@ + t@
                + ". Use '7d', '24h', or 'YYYY-MM-DD'"@,
        }),
{
    match s {
        None => Ok(0),
        Some(t) => match read_since(t, now) {
            Some(ts) => Ok(ts),
            None => Err(
                Error {
                    message: concat3(
                        "Invalid --since value: ",
                        t,
                        ". Use '7d', '24h', or 'YYYY-MM-DD'",
                    ),
                },
            ),
        },
    }
}

// ---------------------------------------------------------------------------
// The table
// ---------------------------------------------------------------------------

/// A stored snapshot of a host; the data are missing where none is stored.
pub struct HostSnapshot {
    pub host: String,
    pub collected_at: i64,
    pub online: bool,
    pub data: Option<Snapshot>,
    /// When the host was last seen up; 0 for never.
    pub last_online: i64,
}

impl HostSnapshot {
    /// What is stored of the host, by metric.
    pub open spec fn stored(&self) -> Map<Seq<char>, DataView> {
        match self.data {
            Some(d) => values(d),
            None => Map::empty(),
        }
    }

    /// Reads what is shown of a metric.
    pub fn value(&self, metric: &str) -> (r: MetricValue)
        requires
            self.data matches Some(d) ==> snapshot_wf(d),
        ensures
            r@ == shown_value(self.stored(), metric@),
    {
        match &self.data {
            Some(d) => extract_metric_value(d, metric),
            None => if same(metric, "network") {
                MetricValue::Text(copy("…"))
            } else {
                no_value()
            },
        }
    }
}

/// The metrics that are shown, one to a column.
pub struct DisplayColumns {
    pub metrics: Vec<String>,
}

/// The metrics of a row of entries, each once, without the one that only says
/// whether a host is up.
pub open spec fn columns(entries: Seq<CheckEntry>) -> Seq<Seq<char>>
    decreases entries.len(),
{
    if entries.len() == 0 {
        Seq::empty()
    } else {
        with_metrics(columns(entries.drop_last()), texts(entries.last().enabled@))
    }
}

/// A row of columns with those of an entry.
pub open spec fn with_metrics(list: Seq<Seq<char>>, more: Seq<Seq<char>>) -> Seq<Seq<char>>
    decreases more.len(),
{
    if more.len() == 0 {
        list
    } else {
        let before = with_metrics(list, more.drop_last());
        if more.last() == "online"@ {
            before
        } else {
            with_new(before, more.last())
        }
    }
}

fn add_columns(list: &mut Vec<String>, more: &Vec<String>)
    ensures
        texts(final(list)@) == with_metrics(texts(old(list)@), texts(more@)),
{
    let ghost start = texts(list@);
    let ghost all = texts(more@);
    let mut i: usize = 0;
    assert(all.take(0) =~= Seq::empty());
    while i < more.len()
        invariant
            i <= more@.len(),
            all == texts(more@),
            texts(list@) == with_metrics(start, all.take(i as int)),
        decreases more@.len() - i,
    {
        assert(all.take(i + 1).drop_last() =~= all.take(i as int));
        assert(all.take(i + 1).last() == more@[i as int]@);
        if !same(more[i].as_str(), "online") {
            crate::order::push_new(list, more[i].as_str());
        }
        i += 1;
    }
    assert(all.take(i as int) =~= all);
}

impl DisplayColumns {
    /// The columns for the targets of a command.
    pub fn from_context(ctx: &Context) -> (r: DisplayColumns)
        ensures
            texts(r.metrics@) == columns(
                ctx.config.check@.filter(|e: CheckEntry| applies(e, ctx.mode@)),
            ),
    {
        let checks = ctx.resolve_checks();
        let ghost all = pointees(checks@);
        let mut metrics: Vec<String> = Vec::new();
        let mut i: usize = 0;
        assert(texts(metrics@) =~= columns(all.take(0)));
        while i < checks.len()
            invariant
                i <= checks@.len(),
                all == pointees(checks@),
                texts(metrics@) == columns(all.take(i as int)),
            decreases checks@.len() - i,
        {
            assert(all.take(i + 1).drop_last() =~= all.take(i as int));
            assert(all.take(i + 1).last() == *checks@[i as int]);
            add_columns(&mut metrics, &checks[i].enabled);
            i += 1;
        }
        assert(all.take(i as int) =~= all);
        DisplayColumns { metrics }
    }
}

/// The heading of a column.
pub open spec fn heading(metric: Seq<char>) -> Seq<char> {
    if metric == "cpu_load"@ {
        "CPU Load"@
    } else if metric == "memory"@ {
        "Memory"@
    } else if metric == "disk"@ {
        "Disk"@
    } else if metric == "battery"@ {
        "Battery"@
    } else if metric == "ip_address"@ {
        "IP Address"@
    } else if metric == "swap"@ {
        "Swap"@
    } else if metric == "system_info"@ {
        "System"@
    } else if metric == "cpu_arch"@ {
        "Arch"@
    } else if metric == "network"@ {
        "Network"@
    } else {
        metric
    }
}

/// The heading of a column.
pub fn metric_header(metric: &str) -> (r: String)
    ensures
        r@ == heading(metric@),
{
    if same(metric, "cpu_load") {
        copy("CPU Load")
    } else if same(metric, "memory") {
        copy("Memory")
    } else if same(metric, "disk") {
        copy("Disk")
    } else if same(metric, "battery") {
        copy("Battery")
    } else if same(metric, "ip_address") {
        copy("IP Address")
    } else if same(metric, "swap") {
        copy("Swap")
    } else if same(metric, "system_info") {
        copy("System")
    } else if same(metric, "cpu_arch") {
        copy("Arch")
    } else if same(metric, "network") {
        copy("Network")
    } else {
        copy(metric)
    }
}

/// The width of a column.
pub open spec fn column_width(metric: Seq<char>) -> nat {
    if metric == "ip_address"@ {
        18
    } else if metric == "system_info"@ {
        20
    } else if metric == "cpu_load"@ {
        10
    } else if metric == "memory"@ || metric == "disk"@ || metric == "swap"@ || metric
        == "battery"@ || metric == "cpu_arch"@ {
        8
    } else {
        12
    }
}

/// The width of a column.
pub fn metric_width(metric: &str) -> (r: usize)
    ensures
        r == column_width(metric@),
{
    if same(metric, "ip_address") {
        18
    } else if same(metric, "system_info") {
        20
    } else if same(metric, "cpu_load") {
        10
    } else if same(metric, "memory") || same(metric, "disk") || same(metric, "swap") || same(
        metric,
        "battery",
    ) || same(metric, "cpu_arch") {
        8
    } else {
        12
    }
}

/// The headings of the metrics.
pub open spec fn headings(metrics: Seq<Seq<char>>) -> Seq<char>
    decreases metrics.len(),
{
    if metrics.len() == 0 {
        Seq::empty()
    } else {
        headings(metrics.drop_last()) + " "@ + padded(
            heading(metrics.last()),
            column_width(metrics.last()),
        )
    }
}

/// The first line of the table.
pub open spec fn table_header(metrics: Seq<Seq<char>>) -> Seq<char> {
    padded("Host"@, 16) + " "@ + padded("Status"@, 12) + headings(metrics) + " Last Seen"@
}

/// A row of dashes.
pub open spec fn dashes(n: nat) -> Seq<char> {
    Seq::new(n, |i: int| '-')
}

/// The line under the first one: as long as that in bytes, and at least 78.
pub open spec fn table_rule(metrics: Seq<Seq<char>>) -> Seq<char> {
    let n = byte_len(table_header(metrics));
    dashes(
        if n > 78 {
            n
        } else {
            78
        },
    )
}

/// Draws a row of dashes.
pub fn rule(n: usize) -> (r: String)
    ensures
        r@ == dashes(n as nat),
{
    let mut out = String::new();
    let mut i: usize = 0;
    while i < n
        invariant
            i <= n,
            out@ == dashes(i as nat),
        decreases n - i,
    {
        out.push('-');
        i += 1;
        assert(out@ =~= dashes(i as nat));
    }
    assert(out@ =~= dashes(n as nat));
    out
}

/// Draws the first two lines of the table.
pub fn table_head(columns: &DisplayColumns) -> (r: (String, String))
    ensures
        r.0@ == table_header(texts(columns.metrics@)),
        r.1@ == table_rule(texts(columns.metrics@)),
{
    let ghost all = texts(columns.metrics@);
    let mut out = concat3(pad("Host", 16).as_str(), " ", pad("Status", 12).as_str());
    let ghost start = out@;
    let mut i: usize = 0;
    assert(start + headings(all.take(0)) =~= start);
    while i < columns.metrics.len()
        invariant
            i <= columns.metrics@.len(),
            all == texts(columns.metrics@),
            out@ == start + headings(all.take(i as int)),
        decreases columns.metrics@.len() - i,
    {
        assert(all.take(i + 1).drop_last() =~= all.take(i as int));
        assert(all.take(i + 1).last() == columns.metrics@[i as int]@);
        let m = columns.metrics[i].as_str();
        out.append(" ");
        out.append(pad(metric_header(m).as_str(), metric_width(m)).as_str());
        i += 1;
        assert(out@ =~= start + headings(all.take(i as int)));
    }
    assert(all.take(i as int) =~= all);
    out.append(" Last Seen");
    let n: usize = out.as_str().len();
    let line = rule(
        if n > 78 {
            n
        } else {
            78
        },
    );
    (out, line)
}

/// A value that is ready to be shown, and whether it is alarming.
pub struct ShownValue {
    pub text: String,
    pub critical: bool,
}

/// A cell of the table: an alarming value is red.
pub open spec fn cell(metric: Seq<char>, text: Seq<char>, critical: bool) -> Seq<char> {
    if critical {
        " \x1b[31m"@ + padded(text, column_width(metric)) + "\x1b[0m"@
    } else {
        " "@ + padded(text, column_width(metric))
    }
}

/// The cells of a row.
pub open spec fn cells(metrics: Seq<Seq<char>>, shown: Seq<ShownValue>) -> Seq<char>
    decreases metrics.len(),
{
    if metrics.len() == 0 {
        Seq::empty()
    } else {
        let i = metrics.len() - 1;
        cells(metrics.drop_last(), shown) + cell(
            metrics.last(),
            shown[i].text@,
            shown[i].critical,
        )
    }
}

/// A row of the table.
pub open spec fn table_row(
    host: Seq<char>,
    online: bool,
    metrics: Seq<Seq<char>>,
    shown: Seq<ShownValue>,
    last_seen: Seq<char>,
) -> Seq<char> {
    padded(host, 16) + " "@ + padded(
        if online {
            "\x1b[32m✓ online\x1b[0m"@
        } else {
            "\x1b[31m✗ offline\x1b[0m"@
        },
        20,
    ) + cells(metrics, shown) + " "@ + last_seen
}

/// Draws a row of the table.
pub fn print_table_report(
    snap: &HostSnapshot,
    columns: &DisplayColumns,
    shown: &[ShownValue],
    now: i64,
) -> (r: String)
    requires
        shown@.len() == columns.metrics@.len(),
        snap.last_online != 0 ==> i64::MIN <= now - snap.last_online <= i64::MAX,
    ensures
        r@ == table_row(
            snap.host@,
            snap.online,
            texts(columns.metrics@),
            shown@,
            relative_time(snap.last_online as int, now as int),
        ),
{
    let ghost all = texts(columns.metrics@);
    let status = if snap.online {
        "\x1b[32m✓ online\x1b[0m"
    } else {
        "\x1b[31m✗ offline\x1b[0m"
    };
    let mut out = concat3(pad(snap.host.as_str(), 16).as_str(), " ", pad(status, 20).as_str());
    let ghost start = out@;
    let mut i: usize = 0;
    assert(start + cells(all.take(0), shown@) =~= start);
    while i < columns.metrics.len()
        invariant
            i <= columns.metrics@.len(),
            shown@.len() == columns.metrics@.len(),
            all == texts(columns.metrics@),
            out@ == start + cells(all.take(i as int), shown@),
        decreases columns.metrics@.len() - i,
    {
        assert(all.take(i + 1).drop_last() =~= all.take(i as int));
        assert(all.take(i + 1).last() == columns.metrics@[i as int]@);
        let w: usize = metric_width(columns.metrics[i].as_str());
        if shown[i].critical {
            out.append(" \x1b[31m");
            out.append(pad(shown[i].text.as_str(), w).as_str());
            out.append("\x1b[0m");
        } else {
            out.append(" ");
            out.append(pad(shown[i].text.as_str(), w).as_str());
        }
        i += 1;
        assert(out@ =~= start + cells(all.take(i as int), shown@));
    }
    assert(all.take(i as int) =~= all);
    out.append(" ");
    out.append(format_relative_time(snap.last_online, now).as_str());
    out
}

// ---------------------------------------------------------------------------
// Stored snapshots
// ---------------------------------------------------------------------------

/// Asks for the latest snapshot of a host.
pub const LATEST_SNAPSHOT: &'static str =
    "SELECT collected_at, online, raw_json FROM check_snapshots WHERE host = ?1 ORDER BY collected_at DESC LIMIT 1";

/// Asks for the snapshots of a host from some time on, the latest first.
pub const SNAPSHOTS_SINCE: &'static str =
    "SELECT collected_at, online, raw_json FROM check_snapshots WHERE host = ?1 AND collected_at >= ?2 ORDER BY collected_at DESC";

/// Asks when a host was last seen up.
pub const LAST_ONLINE: &'static str = "SELECT last_online FROM host_last_seen WHERE host = ?1";

/// A snapshot as it is stored: when it was taken, whether the host was up, and its
/// data where they can be read.
pub struct StoredSnapshot {
    pub collected_at: i64,
    pub online: bool,
    pub data: Option<Snapshot>,
}

/// The latest snapshot of a host. A host of which nothing is stored counts as down,
/// and one that was never seen up as seen at 0.
pub fn latest_snapshot(
    host: String,
    stored: Option<StoredSnapshot>,
    last_online: Option<i64>,
) -> (r: HostSnapshot)
    ensures
        r.host == host,
        r.collected_at == (match stored {
            Some(s) => s.collected_at,
            None => 0,
        }),
        r.online == (match stored {
            Some(s) => s.online,
            None => false,
        }),
        r.data == (match stored {
            Some(s) => s.data,
            None => None,
        }),
        r.last_online == (match last_online {
            Some(t) => t,
            None => 0,
        }),
{
    let last: i64 = match last_online {
        Some(t) => t,
        None => 0,
    };
    match stored {
        Some(s) => HostSnapshot {
            host,
            collected_at: s.collected_at,
            online: s.online,
            data: s.data,
            last_online: last,
        },
        None => HostSnapshot {
            host,
            collected_at: 0,
            online: false,
            data: None,
            last_online: last,
        },
    }
}

/// Which snapshots of each host a report is made of.
#[derive(Debug, Clone, Copy, PartialEq, Eq, Structural)]
pub enum Selection {
    Latest,
    /// All from a time on.
    Since(i64),
}

/// Chooses which snapshots of each host a report is made of.
pub fn build_json_report(history: bool, since_text: Option<&str>, now: i64) -> (r: Result<
    Selection,
    Error,
>)
    requires
        since_text matches Some(t) ==> since_fits(t@, now as int),
    ensures
        !history ==> r == Ok::<Selection, Error>(Selection::Latest),
        history && since_text is None ==> r == Ok::<Selection, Error>(Selection::Since(0)),
        history ==> (since_text matches Some(t) ==> (match since(t@, now as int) {
            Some(ts) => r matches Ok(Selection::Since(n)) && n == ts,
            None => r matches Err(e) && e@ == "Invalid --since value: "@ + t@
                + ". Use '7d', '24h', or 'YYYY-MM-DD'"@,
        })),
{
    if !history {
        return Ok(Selection::Latest);
    }
    match parse_since(since_text, now) {
        Ok(ts) => Ok(Selection::Since(ts)),
        Err(e) => Err(e),
    }
}

/// The page up to the time it is made.
pub const REPORT_HEAD: &'static str = "<!DOCTYPE html>
<html lang=\"en\">
<head>
<meta charset=\"utf-8\">
<title>ssync - System Report</title>
<style>
  body { font-family: -apple-system, sans-serif; margin: 2rem; background: #f5f5f5; }
  h1 { color: #333; }
  .host { background: white; border-radius: 8px; padding: 1.5rem; margin: 1rem 0; box-shadow: 0 1px 3px rgba(0,0,0,0.1); }
  .host h2 { margin-top: 0; color: #0066cc; }
  .metric { display: flex; justify-content: space-between; padding: 0.25rem 0; border-bottom: 1px solid #eee; }
  .online { color: #28a745; }
  .offline { color: #dc3545; }
  pre { background: #f8f8f8; padding: 1rem; border-radius: 4px; overflow-x: auto; font-size: 0.85rem; }
</style>
</head>
<body>
<h1>ssync System Report</h1>
<p>Generated: ";

/// The page between the time and the data.
pub const REPORT_DATA: &'static str = "</p>
<pre>";

/// The page behind the data.
pub const REPORT_END: &'static str = "</pre>
<script src=\"https://cdn.jsdelivr.net/npm/chart.js\"></script>
</body>
</html>";

/// The page of a report: when it is made, and the data as text.
pub fn render_html(json: &str, time: &str) -> (r: String)
    ensures
        r@ == REPORT_HEAD@ + time@ + REPORT_DATA@ + json@ + REPORT_END@,
{
    let mut out = concat3(REPORT_HEAD, time, REPORT_DATA);
    out.append(json);
    out.append(REPORT_END);
    out
}

// ---------------------------------------------------------------------------
// Laws
// ---------------------------------------------------------------------------

proof fn metrics_are_added(list: Seq<Seq<char>>, more: Seq<Seq<char>>)
    ensures
        forall|m: Seq<char>| #[trigger]
            with_metrics(list, more).contains(m) <==> list.contains(m) || (more.contains(m) && m
                != "online"@),
        list.no_duplicates() ==> with_metrics(list, more).no_duplicates(),
    decreases more.len(),
{
    if more.len() > 0 {
        let rest = more.drop_last();
        let last = more.last();
        metrics_are_added(list, rest);
        let before = with_metrics(list, rest);
        let all = with_metrics(list, more);
        assert forall|m: Seq<char>| #[trigger] all.contains(m) <==> list.contains(m) || (
        more.contains(m) && m != "online"@) by {
            assert(before.contains(m) <==> list.contains(m) || (rest.contains(m) && m
                != "online"@));
            assert(more[more.len() - 1] == last);
            if rest.contains(m) {
                assert(more[rest.index_of(m)] == m);
            }
            if more.contains(m) && m != last {
                assert(rest[more.index_of(m)] == m);
            }
            if last != "online"@ && !before.contains(last) {
                assert(all == before.push(last));
                assert(all[before.len() as int] == last);
                if before.contains(m) {
                    assert(all[before.index_of(m)] == m);
                }
                if all.contains(m) && m != last {
                    assert(before[all.index_of(m)] == m);
                }
            }
        }
    }
}

/// The table has one column for each metric that some entry enables, but for `online`,
/// which has a column of its own.
pub proof fn columns_are_the_enabled_metrics(entries: Seq<CheckEntry>, metric: Seq<char>)
    ensures
        columns(entries).contains(metric) <==> metric != "online"@ && exists|k: int|
            0 <= k < entries.len() && texts((#[trigger] entries[k]).enabled@).contains(metric),
        columns(entries).no_duplicates(),
    decreases entries.len(),
{
    if entries.len() > 0 {
        let rest = entries.drop_last();
        let n = entries.len() - 1;
        columns_are_the_enabled_metrics(rest, metric);
        metrics_are_added(columns(rest), texts(entries.last().enabled@));
        assert(entries[n] == entries.last());
        if columns(rest).contains(metric) {
            let k = choose|k: int|
                0 <= k < rest.len() && texts((#[trigger] rest[k]).enabled@).contains(metric);
            assert(entries[k] == rest[k]);
        }
        if exists|k: int|
            0 <= k < entries.len() && texts((#[trigger] entries[k]).enabled@).contains(metric) {
            let k = choose|k: int|
                0 <= k < entries.len() && texts((#[trigger] entries[k]).enabled@).contains(metric);
            if k < n {
                assert(rest[k] == entries[k]);
            }
        }
    }
}

/// A past time is told in the largest unit that it fills: so many whole seconds, minutes,
/// hours or days, with less than one unit left over.
pub proof fn ages_are_told_in_whole_units(ts: int, now: int) -> (n: int)
    requires
        ts != 0,
        ts <= now,
    ensures
        ({
            ||| relative_time(ts, now) == decimal(n as nat) + "s ago"@ && n == now - ts && n < 60
            ||| relative_time(ts, now) == decimal(n as nat) + "m ago"@ && 1 <= n < 60
                && n * 60 <= now
                - ts < (n + 1) * 60
            ||| relative_time(ts, now) == decimal(n as nat) + "h ago"@ && 1 <= n < 24 && n * 3600
                <= now - ts < (n + 1) * 3600
            ||| relative_time(ts, now) == decimal(n as nat) + "d ago"@ && 1 <= n && n * 86400 <= now
                - ts < (n + 1) * 86400
        }),
        n >= 0,
{
    let diff = now - ts;
    if diff < 60 {
        diff
    } else if diff < 3600 {
        diff / 60
    } else if diff < 86400 {
        diff / 3600
    } else {
        diff / 86400
    }
}

/// A time that was never set is told as such.
pub proof fn unset_times_are_never(now: int)
    ensures
        relative_time(0, now) == "never"@,
{
}

proof fn root_disk_is_first(list: Seq<Map<Seq<char>, ScalarView>>, from: int)
    requires
        0 <= from <= list.len(),
    ensures
        from <= root_disk(list, from) <= list.len(),
        forall|i: int|
            from <= i < root_disk(list, from) ==> text_field(#[trigger] list[i], "mount"@) != Some(
                "/"@,
            ),
        root_disk(list, from) < list.len() ==> text_field(
            list[root_disk(list, from)],
            "mount"@,
        ) == Some("/"@),
    decreases list.len() - from,
{
    if from < list.len() && text_field(list[from], "mount"@) != Some("/"@) {
        root_disk_is_first(list, from + 1);
    }
}

proof fn sized_disk_is_first(list: Seq<Map<Seq<char>, ScalarView>>, from: int)
    requires
        0 <= from <= list.len(),
    ensures
        from <= sized_disk(list, from) <= list.len(),
        forall|i: int|
            from <= i < sized_disk(list, from) ==> !(#[trigger] list[i]).dom().contains(
                "total_bytes"@,
            ),
        sized_disk(list, from) < list.len() ==> list[sized_disk(list, from)].dom().contains(
            "total_bytes"@,
        ),
    decreases list.len() - from,
{
    if from < list.len() && !list[from].dom().contains("total_bytes"@) {
        sized_disk_is_first(list, from + 1);
    }
}

/// Whether a record tells a size above zero and how much of it is used.
pub open spec fn tells_usage(m: Map<Seq<char>, ScalarView>, used: nat, total: nat) -> bool {
    &&& total > 0
    &&& m.dom().contains("total_bytes"@)
    &&& m["total_bytes"@] == ScalarView::Number(total)
    &&& m.dom().contains("used_bytes"@)
    &&& m["used_bytes"@] == ScalarView::Number(used)
}

/// Of several disks the first one that is mounted at the root is shown; where there is none,
/// the first one with a size.
pub proof fn the_root_disk_is_shown(
    m: Map<Seq<char>, DataView>,
    list: Seq<Map<Seq<char>, ScalarView>>,
    k: int,
    used: nat,
    total: nat,
)
    requires
        m.dom().contains("disk"@),
        m["disk"@] == DataView::Records(list),
        0 <= k < list.len(),
        tells_usage(list[k], used, total),
        ({
            ||| list[k].dom().contains("mount"@) && list[k]["mount"@] == ScalarView::Text("/"@)
                && forall|i: int|
                0 <= i < k ==> !((#[trigger] list[i]).dom().contains("mount"@) && list[i]["mount"@]
                    == ScalarView::Text("/"@))
            ||| (forall|i: int|
                0 <= i < list.len() ==> !((#[trigger] list[i]).dom().contains("mount"@)
                    && list[i]["mount"@] == ScalarView::Text("/"@))) && forall|i: int|
                0 <= i < k ==> !(#[trigger] list[i]).dom().contains("total_bytes"@)
        }),
    ensures
        shown_value(m, "disk"@) == ValueView::Used(used, total),
{
    metrics_differ();
    root_disk_is_first(list, 0);
    sized_disk_is_first(list, 0);
    let r = root_disk(list, 0);
    let s = sized_disk(list, 0);
    if r < list.len() {
        assert(text_field(list[r], "mount"@) == Some("/"@));
        assert(list[r].dom().contains("mount"@));
        if r < k {
            assert(list[r]["mount"@] == ScalarView::Text("/"@));
        }
        if k < r {
            assert(text_field(list[k], "mount"@) != Some("/"@));
        }
    } else {
        assert(text_field(list[k], "mount"@) != Some("/"@));
        if s < k {
            assert(!list[s].dom().contains("total_bytes"@));
        }
        if k < s {
            assert(!list[k].dom().contains("total_bytes"@));
        }
    }
}

proof fn metrics_differ()
    ensures
        "disk"@ != "network"@ && "disk"@ != "cpu_load"@ && "disk"@ != "memory"@,
        "memory"@ != "network"@ && "memory"@ != "cpu_load"@,
        "swap"@ != "network"@ && "swap"@ != "cpu_load"@ && "swap"@ != "memory"@
            && "swap"@ != "disk"@
            && "swap"@ != "battery"@ && "swap"@ != "ip_address"@,
        "battery"@ != "network"@ && "battery"@ != "cpu_load"@ && "battery"@ != "memory"@
            && "battery"@
            != "disk"@,
        "cpu_load"@ != "network"@,
        "ip_address"@ != "network"@ && "ip_address"@ != "cpu_load"@ && "ip_address"@ != "memory"@
            && "ip_address"@ != "disk"@ && "ip_address"@ != "battery"@,
{
    reveal_strlit("disk");
    reveal_strlit("network");
    reveal_strlit("cpu_load");
    reveal_strlit("memory");
    reveal_strlit("swap");
    reveal_strlit("battery");
    reveal_strlit("ip_address");
    assert("disk"@[0] == 'd' && "network"@[0] == 'n' && "cpu_load"@[0] == 'c' && "memory"@[0] == 'm'
        && "swap"@[0] == 's' && "battery"@[0] == 'b' && "ip_address"@[0] == 'i');
}

/// Memory and swap are shown as the used part of their size; with a size of zero, or
/// without one, nothing is shown.
pub proof fn usage_is_shown(
    m: Map<Seq<char>, DataView>,
    record: Map<Seq<char>, ScalarView>,
    used: nat,
    total: nat,
)
    requires
        m.dom().contains("memory"@) && m.dom().contains("swap"@),
        m["memory"@] == DataView::Record(record),
        m["swap"@] == DataView::Record(record),
    ensures
        tells_usage(record, used, total) ==> shown_value(m, "memory"@) == ValueView::Used(
            used,
            total,
        ) && shown_value(m, "swap"@) == ValueView::Used(used, total),
        (forall|u: nat, t: nat| !#[trigger] tells_usage(record, u, t)) ==> shown_value(m, "memory"@)
            == ValueView::Text("-"@) && shown_value(m, "swap"@) == ValueView::Text("-"@),
{
    metrics_differ();
    match usage(record) {
        Some(u) => {
            let total = number_field(record, "total_bytes"@)->0;
            let used = number_field(record, "used_bytes"@)->0;
            assert(tells_usage(record, used, total));
        },
        None => {},
    }
}

/// The load over one minute is shown before that over five, and that before the one over
/// fifteen.
pub proof fn the_shortest_load_is_shown(
    m: Map<Seq<char>, DataView>,
    record: Map<Seq<char>, ScalarView>,
    load: Seq<char>,
)
    requires
        m.dom().contains("cpu_load"@),
        m["cpu_load"@] == DataView::Record(record),
    ensures
        record.dom().contains("load1"@) && record["load1"@] == ScalarView::Decimal(load)
            ==> shown_value(m, "cpu_load"@) == ValueView::Decimal(load),
        !record.dom().contains("load1"@) && record.dom().contains("load5"@) && record["load5"@]
            == ScalarView::Decimal(load)
                ==> shown_value(m, "cpu_load"@) == ValueView::Decimal(load),
        !record.dom().contains("load1"@) && !record.dom().contains("load5"@)
            && record.dom().contains("load15"@) && record["load15"@] == ScalarView::Decimal(load)
            ==> shown_value(m, "cpu_load"@) == ValueView::Decimal(load),
{
    metrics_differ();
}

/// A battery is shown with its charge, and a host without one with `N/A`.
pub proof fn batteries_show_their_charge(
    m: Map<Seq<char>, DataView>,
    record: Map<Seq<char>, ScalarView>,
    percent: nat,
)
    requires
        m.dom().contains("battery"@),
        m["battery"@] == DataView::Record(record),
    ensures
        record.dom().contains("present"@) && record["present"@] == ScalarView::Flag(false)
            ==> shown_value(m, "battery"@) == ValueView::Text("N/A"@),
        !(record.dom().contains("present"@) && record["present"@] == ScalarView::Flag(false))
            && record.dom().contains("percent"@) && record["percent"@] == ScalarView::Number(
            percent,
        ) ==> shown_value(m, "battery"@) == ValueView::Text(decimal(percent) + "%"@),
{
    metrics_differ();
}

/// A metric without a value is shown as a dash.
pub proof fn unmeasured_metrics_show_a_dash(m: Map<Seq<char>, DataView>, metric: Seq<char>)
    requires
        !m.dom().contains(metric),
        metric != "network"@,
    ensures
        shown_value(m, metric) == ValueView::Text("-"@),
{
}

/// A text that was measured is shown trimmed, an address only where there is one, and a
/// system by its first three words.
pub proof fn texts_are_shown(m: Map<Seq<char>, DataView>, t: Seq<char>)
    ensures
        m.dom().contains("ip_address"@) && m["ip_address"@] == DataView::Scalar(
            ScalarView::Text(t),
        ) ==> shown_value(m, "ip_address"@) == (if trim(t).len() > 0 {
            ValueView::Text(trim(t))
        } else {
            ValueView::Text("-"@)
        }),
        m.dom().contains("cpu_arch"@) && m["cpu_arch"@] == DataView::Scalar(ScalarView::Text(t))
            ==> shown_value(m, "cpu_arch"@) == ValueView::Text(trim(t)),
        m.dom().contains("system_info"@) && m["system_info"@] == DataView::Scalar(
            ScalarView::Text(t),
        ) ==> {
            &&& words(t).len() >= 3 ==> shown_value(m, "system_info"@) == ValueView::Text(
                words(t)[0] + " "@ + words(t)[1] + " "@ + words(t)[2],
            )
            &&& words(t).len() == 1
                ==> shown_value(m, "system_info"@) == ValueView::Text(words(t)[0])
        },
        shown_value(m, "network"@) == ValueView::Text("…"@),
{
    metrics_differ();
    reveal_strlit("cpu_arch");
    reveal_strlit("system_info");
    reveal_strlit("cpu_load");
    reveal_strlit("network");
    reveal_strlit("memory");
    reveal_strlit("disk");
    reveal_strlit("battery");
    reveal_strlit("ip_address");
    reveal_strlit("swap");
    assert("cpu_arch"@[0] == 'c' && "cpu_arch"@[4] == 'a' && "cpu_load"@[0] == 'c'
        && "cpu_load"@[4] == 'l');
    assert("system_info"@[0] == 's' && "system_info"@[1] == 'y' && "swap"@[0] == 's' && "swap"@[1]
        == 'w');
    assert("network"@[0] == 'n' && "memory"@[0] == 'm' && "disk"@[0] == 'd' && "battery"@[0] == 'b'
        && "ip_address"@[0] == 'i');
    let w = words(t);
    if w.len() >= 3 {
        let three = if w.len() > 3 {
            w.take(3)
        } else {
            w
        };
        let two = three.drop_last();
        let one = two.drop_last();
        assert(one.len() == 1 && one[0] == w[0]);
        assert(join(one, " "@) == w[0]);
        assert(two.last() == w[1]);
        assert(join(two, " "@) == join(one, " "@) + " "@ + w[1]);
        assert(three.last() == w[2]);
        assert(join(three, " "@) == join(two, " "@) + " "@ + w[2]);
    }
}

/// Every column has its heading, padded to its width.
pub proof fn every_column_has_a_heading(metrics: Seq<Seq<char>>, i: int) -> (around: (
    Seq<char>,
    Seq<char>,
))
    requires
        0 <= i < metrics.len(),
    ensures
        headings(metrics) == around.0 + " "@ + padded(heading(metrics[i]), column_width(metrics[i]))
            + around.1,
    decreases metrics.len(),
{
    let rest = metrics.drop_last();
    let none = Seq::<char>::empty();
    if i < rest.len() {
        assert(rest[i] == metrics[i]);
        let (a, b) = every_column_has_a_heading(rest, i);
        let more = b + " "@ + padded(heading(metrics.last()), column_width(metrics.last()));
        assert(headings(metrics) =~= a + " "@ + padded(
            heading(metrics[i]),
            column_width(metrics[i]),
        ) + more);
        (a, more)
    } else {
        let a = headings(rest);
        assert(headings(metrics) =~= a + " "@ + padded(
            heading(metrics[i]),
            column_width(metrics[i]),
        ) + none);
        (a, none)
    }
}

/// Every value stands in its row, in the order of the columns.
pub proof fn every_value_stands_in_its_row(
    metrics: Seq<Seq<char>>,
    shown: Seq<ShownValue>,
    i: int,
) -> (around: (Seq<char>, Seq<char>))
    requires
        0 <= i < metrics.len(),
    ensures
        cells(metrics, shown) == around.0 + cell(metrics[i], shown[i].text@, shown[i].critical)
            + around.1,
        around.0 == cells(metrics.take(i), shown),
    decreases metrics.len(),
{
    let rest = metrics.drop_last();
    let none = Seq::<char>::empty();
    let here = cell(metrics[i], shown[i].text@, shown[i].critical);
    if i < rest.len() {
        assert(rest[i] == metrics[i]);
        assert(rest.take(i) =~= metrics.take(i));
        let (a, b) = every_value_stands_in_its_row(rest, shown, i);
        let k = metrics.len() - 1;
        let more = b + cell(metrics.last(), shown[k].text@, shown[k].critical);
        assert(cells(metrics, shown) =~= a + here + more);
        (a, more)
    } else {
        assert(metrics.take(i) =~= rest);
        let a = cells(rest, shown);
        assert(cells(metrics, shown) =~= a + here + none);
        (a, none)
    }
}

} // verus!
