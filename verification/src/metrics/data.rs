//! The values that a snapshot of a host is made of.

use vstd::prelude::*;

use crate::lookup::TextMap;
use crate::text::copy;

verus! {

/// One field of a measured value.
pub enum Scalar {
    Flag(bool),
    Number(u64),
    /// A number with a fraction, as it was written.
    Decimal(String),
    Text(String),
    /// Anything else that a stored snapshot may hold.
    Other,
}

/// A field as a value of the specification language.
pub ghost enum ScalarView {
    Flag(bool),
    Number(nat),
    Decimal(Seq<char>),
    Text(Seq<char>),
    Other,
}

impl View for Scalar {
    type V = ScalarView;

    open spec fn view(&self) -> ScalarView {
        match self {
            Scalar::Flag(b) => ScalarView::Flag(*b),
            Scalar::Number(n) => ScalarView::Number(*n as nat),
            Scalar::Decimal(s) => ScalarView::Decimal(s@),
            Scalar::Text(s) => ScalarView::Text(s@),
            Scalar::Other => ScalarView::Other,
        }
    }
}

/// The fields of a measured value, by name.
pub type Record = TextMap<Scalar>;

/// The fields of a record, by name.
pub open spec fn fields(r: Record) -> Map<Seq<char>, ScalarView> {
    r@.map_values(|s: Scalar| s@)
}

/// The fields of every record of a list.
pub open spec fn field_rows(list: Seq<Record>) -> Seq<Map<Seq<char>, ScalarView>> {
    Seq::new(list.len(), |i: int| fields(list[i]))
}

/// What was measured for one metric.
pub enum MetricData {
    Scalar(Scalar),
    Record(Record),
    Records(Vec<Record>),
}

/// What was measured for one metric, as a value of the specification language.
pub ghost enum DataView {
    Scalar(ScalarView),
    Record(Map<Seq<char>, ScalarView>),
    Records(Seq<Map<Seq<char>, ScalarView>>),
}

impl View for MetricData {
    type V = DataView;

    open spec fn view(&self) -> DataView {
        match self {
            MetricData::Scalar(s) => DataView::Scalar(s@),
            MetricData::Record(r) => DataView::Record(fields(*r)),
            MetricData::Records(list) => DataView::Records(field_rows(list@)),
        }
    }
}

impl MetricData {
    /// No record names a field twice.
    pub open spec fn wf(&self) -> bool {
        match self {
            MetricData::Scalar(s) => true,
            MetricData::Record(r) => r.wf(),
            MetricData::Records(list) => forall|i: int| 0 <= i < list@.len() ==> (#[trigger] list@[i]).wf(),
        }
    }
}

/// A text as the value of a metric.
pub open spec fn text_data(s: Seq<char>) -> DataView {
    DataView::Scalar(ScalarView::Text(s))
}

/// A text as the value of a metric.
pub fn text_value(s: &str) -> (r: MetricData)
    ensures
        r.wf(),
        r@ == text_data(s@),
{
    MetricData::Scalar(Scalar::Text(copy(s)))
}

/// All that is known of a host, by the name of the metric.
pub type Snapshot = TextMap<MetricData>;

/// The values of a snapshot, by the name of the metric.
pub open spec fn values(s: Snapshot) -> Map<Seq<char>, DataView> {
    s@.map_values(|d: MetricData| d@)
}

/// No metric occurs twice, and every value is well formed.
pub open spec fn snapshot_wf(s: Snapshot) -> bool {
    s.wf() && forall|i: int| 0 <= i < s.entries@.len() ==> (#[trigger] s.entries@[i]).1.wf()
}

/// An empty record.
pub fn no_fields() -> (r: Record)
    ensures
        r.wf(),
        fields(r) == Map::<Seq<char>, ScalarView>::empty(),
{
    let r: Record = TextMap::new();
    assert(fields(r) =~= Map::<Seq<char>, ScalarView>::empty());
    r
}

/// Sets a field of a record.
pub fn set_field(r: &mut Record, name: &str, value: Scalar)
    requires
        old(r).wf(),
    ensures
        final(r).wf(),
        fields(*final(r)) == fields(*old(r)).insert(name@, value@),
{
    let ghost before = *r;
    let ghost v = value;
    r.insert(copy(name), value);
    assert(fields(*r) =~= fields(before).insert(name@, v@));
}

/// An empty snapshot.
pub fn no_values() -> (r: Snapshot)
    ensures
        snapshot_wf(r),
        values(r) == Map::<Seq<char>, DataView>::empty(),
        r.keys() == Seq::<Seq<char>>::empty(),
{
    let r: Snapshot = TextMap::new();
    assert(values(r) =~= Map::<Seq<char>, DataView>::empty());
    assert(r.keys().len() == 0);
    r
}

/// Sets the value of a metric.
pub fn set_value(s: &mut Snapshot, name: &str, value: MetricData)
    requires
        snapshot_wf(*old(s)),
        value.wf(),
    ensures
        snapshot_wf(*final(s)),
        values(*final(s)) == values(*old(s)).insert(name@, value@),
        final(s).keys() == crate::order::with_new(old(s).keys(), name@),
{
    let ghost before = *s;
    let ghost v = value;
    s.insert(copy(name), value);
    proof {
        assert(values(*s) =~= values(before).insert(name@, v@));
        assert forall|i: int| 0 <= i < s.entries@.len() implies (#[trigger] s.entries@[i]).1.wf() by {
            s.value_at(i);
            let k = s.entries@[i].0@;
            if k != name@ {
                assert(before@.dom().contains(k));
                let j = before.keys().index_of(k);
                before.value_at(j);
                assert(before.entries@[j].1 == s.entries@[i].1);
            }
        }
    }
}

impl Scalar {
    /// A copy of a field.
    pub fn copy(&self) -> (r: Scalar)
        ensures
            r@ == self@,
    {
        match self {
            Scalar::Flag(b) => Scalar::Flag(*b),
            Scalar::Number(n) => Scalar::Number(*n),
            Scalar::Decimal(s) => Scalar::Decimal(copy(s.as_str())),
            Scalar::Text(s) => Scalar::Text(copy(s.as_str())),
            Scalar::Other => Scalar::Other,
        }
    }
}

/// A copy of a record.
pub fn copy_record(r: &Record) -> (out: Record)
    requires
        r.wf(),
    ensures
        out.wf(),
        fields(out) == fields(*r),
{
    let mut out: Record = TextMap { entries: Vec::new() };
    let mut i: usize = 0;
    while i < r.entries.len()
        invariant
            i <= r.entries@.len(),
            out.entries@.len() == i,
            forall|j: int|
                0 <= j < i ==> (#[trigger] out.entries@[j]).0@ == r.entries@[j].0@
                    && out.entries@[j].1@ == r.entries@[j].1@,
        decreases r.entries@.len() - i,
    {
        out.entries.push((copy(r.entries[i].0.as_str()), r.entries[i].1.copy()));
        i += 1;
    }
    assert(out.keys() =~= r.keys());
    assert forall|k: Seq<char>| fields(*r).dom().contains(k) implies fields(out)[k] == fields(*r)[k] by {
        let n = r.keys().index_of(k);
        assert(r.keys()[n] == k);
        assert(out.entries@[n].1@ == r.entries@[n].1@);
    }
    assert(fields(out) =~= fields(*r));
    out
}

impl MetricData {
    /// A copy of a value.
    pub fn copy(&self) -> (r: MetricData)
        requires
            self.wf(),
        ensures
            r.wf(),
            r@ == self@,
    {
        match self {
            MetricData::Scalar(s) => MetricData::Scalar(s.copy()),
            MetricData::Record(r) => MetricData::Record(copy_record(r)),
            MetricData::Records(list) => {
                let mut out: Vec<Record> = Vec::new();
                let mut i: usize = 0;
                while i < list.len()
                    invariant
                        i <= list@.len(),
                        out@.len() == i,
                        forall|j: int| 0 <= j < list@.len() ==> (#[trigger] list@[j]).wf(),
                        forall|j: int| 0 <= j < i ==> (#[trigger] out@[j]).wf(),
                        forall|j: int|
                            0 <= j < i ==> fields(#[trigger] out@[j]) == fields(list@[j]),
                    decreases list@.len() - i,
                {
                    out.push(copy_record(&list[i]));
                    i += 1;
                }
                assert(field_rows(out@) =~= field_rows(list@));
                MetricData::Records(out)
            },
        }
    }
}

} // verus!
