//! Series of `(size, value)` points projected from records.
use vstd::prelude::*;
use crate::records::{Metric, PerfRecord, PerfRecordView, TimingData, metric_index};

verus! {

/// A point of a series: a problem size and a value, as printed.
pub struct Point {
    pub size: usize,
    pub value: String,
}

impl DeepView for Point {
    type V = (usize, Seq<char>);

    open spec fn deep_view(&self) -> (usize, Seq<char>) {
        (self.size, self.value@)
    }
}

/// Each record's size paired with its value of metric `m`, in record order.
pub open spec fn project(records: Seq<PerfRecordView>, m: Metric) -> Seq<(usize, Seq<char>)> {
    records.map_values(|r: PerfRecordView| (r.n, r.values[metric_index(m)]))
}

/// The series of the timing records of `data`.
pub fn timing_series(data: &TimingData) -> (r: Vec<Point>)
    ensures
        r.deep_view() == data.records.deep_view(),
{
    let mut out: Vec<Point> = Vec::new();
    let mut i: usize = 0;
    while i < data.records.len()
        invariant
            i <= data.records@.len(),
            out.deep_view() == data.records.deep_view().take(i as int),
        decreases data.records@.len() - i,
    {
        let rec = &data.records[i];
        let ghost before = out.deep_view();
        assert(data.records.deep_view()[i as int] == rec.deep_view());
        let p = Point { size: rec.size, value: rec.time.clone() };
        out.push(p);
        assert(out.deep_view() =~= before.push(p.deep_view()));
        assert(out.deep_view() =~= data.records.deep_view().take(i + 1));
        i = i + 1;
    }
    assert(data.records.deep_view().take(i as int) =~= data.records.deep_view());
    out
}

/// The series of metric `m` over `records`.
pub fn perf_series(records: &Vec<PerfRecord>, m: Metric) -> (r: Vec<Point>)
    ensures
        r.deep_view() == project(records.deep_view(), m),
{
    let mut out: Vec<Point> = Vec::new();
    let mut i: usize = 0;
    while i < records.len()
        invariant
            i <= records@.len(),
            out.deep_view() == project(records.deep_view().take(i as int), m),
        decreases records@.len() - i,
    {
        let rec = &records[i];
        assert(records.deep_view()[i as int] == rec.deep_view());
        let ghost before = out.deep_view();
        let p = Point { size: rec.n, value: rec.value(m).clone() };
        out.push(p);
        assert(out.deep_view() =~= before.push(p.deep_view()));
        assert(out.deep_view() =~= project(records.deep_view().take(i + 1), m));
        i = i + 1;
    }
    assert(records.deep_view().take(i as int) =~= records.deep_view());
    out
}

/// Projecting `k` records gives `k` points, the i-th from the i-th record.
pub proof fn lemma_project_keeps_records(records: Seq<PerfRecordView>, m: Metric)
    ensures
        project(records, m).len() == records.len(),
        forall|i: int|
            0 <= i < records.len() ==> #[trigger] project(records, m)[i] == (
                records[i].n,
                records[i].values[metric_index(m)],
            ),
{
}

} // verus!
