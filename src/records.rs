//! Records read from the fields of a table, under the two row policies.
//!
//! A measured value is read as a floating-point number and kept as the text
//! that prints it. That reading is made where floating point is available,
//! and arrives here with each field as a [`Cell`].
use vstd::prelude::*;
use crate::text::{chars_of, push_char, push_str, size_of, parse_size};

verus! {

/// One field of a table: its raw text, and the printed form of the
/// floating-point number it reads as, if it reads as one.
pub struct Cell {
    pub text: String,
    pub reading: Option<String>,
}

pub ghost struct CellView {
    pub text: Seq<char>,
    pub reading: Option<Seq<char>>,
}

impl DeepView for Cell {
    type V = CellView;

    open spec fn deep_view(&self) -> CellView {
        CellView {
            text: self.text@,
            reading: match self.reading {
                Some(r) => Some(r@),
                None => None,
            },
        }
    }
}

fn reading_of(c: &Cell) -> (r: Option<String>)
    ensures
        r is Some <==> c.deep_view().reading is Some,
        r is Some ==> r->0@ == c.deep_view().reading->0,
{
    match &c.reading {
        Some(v) => Some(v.clone()),
        None => None,
    }
}

/// A timing measurement: a problem size and the time taken, as printed.
pub struct TimingRecord {
    pub size: usize,
    pub time: String,
}

impl DeepView for TimingRecord {
    type V = (usize, Seq<char>);

    open spec fn deep_view(&self) -> (usize, Seq<char>) {
        (self.size, self.time@)
    }
}

/// The timing record a row gives, under the tolerant policy: the row needs
/// two fields, a size and a number; otherwise it gives none.
pub open spec fn timing_row(row: Seq<CellView>) -> Option<(usize, Seq<char>)> {
    if row.len() >= 2 && size_of(row[0].text) is Some && row[1].reading is Some {
        Some((size_of(row[0].text)->0, row[1].reading->0))
    } else {
        None
    }
}

/// The timing records of `rows`, in row order; rows that give none are
/// skipped.
pub open spec fn timing_of(rows: Seq<Seq<CellView>>) -> Seq<(usize, Seq<char>)>
    decreases rows.len(),
{
    if rows.len() == 0 {
        seq![]
    } else {
        match timing_row(rows.last()) {
            Some(r) => timing_of(rows.drop_last()).push(r),
            None => timing_of(rows.drop_last()),
        }
    }
}

/// Reads timing records from table rows, skipping rows that are short or do
/// not read as a size and a number.
pub fn timing_records(rows: &Vec<Vec<Cell>>) -> (r: Vec<TimingRecord>)
    ensures
        r.deep_view() == timing_of(rows.deep_view()),
{
    let mut out: Vec<TimingRecord> = Vec::new();
    let mut i: usize = 0;
    while i < rows.len()
        invariant
            i <= rows@.len(),
            out.deep_view() == timing_of(rows.deep_view().take(i as int)),
        decreases rows@.len() - i,
    {
        let row = &rows[i];
        let ghost rv = rows.deep_view()[i as int];
        assert(rv == row.deep_view());
        assert(rows.deep_view().take(i + 1).drop_last() =~= rows.deep_view().take(i as int));
        assert(rows.deep_view().take(i + 1).last() == rv);
        let ghost before = out.deep_view();
        if row.len() >= 2 {
            assert(row[0].deep_view() == rv[0] && row[1].deep_view() == rv[1]);
            match parse_size(row[0].text.as_str()) {
                Some(n) => match reading_of(&row[1]) {
                    Some(t) => {
                        out.push(TimingRecord { size: n, time: t });
                        assert(out.deep_view() =~= before.push((n, t@)));
                    },
                    None => {},
                },
                None => {},
            }
        }
        i = i + 1;
    }
    assert(rows.deep_view().take(i as int) =~= rows.deep_view());
    out
}

/// The part of `path` after its last `/`.
pub open spec fn base_name(path: Seq<char>) -> Seq<char>
    decreases path.len(),
{
    if path.len() == 0 || path.last() == '/' {
        seq![]
    } else {
        base_name(path.drop_last()).push(path.last())
    }
}

/// Whether `s` ends in `.csv`.
pub open spec fn ends_in_csv(s: Seq<char>) -> bool {
    s.len() >= 4 && s.subrange(s.len() - 4, s.len() as int) == seq!['.', 'c', 's', 'v']
}

/// `s` with every trailing `.csv` removed.
pub open spec fn trim_csv(s: Seq<char>) -> Seq<char>
    decreases s.len(),
{
    if ends_in_csv(s) {
        trim_csv(s.subrange(0, s.len() - 4))
    } else {
        s
    }
}

/// The name a data set is shown under: its file's base name without the
/// `.csv` suffix.
pub open spec fn display_name_of(path: Seq<char>) -> Seq<char> {
    trim_csv(base_name(path))
}

/// The name a data set read from `path` is shown under.
pub fn display_name(path: &str) -> (r: String)
    ensures
        r@ == display_name_of(path@),
{
    let cs = chars_of(path);
    let n = cs.len();
    let mut start: usize = n;
    assert(cs@.take(n as int) =~= cs@);
    assert(cs@ + cs@.subrange(n as int, n as int) =~= cs@);
    while start > 0 && cs[start - 1] != '/'
        invariant
            start <= n == cs@.len(),
            base_name(cs@) == base_name(cs@.take(start as int)) + cs@.subrange(start as int, n as int),
        decreases start,
    {
        assert(cs@.take(start as int).drop_last() =~= cs@.take(start - 1));
        assert(cs@.subrange(start - 1, n as int) =~= seq![cs@[start - 1]] + cs@.subrange(start as int, n as int));
        start = start - 1;
    }
    let ghost base = cs@.subrange(start as int, n as int);
    assert(base_name(cs@) == base) by {
        if start > 0 {
            assert(cs@.take(start as int).last() == '/');
        }
        assert(Seq::<char>::empty() + base =~= base);
    }
    let mut end: usize = n;
    while end - start >= 4 && cs[end - 4] == '.' && cs[end - 3] == 'c' && cs[end - 2] == 's'
        && cs[end - 1] == 'v'
        invariant
            start <= end <= n == cs@.len(),
            trim_csv(base) == trim_csv(cs@.subrange(start as int, end as int)),
        decreases end,
    {
        let ghost cur = cs@.subrange(start as int, end as int);
        assert(cur.subrange(cur.len() - 4, cur.len() as int) =~= seq!['.', 'c', 's', 'v']);
        assert(cur.subrange(0, cur.len() - 4) =~= cs@.subrange(start as int, end - 4));
        end = end - 4;
    }
    let ghost cur = cs@.subrange(start as int, end as int);
    assert(!ends_in_csv(cur)) by {
        if ends_in_csv(cur) {
            let tail = cur.subrange(cur.len() - 4, cur.len() as int);
            assert(tail[0] == cs@[end - 4]);
            assert(tail[1] == cs@[end - 3]);
            assert(tail[2] == cs@[end - 2]);
            assert(tail[3] == cs@[end - 1]);
        }
    }
    let mut r = String::new();
    let mut i: usize = start;
    while i < end
        invariant
            start <= i <= end <= n == cs@.len(),
            r@ == cs@.subrange(start as int, i as int),
        decreases end - i,
    {
        push_char(&mut r, cs[i]);
        i = i + 1;
        assert(r@ =~= cs@.subrange(start as int, i as int));
    }
    r
}

/// The timing records read from one file, with the name it is shown under.
pub struct TimingData {
    pub name: String,
    pub records: Vec<TimingRecord>,
}

impl DeepView for TimingData {
    type V = (Seq<char>, Seq<(usize, Seq<char>)>);

    open spec fn deep_view(&self) -> (Seq<char>, Seq<(usize, Seq<char>)>) {
        (self.name@, self.records.deep_view())
    }
}

impl TimingData {
    /// The data set read from the table rows of the file at `path`.
    pub fn from_rows(path: &str, rows: &Vec<Vec<Cell>>) -> (r: TimingData)
        ensures
            r.name@ == display_name_of(path@),
            r.records.deep_view() == timing_of(rows.deep_view()),
    {
        TimingData { name: display_name(path), records: timing_records(rows) }
    }
}

/// A measured quantity of a performance-counter record.
#[derive(Clone, Copy, Debug, PartialEq, Eq, Structural)]
pub enum Metric {
    Instructions,
    Cycles,
    Ipc,
    L1Loads,
    L1Misses,
    MissRate,
}

/// A column of a performance-counter table.
#[derive(Clone, Copy, Debug, PartialEq, Eq, Structural)]
pub enum Column {
    Size,
    Value(Metric),
}

/// The metric held in column `k` (1 to 6) of a performance-counter table.
pub open spec fn metric_at(k: int) -> Metric {
    if k == 1 {
        Metric::Instructions
    } else if k == 2 {
        Metric::Cycles
    } else if k == 3 {
        Metric::Ipc
    } else if k == 4 {
        Metric::L1Loads
    } else if k == 5 {
        Metric::L1Misses
    } else {
        Metric::MissRate
    }
}

/// The column with index `k` (0 to 6).
pub open spec fn column_at(k: int) -> Column {
    if k == 0 {
        Column::Size
    } else {
        Column::Value(metric_at(k))
    }
}

/// One line of a performance-counter table; values as printed.
pub struct PerfRecord {
    pub n: usize,
    pub instructions: String,
    pub cycles: String,
    pub ipc: String,
    pub l1_loads: String,
    pub l1_misses: String,
    pub miss_rate: String,
}

pub ghost struct PerfRecordView {
    pub n: usize,
    pub values: Seq<Seq<char>>,
}

impl DeepView for PerfRecord {
    type V = PerfRecordView;

    open spec fn deep_view(&self) -> PerfRecordView {
        PerfRecordView {
            n: self.n,
            values: seq![
                self.instructions@,
                self.cycles@,
                self.ipc@,
                self.l1_loads@,
                self.l1_misses@,
                self.miss_rate@,
            ],
        }
    }
}

/// The position of `m` among a record's values.
pub open spec fn metric_index(m: Metric) -> int {
    match m {
        Metric::Instructions => 0,
        Metric::Cycles => 1,
        Metric::Ipc => 2,
        Metric::L1Loads => 3,
        Metric::L1Misses => 4,
        Metric::MissRate => 5,
    }
}

impl PerfRecord {
    /// The value of metric `m`.
    pub fn value(&self, m: Metric) -> (r: &String)
        ensures
            r@ == self.deep_view().values[metric_index(m)],
    {
        match m {
            Metric::Instructions => &self.instructions,
            Metric::Cycles => &self.cycles,
            Metric::Ipc => &self.ipc,
            Metric::L1Loads => &self.l1_loads,
            Metric::L1Misses => &self.l1_misses,
            Metric::MissRate => &self.miss_rate,
        }
    }
}

/// A field that should have been numeric, and its raw text.
pub struct FieldError {
    pub column: Column,
    pub text: String,
}

pub ghost struct FieldErrorView {
    pub column: Column,
    pub text: Seq<char>,
}

impl DeepView for FieldError {
    type V = FieldErrorView;

    open spec fn deep_view(&self) -> FieldErrorView {
        FieldErrorView { column: self.column, text: self.text@ }
    }
}

/// The name a column goes by in messages.
pub open spec fn column_label(c: Column) -> Seq<char> {
    match c {
        Column::Size => "N"@,
        Column::Value(Metric::Instructions) => "instructions"@,
        Column::Value(Metric::Cycles) => "cycles"@,
        Column::Value(Metric::Ipc) => "IPC"@,
        Column::Value(Metric::L1Loads) => "L1 loads"@,
        Column::Value(Metric::L1Misses) => "L1 misses"@,
        Column::Value(Metric::MissRate) => "miss rate"@,
    }
}

fn label(c: Column) -> (r: &'static str)
    ensures
        r@ == column_label(c),
{
    match c {
        Column::Size => "N",
        Column::Value(Metric::Instructions) => "instructions",
        Column::Value(Metric::Cycles) => "cycles",
        Column::Value(Metric::Ipc) => "IPC",
        Column::Value(Metric::L1Loads) => "L1 loads",
        Column::Value(Metric::L1Misses) => "L1 misses",
        Column::Value(Metric::MissRate) => "miss rate",
    }
}

impl FieldError {
    /// The message reported for this error: `Invalid <column> value: <text>`.
    pub fn message(&self) -> (r: String)
        ensures
            r@ == "Invalid "@ + column_label(self.column) + " value: "@ + self.text@,
    {
        let mut r = String::new();
        push_str(&mut r, "Invalid ");
        push_str(&mut r, label(self.column));
        push_str(&mut r, " value: ");
        push_str(&mut r, self.text.as_str());
        assert(r@ =~= "Invalid "@ + column_label(self.column) + " value: "@ + self.text@);
        r
    }
}

/// The number of fields a performance-counter row needs.
pub const PERF_FIELDS: usize = 7;

/// Whether field `k` of `row` reads as what its column holds.
pub open spec fn field_reads(row: Seq<CellView>, k: int) -> bool {
    if k == 0 {
        size_of(row[0].text) is Some
    } else {
        row[k].reading is Some
    }
}

/// The first field of `row` among the first `k` that does not read, if any.
pub open spec fn first_bad_field(row: Seq<CellView>, k: int) -> Option<int>
    decreases k,
{
    if k <= 0 {
        None
    } else {
        match first_bad_field(row, k - 1) {
            Some(j) => Some(j),
            None => if field_reads(row, k - 1) {
                None
            } else {
                Some(k - 1)
            },
        }
    }
}

/// What a row of at least seven fields gives under the strict policy: the
/// record, or the error on its first field that does not read.
pub open spec fn perf_row(row: Seq<CellView>) -> Result<PerfRecordView, FieldErrorView> {
    match first_bad_field(row, 7) {
        Some(j) => Err(FieldErrorView { column: column_at(j), text: row[j].text }),
        None => Ok(
            PerfRecordView {
                n: size_of(row[0].text)->0,
                values: seq![
                    row[1].reading->0,
                    row[2].reading->0,
                    row[3].reading->0,
                    row[4].reading->0,
                    row[5].reading->0,
                    row[6].reading->0,
                ],
            },
        ),
    }
}

/// The records of `rows` under the strict policy: rows of fewer than seven
/// fields are skipped, and the first row of seven or more that does not
/// read fails the whole table.
pub open spec fn perf_of(rows: Seq<Seq<CellView>>) -> Result<Seq<PerfRecordView>, FieldErrorView>
    decreases rows.len(),
{
    if rows.len() == 0 {
        Ok(seq![])
    } else {
        match perf_of(rows.drop_last()) {
            Err(e) => Err(e),
            Ok(done) => if rows.last().len() < 7 {
                Ok(done)
            } else {
                match perf_row(rows.last()) {
                    Ok(r) => Ok(done.push(r)),
                    Err(e) => Err(e),
                }
            },
        }
    }
}

fn value_at(row: &Vec<Cell>, k: usize) -> (r: Result<String, FieldError>)
    requires
        1 <= k < row@.len(),
    ensures
        field_reads(row.deep_view(), k as int) <==> r is Ok,
        r is Ok ==> r->Ok_0@ == row.deep_view()[k as int].reading->0,
        r is Err ==> r->Err_0.deep_view() == (FieldErrorView {
            column: column_at(k as int),
            text: row.deep_view()[k as int].text,
        }),
{
    assert(row[k as int].deep_view() == row.deep_view()[k as int]);
    let column = if k == 1 {
        Metric::Instructions
    } else if k == 2 {
        Metric::Cycles
    } else if k == 3 {
        Metric::Ipc
    } else if k == 4 {
        Metric::L1Loads
    } else if k == 5 {
        Metric::L1Misses
    } else {
        Metric::MissRate
    };
    match reading_of(&row[k]) {
        Some(v) => Ok(v),
        None => Err(FieldError { column: Column::Value(column), text: row[k].text.clone() }),
    }
}

fn perf_record(row: &Vec<Cell>) -> (r: Result<PerfRecord, FieldError>)
    requires
        row@.len() >= 7,
    ensures
        match (r, perf_row(row.deep_view())) {
            (Ok(a), Ok(b)) => a.deep_view() == b,
            (Err(a), Err(b)) => a.deep_view() == b,
            _ => false,
        },
{
    let ghost rv = row.deep_view();
    assert(row[0].deep_view() == rv[0]);
    assert(first_bad_field(rv, 0) is None);
    let n = match parse_size(row[0].text.as_str()) {
        Some(n) => n,
        None => {
            return Err(FieldError { column: Column::Size, text: row[0].text.clone() });
        },
    };
    assert(first_bad_field(rv, 1) is None);
    let instructions = value_at(row, 1)?;
    assert(first_bad_field(rv, 2) is None);
    let cycles = value_at(row, 2)?;
    assert(first_bad_field(rv, 3) is None);
    let ipc = value_at(row, 3)?;
    assert(first_bad_field(rv, 4) is None);
    let l1_loads = value_at(row, 4)?;
    assert(first_bad_field(rv, 5) is None);
    let l1_misses = value_at(row, 5)?;
    assert(first_bad_field(rv, 6) is None);
    let miss_rate = value_at(row, 6)?;
    assert(first_bad_field(rv, 7) is None);
    let r = PerfRecord { n, instructions, cycles, ipc, l1_loads, l1_misses, miss_rate };
    assert(r.deep_view().values =~= perf_row(rv)->Ok_0.values);
    Ok(r)
}

/// Reads performance-counter records from table rows: rows of fewer than
/// seven fields are skipped; in any other row every field must read, or the
/// read fails on the first that does not.
pub fn perf_records(rows: &Vec<Vec<Cell>>) -> (r: Result<Vec<PerfRecord>, FieldError>)
    ensures
        match (r, perf_of(rows.deep_view())) {
            (Ok(a), Ok(b)) => a.deep_view() == b,
            (Err(a), Err(b)) => a.deep_view() == b,
            _ => false,
        },
{
    let mut out: Vec<PerfRecord> = Vec::new();
    let mut i: usize = 0;
    assert(out.deep_view() =~= Seq::<PerfRecordView>::empty());
    assert(rows.deep_view().take(0).len() == 0);
    while i < rows.len()
        invariant
            i <= rows@.len(),
            perf_of(rows.deep_view().take(i as int)) == Ok::<_, FieldErrorView>(out.deep_view()),
        decreases rows@.len() - i,
    {
        let row = &rows[i];
        let ghost rv = rows.deep_view()[i as int];
        assert(rv == row.deep_view());
        assert(rows.deep_view().take(i + 1).drop_last() =~= rows.deep_view().take(i as int));
        assert(rows.deep_view().take(i + 1).last() == rv);
        if row.len() >= PERF_FIELDS {
            match perf_record(row) {
                Ok(rec) => {
                    let ghost before = out.deep_view();
                    out.push(rec);
                    assert(out.deep_view() =~= before.push(rec.deep_view()));
                },
                Err(e) => {
                    proof {
                        lemma_perf_error_stays(rows.deep_view(), i as int + 1);
                        assert(rows.deep_view().take(rows@.len() as int) =~= rows.deep_view());
                    }
                    return Err(e);
                },
            }
        }
        i = i + 1;
    }
    assert(rows.deep_view().take(i as int) =~= rows.deep_view());
    Ok(out)
}

/// Once a prefix of the rows fails, every longer prefix fails the same way.
proof fn lemma_perf_error_stays(rows: Seq<Seq<CellView>>, k: int)
    requires
        0 <= k <= rows.len(),
        perf_of(rows.take(k)) is Err,
    ensures
        perf_of(rows.take(rows.len() as int)) == perf_of(rows.take(k)),
    decreases rows.len() - k,
{
    if k < rows.len() {
        assert(rows.take(k + 1).drop_last() =~= rows.take(k));
        lemma_perf_error_stays(rows, k + 1);
    }
}

/// Reading rows one after another gives the records of each, in turn.
pub proof fn lemma_timing_of_concat(a: Seq<Seq<CellView>>, b: Seq<Seq<CellView>>)
    ensures
        timing_of(a + b) == timing_of(a) + timing_of(b),
    decreases b.len(),
{
    if b.len() == 0 {
        assert(a + b =~= a);
        assert(timing_of(a) + timing_of(b) =~= timing_of(a));
    } else {
        assert((a + b).drop_last() =~= a + b.drop_last());
        assert((a + b).last() == b.last());
        lemma_timing_of_concat(a, b.drop_last());
        match timing_row(b.last()) {
            Some(r) => {
                assert(timing_of(a) + timing_of(b) =~= (timing_of(a) + timing_of(b.drop_last())).push(r));
            },
            None => {},
        }
    }
}

/// When every row holds a size and a number, every row gives a record: the
/// i-th record holds the values read from the i-th row.
pub proof fn lemma_valid_timing_rows_kept(rows: Seq<Seq<CellView>>)
    requires
        forall|i: int| 0 <= i < rows.len() ==> #[trigger] timing_row(rows[i]) is Some,
    ensures
        timing_of(rows).len() == rows.len(),
        forall|i: int|
            0 <= i < rows.len() ==> #[trigger] timing_of(rows)[i] == (
                size_of(rows[i][0].text)->0,
                rows[i][1].reading->0,
            ),
    decreases rows.len(),
{
    if rows.len() > 0 {
        let init = rows.drop_last();
        assert forall|i: int| 0 <= i < init.len() implies #[trigger] timing_row(init[i]) is Some by {
            assert(init[i] == rows[i]);
        }
        lemma_valid_timing_rows_kept(init);
        assert(timing_row(rows[rows.len() - 1]) is Some);
        assert forall|i: int| 0 <= i < rows.len() implies #[trigger] timing_of(rows)[i] == (
            size_of(rows[i][0].text)->0,
            rows[i][1].reading->0,
        ) by {
            if i < rows.len() - 1 {
                assert(init[i] == rows[i]);
            }
        }
    }
}

/// A row of fewer than two fields gives no timing record, wherever it stands.
pub proof fn lemma_short_timing_row_skipped(
    a: Seq<Seq<CellView>>,
    row: Seq<CellView>,
    b: Seq<Seq<CellView>>,
)
    requires
        row.len() < 2,
    ensures
        timing_of(a + seq![row] + b) == timing_of(a + b),
{
    lemma_timing_of_concat(a + seq![row], b);
    lemma_timing_of_concat(a, seq![row]);
    lemma_timing_of_concat(a, b);
    assert(seq![row].drop_last() =~= Seq::<Seq<CellView>>::empty());
    assert(seq![row].last() == row);
    assert(timing_of(Seq::<Seq<CellView>>::empty()) =~= Seq::<(usize, Seq<char>)>::empty());
    assert(timing_of(seq![row]) =~= Seq::<(usize, Seq<char>)>::empty());
    assert(timing_of(a) + timing_of(seq![row]) =~= timing_of(a));
}

/// Reading rows one after another under the strict policy: the first
/// failure stops the read, else the records of each follow in turn.
pub proof fn lemma_perf_of_concat(a: Seq<Seq<CellView>>, b: Seq<Seq<CellView>>)
    ensures
        perf_of(a + b) == match perf_of(a) {
            Err(e) => Err(e),
            Ok(x) => match perf_of(b) {
                Ok(y) => Ok(x + y),
                Err(e) => Err(e),
            },
        },
    decreases b.len(),
{
    if b.len() == 0 {
        assert(a + b =~= a);
        if perf_of(a) is Ok {
            assert(perf_of(a)->Ok_0 + Seq::<PerfRecordView>::empty() =~= perf_of(a)->Ok_0);
        }
    } else {
        assert((a + b).drop_last() =~= a + b.drop_last());
        assert((a + b).last() == b.last());
        lemma_perf_of_concat(a, b.drop_last());
        if perf_of(a) is Ok && perf_of(b.drop_last()) is Ok && b.last().len() >= 7 {
            if perf_row(b.last()) is Ok {
                let x = perf_of(a)->Ok_0;
                let y = perf_of(b.drop_last())->Ok_0;
                assert(x + y.push(perf_row(b.last())->Ok_0) =~= (x + y).push(perf_row(b.last())->Ok_0));
            }
        }
    }
}

/// A row of fewer than seven fields is skipped under the strict policy too:
/// wherever it stands, the read gives what it gives without it.
pub proof fn lemma_short_perf_row_skipped(
    a: Seq<Seq<CellView>>,
    row: Seq<CellView>,
    b: Seq<Seq<CellView>>,
)
    requires
        row.len() < 7,
    ensures
        perf_of(a + seq![row] + b) == perf_of(a + b),
{
    lemma_perf_of_concat(a + seq![row], b);
    lemma_perf_of_concat(a, seq![row]);
    lemma_perf_of_concat(a, b);
    assert(seq![row].drop_last() =~= Seq::<Seq<CellView>>::empty());
    assert(seq![row].last() == row);
    assert(perf_of(Seq::<Seq<CellView>>::empty()) == Ok::<Seq<PerfRecordView>, FieldErrorView>(seq![]));
    assert(perf_of(seq![row]) == Ok::<Seq<PerfRecordView>, FieldErrorView>(seq![]));
    if perf_of(a) is Ok {
        assert(perf_of(a)->Ok_0 + Seq::<PerfRecordView>::empty() =~= perf_of(a)->Ok_0);
    }
}

proof fn lemma_first_bad_field_from(row: Seq<CellView>, j: int, m: int)
    requires
        0 <= j < m,
        !field_reads(row, j),
        forall|k: int| 0 <= k < j ==> field_reads(row, k),
    ensures
        first_bad_field(row, m) == Some(j),
    decreases m,
{
    if m > j + 1 {
        lemma_first_bad_field_from(row, j, m - 1);
    } else {
        lemma_no_bad_field_before(row, j);
    }
}

proof fn lemma_no_bad_field_before(row: Seq<CellView>, m: int)
    requires
        m >= 0,
        forall|k: int| 0 <= k < m ==> field_reads(row, k),
    ensures
        first_bad_field(row, m) is None,
    decreases m,
{
    if m > 0 {
        lemma_no_bad_field_before(row, m - 1);
    }
}

/// A field of a seven-field row that does not read fails the row, and the
/// error names the first such field's column and raw text.
pub proof fn lemma_bad_field_fails_row(row: Seq<CellView>, j: int)
    requires
        row.len() >= 7,
        0 <= j < 7,
        !field_reads(row, j),
    ensures
        perf_row(row) is Err,
        (forall|k: int| 0 <= k < j ==> field_reads(row, k)) ==> perf_row(row) == Err::<
            PerfRecordView,
            FieldErrorView,
        >(FieldErrorView { column: column_at(j), text: row[j].text }),
    decreases j,
{
    if forall|k: int| 0 <= k < j ==> field_reads(row, k) {
        lemma_first_bad_field_from(row, j, 7);
    } else {
        let k0 = choose|k: int| 0 <= k < j && !field_reads(row, k);
        lemma_bad_field_fails_row(row, k0);
    }
}

/// A row of seven or more fields that does not read fails the whole strict
/// read; when no earlier row failed, with that row's error.
pub proof fn lemma_bad_row_fails_read(rows: Seq<Seq<CellView>>, i: int)
    requires
        0 <= i < rows.len(),
        rows[i].len() >= 7,
        perf_row(rows[i]) is Err,
    ensures
        perf_of(rows) is Err,
        (forall|k: int|
            0 <= k < i ==> rows[k].len() < 7 || #[trigger] perf_row(rows[k]) is Ok) ==> perf_of(rows)
            == Err::<Seq<PerfRecordView>, FieldErrorView>(perf_row(rows[i])->Err_0),
{
    assert(rows =~= rows.take(i) + (seq![rows[i]] + rows.skip(i + 1)));
    lemma_perf_of_concat(rows.take(i), seq![rows[i]] + rows.skip(i + 1));
    lemma_perf_of_concat(seq![rows[i]], rows.skip(i + 1));
    assert(seq![rows[i]].drop_last() =~= Seq::<Seq<CellView>>::empty());
    assert(seq![rows[i]].last() == rows[i]);
    assert(perf_of(Seq::<Seq<CellView>>::empty()) == Ok::<Seq<PerfRecordView>, FieldErrorView>(seq![]));
    assert(perf_of(seq![rows[i]]) == Err::<Seq<PerfRecordView>, FieldErrorView>(
        perf_row(rows[i])->Err_0,
    ));
    if forall|k: int| 0 <= k < i ==> rows[k].len() < 7 || #[trigger] perf_row(rows[k]) is Ok {
        lemma_perf_prefix_ok(rows, i);
    }
}

proof fn lemma_perf_prefix_ok(rows: Seq<Seq<CellView>>, i: int)
    requires
        0 <= i <= rows.len(),
        forall|k: int| 0 <= k < i ==> rows[k].len() < 7 || #[trigger] perf_row(rows[k]) is Ok,
    ensures
        perf_of(rows.take(i)) is Ok,
    decreases i,
{
    if i > 0 {
        lemma_perf_prefix_ok(rows, i - 1);
        assert(rows.take(i).drop_last() =~= rows.take(i - 1));
        assert(rows.take(i).last() == rows[i - 1]);
        assert(rows[i - 1].len() < 7 || perf_row(rows[i - 1]) is Ok);
    }
}

} // verus!
