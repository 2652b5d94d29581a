//! The two reports: one chart of run times, and five charts of
//! performance counters, each over the same three algorithm variants.
use vstd::prelude::*;
use crate::records::{Metric, PerfRecord, PerfRecordView, TimingData};
use crate::render::{
    Chart, ChartView, Plot, PlotView, chart_text, lemma_chart_series_block, options_text, plot_text,
    plots_text, push_chart,
};
use crate::series::{perf_series, project, timing_series};
use crate::text::push_str;

verus! {

/// The color of the `i`-th series of the timing chart.
pub open spec fn timing_color(i: int) -> Seq<char> {
    if i % 3 == 0 {
        "blue"@
    } else if i % 3 == 1 {
        "red"@
    } else {
        "green!50!black"@
    }
}

/// The marker of the `i`-th series of the timing chart.
pub open spec fn timing_marker(i: int) -> Seq<char> {
    if i % 3 == 0 {
        "*"@
    } else if i % 3 == 1 {
        "square*"@
    } else {
        "triangle*"@
    }
}

/// The timing chart of the named data sets, one series each, in order.
pub open spec fn timing_chart_of(data: Seq<(Seq<char>, Seq<(usize, Seq<char>)>)>) -> ChartView {
    ChartView {
        title: None,
        y_label: "Tiempo (segundos)"@,
        log_scale: false,
        mark_size: None,
        plots: Seq::new(
            data.len(),
            |i: int|
                PlotView {
                    points: data[i].1,
                    color: timing_color(i),
                    marker: timing_marker(i),
                    legend: data[i].0,
                },
        ),
    }
}

fn timing_style(i: usize) -> (r: (&'static str, &'static str))
    ensures
        r.0@ == timing_color(i as int),
        r.1@ == timing_marker(i as int),
{
    let k = i % 3;
    if k == 0 {
        ("blue", "*")
    } else if k == 1 {
        ("red", "square*")
    } else {
        ("green!50!black", "triangle*")
    }
}

/// The timing chart of `data`: run time against size, one series per data
/// set, legend entries by data set name.
pub fn timing_chart(data: &Vec<TimingData>) -> (r: Chart)
    ensures
        r.deep_view() == timing_chart_of(data.deep_view()),
{
    let mut plots: Vec<Plot> = Vec::new();
    let ghost dv = data.deep_view();
    let mut i: usize = 0;
    while i < data.len()
        invariant
            i <= data@.len(),
            dv == data.deep_view(),
            plots.deep_view() == timing_chart_of(dv.take(i as int)).plots,
        decreases data@.len() - i,
    {
        let d = &data[i];
        assert(dv[i as int] == d.deep_view());
        let (color, marker) = timing_style(i);
        let p = Plot {
            points: timing_series(d),
            color: color.to_owned(),
            marker: marker.to_owned(),
            legend: d.name.clone(),
        };
        let ghost before = plots.deep_view();
        plots.push(p);
        assert(plots.deep_view() =~= before.push(p.deep_view()));
        i = i + 1;
        assert(plots.deep_view() =~= timing_chart_of(dv.take(i as int)).plots);
    }
    assert(dv.take(i as int) =~= dv);
    let r = Chart {
        title: None,
        y_label: "Tiempo (segundos)".to_owned(),
        log_scale: false,
        mark_size: None,
        plots,
    };
    assert(r.deep_view().plots =~= timing_chart_of(dv).plots);
    r
}

/// The markup of the timing chart of `data`.
pub fn timing_report(data: &Vec<TimingData>) -> (r: String)
    ensures
        r@ == chart_text(timing_chart_of(data.deep_view())),
{
    let c = timing_chart(data);
    let mut r = String::new();
    push_chart(&mut r, &c);
    assert(r@ =~= chart_text(timing_chart_of(data.deep_view())));
    r
}

/// The number of charts in the performance-counter report.
pub const PERF_CHARTS: usize = 5;

/// The metric of the `k`-th chart of the performance-counter report.
pub open spec fn chart_metric(k: int) -> Metric {
    if k == 0 {
        Metric::Instructions
    } else if k == 1 {
        Metric::Ipc
    } else if k == 2 {
        Metric::L1Loads
    } else if k == 3 {
        Metric::L1Misses
    } else {
        Metric::MissRate
    }
}

/// The title of the chart of metric `m`.
pub open spec fn perf_title(m: Metric) -> Seq<char> {
    match m {
        Metric::Instructions => "Instrucciones ejecutadas vs Tamaño de matriz"@,
        Metric::Cycles => "Ciclos vs Tamaño de matriz"@,
        Metric::Ipc => "IPC (Instructions Per Cycle) vs Tamaño de matriz"@,
        Metric::L1Loads => "L1 Data Cache Loads vs Tamaño de matriz"@,
        Metric::L1Misses => "L1 Data Cache Misses vs Tamaño de matriz"@,
        Metric::MissRate => "L1 Miss Rate vs Tamaño de matriz"@,
    }
}

/// The value-axis label of the chart of metric `m`.
pub open spec fn perf_y_label(m: Metric) -> Seq<char> {
    match m {
        Metric::Instructions => "Instrucciones"@,
        Metric::Cycles => "Ciclos"@,
        Metric::Ipc => "IPC"@,
        Metric::L1Loads => "L1 Loads"@,
        Metric::L1Misses => "L1 Misses"@,
        Metric::MissRate => "Miss Rate (\\%)"@,
    }
}

fn perf_labels(m: Metric) -> (r: (&'static str, &'static str))
    ensures
        r.0@ == perf_title(m),
        r.1@ == perf_y_label(m),
{
    match m {
        Metric::Instructions => ("Instrucciones ejecutadas vs Tamaño de matriz", "Instrucciones"),
        Metric::Cycles => ("Ciclos vs Tamaño de matriz", "Ciclos"),
        Metric::Ipc => ("IPC (Instructions Per Cycle) vs Tamaño de matriz", "IPC"),
        Metric::L1Loads => ("L1 Data Cache Loads vs Tamaño de matriz", "L1 Loads"),
        Metric::L1Misses => ("L1 Data Cache Misses vs Tamaño de matriz", "L1 Misses"),
        Metric::MissRate => ("L1 Miss Rate vs Tamaño de matriz", "Miss Rate (\\%)"),
    }
}

/// Color, marker and legend entry of the `i`-th variant (0 to 2).
pub open spec fn variant_style(i: int) -> (Seq<char>, Seq<char>, Seq<char>) {
    if i == 0 {
        ("blue"@, "square*"@, "mm (Básico)"@)
    } else if i == 1 {
        ("red"@, "triangle*"@, "mmt (Transpuesto)"@)
    } else {
        ("green!50!black"@, "diamond*"@, "mms (Blocking)"@)
    }
}

fn variant_plot(i: usize, points: Vec<crate::series::Point>) -> (r: Plot)
    requires
        i < 3,
    ensures
        r.deep_view() == (PlotView {
            points: points.deep_view(),
            color: variant_style(i as int).0,
            marker: variant_style(i as int).1,
            legend: variant_style(i as int).2,
        }),
{
    let (color, marker, legend) = if i == 0 {
        ("blue", "square*", "mm (Básico)")
    } else if i == 1 {
        ("red", "triangle*", "mmt (Transpuesto)")
    } else {
        ("green!50!black", "diamond*", "mms (Blocking)")
    };
    Plot { points, color: color.to_owned(), marker: marker.to_owned(), legend: legend.to_owned() }
}

/// The chart of metric `m` over the three variants' records.
pub open spec fn perf_chart_of(
    m: Metric,
    mm: Seq<PerfRecordView>,
    mmt: Seq<PerfRecordView>,
    mms: Seq<PerfRecordView>,
) -> ChartView {
    ChartView {
        title: Some(perf_title(m)),
        y_label: perf_y_label(m),
        log_scale: m == Metric::L1Misses,
        mark_size: Some("3pt"@),
        plots: seq![
            PlotView {
                points: project(mm, m),
                color: variant_style(0).0,
                marker: variant_style(0).1,
                legend: variant_style(0).2,
            },
            PlotView {
                points: project(mmt, m),
                color: variant_style(1).0,
                marker: variant_style(1).1,
                legend: variant_style(1).2,
            },
            PlotView {
                points: project(mms, m),
                color: variant_style(2).0,
                marker: variant_style(2).1,
                legend: variant_style(2).2,
            },
        ],
    }
}

/// The chart of metric `m` over the records of the three variants.
pub fn perf_chart(
    m: Metric,
    mm: &Vec<PerfRecord>,
    mmt: &Vec<PerfRecord>,
    mms: &Vec<PerfRecord>,
) -> (r: Chart)
    ensures
        r.deep_view() == perf_chart_of(m, mm.deep_view(), mmt.deep_view(), mms.deep_view()),
{
    let (title, y_label) = perf_labels(m);
    let mut plots: Vec<Plot> = Vec::new();
    plots.push(variant_plot(0, perf_series(mm, m)));
    plots.push(variant_plot(1, perf_series(mmt, m)));
    plots.push(variant_plot(2, perf_series(mms, m)));
    let log_scale = match m {
        Metric::L1Misses => true,
        _ => false,
    };
    let r = Chart {
        title: Some(title.to_owned()),
        y_label: y_label.to_owned(),
        log_scale,
        mark_size: Some("3pt".to_owned()),
        plots,
    };
    assert(r.deep_view().plots =~= perf_chart_of(
        m,
        mm.deep_view(),
        mmt.deep_view(),
        mms.deep_view(),
    ).plots);
    r
}

/// The comment lines that open the performance-counter report.
pub open spec fn perf_preamble() -> Seq<char> {
    "% Gráficos generados automáticamente por benchplot\n"@
        + "% Requiere: \\usepackage{tikz} y \\usepackage{pgfplots}\n"@
        + "% \\pgfplotsset{compat=1.18}\n"@ + "\n"@
}

/// The first `k` charts of the performance-counter report, each followed by
/// a blank line.
pub open spec fn perf_charts_text(
    k: int,
    mm: Seq<PerfRecordView>,
    mmt: Seq<PerfRecordView>,
    mms: Seq<PerfRecordView>,
) -> Seq<char>
    decreases k,
{
    if k <= 0 {
        seq![]
    } else {
        perf_charts_text(k - 1, mm, mmt, mms) + chart_text(
            perf_chart_of(chart_metric(k - 1), mm, mmt, mms),
        ) + "\n"@
    }
}

/// The performance-counter report: the preamble, then the charts of
/// instructions, IPC, L1 loads, L1 misses and L1 miss rate.
pub open spec fn perf_report_text(
    mm: Seq<PerfRecordView>,
    mmt: Seq<PerfRecordView>,
    mms: Seq<PerfRecordView>,
) -> Seq<char> {
    perf_preamble() + perf_charts_text(PERF_CHARTS as int, mm, mmt, mms)
}

fn push_perf_chart(
    out: &mut String,
    m: Metric,
    mm: &Vec<PerfRecord>,
    mmt: &Vec<PerfRecord>,
    mms: &Vec<PerfRecord>,
)
    ensures
        final(out)@ == old(out)@ + (chart_text(
            perf_chart_of(m, mm.deep_view(), mmt.deep_view(), mms.deep_view()),
        ) + "\n"@),
{
    let c = perf_chart(m, mm, mmt, mms);
    let ghost before = out@;
    push_chart(out, &c);
    push_str(out, "\n");
    assert(out@ =~= before + (chart_text(c.deep_view()) + "\n"@));
}

/// The markup of the performance-counter report over the three variants.
pub fn perf_report(mm: &Vec<PerfRecord>, mmt: &Vec<PerfRecord>, mms: &Vec<PerfRecord>) -> (r:
    String)
    ensures
        r@ == perf_report_text(mm.deep_view(), mmt.deep_view(), mms.deep_view()),
{
    let mut r = String::new();
    push_str(&mut r, "% Gráficos generados automáticamente por benchplot\n");
    push_str(&mut r, "% Requiere: \\usepackage{tikz} y \\usepackage{pgfplots}\n");
    push_str(&mut r, "% \\pgfplotsset{compat=1.18}\n");
    push_str(&mut r, "\n");
    assert(r@ =~= perf_preamble());
    let metrics = [Metric::Instructions, Metric::Ipc, Metric::L1Loads, Metric::L1Misses, Metric::MissRate];
    let mut k: usize = 0;
    while k < PERF_CHARTS
        invariant
            k <= PERF_CHARTS,
            metrics@ == seq![Metric::Instructions, Metric::Ipc, Metric::L1Loads, Metric::L1Misses, Metric::MissRate],
            r@ == perf_preamble() + perf_charts_text(k as int, mm.deep_view(), mmt.deep_view(), mms.deep_view()),
        decreases PERF_CHARTS - k,
    {
        let m = metrics[k];
        assert(m == chart_metric(k as int));
        let ghost before = r@;
        push_perf_chart(&mut r, m, mm, mmt, mms);
        let ghost done = perf_charts_text(k as int, mm.deep_view(), mmt.deep_view(), mms.deep_view());
        let ghost piece = chart_text(perf_chart_of(m, mm.deep_view(), mmt.deep_view(), mms.deep_view())) + "\n"@;
        assert(perf_charts_text(k + 1, mm.deep_view(), mmt.deep_view(), mms.deep_view()) == done + piece);
        assert(r@ =~= perf_preamble() + (done + piece));
        k = k + 1;
    }
    r
}

/// Of the report's charts, only the one of L1 misses, the fourth, has a
/// logarithmic value axis.
pub proof fn lemma_only_misses_chart_is_logarithmic(
    k: int,
    mm: Seq<PerfRecordView>,
    mmt: Seq<PerfRecordView>,
    mms: Seq<PerfRecordView>,
)
    requires
        0 <= k < PERF_CHARTS,
    ensures
        perf_chart_of(chart_metric(k), mm, mmt, mms).log_scale <==> k == 3,
{
}

/// Which of the two reports a run makes.
#[derive(Clone, Copy, Debug, PartialEq, Eq, Structural)]
pub enum Report {
    Timing,
    Perf,
}

/// The usage line of a run of `report` started as `program`.
pub open spec fn usage_text(report: Report, program: Seq<char>) -> Seq<char> {
    "Uso: "@ + program + match report {
        Report::Timing => " <mmNvsT.csv> <mmtNvsT.csv> <mmsNvsT.csv>"@,
        Report::Perf => " <mm-exp3.csv> <mmt-exp3.csv> <mms-exp3.csv>"@,
    }
}

/// The name a run was started as: the first argument, if there is one.
pub open spec fn program_name(args: Seq<Seq<char>>) -> Seq<char> {
    if args.len() > 0 {
        args[0]
    } else {
        seq![]
    }
}

/// The three input paths of a run, the arguments after the program name.
/// With any other number of arguments, the usage line.
pub fn input_paths(args: &Vec<String>, report: Report) -> (r: Result<Vec<String>, String>)
    ensures
        r is Ok <==> args@.len() == 4,
        r is Ok ==> r->Ok_0.deep_view() == args.deep_view().subrange(1, 4),
        r is Err ==> r->Err_0@ == usage_text(report, program_name(args.deep_view())),
{
    if args.len() == 4 {
        let mut paths: Vec<String> = Vec::new();
        paths.push(args[1].clone());
        paths.push(args[2].clone());
        paths.push(args[3].clone());
        assert(paths.deep_view() =~= args.deep_view().subrange(1, 4));
        Ok(paths)
    } else {
        let mut r = String::new();
        push_str(&mut r, "Uso: ");
        if args.len() > 0 {
            push_str(&mut r, args[0].as_str());
        }
        match report {
            Report::Timing => push_str(&mut r, " <mmNvsT.csv> <mmtNvsT.csv> <mmsNvsT.csv>"),
            Report::Perf => push_str(&mut r, " <mm-exp3.csv> <mmt-exp3.csv> <mms-exp3.csv>"),
        }
        assert(r@ =~= usage_text(report, program_name(args.deep_view())));
        Err(r)
    }
}

/// In the timing chart, the `i`-th data set gives the `i`-th series block:
/// its records as coordinate lines, its name as legend entry, between the
/// blocks of the data sets before and after it.
pub proof fn lemma_timing_chart_series(data: Seq<(Seq<char>, Seq<(usize, Seq<char>)>)>, i: int)
    requires
        0 <= i < data.len(),
    ensures
        timing_chart_of(data).plots[i] == (PlotView {
            points: data[i].1,
            color: timing_color(i),
            marker: timing_marker(i),
            legend: data[i].0,
        }),
        chart_text(timing_chart_of(data)) == options_text(timing_chart_of(data)) + plots_text(
            timing_chart_of(data).plots.take(i),
            None,
        ) + plot_text(timing_chart_of(data).plots[i], None) + plots_text(
            timing_chart_of(data).plots.skip(i + 1),
            None,
        ) + "    \\end{axis}\n"@ + "\\end{tikzpicture}\n"@,
{
    lemma_chart_series_block(timing_chart_of(data), i);
}

/// In the chart of metric `m`, the `j`-th variant gives the `j`-th series
/// block: its records projected on `m` as coordinate lines, its fixed legend
/// entry, between the blocks of the other variants.
pub proof fn lemma_perf_chart_series(
    m: Metric,
    mm: Seq<PerfRecordView>,
    mmt: Seq<PerfRecordView>,
    mms: Seq<PerfRecordView>,
    j: int,
)
    requires
        0 <= j < 3,
    ensures
        perf_chart_of(m, mm, mmt, mms).plots.len() == 3,
        perf_chart_of(m, mm, mmt, mms).plots[j] == (PlotView {
            points: project(seq![mm, mmt, mms][j], m),
            color: variant_style(j).0,
            marker: variant_style(j).1,
            legend: variant_style(j).2,
        }),
        chart_text(perf_chart_of(m, mm, mmt, mms)) == options_text(perf_chart_of(m, mm, mmt, mms))
            + plots_text(perf_chart_of(m, mm, mmt, mms).plots.take(j), Some("3pt"@)) + plot_text(
            perf_chart_of(m, mm, mmt, mms).plots[j],
            Some("3pt"@),
        ) + plots_text(perf_chart_of(m, mm, mmt, mms).plots.skip(j + 1), Some("3pt"@))
            + "    \\end{axis}\n"@ + "\\end{tikzpicture}\n"@,
{
    lemma_chart_series_block(perf_chart_of(m, mm, mmt, mms), j);
}

} // verus!
