//! Rendering a chart description as pgfplots markup.
use vstd::prelude::*;
use crate::series::Point;
use crate::text::{decimal, digit_char, escaped, push_decimal, push_escaped, push_str};

verus! {

/// One styled data series of a chart.
pub struct Plot {
    pub points: Vec<Point>,
    pub color: String,
    pub marker: String,
    pub legend: String,
}

pub ghost struct PlotView {
    pub points: Seq<(usize, Seq<char>)>,
    pub color: Seq<char>,
    pub marker: Seq<char>,
    pub legend: Seq<char>,
}

impl DeepView for Plot {
    type V = PlotView;

    open spec fn deep_view(&self) -> PlotView {
        PlotView {
            points: self.points.deep_view(),
            color: self.color@,
            marker: self.marker@,
            legend: self.legend@,
        }
    }
}

/// Everything one chart block shows.
pub struct Chart {
    pub title: Option<String>,
    pub y_label: String,
    pub log_scale: bool,
    pub mark_size: Option<String>,
    pub plots: Vec<Plot>,
}

pub ghost struct ChartView {
    pub title: Option<Seq<char>>,
    pub y_label: Seq<char>,
    pub log_scale: bool,
    pub mark_size: Option<Seq<char>>,
    pub plots: Seq<PlotView>,
}

pub open spec fn opt_view(o: Option<String>) -> Option<Seq<char>> {
    match o {
        Some(s) => Some(s@),
        None => None,
    }
}

impl DeepView for Chart {
    type V = ChartView;

    open spec fn deep_view(&self) -> ChartView {
        ChartView {
            title: opt_view(self.title),
            y_label: self.y_label@,
            log_scale: self.log_scale,
            mark_size: opt_view(self.mark_size),
            plots: self.plots.deep_view(),
        }
    }
}

/// The coordinate line of one point.
pub open spec fn point_text(p: (usize, Seq<char>)) -> Seq<char> {
    "            ("@ + decimal(p.0 as nat) + ", "@ + p.1 + ")\n"@
}

/// The coordinate lines of `points`, in order.
pub open spec fn points_text(points: Seq<(usize, Seq<char>)>) -> Seq<char>
    decreases points.len(),
{
    if points.len() == 0 {
        seq![]
    } else {
        points_text(points.drop_last()) + point_text(points.last())
    }
}

/// The marker size option line, when a size is set.
pub open spec fn mark_size_text(mark_size: Option<Seq<char>>) -> Seq<char> {
    match mark_size {
        Some(m) => "            mark size="@ + m + ",\n"@,
        None => seq![],
    }
}

/// The opening of a series block: its style options.
pub open spec fn style_text(p: PlotView, mark_size: Option<Seq<char>>) -> Seq<char> {
    "        \\addplot[\n"@ + "            color="@ + p.color + ",\n"@ + "            mark="@ + p.marker
        + ",\n"@ + "            thick,\n"@ + mark_size_text(mark_size) + "        ]\n"@
}

/// The legend entry of a series labelled `legend`.
pub open spec fn legend_text(legend: Seq<char>) -> Seq<char> {
    "        \\addlegendentry{"@ + escaped(legend) + "}\n"@
}

/// The block of one series: its style, its points and its legend entry.
#[verifier::opaque]
pub open spec fn plot_text(p: PlotView, mark_size: Option<Seq<char>>) -> Seq<char> {
    style_text(p, mark_size) + "        coordinates {\n"@ + points_text(p.points) + "        };\n"@
        + legend_text(p.legend)
}

/// The blocks of `plots`, in order.
pub open spec fn plots_text(plots: Seq<PlotView>, mark_size: Option<Seq<char>>) -> Seq<char>
    decreases plots.len(),
{
    if plots.len() == 0 {
        seq![]
    } else {
        plots_text(plots.drop_last(), mark_size) + plot_text(plots.last(), mark_size)
    }
}

/// The title option line, when a title is set.
pub open spec fn title_text(title: Option<Seq<char>>) -> Seq<char> {
    match title {
        Some(t) => "        title={"@ + escaped(t) + "},\n"@,
        None => seq![],
    }
}

/// The opening of a chart, up to the axis options that depend on the scale.
pub open spec fn axis_head(c: ChartView) -> Seq<char> {
    "\\begin{tikzpicture}\n"@ + "    \\begin{axis}[\n"@ + title_text(c.title)
        + "        xlabel={Tamaño de matriz (N)},\n"@ + "        ylabel={"@ + escaped(c.y_label)
        + "},\n"@ + "        legend pos=north west,\n"@ + "        grid=major,\n"@
        + "        width=12cm,\n"@ + "        height=8cm,\n"@
}

/// The axis option line of a logarithmic value axis.
pub open spec fn log_line() -> Seq<char> {
    "        ymode=log,\n"@
}

/// The rest of a chart: the end of the options, the series, the closing.
pub open spec fn axis_body(c: ChartView) -> Seq<char> {
    "    ]\n"@ + plots_text(c.plots, c.mark_size) + "    \\end{axis}\n"@ + "\\end{tikzpicture}\n"@
}

/// The markup of chart `c`.
pub open spec fn chart_text(c: ChartView) -> Seq<char> {
    axis_head(c) + (if c.log_scale {
        log_line()
    } else {
        seq![]
    }) + axis_body(c)
}

fn push_points(out: &mut String, points: &Vec<Point>)
    ensures
        final(out)@ == old(out)@ + points_text(points.deep_view()),
{
    let mut i: usize = 0;
    while i < points.len()
        invariant
            i <= points@.len(),
            out@ == old(out)@ + points_text(points.deep_view().take(i as int)),
        decreases points@.len() - i,
    {
        let p = &points[i];
        let ghost pv = points.deep_view();
        assert(pv.take(i + 1).drop_last() =~= pv.take(i as int));
        assert(pv.take(i + 1).last() == p.deep_view());
        push_str(out, "            (");
        push_decimal(out, p.size);
        push_str(out, ", ");
        push_str(out, p.value.as_str());
        push_str(out, ")\n");
        i = i + 1;
        assert(out@ =~= old(out)@ + points_text(pv.take(i as int)));
    }
    assert(points.deep_view().take(i as int) =~= points.deep_view());
}

fn push_plot(out: &mut String, p: &Plot, mark_size: &Option<String>)
    ensures
        final(out)@ == old(out)@ + plot_text(p.deep_view(), opt_view(*mark_size)),
{
    push_str(out, "        \\addplot[\n");
    push_str(out, "            color=");
    push_str(out, p.color.as_str());
    push_str(out, ",\n");
    push_str(out, "            mark=");
    push_str(out, p.marker.as_str());
    push_str(out, ",\n");
    push_str(out, "            thick,\n");
    match mark_size {
        Some(m) => {
            push_str(out, "            mark size=");
            push_str(out, m.as_str());
            push_str(out, ",\n");
        },
        None => {},
    }
    push_str(out, "        ]\n");
    push_str(out, "        coordinates {\n");
    push_points(out, &p.points);
    push_str(out, "        };\n");
    push_str(out, "        \\addlegendentry{");
    push_escaped(out, p.legend.as_str());
    push_str(out, "}\n");
    reveal(plot_text);
    assert(out@ =~= old(out)@ + plot_text(p.deep_view(), opt_view(*mark_size)));
}

fn push_axis_head(out: &mut String, c: &Chart)
    ensures
        final(out)@ == old(out)@ + axis_head(c.deep_view()),
{
    push_str(out, "\\begin{tikzpicture}\n");
    push_str(out, "    \\begin{axis}[\n");
    match &c.title {
        Some(t) => {
            push_str(out, "        title={");
            push_escaped(out, t.as_str());
            push_str(out, "},\n");
        },
        None => {},
    }
    push_str(out, "        xlabel={Tamaño de matriz (N)},\n");
    push_str(out, "        ylabel={");
    push_escaped(out, c.y_label.as_str());
    push_str(out, "},\n");
    push_str(out, "        legend pos=north west,\n");
    push_str(out, "        grid=major,\n");
    push_str(out, "        width=12cm,\n");
    push_str(out, "        height=8cm,\n");
    assert(out@ =~= old(out)@ + axis_head(c.deep_view()));
}

fn push_plots(out: &mut String, plots: &Vec<Plot>, mark_size: &Option<String>)
    ensures
        final(out)@ == old(out)@ + plots_text(plots.deep_view(), opt_view(*mark_size)),
{
    let ghost pv = plots.deep_view();
    let ghost ms = opt_view(*mark_size);
    let mut i: usize = 0;
    while i < plots.len()
        invariant
            i <= plots@.len(),
            pv == plots.deep_view(),
            ms == opt_view(*mark_size),
            out@ == old(out)@ + plots_text(pv.take(i as int), ms),
        decreases plots@.len() - i,
    {
        let p = &plots[i];
        assert(pv.take(i + 1).drop_last() =~= pv.take(i as int));
        assert(pv.take(i + 1).last() == p.deep_view());
        push_plot(out, p, mark_size);
        i = i + 1;
        assert(out@ =~= old(out)@ + plots_text(pv.take(i as int), ms));
    }
    assert(pv.take(i as int) =~= pv);
}

/// Appends the markup of chart `c` to `out`.
pub fn push_chart(out: &mut String, c: &Chart)
    ensures
        final(out)@ == old(out)@ + chart_text(c.deep_view()),
{
    let ghost cv = c.deep_view();
    let ghost start = out@;
    push_axis_head(out, c);
    let ghost head = out@;
    if c.log_scale {
        push_str(out, "        ymode=log,\n");
    }
    let ghost scaled = out@;
    push_str(out, "    ]\n");
    push_plots(out, &c.plots, &c.mark_size);
    push_str(out, "    \\end{axis}\n");
    push_str(out, "\\end{tikzpicture}\n");
    assert(out@ =~= scaled + axis_body(cv));
    assert(scaled =~= start + axis_head(cv) + (if cv.log_scale {
        log_line()
    } else {
        seq![]
    }));
    assert(out@ =~= start + chart_text(cv));
}

/// The markup of chart `c`.
pub fn render(c: &Chart) -> (r: String)
    ensures
        r@ == chart_text(c.deep_view()),
{
    let mut r = String::new();
    push_chart(&mut r, c);
    assert(r@ =~= chart_text(c.deep_view()));
    r
}

/// `c` with the logarithmic scale set to `on`.
pub open spec fn with_log_scale(c: ChartView, on: bool) -> ChartView {
    ChartView { log_scale: on, ..c }
}

/// The markup is a function of the chart alone: equal charts render to
/// equal text.
pub proof fn lemma_render_deterministic(a: ChartView, b: ChartView)
    requires
        a == b,
    ensures
        chart_text(a) == chart_text(b),
{
}

/// Setting the logarithmic scale adds the one `ymode=log` option line, right
/// after the other axis options, and changes nothing else.
pub proof fn lemma_log_scale_adds_one_line(c: ChartView)
    ensures
        chart_text(with_log_scale(c, true)) == chart_text(with_log_scale(c, false)).take(
            axis_head(c).len() as int,
        ) + log_line() + chart_text(with_log_scale(c, false)).skip(axis_head(c).len() as int),
{
    let on = with_log_scale(c, true);
    let off = with_log_scale(c, false);
    assert(axis_head(on) == axis_head(c));
    assert(axis_head(off) == axis_head(c));
    assert(axis_body(on) == axis_body(c));
    assert(axis_body(off) == axis_body(c));
    let t = chart_text(off);
    assert(t =~= axis_head(c) + axis_body(c));
    assert(t.take(axis_head(c).len() as int) =~= axis_head(c));
    assert(t.skip(axis_head(c).len() as int) =~= axis_body(c));
}

/// The coordinate lines of two runs of points are those of the first, then
/// those of the second.
pub proof fn lemma_points_text_concat(a: Seq<(usize, Seq<char>)>, b: Seq<(usize, Seq<char>)>)
    ensures
        points_text(a + b) == points_text(a) + points_text(b),
    decreases b.len(),
{
    if b.len() == 0 {
        assert(a + b =~= a);
        assert(points_text(a) + points_text(b) =~= points_text(a));
    } else {
        assert((a + b).drop_last() =~= a + b.drop_last());
        assert((a + b).last() == b.last());
        lemma_points_text_concat(a, b.drop_last());
        assert(points_text(a) + points_text(b) =~= points_text(a) + points_text(b.drop_last())
            + point_text(b.last()));
    }
}

/// The coordinate lines hold one line per point, in the points' order: the
/// `j`-th point's line stands between the lines of the points before it
/// and those of the points after it.
pub proof fn lemma_points_text_split(points: Seq<(usize, Seq<char>)>, j: int)
    requires
        0 <= j < points.len(),
    ensures
        points_text(points) == points_text(points.take(j)) + point_text(points[j]) + points_text(
            points.skip(j + 1),
        ),
{
    let one = seq![points[j]];
    assert(points =~= points.take(j) + one + points.skip(j + 1));
    lemma_points_text_concat(points.take(j) + one, points.skip(j + 1));
    lemma_points_text_concat(points.take(j), one);
    assert(one.drop_last() =~= Seq::<(usize, Seq<char>)>::empty());
    assert(one.last() == points[j]);
    assert(points_text(Seq::<(usize, Seq<char>)>::empty()) =~= Seq::<char>::empty());
    assert(points_text(one) =~= point_text(points[j]));
}

/// The blocks of two runs of series are those of the first, then those of
/// the second.
pub proof fn lemma_plots_text_concat(
    a: Seq<PlotView>,
    b: Seq<PlotView>,
    mark_size: Option<Seq<char>>,
)
    ensures
        plots_text(a + b, mark_size) == plots_text(a, mark_size) + plots_text(b, mark_size),
    decreases b.len(),
{
    if b.len() == 0 {
        assert(a + b =~= a);
        assert(plots_text(a, mark_size) + plots_text(b, mark_size) =~= plots_text(a, mark_size));
    } else {
        assert((a + b).drop_last() =~= a + b.drop_last());
        assert((a + b).last() == b.last());
        lemma_plots_text_concat(a, b.drop_last(), mark_size);
        assert(plots_text(a, mark_size) + plots_text(b, mark_size) =~= plots_text(a, mark_size)
            + plots_text(b.drop_last(), mark_size) + plot_text(b.last(), mark_size));
    }
}

/// The axis options of a chart, with the scale option when it is set.
pub open spec fn options_text(c: ChartView) -> Seq<char> {
    axis_head(c) + (if c.log_scale {
        log_line()
    } else {
        seq![]
    }) + "    ]\n"@
}

/// A chart holds one block per series, in the series' order: the `i`-th
/// series' block (its style, coordinate lines and escaped legend entry)
/// stands between the blocks of the series before it and after it.
pub proof fn lemma_chart_series_block(c: ChartView, i: int)
    requires
        0 <= i < c.plots.len(),
    ensures
        chart_text(c) == options_text(c) + plots_text(c.plots.take(i), c.mark_size) + plot_text(
            c.plots[i],
            c.mark_size,
        ) + plots_text(c.plots.skip(i + 1), c.mark_size) + "    \\end{axis}\n"@
            + "\\end{tikzpicture}\n"@,
{
    let ps = c.plots;
    let ms = c.mark_size;
    let one = seq![ps[i]];
    assert(ps =~= ps.take(i) + one + ps.skip(i + 1));
    lemma_plots_text_concat(ps.take(i) + one, ps.skip(i + 1), ms);
    lemma_plots_text_concat(ps.take(i), one, ms);
    assert(one.drop_last() =~= Seq::<PlotView>::empty());
    assert(one.last() == ps[i]);
    let empty = plots_text(Seq::<PlotView>::empty(), ms);
    assert(empty == Seq::<char>::empty());
    let pre = plots_text(ps.take(i), ms);
    let mid = plot_text(ps[i], ms);
    let post = plots_text(ps.skip(i + 1), ms);
    assert(plots_text(one, ms) == empty + mid);
    assert(empty + mid =~= mid);
    assert(plots_text(ps, ms) == pre + mid + post);
    let head = axis_head(c);
    let scale = if c.log_scale {
        log_line()
    } else {
        seq![]
    };
    let open = "    ]\n"@;
    let end_axis = "    \\end{axis}\n"@;
    let end_pic = "\\end{tikzpicture}\n"@;
    assert(axis_body(c) == open + (pre + mid + post) + end_axis + end_pic);
    assert(chart_text(c) == head + scale + axis_body(c));
    assert(options_text(c) == head + scale + open);
    assert(head + scale + (open + (pre + mid + post) + end_axis + end_pic) =~= (head + scale + open)
        + pre + mid + post + end_axis + end_pic);
}

/// A series block is its style, then its coordinate lines, then its legend
/// entry with the legend escaped.
pub proof fn lemma_plot_text_parts(p: PlotView, mark_size: Option<Seq<char>>)
    ensures
        plot_text(p, mark_size) == style_text(p, mark_size) + "        coordinates {\n"@
            + points_text(p.points) + "        };\n"@ + legend_text(p.legend),
{
    reveal(plot_text);
}

proof fn lemma_decimal_has_no_line_end(n: nat)
    ensures
        !decimal(n).contains('\n'),
    decreases n,
{
    if n >= 10 {
        lemma_decimal_has_no_line_end(n / 10);
        let d = decimal(n);
        assert forall|k: int| 0 <= k < d.len() implies d[k] != '\n' by {
            if k < d.len() - 1 {
                assert(d[k] == decimal(n / 10)[k]);
            } else {
                assert((((n % 10) + 48) as u8) as char != '\n');
            }
        }
    } else {
        assert(((n + 48) as u8) as char != '\n');
        assert(decimal(n)[0] == digit_char(n));
    }
}

/// A point whose value holds no line end gives exactly one line.
pub proof fn lemma_point_text_is_one_line(p: (usize, Seq<char>))
    requires
        !p.1.contains('\n'),
    ensures
        point_text(p).last() == '\n',
        !point_text(p).drop_last().contains('\n'),
{
    reveal_strlit("            (");
    reveal_strlit(", ");
    reveal_strlit(")\n");
    lemma_decimal_has_no_line_end(p.0 as nat);
    let t = point_text(p);
    let a = "            ("@;
    let d = decimal(p.0 as nat);
    let b = ", "@;
    assert(t.drop_last() =~= a + d + b + p.1 + seq![')']);
    assert forall|k: int| 0 <= k < t.drop_last().len() implies t.drop_last()[k] != '\n' by {
        let u = t.drop_last();
        if k < a.len() {
        } else if k < a.len() + d.len() {
            assert(u[k] == d[k - a.len()]);
        } else if k < a.len() + d.len() + b.len() {
        } else if k < a.len() + d.len() + b.len() + p.1.len() {
            assert(u[k] == p.1[k - a.len() - d.len() - b.len()]);
        }
    }
}

/// The logarithmic-scale option is one line: its text and a line end.
pub proof fn lemma_log_line_is_one_line()
    ensures
        log_line() == "        ymode=log,"@.push('\n'),
        !"        ymode=log,"@.contains('\n'),
{
    reveal_strlit("        ymode=log,\n");
    reveal_strlit("        ymode=log,");
    assert(log_line() =~= "        ymode=log,"@.push('\n'));
}

} // verus!
