use benchplot::records::{perf_records, Cell, PerfRecord, TimingData};
use benchplot::render::{render, Chart, Plot};
use benchplot::report::{input_paths, perf_report, timing_report, Report};
use benchplot::series::Point;
use benchplot::table::table_rows;

fn cells(contents: &str) -> Vec<Vec<Cell>> {
    table_rows(contents)
        .into_iter()
        .map(|row| {
            row.into_iter()
                .map(|text| {
                    let reading = text.parse::<f64>().ok().map(|v| v.to_string());
                    Cell { text, reading }
                })
                .collect()
        })
        .collect()
}

fn timing_plot(color: &str, marker: &str, legend: &str) -> String {
    format!(
        "        \\addplot[\n            color={},\n            mark={},\n            thick,\n        ]\n        coordinates {{\n            (4, 0.0001)\n        }};\n        \\addlegendentry{{{}}}\n",
        color, marker, legend
    )
}

#[test]
fn timing_report_of_three_files() {
    let contents = "N,Tiempo\n4,0.0001\n";
    let data: Vec<TimingData> = ["mmNvsT.csv", "mmtNvsT.csv", "mmsNvsT.csv"]
        .iter()
        .map(|p| TimingData::from_rows(p, &cells(contents)))
        .collect();
    let out = timing_report(&data);
    let expected = String::from(
        "\\begin{tikzpicture}\n    \\begin{axis}[\n        xlabel={Tamaño de matriz (N)},\n        ylabel={Tiempo (segundos)},\n        legend pos=north west,\n        grid=major,\n        width=12cm,\n        height=8cm,\n    ]\n",
    ) + &timing_plot("blue", "*", "mmNvsT")
        + &timing_plot("red", "square*", "mmtNvsT")
        + &timing_plot("green!50!black", "triangle*", "mmsNvsT")
        + "    \\end{axis}\n\\end{tikzpicture}\n";
    assert_eq!(out, expected);
    assert_eq!(out.matches("\\begin{tikzpicture}").count(), 1);
    assert_eq!(out.matches("coordinates {").count(), 3);
}

#[test]
fn timing_palette_cycles_past_three_series() {
    let data: Vec<TimingData> = ["a_1.csv", "b.csv", "c.csv", "d.csv"]
        .iter()
        .map(|p| TimingData::from_rows(p, &cells("h\n1,2\n")))
        .collect();
    let out = timing_report(&data);
    assert_eq!(out.matches("color=blue,").count(), 2);
    assert_eq!(out.matches("mark=*,").count(), 2);
    assert!(out.contains("\\addlegendentry{a\\_1}\n"));
    assert!(out.contains("            (1, 2)\n"));
}

#[test]
fn too_few_arguments_give_usage() {
    let args = vec!["plot".to_string(), "mmNvsT.csv".to_string(), "mmtNvsT.csv".to_string()];
    let err = input_paths(&args, Report::Timing).err().unwrap();
    assert_eq!(err, "Uso: plot <mmNvsT.csv> <mmtNvsT.csv> <mmsNvsT.csv>");
    let err = input_paths(&args, Report::Perf).err().unwrap();
    assert_eq!(err, "Uso: plot <mm-exp3.csv> <mmt-exp3.csv> <mms-exp3.csv>");
    assert_eq!(input_paths(&Vec::new(), Report::Timing).err().unwrap(), "Uso:  <mmNvsT.csv> <mmtNvsT.csv> <mmsNvsT.csv>");
}

#[test]
fn three_arguments_give_the_paths() {
    let args: Vec<String> = ["plot", "a", "b", "c"].iter().map(|s| s.to_string()).collect();
    let paths = input_paths(&args, Report::Perf).ok().unwrap();
    assert_eq!(paths, vec!["a".to_string(), "b".to_string(), "c".to_string()]);
}

#[test]
fn four_file_arguments_give_usage() {
    let args: Vec<String> = ["plot", "a", "b", "c", "d"].iter().map(|s| s.to_string()).collect();
    let err = input_paths(&args, Report::Timing).err().unwrap();
    assert_eq!(err, "Uso: plot <mmNvsT.csv> <mmtNvsT.csv> <mmsNvsT.csv>");
}

fn one_line_records() -> Vec<PerfRecord> {
    perf_records(&cells("N,instr,cycles,ipc,loads,misses,rate\n8,1000.0,2000.0,0.5,100.0,10.0,10.0\n"))
        .ok()
        .unwrap()
}

#[test]
fn perf_report_has_five_charts_in_order() {
    let out = perf_report(&one_line_records(), &one_line_records(), &one_line_records());
    assert!(out.starts_with(
        "% Gráficos generados automáticamente por benchplot\n% Requiere: \\usepackage{tikz} y \\usepackage{pgfplots}\n% \\pgfplotsset{compat=1.18}\n\n\\begin{tikzpicture}\n"
    ));
    let blocks: Vec<&str> = out.split("\\begin{tikzpicture}").skip(1).collect();
    assert_eq!(blocks.len(), 5);
    let titles = [
        "title={Instrucciones ejecutadas vs Tamaño de matriz}",
        "title={IPC (Instructions Per Cycle) vs Tamaño de matriz}",
        "title={L1 Data Cache Loads vs Tamaño de matriz}",
        "title={L1 Data Cache Misses vs Tamaño de matriz}",
        "title={L1 Miss Rate vs Tamaño de matriz}",
    ];
    let points = ["(8, 1000)", "(8, 0.5)", "(8, 100)", "(8, 10)", "(8, 10)"];
    for k in 0..5 {
        assert!(blocks[k].contains(titles[k]));
        assert_eq!(blocks[k].matches(points[k]).count(), 3);
        assert_eq!(blocks[k].contains("        ymode=log,\n"), k == 3);
        assert!(blocks[k].ends_with("\\end{tikzpicture}\n\n"));
        assert_eq!(blocks[k].matches("            mark size=3pt,\n").count(), 3);
        assert!(blocks[k].contains("\\addlegendentry{mm (Básico)}"));
        assert!(blocks[k].contains("\\addlegendentry{mmt (Transpuesto)}"));
        assert!(blocks[k].contains("\\addlegendentry{mms (Blocking)}"));
    }
    assert!(blocks[4].contains("ylabel={Miss Rate (\\%)},"));
}

fn sample_chart(log_scale: bool) -> Chart {
    Chart {
        title: Some("run_time".to_string()),
        y_label: "t_wall".to_string(),
        log_scale,
        mark_size: None,
        plots: vec![Plot {
            points: vec![Point { size: 0, value: "1".to_string() }, Point { size: 1024, value: "0.5".to_string() }],
            color: "red".to_string(),
            marker: "o".to_string(),
            legend: "my_set".to_string(),
        }],
    }
}

#[test]
fn render_is_deterministic() {
    assert_eq!(render(&sample_chart(false)), render(&sample_chart(false)));
    assert_eq!(render(&sample_chart(true)), render(&sample_chart(true)));
}

#[test]
fn labels_are_escaped_in_markup() {
    let out = render(&sample_chart(false));
    assert!(out.contains("        title={run\\_time},\n"));
    assert!(out.contains("        ylabel={t\\_wall},\n"));
    assert!(out.contains("        \\addlegendentry{my\\_set}\n"));
    assert!(out.contains("            (0, 1)\n            (1024, 0.5)\n"));
}

#[test]
fn log_scale_adds_one_line() {
    let off = render(&sample_chart(false));
    let on = render(&sample_chart(true));
    let off_lines: Vec<&str> = off.lines().collect();
    let on_lines: Vec<&str> = on.lines().collect();
    assert_eq!(on_lines.len(), off_lines.len() + 1);
    let k = on_lines.iter().position(|l| *l == "        ymode=log,").unwrap();
    assert_eq!(on_lines[k + 1], "    ]");
    let mut without = on_lines.clone();
    without.remove(k);
    assert_eq!(without, off_lines);
}

#[test]
fn empty_chart_and_empty_series_render() {
    let mut c = sample_chart(false);
    c.plots[0].points.clear();
    let out = render(&c);
    assert!(out.contains("        coordinates {\n        };\n"));
    c.plots.clear();
    c.title = None;
    let out = render(&c);
    assert_eq!(
        out,
        "\\begin{tikzpicture}\n    \\begin{axis}[\n        xlabel={Tamaño de matriz (N)},\n        ylabel={t\\_wall},\n        legend pos=north west,\n        grid=major,\n        width=12cm,\n        height=8cm,\n    ]\n    \\end{axis}\n\\end{tikzpicture}\n"
    );
}
