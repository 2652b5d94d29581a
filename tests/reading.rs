use benchplot::records::{perf_records, timing_records, Cell, Column, Metric, TimingData};
use benchplot::series::perf_series;
use benchplot::table::table_rows;
use benchplot::text::{escape_underscores, parse_size};

fn reading(text: &str) -> Option<String> {
    text.parse::<f64>().ok().map(|v| v.to_string())
}

fn cells(contents: &str) -> Vec<Vec<Cell>> {
    table_rows(contents)
        .into_iter()
        .map(|row| {
            row.into_iter()
                .map(|text| {
                    let r = reading(&text);
                    Cell { text, reading: r }
                })
                .collect()
        })
        .collect()
}

#[test]
fn header_is_dropped_and_fields_split() {
    let rows = table_rows("n,time\n4,0.5\n8,1.5,extra\n");
    assert_eq!(rows, vec![vec!["4".to_string(), "0.5".to_string()], vec![
        "8".to_string(),
        "1.5".to_string(),
        "extra".to_string()
    ]]);
}

#[test]
fn line_endings_follow_lines() {
    let rows = table_rows("h\r\na,b\r\n\nc\r");
    assert_eq!(rows, vec![vec!["a".to_string(), "b".to_string()], vec!["".to_string()], vec![
        "c\r".to_string()
    ]]);
    assert!(table_rows("").is_empty());
    assert!(table_rows("header only\n").is_empty());
    assert_eq!(table_rows("h\n,x,"), vec![vec!["".to_string(), "x".to_string(), "".to_string()]]);
}

#[test]
fn sizes_parse_like_unsigned_numerals() {
    assert_eq!(parse_size("42"), Some(42));
    assert_eq!(parse_size("+7"), Some(7));
    assert_eq!(parse_size("007"), Some(7));
    assert_eq!(parse_size("18446744073709551615"), Some(usize::MAX));
    assert_eq!(parse_size("18446744073709551616"), None);
    assert_eq!(parse_size("99999999999999999999x"), None);
    assert_eq!(parse_size("-1"), None);
    assert_eq!(parse_size("+"), None);
    assert_eq!(parse_size(""), None);
    assert_eq!(parse_size("1.5"), None);
    assert_eq!(parse_size(" 3"), None);
}

#[test]
fn valid_timing_lines_are_kept_in_order() {
    let rows = cells("n,t\n16,0.25\n4,0.0001\n8,3\n");
    let recs = timing_records(&rows);
    let got: Vec<(usize, String)> = recs.iter().map(|r| (r.size, r.time.clone())).collect();
    assert_eq!(got, vec![
        (16, "0.25".to_string()),
        (4, "0.0001".to_string()),
        (8, "3".to_string())
    ]);
}

#[test]
fn tolerant_read_skips_short_and_malformed_lines() {
    let rows = cells("n,t\n4\n\nx,1.0\n5,abc\n-3,1.0\n6,2.5\n");
    let recs = timing_records(&rows);
    assert_eq!(recs.len(), 1);
    assert_eq!(recs[0].size, 6);
    assert_eq!(recs[0].time, "2.5");
}

#[test]
fn timing_data_takes_base_name_without_csv() {
    let rows = cells("n,t\n4,0.0001\n");
    assert_eq!(TimingData::from_rows("mmNvsT.csv", &rows).name, "mmNvsT");
    assert_eq!(TimingData::from_rows("out/mm_blocked.csv", &rows).name, "mm_blocked");
    assert_eq!(TimingData::from_rows("a.csv.csv", &rows).name, "a");
    assert_eq!(TimingData::from_rows("plain", &rows).name, "plain");
    assert_eq!(TimingData::from_rows("dir/", &rows).name, "");
    assert_eq!(TimingData::from_rows("x.csvz", &rows).name, "x.csvz");
    assert_eq!(TimingData::from_rows("mmNvsT.csv", &rows).records.len(), 1);
}

#[test]
fn strict_read_keeps_all_seven_values() {
    let rows = cells("h\n8,1000.0,2000.0,0.5,100.0,10.0,10.0\n16,1e3,2,3,4,5,6,extra\n");
    let recs = perf_records(&rows).ok().unwrap();
    assert_eq!(recs.len(), 2);
    assert_eq!(recs[0].n, 8);
    assert_eq!(recs[0].instructions, "1000");
    assert_eq!(recs[0].cycles, "2000");
    assert_eq!(recs[0].ipc, "0.5");
    assert_eq!(recs[0].l1_loads, "100");
    assert_eq!(recs[0].l1_misses, "10");
    assert_eq!(recs[0].miss_rate, "10");
    assert_eq!(recs[1].n, 16);
    assert_eq!(recs[1].instructions, "1000");
    assert_eq!(recs[1].miss_rate, "6");
}

#[test]
fn strict_read_skips_short_lines() {
    let rows = cells("h\n1,2,3\n\n8,1,2,3,4,5,6\nnot,enough\n");
    let recs = perf_records(&rows).ok().unwrap();
    assert_eq!(recs.len(), 1);
    assert_eq!(recs[0].n, 8);
}

#[test]
fn strict_read_fails_on_each_bad_field() {
    let good = ["8", "1", "2", "3", "4", "5", "6"];
    let columns = [
        Column::Size,
        Column::Value(Metric::Instructions),
        Column::Value(Metric::Cycles),
        Column::Value(Metric::Ipc),
        Column::Value(Metric::L1Loads),
        Column::Value(Metric::L1Misses),
        Column::Value(Metric::MissRate),
    ];
    for k in 0..7 {
        let mut fields: Vec<&str> = good.to_vec();
        fields[k] = "bad";
        let contents = format!("h\n8,1,2,3,4,5,6\n{}\n", fields.join(","));
        let err = perf_records(&cells(&contents)).err().unwrap();
        assert_eq!(err.column, columns[k]);
        assert_eq!(err.text, "bad");
    }
}

#[test]
fn strict_read_reports_first_bad_field() {
    let rows = cells("h\n1,2,3\n8,1,x,3,y,5,6\n9,z,2,3,4,5,6\n");
    let err = perf_records(&rows).err().unwrap();
    assert_eq!(err.column, Column::Value(Metric::Cycles));
    assert_eq!(err.message(), "Invalid cycles value: x");
    let err = perf_records(&cells("h\n-8,1,2,3,4,5,6\n")).err().unwrap();
    assert_eq!(err.column, Column::Size);
    assert_eq!(err.message(), "Invalid N value: -8");
    let err = perf_records(&cells("h\n8,1,2,3,4,5,\n")).err().unwrap();
    assert_eq!(err.message(), "Invalid miss rate value: ");
}

#[test]
fn projection_keeps_count_and_order() {
    let rows = cells("h\n8,1,2,3,4,5,6\n4,10,20,30,40,50,60\n2,0.5,0.25,7,8,9,10\n");
    let recs = perf_records(&rows).ok().unwrap();
    let ipc = perf_series(&recs, Metric::Ipc);
    let got: Vec<(usize, String)> = ipc.iter().map(|p| (p.size, p.value.clone())).collect();
    assert_eq!(got, vec![(8, "3".to_string()), (4, "30".to_string()), (2, "7".to_string())]);
    let cycles = perf_series(&recs, Metric::Cycles);
    assert_eq!(cycles.len(), 3);
    assert_eq!(cycles[2].value, "0.25");
    assert!(perf_series(&Vec::new(), Metric::MissRate).is_empty());
}

#[test]
fn underscores_are_escaped() {
    assert_eq!(escape_underscores("mm_t_N"), "mm\\_t\\_N");
    assert_eq!(escape_underscores("_"), "\\_");
    assert_eq!(escape_underscores("plain label"), "plain label");
    assert_eq!(escape_underscores(""), "");
}
