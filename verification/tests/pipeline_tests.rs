use parse_to_parquet::converter::convert;
use parse_to_parquet::processor::{get_output_path, plan_file, summarize};
use parse_to_parquet::spreadsheet::read_spreadsheet;
use parse_to_parquet::table::ConvertError;
use parse_to_parquet::watcher::{watch_step, WatchDirective, WatchInput};

#[test]
fn output_path_preserves_subdirectories_and_swaps_extension() {
    assert_eq!(get_output_path("/in/sub/a.csv", "/in", "/out"), "/out/sub/a.parquet");
    assert_eq!(get_output_path("/in/a.xlsx", "/in", "/out"), "/out/a.parquet");
    assert_eq!(get_output_path("/in/x/y/z/f.json", "/in", "/out"), "/out/x/y/z/f.parquet");
}

#[test]
fn output_path_keeps_files_outside_the_root_bare() {
    assert_eq!(get_output_path("/other/b.csv", "/in", "/out"), "/other/b.parquet");
    assert_eq!(get_output_path("inside.csv", "/in", "/out"), "/out/inside.parquet");
}

#[test]
fn output_path_appends_extension_when_none_exists() {
    assert_eq!(get_output_path("/in/noext", "/in", "/out"), "/out/noext.parquet");
}

#[test]
fn convert_rejects_unsupported_paths() {
    let r = convert("notes.txt", b"a,b\n1,2\n".to_vec(), None);
    assert_eq!(r.unwrap_err(), ConvertError::UnsupportedFormat);
}

#[test]
fn convert_reads_csv_and_reports_counts() {
    let (res, bytes) = convert("t.csv", b"a,b\n1,x\n2,y\n".to_vec(), None).unwrap();
    assert_eq!(res.rows, 2);
    assert_eq!(res.columns, 2);
    assert!(!bytes.is_empty());
}

#[test]
fn convert_reads_json_and_reports_counts() {
    let data = br#"[{"a": 1, "b": "x"}, {"a": 2, "b": "y"}, {"a": 3, "b": "z"}]"#.to_vec();
    let (res, bytes) = convert("t.json", data, None).unwrap();
    assert_eq!(res.rows, 3);
    assert_eq!(res.columns, 2);
    assert!(!bytes.is_empty());
}

#[test]
fn convert_flattens_xml_through_the_pipeline() {
    let data = b"<root><rec><a>1</a><b>2</b></rec><rec><a>3</a></rec></root>".to_vec();
    let (res, bytes) = convert("t.xml", data, None).unwrap();
    assert_eq!(res.rows, 2);
    assert_eq!(res.columns, 2);
    assert!(!bytes.is_empty());
}

#[test]
fn converting_twice_yields_identical_counts_and_bytes() {
    let data = b"a,b\n1,x\n2,y\n".to_vec();
    let (r1, b1) = convert("t.csv", data.clone(), None).unwrap();
    let (r2, b2) = convert("t.csv", data, None).unwrap();
    assert_eq!(r1.rows, r2.rows);
    assert_eq!(r1.columns, r2.columns);
    assert_eq!(r1.format, r2.format);
    assert_eq!(b1, b2);

    let xml = b"<r><x><a>1</a></x></r>".to_vec();
    let (x1, p1) = convert("t.xml", xml.clone(), None).unwrap();
    let (x2, p2) = convert("t.xml", xml, None).unwrap();
    assert_eq!(x1.rows, x2.rows);
    assert_eq!(x1.columns, x2.columns);
    assert_eq!(p1, p2);
}

#[test]
fn convert_reports_an_unparsable_json_input() {
    let r = convert("t.json", b"{not json at all".to_vec(), None);
    assert!(matches!(r, Err(ConvertError::OpenError(_))));
}

#[test]
fn output_path_accepts_a_root_with_a_trailing_separator() {
    assert_eq!(get_output_path("/in/a.csv", "/in/", "/out"), "/out/a.parquet");
    assert_eq!(get_output_path("/in/sub/b.xml", "/in/", "/out/"), "/out/sub/b.parquet");
}

#[test]
fn output_path_does_not_mistake_a_name_prefix_for_the_root() {
    assert_eq!(get_output_path("/input/a.csv", "/in", "/out"), "/input/a.parquet");
}

#[test]
fn spreadsheet_open_fails_on_an_unreadable_container() {
    let r = read_spreadsheet(b"not a workbook at all".to_vec(), None);
    assert!(matches!(r, Err(ConvertError::OpenError(_))));
}

#[test]
fn batch_isolates_faults_and_counts_both_columns() {
    let inputs: Vec<(&str, Vec<u8>)> = vec![
        ("a.xml", b"<r><x><a>1</a></x></r>".to_vec()),
        ("b.xml", b"<r><x><a>1</a>".to_vec()),
        ("c.xml", b"<r><x><a>2</a></x></r>".to_vec()),
    ];
    let mut outcomes: Vec<bool> = Vec::new();
    let mut written: usize = 0;
    for (path, data) in inputs {
        match convert(path, data, None) {
            Ok((_, bytes)) => {
                assert!(!bytes.is_empty());
                written += 1;
                outcomes.push(true);
            }
            Err(_) => outcomes.push(false),
        }
    }
    let stats = summarize(&outcomes);
    assert_eq!(stats.processed, 2);
    assert_eq!(stats.errors, 1);
    assert_eq!(written, 2);
}

#[test]
fn summarize_counts_successes_and_faults() {
    let stats = summarize(&vec![true, false, true]);
    assert_eq!(stats.processed, 2);
    assert_eq!(stats.errors, 1);
    let empty = summarize(&vec![]);
    assert_eq!(empty.processed, 0);
    assert_eq!(empty.errors, 0);
}

#[test]
fn plan_file_selects_only_supported_regular_files() {
    let job = plan_file("/in/a.csv", true, "/in", "/out").unwrap();
    assert_eq!(job.input, "/in/a.csv");
    assert_eq!(job.output, "/out/a.parquet");
    assert!(plan_file("/in/a.txt", true, "/in", "/out").is_none());
    assert!(plan_file("/in/a.csv", false, "/in", "/out").is_none());
}

#[test]
fn watch_step_plans_events_and_reacts_to_transport_faults() {
    let event = WatchInput::Event(vec![
        ("/in/a.csv".to_string(), true),
        ("/in/b.txt".to_string(), true),
        ("/in/c.csv".to_string(), false),
    ]);
    match watch_step(&event, "/in", "/out") {
        WatchDirective::Convert(jobs) => {
            assert_eq!(jobs.len(), 1);
            assert_eq!(jobs[0].input, "/in/a.csv");
            assert_eq!(jobs[0].output, "/out/a.parquet");
        }
        _ => panic!("an event must yield a conversion plan"),
    }
    assert!(matches!(
        watch_step(&WatchInput::TransportError, "/in", "/out"),
        WatchDirective::LogAndContinue
    ));
    assert!(matches!(watch_step(&WatchInput::ChannelClosed, "/in", "/out"), WatchDirective::Stop));
}
