use parse_to_parquet::format::FileFormat;

#[test]
fn detect_each_supported_extension() {
    assert_eq!(FileFormat::from_path("a.csv"), Some(FileFormat::Csv));
    assert_eq!(FileFormat::from_path("a.json"), Some(FileFormat::Json));
    assert_eq!(FileFormat::from_path("a.xml"), Some(FileFormat::Xml));
    assert_eq!(FileFormat::from_path("a.xls"), Some(FileFormat::Xls));
    assert_eq!(FileFormat::from_path("a.xlsx"), Some(FileFormat::Xlsx));
    assert_eq!(FileFormat::from_path("a.ods"), Some(FileFormat::Ods));
}

#[test]
fn detect_is_case_insensitive() {
    assert_eq!(FileFormat::from_path("A.CSV"), Some(FileFormat::Csv));
    assert_eq!(FileFormat::from_path("b.Json"), Some(FileFormat::Json));
    assert_eq!(FileFormat::from_path("c.XmL"), Some(FileFormat::Xml));
    assert_eq!(FileFormat::from_path("d.XLSX"), Some(FileFormat::Xlsx));
    assert_eq!(FileFormat::from_path("e.Ods"), Some(FileFormat::Ods));
    assert_eq!(FileFormat::from_path("f.XLS"), Some(FileFormat::Xls));
}

#[test]
fn detect_rejects_other_or_missing_extensions() {
    assert_eq!(FileFormat::from_path("a.txt"), None);
    assert_eq!(FileFormat::from_path("noextension"), None);
    assert_eq!(FileFormat::from_path(".csv"), None);
    assert_eq!(FileFormat::from_path("dir.csv/file"), None);
    assert_eq!(FileFormat::from_path(""), None);
    assert_eq!(FileFormat::from_path("a.parquet"), None);
    assert_eq!(FileFormat::from_path("a.csvx"), None);
}

#[test]
fn detect_uses_the_last_dot_of_the_file_name() {
    assert_eq!(FileFormat::from_path("archive.tar.csv"), Some(FileFormat::Csv));
    assert_eq!(FileFormat::from_path("/in/sub.dir/a.json"), Some(FileFormat::Json));
    assert_eq!(FileFormat::from_path("a.csv.bak"), None);
}

#[test]
fn supported_extensions_lists_all_six() {
    let exts = FileFormat::supported_extensions();
    assert_eq!(exts, vec!["csv", "json", "xml", "xls", "xlsx", "ods"]);
}

#[test]
fn is_supported_agrees_with_detection() {
    assert!(FileFormat::is_supported("x.ods"));
    assert!(FileFormat::is_supported("x.CSV"));
    assert!(!FileFormat::is_supported("x.doc"));
    assert!(!FileFormat::is_supported("x"));
}
