use parse_to_parquet::table::ConvertError;
use parse_to_parquet::xml_flatten::flatten;

#[test]
fn flatten_two_records_with_schema_union() {
    let bytes = b"<root><rec><a>1</a><b>2</b></rec><rec><a>3</a></rec></root>";
    let t = flatten(bytes).unwrap();
    assert_eq!(t.cols(), 2);
    assert_eq!(t.rows(), 2);
    assert_eq!(t.columns[0].name, "a");
    assert_eq!(t.columns[1].name, "b");
    assert_eq!(t.columns[0].values, vec![Some("1".to_string()), Some("3".to_string())]);
    assert_eq!(t.columns[1].values, vec![Some("2".to_string()), None]);
}

#[test]
fn flatten_keeps_first_seen_column_order() {
    let bytes = b"<r><x><a>1</a><c>2</c></x><x><b>3</b><a>4</a></x></r>";
    let t = flatten(bytes).unwrap();
    let names: Vec<&str> = t.columns.iter().map(|c| c.name.as_str()).collect();
    assert_eq!(names, vec!["a", "c", "b"]);
    assert_eq!(t.columns[2].values, vec![None, Some("3".to_string())]);
}

#[test]
fn flatten_is_stable_across_repeated_runs() {
    let bytes = b"<r><x><gamma>1</gamma><alpha>2</alpha><beta>3</beta></x></r>";
    let t1 = flatten(bytes).unwrap();
    let t2 = flatten(bytes).unwrap();
    let names1: Vec<String> = t1.columns.iter().map(|c| c.name.clone()).collect();
    let names2: Vec<String> = t2.columns.iter().map(|c| c.name.clone()).collect();
    assert_eq!(names1, vec!["gamma", "alpha", "beta"]);
    assert_eq!(names1, names2);
}

#[test]
fn flatten_without_records_fails() {
    assert_eq!(flatten(b"<root></root>"), Err(ConvertError::NoRecords));
}

#[test]
fn flatten_reports_malformed_input() {
    let r = flatten(b"<root><rec><a>1</a");
    assert!(matches!(r, Err(ConvertError::MalformedXml(_))));
}

#[test]
fn flatten_ignores_sibling_collections_with_another_tag() {
    let bytes =
        b"<root><rec><a>1</a></rec><other><a>9</a></other><rec><a>2</a></rec></root>";
    let t = flatten(bytes).unwrap();
    assert_eq!(t.rows(), 2);
    assert_eq!(t.columns[0].values, vec![Some("1".to_string()), Some("2".to_string())]);
}

#[test]
fn flatten_drops_empty_records() {
    let bytes = b"<root><rec></rec><rec><a>1</a></rec></root>";
    let t = flatten(bytes).unwrap();
    assert_eq!(t.rows(), 1);
}

#[test]
fn flatten_ignores_content_nested_deeper_than_fields() {
    let bytes = b"<root><rec><a><deep>zz</deep>1</a><b>2</b></rec></root>";
    let t = flatten(bytes).unwrap();
    let names: Vec<&str> = t.columns.iter().map(|c| c.name.as_str()).collect();
    assert_eq!(names, vec!["a", "b"]);
    assert_eq!(t.columns[0].values, vec![Some("1".to_string())]);
}

#[test]
fn flatten_trims_surrounding_whitespace_of_text() {
    let bytes = b"<root>\n  <rec>\n    <a> 1 &amp; 2 </a>\n  </rec>\n</root>";
    let t = flatten(bytes).unwrap();
    assert_eq!(t.columns[0].values, vec![Some("1 & 2".to_string())]);
}

#[test]
fn flatten_overwrites_a_repeated_field_in_place() {
    let bytes = b"<root><rec><a>1</a><b>2</b><a>3</a></rec></root>";
    let t = flatten(bytes).unwrap();
    let names: Vec<&str> = t.columns.iter().map(|c| c.name.as_str()).collect();
    assert_eq!(names, vec!["a", "b"]);
    assert_eq!(t.columns[0].values, vec![Some("3".to_string())]);
}

#[test]
fn flatten_unescapes_text_content() {
    let bytes = b"<root><rec><a>1 &amp; 2</a></rec></root>";
    let t = flatten(bytes).unwrap();
    assert_eq!(t.columns[0].values, vec![Some("1 & 2".to_string())]);
}
