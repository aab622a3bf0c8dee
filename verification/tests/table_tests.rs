use parse_to_parquet::spreadsheet::normalize_grid;
use parse_to_parquet::table::{cell_to_string, Cell, ConvertError};

#[test]
fn cell_coercion_is_total_and_deterministic() {
    assert_eq!(cell_to_string(&Cell::Empty), None);
    assert_eq!(cell_to_string(&Cell::Text("x".to_string())), Some("x".to_string()));
    assert_eq!(cell_to_string(&Cell::Number("1.5".to_string())), Some("1.5".to_string()));
    assert_eq!(cell_to_string(&Cell::Bool(true)), Some("true".to_string()));
    assert_eq!(cell_to_string(&Cell::Bool(false)), Some("false".to_string()));
    assert_eq!(cell_to_string(&Cell::DateTime("45000".to_string())), Some("45000".to_string()));
    assert_eq!(
        cell_to_string(&Cell::DateTimeIso("2024-01-01".to_string())),
        Some("2024-01-01".to_string())
    );
    assert_eq!(cell_to_string(&Cell::DurationIso("PT1H".to_string())), Some("PT1H".to_string()));
    assert_eq!(cell_to_string(&Cell::CellError("Div0".to_string())), Some("ERROR: Div0".to_string()));
}

#[test]
fn normalize_header_and_data_rows() {
    let grid = vec![
        vec![Cell::Text("A".to_string()), Cell::Text("B".to_string())],
        vec![Cell::Number("1".to_string()), Cell::Text("x".to_string())],
        vec![Cell::Empty, Cell::Text("y".to_string())],
    ];
    let t = normalize_grid(&grid).unwrap();
    assert_eq!(t.cols(), 2);
    assert_eq!(t.rows(), 2);
    assert_eq!(t.columns[0].name, "A");
    assert_eq!(t.columns[1].name, "B");
    assert_eq!(t.columns[0].values, vec![Some("1".to_string()), None]);
    assert_eq!(t.columns[1].values, vec![Some("x".to_string()), Some("y".to_string())]);
}

#[test]
fn normalize_rejects_an_empty_grid() {
    let empty: Vec<Vec<Cell>> = vec![];
    assert_eq!(normalize_grid(&empty), Err(ConvertError::EmptySheet));
    let no_columns: Vec<Vec<Cell>> = vec![vec![]];
    assert_eq!(normalize_grid(&no_columns), Err(ConvertError::EmptySheet));
}

#[test]
fn normalize_names_absent_headers_synthetically() {
    let grid = vec![vec![Cell::Empty, Cell::Text("B".to_string()), Cell::Empty]];
    let t = normalize_grid(&grid).unwrap();
    assert_eq!(t.cols(), 3);
    assert_eq!(t.rows(), 0);
    assert_eq!(t.columns[0].name, "col_0");
    assert_eq!(t.columns[1].name, "B");
    assert_eq!(t.columns[2].name, "col_2");
}

#[test]
fn normalize_renders_header_values_like_cells() {
    let grid = vec![
        vec![Cell::Number("10".to_string()), Cell::Bool(true)],
        vec![Cell::Empty, Cell::Empty],
    ];
    let t = normalize_grid(&grid).unwrap();
    assert_eq!(t.columns[0].name, "10");
    assert_eq!(t.columns[1].name, "true");
}

#[test]
fn synthetic_names_carry_two_digit_indices() {
    let grid = vec![vec![Cell::Empty; 12]];
    let t = normalize_grid(&grid).unwrap();
    assert_eq!(t.columns[10].name, "col_10");
    assert_eq!(t.columns[11].name, "col_11");
}
