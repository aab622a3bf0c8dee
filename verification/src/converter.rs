use vstd::prelude::*;

use crate::format::{spec_format_of, FileFormat};
use crate::spreadsheet::{range_grid, read_spreadsheet, spec_chosen_sheet, spec_workbook,
    table_matches_grid, workbook_range, workbook_sheets};
use crate::table::{opt_str_view, spec_cell_text, spec_header, Cell, ConvertError, Table};
use crate::text::opt_strref_view;
use crate::xml_flatten::{flatten, flatten_post, spec_lookup, spec_run, spec_union,
    spec_xml_events, table_matches_records, RecModel};
use polars::prelude::Column as PlColumn;
use polars::prelude::SerReader;
use std::io::Cursor;

verus! {

#[verifier::external_type_specification]
#[verifier::external_body]
pub struct ExDataFrame(polars::prelude::DataFrame);

#[verifier::external_type_specification]
#[verifier::external_body]
pub struct ExPolarsColumn(PlColumn);

// Declared because polars' operator impls on `Column` carry this type in
// their signatures; no signature of this crate does.
#[verifier::external_type_specification]
#[verifier::external_body]
pub struct ExPolarsError(polars::prelude::PolarsError);

/// The data frame the CSV reader parses from the bytes, if they parse. A
/// function of the bytes alone (header row on, schema inference over the
/// first 1000 rows).
pub uninterp spec fn spec_csv_frame(bytes: Seq<u8>) -> Option<polars::prelude::DataFrame>;

/// The data frame the JSON reader parses from the bytes, if they parse. A
/// function of the bytes alone.
pub uninterp spec fn spec_json_frame(bytes: Seq<u8>) -> Option<polars::prelude::DataFrame>;

/// A data frame's (height, width): its row and column counts.
pub uninterp spec fn frame_shape(df: polars::prelude::DataFrame) -> (nat, nat);

/// The string column polars builds from a name and optional text values: a
/// function of the name and the values alone.
pub uninterp spec fn spec_column(name: Seq<char>, values: Seq<Option<Seq<char>>>) -> PlColumn;

/// The frame built over the given columns, when they validate (equal
/// lengths, no duplicate name); a function of the columns alone.
pub uninterp spec fn spec_frame(cols: Seq<PlColumn>) -> Option<polars::prelude::DataFrame>;

/// The Parquet encoding of a frame, when encoding succeeds: a function of the
/// frame value alone.
pub uninterp spec fn spec_parquet(df: polars::prelude::DataFrame) -> Option<Seq<u8>>;

/// The views of a column's optional text values.
pub open spec fn vals_view(v: Vec<Option<String>>) -> Seq<Option<Seq<char>>> {
    v@.map_values(|o: Option<String>| opt_str_view(o))
}

/// Relies on polars' `CsvReadOptions` / `CsvReader`: parses CSV bytes with a
/// header row and schema inference capped at 1000 rows.
#[verifier::external_body]
fn read_csv_frame(bytes: Vec<u8>) -> (r: Result<polars::prelude::DataFrame, String>)
    ensures
        match r {
            Ok(df) => spec_csv_frame(bytes@) == Option::Some(df),
            Err(_) => spec_csv_frame(bytes@) is None,
        },
{
    polars::prelude::CsvReadOptions::default()
        .with_has_header(true)
        .with_infer_schema_length(Some(1000))
        .into_reader_with_file_handle(Cursor::new(bytes))
        .finish()
        .map_err(|e| format!("{e}"))
}

/// Relies on polars' `JsonReader`: parses JSON bytes into a data frame.
#[verifier::external_body]
fn read_json_frame(bytes: Vec<u8>) -> (r: Result<polars::prelude::DataFrame, String>)
    ensures
        match r {
            Ok(df) => spec_json_frame(bytes@) == Option::Some(df),
            Err(_) => spec_json_frame(bytes@) is None,
        },
{
    polars::prelude::JsonReader::new(Cursor::new(bytes)).finish().map_err(|e| format!("{e}"))
}

/// Relies on polars' `DataFrame::height`: the row count.
#[verifier::external_body]
fn frame_height(df: &polars::prelude::DataFrame) -> (r: usize)
    ensures
        r as nat == frame_shape(*df).0,
{
    df.height()
}

/// Relies on polars' `DataFrame::width`: the column count.
#[verifier::external_body]
fn frame_width(df: &polars::prelude::DataFrame) -> (r: usize)
    ensures
        r as nat == frame_shape(*df).1,
{
    df.width()
}

/// Relies on polars' `Column::new`: a string column with the given name and
/// optional text values.
#[verifier::external_body]
fn make_column(name: &str, values: &Vec<Option<String>>) -> (r: PlColumn)
    ensures
        r == spec_column(name@, vals_view(*values)),
{
    PlColumn::new(name.into(), values.as_slice())
}

/// Relies on polars' `DataFrame::new_infer_height`: a frame over the given
/// columns; fails when lengths differ or two columns share a name.
#[verifier::external_body]
fn frame_new(cols: Vec<PlColumn>) -> (r: Result<polars::prelude::DataFrame, String>)
    ensures
        match r {
            Ok(df) => spec_frame(cols@) == Option::Some(df),
            Err(_) => spec_frame(cols@) is None,
        },
{
    polars::prelude::DataFrame::new_infer_height(cols).map_err(|e| format!("{e}"))
}

/// Relies on polars' `ParquetWriter`: encodes the frame as Parquet bytes.
#[verifier::external_body]
fn frame_to_parquet(df: &mut polars::prelude::DataFrame) -> (r: Result<Vec<u8>, String>)
    ensures
        match r {
            Ok(b) => spec_parquet(*old(df)) == Option::Some(b@),
            Err(_) => spec_parquet(*old(df)) is None,
        },
{
    let mut buf: Vec<u8> = Vec::new();
    match polars::prelude::ParquetWriter::new(&mut buf).finish(df) {
        Ok(_) => Ok(buf),
        Err(e) => Err(format!("{e}")),
    }
}

/// What one conversion reports: the counts of the written table and the
/// detected input format.
#[derive(Debug)]
pub struct ConversionResult {
    pub rows: usize,
    pub columns: usize,
    pub format: FileFormat,
}

/// The (rows, columns) a conversion of this input must report, when the read
/// stage succeeds.
pub open spec fn convert_counts(fmt: FileFormat, data: Seq<u8>, sheet: Option<Seq<char>>) -> Option<
    (nat, nat),
> {
    match fmt {
        FileFormat::Csv => match spec_csv_frame(data) {
            Option::Some(df) => Option::Some(frame_shape(df)),
            Option::None => Option::None,
        },
        FileFormat::Json => match spec_json_frame(data) {
            Option::Some(df) => Option::Some(frame_shape(df)),
            Option::None => Option::None,
        },
        FileFormat::Xml => match crate::xml_flatten::spec_xml_events(data) {
            Ok(evs) => {
                let recs = crate::xml_flatten::spec_run(evs).records;
                if recs.len() > 0 {
                    Option::Some((recs.len(), crate::xml_flatten::spec_union(recs).len()))
                } else {
                    Option::None
                }
            },
            Err(_) => Option::None,
        },
        _ => match crate::spreadsheet::spec_workbook(data) {
            Option::Some(wb) => match crate::spreadsheet::spec_chosen_sheet(
                crate::spreadsheet::workbook_sheets(wb),
                sheet,
            ) {
                Option::Some(nm) => match crate::spreadsheet::workbook_range(wb, nm) {
                    Option::Some(rg) => {
                        let gr = crate::spreadsheet::range_grid(rg);
                        if gr.len() > 0 && gr[0].len() > 0 {
                            Option::Some(((gr.len() - 1) as nat, gr[0].len()))
                        } else {
                            Option::None
                        }
                    },
                    Option::None => Option::None,
                },
                Option::None => Option::None,
            },
            Option::None => Option::None,
        },
    }
}

/// The polars columns a normalized table stands for, in order.
pub open spec fn spec_table_columns(t: Table) -> Seq<PlColumn> {
    Seq::new(
        t.columns@.len(),
        |j: int| spec_column(t.columns@[j].name@, vals_view(t.columns@[j].values)),
    )
}

/// The polars columns of a flattened record sequence: the schema union's
/// keys, each over the records' values under that key.
pub open spec fn spec_xml_columns(recs: Seq<RecModel>) -> Seq<PlColumn> {
    Seq::new(
        spec_union(recs).len(),
        |j: int|
            spec_column(
                spec_union(recs)[j],
                Seq::new(recs.len(), |i: int| spec_lookup(recs[i], spec_union(recs)[j])),
            ),
    )
}

/// The polars columns of a normalized cell grid: the first row's headers,
/// each over the coerced text of the remaining rows.
pub open spec fn spec_grid_columns(grid: Seq<Seq<Cell>>) -> Seq<PlColumn> {
    Seq::new(
        grid[0].len(),
        |j: int|
            spec_column(
                spec_header(grid[0], j),
                Seq::new((grid.len() - 1) as nat, |i: int| spec_cell_text(grid[i + 1][j])),
            ),
    )
}

/// The frame a conversion of this input hands to the Parquet encoder, when
/// the read and frame-build stages succeed.
pub open spec fn spec_convert_frame(
    fmt: FileFormat,
    data: Seq<u8>,
    sheet: Option<Seq<char>>,
) -> Option<polars::prelude::DataFrame> {
    match fmt {
        FileFormat::Csv => spec_csv_frame(data),
        FileFormat::Json => spec_json_frame(data),
        FileFormat::Xml => match spec_xml_events(data) {
            Ok(evs) => {
                let recs = spec_run(evs).records;
                if recs.len() > 0 {
                    spec_frame(spec_xml_columns(recs))
                } else {
                    Option::None
                }
            },
            Err(_) => Option::None,
        },
        _ => match spec_workbook(data) {
            Option::Some(wb) => match spec_chosen_sheet(workbook_sheets(wb), sheet) {
                Option::Some(nm) => match workbook_range(wb, nm) {
                    Option::Some(rg) => {
                        let gr = range_grid(rg);
                        if gr.len() > 0 && gr[0].len() > 0 {
                            spec_frame(spec_grid_columns(gr))
                        } else {
                            Option::None
                        }
                    },
                    Option::None => Option::None,
                },
                Option::None => Option::None,
            },
            Option::None => Option::None,
        },
    }
}

/// The faults the read stage of each format can report, with the condition
/// under which each comes.
pub open spec fn reader_fault(
    fmt: FileFormat,
    data: Seq<u8>,
    sheet: Option<Seq<char>>,
    e: ConvertError,
) -> bool {
    match fmt {
        FileFormat::Csv => e matches ConvertError::OpenError(_) && spec_csv_frame(data) is None,
        FileFormat::Json => e matches ConvertError::OpenError(_) && spec_json_frame(data) is None,
        FileFormat::Xml => flatten_post(Result::<Table, ConvertError>::Err(e), data),
        _ => crate::spreadsheet::spreadsheet_read_post(
            Result::<Table, ConvertError>::Err(e),
            data,
            sheet,
        ),
    }
}

/// What `convert` promises of its result, for a given input path, input bytes
/// and sheet request.
pub open spec fn convert_post(
    r: Result<(ConversionResult, Vec<u8>), ConvertError>,
    path: Seq<char>,
    data: Seq<u8>,
    sheet: Option<Seq<char>>,
) -> bool {
    match spec_format_of(path) {
        Option::None => r matches Err(ConvertError::UnsupportedFormat),
        Option::Some(fmt) => match r {
            Ok(pair) => pair.0.format == fmt && convert_counts(fmt, data, sheet) == Option::Some(
                (pair.0.rows as nat, pair.0.columns as nat),
            ) && (spec_convert_frame(fmt, data, sheet) matches Some(df) && spec_parquet(df)
                == Option::Some(pair.1@)),
            Err(e) => match e {
                ConvertError::UnsupportedFormat => false,
                ConvertError::IoError(_) => convert_counts(fmt, data, sheet) is Some && (match
                spec_convert_frame(fmt, data, sheet) {
                    Option::Some(df) => spec_parquet(df) is None,
                    Option::None => true,
                }),
                _ => reader_fault(fmt, data, sheet, e),
            },
        },
    }
}

/// Turns a normalized table into Parquet bytes, reporting its counts: the
/// emitted bytes are the encoding of the frame built over exactly the
/// table's columns.
fn finish_table(t: &Table, fmt: FileFormat) -> (r: Result<(ConversionResult, Vec<u8>), ConvertError>)
    ensures
        match r {
            Ok(pair) => pair.0.format == fmt && pair.0.rows == t.spec_rows() && pair.0.columns
                == t.spec_cols() && (spec_frame(spec_table_columns(*t)) matches Some(df)
                && spec_parquet(df) == Option::Some(pair.1@)),
            Err(e) => e matches ConvertError::IoError(_) && (match spec_frame(
                spec_table_columns(*t),
            ) {
                Option::Some(df) => spec_parquet(df) is None,
                Option::None => true,
            }),
        },
{
    let rows = t.rows();
    let columns = t.cols();
    let n: usize = t.columns.len();
    let mut pcols: Vec<PlColumn> = Vec::new();
    let mut i: usize = 0;
    while i < n
        invariant
            i <= n,
            n == t.columns@.len(),
            pcols@.len() == i,
            forall|k: int|
                0 <= k < i ==> pcols@[k] == spec_column(
                    (#[trigger] t.columns@[k]).name@,
                    vals_view(t.columns@[k].values),
                ),
        decreases n - i,
    {
        let c = make_column(t.columns[i].name.as_str(), &t.columns[i].values);
        pcols.push(c);
        i += 1;
    }
    proof {
        assert(pcols@ =~= spec_table_columns(*t));
    }
    let mut df = match frame_new(pcols) {
        Result::Ok(df) => df,
        Result::Err(msg) => {
            return Result::Err(ConvertError::IoError(msg));
        },
    };
    let out = match frame_to_parquet(&mut df) {
        Result::Ok(b) => b,
        Result::Err(msg) => {
            return Result::Err(ConvertError::IoError(msg));
        },
    };
    Result::Ok((ConversionResult { rows, columns, format: fmt }, out))
}

/// A table matching a record sequence stands for exactly the record
/// sequence's polars columns.
proof fn lemma_table_columns_match_records(t: Table, recs: Seq<RecModel>)
    requires
        table_matches_records(t, recs),
    ensures
        spec_table_columns(t) == spec_xml_columns(recs),
{
    let cols = spec_union(recs);
    assert forall|j: int| 0 <= j < t.columns@.len() implies #[trigger] spec_table_columns(t)[j]
        == spec_xml_columns(recs)[j] by {
        assert(t.columns@[j].name@ == cols[j]);
        let a = vals_view(t.columns@[j].values);
        let b = Seq::new(recs.len(), |i: int| spec_lookup(recs[i], cols[j]));
        assert(t.columns@[j].values@.len() == recs.len());
        assert forall|i: int| 0 <= i < recs.len() implies a[i] == b[i] by {
            assert(opt_str_view(t.columns@[j].values@[i]) == spec_lookup(recs[i], cols[j]));
        }
        assert(a =~= b);
    }
    assert(spec_table_columns(t) =~= spec_xml_columns(recs));
}

/// A table matching a cell grid stands for exactly the grid's polars columns.
proof fn lemma_table_columns_match_grid(t: Table, grid: Seq<Seq<Cell>>)
    requires
        table_matches_grid(t, grid),
    ensures
        spec_table_columns(t) == spec_grid_columns(grid),
{
    assert forall|j: int| 0 <= j < t.columns@.len() implies #[trigger] spec_table_columns(t)[j]
        == spec_grid_columns(grid)[j] by {
        assert(t.columns@[j].name@ == spec_header(grid[0], j));
        let a = vals_view(t.columns@[j].values);
        let b = Seq::new((grid.len() - 1) as nat, |i: int| spec_cell_text(grid[i + 1][j]));
        assert(t.columns@[j].values@.len() == grid.len() - 1);
        assert forall|i: int| 0 <= i < grid.len() - 1 implies a[i] == b[i] by {
            assert(opt_str_view(t.columns@[j].values@[i]) == spec_cell_text(grid[i + 1][j]));
        }
        assert(a =~= b);
    }
    assert(spec_table_columns(t) =~= spec_grid_columns(grid));
}

/// Converts one input held in memory: detects the format from the path,
/// normalizes the data to a table, and encodes it as Parquet bytes. Reports
/// the written table's row and column counts and the detected format.
pub fn convert(input_path: &str, data: Vec<u8>, sheet: Option<&str>) -> (r: Result<
    (ConversionResult, Vec<u8>),
    ConvertError,
>)
    ensures
        convert_post(r, input_path@, data@, opt_strref_view(sheet)),
{
    let fmt = match FileFormat::from_path(input_path) {
        Option::Some(f) => f,
        Option::None => {
            return Result::Err(ConvertError::UnsupportedFormat);
        },
    };
    match fmt {
        FileFormat::Csv => {
            let mut df = match read_csv_frame(data) {
                Result::Ok(df) => df,
                Result::Err(msg) => {
                    return Result::Err(ConvertError::OpenError(msg));
                },
            };
            let rows = frame_height(&df);
            let columns = frame_width(&df);
            match frame_to_parquet(&mut df) {
                Result::Ok(out) => Result::Ok(
                    (ConversionResult { rows, columns, format: fmt }, out),
                ),
                Result::Err(msg) => Result::Err(ConvertError::IoError(msg)),
            }
        },
        FileFormat::Json => {
            let mut df = match read_json_frame(data) {
                Result::Ok(df) => df,
                Result::Err(msg) => {
                    return Result::Err(ConvertError::OpenError(msg));
                },
            };
            let rows = frame_height(&df);
            let columns = frame_width(&df);
            match frame_to_parquet(&mut df) {
                Result::Ok(out) => Result::Ok(
                    (ConversionResult { rows, columns, format: fmt }, out),
                ),
                Result::Err(msg) => Result::Err(ConvertError::IoError(msg)),
            }
        },
        FileFormat::Xml => {
            let t = match flatten(data.as_slice()) {
                Result::Ok(t) => t,
                Result::Err(e) => {
                    return Result::Err(e);
                },
            };
            proof {
                match spec_xml_events(data@) {
                    Ok(evs) => lemma_table_columns_match_records(t, spec_run(evs).records),
                    Err(_) => assert(false),
                }
            }
            finish_table(&t, fmt)
        },
        _ => {
            let t = match read_spreadsheet(data, sheet) {
                Result::Ok(t) => t,
                Result::Err(e) => {
                    return Result::Err(e);
                },
            };
            proof {
                match spec_workbook(data@) {
                    Option::Some(wb) => match spec_chosen_sheet(
                        workbook_sheets(wb),
                        opt_strref_view(sheet),
                    ) {
                        Option::Some(nm) => match workbook_range(wb, nm) {
                            Option::Some(rg) => lemma_table_columns_match_grid(
                                t,
                                range_grid(rg),
                            ),
                            Option::None => assert(false),
                        },
                        Option::None => assert(false),
                    },
                    Option::None => assert(false),
                }
            }
            finish_table(&t, fmt)
        },
    }
}

/// Converting the same input twice reports the same format and the same row
/// and column counts, and emits byte-identical Parquet output: each run
/// re-derives everything from the same input bytes.
pub proof fn lemma_convert_deterministic(
    r1: Result<(ConversionResult, Vec<u8>), ConvertError>,
    r2: Result<(ConversionResult, Vec<u8>), ConvertError>,
    path: Seq<char>,
    data: Seq<u8>,
    sheet: Option<Seq<char>>,
)
    requires
        convert_post(r1, path, data, sheet),
        convert_post(r2, path, data, sheet),
        r1 is Ok,
        r2 is Ok,
    ensures
        r1->Ok_0.0.rows == r2->Ok_0.0.rows,
        r1->Ok_0.0.columns == r2->Ok_0.0.columns,
        r1->Ok_0.0.format == r2->Ok_0.0.format,
        r1->Ok_0.1@ == r2->Ok_0.1@,
{
}

} // verus!
