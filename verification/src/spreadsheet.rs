use vstd::prelude::*;

use crate::table::{cell_to_string, header_name, opt_str_view, spec_cell_text, spec_header, Cell,
    Column, ConvertError, Table};
use crate::text::{contains_str, keys_view, opt_strref_view};
use calamine::Data as CData;
use std::io::Cursor;

verus! {

#[verifier::external_type_specification]
#[verifier::external_body]
#[verifier::reject_recursive_types(T)]
pub struct ExCursor<T>(Cursor<T>);

#[verifier::external_type_specification]
#[verifier::external_body]
#[verifier::reject_recursive_types(RS)]
pub struct ExSheets<RS>(calamine::Sheets<RS>);

#[verifier::external_type_specification]
#[verifier::external_body]
pub struct ExData(calamine::Data);

#[verifier::external_type_specification]
#[verifier::external_body]
#[verifier::reject_recursive_types(T)]
pub struct ExRange<T>(calamine::Range<T>);

/// The workbook a byte sequence opens to, when one of the spreadsheet
/// container formats parses it. A function of the bytes alone.
pub uninterp spec fn spec_workbook(bytes: Seq<u8>) -> Option<
    calamine::Sheets<Cursor<Vec<u8>>>,
>;

/// The sheet names a workbook declares, in workbook order.
pub uninterp spec fn workbook_sheets(wb: calamine::Sheets<Cursor<Vec<u8>>>) -> Seq<Seq<char>>;

/// The cell range of the named sheet of a workbook, when that sheet loads.
pub uninterp spec fn workbook_range(wb: calamine::Sheets<Cursor<Vec<u8>>>, name: Seq<char>) -> Option<
    calamine::Range<calamine::Data>,
>;

/// The rectangular cell grid a range holds, row-major.
pub uninterp spec fn range_grid(rg: calamine::Range<calamine::Data>) -> Seq<Seq<Cell>>;

/// Relies on calamine's `open_workbook_auto_from_rs`: detects the container
/// format from the bytes and opens it as a workbook.
#[verifier::external_body]
fn open_workbook(bytes: Vec<u8>) -> (r: Result<calamine::Sheets<Cursor<Vec<u8>>>, String>)
    ensures
        match r {
            Ok(wb) => spec_workbook(bytes@) == Option::Some(wb),
            Err(_) => spec_workbook(bytes@) is None,
        },
{
    calamine::open_workbook_auto_from_rs(Cursor::new(bytes)).map_err(|e| format!("{e}"))
}

/// Relies on calamine's `Reader::sheet_names`: the workbook's sheet names in
/// workbook order.
#[verifier::external_body]
fn sheet_names(wb: &calamine::Sheets<Cursor<Vec<u8>>>) -> (r: Vec<String>)
    ensures
        keys_view(r) == workbook_sheets(*wb),
{
    calamine::Reader::sheet_names(wb)
}

/// Relies on calamine's `Reader::worksheet_range`: loads the cell range of the
/// named sheet, and fails when the workbook has no such sheet or the sheet
/// cannot be read.
#[verifier::external_body]
fn worksheet_range(wb: &mut calamine::Sheets<Cursor<Vec<u8>>>, name: &str) -> (r: Result<
    calamine::Range<calamine::Data>,
    String,
>)
    ensures
        match r {
            Ok(rg) => workbook_range(*old(wb), name@) == Option::Some(rg),
            Err(_) => workbook_range(*old(wb), name@) is None,
        },
{
    calamine::Reader::worksheet_range(wb, name).map_err(|e| format!("{e}"))
}

/// Relies on calamine's `Range::get_size`: the (height, width) of the range,
/// the dimensions of the grid `range_cell` reads.
#[verifier::external_body]
fn range_size(rg: &calamine::Range<calamine::Data>) -> (r: (usize, usize))
    ensures
        r.0 == range_grid(*rg).len(),
        forall|i: int|
            0 <= i < range_grid(*rg).len() ==> (#[trigger] range_grid(*rg)[i]).len() == r.1,
{
    calamine::Range::get_size(rg)
}

/// Relies on calamine's `Range::get`: the cell at a relative position. Values
/// with no plain-text carrier (numbers, dates, error codes) are carried over
/// in the library-native textual rendering.
#[verifier::external_body]
fn range_cell(rg: &calamine::Range<calamine::Data>, row: usize, col: usize) -> (r: Cell)
    ensures
        row < range_grid(*rg).len() && col < range_grid(*rg)[row as int].len() ==> r == range_grid(
            *rg,
        )[row as int][col as int],
{
    match calamine::Range::get(rg, (row, col)) {
        None | Some(CData::Empty) => Cell::Empty,
        Some(CData::String(s)) => Cell::Text(s.clone()),
        Some(CData::Int(i)) => Cell::Number(i.to_string()),
        Some(CData::Float(f)) => Cell::Number(f.to_string()),
        Some(CData::Bool(b)) => Cell::Bool(*b),
        Some(CData::DateTime(dt)) => Cell::DateTime(dt.to_string()),
        Some(CData::DateTimeIso(s)) => Cell::DateTimeIso(s.clone()),
        Some(CData::DurationIso(s)) => Cell::DurationIso(s.clone()),
        Some(CData::Error(e)) => Cell::CellError(format!("{:?}", e)),
    }
}

/// The view of a grid held as a vector of rows.
pub open spec fn grid_view(g: Seq<Vec<Cell>>) -> Seq<Seq<Cell>> {
    g.map_values(|r: Vec<Cell>| r@)
}

/// A table matches a grid when its columns are headed by the grid's first row
/// and hold the coerced text of the remaining rows, in order.
pub open spec fn table_matches_grid(t: Table, grid: Seq<Seq<Cell>>) -> bool {
    &&& grid.len() > 0
    &&& grid[0].len() > 0
    &&& t.wf()
    &&& t.spec_cols() == grid[0].len()
    &&& t.spec_rows() == grid.len() - 1
    &&& forall|j: int|
        0 <= j < t.spec_cols() ==> (#[trigger] t.columns@[j]).name@ == spec_header(grid[0], j)
    &&& forall|j: int, i: int|
        0 <= j < t.spec_cols() && 0 <= i < t.spec_rows() ==> opt_str_view(
            #[trigger] t.columns@[j].values@[i],
        ) == spec_cell_text(grid[i + 1][j])
}

/// Normalizes a rectangular cell grid: the first row becomes the headers,
/// every later row one table row of coerced text.
pub fn normalize_grid(grid: &Vec<Vec<Cell>>) -> (r: Result<Table, ConvertError>)
    requires
        forall|i: int| 0 <= i < grid@.len() ==> (#[trigger] grid@[i])@.len() == grid@[0]@.len(),
    ensures
        match r {
            Ok(t) => table_matches_grid(t, grid_view(grid@)),
            Err(e) => e matches ConvertError::EmptySheet && (grid@.len() == 0 || grid@[0]@.len()
                == 0),
        },
{
    let nrows: usize = grid.len();
    if nrows == 0 {
        return Result::Err(ConvertError::EmptySheet);
    }
    let ncols: usize = grid[0].len();
    if ncols == 0 {
        return Result::Err(ConvertError::EmptySheet);
    }
    let mut cols: Vec<Column> = Vec::new();
    let mut j: usize = 0;
    while j < ncols
        invariant
            j <= ncols,
            nrows == grid@.len(),
            nrows > 0,
            ncols == grid@[0]@.len(),
            ncols > 0,
            forall|i: int| 0 <= i < grid@.len() ==> (#[trigger] grid@[i])@.len() == ncols,
            cols@.len() == j,
            forall|jj: int|
                0 <= jj < j ==> (#[trigger] cols@[jj]).name@ == spec_header(grid@[0]@, jj),
            forall|jj: int| 0 <= jj < j ==> (#[trigger] cols@[jj]).values@.len() == nrows - 1,
            forall|jj: int, ii: int|
                0 <= jj < j && 0 <= ii < nrows - 1 ==> opt_str_view(
                    #[trigger] cols@[jj].values@[ii],
                ) == spec_cell_text(grid@[ii + 1]@[jj]),
        decreases ncols - j,
    {
        let name = header_name(&grid[0], j);
        let mut values: Vec<Option<String>> = Vec::new();
        let mut i: usize = 1;
        while i < nrows
            invariant
                1 <= i <= nrows,
                j < ncols,
                nrows == grid@.len(),
                ncols == grid@[0]@.len(),
                forall|ii: int| 0 <= ii < grid@.len() ==> (#[trigger] grid@[ii])@.len() == ncols,
                values@.len() == i - 1,
                forall|ii: int|
                    0 <= ii < i - 1 ==> opt_str_view(#[trigger] values@[ii]) == spec_cell_text(
                        grid@[ii + 1]@[j as int],
                    ),
            decreases nrows - i,
        {
            let v = cell_to_string(&grid[i][j]);
            values.push(v);
            i += 1;
        }
        cols.push(Column { name, values });
        j += 1;
    }
    let t = Table { columns: cols };
    proof {
        assert(t.spec_cols() == ncols);
        assert(t.spec_rows() == nrows - 1);
        assert forall|j2: int, i2: int| 0 <= j2 < t.spec_cols() && 0 <= i2 < t.spec_rows()
            implies opt_str_view(#[trigger] t.columns@[j2].values@[i2]) == spec_cell_text(
            grid_view(grid@)[i2 + 1][j2],
        ) by {
            assert(grid_view(grid@)[i2 + 1] == grid@[i2 + 1]@);
        }
        assert forall|j2: int| 0 <= j2 < t.spec_cols() implies (
        #[trigger] t.columns@[j2]).name@ == spec_header(grid_view(grid@)[0], j2) by {
            assert(grid_view(grid@)[0] == grid@[0]@);
        }
    }
    Result::Ok(t)
}

/// The sheet the normalizer works on: the requested one when it exists, else
/// the workbook's first sheet.
pub open spec fn spec_chosen_sheet(names: Seq<Seq<char>>, requested: Option<Seq<char>>) -> Option<
    Seq<char>,
> {
    match requested {
        Option::Some(n) => if names.contains(n) {
            Option::Some(n)
        } else {
            Option::None
        },
        Option::None => if names.len() > 0 {
            Option::Some(names[0])
        } else {
            Option::None
        },
    }
}

/// What `read_spreadsheet` promises of its result.
pub open spec fn spreadsheet_read_post(
    r: Result<Table, ConvertError>,
    bytes: Seq<u8>,
    requested: Option<Seq<char>>,
) -> bool {
    match r {
        Ok(t) => spec_workbook(bytes) matches Some(wb) && spec_chosen_sheet(
            workbook_sheets(wb),
            requested,
        ) matches Some(nm) && workbook_range(wb, nm) matches Some(rg) && table_matches_grid(
            t,
            range_grid(rg),
        ),
        Err(e) => match e {
            ConvertError::OpenError(_) => spec_workbook(bytes) is None || (spec_workbook(bytes)
                matches Some(wb) && requested is None && workbook_sheets(wb).len() == 0) || (
            spec_workbook(bytes) matches Some(wb) && spec_chosen_sheet(
                workbook_sheets(wb),
                requested,
            ) matches Some(nm) && workbook_range(wb, nm) is None),
            ConvertError::SheetNotFound => spec_workbook(bytes) matches Some(wb) && requested
                matches Some(n) && !workbook_sheets(wb).contains(n),
            ConvertError::EmptySheet => spec_workbook(bytes) matches Some(wb) && spec_chosen_sheet(
                workbook_sheets(wb),
                requested,
            ) matches Some(nm) && workbook_range(wb, nm) matches Some(rg) && (range_grid(rg).len()
                == 0 || range_grid(rg)[0].len() == 0),
            _ => false,
        },
    }
}

/// Opens a workbook from bytes, selects a sheet, and normalizes its grid into
/// a table.
pub fn read_spreadsheet(bytes: Vec<u8>, sheet: Option<&str>) -> (r: Result<Table, ConvertError>)
    ensures
        spreadsheet_read_post(r, bytes@, opt_strref_view(sheet)),
{
    let mut wb = match open_workbook(bytes) {
        Result::Ok(wb) => wb,
        Result::Err(msg) => {
            return Result::Err(ConvertError::OpenError(msg));
        },
    };
    let names = sheet_names(&wb);
    let chosen: String = match sheet {
        Option::Some(n) => {
            if contains_str(&names, n) {
                n.to_owned()
            } else {
                return Result::Err(ConvertError::SheetNotFound);
            }
        },
        Option::None => {
            if names.len() > 0 {
                proof {
                    assert(keys_view(names)[0] == names@[0]@);
                }
                names[0].clone()
            } else {
                return Result::Err(
                    ConvertError::OpenError(String::from_str("workbook has no sheets")),
                );
            }
        },
    };
    proof {
        assert(spec_chosen_sheet(workbook_sheets(wb), opt_strref_view(sheet)) == Option::Some(
            chosen@,
        ));
    }
    let rg = match worksheet_range(&mut wb, chosen.as_str()) {
        Result::Ok(rg) => rg,
        Result::Err(msg) => {
            return Result::Err(ConvertError::OpenError(msg));
        },
    };
    let (nrows, ncols) = range_size(&rg);
    let mut g: Vec<Vec<Cell>> = Vec::new();
    let mut i: usize = 0;
    while i < nrows
        invariant
            i <= nrows,
            nrows == range_grid(rg).len(),
            forall|a: int|
                0 <= a < range_grid(rg).len() ==> (#[trigger] range_grid(rg)[a]).len() == ncols,
            g@.len() == i,
            forall|a: int| 0 <= a < i ==> (#[trigger] g@[a])@.len() == ncols,
            forall|a: int, b: int|
                0 <= a < i && 0 <= b < ncols ==> (#[trigger] g@[a]@[b]) == range_grid(rg)[a][b],
        decreases nrows - i,
    {
        let mut row: Vec<Cell> = Vec::new();
        let mut c: usize = 0;
        while c < ncols
            invariant
                c <= ncols,
                i < nrows,
                nrows == range_grid(rg).len(),
                forall|a: int|
                    0 <= a < range_grid(rg).len() ==> (#[trigger] range_grid(rg)[a]).len()
                        == ncols,
                row@.len() == c,
                forall|b: int| 0 <= b < c ==> (#[trigger] row@[b]) == range_grid(rg)[i as int][b],
            decreases ncols - c,
        {
            let cell = range_cell(&rg, i, c);
            row.push(cell);
            c += 1;
        }
        g.push(row);
        i += 1;
    }
    proof {
        assert(grid_view(g@) =~~= range_grid(rg));
    }
    if nrows == 0 || ncols == 0 {
        return Result::Err(ConvertError::EmptySheet);
    }
    let t = match normalize_grid(&g) {
        Result::Ok(t) => t,
        Result::Err(e) => {
            return Result::Err(e);
        },
    };
    Result::Ok(t)
}

} // verus!
