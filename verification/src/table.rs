use vstd::prelude::*;

use crate::text::{dec_digits, usize_to_string};

verus! {

/// The faults the pipeline can report.
#[derive(Debug, Clone, PartialEq, Eq)]
pub enum ConvertError {
    /// The input path's extension names no supported format.
    UnsupportedFormat,
    /// The container could not be opened or parsed.
    OpenError(String),
    /// An explicitly requested sheet does not exist in the workbook.
    SheetNotFound,
    /// The selected sheet has no rows or no columns.
    EmptySheet,
    /// The XML input is not well formed; carries the byte offset of the fault.
    MalformedXml(u64),
    /// The XML input holds no records.
    NoRecords,
    /// Reading, encoding or writing failed.
    IoError(String),
}

/// One cell of a spreadsheet, with source values that have no plain-text
/// carrier (numbers, dates) already rendered by the reading library.
#[derive(Debug, Clone, PartialEq, Eq)]
pub enum Cell {
    Empty,
    Text(String),
    Number(String),
    Bool(bool),
    DateTime(String),
    DateTimeIso(String),
    DurationIso(String),
    CellError(String),
}

/// The uniform coercion of a cell to optional text: absence stays absent,
/// everything else becomes exactly one string.
pub open spec fn spec_cell_text(c: Cell) -> Option<Seq<char>> {
    match c {
        Cell::Empty => Option::None,
        Cell::Text(s) => Option::Some(s@),
        Cell::Number(s) => Option::Some(s@),
        Cell::Bool(b) => Option::Some(if b { "true"@ } else { "false"@ }),
        Cell::DateTime(s) => Option::Some(s@),
        Cell::DateTimeIso(s) => Option::Some(s@),
        Cell::DurationIso(s) => Option::Some(s@),
        Cell::CellError(e) => Option::Some("ERROR: "@ + e@),
    }
}

/// Coerces one cell to optional text; total over every cell value.
pub fn cell_to_string(c: &Cell) -> (r: Option<String>)
    ensures
        match r {
            Option::Some(s) => spec_cell_text(*c) == Option::Some(s@),
            Option::None => spec_cell_text(*c) is None,
        },
{
    match c {
        Cell::Empty => Option::None,
        Cell::Text(s) => Option::Some(s.clone()),
        Cell::Number(s) => Option::Some(s.clone()),
        Cell::Bool(b) => Option::Some(
            String::from_str(if *b { "true" } else { "false" }),
        ),
        Cell::DateTime(s) => Option::Some(s.clone()),
        Cell::DateTimeIso(s) => Option::Some(s.clone()),
        Cell::DurationIso(s) => Option::Some(s.clone()),
        Cell::CellError(e) => {
            let mut s = String::from_str("ERROR: ");
            s.append(e.as_str());
            Option::Some(s)
        },
    }
}

/// One named column of optional text values.
#[derive(Debug, Clone, PartialEq, Eq)]
pub struct Column {
    pub name: String,
    pub values: Vec<Option<String>>,
}

/// A uniform in-memory table: named columns of equal length.
#[derive(Debug, Clone, PartialEq, Eq)]
pub struct Table {
    pub columns: Vec<Column>,
}

impl Table {
    /// The row count: the length every column must share.
    pub open spec fn spec_rows(self) -> nat {
        if self.columns@.len() == 0 {
            0
        } else {
            self.columns@[0].values@.len()
        }
    }

    /// The column count.
    pub open spec fn spec_cols(self) -> nat {
        self.columns@.len()
    }

    /// Well-formedness: every column holds exactly `spec_rows` values.
    pub open spec fn wf(self) -> bool {
        forall|j: int|
            0 <= j < self.columns@.len() ==> (#[trigger] self.columns@[j]).values@.len()
                == self.spec_rows()
    }

    /// No two columns share a name.
    pub open spec fn distinct_names(self) -> bool {
        forall|j: int, k: int|
            0 <= j < k < self.columns@.len() ==> (#[trigger] self.columns@[j]).name@ != (
            #[trigger] self.columns@[k]).name@
    }

    pub fn rows(&self) -> (r: usize)
        ensures
            r == self.spec_rows(),
    {
        if self.columns.len() == 0 {
            0
        } else {
            self.columns[0].values.len()
        }
    }

    pub fn cols(&self) -> (r: usize)
        ensures
            r == self.spec_cols(),
    {
        self.columns.len()
    }
}

/// The optional text a cell slot holds, as a sequence of characters.
pub open spec fn opt_str_view(o: Option<String>) -> Option<Seq<char>> {
    match o {
        Option::Some(s) => Option::Some(s@),
        Option::None => Option::None,
    }
}

/// The header of column `j`: the coerced text of the first row's cell when it
/// is present, else the synthetic name `col_<j>`.
pub open spec fn spec_header(row0: Seq<Cell>, j: int) -> Seq<char> {
    match spec_cell_text(row0[j]) {
        Option::Some(s) => s,
        Option::None => "col_"@ + dec_digits(j as nat),
    }
}

/// Builds the header for column `j` of a grid whose first row is `row0`.
pub(crate) fn header_name(row0: &Vec<Cell>, j: usize) -> (r: String)
    requires
        j < row0@.len(),
    ensures
        r@ == spec_header(row0@, j as int),
{
    match cell_to_string(&row0[j]) {
        Option::Some(s) => s,
        Option::None => {
            let mut s = String::from_str("col_");
            let digits = usize_to_string(j);
            s.append(digits.as_str());
            s
        },
    }
}

} // verus!
