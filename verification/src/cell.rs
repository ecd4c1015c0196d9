//! Typed cell values and the text that stands for each of them.

use crate::text::{decimal, push_signed_decimal};
use vstd::prelude::*;

verus! {

/// The error markers that a spreadsheet cell can hold in place of a value.
#[derive(Clone, Copy, Debug, PartialEq, Eq)]
pub enum CellError {
    /// Division by zero.
    Div0,
    /// Value not available.
    NA,
    /// Unknown name in a formula.
    Name,
    /// Empty intersection of two areas.
    Null,
    /// Number out of range.
    Num,
    /// Reference to a cell that does not exist.
    Ref,
    /// Operand of the wrong type.
    Value,
    /// Data still being fetched.
    GettingData,
}

impl CellError {
    /// The marker as a spreadsheet shows it.
    pub open spec fn code(self) -> Seq<char> {
        match self {
            CellError::Div0 => "#DIV/0!"@,
            CellError::NA => "#N/A"@,
            CellError::Name => "#NAME?"@,
            CellError::Null => "#NULL!"@,
            CellError::Num => "#NUM!"@,
            CellError::Ref => "#REF!"@,
            CellError::Value => "#VALUE!"@,
            CellError::GettingData => "#DATA!"@,
        }
    }

    /// The marker as a spreadsheet shows it.
    pub fn as_str(&self) -> (s: &'static str)
        ensures
            s@ == self.code(),
    {
        match self {
            CellError::Div0 => "#DIV/0!",
            CellError::NA => "#N/A",
            CellError::Name => "#NAME?",
            CellError::Null => "#NULL!",
            CellError::Num => "#NUM!",
            CellError::Ref => "#REF!",
            CellError::Value => "#VALUE!",
            CellError::GettingData => "#DATA!",
        }
    }
}

/// One cell of a sheet.
///
/// A floating-point cell is held by its decimal rendering, fixed when the
/// sheet is decoded: the rendering is all that this library reads of it.
#[derive(Clone, Debug, PartialEq, Eq)]
pub enum CellValue {
    /// No stored value.
    Empty,
    /// A boolean.
    Bool(bool),
    /// A signed integer.
    Int(i64),
    /// A floating-point number, by its decimal rendering.
    Float(String),
    /// A string.
    Text(String),
    /// An error marker.
    Error(CellError),
}

impl CellValue {
    /// The canonical display string of the cell: nothing for an empty cell,
    /// `true` or `false` for a boolean, the decimal digits of an integer,
    /// the held text of a float or a string, the marker of an error.
    pub open spec fn display(self) -> Seq<char> {
        match self {
            CellValue::Empty => Seq::empty(),
            CellValue::Bool(b) => if b {
                "true"@
            } else {
                "false"@
            },
            CellValue::Int(i) => decimal(i as int),
            CellValue::Float(s) => s@,
            CellValue::Text(s) => s@,
            CellValue::Error(e) => e.code(),
        }
    }

    /// Renders the cell as its display string.
    pub fn to_display_string(&self) -> (s: String)
        ensures
            s@ == self.display(),
    {
        match self {
            CellValue::Empty => String::new(),
            CellValue::Bool(b) => if *b {
                String::from_str("true")
            } else {
                String::from_str("false")
            },
            CellValue::Int(i) => {
                let mut s = String::new();
                push_signed_decimal(&mut s, *i);
                s
            },
            CellValue::Float(t) => t.clone(),
            CellValue::Text(t) => t.clone(),
            CellValue::Error(e) => String::from_str(e.as_str()),
        }
    }
}

/// The display strings of a row of cells, in order.
pub open spec fn display_row(cells: Seq<CellValue>) -> Seq<Seq<char>> {
    Seq::new(cells.len(), |j: int| cells[j].display())
}

/// The display strings of the rows of a grid.
pub open spec fn display_grid(grid: Seq<Seq<CellValue>>) -> Seq<Seq<Seq<char>>> {
    Seq::new(grid.len(), |i: int| display_row(grid[i]))
}

/// The display strings of a grid of `columns` columns keep its shape: there
/// are as many rows of strings as rows of cells, each of `columns`
/// strings, and string `j` of row `i` is the display string of the cell at
/// row `i` and column `j`. These rows are the records that the CSV export
/// hands to its encoder.
pub proof fn lemma_display_grid_shape(grid: Seq<Seq<CellValue>>, columns: nat)
    requires
        forall|i: int| 0 <= i < grid.len() ==> (#[trigger] grid[i]).len() == columns,
    ensures
        display_grid(grid).len() == grid.len(),
        forall|i: int| 0 <= i < grid.len() ==> (#[trigger] display_grid(grid)[i]).len() == columns,
        forall|i: int, j: int|
            0 <= i < grid.len() && 0 <= j < columns ==> (#[trigger] display_grid(grid)[i][j])
                == grid[i][j].display(),
{
}

/// Renders each cell of a row as its display string, keeping length and
/// order.
pub fn to_display_row(cells: &[CellValue]) -> (row: Vec<String>)
    ensures
        row.deep_view() == display_row(cells@),
{
    let mut row: Vec<String> = Vec::new();
    let mut j: usize = 0;
    while j < cells.len()
        invariant
            j <= cells.len(),
            row.len() == j,
            forall|k: int| 0 <= k < j ==> row[k]@ == cells[k].display(),
        decreases cells.len() - j,
    {
        row.push(cells[j].to_display_string());
        j += 1;
    }
    assert(row.deep_view() =~= display_row(cells@));
    row
}

} // verus!
