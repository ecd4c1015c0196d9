//! The rectangular range of cells of one sheet, and a forward-only cursor
//! over its rows.

use crate::cell::CellValue;
use vstd::prelude::*;

verus! {

/// Whether every row of `grid` has exactly `columns` cells.
pub open spec fn rectangular(grid: Seq<Seq<CellValue>>, columns: nat) -> bool {
    forall|i: int| 0 <= i < grid.len() ==> (#[trigger] grid[i]).len() == columns
}

/// The number of columns of a grid: the length of its first row, and zero
/// for a grid without rows.
pub open spec fn grid_width(grid: Seq<Seq<CellValue>>) -> nat {
    if grid.len() == 0 {
        0
    } else {
        grid[0].len()
    }
}

/// The length of the longest row, zero where there is none.
pub open spec fn longest_row(rows: Seq<Vec<CellValue>>) -> nat
    decreases rows.len(),
{
    if rows.len() == 0 {
        0
    } else {
        let rest = longest_row(rows.drop_last());
        if rows.last()@.len() > rest {
            rows.last()@.len()
        } else {
            rest
        }
    }
}

/// A row brought to `columns` cells: its own cells first, empty cells for
/// the missing ones.
pub open spec fn padded(row: Seq<CellValue>, columns: nat) -> Seq<CellValue> {
    Seq::new(
        columns,
        |j: int|
            if j < row.len() {
                row[j]
            } else {
                CellValue::Empty
            },
    )
}

proof fn lemma_longest_row_bounds(rows: Seq<Vec<CellValue>>, i: int)
    requires
        0 <= i < rows.len(),
    ensures
        rows[i]@.len() <= longest_row(rows),
    decreases rows.len(),
{
    if i < rows.len() - 1 {
        lemma_longest_row_bounds(rows.drop_last(), i);
    }
}

/// A rectangular, zero-indexed, row-major grid of cells. Its dimensions are
/// fixed when it is made, and it is read-only afterwards.
pub struct CellRange {
    rows: Vec<Vec<CellValue>>,
    columns: usize,
}

impl View for CellRange {
    type V = Seq<Seq<CellValue>>;

    /// The rows of the range, first row first.
    closed spec fn view(&self) -> Seq<Seq<CellValue>> {
        Seq::new(self.rows@.len(), |i: int| self.rows@[i]@)
    }
}

impl CellRange {
    /// Every row has as many cells as the range has columns.
    pub open spec fn wf(&self) -> bool {
        rectangular(self@, grid_width(self@))
    }

    #[verifier::type_invariant]
    spec fn inv(self) -> bool {
        &&& self.wf()
        &&& self.columns == grid_width(self@)
    }

    /// Makes a range of the given rows. The range has as many columns as
    /// the longest row has cells; a cell that a shorter row lacks is empty.
    pub fn from_rows(rows: Vec<Vec<CellValue>>) -> (range: CellRange)
        ensures
            range.wf(),
            range@.len() == rows@.len(),
            forall|i: int|
                0 <= i < rows@.len() ==> #[trigger] range@[i] == padded(
                    rows@[i]@,
                    longest_row(rows@),
                ),
    {
        let ghost given = rows@;
        let mut rows = rows;
        let mut columns: usize = 0;
        let mut i: usize = 0;
        while i < rows.len()
            invariant
                i <= rows.len(),
                rows@ == given,
                columns == longest_row(given.take(i as int)),
            decreases rows.len() - i,
        {
            assert(given.take(i + 1).drop_last() =~= given.take(i as int));
            if rows[i].len() > columns {
                columns = rows[i].len();
            }
            i += 1;
        }
        assert(given.take(i as int) =~= given);
        let mut i: usize = 0;
        while i < rows.len()
            invariant
                i <= rows.len(),
                rows@.len() == given.len(),
                columns == longest_row(given),
                forall|k: int|
                    0 <= k < i ==> (#[trigger] rows@[k])@ == padded(given[k]@, columns as nat),
                forall|k: int| i <= k < rows@.len() ==> #[trigger] rows@[k] == given[k],
            decreases rows.len() - i,
        {
            proof {
                lemma_longest_row_bounds(given, i as int);
            }
            let ghost own = rows@[i as int]@;
            while rows[i].len() < columns
                invariant
                    i < rows.len(),
                    rows@.len() == given.len(),
                    own == given[i as int]@,
                    own.len() <= rows@[i as int]@.len() <= columns,
                    forall|j: int|
                        0 <= j < own.len() ==> (#[trigger] rows@[i as int]@[j]) == own[j],
                    forall|j: int|
                        own.len() <= j < rows@[i as int]@.len() ==> (
                        #[trigger] rows@[i as int]@[j]) == CellValue::Empty,
                    forall|k: int|
                        0 <= k < i ==> (#[trigger] rows@[k])@ == padded(
                            given[k]@,
                            columns as nat,
                        ),
                    forall|k: int| i < k < rows@.len() ==> #[trigger] rows@[k] == given[k],
                decreases columns - rows[i as int].len(),
            {
                rows[i].push(CellValue::Empty);
            }
            assert(rows@[i as int]@ =~= padded(given[i as int]@, columns as nat));
            i += 1;
        }
        let range = CellRange { rows, columns };
        assert(range@.len() == given.len());
        range
    }

    /// The dimensions of the range: its row count, then its column count.
    pub fn get_size(&self) -> (size: (usize, usize))
        ensures
            size.0 == self@.len(),
            size.1 == grid_width(self@),
            self.wf(),
    {
        proof {
            use_type_invariant(self);
        }
        (self.rows.len(), self.columns)
    }

    /// The cell at a zero-based row and column inside the range. A cell
    /// without a stored value is there as the empty cell.
    pub fn get_value(&self, row: usize, column: usize) -> (cell: &CellValue)
        requires
            row < self@.len(),
            column < grid_width(self@),
        ensures
            *cell == self@[row as int][column as int],
    {
        proof {
            use_type_invariant(self);
        }
        assert(self@[row as int].len() == grid_width(self@));
        &self.rows[row][column]
    }

    /// The cells of a row of the range, first column first.
    pub fn row(&self, row: usize) -> (cells: &[CellValue])
        requires
            row < self@.len(),
        ensures
            cells@ == self@[row as int],
            cells@.len() == grid_width(self@),
    {
        proof {
            use_type_invariant(self);
        }
        self.rows[row].as_slice()
    }

    /// A cursor that stands before the first row of the range.
    pub fn rows(&self) -> (cursor: RowCursor<'_>)
        ensures
            cursor.remaining() == self@,
    {
        let cursor = RowCursor { range: self, position: 0 };
        assert(cursor.remaining() =~= self@);
        cursor
    }
}

/// A forward-only, single-pass cursor over the rows of a range: a row that
/// it has handed out is not handed out again.
pub struct RowCursor<'a> {
    range: &'a CellRange,
    position: usize,
}

impl<'a> RowCursor<'a> {
    #[verifier::type_invariant]
    spec fn inv(self) -> bool {
        self.position <= self.range@.len()
    }

    /// The rows that the cursor has yet to hand out, next row first.
    pub closed spec fn remaining(&self) -> Seq<Seq<CellValue>> {
        self.range@.skip(self.position as int)
    }

    /// The number of rows that the cursor has yet to hand out.
    pub fn len(&self) -> (n: usize)
        ensures
            n == self.remaining().len(),
    {
        proof {
            use_type_invariant(self);
        }
        self.range.rows.len() - self.position
    }

    /// Hands out the next row and moves past it; at the end of the range
    /// there is none, and the cursor stays where it is.
    pub fn next(&mut self) -> (row: Option<&'a [CellValue]>)
        ensures
            old(self).remaining().len() == 0 ==> row is None && final(self).remaining() == old(
                self,
            ).remaining(),
            old(self).remaining().len() > 0 ==> row is Some && row->0@ == old(self).remaining()[0]
                && final(self).remaining() == old(self).remaining().skip(1),
    {
        proof {
            use_type_invariant(&*self);
        }
        if self.position < self.range.rows.len() {
            let cells = self.range.rows[self.position].as_slice();
            self.position = self.position + 1;
            assert(self.remaining() =~= old(self).remaining().skip(1));
            Some(cells)
        } else {
            None
        }
    }
}

} // verus!
