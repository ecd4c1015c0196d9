//! What a preview of a range shows: a window on its first rows and columns,
//! written out with a tab after every field and a line feed after every
//! row.

use crate::cell::CellValue;
use crate::range::grid_width;
use vstd::prelude::*;

verus! {

/// The size of a preview along one axis: what was asked for, but no more
/// than there is; all there is where nothing was asked for.
pub open spec fn clamped(requested: Option<u32>, available: nat) -> nat {
    match requested {
        Some(r) => if r > available {
            available
        } else {
            r as nat
        },
        None => available,
    }
}

/// The display strings of the cells in the window that a preview shows:
/// the first `clamped(row, ..)` rows, and of each the first
/// `clamped(column, ..)` cells.
pub open spec fn preview_window(
    grid: Seq<Seq<CellValue>>,
    row: Option<u32>,
    column: Option<u32>,
) -> Seq<Seq<Seq<char>>> {
    Seq::new(
        clamped(row, grid.len()),
        |i: int| Seq::new(clamped(column, grid_width(grid)), |j: int| grid[i][j].display()),
    )
}

/// The fields of a line, each followed by a tab: the last one too.
pub open spec fn tab_terminated(fields: Seq<Seq<char>>) -> Seq<char>
    decreases fields.len(),
{
    if fields.len() == 0 {
        Seq::empty()
    } else {
        tab_terminated(fields.drop_last()) + fields.last() + seq!['\t']
    }
}

/// The lines of a preview, each made of its tab-terminated fields and
/// ended by a line feed.
pub open spec fn preview_text(lines: Seq<Seq<Seq<char>>>) -> Seq<char>
    decreases lines.len(),
{
    if lines.len() == 0 {
        Seq::empty()
    } else {
        preview_text(lines.drop_last()) + tab_terminated(lines.last()) + seq!['\n']
    }
}

/// A preview of a range of `R` rows and `C` columns, asked for `r` rows
/// and `c` columns, has exactly `min(r, R)` lines of exactly `min(c, C)`
/// fields each, and all `R` rows or all `C` columns where no number is
/// given: a request beyond the range is cut down to it, and nothing is
/// padded. Field `j` of line `i` is the display string of the cell at row
/// `i` and column `j`.
pub proof fn lemma_preview_window_size(
    grid: Seq<Seq<CellValue>>,
    row: Option<u32>,
    column: Option<u32>,
)
    ensures
        ({
            let window = preview_window(grid, row, column);
            let lines = match row {
                Some(r) => if r <= grid.len() {
                    r as nat
                } else {
                    grid.len()
                },
                None => grid.len(),
            };
            let fields = match column {
                Some(c) => if c <= grid_width(grid) {
                    c as nat
                } else {
                    grid_width(grid)
                },
                None => grid_width(grid),
            };
            &&& window.len() == lines
            &&& forall|i: int| 0 <= i < lines ==> (#[trigger] window[i]).len() == fields
            &&& forall|i: int, j: int|
                0 <= i < lines && 0 <= j < fields ==> (#[trigger] window[i][j])
                    == grid[i][j].display()
        }),
{
}

/// How many times the character `c` occurs in `text`.
pub open spec fn occurrences(text: Seq<char>, c: char) -> nat
    decreases text.len(),
{
    if text.len() == 0 {
        0
    } else {
        occurrences(text.drop_last(), c) + if text.last() == c {
            1nat
        } else {
            0nat
        }
    }
}

/// Whether none of the fields holds the character `c`.
pub open spec fn free_of(fields: Seq<Seq<char>>, c: char) -> bool {
    forall|j: int, k: int|
        0 <= j < fields.len() && 0 <= k < fields[j].len() ==> #[trigger] fields[j][k] != c
}

proof fn lemma_occurrences_concat(a: Seq<char>, b: Seq<char>, c: char)
    ensures
        occurrences(a + b, c) == occurrences(a, c) + occurrences(b, c),
    decreases b.len(),
{
    if b.len() == 0 {
        assert(a + b =~= a);
    } else {
        assert((a + b).drop_last() =~= a + b.drop_last());
        lemma_occurrences_concat(a, b.drop_last(), c);
    }
}

proof fn lemma_occurrences_none(text: Seq<char>, c: char)
    requires
        forall|k: int| 0 <= k < text.len() ==> text[k] != c,
    ensures
        occurrences(text, c) == 0,
    decreases text.len(),
{
    if text.len() > 0 {
        lemma_occurrences_none(text.drop_last(), c);
    }
}

proof fn lemma_occurrences_one(c: char, d: char)
    ensures
        occurrences(seq![d], c) == (if c == d {
            1nat
        } else {
            0nat
        }),
{
    reveal_with_fuel(occurrences, 2);
    assert(seq![d].drop_last() =~= Seq::<char>::empty());
}

proof fn lemma_tab_terminated_counts(fields: Seq<Seq<char>>, c: char)
    requires
        free_of(fields, c),
    ensures
        occurrences(tab_terminated(fields), c) == (if c == '\t' {
            fields.len()
        } else {
            0nat
        }),
    decreases fields.len(),
{
    if fields.len() > 0 {
        let rest = fields.drop_last();
        assert(free_of(rest, c)) by {
            assert forall|j: int, k: int|
                0 <= j < rest.len() && 0 <= k < rest[j].len() implies #[trigger] rest[j][k]
                != c by {
                assert(rest[j][k] == fields[j][k]);
            }
        }
        lemma_tab_terminated_counts(rest, c);
        assert forall|k: int| 0 <= k < fields.last().len() implies fields.last()[k] != c by {
            assert(fields.last()[k] == fields[fields.len() - 1][k]);
        }
        lemma_occurrences_none(fields.last(), c);
        lemma_occurrences_one(c, '\t');
        lemma_occurrences_concat(tab_terminated(rest), fields.last(), c);
        lemma_occurrences_concat(tab_terminated(rest) + fields.last(), seq!['\t'], c);
    }
}

/// Where no field holds a tab or a line feed, the text of a preview of
/// `n` lines of `columns` fields each holds exactly `n` line feeds, one at
/// the end of each line, and `n * columns` tabs, one after each field.
pub proof fn lemma_preview_text_counts(lines: Seq<Seq<Seq<char>>>, columns: nat)
    requires
        forall|i: int| 0 <= i < lines.len() ==> (#[trigger] lines[i]).len() == columns,
        forall|i: int|
            0 <= i < lines.len() ==> free_of(#[trigger] lines[i], '\t') && free_of(lines[i], '\n'),
    ensures
        occurrences(preview_text(lines), '\n') == lines.len(),
        occurrences(preview_text(lines), '\t') == lines.len() * columns,
    decreases lines.len(),
{
    if lines.len() > 0 {
        let rest = lines.drop_last();
        let head = preview_text(rest);
        let line = tab_terminated(lines.last());
        assert forall|i: int| 0 <= i < rest.len() implies (#[trigger] rest[i]).len() == columns
            && free_of(rest[i], '\t') && free_of(rest[i], '\n') by {
            assert(rest[i] == lines[i]);
        }
        lemma_preview_text_counts(rest, columns);
        assert(lines.last() == lines[lines.len() - 1]);
        lemma_tab_terminated_counts(lines.last(), '\n');
        lemma_tab_terminated_counts(lines.last(), '\t');
        lemma_occurrences_one('\n', '\n');
        lemma_occurrences_one('\t', '\n');
        lemma_occurrences_concat(head, line, '\n');
        lemma_occurrences_concat(head + line, seq!['\n'], '\n');
        lemma_occurrences_concat(head, line, '\t');
        lemma_occurrences_concat(head + line, seq!['\n'], '\t');
        assert(lines.len() * columns == (lines.len() - 1) * columns + columns)
            by (nonlinear_arith);
    } else {
        assert(0 * columns == 0) by (nonlinear_arith);
    }
}

} // verus!
