//! What splitting a range into chunks means: how many chunks there are and
//! what each of them holds.

use crate::cell::{display_grid, display_row, CellValue};
use crate::text::decimal_digits;
use vstd::prelude::*;

verus! {

/// The number of chunks of `size` rows that `rows` rows fill: `rows / size`
/// rounded up. Zero rows fill no chunk.
pub open spec fn chunk_count(rows: nat, size: nat) -> nat {
    if size == 0 {
        0
    } else {
        ((rows + size - 1) / (size as int)) as nat
    }
}

/// The header row of a split: the first row of the range where a header is
/// asked for and the range has a row.
pub open spec fn header_of(grid: Seq<Seq<CellValue>>, with_header: bool) -> Option<
    Seq<CellValue>,
> {
    if with_header && grid.len() > 0 {
        Some(grid[0])
    } else {
        None
    }
}

/// The data rows of a split: the rows of the range but for the header row.
pub open spec fn data_rows(grid: Seq<Seq<CellValue>>, with_header: bool) -> Seq<Seq<CellValue>> {
    if with_header && grid.len() > 0 {
        grid.skip(1)
    } else {
        grid
    }
}

/// The data rows that fall into chunk `k` (counted from zero): `size` rows
/// from row `k * size` on, or as many as are left.
pub open spec fn chunk_data(data: Seq<Seq<CellValue>>, size: nat, k: int) -> Seq<Seq<CellValue>> {
    let first = k * size;
    let end = if first + size <= data.len() {
        first + size
    } else {
        data.len() as int
    };
    data.subrange(first, end)
}

/// The rows of the file of chunk `k`, as display strings: the header row
/// where there is one, then the chunk's data rows.
pub open spec fn chunk_rows(grid: Seq<Seq<CellValue>>, size: nat, with_header: bool, k: int) -> Seq<
    Seq<Seq<char>>,
> {
    let body = display_grid(chunk_data(data_rows(grid, with_header), size, k));
    match header_of(grid, with_header) {
        Some(header) => seq![display_row(header)] + body,
        None => body,
    }
}

/// The path of the file of chunk `n` (counted from one): the input path, a
/// dot, `n` in decimal and the suffix `.xlsx`.
pub open spec fn output_path(input: Seq<char>, n: nat) -> Seq<char> {
    input + "."@ + decimal_digits(n) + ".xlsx"@
}

/// One output file of a split, as a value: where it goes and the rows it
/// holds.
pub struct ChunkView {
    pub path: Seq<char>,
    pub rows: Seq<Seq<Seq<char>>>,
}

/// The files that a split produces, in the order in which they are written.
pub open spec fn split_plan(
    input: Seq<char>,
    grid: Seq<Seq<CellValue>>,
    size: nat,
    with_header: bool,
) -> Seq<ChunkView> {
    Seq::new(
        chunk_count(data_rows(grid, with_header).len(), size),
        |k: int|
            ChunkView {
                path: output_path(input, (k + 1) as nat),
                rows: chunk_rows(grid, size, with_header, k),
            },
    )
}

/// The rounded-up quotient is the quotient, and one more where the division
/// leaves a remainder.
pub proof fn lemma_chunk_count_by_remainder(rows: nat, size: nat)
    requires
        size > 0,
    ensures
        rows % size == 0 ==> chunk_count(rows, size) == rows / size,
        rows % size != 0 ==> chunk_count(rows, size) == rows / size + 1,
{
    let q = rows / size;
    let r = rows % size;
    assert(rows == q * size + r && 0 <= r < size) by (nonlinear_arith)
        requires
            size > 0,
            q == rows / size,
            r == rows % size,
    ;
    if r == 0 {
        assert((q * size + size - 1) / (size as int) == q) by (nonlinear_arith)
            requires
                size > 0,
                q >= 0,
        ;
    } else {
        assert((q * size + r + size - 1) / (size as int) == q + 1) by (nonlinear_arith)
            requires
                size > 0,
                q >= 0,
                0 < r < size,
        ;
    }
}

/// The chunks cover the rows and none of them is empty: with `c` chunks,
/// `(c - 1) * size < rows <= c * size` where there is a row, and `c` is zero
/// where there is none.
pub proof fn lemma_chunk_count_bounds(rows: nat, size: nat)
    requires
        size > 0,
    ensures
        rows == 0 <==> chunk_count(rows, size) == 0,
        rows <= chunk_count(rows, size) * size,
        rows > 0 ==> (chunk_count(rows, size) - 1) * size < rows,
{
    lemma_chunk_count_by_remainder(rows, size);
    let q = rows / size;
    let r = rows % size;
    let c = chunk_count(rows, size);
    assert(rows == q * size + r && 0 <= r < size) by (nonlinear_arith)
        requires
            size > 0,
            q == rows / size,
            r == rows % size,
    ;
    if r == 0 {
        assert(c == q);
        assert((q - 1) * size == q * size - size) by (nonlinear_arith);
        assert(rows == 0 <==> q == 0) by (nonlinear_arith)
            requires
                rows == q * size,
                size > 0,
                q >= 0,
        ;
    } else {
        assert(c == q + 1);
        assert((q + 1) * size == q * size + size) by (nonlinear_arith);
    }
}

/// A chunk before the last chunk starts inside the rows: `k * size < rows`
/// for every `k` below the chunk count.
pub proof fn lemma_chunk_starts_inside(rows: nat, size: nat, k: int)
    requires
        size > 0,
        0 <= k < chunk_count(rows, size),
    ensures
        k * size < rows,
        (k + 1) * size == k * size + size,
        k + 1 < chunk_count(rows, size) ==> (k + 1) * size < rows,
{
    lemma_chunk_count_bounds(rows, size);
    let c = chunk_count(rows, size);
    assert(k * size <= (c - 1) * size) by (nonlinear_arith)
        requires
            0 <= k <= c - 1,
            size > 0,
    ;
    assert((k + 1) * size == k * size + size) by (nonlinear_arith);
    if k + 1 < c {
        assert((k + 1) * size <= (c - 1) * size) by (nonlinear_arith)
            requires
                0 <= k + 1 <= c - 1,
                size > 0,
        ;
    }
}

/// The number of header rows at the top of every file of a split: one
/// where there is a header, none otherwise.
pub open spec fn header_rows(grid: Seq<Seq<CellValue>>, with_header: bool) -> nat {
    if header_of(grid, with_header) is Some {
        1
    } else {
        0
    }
}

/// The number of data rows that the first `n` files of a plan hold
/// together, where every file starts with `top` header rows.
pub open spec fn data_rows_written(plan: Seq<ChunkView>, top: nat, n: nat) -> int
    decreases n,
{
    if n == 0 {
        0
    } else {
        data_rows_written(plan, top, (n - 1) as nat) + plan[n - 1].rows.len() - top
    }
}

proof fn lemma_data_rows_written(
    input: Seq<char>,
    grid: Seq<Seq<CellValue>>,
    size: nat,
    with_header: bool,
    n: nat,
)
    requires
        size > 0,
        n <= split_plan(input, grid, size, with_header).len(),
    ensures
        data_rows_written(
            split_plan(input, grid, size, with_header),
            header_rows(grid, with_header),
            n,
        ) == (if n * size <= data_rows(grid, with_header).len() {
            n * size
        } else {
            data_rows(grid, with_header).len()
        }),
    decreases n,
{
    let data = data_rows(grid, with_header);
    if n > 0 {
        lemma_data_rows_written(input, grid, size, with_header, (n - 1) as nat);
        lemma_chunk_starts_inside(data.len(), size, n - 1);
        assert(n * size == (n - 1) * size + size) by (nonlinear_arith);
    } else {
        assert(0 * size == 0) by (nonlinear_arith);
    }
}

/// A split of the data rows of a range by a positive `size` produces
/// exactly `ceil(data rows / size)` files; every file but the last holds
/// exactly `size` data rows and the last one at least one and at most
/// `size`; file `k` holds the data rows from row `k * size` on, in their
/// order, below its header rows; the files together hold as many data rows
/// as there are; and with a header every file starts with the first row of
/// the range.
pub proof fn lemma_split_partitions_rows(
    input: Seq<char>,
    grid: Seq<Seq<CellValue>>,
    size: nat,
    with_header: bool,
)
    requires
        size > 0,
    ensures
        ({
            let data = data_rows(grid, with_header);
            let plan = split_plan(input, grid, size, with_header);
            let top = header_rows(grid, with_header);
            &&& plan.len() == chunk_count(data.len(), size)
            &&& data.len() <= plan.len() * size
            &&& data.len() > 0 ==> (plan.len() - 1) * size < data.len()
            &&& forall|k: int|
                0 <= k < plan.len() - 1 ==> (#[trigger] plan[k]).rows.len() - top == size
            &&& plan.len() > 0 ==> 0 < plan.last().rows.len() - top <= size
            &&& forall|k: int|
                0 <= k < plan.len() ==> k * size + (#[trigger] plan[k]).rows.len() - top
                    <= data.len()
            &&& forall|k: int, j: int|
                0 <= k < plan.len() && 0 <= j < plan[k].rows.len() - top ==> (
                #[trigger] plan[k].rows[top + j]) == display_row(data[k * size + j])
            &&& data_rows_written(plan, top, plan.len()) == data.len()
            &&& with_header ==> forall|k: int|
                0 <= k < plan.len() ==> (#[trigger] plan[k]).rows[0] == display_row(grid[0])
        }),
{
    let data = data_rows(grid, with_header);
    let plan = split_plan(input, grid, size, with_header);
    let top = header_rows(grid, with_header);
    lemma_chunk_count_bounds(data.len(), size);
    lemma_data_rows_written(input, grid, size, with_header, plan.len());
    assert forall|k: int| 0 <= k < plan.len() - 1 implies (#[trigger] plan[k]).rows.len() - top
        == size by {
        lemma_chunk_starts_inside(data.len(), size, k);
    }
    if plan.len() > 0 {
        lemma_chunk_starts_inside(data.len(), size, plan.len() - 1);
    }
    assert forall|k: int| 0 <= k < plan.len() implies k * size + (#[trigger] plan[k]).rows.len()
        - top <= data.len() by {
        lemma_chunk_starts_inside(data.len(), size, k);
    }
    assert forall|k: int, j: int|
        0 <= k < plan.len() && 0 <= j < plan[k].rows.len() - top implies (
    #[trigger] plan[k].rows[top + j]) == display_row(data[k * size + j]) by {
        lemma_chunk_starts_inside(data.len(), size, k);
    }
}

/// A range without data rows, be it empty or made of its header row alone,
/// is split into no file at all.
pub proof fn lemma_split_of_no_data(
    input: Seq<char>,
    grid: Seq<Seq<CellValue>>,
    size: nat,
    with_header: bool,
)
    requires
        data_rows(grid, with_header).len() == 0,
    ensures
        split_plan(input, grid, size, with_header).len() == 0,
{
    if size > 0 {
        lemma_chunk_count_bounds(0, size);
    }
}

} // verus!
