//! The spreadsheet tool: counting, previewing, exporting and splitting the
//! range of one sheet.

use crate::cell::{display_grid, display_row, to_display_row, CellValue};
use crate::csv_writer::{
    csv_text, end_record, error_text, into_bytes, new_writer, open_record, write_field,
    written_records,
};
use crate::error::ExcelError;
use crate::preview::{clamped, preview_text, preview_window, tab_terminated};
use crate::range::{grid_width, CellRange};
use crate::split::{
    chunk_count, chunk_data, chunk_rows, data_rows, header_of,
    lemma_chunk_count_bounds, lemma_chunk_count_by_remainder, lemma_chunk_starts_inside,
    output_path, split_plan, ChunkView,
};
use crate::text::{decimal_digits, push_decimal};
use vstd::prelude::*;

verus! {

/// The operation to run on the sheet.
#[derive(Clone, Debug, PartialEq, Eq)]
pub enum SubCmd {
    /// Count the rows and columns.
    Count,
    /// Preview the first rows and columns.
    Cat {
        /// Number of rows to preview; all of them where none is given.
        row: Option<u32>,
        /// Number of columns to preview; all of them where none is given.
        column: Option<u32>,
    },
    /// Convert the sheet to CSV.
    ToCsv {
        /// Path of the CSV file.
        output: String,
    },
    /// Split the sheet into files of a bounded number of rows.
    Split {
        /// Number of data rows per file.
        line: usize,
        /// Whether the first row is a header to repeat in every file.
        header: bool,
    },
}

/// One output file of a split: where it goes and the rows it holds, each
/// cell as its display string.
#[derive(Clone, Debug, PartialEq, Eq)]
pub struct Chunk {
    /// Path of the file.
    pub path: String,
    /// Rows of the file, first row first.
    pub rows: Vec<Vec<String>>,
}

impl DeepView for Chunk {
    type V = ChunkView;

    open spec fn deep_view(&self) -> ChunkView {
        ChunkView { path: self.path@, rows: self.rows.deep_view() }
    }
}

/// What is left to do once an operation has computed its result.
#[derive(Clone, Debug, PartialEq, Eq)]
pub enum Outcome {
    /// Write the text to standard output as it is.
    Print(String),
    /// Create the file at `path`, or truncate it, and write `bytes` to it.
    WriteFile {
        /// Path of the file.
        path: String,
        /// Content of the file.
        bytes: Vec<u8>,
    },
    /// Write each chunk to a spreadsheet file of its own at its path, one
    /// after the other in the given order, and stop at the first failure.
    WriteSheets(Vec<Chunk>),
}

/// The line that reports the dimensions of a range.
pub open spec fn count_line(rows: nat, columns: nat) -> Seq<char> {
    "rows: "@ + decimal_digits(rows) + ", columns: "@ + decimal_digits(columns) + "\n"@
}

/// The spreadsheet tool, as the command line configures it.
#[derive(Clone, Debug, PartialEq, Eq)]
pub struct Xlsx {
    /// Path to the input file.
    pub input: String,
    /// Name of the sheet to work on.
    pub sheet_name: String,
    /// The operation to run.
    pub sub_cmd: SubCmd,
}

/// The failure of the CSV encoder as an error of this library: an
/// `IoError` that holds the encoder's account.
fn encoder_failure(error: &csv::Error) -> (failure: ExcelError)
    ensures
        failure is IoError,
{
    ExcelError::IoError(error_text(error))
}

impl Xlsx {
    /// The path of the `n`-th output file of a split, counted from one.
    pub fn get_output_n(&self, n: usize) -> (output: String)
        ensures
            output@ == output_path(self.input@, n as nat),
    {
        let mut output = self.input.clone();
        output.append(".");
        push_decimal(&mut output, n as u64);
        output.append(".xlsx");
        output
    }

    /// The number of files that `rows` data rows fill at `line` rows a
    /// file.
    pub fn get_times(&self, line: usize, rows: usize) -> (times: usize)
        requires
            line > 0,
        ensures
            times == chunk_count(rows as nat, line as nat),
    {
        proof {
            lemma_chunk_count_by_remainder(rows as nat, line as nat);
            assert(rows / line <= rows) by (nonlinear_arith)
                requires
                    line > 0,
                    rows >= 0,
            ;
            assert(rows % line != 0 ==> rows / line < rows) by (nonlinear_arith)
                requires
                    line > 0,
                    rows >= 0,
            ;
        }
        let times: usize = if rows % line != 0 {
            rows / line + 1
        } else {
            rows / line
        };
        times
    }

    /// Appends a row of cells to the rows of a sheet, each cell as its
    /// display string.
    pub fn append_row(&self, data_type: &[CellValue], sw: &mut Vec<Vec<String>>)
        ensures
            final(sw).deep_view() == old(sw).deep_view().push(display_row(data_type@)),
    {
        let row = to_display_row(data_type);
        sw.push(row);
        assert(sw.deep_view() =~= old(sw).deep_view().push(display_row(data_type@)));
    }

    /// Runs the configured operation on the range of the configured sheet
    /// and says what is left to do with the result: `count` and `cat` give
    /// text to print, `to-csv` the content of the file to write, `split`
    /// the sheets to write.
    pub fn run(&self, range: &CellRange) -> (res: Result<Outcome, ExcelError>)
        ensures
            (match self.sub_cmd {
                SubCmd::Count => res matches Ok(Outcome::Print(text)) && text@ == count_line(
                    range@.len(),
                    grid_width(range@),
                ),
                SubCmd::Cat { row, column } => res matches Ok(Outcome::Print(text)) && text@
                    == preview_text(preview_window(range@, row, column)),
                SubCmd::ToCsv { output } => res matches Ok(Outcome::WriteFile { path, bytes })
                    && path@ == output@ && bytes@ == csv_text(display_grid(range@)),
                SubCmd::Split { line, header } => if line == 0 {
                    res matches Err(ExcelError::InvalidArgument(_))
                } else {
                    res matches Ok(Outcome::WriteSheets(chunks)) && chunks.deep_view()
                        == split_plan(self.input@, range@, line as nat, header)
                },
            }),
    {
        match &self.sub_cmd {
            SubCmd::Count => {
                let (rows, columns) = self.count(range);
                let mut text = String::from_str("rows: ");
                push_decimal(&mut text, rows as u64);
                text.append(", columns: ");
                push_decimal(&mut text, columns as u64);
                text.append("\n");
                Ok(Outcome::Print(text))
            },
            SubCmd::Cat { row, column } => Ok(Outcome::Print(self.cat(range, *row, *column))),
            SubCmd::ToCsv { output } => {
                let bytes = self.to_csv(range)?;
                Ok(Outcome::WriteFile { path: output.clone(), bytes })
            },
            SubCmd::Split { line, header } => {
                let chunks = self.split(range, *line, *header)?;
                Ok(Outcome::WriteSheets(chunks))
            },
        }
    }

    /// The dimensions of the range: its row count, then its column count.
    pub fn count(&self, range: &CellRange) -> (size: (usize, usize))
        ensures
            size.0 == range@.len(),
            size.1 == grid_width(range@),
    {
        range.get_size()
    }

    /// The text of a preview of the range: its first `row` rows and of each
    /// the first `column` cells, or all of them where no number is given. A
    /// number beyond the size of the range is cut down to it. Every cell is
    /// followed by a tab, the last one of a row too, and every row by a
    /// line feed.
    pub fn cat(&self, range: &CellRange, row: Option<u32>, column: Option<u32>) -> (text: String)
        ensures
            text@ == preview_text(preview_window(range@, row, column)),
    {
        let size = range.get_size();
        let rows: usize = match row {
            Some(row) => {
                if row as usize > size.0 {
                    size.0
                } else {
                    row as usize
                }
            },
            None => size.0,
        };
        let columns: usize = match column {
            Some(column) => {
                if column as usize > size.1 {
                    size.1
                } else {
                    column as usize
                }
            },
            None => size.1,
        };
        let ghost window = preview_window(range@, row, column);
        assert(rows == clamped(row, range@.len()));
        assert(columns == clamped(column, grid_width(range@)));

        let mut text = String::new();
        let mut i: usize = 0;
        while i < rows
            invariant
                i <= rows <= range@.len(),
                columns <= grid_width(range@),
                window == preview_window(range@, row, column),
                window.len() == rows,
                forall|k: int| 0 <= k < rows ==> (#[trigger] window[k]).len() == columns,
                text@ == preview_text(window.take(i as int)),
            decreases rows - i,
        {
            let ghost before = text@;
            let mut j: usize = 0;
            while j < columns
                invariant
                    i < rows <= range@.len(),
                    j <= columns <= grid_width(range@),
                    window == preview_window(range@, row, column),
                    window.len() == rows,
                    window[i as int].len() == columns,
                    text@ == before + tab_terminated(window[i as int].take(j as int)),
                decreases columns - j,
            {
                let value = range.get_value(i, j);
                text.append(value.to_display_string().as_str());
                text.append("\t");
                proof {
                    reveal_strlit("\t");
                    let fields = window[i as int].take(j + 1);
                    assert(fields.drop_last() =~= window[i as int].take(j as int));
                    assert(fields.last() == range@[i as int][j as int].display());
                    assert(text@ =~= before + tab_terminated(fields));
                }
                j += 1;
            }
            text.append("\n");
            proof {
                reveal_strlit("\n");
                assert(window[i as int].take(columns as int) =~= window[i as int]);
                let lines = window.take(i + 1);
                assert(lines.drop_last() =~= window.take(i as int));
                assert(lines.last() == window[i as int]);
                assert(text@ =~= preview_text(lines));
            }
            i += 1;
        }
        assert(window.take(rows as int) =~= window);
        text
    }

    /// The range as CSV text: one record for each row, in row order, and
    /// in each record the display strings of the row's cells as its
    /// fields. Encoding into memory succeeds for every range: all its rows
    /// have the same number of cells, so the encoder refuses no record.
    pub fn to_csv(&self, range: &CellRange) -> (res: Result<Vec<u8>, ExcelError>)
        ensures
            res matches Ok(bytes) && bytes@ == csv_text(display_grid(range@)),
    {
        let size = range.get_size();
        let mut writer = new_writer();
        let mut i: usize = 0;
        while i < size.0
            invariant
                i <= size.0 == range@.len(),
                range.wf(),
                written_records(writer) == display_grid(range@.take(i as int)),
                open_record(writer).len() == 0,
            decreases size.0 - i,
        {
            let row = range.row(i);
            let mut j: usize = 0;
            while j < row.len()
                invariant
                    i < range@.len(),
                    row@ == range@[i as int],
                    j <= row@.len(),
                    written_records(writer) == display_grid(range@.take(i as int)),
                    open_record(writer) == display_row(row@.take(j as int)),
                decreases row@.len() - j,
            {
                let field = row[j].to_display_string();
                if let Err(error) = write_field(&mut writer, field.as_str()) {
                    return Err(encoder_failure(&error));
                }
                assert(display_row(row@.take(j as int)).push(row@[j as int].display())
                    =~= display_row(row@.take(j + 1)));
                j += 1;
            }
            proof {
                assert(row@.take(row@.len() as int) =~= row@);
                assert(open_record(writer).len() == grid_width(range@));
                if i > 0 {
                    assert(range@.take(i as int)[0] == range@[0]);
                    assert(written_records(writer)[0] == display_row(range@[0]));
                    assert(written_records(writer)[0].len() == grid_width(range@));
                }
            }
            if let Err(error) = end_record(&mut writer) {
                return Err(encoder_failure(&error));
            }
            proof {
                assert(display_grid(range@.take(i as int)).push(display_row(row@)) =~= display_grid(
                    range@.take(i + 1),
                ));
            }
            i += 1;
        }
        assert(range@.take(i as int) =~= range@);
        match into_bytes(writer) {
            Ok(bytes) => Ok(bytes),
            Err(error) => Err(encoder_failure(&error)),
        }
    }

    /// Partitions the data rows of the range into files of `line` rows
    /// each, the last one possibly shorter, in row order. With `is_header`
    /// the first row of the range is no data row: it is the header, and
    /// stands first in every file. A `line` of zero is refused, and nothing
    /// is produced for it; a range without data rows gives no file.
    pub fn split(&self, range: &CellRange, line: usize, is_header: bool) -> (res: Result<
        Vec<Chunk>,
        ExcelError,
    >)
        ensures
            line == 0 ==> res matches Err(ExcelError::InvalidArgument(_)),
            line > 0 ==> (res matches Ok(chunks) && chunks.deep_view() == split_plan(
                self.input@,
                range@,
                line as nat,
                is_header,
            )),
    {
        if line == 0 {
            return Err(
                ExcelError::InvalidArgument(
                    String::from_str("the number of rows to split by must be greater than zero"),
                ),
            );
        }
        let mut rows = range.rows();
        let mut header: Option<&[CellValue]> = None;
        if is_header {
            header = rows.next();
        }
        let ghost data = data_rows(range@, is_header);
        let ghost plan = split_plan(self.input@, range@, line as nat, is_header);
        assert(rows.remaining() =~= data);

        let times = self.get_times(line, rows.len());
        proof {
            lemma_chunk_count_bounds(data.len(), line as nat);
        }
        let mut chunks: Vec<Chunk> = Vec::new();
        let mut n: usize = 0;
        let ghost mut start: int = 0;
        while n < times
            invariant
                line > 0,
                data == data_rows(range@, is_header),
                plan == split_plan(self.input@, range@, line as nat, is_header),
                times == chunk_count(data.len(), line as nat),
                n <= times,
                start == n * line,
                n < times ==> start < data.len(),
                n == times ==> rows.remaining().len() == 0,
                n < times ==> rows.remaining() == data.skip(start),
                header is Some <==> header_of(range@, is_header) is Some,
                header matches Some(h) ==> h@ == header_of(range@, is_header)->0,
                chunks.len() == n,
                forall|k: int| 0 <= k < n ==> (#[trigger] chunks[k]).deep_view() == plan[k],
            decreases times - n,
        {
            let output = self.get_output_n(n + 1);
            let mut sheet: Vec<Vec<String>> = Vec::new();
            if let Some(h) = header {
                self.append_row(h, &mut sheet);
            }
            let ghost top = sheet.deep_view();
            let mut append_line: usize = 0;
            let mut exhausted = false;
            while append_line < line && !exhausted
                invariant
                    0 <= start,
                    start + append_line <= data.len(),
                    append_line <= line,
                    exhausted ==> start + append_line == data.len(),
                    rows.remaining() == data.skip(start + append_line),
                    sheet.deep_view() == top + display_grid(
                        data.subrange(start, start + append_line),
                    ),
                decreases line - append_line + (if exhausted { 0int } else { 1int }),
            {
                match rows.next() {
                    Some(row) => {
                        assert(row@ == data[start + append_line]);
                        self.append_row(row, &mut sheet);
                        assert(data.skip(start + append_line).skip(1) =~= data.skip(
                            start + append_line + 1,
                        ));
                        assert(display_grid(data.subrange(start, start + append_line)).push(
                            display_row(row@),
                        ) =~= display_grid(data.subrange(start, start + append_line + 1)));
                        append_line += 1;
                    },
                    None => {
                        exhausted = true;
                    },
                }
            }
            proof {
                lemma_chunk_starts_inside(data.len(), line as nat, n as int);
                assert(data.subrange(start, start + append_line) =~= chunk_data(
                    data,
                    line as nat,
                    n as int,
                ));
                assert(sheet.deep_view() =~= chunk_rows(range@, line as nat, is_header, n as int));
                if n + 1 == times {
                    lemma_chunk_count_bounds(data.len(), line as nat);
                    assert(times * line == start + line) by (nonlinear_arith)
                        requires
                            times == n + 1,
                            start == n * line,
                    ;
                }
                start = start + line;
            }
            chunks.push(Chunk { path: output, rows: sheet });
            n += 1;
        }
        assert(chunks.deep_view() =~= plan);
        Ok(chunks)
    }
}

} // verus!
