use devtools::cell::{CellError, CellValue};
use devtools::error::ExcelError;
use devtools::excel::{Chunk, Outcome, SubCmd, Xlsx};
use devtools::range::CellRange;

fn xlsx(input: &str, sub_cmd: SubCmd) -> Xlsx {
    Xlsx { input: input.to_string(), sheet_name: "Sheet1".to_string(), sub_cmd }
}

fn text(s: &str) -> CellValue {
    CellValue::Text(s.to_string())
}

fn grid(rows: usize, columns: usize) -> CellRange {
    let mut all = Vec::new();
    for r in 0..rows {
        let mut row = Vec::new();
        for c in 0..columns {
            row.push(text(&format!("r{}c{}", r, c)));
        }
        all.push(row);
    }
    CellRange::from_rows(all)
}

fn mixed() -> CellRange {
    CellRange::from_rows(vec![
        vec![text("name"), text("score"), text("passed")],
        vec![text("Ann"), CellValue::Int(12), CellValue::Bool(true)],
        vec![text("Bob"), CellValue::Float("7.5".to_string()), CellValue::Bool(false)],
        vec![CellValue::Empty, CellValue::Error(CellError::Div0), CellValue::Int(-3)],
    ])
}

fn lines_and_fields(preview: &str) -> Vec<Vec<String>> {
    let mut lines = Vec::new();
    assert!(preview.is_empty() || preview.ends_with('\n'));
    for line in preview.split_terminator('\n') {
        assert!(line.is_empty() || line.ends_with('\t'));
        lines.push(line.split_terminator('\t').map(|f| f.to_string()).collect());
    }
    lines
}

fn parse_csv(bytes: &[u8]) -> Vec<Vec<String>> {
    let mut reader = csv::ReaderBuilder::new().has_headers(false).from_reader(bytes);
    let mut records = Vec::new();
    for record in reader.records() {
        records.push(record.unwrap().iter().map(|f| f.to_string()).collect());
    }
    records
}

#[test]
fn count_gives_rows_then_columns() {
    let tool = xlsx("in.xlsx", SubCmd::Count);
    assert_eq!(tool.count(&grid(10, 4)), (10, 4));
    assert_eq!(tool.count(&grid(1, 1)), (1, 1));
    assert_eq!(tool.count(&grid(0, 0)), (0, 0));
    assert_eq!(tool.count(&mixed()), (4, 3));
}

#[test]
fn count_of_ten_by_four_is_printed_on_one_line() {
    let tool = xlsx("in.xlsx", SubCmd::Count);
    assert_eq!(
        tool.run(&grid(10, 4)),
        Ok(Outcome::Print("rows: 10, columns: 4\n".to_string()))
    );
    assert_eq!(tool.run(&grid(0, 0)), Ok(Outcome::Print("rows: 0, columns: 0\n".to_string())));
}

#[test]
fn preview_of_the_whole_range() {
    let tool = xlsx("in.xlsx", SubCmd::Count);
    let preview = tool.cat(&mixed(), None, None);
    assert_eq!(
        preview,
        "name\tscore\tpassed\t\nAnn\t12\ttrue\t\nBob\t7.5\tfalse\t\n\t#DIV/0!\t-3\t\n"
    );
}

#[test]
fn preview_ends_every_field_with_a_tab() {
    let tool = xlsx("in.xlsx", SubCmd::Count);
    assert_eq!(tool.cat(&grid(1, 1), None, None), "r0c0\t\n");
    assert_eq!(tool.cat(&grid(2, 2), Some(1), Some(2)), "r0c0\tr0c1\t\n");
    assert_eq!(tool.cat(&grid(2, 2), Some(2), Some(1)), "r0c0\t\nr1c0\t\n");
}

#[test]
fn preview_is_cut_down_to_the_range_and_never_padded() {
    let tool = xlsx("in.xlsx", SubCmd::Count);
    let range = grid(3, 4);
    let requests = [None, Some(0), Some(1), Some(2), Some(3), Some(4), Some(5), Some(u32::MAX)];
    for row in requests {
        for column in requests {
            let preview = tool.cat(&range, row, column);
            let lines = lines_and_fields(&preview);
            let rows = row.map_or(3, |r| (r as usize).min(3));
            let columns = column.map_or(4, |c| (c as usize).min(4));
            assert_eq!(lines.len(), rows);
            for (i, line) in lines.iter().enumerate() {
                assert_eq!(line.len(), columns);
                for (j, field) in line.iter().enumerate() {
                    assert_eq!(*field, format!("r{}c{}", i, j));
                }
            }
        }
    }
}

#[test]
fn preview_of_no_rows_or_no_columns() {
    let tool = xlsx("in.xlsx", SubCmd::Count);
    assert_eq!(tool.cat(&grid(3, 4), Some(0), None), "");
    assert_eq!(tool.cat(&grid(3, 4), Some(2), Some(0)), "\n\n");
    assert_eq!(tool.cat(&grid(0, 0), None, None), "");
    assert_eq!(tool.cat(&grid(0, 0), Some(7), Some(7)), "");
}

#[test]
fn preview_through_run() {
    let tool = xlsx("in.xlsx", SubCmd::Cat { row: Some(1), column: Some(9) });
    assert_eq!(tool.run(&mixed()), Ok(Outcome::Print("name\tscore\tpassed\t\n".to_string())));
}

#[test]
fn csv_of_plain_cells() {
    let tool = xlsx("in.xlsx", SubCmd::Count);
    let bytes = tool.to_csv(&mixed()).unwrap();
    assert_eq!(
        String::from_utf8(bytes).unwrap(),
        "name,score,passed\nAnn,12,true\nBob,7.5,false\n,#DIV/0!,-3\n"
    );
}

#[test]
fn csv_quotes_the_fields_that_need_it() {
    let tool = xlsx("in.xlsx", SubCmd::Count);
    let range = CellRange::from_rows(vec![
        vec![text("a,b"), text("say \"hi\"")],
        vec![text("two\nlines"), text(" plain ")],
    ]);
    let bytes = tool.to_csv(&range).unwrap();
    assert_eq!(
        String::from_utf8(bytes).unwrap(),
        "\"a,b\",\"say \"\"hi\"\"\"\n\"two\nlines\", plain \n"
    );
}

#[test]
fn csv_of_an_empty_range_is_empty() {
    let tool = xlsx("in.xlsx", SubCmd::Count);
    assert_eq!(tool.to_csv(&grid(0, 0)), Ok(Vec::new()));
}

#[test]
fn csv_read_back_gives_the_display_strings() {
    let tool = xlsx("in.xlsx", SubCmd::Count);
    let range = CellRange::from_rows(vec![
        vec![text("a,b"), CellValue::Int(-7), text("say \"hi\""), CellValue::Empty],
        vec![text("two\nlines"), CellValue::Bool(true), text("\u{e9}t\u{e9}"), text("x")],
        vec![CellValue::Empty, CellValue::Empty, CellValue::Empty, CellValue::Empty],
        vec![
            text("tab\there"),
            CellValue::Float("1e-7".to_string()),
            CellValue::Error(CellError::Ref),
            text("\r\n"),
        ],
    ]);
    let records = parse_csv(&tool.to_csv(&range).unwrap());
    let (rows, columns) = range.get_size();
    assert_eq!(records.len(), rows);
    for i in 0..rows {
        assert_eq!(records[i].len(), columns);
        for j in 0..columns {
            assert_eq!(records[i][j], range.get_value(i, j).to_display_string());
        }
    }
}

#[test]
fn csv_read_back_of_single_column_of_empty_cells() {
    let tool = xlsx("in.xlsx", SubCmd::Count);
    let range = CellRange::from_rows(vec![vec![CellValue::Empty], vec![text("x")], vec![text("")]]);
    let bytes = tool.to_csv(&range).unwrap();
    assert_eq!(String::from_utf8(bytes.clone()).unwrap(), "\"\"\nx\n\"\"\n");
    assert_eq!(parse_csv(&bytes), vec![vec![""], vec!["x"], vec![""]]);
}

#[test]
fn csv_through_run_names_the_output_file() {
    let tool = xlsx("in.xlsx", SubCmd::ToCsv { output: "out.csv".to_string() });
    assert_eq!(
        tool.run(&grid(2, 2)),
        Ok(Outcome::WriteFile {
            path: "out.csv".to_string(),
            bytes: b"r0c0,r0c1\nr1c0,r1c1\n".to_vec()
        })
    );
}

#[test]
fn times_is_the_quotient_rounded_up() {
    let tool = xlsx("in.xlsx", SubCmd::Count);
    assert_eq!(tool.get_times(2, 5), 3);
    assert_eq!(tool.get_times(2, 6), 3);
    assert_eq!(tool.get_times(2, 0), 0);
    assert_eq!(tool.get_times(1, 7), 7);
    assert_eq!(tool.get_times(7, 1), 1);
    assert_eq!(tool.get_times(7, 7), 1);
    assert_eq!(tool.get_times(7, 8), 2);
    assert_eq!(tool.get_times(1, usize::MAX), usize::MAX);
    assert_eq!(tool.get_times(usize::MAX, usize::MAX), 1);
    assert_eq!(tool.get_times(usize::MAX, usize::MAX - 1), 1);
    assert_eq!(tool.get_times(2, usize::MAX), usize::MAX / 2 + 1);
}

#[test]
fn output_path_is_input_dot_number_dot_xlsx() {
    let tool = xlsx("data/book.xlsx", SubCmd::Count);
    assert_eq!(tool.get_output_n(1), "data/book.xlsx.1.xlsx");
    assert_eq!(tool.get_output_n(10), "data/book.xlsx.10.xlsx");
    assert_eq!(tool.get_output_n(0), "data/book.xlsx.0.xlsx");
    assert_eq!(tool.get_output_n(1234567), "data/book.xlsx.1234567.xlsx");
    assert_eq!(tool.get_output_n(usize::MAX), format!("data/book.xlsx.{}.xlsx", usize::MAX));
    assert_eq!(xlsx("", SubCmd::Count).get_output_n(3), ".3.xlsx");
}

#[test]
fn append_row_adds_the_display_strings_as_last_row() {
    let tool = xlsx("in.xlsx", SubCmd::Count);
    let mut sheet = vec![vec!["kept".to_string()]];
    tool.append_row(&[CellValue::Int(5), CellValue::Empty, text("t")], &mut sheet);
    tool.append_row(&[], &mut sheet);
    assert_eq!(sheet, vec![vec!["kept"], vec!["5", "", "t"], vec![]]);
}

fn data_row_counts(chunks: &[Chunk], header: bool) -> Vec<usize> {
    chunks.iter().map(|c| c.rows.len() - if header { 1 } else { 0 }).collect()
}

#[test]
fn split_partitions_the_data_rows() {
    let tool = xlsx("in.xlsx", SubCmd::Count);
    for rows in 0..14usize {
        for size in 1..7usize {
            for header in [false, true] {
                let range = grid(rows, 2);
                let chunks = tool.split(&range, size, header).unwrap();
                let has_header = header && rows > 0;
                let data = if has_header { rows - 1 } else { rows };
                let first = if has_header { 1 } else { 0 };
                assert_eq!(chunks.len(), (data + size - 1) / size);
                let counts = data_row_counts(&chunks, has_header);
                assert_eq!(counts.iter().sum::<usize>(), data);
                for (k, chunk) in chunks.iter().enumerate() {
                    assert_eq!(chunk.path, format!("in.xlsx.{}.xlsx", k + 1));
                    if k + 1 < chunks.len() {
                        assert_eq!(counts[k], size);
                    } else {
                        assert!(0 < counts[k] && counts[k] <= size);
                    }
                    if has_header {
                        assert_eq!(chunk.rows[0], vec!["r0c0", "r0c1"]);
                    }
                    for j in 0..counts[k] {
                        let r = first + k * size + j;
                        assert_eq!(
                            chunk.rows[first + j],
                            vec![format!("r{}c0", r), format!("r{}c1", r)]
                        );
                    }
                }
            }
        }
    }
}

#[test]
fn split_of_no_data_rows_gives_no_file() {
    let tool = xlsx("in.xlsx", SubCmd::Count);
    assert_eq!(tool.split(&grid(0, 0), 3, false), Ok(Vec::new()));
    assert_eq!(tool.split(&grid(0, 0), 3, true), Ok(Vec::new()));
    assert_eq!(tool.split(&grid(1, 5), 3, true), Ok(Vec::new()));
    assert_eq!(tool.split(&grid(1, 5), 1, true), Ok(Vec::new()));
}

#[test]
fn split_by_more_rows_than_there_are_gives_one_file() {
    let tool = xlsx("in.xlsx", SubCmd::Count);
    let chunks = tool.split(&grid(3, 1), 100, false).unwrap();
    assert_eq!(
        chunks,
        vec![Chunk {
            path: "in.xlsx.1.xlsx".to_string(),
            rows: vec![vec!["r0c0".to_string()], vec!["r1c0".to_string()], vec!["r2c0".to_string()]],
        }]
    );
    let chunks = tool.split(&grid(3, 1), usize::MAX, true).unwrap();
    assert_eq!(
        chunks,
        vec![Chunk {
            path: "in.xlsx.1.xlsx".to_string(),
            rows: vec![vec!["r0c0".to_string()], vec!["r1c0".to_string()], vec!["r2c0".to_string()]],
        }]
    );
}

#[test]
fn split_renders_every_kind_of_cell() {
    let tool = xlsx("in.xlsx", SubCmd::Count);
    let chunks = tool.split(&mixed(), 2, true).unwrap();
    assert_eq!(chunks.len(), 2);
    assert_eq!(
        chunks[0].rows,
        vec![vec!["name", "score", "passed"], vec!["Ann", "12", "true"], vec!["Bob", "7.5", "false"]]
    );
    assert_eq!(chunks[1].rows, vec![vec!["name", "score", "passed"], vec!["", "#DIV/0!", "-3"]]);
}

#[test]
fn split_through_run() {
    let range = grid(5, 2);
    let tool = xlsx("in.xlsx", SubCmd::Split { line: 2, header: false });
    let expected = tool.split(&range, 2, false).unwrap();
    assert_eq!(expected.len(), 3);
    assert_eq!(tool.run(&range), Ok(Outcome::WriteSheets(expected)));
    let tool = xlsx("in.xlsx", SubCmd::Split { line: 0, header: true });
    assert!(matches!(tool.run(&range), Err(ExcelError::InvalidArgument(_))));
}

#[test]
fn csv_of_rows_without_columns_ends_every_record() {
    let tool = xlsx("in.xlsx", SubCmd::Count);
    let range = CellRange::from_rows(vec![vec![], vec![]]);
    assert_eq!(range.get_size(), (2, 0));
    assert_eq!(String::from_utf8(tool.to_csv(&range).unwrap()).unwrap(), "\"\"\n\"\"\n");
}

#[test]
fn preview_writes_a_field_as_it_is() {
    let tool = xlsx("in.xlsx", SubCmd::Count);
    let range = CellRange::from_rows(vec![vec![text("a\tb"), text("c\nd")]]);
    assert_eq!(tool.cat(&range, None, None), "a\tb\tc\nd\t\n");
}

#[test]
fn csv_succeeds_on_ranges_of_every_shape() {
    let tool = xlsx("in.xlsx", SubCmd::Count);
    for rows in 0..6usize {
        for columns in 0..5usize {
            let range = grid(rows, columns);
            let bytes = tool.to_csv(&range).unwrap();
            if columns > 0 {
                let records = parse_csv(&bytes);
                assert_eq!(records.len(), rows);
                for record in &records {
                    assert_eq!(record.len(), columns);
                }
            }
        }
    }
    let ragged = CellRange::from_rows(vec![vec![text("a")], vec![], vec![text("b"), text("c")]]);
    assert_eq!(String::from_utf8(tool.to_csv(&ragged).unwrap()).unwrap(), "a,\n,\nb,c\n");
}
