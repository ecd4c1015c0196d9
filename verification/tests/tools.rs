use devtools::encrypter::Encrypter;
use devtools::formater::{digit_runs_fit, Formater};
use devtools::sql_formater::SqlFormater;

fn encrypter(ostr: &str, upper: bool, is16: bool) -> Encrypter {
    Encrypter { ostr: ostr.to_string(), upper, is16 }
}

#[test]
fn md5_of_hello_world() {
    assert_eq!(encrypter("hello world", false, false).md5(), "5eb63bbbe01eeed093cb22bb8f5acdc3");
    assert_eq!(encrypter("hello world", true, false).md5(), "5EB63BBBE01EEED093CB22BB8F5ACDC3");
}

#[test]
fn md5_short_form_is_the_middle_of_the_digest() {
    assert_eq!(encrypter("hello world", false, true).md5(), "e01eeed093cb22bb");
    assert_eq!(encrypter("hello world", true, true).md5(), "E01EEED093CB22BB");
}

#[test]
fn md5_writes_small_bytes_without_a_leading_zero() {
    // The digest of the empty text is d41d8cd98f00b204e9800998ecf8427e.
    assert_eq!(encrypter("", false, false).md5(), "d41d8cd98f0b24e980998ecf8427e");
    assert_eq!(encrypter("", true, false).md5(), "D41D8CD98F0B24E980998ECF8427E");
    assert_eq!(encrypter("", false, true).md5(), "8f0b24e980998");
}

#[test]
fn md5_digests_the_utf8_bytes_of_the_text() {
    assert_eq!(encrypter("\u{e9}", false, false).md5(), "66ddcd97cfdeabb2f6fb8a999b4bc76f");
    assert_eq!(encrypter("h\u{e9}llo w\u{f6}rld", false, false).md5(), "edc22cc11ede12327851863c78138");
    assert_eq!(encrypter("h\u{e9}llo w\u{f6}rld", false, true).md5(), "11ede1232785186");
    assert_eq!(encrypter("abc", false, false).md5(), "90150983cd24fb0d6963f7d28e17f72");
    assert_eq!(encrypter("abc", true, true).md5(), "3CD24FB0D6963F7D");
}

#[test]
fn print_hex_of_given_bytes() {
    let lower = encrypter("", false, false);
    let upper = encrypter("", true, false);
    assert_eq!(lower.print_hex(&[]), "");
    assert_eq!(lower.print_hex(&[0]), "0");
    assert_eq!(lower.print_hex(&[15]), "f");
    assert_eq!(lower.print_hex(&[16]), "10");
    assert_eq!(lower.print_hex(&[255]), "ff");
    assert_eq!(lower.print_hex(&[0x0a, 0xff, 0x00, 0x9c]), "aff09c");
    assert_eq!(upper.print_hex(&[0x0a, 0xff, 0x00, 0x9c]), "AFF09C");
    assert_eq!(upper.print_hex(&[0xab, 0xcd, 0xef, 0x12]), "ABCDEF12");
    assert_eq!(lower.print_hex(&[0xab, 0xcd, 0xef, 0x12]), "abcdef12");
}

#[test]
fn print_hex_agrees_with_std_on_every_byte() {
    let lower = encrypter("", false, false);
    let upper = encrypter("", true, false);
    for b in 0..=255u8 {
        assert_eq!(lower.print_hex(&[b]), format!("{:x}", b));
        assert_eq!(upper.print_hex(&[b]), format!("{:X}", b));
    }
}

#[test]
fn sql_is_formatted_with_the_given_indent() {
    let tool = SqlFormater {
        sql: "SELECT count(*),Column1 FROM Table1;".to_string(),
        space: 2,
        uppercase: false,
    };
    assert_eq!(tool.format(), "SELECT\n  count(*),\n  Column1\nFROM\n  Table1;");
    let tool = SqlFormater { space: 4, ..tool };
    assert_eq!(tool.format(), "SELECT\n    count(*),\n    Column1\nFROM\n    Table1;");
}

#[test]
fn sql_keywords_are_capitalized_on_request() {
    let tool =
        SqlFormater { sql: "select a from t where a = 1".to_string(), space: 2, uppercase: true };
    assert_eq!(tool.format(), "SELECT\n  a\nFROM\n  t\nWHERE\n  a = 1");
    let tool = SqlFormater { uppercase: false, ..tool };
    assert_eq!(tool.format(), "select\n  a\nfrom\n  t\nwhere\n  a = 1");
}

#[test]
fn sql_queries_are_one_line_break_apart() {
    let tool = SqlFormater { sql: "select 1; select 2;".to_string(), space: 2, uppercase: false };
    assert_eq!(tool.format(), "select\n  1;\nselect\n  2;");
}

#[test]
fn json_is_printed_with_four_spaces() {
    let tool = Formater { json: r#"{"a":1,"b":[true,null],"c":{}}"#.to_string() };
    let expected = "{\n    \"a\": 1,\n    \"b\": [\n        true,\n        null\n    ],\n    \"c\": {}\n}";
    assert_eq!(tool.pretty().unwrap(), expected);
    let tool = Formater { json: "  [ ]  ".to_string() };
    assert_eq!(tool.pretty().unwrap(), "[]");
}

#[test]
fn json_error_is_the_account_of_the_parser() {
    let tool = Formater { json: "{".to_string() };
    assert_eq!(tool.pretty().unwrap_err().message, "Unexpected end of JSON");
    let tool = Formater { json: "{\"a\" 1}".to_string() };
    assert_eq!(tool.pretty().unwrap_err().message, "Unexpected character: 1 at (1:6)");
}

#[test]
fn digit_runs_are_measured_over_the_whole_text() {
    assert!(digit_runs_fit(b"", 0));
    assert!(digit_runs_fit(b"abc", 0));
    assert!(!digit_runs_fit(b"a1c", 0));
    assert!(digit_runs_fit(b"12,34,56", 2));
    assert!(!digit_runs_fit(b"12,345,6", 2));
    assert!(!digit_runs_fit(b"123", 2));
    assert!(digit_runs_fit(b"123", 3));
    assert!(digit_runs_fit(b"09/:09", 2));
    assert!(digit_runs_fit(b"0123456789", usize::MAX));
}

#[test]
fn json_with_a_long_fraction_is_printed_up_to_the_limit() {
    let tool = Formater { json: format!("0.{}", "0".repeat(32767)) };
    assert_eq!(tool.pretty().unwrap(), "0");
    let tool = Formater { json: format!("[1.5, 0.{}25]", "0".repeat(32765)) };
    assert!(tool.pretty().is_ok());
}

#[test]
fn json_with_too_many_digits_in_a_row_is_refused() {
    let refusal = "Number with more than 32767 digits in a row";
    let tool = Formater { json: format!("0.{}", "0".repeat(32768)) };
    assert_eq!(tool.pretty().unwrap_err().message, refusal);
    let tool = Formater { json: format!("0.{}", "0".repeat(40000)) };
    assert_eq!(tool.pretty().unwrap_err().message, refusal);
    let tool = Formater { json: format!("{{\"a\": \"{}\"}}", "7".repeat(32768)) };
    assert_eq!(tool.pretty().unwrap_err().message, refusal);
    let tool = Formater { json: format!("{{\"a\": \"{}\"}}", "7".repeat(32767)) };
    assert!(tool.pretty().is_ok());
}
