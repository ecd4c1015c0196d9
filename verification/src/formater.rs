//! JSON pretty-printing.

use vstd::prelude::*;
use vstd::utf8::encode_utf8;

verus! {

/// The longest run of decimal digits that a text may hold to be parsed.
/// The parser counts the digits of a fraction in 16 bits, downwards from
/// zero: a run of at most this length keeps the count in range.
pub const MAX_DIGIT_RUN: usize = 32767;

/// Whether the byte is an ASCII decimal digit.
pub open spec fn is_digit_byte(b: u8) -> bool {
    0x30 <= b <= 0x39
}

/// The length of the run of decimal digits that `bytes` ends with.
pub open spec fn digits_at_end(bytes: Seq<u8>) -> nat
    decreases bytes.len(),
{
    if bytes.len() == 0 || !is_digit_byte(bytes.last()) {
        0
    } else {
        digits_at_end(bytes.drop_last()) + 1
    }
}

/// Whether no run of consecutive decimal digits in `bytes` is longer than
/// `limit`.
pub open spec fn digit_runs_within(bytes: Seq<u8>, limit: nat) -> bool {
    forall|i: int| 0 <= i <= bytes.len() ==> digits_at_end(#[trigger] bytes.take(i)) <= limit
}

/// Whether no run of consecutive decimal digits in `bytes` is longer than
/// `limit`.
pub fn digit_runs_fit(bytes: &[u8], limit: usize) -> (fit: bool)
    ensures
        fit == digit_runs_within(bytes@, limit as nat),
{
    let mut run: usize = 0;
    let mut i: usize = 0;
    assert(bytes@.take(0).len() == 0);
    while i < bytes.len()
        invariant
            i <= bytes@.len(),
            run == digits_at_end(bytes@.take(i as int)),
            run <= limit,
            forall|k: int| 0 <= k <= i ==> digits_at_end(#[trigger] bytes@.take(k)) <= limit,
        decreases bytes@.len() - i,
    {
        let b: u8 = bytes[i];
        assert(bytes@.take(i + 1).drop_last() =~= bytes@.take(i as int));
        assert(bytes@.take(i + 1).last() == b);
        if 0x30 <= b && b <= 0x39 {
            if run == limit {
                assert(digits_at_end(bytes@.take(i + 1)) == limit + 1);
                return false;
            }
            run = run + 1;
        } else {
            run = 0;
        }
        i += 1;
    }
    true
}

/// `json::Error`, the error of the `json` crate's parser. Verus sees
/// nothing inside it.
#[verifier::external_type_specification]
#[verifier::external_body]
pub struct ExJsonError(json::Error);

/// The pretty-printed form of a JSON text with an indent of `spaces`
/// spaces, as `json::parse` and `JsonValue::pretty` give it; nothing where
/// the text is not JSON.
pub uninterp spec fn json_pretty(text: Seq<char>, spaces: u16) -> Option<Seq<char>>;

/// `json::parse`, and `JsonValue::pretty` on the value that it gives.
/// Whether the text parses and what is printed for it depend on the text
/// and the indent alone. Two counters of the `json` crate set the bounds
/// on what may be handed over. The parser counts the digits of a fraction
/// in 16 bits, one down for each digit: no run of digits in the text may
/// be longer than `MAX_DIGIT_RUN`. The printer multiplies the nesting
/// depth, which the parser keeps within 512 levels, by the indent in 16
/// bits: an indent of at most 64 keeps that product in range. Verus takes
/// this on trust.
#[verifier::external_body]
fn parse_and_print(text: &str, spaces: u16) -> (res: Result<String, json::Error>)
    requires
        digit_runs_within(encode_utf8(text@), MAX_DIGIT_RUN as nat),
        spaces <= 64,
    ensures
        res matches Ok(printed) ==> json_pretty(text@, spaces) == Some(printed@),
        res is Err ==> json_pretty(text@, spaces) is None,
{
    match json::parse(text) {
        Ok(value) => Ok(value.pretty(spaces)),
        Err(error) => Err(error),
    }
}

/// The `Display` rendering of a `json::Error`. Nothing is claimed of the
/// text.
#[verifier::external_body]
fn error_text(error: &json::Error) -> String {
    format!("{}", error)
}

/// Why a text was not pretty-printed.
#[derive(Clone, Debug, PartialEq, Eq)]
pub struct JsonError {
    /// The account of the failure: the parser's own where the text is not
    /// JSON.
    pub message: String,
}

/// The account of the refusal of a text with too long a run of digits.
pub open spec fn digit_run_refusal() -> Seq<char> {
    "Number with more than 32767 digits in a row"@
}

/// The JSON formatter, as the command line configures it.
#[derive(Clone, Debug, PartialEq, Eq)]
pub struct Formater {
    /// The JSON text to format.
    pub json: String,
}

impl Formater {
    /// Whether the text is handed to the parser: no run of decimal digits
    /// in its UTF-8 bytes is longer than `MAX_DIGIT_RUN`, wherever in the
    /// text the run stands.
    pub open spec fn within_digit_limit(self) -> bool {
        digit_runs_within(encode_utf8(self.json@), MAX_DIGIT_RUN as nat)
    }

    /// The JSON text pretty-printed with an indent of four spaces. A text
    /// with more than `MAX_DIGIT_RUN` decimal digits in a row is refused
    /// without being parsed; any other text gives the parser's error where
    /// it is not JSON.
    pub fn pretty(&self) -> (res: Result<String, JsonError>)
        ensures
            !self.within_digit_limit() ==> (res matches Err(e) && e.message@
                == digit_run_refusal()),
            self.within_digit_limit() ==> (res matches Ok(printed) ==> json_pretty(self.json@, 4)
                == Some(printed@)),
            self.within_digit_limit() ==> (res is Err <==> json_pretty(self.json@, 4) is None),
    {
        if !digit_runs_fit(self.json.as_str().as_bytes(), MAX_DIGIT_RUN) {
            let message = String::from_str("Number with more than 32767 digits in a row");
            return Err(JsonError { message });
        }
        match parse_and_print(self.json.as_str(), 4) {
            Ok(printed) => Ok(printed),
            Err(error) => Err(JsonError { message: error_text(&error) }),
        }
    }
}

} // verus!
