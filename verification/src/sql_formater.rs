//! SQL formatting.

use sqlformat::{FormatOptions, Indent, QueryParams};
use vstd::prelude::*;

verus! {

/// The text that `sqlformat::format` gives for a query without
/// parameters, with an indent of `space` spaces, keywords in capitals if
/// `uppercase`, and `lines_between_queries` line breaks after a query.
pub uninterp spec fn sql_formatted(
    sql: Seq<char>,
    space: u8,
    uppercase: bool,
    lines_between_queries: u8,
) -> Seq<char>;

/// `sqlformat::format` with `QueryParams::None` and the options made of
/// the three settings. The text that comes back depends on the query and
/// the settings alone. Verus takes this on trust.
#[verifier::external_body]
fn format_query(sql: &str, space: u8, uppercase: bool, lines_between_queries: u8) -> (text: String)
    ensures
        text@ == sql_formatted(sql@, space, uppercase, lines_between_queries),
{
    let options = FormatOptions { indent: Indent::Spaces(space), uppercase, lines_between_queries };
    sqlformat::format(sql, &QueryParams::None, options)
}

/// The SQL formatter, as the command line configures it.
#[derive(Clone, Debug, PartialEq, Eq)]
pub struct SqlFormater {
    /// The SQL text to format.
    pub sql: String,
    /// Number of spaces of one indent.
    pub space: u8,
    /// Whether keywords are written in capitals.
    pub uppercase: bool,
}

impl SqlFormater {
    /// The SQL text, formatted with the configured indent and
    /// capitalization and one line break between queries.
    pub fn format(&self) -> (text: String)
        ensures
            text@ == sql_formatted(self.sql@, self.space, self.uppercase, 1),
    {
        format_query(self.sql.as_str(), self.space, self.uppercase, 1)
    }
}

} // verus!
