//! The errors of the spreadsheet operations.

use vstd::prelude::*;

verus! {

/// Why a spreadsheet operation failed. No operation retries: every failure
/// ends the operation that met it.
#[derive(Clone, Debug, PartialEq, Eq)]
pub enum ExcelError {
    /// The workbook has no sheet of the name that is held here.
    NotFound(String),
    /// The source file could not be parsed as a spreadsheet; the decoder's
    /// account is held here.
    DecodeError(String),
    /// A file could not be created, written or flushed; the account of the
    /// failure is held here.
    IoError(String),
    /// An argument is outside what the operation accepts; what is wrong
    /// with it is held here.
    InvalidArgument(String),
}

impl ExcelError {
    /// The text that tells a user of the failure.
    pub open spec fn message_text(self) -> Seq<char> {
        match self {
            ExcelError::NotFound(sheet) => "Cannot find '"@ + sheet@ + "'"@,
            ExcelError::DecodeError(account) => account@,
            ExcelError::IoError(account) => account@,
            ExcelError::InvalidArgument(account) => account@,
        }
    }

    /// The text that tells a user of the failure.
    pub fn message(&self) -> (text: String)
        ensures
            text@ == self.message_text(),
    {
        match self {
            ExcelError::NotFound(sheet) => {
                let mut text = String::from_str("Cannot find '");
                text.append(sheet.as_str());
                text.append("'");
                text
            },
            ExcelError::DecodeError(account) => account.clone(),
            ExcelError::IoError(account) => account.clone(),
            ExcelError::InvalidArgument(account) => account.clone(),
        }
    }
}

} // verus!
