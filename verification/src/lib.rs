//! Command line development tools, as a library: spreadsheet range
//! inspection (count, preview, CSV export, split into chunks), MD5 digests
//! in hexadecimal, SQL formatting and JSON pretty-printing.
//!
//! Every function here computes on values in memory. Reading the source
//! spreadsheet, writing the produced files and printing are left to the
//! caller.

pub mod cell;
pub mod csv_writer;
pub mod encrypter;
pub mod error;
pub mod excel;
pub mod formater;
pub mod preview;
pub mod range;
pub mod split;
pub mod sql_formater;
pub mod text;
