//! The CSV encoder of the `csv` crate, writing into memory.
//!
//! Nothing in this file is proved: Verus takes each contract here on
//! trust, and the doc comment above it says what it claims of `csv`.

use vstd::prelude::*;

verus! {

/// A `csv::Writer` that writes into a `Vec<u8>`. Verus sees nothing inside
/// it. It is held in a struct of this crate because `csv::Writer<W>` binds
/// its parameter by `std::io::Write`, which Verus does not know, so that
/// the outside type cannot be declared to Verus as it stands.
#[verifier::external_body]
pub struct CsvBuffer {
    writer: csv::Writer<Vec<u8>>,
}

/// `csv::Error`, the error of every fallible call of the `csv` crate.
#[verifier::external_type_specification]
#[verifier::external_body]
pub struct ExCsvError(csv::Error);

/// The records that a writer has been given and that were ended, first
/// record first, each as its fields.
pub uninterp spec fn written_records(writer: CsvBuffer) -> Seq<Seq<Seq<char>>>;

/// The fields that a writer has been given since the last record ended.
pub uninterp spec fn open_record(writer: CsvBuffer) -> Seq<Seq<char>>;

/// The bytes that a writer of the default configuration (comma-separated,
/// fields quoted where they need it, records ended by a line feed) hands
/// over for the records it was given.
pub uninterp spec fn csv_text(records: Seq<Seq<Seq<char>>>) -> Seq<u8>;

/// `csv::WriterBuilder::default().from_writer(..)` on an empty `Vec<u8>`:
/// a writer of the default configuration that has been given nothing.
#[verifier::external_body]
pub(crate) fn new_writer() -> (writer: CsvBuffer)
    ensures
        written_records(writer).len() == 0,
        open_record(writer).len() == 0,
{
    CsvBuffer { writer: csv::WriterBuilder::default().from_writer(Vec::new()) }
}

/// `csv::Writer::write_field`: the field is one more field of the record
/// that is being written. The call succeeds: it can fail only where the
/// writer flushes its buffer into what it writes to, and that is a
/// `Vec<u8>`, which takes every write.
#[verifier::external_body]
pub(crate) fn write_field(writer: &mut CsvBuffer, field: &str) -> (res: Result<
    (),
    csv::Error,
>)
    ensures
        res is Ok,
        written_records(*final(writer)) == written_records(*old(writer)),
        open_record(*final(writer)) == open_record(*old(writer)).push(field@),
{
    writer.writer.write_field(field)
}

/// `csv::Writer::write_record` with an empty iterator, which ends the
/// record that is being written: where it succeeds, the fields given since
/// the last record are one more record, and no field is pending. A writer
/// of the default configuration refuses a record that has another number
/// of fields than the first record had, and no other: the call succeeds
/// for the first record, and for a later one of as many fields as the
/// first.
#[verifier::external_body]
pub(crate) fn end_record(writer: &mut CsvBuffer) -> (res: Result<(), csv::Error>)
    ensures
        (written_records(*old(writer)).len() == 0 || written_records(*old(writer))[0].len()
            == open_record(*old(writer)).len()) ==> res is Ok,
        res is Ok ==> written_records(*final(writer)) == written_records(*old(writer)).push(
            open_record(*old(writer)),
        ) && open_record(*final(writer)).len() == 0,
{
    writer.writer.write_record(None::<&[u8]>)
}

/// `csv::Writer::into_inner`, which flushes the writer and hands over the
/// `Vec<u8>` it wrote into. The call succeeds, since the flush goes into
/// a `Vec<u8>`; where no field is pending, the bytes are the CSV text of
/// the records that the writer was given.
#[verifier::external_body]
pub(crate) fn into_bytes(writer: CsvBuffer) -> (res: Result<Vec<u8>, csv::Error>)
    ensures
        res is Ok,
        res matches Ok(bytes) ==> (open_record(writer).len() == 0 ==> bytes@ == csv_text(
            written_records(writer),
        )),
{
    match writer.writer.into_inner() {
        Ok(bytes) => Ok(bytes),
        Err(failure) => Err(csv::Error::from(failure.into_error())),
    }
}

/// The `Display` rendering of a `csv::Error`. Nothing is claimed of the
/// text.
#[verifier::external_body]
pub(crate) fn error_text(error: &csv::Error) -> String {
    format!("{}", error)
}

} // verus!
