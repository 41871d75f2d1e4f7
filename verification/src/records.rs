//! Splitting CSV text into records and fields, which the `csv` crate does.

use vstd::prelude::*;

verus! {

/// `csv::Reader`, which reads CSV text record by record.
#[verifier::external_type_specification]
#[verifier::external_body]
#[verifier::reject_recursive_types(R)]
pub struct ExReader<R>(csv::Reader<R>);

/// What the `csv` crate's reader hands out for a text, call by call, when it
/// is set up without a header row and for records of any length: each
/// record as the list of its fields, or the reader's message where it gives
/// up on a record. Empty lines are no records.
pub uninterp spec fn csv_records(text: Seq<u8>) -> Seq<Result<Seq<Seq<u8>>, Seq<char>>>;

/// What a reader has still to hand out.
pub uninterp spec fn unread(reader: csv::Reader<&[u8]>) -> Seq<Result<Seq<Seq<u8>>, Seq<char>>>;

/// A record or a message, as plain values.
pub open spec fn record_view(record: Result<Vec<Vec<u8>>, String>) -> Result<
    Seq<Seq<u8>>,
    Seq<char>,
> {
    match record {
        Ok(fields) => Ok(fields.deep_view()),
        Err(message) => Err(message@),
    }
}

/// `csv::ReaderBuilder::from_reader` over `text`, on a builder with
/// `has_headers(false)` and `flexible(true)`: a reader that has still to
/// hand out all that [`csv_records`] names for the text.
#[verifier::external_body]
pub(crate) fn open_reader<'a>(text: &'a [u8]) -> (reader: csv::Reader<&'a [u8]>)
    ensures
        unread(reader) == csv_records(text@),
{
    csv::ReaderBuilder::new().has_headers(false).flexible(true).from_reader(text)
}

/// `csv::Reader::read_byte_record`: the next record that the reader has to
/// hand out, with its fields copied out of the reader's buffer, or the
/// message of the error in its place; nothing when the reader has nothing
/// left. Afterwards the reader has one record less to hand out.
#[verifier::external_body]
pub(crate) fn next_record(reader: &mut csv::Reader<&[u8]>) -> (next: Option<
    Result<Vec<Vec<u8>>, String>,
>)
    ensures
        match next {
            Some(record) => unread(*old(reader)).len() > 0 && record_view(record) == unread(
                *old(reader),
            )[0] && unread(*final(reader)) == unread(*old(reader)).drop_first(),
            None => unread(*old(reader)).len() == 0 && unread(*final(reader)).len() == 0,
        },
{
    let mut record = csv::ByteRecord::new();
    match reader.read_byte_record(&mut record) {
        Ok(true) => Some(Ok(record.iter().map(|field| field.to_vec()).collect())),
        Ok(false) => None,
        Err(error) => Some(Err(error.to_string())),
    }
}

} // verus!
