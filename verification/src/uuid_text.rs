//! Reading a UUID from text, which the `uuid` crate does.

use vstd::prelude::*;

verus! {

/// The UUID that the `uuid` crate reads from an ASCII text, as its 128-bit
/// value; nothing where the crate rejects the text.
pub uninterp spec fn uuid_of_ascii(text: Seq<u8>) -> Option<u128>;

/// The UUID that a text in hyphenated form stands for. The hyphenated form
/// has 36 characters; a text of another length stands for none.
pub open spec fn hyphenated_uuid(text: Seq<u8>) -> Option<u128> {
    if text.len() == 36 {
        uuid_of_ascii(text)
    } else {
        None
    }
}

/// `uuid::Uuid::try_parse_ascii`, and `Uuid::as_u128` on what it returns:
/// the value of the UUID that `text` stands for, if the crate accepts the
/// text. The result is the one that [`uuid_of_ascii`] names.
#[verifier::external_body]
fn read_uuid(text: &[u8]) -> (uuid: Option<u128>)
    ensures
        uuid == uuid_of_ascii(text@),
{
    match uuid::Uuid::try_parse_ascii(text) {
        Ok(uuid) => Some(uuid.as_u128()),
        Err(_) => None,
    }
}

/// The UUID that `text` stands for in hyphenated form, if it stands for one.
pub fn parse_uuid(text: &[u8]) -> (uuid: Option<u128>)
    ensures
        uuid == hyphenated_uuid(text@),
{
    if text.len() == 36 {
        read_uuid(text)
    } else {
        None
    }
}

} // verus!
