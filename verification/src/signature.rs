//! What the first four bytes of an input say about it.
//!
//! A zip archive that holds entries begins with the signature of a local file
//! header. One without entries begins with the end of its central directory,
//! and a volume of a spanned archive with the spanning marker. The look at
//! the signature is cheap and tells an empty or a spanned capture apart from
//! input that is no archive at all; it does not show that what follows the
//! signature is well formed.

use vstd::prelude::*;
use crate::error::SazError;

verus! {

/// The signature of an archive that holds entries: `PK\x03\x04`.
pub open spec fn archive_signature() -> Seq<u8> {
    seq![0x50u8, 0x4Bu8, 0x03u8, 0x04u8]
}

/// The signature of an archive without entries: `PK\x05\x06`.
pub open spec fn empty_signature() -> Seq<u8> {
    seq![0x50u8, 0x4Bu8, 0x05u8, 0x06u8]
}

/// The signature of a spanned archive: `PK\x07\x08`.
pub open spec fn spanned_signature() -> Seq<u8> {
    seq![0x50u8, 0x4Bu8, 0x07u8, 0x08u8]
}

/// What kind of input the signature announces.
#[derive(Debug, Clone, Copy, PartialEq, Eq, Structural)]
pub enum ZipValidity {
    /// An archive with entries.
    Valid,
    /// An archive without entries.
    Empty,
    /// A volume of a spanned archive.
    Spanned,
    /// No archive.
    Invalid,
    /// Too short to hold a signature.
    ReadError,
}

/// The kind of input that `data` is, by its first four bytes.
pub open spec fn classify(data: Seq<u8>) -> ZipValidity {
    if data.len() < 4 {
        ZipValidity::ReadError
    } else if data.take(4) == archive_signature() {
        ZipValidity::Valid
    } else if data.take(4) == empty_signature() {
        ZipValidity::Empty
    } else if data.take(4) == spanned_signature() {
        ZipValidity::Spanned
    } else {
        ZipValidity::Invalid
    }
}

/// Whether an input of this kind can be read as a capture, and the error
/// that it ends in where it cannot.
pub open spec fn validity_result(validity: ZipValidity) -> Result<(), SazError> {
    match validity {
        ZipValidity::Valid => Ok(()),
        ZipValidity::Empty => Err(SazError::Empty),
        ZipValidity::Spanned => Err(SazError::Spanned),
        ZipValidity::Invalid => Err(SazError::Invalid),
        ZipValidity::ReadError => Err(SazError::Error),
    }
}

/// What each signature announces: an input of fewer than four bytes is a
/// `ReadError`, one that begins with a signature is what the signature stands
/// for, and one that begins with any other four bytes is `Invalid`. What
/// follows the first four bytes changes nothing.
pub proof fn lemma_classify(data: Seq<u8>)
    ensures
        data.len() < 4 ==> classify(data) == ZipValidity::ReadError,
        data.len() >= 4 && data.take(4) == archive_signature() ==> classify(data)
            == ZipValidity::Valid,
        data.len() >= 4 && data.take(4) == empty_signature() ==> classify(data)
            == ZipValidity::Empty,
        data.len() >= 4 && data.take(4) == spanned_signature() ==> classify(data)
            == ZipValidity::Spanned,
        data.len() >= 4 && data.take(4) != archive_signature() && data.take(4)
            != empty_signature() && data.take(4) != spanned_signature() ==> classify(data)
            == ZipValidity::Invalid,
        data.len() >= 4 ==> classify(data) == classify(data.take(4)),
{
    if data.len() >= 4 {
        assert(data.take(4).take(4) == data.take(4));
    }
}

/// Whether `data` begins with `PK` and the two bytes given.
fn begins_with(data: &[u8], third: u8, fourth: u8) -> (begins: bool)
    requires
        data@.len() >= 4,
    ensures
        begins == (data@.take(4) == seq![0x50u8, 0x4Bu8, third, fourth]),
{
    let begins = data[0] == 0x50 && data[1] == 0x4B && data[2] == third && data[3] == fourth;
    proof {
        let prefix = data@.take(4);
        let signature = seq![0x50u8, 0x4Bu8, third, fourth];
        if begins {
            assert(prefix =~= signature);
        }
    }
    begins
}

/// Classifies an input by its first four bytes; the rest is not looked at.
pub fn get_filetype(data: &[u8]) -> (validity: ZipValidity)
    ensures
        validity == classify(data@),
{
    if data.len() < 4 {
        ZipValidity::ReadError
    } else if begins_with(data, 0x03, 0x04) {
        ZipValidity::Valid
    } else if begins_with(data, 0x05, 0x06) {
        ZipValidity::Empty
    } else if begins_with(data, 0x07, 0x08) {
        ZipValidity::Spanned
    } else {
        ZipValidity::Invalid
    }
}

/// Accepts an input that begins as an archive with entries, and says of any
/// other why it is not accepted.
pub fn check_file_validity(data: &[u8]) -> (checked: Result<(), SazError>)
    ensures
        checked == validity_result(classify(data@)),
{
    match get_filetype(data) {
        ZipValidity::Valid => Ok(()),
        ZipValidity::Empty => Err(SazError::Empty),
        ZipValidity::Spanned => Err(SazError::Spanned),
        ZipValidity::Invalid => Err(SazError::Invalid),
        ZipValidity::ReadError => Err(SazError::Error),
    }
}

} // verus!
