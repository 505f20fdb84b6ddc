//! The errors that reading a capture archive can end in.

use vstd::prelude::*;
use vstd::string::StringExecFns;

verus! {

/// Why a capture archive could not be read.
#[derive(Debug, Clone, Copy, PartialEq, Eq, Structural)]
pub enum SazError {
    /// The archive holds no entry at all.
    Empty,
    /// The archive is one volume of a spanned archive.
    Spanned,
    /// The input is no capture archive, cannot be decoded, or lacks the
    /// folder or an entry that a capture must hold.
    Invalid,
    /// The input could not be read.
    Error,
}

impl SazError {
    /// The text of the message, as a sequence of characters.
    pub open spec fn message_text(self) -> Seq<char> {
        match self {
            SazError::Empty => "SAZ file is empty"@,
            SazError::Spanned => "SAZ file is spanned"@,
            SazError::Invalid => "SAZ file is invalid"@,
            SazError::Error => "Error reading file"@,
        }
    }

    /// A one-line description of the error for people to read.
    pub fn message(&self) -> (text: String)
        ensures
            text@ == self.message_text(),
    {
        match self {
            SazError::Empty => String::from_str("SAZ file is empty"),
            SazError::Spanned => String::from_str("SAZ file is spanned"),
            SazError::Invalid => String::from_str("SAZ file is invalid"),
            SazError::Error => String::from_str("Error reading file"),
        }
    }
}

/// A field that the text of a request or of a response does not hold.
#[derive(Debug, Clone, Copy, PartialEq, Eq, Structural)]
pub struct NotFound;

} // verus!
