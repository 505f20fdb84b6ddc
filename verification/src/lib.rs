//! Reading of SAZ capture archives: a zip container that holds, for every
//! recorded HTTP session, the raw text of the request and of the response.
//!
//! [`parse`] takes the bytes of an archive and returns one [`SazSession`] for
//! every session, in ascending order of the sequence numbers, or one
//! [`SazError`]. It goes through these steps, each of which can be used alone:
//!
//! - [`signature`] looks at the first four bytes and tells an archive with
//!   entries from an empty archive, a spanned archive and other input;
//! - [`archive`] opens the container, reads its entries and lists the files
//!   of the capture;
//! - [`index`] infers the number of sessions, and the width of their sequence
//!   numbers, from the paths of the files;
//! - [`extract`] finds the URL, the status code and the body length in the
//!   raw text;
//! - [`session`] makes one record for every sequence number.
//!
//! The container is decoded by the `zip` crate and the text is searched with
//! the `regex` crate. What these two return is known to the proofs by name
//! only; everything that the library does with it is proved.

pub mod archive;
pub mod error;
pub mod extract;
pub mod files;
pub mod index;
pub mod session;
pub mod signature;
pub mod text;

pub use error::SazError;
pub use session::{parse, SazSession};
