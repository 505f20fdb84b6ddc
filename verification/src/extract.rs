//! The fields that a session record takes from the raw text of a request and
//! of a response: the URL, the status code and the length of the body.
//!
//! Captured text is not always well-formed HTTP, so the fields are searched
//! for by pattern in the whole text, and the first match counts. The URL and
//! the status are required; a response without a `Content-Length` header is
//! common, and its length counts as zero.

use vstd::prelude::*;
use crate::error::NotFound;
use crate::text::{chars_of, decimal_u32, parse_decimal};

verus! {

/// The pattern of a request line: a method, the URL, and the protocol marker
/// `HTTP/1.1`, with one blank before the URL and one after it. The URL is the
/// second group.
pub const URL_PATTERN: &'static str =
    "(GET|HEAD|POST|PUT|DELETE|CONNECT|OPTIONS|TRACE) (.*) HTTP/1\\.1";

/// The pattern of a status line: `HTTP`, then three digits somewhere after it on
/// the line. The digits are the first group.
pub const STATUS_PATTERN: &'static str = "HTTP.*([0-9][0-9][0-9])";

/// The pattern of a `Content-Length` header. The digits are the first group.
pub const LENGTH_PATTERN: &'static str = "Content-Length:\\s(\\d+)";

/// What capture group `group` covers in the first match of the regular
/// expression `pattern` in `text`: nothing where `pattern` is no regular
/// expression, where it matches nowhere in `text`, or where the group has no
/// part in the match.
pub uninterp spec fn regex_capture(pattern: Seq<char>, text: Seq<char>, group: usize) -> Option<
    Seq<char>,
>;

/// Whether `part` stands in `text` as it is: the characters of `part` are
/// those of `text` from one position to another.
pub open spec fn is_part_of(part: Seq<char>, text: Seq<char>) -> bool {
    exists|from: int, to: int| 0 <= from <= to <= text.len() && part == text.subrange(from, to)
}

/// Compiles `pattern` with `regex::Regex::new`, searches `text` with
/// `Regex::captures` and hands out the part of `text` that `Captures::get`
/// reports for `group`. The three calls return `Err` or `None` where there is
/// nothing to hand out; none of them panics. The contract gives the result its
/// name and says that it is a part of `text`, as `Match::as_str` is a slice of
/// the text that was searched; what a regular expression matches is not
/// stated here.
#[verifier::external_body]
fn capture<'a>(pattern: &str, text: &'a str, group: usize) -> (found: Option<&'a str>)
    ensures
        match found {
            Some(part) => regex_capture(pattern@, text@, group) == Some(part@) && is_part_of(
                part@,
                text@,
            ),
            None => regex_capture(pattern@, text@, group) is None,
        },
{
    let regex = regex::Regex::new(pattern).ok()?;
    let captures = regex.captures(text)?;
    let group_match = captures.get(group)?;
    Some(group_match.as_str())
}

/// The URL in the text of a request, where the text has a request line.
pub open spec fn url_of(text: Seq<char>) -> Option<Seq<char>> {
    regex_capture(URL_PATTERN@, text, 2)
}

/// The status that the digits of a status line stand for, where a status line
/// was found.
pub open spec fn status_from(digits: Option<Seq<char>>) -> Option<u32> {
    match digits {
        Some(digits) => decimal_u32(digits),
        None => None,
    }
}

/// The status code in the text of a response, where the text has a status line.
pub open spec fn status_of(text: Seq<char>) -> Option<u32> {
    status_from(regex_capture(STATUS_PATTERN@, text, 1))
}

/// The length that the digits of a `Content-Length` header stand for: zero
/// where there is no header, and where its digits are no number that a `u32`
/// can hold.
pub open spec fn length_from(digits: Option<Seq<char>>) -> u32 {
    match digits {
        Some(digits) => match decimal_u32(digits) {
            Some(length) => length,
            None => 0,
        },
        None => 0,
    }
}

/// The length of the body that the text of a response declares.
pub open spec fn length_of(text: Seq<char>) -> u32 {
    length_from(regex_capture(LENGTH_PATTERN@, text, 1))
}

/// The characters of a text that may be absent.
pub open spec fn view_of(text: Option<&str>) -> Option<Seq<char>> {
    match text {
        Some(text) => Some(text@),
        None => None,
    }
}

/// Finds the URL of a request: what stands between the method and
/// `HTTP/1.1` on the first request line of `contents`.
pub fn regex_get_url<'a>(contents: &'a str) -> (url: Result<&'a str, NotFound>)
    ensures
        match url {
            Ok(found) => url_of(contents@) == Some(found@) && is_part_of(found@, contents@),
            Err(_) => url_of(contents@) is None,
        },
{
    match capture(URL_PATTERN, contents, 2) {
        Some(found) => Ok(found),
        None => Err(NotFound),
    }
}

/// Reads the digits of a status line as a number.
pub fn status_from_capture(digits: Option<&str>) -> (status: Result<u32, NotFound>)
    ensures
        match status {
            Ok(code) => status_from(view_of(digits)) == Some(code),
            Err(_) => status_from(view_of(digits)) is None,
        },
{
    match digits {
        Some(digits) => {
            let chars = chars_of(digits);
            match parse_decimal(chars.as_slice()) {
                Some(code) => Ok(code),
                None => Err(NotFound),
            }
        },
        None => Err(NotFound),
    }
}

/// Reads the digits of a `Content-Length` header as a number.
pub fn length_from_capture(digits: Option<&str>) -> (length: u32)
    ensures
        length == length_from(view_of(digits)),
{
    match digits {
        Some(digits) => {
            let chars = chars_of(digits);
            match parse_decimal(chars.as_slice()) {
                Some(length) => length,
                None => 0,
            }
        },
        None => 0,
    }
}

/// Finds the status code of a response: the three digits of its first status
/// line.
pub fn regex_get_http_status(contents: &str) -> (status: Result<u32, NotFound>)
    ensures
        match status {
            Ok(code) => status_of(contents@) == Some(code),
            Err(_) => status_of(contents@) is None,
        },
{
    status_from_capture(capture(STATUS_PATTERN, contents, 1))
}

/// Finds the length of the body that a response declares in its
/// `Content-Length` header, and gives zero where it declares none.
pub fn regex_get_content_length(contents: &str) -> (length: u32)
    ensures
        length == length_of(contents@),
{
    length_from_capture(capture(LENGTH_PATTERN, contents, 1))
}

} // verus!
