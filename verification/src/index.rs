//! How many sessions an archive holds, inferred from the names of its entries.
//!
//! The entries of one session are named by its sequence number, written with
//! zeros in front to a width that is the same for all of them, as in
//! `raw/007_c.txt`. The archive has no list of its sessions: their number is
//! the greatest sequence number that an entry name holds. A name holds a
//! sequence number where a numeral stands between its first `/` and its first
//! `_`; every other name is passed over.

use vstd::prelude::*;
use crate::files::{SazFile, file_views, paths_of};
use crate::text::{
    chars_of, decimal_u32, digits_of, find_char, lemma_numeral_is_padded, lemma_position_in,
    padded_decimal, parse_decimal, position_in,
};

verus! {

/// The part of `path` where a sequence number stands: what lies between the
/// first `/` and the first `_` of the path. There is no such part in a path
/// without a `_`, in one without a `/` before its first `_`, and in one with
/// a second `/` before its first `_`.
pub open spec fn sequence_segment(path: Seq<char>) -> Option<Seq<char>> {
    let stop = position_in(path, '_', 0, path.len() as int);
    let slash = position_in(path, '/', 0, stop);
    if slash < stop < path.len() && position_in(path, '/', slash + 1, stop) == stop {
        Some(path.subrange(slash + 1, stop))
    } else {
        None
    }
}

/// The sequence number in `path` and the number of characters it is written
/// with, where `path` holds a sequence number.
pub open spec fn sequence_number(path: Seq<char>) -> Option<(u32, nat)> {
    match sequence_segment(path) {
        Some(segment) => match decimal_u32(segment) {
            Some(number) => Some((number, segment.len())),
            None => None,
        },
        None => None,
    }
}

/// Whether `path` holds, behind a `/`, the number `n` written in `width`
/// characters, with zeros in front where its digits are fewer, and a `_`
/// behind it.
pub open spec fn holds_number(path: Seq<char>, n: u32, width: nat) -> bool {
    exists|slash: int|
        0 <= slash && slash + 1 + width < path.len() && #[trigger] path[slash] == '/'
            && path.subrange(slash + 1, slash + 1 + width) == padded_decimal(n as nat, width)
            && path[slash + 1 + width] == '_'
}

/// A path from which a sequence number is read holds that number: behind a
/// `/`, followed by `_`, and written as the number padded to the width that
/// is read with it, which is no less than the number of its digits.
pub proof fn lemma_sequence_number_held(path: Seq<char>)
    ensures
        sequence_number(path) matches Some(found) ==> holds_number(path, found.0, found.1)
            && digits_of(found.0 as nat).len() <= found.1,
{
    if let Some(found) = sequence_number(path) {
        let stop = position_in(path, '_', 0, path.len() as int);
        let slash = position_in(path, '/', 0, stop);
        lemma_position_in(path, '_', 0, path.len() as int);
        lemma_position_in(path, '/', 0, stop);
        let segment = path.subrange(slash + 1, stop);
        lemma_numeral_is_padded(segment);
        assert(path[slash] == '/');
        assert(path.subrange(slash + 1, slash + 1 + found.1) == padded_decimal(
            found.0 as nat,
            found.1,
        ));
    }
}

/// Whether the path at position `at` holds the number `total`, written with
/// `width` characters, and every path after it holds a lesser number or none.
pub open spec fn is_last_greatest(paths: Seq<Seq<char>>, at: int, total: u32, width: nat) -> bool {
    &&& 0 <= at < paths.len()
    &&& sequence_number(paths[at]) == Some((total, width))
    &&& forall|j: int|
        at < j < paths.len() ==> (#[trigger] sequence_number(paths[j]) matches Some(later)
            ==> later.0 < total)
}

/// Whether one of the paths holds a sequence number.
pub open spec fn any_numbered(paths: Seq<Seq<char>>) -> bool {
    exists|i: int| 0 <= i < paths.len() && #[trigger] sequence_number(paths[i]) is Some
}

/// Whether `total` and `width` are the session range of `paths`: `total` is the
/// greatest sequence number in them and `width` is the width of the last path
/// that holds it, or both are zero where no path holds a sequence number.
pub open spec fn is_session_range(paths: Seq<Seq<char>>, total: u32, width: nat) -> bool {
    &&& forall|i: int|
        0 <= i < paths.len() ==> (#[trigger] sequence_number(paths[i]) matches Some(found)
            ==> found.0 <= total)
    &&& if any_numbered(paths) {
        exists|at: int| is_last_greatest(paths, at, total, width)
    } else {
        total == 0 && width == 0
    }
}

/// The session range of `paths`, found by going through them in order: a path
/// whose sequence number is no less than the greatest so far replaces it.
pub open spec fn session_range(paths: Seq<Seq<char>>) -> (u32, nat)
    decreases paths.len(),
{
    if paths.len() == 0 {
        (0, 0)
    } else {
        let before = session_range(paths.drop_last());
        match sequence_number(paths.last()) {
            Some(found) => if found.0 >= before.0 {
                found
            } else {
                before
            },
            None => before,
        }
    }
}

/// What `session_range` computes is the session range.
pub proof fn lemma_session_range(paths: Seq<Seq<char>>)
    ensures
        is_session_range(paths, session_range(paths).0, session_range(paths).1),
    decreases paths.len(),
{
    if paths.len() > 0 {
        let front = paths.drop_last();
        let before = session_range(front);
        let range = session_range(paths);
        lemma_session_range(front);
        assert forall|i: int| 0 <= i < front.len() implies front[i] == paths[i] by {}
        let last = paths.len() - 1;
        let replaced = sequence_number(paths[last]) matches Some(found) && found.0 >= before.0;
        if replaced {
            assert(is_last_greatest(paths, last, range.0, range.1));
        } else if any_numbered(paths) {
            let some = choose|i: int|
                0 <= i < paths.len() && #[trigger] sequence_number(paths[i]) is Some;
            assert(some < last ==> sequence_number(front[some]) is Some);
            let at = choose|at: int| is_last_greatest(front, at, before.0, before.1);
            assert(is_last_greatest(paths, at, range.0, range.1));
        }
    }
}

/// A list of paths has one session range and no other.
pub proof fn lemma_session_range_unique(
    paths: Seq<Seq<char>>,
    total: u32,
    width: nat,
    other_total: u32,
    other_width: nat,
)
    requires
        is_session_range(paths, total, width),
        is_session_range(paths, other_total, other_width),
    ensures
        total == other_total,
        width == other_width,
{
    if any_numbered(paths) {
        let a = choose|at: int| is_last_greatest(paths, at, total, width);
        let b = choose|at: int| is_last_greatest(paths, at, other_total, other_width);
        assert(a == b);
    }
}

/// Where paths hold a sequence number at all, one of them holds the total of
/// their session range, written at the width of the range. So it is wherever
/// the total is above zero.
pub proof fn lemma_session_range_held(paths: Seq<Seq<char>>)
    ensures
        session_range(paths).0 > 0 ==> any_numbered(paths),
        any_numbered(paths) ==> digits_of(session_range(paths).0 as nat).len() <= session_range(
            paths,
        ).1,
        any_numbered(paths) ==> exists|i: int|
            0 <= i < paths.len() && holds_number(
                #[trigger] paths[i],
                session_range(paths).0,
                session_range(paths).1,
            ),
{
    let range = session_range(paths);
    lemma_session_range(paths);
    if any_numbered(paths) {
        let at = choose|at: int| is_last_greatest(paths, at, range.0, range.1);
        lemma_sequence_number_held(paths[at]);
    }
}

/// Reads the sequence number of one entry path.
pub fn sequence_number_of(path: &str) -> (found: Option<(u32, usize)>)
    ensures
        match found {
            Some(pair) => sequence_number(path@) == Some((pair.0, pair.1 as nat)),
            None => sequence_number(path@) is None,
        },
{
    let chars = chars_of(path);
    let stop: usize = find_char(chars.as_slice(), '_', 0, chars.len());
    let slash: usize = find_char(chars.as_slice(), '/', 0, stop);
    if slash >= stop || stop >= chars.len() {
        return None;
    }
    if find_char(chars.as_slice(), '/', slash + 1, stop) < stop {
        return None;
    }
    let segment = vstd::slice::slice_subrange(chars.as_slice(), slash + 1, stop);
    match parse_decimal(segment) {
        Some(number) => Some((number, stop - (slash + 1))),
        None => None,
    }
}

/// Infers the number of sessions and the width of their sequence numbers from
/// the paths of `list`. Paths that hold no sequence number are passed over.
/// Where there is a session at all, one of the paths holds the total, written
/// at the inferred width between a `/` and a `_`.
pub fn get_sessions_total(list: &[SazFile]) -> (range: (u32, usize))
    ensures
        is_session_range(paths_of(file_views(list@)), range.0, range.1 as nat),
        (range.0, range.1 as nat) == session_range(paths_of(file_views(list@))),
        range.0 > 0 ==> digits_of(range.0 as nat).len() <= range.1,
        range.0 > 0 ==> exists|i: int|
            0 <= i < list@.len() && holds_number(
                #[trigger] paths_of(file_views(list@))[i],
                range.0,
                range.1 as nat,
            ),
{
    let ghost paths = paths_of(file_views(list@));
    let mut sessions_total: u32 = 0;
    let mut leading_zeroes: usize = 0;
    let mut at: usize = 0;
    while at < list.len()
        invariant
            at <= list@.len(),
            paths == paths_of(file_views(list@)),
            (sessions_total, leading_zeroes as nat) == session_range(paths.take(at as int)),
        decreases list@.len() - at,
    {
        proof {
            assert(paths.take(at + 1).drop_last() == paths.take(at as int));
        }
        match sequence_number_of(list[at].path.as_str()) {
            Some(found) => {
                if found.0 >= sessions_total {
                    sessions_total = found.0;
                    leading_zeroes = found.1;
                }
            },
            None => {},
        }
        at = at + 1;
    }
    proof {
        assert(paths.take(at as int) == paths);
        lemma_session_range(paths);
        lemma_session_range_held(paths);
    }
    (sessions_total, leading_zeroes)
}

} // verus!
