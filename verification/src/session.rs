//! The sessions of a capture: one record for every sequence number, made from
//! the request file and the response file of that number.

use std::rc::Rc;
use vstd::prelude::*;
use vstd::string::StringExecFns;
use crate::archive::{
    all_opened, archive_listing, entries_opened, has_required_folder, zip_contents, zip_files,
    REQUIRED_FOLDER,
};
use crate::error::SazError;
use crate::extract::{
    length_of, regex_get_content_length, regex_get_http_status, regex_get_url, status_of, url_of,
};
use crate::files::{
    SazFile, SazFileView, file_named, file_views, get_file_from_list, paths_of, share,
};
use crate::index::{get_sessions_total, sequence_number, session_range};
use crate::signature::{classify, ZipValidity};
use crate::text::{
    is_digit, lemma_padded_decimal, lemma_position_absent, lemma_position_found, pad_decimal,
    padded_decimal,
};

verus! {

/// One recorded HTTP session.
#[derive(Clone, Debug)]
pub struct SazSession {
    /// The sequence number of the session, counted from one.
    pub index: u32,
    /// The status code of the response.
    pub result: u32,
    /// The URL of the request.
    pub url: String,
    /// The length of the body in bytes, as the response declares it.
    pub body: u32,
    /// The path of the file with the request.
    pub file_request: String,
    /// The path of the file with the response.
    pub file_response: String,
    /// The raw text of the request.
    pub file_request_contents: Rc<String>,
    /// The raw text of the response.
    pub file_response_contents: Rc<String>,
}

/// What a `SazSession` stands for.
pub ghost struct SazSessionView {
    pub index: u32,
    pub result: u32,
    pub url: Seq<char>,
    pub body: u32,
    pub file_request: Seq<char>,
    pub file_response: Seq<char>,
    pub file_request_contents: Seq<char>,
    pub file_response_contents: Seq<char>,
}

impl View for SazSession {
    type V = SazSessionView;

    open spec fn view(&self) -> SazSessionView {
        SazSessionView {
            index: self.index,
            result: self.result,
            url: self.url@,
            body: self.body,
            file_request: self.file_request@,
            file_response: self.file_response@,
            file_request_contents: self.file_request_contents@,
            file_response_contents: self.file_response_contents@,
        }
    }
}

impl SazSession {
    /// A record of the given fields. The texts are shared with the caller, not
    /// copied.
    pub fn new(
        idx: u32,
        httpres: u32,
        httpurl: &str,
        httpbody: u32,
        frequest: &String,
        fresponse: &String,
        frequest_contents: &Rc<String>,
        fresponse_contents: &Rc<String>,
    ) -> (session: SazSession)
        ensures
            session@ == (SazSessionView {
                index: idx,
                result: httpres,
                url: httpurl@,
                body: httpbody,
                file_request: frequest@,
                file_response: fresponse@,
                file_request_contents: frequest_contents@,
                file_response_contents: fresponse_contents@,
            }),
    {
        SazSession {
            index: idx,
            result: httpres,
            url: String::from_str(httpurl),
            body: httpbody,
            file_request: frequest.clone(),
            file_response: fresponse.clone(),
            file_request_contents: share(frequest_contents),
            file_response_contents: share(fresponse_contents),
        }
    }
}

/// The views of a list of sessions, in the order of the list.
pub open spec fn session_views(sessions: Seq<SazSession>) -> Seq<SazSessionView> {
    sessions.map_values(|session: SazSession| session@)
}

/// What follows the sequence number in the name of a request file.
pub const REQUEST_SUFFIX: &'static str = "_c.txt";

/// What follows the sequence number in the name of a response file.
pub const RESPONSE_SUFFIX: &'static str = "_s.txt";

/// The path of the request file of session `n`, with the number padded to
/// `width` characters: `raw/007_c.txt` for session 7 and width 3.
pub open spec fn request_path(n: u32, width: nat) -> Seq<char> {
    REQUIRED_FOLDER@ + padded_decimal(n as nat, width) + REQUEST_SUFFIX@
}

/// The path of the response file of session `n`, with the number padded to
/// `width` characters: `raw/007_s.txt` for session 7 and width 3.
pub open spec fn response_path(n: u32, width: nat) -> Seq<char> {
    REQUIRED_FOLDER@ + padded_decimal(n as nat, width) + RESPONSE_SUFFIX@
}

/// The record of session `n` among `files`: there is none where the request
/// file or the response file is missing, where the request has no URL, and
/// where the response has no status.
pub open spec fn session_at(files: Seq<SazFileView>, n: u32, width: nat) -> Option<
    SazSessionView,
> {
    match (file_named(files, request_path(n, width)), file_named(files, response_path(n, width))) {
        (Some(request), Some(response)) => match (
            url_of(request.contents),
            status_of(response.contents),
        ) {
            (Some(url), Some(status)) => Some(
                SazSessionView {
                    index: n,
                    result: status,
                    url: url,
                    body: length_of(response.contents),
                    file_request: request_path(n, width),
                    file_response: response_path(n, width),
                    file_request_contents: request.contents,
                    file_response_contents: response.contents,
                },
            ),
            _ => None,
        },
        _ => None,
    }
}

/// Whether every session from one to `total` has a record among `files`.
pub open spec fn sessions_complete(files: Seq<SazFileView>, total: u32, width: nat) -> bool {
    forall|n: u32| 1 <= n <= total ==> (#[trigger] session_at(files, n, width)) is Some
}

/// The sessions of a capture with these files: one record for each sequence
/// number from one to the greatest that a path holds, in ascending order. A
/// capture in which one of these sessions has no record is `Invalid`.
pub open spec fn sessions_of(files: Seq<SazFileView>) -> Result<Seq<SazSessionView>, SazError> {
    let (total, width) = session_range(paths_of(files));
    if sessions_complete(files, total, width) {
        Ok(Seq::new(total as nat, |i: int| session_at(files, (i + 1) as u32, width)->0))
    } else {
        Err(SazError::Invalid)
    }
}

/// The sessions of the capture that `data` encodes.
pub open spec fn capture_sessions(data: Seq<u8>) -> Result<Seq<SazSessionView>, SazError> {
    match zip_files(data) {
        Ok(files) => sessions_of(files),
        Err(error) => Err(error),
    }
}

/// What a list of sessions, or the error in its place, stands for.
pub open spec fn parsed_views(parsed: Result<Vec<SazSession>, SazError>) -> Result<
    Seq<SazSessionView>,
    SazError,
> {
    match parsed {
        Ok(sessions) => Ok(session_views(sessions@)),
        Err(error) => Err(error),
    }
}

/// A capture in which every session from one to the inferred total has its
/// record has that many sessions, and they stand in ascending order: the
/// session at position `i` has the sequence number `i + 1`.
pub proof fn lemma_sessions_numbered(files: Seq<SazFileView>)
    ensures
        sessions_complete(
            files,
            session_range(paths_of(files)).0,
            session_range(paths_of(files)).1,
        ) <==> sessions_of(files) is Ok,
        sessions_of(files) matches Ok(sessions) ==> {
            &&& sessions.len() == session_range(paths_of(files)).0
            &&& forall|i: int| 0 <= i < sessions.len() ==> (#[trigger] sessions[i]).index == i + 1
        },
{
}

/// The sessions of a capture archive are numbered from one to their count, in
/// ascending order.
pub proof fn lemma_capture_sessions_numbered(data: Seq<u8>)
    ensures
        capture_sessions(data) matches Ok(sessions) ==> {
            &&& zip_files(data) matches Ok(files) && sessions.len() == session_range(
                paths_of(files),
            ).0
            &&& forall|i: int| 0 <= i < sessions.len() ==> (#[trigger] sessions[i]).index == i + 1
        },
{
    if let Ok(files) = zip_files(data) {
        lemma_sessions_numbered(files);
    }
}

/// An archive without the required folder is `Invalid`, whatever its entries
/// hold. This is said of inputs with the signature of an archive: an input
/// with another signature is refused for the signature.
pub proof fn lemma_capture_needs_folder(data: Seq<u8>)
    requires
        classify(data) == ZipValidity::Valid,
        archive_listing(data) matches Some(listing) ==> (all_opened(listing)
            ==> !has_required_folder(entries_opened(listing))),
    ensures
        zip_files(data) == Err::<Seq<SazFileView>, SazError>(SazError::Invalid),
        capture_sessions(data) == Err::<Seq<SazSessionView>, SazError>(SazError::Invalid),
{
}

/// The paths of a session hold its number: from the request path and from the
/// response path of session `n`, the sequence number that is read back is `n`,
/// with the width that the number was padded to.
pub proof fn lemma_session_paths_numbered(n: u32, width: nat)
    ensures
        sequence_number(request_path(n, width)) == Some(
            (n, padded_decimal(n as nat, width).len()),
        ),
        sequence_number(response_path(n, width)) == Some(
            (n, padded_decimal(n as nat, width).len()),
        ),
{
    reveal_strlit("_c.txt");
    reveal_strlit("_s.txt");
    lemma_numbered_path(n, width, REQUEST_SUFFIX@);
    lemma_numbered_path(n, width, RESPONSE_SUFFIX@);
}

/// A path made of the required folder, a padded number and a suffix that
/// begins with `_` holds that number.
proof fn lemma_numbered_path(n: u32, width: nat, suffix: Seq<char>)
    requires
        suffix.len() > 0,
        suffix[0] == '_',
    ensures
        sequence_number(REQUIRED_FOLDER@ + padded_decimal(n as nat, width) + suffix) == Some(
            (n, padded_decimal(n as nat, width).len()),
        ),
{
    reveal_strlit("raw/");
    let number = padded_decimal(n as nat, width);
    let path = REQUIRED_FOLDER@ + number + suffix;
    let stop = 4 + number.len() as int;
    lemma_padded_decimal(n as nat, width);
    assert forall|j: int| 4 <= j < stop implies is_digit(path[j]) by {
        assert(path[j] == number[j - 4]);
    }
    lemma_position_found(path, '_', 0, path.len() as int, stop);
    lemma_position_found(path, '/', 0, stop, 3);
    lemma_position_absent(path, '/', 4, stop);
    assert(path.subrange(4, stop) == number);
}

/// The path of a file of session `n`: the required folder, the number padded
/// to `width` characters, and the suffix.
fn session_path(n: u32, width: usize, suffix: &str) -> (path: String)
    ensures
        path@ == REQUIRED_FOLDER@ + padded_decimal(n as nat, width as nat) + suffix@,
{
    let mut path = String::from_str(REQUIRED_FOLDER);
    let number = pad_decimal(n, width);
    path.append(number.as_str());
    path.append(suffix);
    path
}

/// Makes the record of session `n` from the files of a capture.
pub fn session_from_list(list: &[SazFile], n: u32, width: usize) -> (session: Option<SazSession>)
    ensures
        match session {
            Some(session) => session_at(file_views(list@), n, width as nat) == Some(session@),
            None => session_at(file_views(list@), n, width as nat) is None,
        },
{
    let request_file_name = session_path(n, width, REQUEST_SUFFIX);
    let response_file_name = session_path(n, width, RESPONSE_SUFFIX);
    let request_file = match get_file_from_list(list, request_file_name.as_str()) {
        Some(file) => file,
        None => {
            return None;
        },
    };
    let response_file = match get_file_from_list(list, response_file_name.as_str()) {
        Some(file) => file,
        None => {
            return None;
        },
    };
    let url = match regex_get_url(request_file.contents.as_str()) {
        Ok(url) => url,
        Err(_) => {
            return None;
        },
    };
    let httpstatus = match regex_get_http_status(response_file.contents.as_str()) {
        Ok(status) => status,
        Err(_) => {
            return None;
        },
    };
    let contentlength = regex_get_content_length(response_file.contents.as_str());
    Some(
        SazSession::new(
            n,
            httpstatus,
            url,
            contentlength,
            &request_file_name,
            &response_file_name,
            &request_file.contents,
            &response_file.contents,
        ),
    )
}

/// Makes the sessions of a capture from its files. Either every session from
/// one to the inferred total has its record, and the list holds them in
/// ascending order, or the capture is `Invalid`: no list leaves a session
/// out.
pub fn assemble(list: &[SazFile]) -> (parsed: Result<Vec<SazSession>, SazError>)
    ensures
        parsed_views(parsed) == sessions_of(file_views(list@)),
        parsed matches Ok(sessions) ==> {
            &&& sessions@.len() == session_range(paths_of(file_views(list@))).0
            &&& forall|i: int| 0 <= i < sessions@.len() ==> (#[trigger] sessions@[i]).index == i + 1
        },
{
    let ghost files = file_views(list@);
    let (total_sessions, leading_zeroes) = get_sessions_total(list);
    let mut entries: Vec<SazSession> = Vec::new();
    let mut done: u32 = 0;
    while done < total_sessions
        invariant
            done <= total_sessions,
            files == file_views(list@),
            entries@.len() == done,
            forall|i: int|
                0 <= i < done ==> session_at(files, (i + 1) as u32, leading_zeroes as nat) == Some(
                    (#[trigger] entries@[i])@,
                ),
            (total_sessions, leading_zeroes as nat) == session_range(paths_of(files)),
        decreases total_sessions - done,
    {
        let n: u32 = done + 1;
        match session_from_list(list, n, leading_zeroes) {
            Some(entry) => {
                entries.push(entry);
            },
            None => {
                return Err(SazError::Invalid);
            },
        }
        done = n;
    }
    proof {
        assert forall|n: u32| 1 <= n <= total_sessions implies (#[trigger] session_at(
            files,
            n,
            leading_zeroes as nat,
        )) is Some by {
            assert(session_at(files, ((n - 1) + 1) as u32, leading_zeroes as nat) == Some(
                entries@[n - 1]@,
            ));
        }
        assert(session_views(entries@) =~= sessions_of(files)->Ok_0);
    }
    Ok(entries)
}

/// Reads a capture archive from the bytes of its file and returns its
/// sessions in ascending order of their sequence numbers. The caller gets
/// either every session or one error.
pub fn parse(data: &[u8]) -> (parsed: Result<Vec<SazSession>, SazError>)
    ensures
        parsed_views(parsed) == capture_sessions(data@),
        parsed matches Ok(sessions) ==> {
            &&& zip_files(data@) matches Ok(files) && sessions@.len() == session_range(
                paths_of(files),
            ).0
            &&& forall|i: int| 0 <= i < sessions@.len() ==> (#[trigger] sessions@[i]).index == i + 1
        },
{
    match zip_contents(data) {
        Ok(list) => assemble(list.as_slice()),
        Err(error) => Err(error),
    }
}

} // verus!
