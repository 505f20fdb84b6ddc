//! The entries of the zip container, and the files of a capture among them.
//!
//! The container is decoded by the `zip` crate. This module opens it, reads
//! every entry into memory and says which entries are files of the capture:
//! an entry whose name ends in `/` is a folder, an entry whose name would
//! lead out of the archive's root is passed over, and every other entry is a
//! file, with its content decoded as text. A capture holds the folder `raw/`;
//! an archive without it is no capture.

use std::io::Cursor;
use std::rc::Rc;
use vstd::prelude::*;
use vstd::string::StringExecFns;
use vstd::utf8::{decode_utf8, valid_utf8};
use zip::result::ZipError;
use zip::ZipArchive;
use crate::error::SazError;
use crate::files::{SazFile, SazFileView, file_views};
use crate::signature::{check_file_validity, classify, validity_result, ZipValidity};
use crate::text::chars_of;

verus! {

/// `zip::ZipArchive`, the open archive. The proofs see nothing inside it; what
/// it holds is known by the name `archive_entries` alone.
#[verifier::external_type_specification]
#[verifier::external_body]
#[verifier::reject_recursive_types(R)]
pub struct ExZipArchive<R>(ZipArchive<R>);

/// `std::io::Cursor`, through which the archive reads the bytes of the input.
#[verifier::external_type_specification]
#[verifier::external_body]
#[verifier::reject_recursive_types(T)]
pub struct ExCursor<T>(Cursor<T>);

/// `zip::result::ZipError`, the error of opening an archive. Whatever it
/// says, the capture is `Invalid`.
#[verifier::external_type_specification]
#[verifier::external_body]
pub struct ExZipError(ZipError);

/// The folder that every capture holds.
pub const REQUIRED_FOLDER: &'static str = "raw/";

/// One entry of the container, as the `zip` crate yields it.
#[derive(Clone, Debug)]
pub struct ArchiveEntry {
    /// The name of the entry, as the archive has it: its path in the archive,
    /// with `/` between the parts.
    pub name: String,
    /// Whether the name is a path that stays below the archive's root: a name
    /// with a NUL in it, an absolute path and one that leaves the root by way
    /// of `..` are not.
    pub enclosed: bool,
    /// The size in bytes that the archive declares for the content.
    pub size: u64,
    /// The content, decompressed, or nothing where the content cannot be read
    /// to its end.
    pub data: Option<Vec<u8>>,
}

/// What an `ArchiveEntry` stands for.
pub ghost struct ArchiveEntryView {
    pub name: Seq<char>,
    pub enclosed: bool,
    pub size: u64,
    pub data: Option<Seq<u8>>,
}

impl View for ArchiveEntry {
    type V = ArchiveEntryView;

    open spec fn view(&self) -> ArchiveEntryView {
        ArchiveEntryView {
            name: self.name@,
            enclosed: self.enclosed,
            size: self.size,
            data: match self.data {
                Some(data) => Some(data@),
                None => None,
            },
        }
    }
}

/// The views of a list of entries, in the order of the list.
pub open spec fn entry_views(entries: Seq<ArchiveEntry>) -> Seq<ArchiveEntryView> {
    entries.map_values(|entry: ArchiveEntry| entry@)
}

/// What an open archive holds, in the order of its central directory: each
/// entry with its content, or nothing in the place of an entry that cannot be
/// opened.
pub uninterp spec fn archive_entries(archive: ZipArchive<Cursor<&[u8]>>) -> Seq<
    Option<ArchiveEntryView>,
>;

/// What the archive that `data` encodes holds, or nothing where `data` is no
/// archive that can be opened.
pub uninterp spec fn archive_listing(data: Seq<u8>) -> Option<Seq<Option<ArchiveEntryView>>>;

/// The text that bytes which are no UTF-8 decode to, with U+FFFD in the place
/// of every part of them that cannot be decoded.
pub uninterp spec fn lossy_text(data: Seq<u8>) -> Seq<char>;

/// The text that `data` decodes to: UTF-8 is decoded as it stands, and
/// anything else is decoded with replacements, never refused.
pub open spec fn text_of(data: Seq<u8>) -> Seq<char> {
    if valid_utf8(data) {
        decode_utf8(data)
    } else {
        lossy_text(data)
    }
}

/// Opens `data` with `zip::ZipArchive::new`, which reads the central
/// directory and returns an error where it finds none that it can read. What
/// the archive holds depends on `data` alone, which the contract says by
/// name.
#[verifier::external_body]
fn open_archive<'a>(data: &'a [u8]) -> (opened: Result<ZipArchive<Cursor<&'a [u8]>>, ZipError>)
    ensures
        match opened {
            Ok(archive) => archive_listing(data@) == Some(archive_entries(archive)),
            Err(_) => archive_listing(data@) is None,
        },
{
    ZipArchive::new(Cursor::new(data))
}

/// The number of entries, from `ZipArchive::len`: that of the entries of the
/// central directory.
#[verifier::external_body]
fn archive_len(archive: &ZipArchive<Cursor<&[u8]>>) -> (len: usize)
    ensures
        len == archive_entries(*archive).len(),
{
    archive.len()
}

/// Reads entry `index` whole. The entry is opened with
/// `ZipArchive::by_index_decrypt` and an empty password, which is set aside
/// for an entry that is not encrypted; unlike `by_index`, that call returns an
/// error for every entry that it cannot open. An encrypted entry counts as
/// one that cannot be opened where the crate refuses the empty password for
/// it. The name and the declared size are those of the `ZipFile`. The entry
/// counts as enclosed where `ZipFile::enclosed_name` gives a path; the path
/// that it gives is the name itself, so the name is all that is kept of it.
/// The content is what `std::io::copy` reads from the entry, or nothing where
/// the copy ends in an error. An index past the last entry and an entry that
/// cannot be opened give `None`. Reading moves the archive's position in
/// `data` and nothing else, so the archive holds afterwards what it held
/// before.
#[verifier::external_body]
fn read_entry(archive: &mut ZipArchive<Cursor<&[u8]>>, index: usize) -> (entry: Option<
    ArchiveEntry,
>)
    ensures
        archive_entries(*final(archive)) == archive_entries(*old(archive)),
        index >= archive_entries(*old(archive)).len() ==> entry is None,
        index < archive_entries(*old(archive)).len() ==> (match entry {
            Some(entry) => archive_entries(*old(archive))[index as int] == Some(entry@),
            None => archive_entries(*old(archive))[index as int] is None,
        }),
{
    let mut file = archive.by_index_decrypt(index, &[]).ok()?.ok()?;
    let mut content: Vec<u8> = Vec::new();
    let data = match std::io::copy(&mut file, &mut content) {
        Ok(_) => Some(content),
        Err(_) => None,
    };
    let enclosed = match file.enclosed_name() {
        Some(_) => true,
        None => false,
    };
    Some(ArchiveEntry { name: file.name().to_string(), enclosed, size: file.size(), data })
}

/// Decodes bytes as text with `String::from_utf8_lossy`: UTF-8 is decoded as
/// it stands, and what is no UTF-8 is replaced, never refused. What the
/// replacing gives is known by name only.
#[verifier::external_body]
fn decode_text(data: &[u8]) -> (text: String)
    ensures
        text@ == if valid_utf8(data@) {
            decode_utf8(data@)
        } else {
            lossy_text(data@)
        },
{
    String::from_utf8_lossy(data).into_owned()
}

/// Whether a name is that of a folder: it ends in `/`.
pub open spec fn is_folder(name: Seq<char>) -> bool {
    name.len() > 0 && name.last() == '/'
}

/// Whether an entry is the folder that a capture must hold.
pub open spec fn is_required_folder(entry: ArchiveEntryView) -> bool {
    entry.enclosed && entry.name == REQUIRED_FOLDER@
}

/// Whether one of the entries is the folder that a capture must hold.
pub open spec fn has_required_folder(entries: Seq<ArchiveEntryView>) -> bool {
    exists|i: int| 0 <= i < entries.len() && is_required_folder(#[trigger] entries[i])
}

/// Whether an entry is a file of the capture: its name is enclosed and is not
/// that of a folder.
pub open spec fn is_file(entry: ArchiveEntryView) -> bool {
    entry.enclosed && !is_folder(entry.name)
}

/// Whether the content of every file among the entries could be read.
pub open spec fn files_read(entries: Seq<ArchiveEntryView>) -> bool {
    forall|i: int|
        0 <= i < entries.len() && is_file(#[trigger] entries[i]) ==> entries[i].data is Some
}

/// The file that an entry makes: none for a folder, for an entry whose name
/// is not enclosed and for one whose content could not be read; for any other
/// entry its name, its declared size and its content as text.
pub open spec fn file_of(entry: ArchiveEntryView) -> Option<SazFileView> {
    if is_file(entry) && entry.data is Some {
        Some(
            SazFileView { path: entry.name, size: entry.size, contents: text_of(entry.data->0) },
        )
    } else {
        None
    }
}

/// Whether no path of the files is the name of a folder.
pub open spec fn no_folder_listed(files: Seq<SazFileView>) -> bool {
    forall|k: int| 0 <= k < files.len() ==> !is_folder(#[trigger] files[k].path)
}

/// The files that the entries make, in the order of the entries.
pub open spec fn files_of(entries: Seq<ArchiveEntryView>) -> Seq<SazFileView>
    decreases entries.len(),
{
    if entries.len() == 0 {
        Seq::empty()
    } else {
        match file_of(entries.last()) {
            Some(file) => files_of(entries.drop_last()).push(file),
            None => files_of(entries.drop_last()),
        }
    }
}

/// The files of a capture with these entries: those that the entries make,
/// where the required folder is among the entries and the content of every
/// file could be read, and `Invalid` otherwise.
pub open spec fn capture_files(entries: Seq<ArchiveEntryView>) -> Result<
    Seq<SazFileView>,
    SazError,
> {
    if has_required_folder(entries) && files_read(entries) {
        Ok(files_of(entries))
    } else {
        Err(SazError::Invalid)
    }
}

/// What a list of files, or the error in its place, stands for.
pub open spec fn listed_views(listed: Result<Vec<SazFile>, SazError>) -> Result<
    Seq<SazFileView>,
    SazError,
> {
    match listed {
        Ok(list) => Ok(file_views(list@)),
        Err(error) => Err(error),
    }
}

/// Whether every entry of a listing could be opened.
pub open spec fn all_opened(listing: Seq<Option<ArchiveEntryView>>) -> bool {
    forall|i: int| 0 <= i < listing.len() ==> (#[trigger] listing[i]) is Some
}

/// The entries of a listing in which every entry could be opened.
pub open spec fn entries_opened(listing: Seq<Option<ArchiveEntryView>>) -> Seq<ArchiveEntryView> {
    listing.map_values(|entry: Option<ArchiveEntryView>| entry->0)
}

/// The entries of the archive that `data` encodes: `Invalid` where `data`
/// cannot be opened as an archive and where one of the entries cannot be
/// opened.
pub open spec fn zip_entries(data: Seq<u8>) -> Result<Seq<ArchiveEntryView>, SazError> {
    match archive_listing(data) {
        Some(listing) => if all_opened(listing) {
            Ok(entries_opened(listing))
        } else {
            Err(SazError::Invalid)
        },
        None => Err(SazError::Invalid),
    }
}

/// What a list of entries, or the error in its place, stands for.
pub open spec fn entries_views(entries: Result<Vec<ArchiveEntry>, SazError>) -> Result<
    Seq<ArchiveEntryView>,
    SazError,
> {
    match entries {
        Ok(entries) => Ok(entry_views(entries@)),
        Err(error) => Err(error),
    }
}

/// The files of the capture that `data` encodes. An input is refused by its
/// signature first. One with the signature of an archive is `Invalid` where it
/// cannot be opened, where one of its entries cannot be opened, where the
/// content of one of its files cannot be read, and where the required folder is
/// not among its entries.
pub open spec fn zip_files(data: Seq<u8>) -> Result<Seq<SazFileView>, SazError> {
    match validity_result(classify(data)) {
        Err(error) => Err(error),
        Ok(_) => match zip_entries(data) {
            Ok(entries) => capture_files(entries),
            Err(error) => Err(error),
        },
    }
}

/// Folders are never listed: no file that entries make has a path that ends
/// in `/`.
pub proof fn lemma_no_folder_listed(entries: Seq<ArchiveEntryView>)
    ensures
        no_folder_listed(files_of(entries)),
    decreases entries.len(),
{
    if entries.len() > 0 {
        lemma_no_folder_listed(entries.drop_last());
    }
}

/// The files of a capture archive are listed only where the required folder
/// is among the entries of the archive, and no folder is among the files.
pub proof fn lemma_zip_files(data: Seq<u8>)
    ensures
        zip_files(data) matches Ok(files) ==> {
            &&& classify(data) == ZipValidity::Valid
            &&& archive_listing(data) matches Some(listing) && all_opened(listing)
                && has_required_folder(entries_opened(listing))
            &&& no_folder_listed(files)
        },
{
    if let Some(listing) = archive_listing(data) {
        lemma_no_folder_listed(entries_opened(listing));
    }
}

/// Entries that end in one entry hold the required folder where that entry is
/// the folder or the entries before it hold the folder, and the content of
/// all their files could be read where that holds of the entries before the
/// last and of the last.
proof fn lemma_last_entry(entries: Seq<ArchiveEntryView>)
    requires
        entries.len() > 0,
    ensures
        has_required_folder(entries) == (has_required_folder(entries.drop_last())
            || is_required_folder(entries.last())),
        files_read(entries) == (files_read(entries.drop_last()) && (is_file(entries.last())
            ==> entries.last().data is Some)),
{
    let front = entries.drop_last();
    assert forall|i: int| 0 <= i < front.len() implies front[i] == entries[i] by {}
    if has_required_folder(front) {
        let i = choose|i: int| 0 <= i < front.len() && is_required_folder(#[trigger] front[i]);
        assert(is_required_folder(entries[i]));
    }
    if has_required_folder(entries) && !is_required_folder(entries.last()) {
        let i = choose|i: int|
            0 <= i < entries.len() && is_required_folder(#[trigger] entries[i]);
        assert(is_required_folder(front[i]));
    }
    if files_read(entries) {
        assert forall|i: int| 0 <= i < front.len() && is_file(#[trigger] front[i]) implies front[
            i
        ].data is Some by {
            assert(is_file(entries[i]));
        }
    }
}

impl ArchiveEntry {
    /// Whether the entry is a folder: its name ends in `/`.
    pub fn is_folder(&self) -> (folder: bool)
        ensures
            folder == is_folder(self.name@),
    {
        let chars = chars_of(self.name.as_str());
        chars.len() > 0 && chars[chars.len() - 1] == '/'
    }

    /// Whether the entry is the folder that a capture must hold.
    pub fn is_required_folder(&self) -> (required: bool)
        ensures
            required == is_required_folder(self@),
    {
        self.enclosed && self.name == String::from_str(REQUIRED_FOLDER)
    }

    /// Whether the entry is a file of the capture.
    pub fn is_file(&self) -> (file: bool)
        ensures
            file == is_file(self@),
    {
        self.enclosed && !self.is_folder()
    }

    /// The file that the entry makes, where it makes one.
    pub fn to_file(&self) -> (file: Option<SazFile>)
        ensures
            match file {
                Some(file) => file_of(self@) == Some(file@),
                None => file_of(self@) is None,
            },
    {
        if !self.is_file() {
            return None;
        }
        match &self.data {
            Some(data) => {
                let contents = decode_text(data.as_slice());
                Some(SazFile::new(&self.name, self.size, Rc::new(contents)))
            },
            None => None,
        }
    }
}

/// Makes the list of the files of a capture from the entries of its archive.
/// The list is in the order of the entries. Without the required folder among
/// the entries there is no capture, whatever else they hold; and a file whose
/// content could not be read makes the capture `Invalid`.
pub fn collect_files(entries: &[ArchiveEntry]) -> (listed: Result<Vec<SazFile>, SazError>)
    ensures
        listed_views(listed) == capture_files(entry_views(entries@)),
        listed matches Ok(list) ==> no_folder_listed(file_views(list@)),
{
    proof {
        lemma_no_folder_listed(entry_views(entries@));
    }
    let ghost views = entry_views(entries@);
    let mut raw_folder: bool = false;
    let mut list: Vec<SazFile> = Vec::new();
    let mut at: usize = 0;
    while at < entries.len()
        invariant
            at <= entries@.len(),
            views == entry_views(entries@),
            raw_folder == has_required_folder(views.take(at as int)),
            files_read(views.take(at as int)),
            file_views(list@) == files_of(views.take(at as int)),
        decreases entries@.len() - at,
    {
        proof {
            assert(views.take(at + 1).drop_last() == views.take(at as int));
            lemma_last_entry(views.take(at + 1));
        }
        if entries[at].is_required_folder() {
            raw_folder = true;
        }
        if entries[at].is_file() {
            match entries[at].to_file() {
                Some(file) => {
                    list.push(file);
                },
                None => {
                    assert(is_file(views[at as int]) && views[at as int].data is None);
                    return Err(SazError::Invalid);
                },
            }
        }
        at = at + 1;
    }
    assert(views.take(at as int) == views);
    if raw_folder {
        Ok(list)
    } else {
        Err(SazError::Invalid)
    }
}

/// Reads every entry of an open archive, in the order of the archive, and
/// gives the entries up where one of them cannot be opened.
fn read_entries(archive: &mut ZipArchive<Cursor<&[u8]>>) -> (entries: Option<Vec<ArchiveEntry>>)
    ensures
        archive_entries(*final(archive)) == archive_entries(*old(archive)),
        match entries {
            Some(entries) => all_opened(archive_entries(*old(archive))) && entry_views(entries@)
                == entries_opened(archive_entries(*old(archive))),
            None => !all_opened(archive_entries(*old(archive))),
        },
{
    let ghost listing = archive_entries(*archive);
    let len: usize = archive_len(archive);
    let mut entries: Vec<ArchiveEntry> = Vec::new();
    let mut at: usize = 0;
    while at < len
        invariant
            at <= len,
            len == listing.len(),
            listing == archive_entries(*old(archive)),
            archive_entries(*archive) == listing,
            all_opened(listing.take(at as int)),
            entry_views(entries@) == entries_opened(listing.take(at as int)),
        decreases len - at,
    {
        let ghost prior = entries@;
        match read_entry(archive, at) {
            Some(entry) => {
                entries.push(entry);
                proof {
                    assert(entry_views(entries@) =~= entry_views(prior).push(entry@));
                }
            },
            None => {
                return None;
            },
        }
        at = at + 1;
    }
    assert(listing.take(at as int) == listing);
    Some(entries)
}

/// Opens the archive that `data` encodes and reads every entry of it into
/// memory, in the order of the archive. Neither the signature nor the
/// required folder is asked for here.
pub fn zip_entries_of(data: &[u8]) -> (entries: Result<Vec<ArchiveEntry>, SazError>)
    ensures
        entries_views(entries) == zip_entries(data@),
{
    match open_archive(data) {
        Ok(mut archive) => {
            match read_entries(&mut archive) {
                Some(entries) => Ok(entries),
                None => Err(SazError::Invalid),
            }
        },
        Err(_) => Err(SazError::Invalid),
    }
}

/// Lists the files of the capture that `data` holds. The signature is looked
/// at first; then the archive is opened and every entry is read into memory.
/// Where there is a list, the archive holds the required folder, and no
/// folder of the archive is in the list.
pub fn zip_contents(data: &[u8]) -> (listed: Result<Vec<SazFile>, SazError>)
    ensures
        listed_views(listed) == zip_files(data@),
        listed matches Ok(list) ==> {
            &&& archive_listing(data@) matches Some(listing) && all_opened(listing)
                && has_required_folder(entries_opened(listing))
            &&& no_folder_listed(file_views(list@))
        },
{
    proof {
        lemma_zip_files(data@);
    }
    match check_file_validity(data) {
        Err(error) => {
            return Err(error);
        },
        Ok(_) => {},
    }
    match zip_entries_of(data) {
        Ok(entries) => collect_files(entries.as_slice()),
        Err(error) => Err(error),
    }
}

} // verus!
