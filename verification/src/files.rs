//! The entries of a capture archive, once decoded: a path, a size and a text.

use std::rc::Rc;
use vstd::prelude::*;
use vstd::string::StringExecFns;
use crate::text::position_in;

verus! {

/// One file of a capture archive, with its content decoded as text.
#[derive(Clone, Debug)]
pub struct SazFile {
    /// The path of the entry in the archive, with `/` between its parts.
    pub path: String,
    /// The size in bytes that the archive declares for the entry.
    pub size: u64,
    /// The content of the entry, shared with the sessions made from it.
    pub contents: Rc<String>,
}

/// What a `SazFile` stands for.
pub ghost struct SazFileView {
    pub path: Seq<char>,
    pub size: u64,
    pub contents: Seq<char>,
}

impl View for SazFile {
    type V = SazFileView;

    open spec fn view(&self) -> SazFileView {
        SazFileView { path: self.path@, size: self.size, contents: self.contents@ }
    }
}

impl SazFile {
    /// A file with the given path, declared size and content.
    pub fn new(path: &String, size: u64, contents: Rc<String>) -> (file: SazFile)
        ensures
            file@ == (SazFileView { path: path@, size: size, contents: contents@ }),
    {
        SazFile { path: path.clone(), size: size, contents: contents }
    }
}

/// The views of the files of a list, in the order of the list.
pub open spec fn file_views(list: Seq<SazFile>) -> Seq<SazFileView> {
    list.map_values(|file: SazFile| file@)
}

/// The paths of a list of files, in the order of the list.
pub open spec fn paths_of(files: Seq<SazFileView>) -> Seq<Seq<char>> {
    files.map_values(|file: SazFileView| file.path)
}

/// The first file of `files` whose path is `name`, if there is one.
pub open spec fn file_named(files: Seq<SazFileView>, name: Seq<char>) -> Option<SazFileView> {
    let at = position_in(paths_of(files), name, 0, files.len() as int);
    if at < files.len() {
        Some(files[at])
    } else {
        None
    }
}

/// Another handle on the same text. `Rc::clone` makes no copy of the text: the
/// new handle points at the value that `text` points at.
#[verifier::external_body]
pub(crate) fn share(text: &Rc<String>) -> (shared: Rc<String>)
    ensures
        shared == *text,
{
    Rc::clone(text)
}

/// Looks a file up by its exact path. Where several files have the path, the
/// first of them is returned.
pub fn get_file_from_list<'a>(list: &'a [SazFile], filename: &str) -> (found: Option<&'a SazFile>)
    ensures
        match found {
            Some(file) => file_named(file_views(list@), filename@) == Some(file@),
            None => file_named(file_views(list@), filename@) is None,
        },
        found matches Some(file) ==> list@.contains(*file),
{
    let name = String::from_str(filename);
    let ghost paths = paths_of(file_views(list@));
    let mut at: usize = 0;
    while at < list.len()
        invariant
            at <= list@.len(),
            name@ == filename@,
            paths == paths_of(file_views(list@)),
            position_in(paths, filename@, 0, list@.len() as int) == position_in(
                paths,
                filename@,
                at as int,
                list@.len() as int,
            ),
        decreases list@.len() - at,
    {
        if list[at].path == name {
            return Some(&list[at]);
        }
        at = at + 1;
    }
    None
}

} // verus!
