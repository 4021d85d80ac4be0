//! The values a diff between two commits is made of.

use vstd::prelude::*;

verus! {

/// How a path changed between the base commit and the head.
#[derive(Clone, Copy, Debug, PartialEq, Eq, Structural)]
pub enum FileStatus {
    Added,
    Modified,
    Deleted,
    Renamed,
}

/// One changed path, as the repository reports it between two commits.
#[derive(Debug)]
pub struct FileChange {
    pub path: String,
    pub status: FileStatus,
}

/// A changed path together with its content at the base commit, when known.
#[derive(Debug)]
pub struct FileDiff {
    pub path: String,
    pub base_text: Option<String>,
    pub status: FileStatus,
}

/// Content of one path at a base commit, as a batched fetch returns it;
/// `text` is `None` where the path does not exist at that commit.
#[derive(Debug)]
pub struct LoadedBase {
    pub path: String,
    pub text: Option<String>,
}

pub ghost struct FileChangeView {
    pub path: Seq<char>,
    pub status: FileStatus,
}

pub ghost struct FileDiffView {
    pub path: Seq<char>,
    pub base_text: Option<Seq<char>>,
    pub status: FileStatus,
}

pub ghost struct LoadedBaseView {
    pub path: Seq<char>,
    pub text: Option<Seq<char>>,
}

/// The characters of an optional string.
pub open spec fn opt_view(o: Option<String>) -> Option<Seq<char>> {
    match o {
        Some(s) => Some(s@),
        None => None,
    }
}

impl View for FileChange {
    type V = FileChangeView;

    open spec fn view(&self) -> FileChangeView {
        FileChangeView { path: self.path@, status: self.status }
    }
}

impl View for FileDiff {
    type V = FileDiffView;

    open spec fn view(&self) -> FileDiffView {
        FileDiffView { path: self.path@, base_text: opt_view(self.base_text), status: self.status }
    }
}

impl View for LoadedBase {
    type V = LoadedBaseView;

    open spec fn view(&self) -> LoadedBaseView {
        LoadedBaseView { path: self.path@, text: opt_view(self.text) }
    }
}

/// The views of a sequence of values, element by element.
pub open spec fn views<T: View>(s: Seq<T>) -> Seq<T::V> {
    s.map_values(|x: T| x@)
}

/// Copies an optional string, keeping its characters.
pub fn clone_opt(o: &Option<String>) -> (r: Option<String>)
    ensures
        opt_view(r) == opt_view(*o),
{
    match o {
        Some(s) => Some(s.clone()),
        None => None,
    }
}

/// Whether two optional strings hold the same characters (both absent counts
/// as equal).
pub fn same_opt(a: &Option<String>, b: &Option<String>) -> (r: bool)
    ensures
        r == (opt_view(*a) == opt_view(*b)),
{
    match (a, b) {
        (Some(x), Some(y)) => *x == *y,
        (None, None) => true,
        _ => false,
    }
}

impl FileChange {
    pub fn new(path: String, status: FileStatus) -> (r: Self)
        ensures
            r@ == (FileChangeView { path: path@, status }),
    {
        FileChange { path, status }
    }
}

impl LoadedBase {
    pub fn new(path: String, text: Option<String>) -> (r: Self)
        ensures
            r@ == (LoadedBaseView { path: path@, text: opt_view(text) }),
    {
        LoadedBase { path, text }
    }
}

} // verus!
