//! What the host reports of its file system: errors and observations, as plain values.

use vstd::prelude::*;

use crate::path::PathBuf;
use crate::views;

verus! {

/// The kinds of I/O error that decide something.
#[derive(Clone, Copy, Debug, PartialEq, Eq, Structural)]
pub enum IoErrorKind {
    NotFound,
    AlreadyExists,
    InvalidInput,
    Other,
}

/// An I/O error: its kind, and what to tell the user.
#[derive(Debug, PartialEq, Eq)]
pub struct IoError {
    pub kind: IoErrorKind,
    pub message: String,
}

#[verifier::ext_equal]
pub struct IoErrorView {
    pub kind: IoErrorKind,
    pub message: Seq<char>,
}

impl View for IoError {
    type V = IoErrorView;

    open spec fn view(&self) -> IoErrorView {
        IoErrorView { kind: self.kind, message: self.message@ }
    }
}

impl Clone for IoError {
    fn clone(&self) -> (r: Self)
        ensures
            r@ == self@,
    {
        IoError { kind: self.kind, message: self.message.clone() }
    }
}

impl IoError {
    pub fn new(kind: IoErrorKind, message: &str) -> (r: Self)
        ensures
            r@ == (IoErrorView { kind, message: message@ }),
    {
        IoError { kind, message: message.to_owned() }
    }

    pub fn is_not_found(&self) -> (r: bool)
        ensures
            r == (self.kind == IoErrorKind::NotFound),
    {
        self.kind == IoErrorKind::NotFound
    }
}

/// What an entry is, without following a symbolic link.
#[derive(Clone, Copy, Debug, PartialEq, Eq, Structural)]
pub enum EntryKind {
    SymbolicLink,
    File,
    Directory,
    Other,
}

/// What lies at the end of a path, with symbolic links followed.
#[derive(Clone, Copy, Debug, PartialEq, Eq, Structural)]
pub struct FileFacts {
    pub is_file: bool,
    pub is_dir: bool,
    pub mode: u32,
}

/// Some permission to execute is among the mode bits.
pub open spec fn executable_mode(mode: u32) -> bool {
    mode & 0o111 != 0
}

impl FileFacts {
    /// A regular file that somebody may execute.
    pub open spec fn is_executable_file(self) -> bool {
        self.is_file && executable_mode(self.mode)
    }

    pub fn executable_file(&self) -> (r: bool)
        ensures
            r == self.is_executable_file(),
    {
        self.is_file && self.mode & 0o111 != 0
    }
}

/// One look at a path: the entry itself, the text of the link that it may be, and what following
/// it leads to.
#[derive(Debug)]
pub struct Observation {
    pub entry: Result<EntryKind, IoError>,
    pub link: Option<PathBuf>,
    pub followed: Result<FileFacts, IoError>,
}

/// The view of an outcome whose success needs none.
pub open spec fn outcome_view<T, E: View>(r: Result<T, E>) -> Result<T, E::V> {
    match r {
        Ok(x) => Ok(x),
        Err(e) => Err(e@),
    }
}

#[verifier::ext_equal]
pub struct ObservationView {
    pub entry: Result<EntryKind, IoErrorView>,
    pub link: Option<Seq<u8>>,
    pub followed: Result<FileFacts, IoErrorView>,
}

impl View for Observation {
    type V = ObservationView;

    open spec fn view(&self) -> ObservationView {
        ObservationView {
            entry: outcome_view(self.entry),
            link: views::view_of(self.link),
            followed: outcome_view(self.followed),
        }
    }
}

/// What came of reading and parsing a file.
#[derive(Debug)]
pub enum FileRead<T> {
    Missing,
    Unreadable(IoError),
    Malformed(String),
    Parsed(T),
}

#[verifier::ext_equal]
pub enum FileReadView<T> {
    Missing,
    Unreadable(IoErrorView),
    Malformed(Seq<char>),
    Parsed(T),
}

impl<T: View> View for FileRead<T> {
    type V = FileReadView<T::V>;

    open spec fn view(&self) -> FileReadView<T::V> {
        match *self {
            FileRead::Missing => FileReadView::Missing,
            FileRead::Unreadable(source) => FileReadView::Unreadable(source@),
            FileRead::Malformed(message) => FileReadView::Malformed(message@),
            FileRead::Parsed(value) => FileReadView::Parsed(value@),
        }
    }
}

} // verus!
