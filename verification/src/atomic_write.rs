//! Replacing a file atomically: write a temporary file, sync it, rename it over the old one, and
//! sync the directory. The host performs each request; this machine decides what comes next.

use vstd::prelude::*;
use vstd::utf8;

use crate::host::{IoError, IoErrorView};
use crate::model::MutationBoundary;
use crate::path;
use crate::path::PathBuf;
use crate::text;

verus! {

/// What the host is asked to do next.
#[derive(Clone, Copy, Debug, PartialEq, Eq, Structural)]
pub enum WriteRequest {
    WriteTemporary,
    SyncTemporary,
    Rename,
    SyncDirectory,
    RemoveTemporary,
    Finish,
}

impl WriteRequest {
    /// The boundary that a Registry write passes with this request.
    pub open spec fn boundary_of(self) -> Option<MutationBoundary> {
        match self {
            WriteRequest::WriteTemporary => Some(MutationBoundary::TemporaryRegistryWrite),
            WriteRequest::SyncTemporary => Some(MutationBoundary::RegistrySync),
            WriteRequest::Rename => Some(MutationBoundary::AtomicRegistryReplacement),
            WriteRequest::SyncDirectory => Some(MutationBoundary::RegistryDirectorySync),
            WriteRequest::RemoveTemporary => None,
            WriteRequest::Finish => None,
        }
    }

    pub fn boundary(&self) -> (r: Option<MutationBoundary>)
        ensures
            r == self.boundary_of(),
    {
        match self {
            WriteRequest::WriteTemporary => Some(MutationBoundary::TemporaryRegistryWrite),
            WriteRequest::SyncTemporary => Some(MutationBoundary::RegistrySync),
            WriteRequest::Rename => Some(MutationBoundary::AtomicRegistryReplacement),
            WriteRequest::SyncDirectory => Some(MutationBoundary::RegistryDirectorySync),
            WriteRequest::RemoveTemporary => None,
            WriteRequest::Finish => None,
        }
    }
}

/// The request at which a write failed.
#[derive(Clone, Copy, Debug, PartialEq, Eq, Structural)]
pub enum WriteStage {
    Write,
    Sync,
    Replace,
    Directory,
}

/// Why a write failed.
#[derive(Debug, PartialEq, Eq)]
pub struct WriteFailure {
    pub stage: WriteStage,
    pub source: IoError,
}

#[verifier::ext_equal]
pub struct WriteFailureView {
    pub stage: WriteStage,
    pub source: IoErrorView,
}

impl View for WriteFailure {
    type V = WriteFailureView;

    open spec fn view(&self) -> WriteFailureView {
        WriteFailureView { stage: self.stage, source: self.source@ }
    }
}

/// A write under way.
#[derive(Debug)]
pub enum AtomicWrite {
    Writing,
    Syncing,
    Replacing,
    SyncingDirectory,
    CleaningUp(WriteFailure),
    Finished(Result<(), WriteFailure>),
}

#[verifier::ext_equal]
pub enum AtomicWriteView {
    Writing,
    Syncing,
    Replacing,
    SyncingDirectory,
    CleaningUp(WriteFailureView),
    Finished(Result<(), WriteFailureView>),
}

impl View for AtomicWrite {
    type V = AtomicWriteView;

    open spec fn view(&self) -> AtomicWriteView {
        match *self {
            AtomicWrite::Writing => AtomicWriteView::Writing,
            AtomicWrite::Syncing => AtomicWriteView::Syncing,
            AtomicWrite::Replacing => AtomicWriteView::Replacing,
            AtomicWrite::SyncingDirectory => AtomicWriteView::SyncingDirectory,
            AtomicWrite::CleaningUp(failure) => AtomicWriteView::CleaningUp(failure@),
            AtomicWrite::Finished(outcome) => AtomicWriteView::Finished(
                match outcome {
                    Ok(_) => Ok(()),
                    Err(failure) => Err(failure@),
                },
            ),
        }
    }
}

impl AtomicWriteView {
    /// What the host is to do next.
    pub open spec fn request(self) -> WriteRequest {
        match self {
            AtomicWriteView::Writing => WriteRequest::WriteTemporary,
            AtomicWriteView::Syncing => WriteRequest::SyncTemporary,
            AtomicWriteView::Replacing => WriteRequest::Rename,
            AtomicWriteView::SyncingDirectory => WriteRequest::SyncDirectory,
            AtomicWriteView::CleaningUp(_) => WriteRequest::RemoveTemporary,
            AtomicWriteView::Finished(_) => WriteRequest::Finish,
        }
    }

    pub open spec fn failed(stage: WriteStage, source: IoErrorView) -> Self {
        AtomicWriteView::CleaningUp(WriteFailureView { stage, source })
    }

    /// The state once the host has done what was requested, with this outcome.
    pub open spec fn advance(self, outcome: Result<(), IoErrorView>) -> Self {
        match (self, outcome) {
            (AtomicWriteView::Writing, Ok(_)) => AtomicWriteView::Syncing,
            (AtomicWriteView::Writing, Err(e)) => Self::failed(WriteStage::Write, e),
            (AtomicWriteView::Syncing, Ok(_)) => AtomicWriteView::Replacing,
            (AtomicWriteView::Syncing, Err(e)) => Self::failed(WriteStage::Sync, e),
            (AtomicWriteView::Replacing, Ok(_)) => AtomicWriteView::SyncingDirectory,
            (AtomicWriteView::Replacing, Err(e)) => Self::failed(WriteStage::Replace, e),
            (AtomicWriteView::SyncingDirectory, Ok(_)) => AtomicWriteView::Finished(Ok(())),
            (AtomicWriteView::SyncingDirectory, Err(e)) => Self::failed(WriteStage::Directory, e),
            (AtomicWriteView::CleaningUp(failure), _) => AtomicWriteView::Finished(Err(failure)),
            (AtomicWriteView::Finished(_), _) => self,
        }
    }

    /// The file has been replaced.
    pub open spec fn committed(self) -> bool {
        match self {
            AtomicWriteView::SyncingDirectory => true,
            AtomicWriteView::CleaningUp(failure) => failure.stage == WriteStage::Directory,
            AtomicWriteView::Finished(Ok(_)) => true,
            AtomicWriteView::Finished(Err(failure)) => failure.stage == WriteStage::Directory,
            _ => false,
        }
    }
}

impl AtomicWrite {
    /// A write that has not begun.
    pub fn start() -> (r: Self)
        ensures
            r@ == AtomicWriteView::Writing,
    {
        AtomicWrite::Writing
    }

    /// What the host is to do next.
    pub fn request(&self) -> (r: WriteRequest)
        ensures
            r == self@.request(),
    {
        match self {
            AtomicWrite::Writing => WriteRequest::WriteTemporary,
            AtomicWrite::Syncing => WriteRequest::SyncTemporary,
            AtomicWrite::Replacing => WriteRequest::Rename,
            AtomicWrite::SyncingDirectory => WriteRequest::SyncDirectory,
            AtomicWrite::CleaningUp(_) => WriteRequest::RemoveTemporary,
            AtomicWrite::Finished(_) => WriteRequest::Finish,
        }
    }

    fn failed(stage: WriteStage, source: IoError) -> (r: Self)
        ensures
            r@ == AtomicWriteView::failed(stage, source@),
    {
        AtomicWrite::CleaningUp(WriteFailure { stage, source })
    }

    /// The state once the host has done what was requested.
    pub fn advance(self, outcome: Result<(), IoError>) -> (r: Self)
        ensures
            r@ == self@.advance(
                match outcome {
                    Ok(_) => Ok(()),
                    Err(e) => Err(e@),
                },
            ),
    {
        match (self, outcome) {
            (AtomicWrite::Writing, Ok(_)) => AtomicWrite::Syncing,
            (AtomicWrite::Writing, Err(e)) => Self::failed(WriteStage::Write, e),
            (AtomicWrite::Syncing, Ok(_)) => AtomicWrite::Replacing,
            (AtomicWrite::Syncing, Err(e)) => Self::failed(WriteStage::Sync, e),
            (AtomicWrite::Replacing, Ok(_)) => AtomicWrite::SyncingDirectory,
            (AtomicWrite::Replacing, Err(e)) => Self::failed(WriteStage::Replace, e),
            (AtomicWrite::SyncingDirectory, Ok(_)) => AtomicWrite::Finished(Ok(())),
            (AtomicWrite::SyncingDirectory, Err(e)) => Self::failed(WriteStage::Directory, e),
            (AtomicWrite::CleaningUp(failure), _) => AtomicWrite::Finished(Err(failure)),
            (AtomicWrite::Finished(done), _) => AtomicWrite::Finished(done),
        }
    }

    /// The outcome of a write that is over.
    pub fn outcome(self) -> (r: Option<Result<(), WriteFailure>>)
        ensures
            match self@ {
                AtomicWriteView::Finished(Ok(_)) => r is Some && r->0 is Ok,
                AtomicWriteView::Finished(Err(failure)) => r is Some && r->0 is Err
                    && r->0->Err_0@ == failure,
                _ => r is None,
            },
    {
        match self {
            AtomicWrite::Finished(done) => Some(done),
            _ => None,
        }
    }
}

/// The file is replaced by a rename that succeeds, and by nothing else.
pub proof fn only_a_rename_commits(state: AtomicWriteView, outcome: Result<(), IoErrorView>)
    ensures
        state.advance(outcome).committed() <==> state.committed() || (state.request()
            == WriteRequest::Rename && outcome is Ok),
{
}

/// The rename is requested only once the temporary file has been written and synced.
pub proof fn a_rename_follows_a_sync(state: AtomicWriteView, outcome: Result<(), IoErrorView>)
    ensures
        state.advance(outcome).request() == WriteRequest::Rename ==> state.request()
            == WriteRequest::SyncTemporary && outcome is Ok,
        state.advance(outcome).request() == WriteRequest::SyncTemporary ==> state.request()
            == WriteRequest::WriteTemporary && outcome is Ok,
{
}

/// A write that fails removes its temporary file before it is over.
pub proof fn a_failed_write_cleans_up(state: AtomicWriteView, outcome: Result<(), IoErrorView>)
    requires
        state !is Finished,
        state.advance(outcome) is Finished,
        state.advance(outcome)->Finished_0 is Err,
    ensures
        state.request() == WriteRequest::RemoveTemporary,
{
}

/// The name of the temporary file that a process uses for one write.
pub open spec fn temporary_name(label: Seq<char>, process: nat, nonce: nat) -> Seq<char> {
    "."@ + label + "."@ + text::decimal(process) + "."@ + text::decimal(nonce) + ".tmp"@
}

/// The temporary file that a process uses for one write.
pub fn temporary_path(directory: &PathBuf, label: &str, process: u32, nonce: u128) -> (r: PathBuf)
    ensures
        r@ == path::joined(
            directory@,
            utf8::encode_utf8(temporary_name(label@, process as nat, nonce as nat)),
        ),
{
    let mut name = text::joined3(".", label, ".");
    name.append(&text::decimal_of(process as u128));
    name.append(".");
    name.append(&text::decimal_of(nonce));
    name.append(".tmp");
    directory.join_text(&name)
}

} // verus!
