//! Operations on single Registrations, as machines that the host drives.
//!
//! A mutation cannot update the Registry file and a Managed Link at once. Links are therefore made
//! before the desired state is persisted, and only a link whose text was just read is removed. A
//! write that fails before the Registry is replaced is followed by taking the link operation back
//! where that is still safe. Once the Registry is replaced it is authoritative, and no link is
//! touched any more. Every mutation decides on what it observes under the Registry lock.

use vstd::prelude::*;
use vstd::utf8;

use crate::application;
use crate::application::{
    AddRequest,
    AddRequestView,
    ApplicationError,
    ApplicationErrorView,
};
use crate::atomic_write::{WriteFailure, WriteFailureView};
use crate::config_git::{ConfigGitError, ConfigGitErrorView};
use crate::configuration;
use crate::configuration::{ConfigFile, ConfigFileView};
use crate::discovery_ignore;
use crate::environment::{Environment, EnvironmentView};
use crate::host::{
    EntryKind,
    FileRead,
    FileReadView,
    IoError,
    IoErrorKind,
    IoErrorView,
    Observation,
    ObservationView,
};
use crate::model;
use crate::model::{
    LifecycleResult,
    LifecycleResultView,
    LifecycleStatus,
    MutationBoundary,
    Registration,
    RegistrationState,
    RegistrationStateView,
    RegistrationView,
};
use crate::order;
use crate::path;
use crate::path::PathBuf;
use crate::registry;
use crate::registry::{RegistryError, RegistryErrorView, RegistryFile, RegistryFileView};
use crate::text;
use crate::views;

verus! {

/// An addition whose Target and name have been checked.
#[derive(Debug)]
pub struct Prepared {
    pub name: String,
    pub target: PathBuf,
    pub disabled: bool,
    pub managed_link: PathBuf,
}

#[verifier::ext_equal]
pub struct PreparedView {
    pub name: Seq<char>,
    pub target: Seq<u8>,
    pub disabled: bool,
    pub managed_link: Seq<u8>,
}

impl View for Prepared {
    type V = PreparedView;

    open spec fn view(&self) -> PreparedView {
        PreparedView {
            name: self.name@,
            target: self.target@,
            disabled: self.disabled,
            managed_link: self.managed_link@,
        }
    }
}

impl Clone for Prepared {
    fn clone(&self) -> (r: Self)
        ensures
            r@ == self@,
    {
        Prepared {
            name: self.name.clone(),
            target: self.target.clone(),
            disabled: self.disabled,
            managed_link: self.managed_link.clone(),
        }
    }
}

/// What an operation is to do.
#[derive(Debug)]
pub enum Task {
    SetEnabled { name: String, enabled: bool },
    Remove { name: String },
    Rename { name: String, new_name: String },
    Add(AddRequest),
    ValidateAdd(AddRequest),
    AddPrepared(Prepared),
    ValidatePrepared(Prepared),
}

#[verifier::ext_equal]
pub enum TaskView {
    SetEnabled { name: Seq<char>, enabled: bool },
    Remove { name: Seq<char> },
    Rename { name: Seq<char>, new_name: Seq<char> },
    Add(AddRequestView),
    ValidateAdd(AddRequestView),
    AddPrepared(PreparedView),
    ValidatePrepared(PreparedView),
}

impl View for Task {
    type V = TaskView;

    open spec fn view(&self) -> TaskView {
        match *self {
            Task::SetEnabled { name, enabled } => TaskView::SetEnabled { name: name@, enabled },
            Task::Remove { name } => TaskView::Remove { name: name@ },
            Task::Rename { name, new_name } => TaskView::Rename {
                name: name@,
                new_name: new_name@,
            },
            Task::Add(request) => TaskView::Add(request@),
            Task::ValidateAdd(request) => TaskView::ValidateAdd(request@),
            Task::AddPrepared(prepared) => TaskView::AddPrepared(prepared@),
            Task::ValidatePrepared(prepared) => TaskView::ValidatePrepared(prepared@),
        }
    }
}

/// How a failed mutation is reported: under which identifier, and with the state of which
/// Registration. The first of the names that can be inspected counts.
#[derive(Debug)]
pub struct Failure {
    pub identifier: &'static str,
    pub names: Vec<String>,
}

#[verifier::ext_equal]
pub struct FailureView {
    pub identifier: Seq<char>,
    pub names: Seq<Seq<char>>,
}

impl View for Failure {
    type V = FailureView;

    open spec fn view(&self) -> FailureView {
        FailureView { identifier: self.identifier@, names: views::views(self.names@) }
    }
}

/// A link and its text.
#[derive(Debug)]
pub struct LinkText {
    pub link: PathBuf,
    pub text: PathBuf,
}

#[verifier::ext_equal]
pub struct LinkTextView {
    pub link: Seq<u8>,
    pub text: Seq<u8>,
}

impl View for LinkText {
    type V = LinkTextView;

    open spec fn view(&self) -> LinkTextView {
        LinkTextView { link: self.link@, text: self.text@ }
    }
}

/// What a completed change reports.
#[derive(Debug)]
pub enum Report {
    Removed,
    Changed { identifier: &'static str, registration: Registration },
    Added(Registration),
}

#[verifier::ext_equal]
pub enum ReportView {
    Removed,
    Changed { identifier: Seq<char>, registration: RegistrationView },
    Added(RegistrationView),
}

impl View for Report {
    type V = ReportView;

    open spec fn view(&self) -> ReportView {
        match *self {
            Report::Removed => ReportView::Removed,
            Report::Changed { identifier, registration } => ReportView::Changed {
                identifier: identifier@,
                registration: registration@,
            },
            Report::Added(registration) => ReportView::Added(registration@),
        }
    }
}

/// A change to the Registry and to Managed Links, and how to take the links back.
#[derive(Debug)]
pub struct Change {
    pub bin_dir: PathBuf,
    /// What a link that is made points to.
    pub target: PathBuf,
    pub create: Option<PathBuf>,
    pub remove: Option<LinkText>,
    pub undo_create: Option<PathBuf>,
    pub undo_remove: Option<LinkText>,
    pub registrations: Vec<Registration>,
    pub report: Report,
}

#[verifier::ext_equal]
pub struct ChangeView {
    pub bin_dir: Seq<u8>,
    pub target: Seq<u8>,
    pub create: Option<Seq<u8>>,
    pub remove: Option<LinkTextView>,
    pub undo_create: Option<Seq<u8>>,
    pub undo_remove: Option<LinkTextView>,
    pub registrations: Seq<RegistrationView>,
    pub report: ReportView,
}

impl View for Change {
    type V = ChangeView;

    open spec fn view(&self) -> ChangeView {
        ChangeView {
            bin_dir: self.bin_dir@,
            target: self.target@,
            create: views::view_of(self.create),
            remove: views::view_of(self.remove),
            undo_create: views::view_of(self.undo_create),
            undo_remove: views::view_of(self.undo_remove),
            registrations: views::views(self.registrations@),
            report: self.report@,
        }
    }
}

/// What is looked at before a decision.
#[derive(Debug)]
pub enum Subject {
    /// The Registration at a position, and its Managed Link.
    Existing { at: usize, link: PathBuf },
    /// A Registration that is renamed to its own name.
    Unchanged { at: usize, link: PathBuf },
    /// A Registration, its old and new Managed Links, and the Target of a Registration that
    /// already has the new name.
    Renaming { at: usize, old_link: PathBuf, new_link: PathBuf, duplicate: Option<PathBuf> },
    /// An addition, and the Registration that already has the name.
    Adding { prepared: Prepared, existing: Option<Registration> },
}

#[verifier::ext_equal]
pub enum SubjectView {
    Existing { at: int, link: Seq<u8> },
    Unchanged { at: int, link: Seq<u8> },
    Renaming { at: int, old_link: Seq<u8>, new_link: Seq<u8>, duplicate: Option<Seq<u8>> },
    Adding { prepared: PreparedView, existing: Option<RegistrationView> },
}

impl View for Subject {
    type V = SubjectView;

    open spec fn view(&self) -> SubjectView {
        match *self {
            Subject::Existing { at, link } => SubjectView::Existing { at: at as int, link: link@ },
            Subject::Unchanged { at, link } => SubjectView::Unchanged {
                at: at as int,
                link: link@,
            },
            Subject::Renaming { at, old_link, new_link, duplicate } => SubjectView::Renaming {
                at: at as int,
                old_link: old_link@,
                new_link: new_link@,
                duplicate: views::view_of(duplicate),
            },
            Subject::Adding { prepared, existing } => SubjectView::Adding {
                prepared: prepared@,
                existing: views::view_of(existing),
            },
        }
    }
}

/// Where an operation stands.
#[derive(Debug)]
pub enum Phase {
    Configuring,
    CheckingTarget { bin_dir: PathBuf, target: PathBuf },
    CreatingRegistryDirectory { bin_dir: PathBuf },
    Locking { bin_dir: PathBuf },
    ReadingRegistry { bin_dir: PathBuf },
    Examining { bin_dir: PathBuf, subject: Subject, registrations: Vec<Registration> },
    CreatingBinDirectory { link: PathBuf, change: Change },
    CreatingLink { link: PathBuf, change: Change },
    CheckingLink { removal: LinkText, change: Change },
    RemovingLink { removal: LinkText, change: Change },
    Writing { file: RegistryFile, change: Change },
    Synchronizing { change: Change },
    Reporting { bin_dir: PathBuf, link: PathBuf, report: Report },
    UndoChecking { link: PathBuf, change: Change, error: ApplicationError, restore: bool },
    UndoRemoving { link: PathBuf, change: Change, error: ApplicationError, restore: bool },
    RestoreObserving { removal: LinkText, error: ApplicationError },
    RestoreCreating { removal: LinkText, error: ApplicationError },
    FailureConfiguring { message: String },
    FailureObserving { message: String, bin_dir: PathBuf, old: PathBuf, new: PathBuf },
    FailureReading { message: String, bin_dir: PathBuf },
    FailureInspecting {
        message: String,
        bin_dir: PathBuf,
        link: PathBuf,
        at: usize,
        next: usize,
        registrations: Vec<Registration>,
    },
    Finished(Result<LifecycleResult, ApplicationError>),
}

#[verifier::ext_equal]
pub enum PhaseView {
    Configuring,
    CheckingTarget { bin_dir: Seq<u8>, target: Seq<u8> },
    CreatingRegistryDirectory { bin_dir: Seq<u8> },
    Locking { bin_dir: Seq<u8> },
    ReadingRegistry { bin_dir: Seq<u8> },
    Examining { bin_dir: Seq<u8>, subject: SubjectView, registrations: Seq<RegistrationView> },
    CreatingBinDirectory { link: Seq<u8>, change: ChangeView },
    CreatingLink { link: Seq<u8>, change: ChangeView },
    CheckingLink { removal: LinkTextView, change: ChangeView },
    RemovingLink { removal: LinkTextView, change: ChangeView },
    Writing { file: RegistryFileView, change: ChangeView },
    Synchronizing { change: ChangeView },
    Reporting { bin_dir: Seq<u8>, link: Seq<u8>, report: ReportView },
    UndoChecking {
        link: Seq<u8>,
        change: ChangeView,
        error: ApplicationErrorView,
        restore: bool,
    },
    UndoRemoving {
        link: Seq<u8>,
        change: ChangeView,
        error: ApplicationErrorView,
        restore: bool,
    },
    RestoreObserving { removal: LinkTextView, error: ApplicationErrorView },
    RestoreCreating { removal: LinkTextView, error: ApplicationErrorView },
    FailureConfiguring { message: Seq<char> },
    FailureObserving { message: Seq<char>, bin_dir: Seq<u8>, old: Seq<u8>, new: Seq<u8> },
    FailureReading { message: Seq<char>, bin_dir: Seq<u8> },
    FailureInspecting {
        message: Seq<char>,
        bin_dir: Seq<u8>,
        link: Seq<u8>,
        at: int,
        next: int,
        registrations: Seq<RegistrationView>,
    },
    Finished(Result<LifecycleResultView, ApplicationErrorView>),
}

impl View for Phase {
    type V = PhaseView;

    open spec fn view(&self) -> PhaseView {
        match *self {
            Phase::Configuring => PhaseView::Configuring,
            Phase::CheckingTarget { bin_dir, target } => PhaseView::CheckingTarget {
                bin_dir: bin_dir@,
                target: target@,
            },
            Phase::CreatingRegistryDirectory { bin_dir } => PhaseView::CreatingRegistryDirectory {
                bin_dir: bin_dir@,
            },
            Phase::Locking { bin_dir } => PhaseView::Locking { bin_dir: bin_dir@ },
            Phase::ReadingRegistry { bin_dir } => PhaseView::ReadingRegistry { bin_dir: bin_dir@ },
            Phase::Examining { bin_dir, subject, registrations } => PhaseView::Examining {
                bin_dir: bin_dir@,
                subject: subject@,
                registrations: views::views(registrations@),
            },
            Phase::CreatingBinDirectory { link, change } => PhaseView::CreatingBinDirectory {
                link: link@,
                change: change@,
            },
            Phase::CreatingLink { link, change } => PhaseView::CreatingLink {
                link: link@,
                change: change@,
            },
            Phase::CheckingLink { removal, change } => PhaseView::CheckingLink {
                removal: removal@,
                change: change@,
            },
            Phase::RemovingLink { removal, change } => PhaseView::RemovingLink {
                removal: removal@,
                change: change@,
            },
            Phase::Writing { file, change } => PhaseView::Writing {
                file: file@,
                change: change@,
            },
            Phase::Synchronizing { change } => PhaseView::Synchronizing { change: change@ },
            Phase::Reporting { bin_dir, link, report } => PhaseView::Reporting {
                bin_dir: bin_dir@,
                link: link@,
                report: report@,
            },
            Phase::UndoChecking { link, change, error, restore } => PhaseView::UndoChecking {
                link: link@,
                change: change@,
                error: error@,
                restore,
            },
            Phase::UndoRemoving { link, change, error, restore } => PhaseView::UndoRemoving {
                link: link@,
                change: change@,
                error: error@,
                restore,
            },
            Phase::RestoreObserving { removal, error } => PhaseView::RestoreObserving {
                removal: removal@,
                error: error@,
            },
            Phase::RestoreCreating { removal, error } => PhaseView::RestoreCreating {
                removal: removal@,
                error: error@,
            },
            Phase::FailureConfiguring { message } => PhaseView::FailureConfiguring {
                message: message@,
            },
            Phase::FailureObserving { message, bin_dir, old, new } => PhaseView::FailureObserving {
                message: message@,
                bin_dir: bin_dir@,
                old: old@,
                new: new@,
            },
            Phase::FailureReading { message, bin_dir } => PhaseView::FailureReading {
                message: message@,
                bin_dir: bin_dir@,
            },
            Phase::FailureInspecting { message, bin_dir, link, at, next, registrations } =>
                PhaseView::FailureInspecting {
                message: message@,
                bin_dir: bin_dir@,
                link: link@,
                at: at as int,
                next: next as int,
                registrations: views::views(registrations@),
            },
            Phase::Finished(outcome) => PhaseView::Finished(
                match outcome {
                    Ok(result) => Ok(result@),
                    Err(error) => Err(error@),
                },
            ),
        }
    }
}

/// What the host is asked to do next.
#[derive(Debug, PartialEq, Eq)]
pub enum Request {
    ReadConfiguration(PathBuf),
    ReadRegistry(PathBuf),
    CreateDirectory(PathBuf),
    /// Take the Registry lock, which is kept until the operation is over.
    Lock(PathBuf),
    Observe(Vec<PathBuf>),
    CreateLink { target: PathBuf, link: PathBuf, guarded: bool },
    ReadLink { link: PathBuf, guarded: bool },
    RemoveLink(PathBuf),
    /// Replace the Registry file atomically.
    Write(RegistryFile),
    /// Commit and push the Registry file, where it lies in a Git worktree.
    Synchronize(PathBuf),
    Finish,
}

#[verifier::ext_equal]
pub enum RequestView {
    ReadConfiguration(Seq<u8>),
    ReadRegistry(Seq<u8>),
    CreateDirectory(Seq<u8>),
    Lock(Seq<u8>),
    Observe(Seq<Seq<u8>>),
    CreateLink { target: Seq<u8>, link: Seq<u8>, guarded: bool },
    ReadLink { link: Seq<u8>, guarded: bool },
    RemoveLink(Seq<u8>),
    Write(RegistryFileView),
    Synchronize(Seq<u8>),
    Finish,
}

impl View for Request {
    type V = RequestView;

    open spec fn view(&self) -> RequestView {
        match *self {
            Request::ReadConfiguration(path) => RequestView::ReadConfiguration(path@),
            Request::ReadRegistry(path) => RequestView::ReadRegistry(path@),
            Request::CreateDirectory(path) => RequestView::CreateDirectory(path@),
            Request::Lock(path) => RequestView::Lock(path@),
            Request::Observe(paths) => RequestView::Observe(views::views(paths@)),
            Request::CreateLink { target, link, guarded } => RequestView::CreateLink {
                target: target@,
                link: link@,
                guarded,
            },
            Request::ReadLink { link, guarded } => RequestView::ReadLink { link: link@, guarded },
            Request::RemoveLink(link) => RequestView::RemoveLink(link@),
            Request::Write(file) => RequestView::Write(file@),
            Request::Synchronize(path) => RequestView::Synchronize(path@),
            Request::Finish => RequestView::Finish,
        }
    }
}

impl RequestView {
    /// The boundary that a mutation passes with this request.
    pub open spec fn boundary(self) -> Option<MutationBoundary> {
        match self {
            RequestView::Lock(_) => Some(MutationBoundary::LockAcquisition),
            RequestView::CreateLink { guarded, .. } => if guarded {
                Some(MutationBoundary::ManagedLinkCreation)
            } else {
                None
            },
            RequestView::ReadLink { guarded, .. } => if guarded {
                Some(MutationBoundary::ManagedLinkRemoval)
            } else {
                None
            },
            _ => None,
        }
    }
}

impl Request {
    /// The boundary that a mutation passes with this request.
    pub fn boundary(&self) -> (r: Option<MutationBoundary>)
        ensures
            r == self@.boundary(),
    {
        match self {
            Request::Lock(_) => Some(MutationBoundary::LockAcquisition),
            Request::CreateLink { guarded, .. } => if *guarded {
                Some(MutationBoundary::ManagedLinkCreation)
            } else {
                None
            },
            Request::ReadLink { guarded, .. } => if *guarded {
                Some(MutationBoundary::ManagedLinkRemoval)
            } else {
                None
            },
            _ => None,
        }
    }
}

/// What the host reports.
#[derive(Debug)]
pub enum Event {
    Configuration(FileRead<ConfigFile>),
    Registry(FileRead<RegistryFile>),
    Done(Result<(), IoError>),
    Observed(Vec<Observation>),
    /// The text of a link, if the path holds one.
    LinkRead(Result<Option<PathBuf>, IoError>),
    /// The outcome of an atomic write, and the temporary file that it used.
    Written(Result<(), WriteFailure>, PathBuf),
    Synchronized(Result<(), ConfigGitError>),
}

#[verifier::ext_equal]
pub enum EventView {
    Configuration(FileReadView<ConfigFileView>),
    Registry(FileReadView<RegistryFileView>),
    Done(Result<(), IoErrorView>),
    Observed(Seq<ObservationView>),
    LinkRead(Result<Option<Seq<u8>>, IoErrorView>),
    Written(Result<(), WriteFailureView>, Seq<u8>),
    Synchronized(Result<(), ConfigGitErrorView>),
}

impl View for Event {
    type V = EventView;

    open spec fn view(&self) -> EventView {
        match *self {
            Event::Configuration(read) => EventView::Configuration(read@),
            Event::Registry(read) => EventView::Registry(read@),
            Event::Done(outcome) => EventView::Done(discovery_ignore::unit_view(outcome)),
            Event::Observed(seen) => EventView::Observed(views::views(seen@)),
            Event::LinkRead(outcome) => EventView::LinkRead(
                match outcome {
                    Ok(text) => Ok(views::view_of(text)),
                    Err(source) => Err(source@),
                },
            ),
            Event::Written(outcome, temporary) => EventView::Written(
                discovery_ignore::unit_view(outcome),
                temporary@,
            ),
            Event::Synchronized(outcome) => EventView::Synchronized(
                discovery_ignore::unit_view(outcome),
            ),
        }
    }
}

/// An operation under way.
#[derive(Debug)]
pub struct Lifecycle {
    task: Task,
    /// A check that changes nothing has no failure report of its own.
    failure: Option<Failure>,
    phase: Phase,
}

#[verifier::ext_equal]
pub struct LifecycleView {
    pub task: TaskView,
    pub failure: Option<FailureView>,
    pub phase: PhaseView,
}

impl View for Lifecycle {
    type V = LifecycleView;

    closed spec fn view(&self) -> LifecycleView {
        LifecycleView {
            task: self.task@,
            failure: views::view_of(self.failure),
            phase: self.phase@,
        }
    }
}

/// The Registration with another enabled state.
pub open spec fn with_enabled(registration: RegistrationView, enabled: bool) -> RegistrationView {
    RegistrationView { enabled, ..registration }
}

/// The Registration with another name.
pub open spec fn with_name(registration: RegistrationView, name: Seq<char>) -> RegistrationView {
    RegistrationView { name, ..registration }
}

/// The Registrations that do not have this name.
pub open spec fn without_name(registrations: Seq<RegistrationView>, name: Seq<char>) -> Seq<
    RegistrationView,
>
    decreases registrations.len(),
{
    if registrations.len() == 0 {
        registrations
    } else {
        let before = without_name(registrations.drop_last(), name);
        if registrations.last().name == name {
            before
        } else {
            before.push(registrations.last())
        }
    }
}

/// Registrations in the order of their names.
pub open spec fn in_order(registrations: Seq<RegistrationView>) -> Seq<RegistrationView> {
    order::stably_sorted(registrations, model::name_order())
}

/// What an addition asks for, checked against its Target.
pub open spec fn prepared_for(
    request: AddRequestView,
    bin_dir: Seq<u8>,
    target: Seq<u8>,
    seen: ObservationView,
) -> Result<PreparedView, ApplicationErrorView> {
    match application::checked_target(target, seen, false) {
        Err(error) => Err(error),
        Ok(_) => match proposed_name(request, target) {
            None => Err(
                ApplicationErrorView::InvalidInput(
                    "Target must have a UTF-8 filename for its default Command Name"@,
                ),
            ),
            Some(name) => if !registry::valid_name(name) {
                Err(ApplicationErrorView::InvalidInput(registry::name_problem(name)))
            } else {
                match application::managed_link_of(bin_dir, name) {
                    Err(error) => Err(error),
                    Ok(managed_link) => Ok(
                        PreparedView { name, target, disabled: request.disabled, managed_link },
                    ),
                }
            },
        },
    }
}

/// The name that a request gives, or else the file name of a path, where it is text.
pub open spec fn proposed_name(request: AddRequestView, target: Seq<u8>) -> Option<Seq<char>> {
    match request.name {
        Some(name) => Some(name),
        None => textual_file_name(target),
    }
}

/// The file name of a path, where it has one that is text.
pub open spec fn textual_file_name(target: Seq<u8>) -> Option<Seq<char>> {
    match path::file_name_of(target) {
        Some(name) => if utf8::valid_utf8(name) {
            Some(utf8::decode_utf8(name))
        } else {
            None
        },
        None => None,
    }
}

/// A broken link that can be taken away with an enabled Registration that is disabled: it leads
/// nowhere, and its text is known.
pub open spec fn removable_broken_link(
    registration: RegistrationView,
    enabled: bool,
    seen: ObservationView,
) -> bool {
    &&& !enabled
    &&& registration.enabled
    &&& seen.entry == Ok::<EntryKind, IoErrorView>(EntryKind::SymbolicLink)
    &&& seen.link is Some
    &&& !application::owns(seen, registration.target)
    &&& seen.followed matches Err(source) && source.kind == IoErrorKind::NotFound
}

pub open spec fn enabled_identifier(enabled: bool) -> Seq<char> {
    if enabled {
        "registration-enabled"@
    } else {
        "registration-disabled"@
    }
}

/// The change that enables or disables a Registration.
pub open spec fn enabling_change(
    bin_dir: Seq<u8>,
    registrations: Seq<RegistrationView>,
    at: int,
    enabled: bool,
    link: Seq<u8>,
    seen: ObservationView,
) -> ChangeView {
    let registration = registrations[at];
    let updated = with_enabled(registration, enabled);
    let owned = application::owns(seen, registration.target);
    let broken = removable_broken_link(registration, enabled, seen);
    ChangeView {
        bin_dir,
        target: registration.target,
        create: if enabled && !owned {
            Some(link)
        } else {
            None
        },
        remove: if broken {
            Some(LinkTextView { link, text: seen.link->0 })
        } else if !enabled && owned {
            Some(LinkTextView { link, text: registration.target })
        } else {
            None
        },
        undo_create: if enabled {
            Some(link)
        } else {
            None
        },
        undo_remove: if enabled {
            None
        } else {
            Some(
                LinkTextView {
                    link,
                    text: if broken {
                        seen.link->0
                    } else {
                        registration.target
                    },
                },
            )
        },
        registrations: registrations.update(at, updated),
        report: ReportView::Changed {
            identifier: enabled_identifier(enabled),
            registration: updated,
        },
    }
}

/// The change that removes a Registration.
pub open spec fn removing_change(
    bin_dir: Seq<u8>,
    registrations: Seq<RegistrationView>,
    at: int,
    link: Seq<u8>,
    seen: ObservationView,
) -> ChangeView {
    let registration = registrations[at];
    let removal = if application::owns(seen, registration.target) {
        Some(LinkTextView { link, text: registration.target })
    } else {
        None
    };
    ChangeView {
        bin_dir,
        target: registration.target,
        create: None,
        remove: removal,
        undo_create: None,
        undo_remove: removal,
        registrations: without_name(registrations, registration.name),
        report: ReportView::Removed,
    }
}

/// The change that renames a Registration.
pub open spec fn renaming_change(
    bin_dir: Seq<u8>,
    registrations: Seq<RegistrationView>,
    at: int,
    new_name: Seq<char>,
    old_link: Seq<u8>,
    new_link: Seq<u8>,
    old_seen: ObservationView,
) -> ChangeView {
    let registration = registrations[at];
    let updated = with_name(registration, new_name);
    let creation = if registration.enabled {
        Some(new_link)
    } else {
        None
    };
    let removal = if application::owns(old_seen, registration.target) {
        Some(LinkTextView { link: old_link, text: registration.target })
    } else {
        None
    };
    ChangeView {
        bin_dir,
        target: registration.target,
        create: creation,
        remove: removal,
        undo_create: creation,
        undo_remove: removal,
        registrations: in_order(registrations.update(at, updated)),
        report: ReportView::Changed { identifier: "registration-renamed"@, registration: updated },
    }
}

/// The Registration that an addition makes.
pub open spec fn added_registration(prepared: PreparedView) -> RegistrationView {
    RegistrationView {
        name: prepared.name,
        target: prepared.target,
        enabled: !prepared.disabled,
    }
}

/// The change that adds a Registration.
pub open spec fn adding_change(
    bin_dir: Seq<u8>,
    registrations: Seq<RegistrationView>,
    prepared: PreparedView,
) -> ChangeView {
    let registration = added_registration(prepared);
    let creation = if registration.enabled {
        Some(prepared.managed_link)
    } else {
        None
    };
    ChangeView {
        bin_dir,
        target: prepared.target,
        create: creation,
        remove: None,
        undo_create: creation,
        undo_remove: None,
        registrations: in_order(registrations.push(registration)),
        report: ReportView::Added(registration),
    }
}

pub open spec fn changed_before_removal(link: Seq<u8>) -> ApplicationErrorView {
    ApplicationErrorView::InvalidInput(
        "Managed Link "@ + text::lossy_text(link)
            + " changed before removal; it was left untouched; inspect the path and retry"@,
    )
}

/// A rename that is refused, and why.
pub open spec fn rename_refused(
    identifier: Seq<char>,
    state: RegistrationStateView,
    conflict: Seq<char>,
) -> LifecycleResultView {
    LifecycleResultView {
        status: LifecycleStatus::Blocked,
        identifier,
        registration: Some(state),
        conflict: Some(conflict),
    }
}

pub open spec fn removed_result() -> LifecycleResultView {
    LifecycleResultView {
        status: LifecycleStatus::Healthy,
        identifier: "registration-removed"@,
        registration: None,
        conflict: None,
    }
}

impl SubjectView {
    /// What has to be looked at.
    pub open spec fn paths(self, registrations: Seq<RegistrationView>) -> Seq<Seq<u8>> {
        match self {
            SubjectView::Existing { at, link } => seq![link, registrations[at].target],
            SubjectView::Unchanged { at, link } => seq![link, registrations[at].target],
            SubjectView::Renaming { at, old_link, new_link, .. } => seq![
                old_link,
                registrations[at].target,
                new_link,
            ],
            SubjectView::Adding { prepared, existing } => seq![
                prepared.managed_link,
                match existing {
                    Some(registration) => registration.target,
                    None => prepared.target,
                },
            ],
        }
    }
}

impl LifecycleView {
    pub open spec fn at(self, phase: PhaseView) -> Self {
        LifecycleView { phase, ..self }
    }

    pub open spec fn done(self, result: LifecycleResultView) -> Self {
        self.at(PhaseView::Finished(Ok(result)))
    }

    /// A failed mutation goes on to find out what state it left; a failed check is over.
    #[verifier::opaque]
    pub open spec fn fail(self, error: ApplicationErrorView) -> Self {
        match self.failure {
            None => self.at(PhaseView::Finished(Err(error))),
            Some(failure) => if failure.names.len() == 0 {
                self.mutation_failed(failure, error.message(), None)
            } else {
                self.at(PhaseView::FailureConfiguring { message: error.message() })
            },
        }
    }

    #[verifier::opaque]
    pub open spec fn mutation_failed(
        self,
        failure: FailureView,
        message: Seq<char>,
        resulting_registration: Option<RegistrationStateView>,
    ) -> Self {
        self.at(
            PhaseView::Finished(
                Err(
                    ApplicationErrorView::Mutation {
                        identifier: failure.identifier,
                        message,
                        resulting_registration,
                    },
                ),
            ),
        )
    }

    /// A result that needs the state of a Registration.
    pub open spec fn with_state(
        self,
        state: Result<RegistrationStateView, ApplicationErrorView>,
        result: spec_fn(RegistrationStateView) -> LifecycleResultView,
    ) -> Self {
        match state {
            Ok(state) => self.done(result(state)),
            Err(error) => self.fail(error),
        }
    }

    #[verifier::opaque]
    pub open spec fn configured(self, bin_dir: Seq<u8>, environment: EnvironmentView) -> Self {
        match self.task {
            TaskView::Add(request) => self.at(
                PhaseView::CheckingTarget {
                    bin_dir,
                    target: application::absolute_of(request.target, environment),
                },
            ),
            TaskView::ValidateAdd(request) => self.at(
                PhaseView::CheckingTarget {
                    bin_dir,
                    target: application::absolute_of(request.target, environment),
                },
            ),
            _ => self.at(PhaseView::CreatingRegistryDirectory { bin_dir }),
        }
    }

    #[verifier::opaque]
    pub open spec fn target_checked(
        self,
        request: AddRequestView,
        validating: bool,
        bin_dir: Seq<u8>,
        target: Seq<u8>,
        seen: ObservationView,
    ) -> Self {
        match prepared_for(request, bin_dir, target, seen) {
            Err(error) => self.fail(error),
            Ok(prepared) => if validating {
                LifecycleView {
                    task: TaskView::ValidatePrepared(prepared),
                    phase: PhaseView::ReadingRegistry { bin_dir },
                    ..self
                }
            } else {
                LifecycleView {
                    task: TaskView::AddPrepared(prepared),
                    phase: PhaseView::CreatingRegistryDirectory { bin_dir },
                    ..self
                }
            },
        }
    }

    /// The Registration that is operated on has to exist.
    #[verifier::opaque]
    pub open spec fn existing(
        self,
        name: Seq<char>,
        bin_dir: Seq<u8>,
        registrations: Seq<RegistrationView>,
    ) -> Self {
        match registry::position_of(registrations, name) {
            None => self.fail(ApplicationErrorView::UnknownName(name)),
            Some(at) => match application::managed_link_of(bin_dir, name) {
                Err(error) => self.fail(error),
                Ok(link) => self.at(
                    PhaseView::Examining {
                        bin_dir,
                        subject: SubjectView::Existing { at, link },
                        registrations,
                    },
                ),
            },
        }
    }

    #[verifier::opaque]
    pub open spec fn renaming(
        self,
        name: Seq<char>,
        new_name: Seq<char>,
        bin_dir: Seq<u8>,
        registrations: Seq<RegistrationView>,
    ) -> Self {
        match registry::position_of(registrations, name) {
            None => self.fail(ApplicationErrorView::UnknownName(name)),
            Some(at) => match application::managed_link_of(bin_dir, name) {
                Err(error) => self.fail(error),
                Ok(old_link) => if name == new_name {
                    self.at(
                        PhaseView::Examining {
                            bin_dir,
                            subject: SubjectView::Unchanged { at, link: old_link },
                            registrations,
                        },
                    )
                } else {
                    match application::managed_link_of(bin_dir, new_name) {
                        Err(error) => self.fail(error),
                        Ok(new_link) => self.at(
                            PhaseView::Examining {
                                bin_dir,
                                subject: SubjectView::Renaming {
                                    at,
                                    old_link,
                                    new_link,
                                    duplicate: match registry::position_of(
                                        registrations,
                                        new_name,
                                    ) {
                                        Some(other) => Some(registrations[other].target),
                                        None => None,
                                    },
                                },
                                registrations,
                            },
                        ),
                    }
                },
            },
        }
    }

    #[verifier::opaque]
    pub open spec fn adding(
        self,
        prepared: PreparedView,
        bin_dir: Seq<u8>,
        registrations: Seq<RegistrationView>,
    ) -> Self {
        self.at(
            PhaseView::Examining {
                bin_dir,
                subject: SubjectView::Adding {
                    prepared,
                    existing: match registry::position_of(registrations, prepared.name) {
                        Some(at) => Some(registrations[at]),
                        None => None,
                    },
                },
                registrations,
            },
        )
    }

    #[verifier::opaque]
    pub open spec fn registry_read(
        self,
        bin_dir: Seq<u8>,
        registrations: Seq<RegistrationView>,
    ) -> Self {
        match self.task {
            TaskView::SetEnabled { name, .. } => self.existing(name, bin_dir, registrations),
            TaskView::Remove { name } => self.existing(name, bin_dir, registrations),
            TaskView::Rename { name, new_name } => self.renaming(
                name,
                new_name,
                bin_dir,
                registrations,
            ),
            TaskView::AddPrepared(prepared) => self.adding(prepared, bin_dir, registrations),
            TaskView::ValidatePrepared(prepared) => self.adding(prepared, bin_dir, registrations),
            _ => self.at(PhaseView::ReadingRegistry { bin_dir }),
        }
    }

    /// Whether to enable or disable what was looked at.
    #[verifier::opaque]
    pub open spec fn enabling_examined(
        self,
        enabled: bool,
        bin_dir: Seq<u8>,
        at: int,
        link: Seq<u8>,
        registrations: Seq<RegistrationView>,
        link_seen: ObservationView,
        target_seen: ObservationView,
        environment: EnvironmentView,
    ) -> Self {
        let registration = registrations[at];
        let owned = application::owns(link_seen, registration.target);
        let exists = link_seen.entry is Ok;
        let state = application::inspected(registration, bin_dir, link_seen, target_seen);
        if exists && !owned && !removable_broken_link(registration, enabled, link_seen) {
            self.with_state(
                state,
                |state: RegistrationStateView|
                    application::refused("managed-path-conflict"@, state),
            )
        } else if registration.enabled == enabled && (if enabled {
            owned
        } else {
            !exists
        }) {
            self.with_state(
                state,
                |state: RegistrationStateView|
                    application::reported(enabled_identifier(enabled), state),
            )
        } else {
            match application::checked_target(registration.target, target_seen, true) {
                Err(error) => if enabled {
                    self.fail(error)
                } else {
                    self.change(
                        enabling_change(bin_dir, registrations, at, enabled, link, link_seen),
                        environment,
                    )
                },
                Ok(_) => self.change(
                    enabling_change(bin_dir, registrations, at, enabled, link, link_seen),
                    environment,
                ),
            }
        }
    }

    /// Whether to remove what was looked at.
    #[verifier::opaque]
    pub open spec fn removing_examined(
        self,
        bin_dir: Seq<u8>,
        at: int,
        link: Seq<u8>,
        registrations: Seq<RegistrationView>,
        link_seen: ObservationView,
        target_seen: ObservationView,
        environment: EnvironmentView,
    ) -> Self {
        let registration = registrations[at];
        if link_seen.entry is Ok && !application::owns(link_seen, registration.target) {
            self.with_state(
                application::inspected(registration, bin_dir, link_seen, target_seen),
                |state: RegistrationStateView|
                    application::refused("managed-path-conflict"@, state),
            )
        } else {
            self.change(
                removing_change(bin_dir, registrations, at, link, link_seen),
                environment,
            )
        }
    }

    /// Whether to rename what was looked at.
    #[verifier::opaque]
    pub open spec fn renaming_examined(
        self,
        new_name: Seq<char>,
        bin_dir: Seq<u8>,
        at: int,
        old_link: Seq<u8>,
        new_link: Seq<u8>,
        duplicate: Option<Seq<u8>>,
        registrations: Seq<RegistrationView>,
        seen: Seq<ObservationView>,
        environment: EnvironmentView,
    ) -> Self {
        let registration = registrations[at];
        let state = application::inspected(registration, bin_dir, seen[0], seen[1]);
        let paths = application::both_paths(
            "actual paths: old "@,
            old_link,
            seen[0],
            new_link,
            seen[2],
        );
        if let Some(target) = duplicate {
            self.with_state(
                state,
                |state: RegistrationStateView|
                    rename_refused(
                        "command-name-registered"@,
                        state,
                        "Command Name "@ + text::quoted_text(new_name)
                            + " is already registered to "@ + text::lossy_text(target)
                            + "; choose another Command Name; "@ + paths,
                    ),
            )
        } else if registration.enabled && seen[0].entry is Ok && !application::owns(
            seen[0],
            registration.target,
        ) {
            self.with_state(
                state,
                |state: RegistrationStateView|
                    rename_refused(
                        "rename-source-conflict"@,
                        state,
                        "old Managed Link ownership changed and it was left untouched; resolve it manually, then retry; "@
                            + paths,
                    ),
            )
        } else {
            match seen[2].entry {
                Ok(_) => self.with_state(
                    state,
                    |state: RegistrationStateView|
                        rename_refused(
                            "rename-destination-conflict"@,
                            state,
                            "new managed path "@ + text::lossy_text(new_link)
                                + " is occupied; remove or rename that unmanaged entry, then retry; "@
                                + paths,
                        ),
                ),
                Err(source) => if source.kind == IoErrorKind::NotFound {
                    self.change(
                        renaming_change(
                            bin_dir,
                            registrations,
                            at,
                            new_name,
                            old_link,
                            new_link,
                            seen[0],
                        ),
                        environment,
                    )
                } else {
                    self.fail(
                        ApplicationErrorView::InspectManagedPath { path: new_link, source },
                    )
                },
            }
        }
    }

    /// Whether to add what was looked at.
    #[verifier::opaque]
    pub open spec fn adding_examined(
        self,
        validating: bool,
        prepared: PreparedView,
        existing: Option<RegistrationView>,
        bin_dir: Seq<u8>,
        registrations: Seq<RegistrationView>,
        link_seen: ObservationView,
        target_seen: ObservationView,
        environment: EnvironmentView,
    ) -> Self {
        match existing {
            Some(registration) => self.with_state(
                application::inspected(registration, bin_dir, link_seen, target_seen),
                |state: RegistrationStateView|
                    rename_refused(
                        "command-name-registered"@,
                        state,
                        "Command Name "@ + text::quoted_text(prepared.name)
                            + " is already registered to "@ + text::lossy_text(
                            registration.target,
                        ),
                    ),
            ),
            None => match link_seen.entry {
                Ok(_) => self.done(
                    LifecycleResultView {
                        status: LifecycleStatus::Blocked,
                        identifier: "managed-path-occupied"@,
                        registration: None,
                        conflict: Some(
                            "managed path "@ + text::lossy_text(prepared.managed_link)
                                + " is occupied by an unmanaged entry"@,
                        ),
                    },
                ),
                Err(source) => if source.kind != IoErrorKind::NotFound {
                    self.fail(
                        ApplicationErrorView::InspectManagedPath {
                            path: prepared.managed_link,
                            source,
                        },
                    )
                } else if validating {
                    self.done(
                        LifecycleResultView {
                            status: LifecycleStatus::Healthy,
                            identifier: "add-valid"@,
                            registration: None,
                            conflict: None,
                        },
                    )
                } else {
                    self.change(adding_change(bin_dir, registrations, prepared), environment)
                },
            },
        }
    }

    #[verifier::opaque]
    pub open spec fn examined(
        self,
        bin_dir: Seq<u8>,
        subject: SubjectView,
        registrations: Seq<RegistrationView>,
        seen: Seq<ObservationView>,
        environment: EnvironmentView,
    ) -> Self {
        if seen.len() != subject.paths(registrations).len() {
            self.at(PhaseView::Examining { bin_dir, subject, registrations })
        } else {
            match (self.task, subject) {
                (
                    TaskView::SetEnabled { enabled, .. },
                    SubjectView::Existing { at, link },
                ) => self.enabling_examined(
                    enabled,
                    bin_dir,
                    at,
                    link,
                    registrations,
                    seen[0],
                    seen[1],
                    environment,
                ),
                (
                    TaskView::Remove { .. },
                    SubjectView::Existing { at, link },
                ) => self.removing_examined(
                    bin_dir,
                    at,
                    link,
                    registrations,
                    seen[0],
                    seen[1],
                    environment,
                ),
                (TaskView::Rename { .. }, SubjectView::Unchanged { at, .. }) => self.with_state(
                    application::inspected(registrations[at], bin_dir, seen[0], seen[1]),
                    |state: RegistrationStateView|
                        application::reported("registration-renamed"@, state),
                ),
                (
                    TaskView::Rename { new_name, .. },
                    SubjectView::Renaming { at, old_link, new_link, duplicate },
                ) => self.renaming_examined(
                    new_name,
                    bin_dir,
                    at,
                    old_link,
                    new_link,
                    duplicate,
                    registrations,
                    seen,
                    environment,
                ),
                (
                    TaskView::AddPrepared(_),
                    SubjectView::Adding { prepared, existing },
                ) => self.adding_examined(
                    false,
                    prepared,
                    existing,
                    bin_dir,
                    registrations,
                    seen[0],
                    seen[1],
                    environment,
                ),
                (
                    TaskView::ValidatePrepared(_),
                    SubjectView::Adding { prepared, existing },
                ) => self.adding_examined(
                    true,
                    prepared,
                    existing,
                    bin_dir,
                    registrations,
                    seen[0],
                    seen[1],
                    environment,
                ),
                _ => self.at(PhaseView::Examining { bin_dir, subject, registrations }),
            }
        }
    }

    /// A change begins with the link that it makes.
    #[verifier::opaque]
    pub open spec fn change(self, change: ChangeView, environment: EnvironmentView) -> Self {
        match change.create {
            Some(link) => self.at(PhaseView::CreatingBinDirectory { link, change }),
            None => self.remove_link(change, environment),
        }
    }

    /// Then comes the link that it takes away.
    #[verifier::opaque]
    pub open spec fn remove_link(self, change: ChangeView, environment: EnvironmentView) -> Self {
        match change.remove {
            Some(removal) => self.at(PhaseView::CheckingLink { removal, change }),
            None => self.write(change, environment),
        }
    }

    /// Then the Registry is replaced.
    #[verifier::opaque]
    pub open spec fn write(self, change: ChangeView, environment: EnvironmentView) -> Self {
        match registry::stored(change.registrations, environment) {
            Ok(file) => self.at(PhaseView::Writing { file, change }),
            Err(error) => self.undo(change, ApplicationErrorView::Registry(error), true),
        }
    }

    /// Before the Registry is replaced, a link that was made is taken back.
    #[verifier::opaque]
    pub open spec fn undo(
        self,
        change: ChangeView,
        error: ApplicationErrorView,
        restore: bool,
    ) -> Self {
        match change.undo_create {
            Some(link) => self.at(PhaseView::UndoChecking { link, change, error, restore }),
            None => self.restore(change, error, restore),
        }
    }

    /// Before the Registry is replaced, a link that was taken away is put back.
    #[verifier::opaque]
    pub open spec fn restore(
        self,
        change: ChangeView,
        error: ApplicationErrorView,
        restore: bool,
    ) -> Self {
        match change.undo_remove {
            Some(removal) => if restore {
                self.at(PhaseView::RestoreObserving { removal, error })
            } else {
                self.fail(error)
            },
            None => self.fail(error),
        }
    }

    #[verifier::opaque]
    pub open spec fn link_checked(
        self,
        removal: LinkTextView,
        change: ChangeView,
        outcome: Result<Option<Seq<u8>>, IoErrorView>,
    ) -> Self {
        match outcome {
            Err(source) => self.undo(
                change,
                ApplicationErrorView::RemoveManagedLink { path: removal.link, source },
                false,
            ),
            Ok(text) => if text matches Some(text) && path::components(text) == path::components(
                removal.text,
            ) {
                self.at(PhaseView::RemovingLink { removal, change })
            } else {
                self.undo(change, changed_before_removal(removal.link), false)
            },
        }
    }

    #[verifier::opaque]
    pub open spec fn written(
        self,
        change: ChangeView,
        outcome: Result<(), WriteFailureView>,
        temporary: Seq<u8>,
        environment: EnvironmentView,
    ) -> Self {
        match outcome {
            Ok(_) => self.at(PhaseView::Synchronizing { change }),
            Err(failure) => {
                let error = registry::write_error(
                    failure,
                    temporary,
                    registry::registry_path_of(environment),
                );
                if error.committed() {
                    self.fail(ApplicationErrorView::Registry(error))
                } else {
                    self.undo(change, ApplicationErrorView::Registry(error), true)
                }
            },
        }
    }

    #[verifier::opaque]
    pub open spec fn synchronized(
        self,
        change: ChangeView,
        outcome: Result<(), ConfigGitErrorView>,
    ) -> Self {
        match outcome {
            Err(error) => self.fail(
                ApplicationErrorView::Registry(RegistryErrorView::GitSync(error)),
            ),
            Ok(_) => match change.report {
                ReportView::Removed => self.done(removed_result()),
                ReportView::Changed { registration, .. } => self.report(
                    change.bin_dir,
                    registration,
                    change.report,
                ),
                ReportView::Added(registration) => self.report(
                    change.bin_dir,
                    registration,
                    change.report,
                ),
            },
        }
    }

    #[verifier::opaque]
    pub open spec fn report(
        self,
        bin_dir: Seq<u8>,
        registration: RegistrationView,
        report: ReportView,
    ) -> Self {
        match application::managed_link_of(bin_dir, registration.name) {
            Err(error) => self.fail(error),
            Ok(link) => self.at(PhaseView::Reporting { bin_dir, link, report }),
        }
    }

    #[verifier::opaque]
    pub open spec fn report_observed(
        self,
        bin_dir: Seq<u8>,
        report: ReportView,
        link_seen: ObservationView,
        target_seen: ObservationView,
    ) -> Self {
        match report {
            ReportView::Removed => self.done(removed_result()),
            ReportView::Changed { identifier, registration } => self.with_state(
                application::inspected(registration, bin_dir, link_seen, target_seen),
                |state: RegistrationStateView| application::reported(identifier, state),
            ),
            ReportView::Added(registration) => self.with_state(
                application::inspected(registration, bin_dir, link_seen, target_seen),
                |state: RegistrationStateView|
                    LifecycleResultView {
                        status: LifecycleStatus::Healthy,
                        identifier: "registration-added"@,
                        registration: Some(state),
                        conflict: None,
                    },
            ),
        }
    }

    /// On a failure the first of the names that can be inspected is reported.
    pub open spec fn look_up(
        self,
        failure: FailureView,
        message: Seq<char>,
        bin_dir: Seq<u8>,
        next: int,
        registrations: Seq<RegistrationView>,
    ) -> Self
        decreases failure.names.len() - next,
    {
        if next >= failure.names.len() {
            self.mutation_failed(failure, message, None)
        } else {
            match (
                registry::position_of(registrations, failure.names[next]),
                application::managed_link_of(bin_dir, failure.names[next]),
            ) {
                (Some(at), Ok(link)) => self.at(
                    PhaseView::FailureInspecting {
                        message,
                        bin_dir,
                        link,
                        at,
                        next: next + 1,
                        registrations,
                    },
                ),
                _ => self.look_up(failure, message, bin_dir, next + 1, registrations),
            }
        }
    }

    #[verifier::opaque]
    pub open spec fn failure_configured(
        self,
        failure: FailureView,
        message: Seq<char>,
        read: FileReadView<ConfigFileView>,
        environment: EnvironmentView,
    ) -> Self {
        match configuration::loaded(environment, read) {
            Err(_) => self.mutation_failed(failure, message, None),
            Ok(configuration) => match self.task {
                TaskView::Rename { name, new_name } => self.at(
                    PhaseView::FailureObserving {
                        message,
                        bin_dir: configuration.bin_dir,
                        old: path::joined(configuration.bin_dir, utf8::encode_utf8(name)),
                        new: path::joined(configuration.bin_dir, utf8::encode_utf8(new_name)),
                    },
                ),
                _ => self.at(
                    PhaseView::FailureReading { message, bin_dir: configuration.bin_dir },
                ),
            },
        }
    }

    #[verifier::opaque]
    pub open spec fn failure_read(
        self,
        failure: FailureView,
        message: Seq<char>,
        bin_dir: Seq<u8>,
        read: FileReadView<RegistryFileView>,
        environment: EnvironmentView,
    ) -> Self {
        match registry::loaded(environment, read) {
            Err(_) => self.mutation_failed(failure, message, None),
            Ok(registrations) => self.look_up(failure, message, bin_dir, 0, registrations),
        }
    }

    #[verifier::opaque]
    pub open spec fn failure_inspected(
        self,
        failure: FailureView,
        message: Seq<char>,
        bin_dir: Seq<u8>,
        at: int,
        next: int,
        registrations: Seq<RegistrationView>,
        link_seen: ObservationView,
        target_seen: ObservationView,
    ) -> Self {
        match application::inspected(registrations[at], bin_dir, link_seen, target_seen) {
            Ok(state) => self.mutation_failed(failure, message, Some(state)),
            Err(_) => self.look_up(failure, message, bin_dir, next, registrations),
        }
    }

    #[verifier::opaque]
    pub open spec fn on_configuration(
        self,
        read: FileReadView<ConfigFileView>,
        environment: EnvironmentView,
    ) -> Self {
        let base = self.at(PhaseView::Configuring);
        match self.phase {
            PhaseView::Configuring => match configuration::loaded(environment, read) {
                Err(error) => base.fail(ApplicationErrorView::Configuration(error)),
                Ok(configuration) => base.configured(configuration.bin_dir, environment),
            },
            PhaseView::FailureConfiguring { message } => match self.failure {
                Some(failure) => base.failure_configured(failure, message, read, environment),
                None => self,
            },
            _ => self,
        }
    }

    #[verifier::opaque]
    pub open spec fn on_registry(
        self,
        read: FileReadView<RegistryFileView>,
        environment: EnvironmentView,
    ) -> Self {
        let base = self.at(PhaseView::Configuring);
        match self.phase {
            PhaseView::ReadingRegistry { bin_dir } => match registry::loaded(environment, read) {
                Err(error) => base.fail(ApplicationErrorView::Registry(error)),
                Ok(registrations) => base.registry_read(bin_dir, registrations),
            },
            PhaseView::FailureReading { message, bin_dir } => match self.failure {
                Some(failure) => base.failure_read(failure, message, bin_dir, read, environment),
                None => self,
            },
            _ => self,
        }
    }

    #[verifier::opaque]
    pub open spec fn on_done(
        self,
        outcome: Result<(), IoErrorView>,
        environment: EnvironmentView,
    ) -> Self {
        let base = self.at(PhaseView::Configuring);
        match (self.phase, outcome) {
            (PhaseView::CreatingRegistryDirectory { bin_dir }, Ok(_)) => base.at(
                PhaseView::Locking { bin_dir },
            ),
            (PhaseView::CreatingRegistryDirectory { .. }, Err(source)) => base.fail(
                ApplicationErrorView::Registry(
                    RegistryErrorView::CreateDirectory {
                        path: registry::registry_directory_of(environment),
                        source,
                    },
                ),
            ),
            (PhaseView::Locking { bin_dir }, Ok(_)) => base.at(
                PhaseView::ReadingRegistry { bin_dir },
            ),
            (PhaseView::Locking { .. }, Err(source)) => base.fail(
                ApplicationErrorView::Registry(
                    RegistryErrorView::Lock { path: registry::lock_path_of(environment), source },
                ),
            ),
            (PhaseView::CreatingBinDirectory { link, change }, Ok(_)) => base.at(
                PhaseView::CreatingLink { link, change },
            ),
            (PhaseView::CreatingBinDirectory { change, .. }, Err(source)) => base.fail(
                ApplicationErrorView::CreateManagedDirectory { path: change.bin_dir, source },
            ),
            (PhaseView::CreatingLink { change, .. }, Ok(_)) => base.remove_link(
                change,
                environment,
            ),
            (PhaseView::CreatingLink { link, .. }, Err(source)) => base.fail(
                ApplicationErrorView::CreateManagedLink { path: link, source },
            ),
            (PhaseView::RemovingLink { change, .. }, Ok(_)) => base.write(change, environment),
            (PhaseView::RemovingLink { removal, change }, Err(source)) => base.undo(
                change,
                ApplicationErrorView::RemoveManagedLink { path: removal.link, source },
                false,
            ),
            (PhaseView::UndoRemoving { change, error, restore, .. }, _) => base.restore(
                change,
                error,
                restore,
            ),
            (PhaseView::RestoreCreating { error, .. }, _) => base.fail(error),
            _ => self,
        }
    }

    #[verifier::opaque]
    pub open spec fn on_observed(
        self,
        seen: Seq<ObservationView>,
        environment: EnvironmentView,
    ) -> Self {
        let base = self.at(PhaseView::Configuring);
        match self.phase {
            PhaseView::CheckingTarget { bin_dir, target } => match (self.task, seen.len() == 1) {
                (TaskView::Add(request), true) => base.target_checked(
                    request,
                    false,
                    bin_dir,
                    target,
                    seen[0],
                ),
                (TaskView::ValidateAdd(request), true) => base.target_checked(
                    request,
                    true,
                    bin_dir,
                    target,
                    seen[0],
                ),
                _ => self,
            },
            PhaseView::Examining { bin_dir, subject, registrations } => base.examined(
                bin_dir,
                subject,
                registrations,
                seen,
                environment,
            ),
            PhaseView::Reporting { bin_dir, report, .. } => if seen.len() == 2 {
                base.report_observed(bin_dir, report, seen[0], seen[1])
            } else {
                self
            },
            PhaseView::RestoreObserving { removal, error } => if seen.len() != 1 {
                self
            } else if seen[0].entry is Err {
                base.at(PhaseView::RestoreCreating { removal, error })
            } else {
                base.fail(error)
            },
            PhaseView::FailureObserving { message, bin_dir, old, new } => if seen.len() == 2 {
                base.at(
                    PhaseView::FailureReading {
                        message: message + application::both_paths(
                            "; actual paths after failure: old "@,
                            old,
                            seen[0],
                            new,
                            seen[1],
                        )
                            + "; next safe action: resolve any reported conflict, run `bin list`, then retry"@,
                        bin_dir,
                    },
                )
            } else {
                self
            },
            PhaseView::FailureInspecting {
                message,
                bin_dir,
                at,
                next,
                registrations,
                ..
            } => match (self.failure, seen.len() == 2) {
                (Some(failure), true) => base.failure_inspected(
                    failure,
                    message,
                    bin_dir,
                    at,
                    next,
                    registrations,
                    seen[0],
                    seen[1],
                ),
                _ => self,
            },
            _ => self,
        }
    }

    #[verifier::opaque]
    pub open spec fn on_link_read(self, outcome: Result<Option<Seq<u8>>, IoErrorView>) -> Self {
        let base = self.at(PhaseView::Configuring);
        match self.phase {
            PhaseView::CheckingLink { removal, change } => base.link_checked(
                removal,
                change,
                outcome,
            ),
            PhaseView::UndoChecking { link, change, error, restore } => if outcome matches Ok(
                Some(text),
            ) && path::components(text) == path::components(change.target) {
                base.at(PhaseView::UndoRemoving { link, change, error, restore })
            } else {
                base.restore(change, error, restore)
            },
            _ => self,
        }
    }

    /// The state once the host has reported; a report that was not asked for changes nothing.
    pub open spec fn advance(self, event: EventView, environment: EnvironmentView) -> Self {
        let base = self.at(PhaseView::Configuring);
        match event {
            EventView::Configuration(read) => self.on_configuration(read, environment),
            EventView::Registry(read) => self.on_registry(read, environment),
            EventView::Done(outcome) => self.on_done(outcome, environment),
            EventView::Observed(seen) => self.on_observed(seen, environment),
            EventView::LinkRead(outcome) => self.on_link_read(outcome),
            EventView::Written(outcome, temporary) => match self.phase {
                PhaseView::Writing { change, .. } => base.written(
                    change,
                    outcome,
                    temporary,
                    environment,
                ),
                _ => self,
            },
            EventView::Synchronized(outcome) => match self.phase {
                PhaseView::Synchronizing { change } => base.synchronized(change, outcome),
                _ => self,
            },
        }
    }

    /// What the host is to do next.
    pub open spec fn request(self, environment: EnvironmentView) -> RequestView {
        match self.phase {
            PhaseView::Configuring => RequestView::ReadConfiguration(
                configuration::config_path_of(environment),
            ),
            PhaseView::CheckingTarget { target, .. } => RequestView::Observe(seq![target]),
            PhaseView::CreatingRegistryDirectory { .. } => RequestView::CreateDirectory(
                registry::registry_directory_of(environment),
            ),
            PhaseView::Locking { .. } => RequestView::Lock(registry::lock_path_of(environment)),
            PhaseView::ReadingRegistry { .. } => RequestView::ReadRegistry(
                registry::registry_path_of(environment),
            ),
            PhaseView::Examining { subject, registrations, .. } => RequestView::Observe(
                subject.paths(registrations),
            ),
            PhaseView::CreatingBinDirectory { change, .. } => RequestView::CreateDirectory(
                change.bin_dir,
            ),
            PhaseView::CreatingLink { link, change } => RequestView::CreateLink {
                target: change.target,
                link,
                guarded: true,
            },
            PhaseView::CheckingLink { removal, .. } => RequestView::ReadLink {
                link: removal.link,
                guarded: true,
            },
            PhaseView::RemovingLink { removal, .. } => RequestView::RemoveLink(removal.link),
            PhaseView::Writing { file, .. } => RequestView::Write(file),
            PhaseView::Synchronizing { .. } => RequestView::Synchronize(
                registry::registry_path_of(environment),
            ),
            PhaseView::Reporting { link, report, .. } => RequestView::Observe(
                match report {
                    ReportView::Removed => seq![link],
                    ReportView::Changed { registration, .. } => seq![link, registration.target],
                    ReportView::Added(registration) => seq![link, registration.target],
                },
            ),
            PhaseView::UndoChecking { link, .. } => RequestView::ReadLink { link, guarded: false },
            PhaseView::UndoRemoving { link, .. } => RequestView::RemoveLink(link),
            PhaseView::RestoreObserving { removal, .. } => RequestView::Observe(
                seq![removal.link],
            ),
            PhaseView::RestoreCreating { removal, .. } => RequestView::CreateLink {
                target: removal.text,
                link: removal.link,
                guarded: false,
            },
            PhaseView::FailureConfiguring { .. } => RequestView::ReadConfiguration(
                configuration::config_path_of(environment),
            ),
            PhaseView::FailureObserving { old, new, .. } => RequestView::Observe(seq![old, new]),
            PhaseView::FailureReading { .. } => RequestView::ReadRegistry(
                registry::registry_path_of(environment),
            ),
            PhaseView::FailureInspecting { link, at, registrations, .. } => RequestView::Observe(
                seq![link, registrations[at].target],
            ),
            PhaseView::Finished(_) => RequestView::Finish,
        }
    }
}

fn removed() -> (r: LifecycleResult)
    ensures
        r@ == removed_result(),
{
    LifecycleResult {
        status: LifecycleStatus::Healthy,
        identifier: "registration-removed".to_owned(),
        registration: None,
        conflict: None,
    }
}

pub(crate) fn file_name_text(target: &PathBuf) -> (r: Option<String>)
    ensures
        views::view_of(r) == textual_file_name(target@),
{
    match target.file_name() {
        Some(name) => text::decoded(name),
        None => None,
    }
}

fn prepare_add(request: &AddRequest, bin_dir: &PathBuf, target: PathBuf, seen: &Observation) -> (r:
    Result<Prepared, ApplicationError>)
    ensures
        match prepared_for(request@, bin_dir@, target@, seen@) {
            Ok(prepared) => r is Ok && r->Ok_0@ == prepared,
            Err(error) => r is Err && r->Err_0@ == error,
        },
{
    if let Err(error) = application::validate_target(&target, seen, false) {
        return Err(error);
    }
    let name = match &request.name {
        Some(name) => name.clone(),
        None => match file_name_text(&target) {
            Some(name) => name,
            None => {
                return Err(
                    ApplicationError::InvalidInput(
                        "Target must have a UTF-8 filename for its default Command Name".to_owned(),
                    ),
                );
            },
        },
    };
    if let Err(message) = registry::validate_name(&name) {
        return Err(ApplicationError::InvalidInput(message));
    }
    match application::managed_link(bin_dir, &name) {
        Err(error) => Err(error),
        Ok(managed_link) => Ok(
            Prepared { name, target, disabled: request.disabled, managed_link },
        ),
    }
}

fn is_removable_broken_link(registration: &Registration, enabled: bool, seen: &Observation) -> (r:
    bool)
    ensures
        r == removable_broken_link(registration@, enabled, seen@),
{
    if enabled || !registration.enabled || seen.link.is_none() {
        return false;
    }
    match (&seen.entry, &seen.followed) {
        (Ok(EntryKind::SymbolicLink), Err(source)) => source.is_not_found()
            && !application::is_owned_link(seen, &registration.target),
        _ => false,
    }
}

fn identifier_for(enabled: bool) -> (r: &'static str)
    ensures
        r@ == enabled_identifier(enabled),
{
    if enabled {
        "registration-enabled"
    } else {
        "registration-disabled"
    }
}

fn link_text(link: &PathBuf, text: &PathBuf) -> (r: LinkText)
    ensures
        r@ == (LinkTextView { link: link@, text: text@ }),
{
    LinkText { link: link.clone(), text: text.clone() }
}

fn change_enabled(
    bin_dir: PathBuf,
    registrations: Vec<Registration>,
    at: usize,
    enabled: bool,
    link: PathBuf,
    seen: &Observation,
) -> (r: Change)
    requires
        at < registrations@.len(),
    ensures
        r@ == enabling_change(
            bin_dir@,
            views::views(registrations@),
            at as int,
            enabled,
            link@,
            seen@,
        ),
{
    let ghost all = views::views(registrations@);
    let existing = registrations[at].clone();
    let target = existing.target.clone();
    let owned = application::is_owned_link(seen, &target);
    let broken = is_removable_broken_link(&existing, enabled, seen);
    let text = if broken {
        match &seen.link {
            Some(text) => text.clone(),
            None => target.clone(),
        }
    } else {
        target.clone()
    };
    let updated = Registration { name: existing.name, target: existing.target, enabled };
    let mut registrations = registrations;
    registrations.set(at, updated.clone());
    assert(views::views(registrations@) =~= all.update(at as int, updated@));
    Change {
        bin_dir,
        create: if enabled && !owned {
            Some(link.clone())
        } else {
            None
        },
        remove: if !enabled && (broken || owned) {
            Some(link_text(&link, &text))
        } else {
            None
        },
        undo_create: if enabled {
            Some(link.clone())
        } else {
            None
        },
        undo_remove: if enabled {
            None
        } else {
            Some(link_text(&link, &text))
        },
        target,
        registrations,
        report: Report::Changed { identifier: identifier_for(enabled), registration: updated },
    }
}

fn change_removed(
    bin_dir: PathBuf,
    registrations: Vec<Registration>,
    at: usize,
    link: PathBuf,
    seen: &Observation,
) -> (r: Change)
    requires
        at < registrations@.len(),
    ensures
        r@ == removing_change(
            bin_dir@,
            views::views(registrations@),
            at as int,
            link@,
            seen@,
        ),
{
    let ghost all = views::views(registrations@);
    let name = registrations[at].name.clone();
    let target = registrations[at].target.clone();
    let owned = application::is_owned_link(seen, &target);
    let mut kept: Vec<Registration> = Vec::new();
    let mut i: usize = 0;
    assert(views::views(kept@) =~= without_name(all.take(0), name@));
    while i < registrations.len()
        invariant
            i <= registrations@.len(),
            all == views::views(registrations@),
            views::views(kept@) == without_name(all.take(i as int), name@),
        decreases registrations.len() - i,
    {
        let ghost before = kept@;
        assert(all.take(i + 1).drop_last() =~= all.take(i as int));
        assert(all.take(i + 1).last() == registrations@[i as int]@);
        if !text::same(&registrations[i].name, &name) {
            kept.push(registrations[i].clone());
            assert(views::views(kept@) =~= views::views(before).push(all[i as int]));
        }
        i = i + 1;
    }
    assert(all.take(i as int) =~= all);
    Change {
        bin_dir,
        create: None,
        remove: if owned {
            Some(link_text(&link, &target))
        } else {
            None
        },
        undo_create: None,
        undo_remove: if owned {
            Some(link_text(&link, &target))
        } else {
            None
        },
        target,
        registrations: kept,
        report: Report::Removed,
    }
}

fn change_renamed(
    bin_dir: PathBuf,
    registrations: Vec<Registration>,
    at: usize,
    new_name: String,
    old_link: PathBuf,
    new_link: PathBuf,
    old_seen: &Observation,
) -> (r: Change)
    requires
        at < registrations@.len(),
    ensures
        r@ == renaming_change(
            bin_dir@,
            views::views(registrations@),
            at as int,
            new_name@,
            old_link@,
            new_link@,
            old_seen@,
        ),
{
    let ghost all = views::views(registrations@);
    let target = registrations[at].target.clone();
    let enabled = registrations[at].enabled;
    let owned = application::is_owned_link(old_seen, &target);
    let updated = Registration { name: new_name, target: target.clone(), enabled };
    let mut registrations = registrations;
    registrations.set(at, updated.clone());
    assert(views::views(registrations@) =~= all.update(at as int, updated@));
    proof {
        views::views_of_sorted(registrations@, model::name_order());
    }
    let sorted = order::stable_sort(registrations);
    Change {
        bin_dir,
        create: if enabled {
            Some(new_link.clone())
        } else {
            None
        },
        remove: if owned {
            Some(link_text(&old_link, &target))
        } else {
            None
        },
        undo_create: if enabled {
            Some(new_link.clone())
        } else {
            None
        },
        undo_remove: if owned {
            Some(link_text(&old_link, &target))
        } else {
            None
        },
        target,
        registrations: sorted,
        report: Report::Changed { identifier: "registration-renamed", registration: updated },
    }
}

fn change_added(bin_dir: PathBuf, registrations: Vec<Registration>, prepared: Prepared) -> (r:
    Change)
    ensures
        r@ == adding_change(bin_dir@, views::views(registrations@), prepared@),
{
    let ghost all = views::views(registrations@);
    let enabled = !prepared.disabled;
    let registration = Registration {
        name: prepared.name,
        target: prepared.target.clone(),
        enabled,
    };
    let mut registrations = registrations;
    registrations.push(registration.clone());
    assert(views::views(registrations@) =~= all.push(registration@));
    proof {
        views::views_of_sorted(registrations@, model::name_order());
    }
    let sorted = order::stable_sort(registrations);
    Change {
        bin_dir,
        target: prepared.target,
        create: if enabled {
            Some(prepared.managed_link.clone())
        } else {
            None
        },
        remove: None,
        undo_create: if enabled {
            Some(prepared.managed_link.clone())
        } else {
            None
        },
        undo_remove: None,
        registrations: sorted,
        report: Report::Added(registration),
    }
}

/// A phase points only at Registrations that it holds.
pub closed spec fn phase_wf(phase: Phase) -> bool {
    match phase {
        Phase::Examining { subject, registrations, .. } => match subject {
            Subject::Existing { at, .. } => at < registrations@.len(),
            Subject::Unchanged { at, .. } => at < registrations@.len(),
            Subject::Renaming { at, .. } => at < registrations@.len(),
            Subject::Adding { .. } => true,
        },
        Phase::FailureInspecting { at, registrations, .. } => at < registrations@.len(),
        _ => true,
    }
}

fn paths2(a: &PathBuf, b: &PathBuf) -> (r: Vec<PathBuf>)
    ensures
        views::views(r@) == seq![a@, b@],
{
    let mut r: Vec<PathBuf> = Vec::new();
    r.push(a.clone());
    r.push(b.clone());
    assert(views::views(r@) =~= seq![a@, b@]);
    r
}

fn paths1(a: &PathBuf) -> (r: Vec<PathBuf>)
    ensures
        views::views(r@) == seq![a@],
{
    let mut r: Vec<PathBuf> = Vec::new();
    r.push(a.clone());
    assert(views::views(r@) =~= seq![a@]);
    r
}

impl Subject {
    fn paths(&self, registrations: &Vec<Registration>) -> (r: Vec<PathBuf>)
        requires
            match *self {
                Subject::Existing { at, .. } => at < registrations@.len(),
                Subject::Unchanged { at, .. } => at < registrations@.len(),
                Subject::Renaming { at, .. } => at < registrations@.len(),
                Subject::Adding { .. } => true,
            },
        ensures
            views::views(r@) == self@.paths(views::views(registrations@)),
    {
        match self {
            Subject::Existing { at, link } => paths2(link, &registrations[*at].target),
            Subject::Unchanged { at, link } => paths2(link, &registrations[*at].target),
            Subject::Renaming { at, old_link, new_link, .. } => {
                let mut r = paths2(old_link, &registrations[*at].target);
                let ghost first = views::views(r@);
                r.push(new_link.clone());
                assert(views::views(r@) =~= first.push(new_link@));
                assert(first.push(new_link@) =~= self@.paths(views::views(registrations@)));
                r
            },
            Subject::Adding { prepared, existing } => match existing {
                Some(registration) => paths2(&prepared.managed_link, &registration.target),
                None => paths2(&prepared.managed_link, &prepared.target),
            },
        }
    }

    fn observations(&self) -> (r: usize)
        ensures
            forall|registrations: Seq<RegistrationView>| r == self@.paths(registrations).len(),
    {
        match self {
            Subject::Existing { .. } => 2,
            Subject::Unchanged { .. } => 2,
            Subject::Renaming { .. } => 3,
            Subject::Adding { .. } => 2,
        }
    }
}

impl Lifecycle {
    /// The operation points only at Registrations that it holds.
    pub closed spec fn wf(self) -> bool {
        phase_wf(self.phase)
    }

    fn at(self, phase: Phase) -> (r: Self)
        requires
            phase_wf(phase),
        ensures
            r@ == self@.at(phase@),
            r.wf(),
    {
        Lifecycle { task: self.task, failure: self.failure, phase }
    }

    fn done(self, result: LifecycleResult) -> (r: Self)
        ensures
            r@ == self@.done(result@),
            r.wf(),
    {
        self.at(Phase::Finished(Ok(result)))
    }

    fn fail(self, error: ApplicationError) -> (r: Self)
        ensures
            r@ == self@.fail(error@),
            r.wf(),
    {
        reveal(LifecycleView::fail);
        let message = error.message();
        let (identifier, named) = match &self.failure {
            None => {
                return self.at(Phase::Finished(Err(error)));
            },
            Some(failure) => (failure.identifier, failure.names.len() > 0),
        };
        if named {
            self.at(Phase::FailureConfiguring { message })
        } else {
            self.mutation_failed(identifier, message, None)
        }
    }

    fn mutation_failed(
        self,
        identifier: &'static str,
        message: String,
        resulting_registration: Option<RegistrationState>,
    ) -> (r: Self)
        ensures
            forall|failure: FailureView|
                failure.identifier == identifier@ ==> r@ == #[trigger] self@.mutation_failed(
                    failure,
                    message@,
                    views::view_of(resulting_registration),
                ),
            r.wf(),
    {
        reveal(LifecycleView::mutation_failed);
        self.at(
            Phase::Finished(
                Err(ApplicationError::Mutation { identifier, message, resulting_registration }),
            ),
        )
    }

    fn configured(self, bin_dir: PathBuf, environment: &Environment) -> (r: Self)
        ensures
            r@ == self@.configured(bin_dir@, environment@),
            r.wf(),
    {
        reveal(LifecycleView::configured);
        let target = match &self.task {
            Task::Add(request) => Some(application::absolute_target(&request.target, environment)),
            Task::ValidateAdd(request) => Some(
                application::absolute_target(&request.target, environment),
            ),
            _ => None,
        };
        match target {
            Some(target) => self.at(Phase::CheckingTarget { bin_dir, target }),
            None => self.at(Phase::CreatingRegistryDirectory { bin_dir }),
        }
    }

    fn target_checked(
        self,
        request: AddRequest,
        validating: bool,
        bin_dir: PathBuf,
        target: PathBuf,
        seen: &Observation,
    ) -> (r: Self)
        ensures
            r@ == self@.target_checked(request@, validating, bin_dir@, target@, seen@),
            r.wf(),
    {
        reveal(LifecycleView::target_checked);
        match prepare_add(&request, &bin_dir, target, seen) {
            Err(error) => self.fail(error),
            Ok(prepared) => if validating {
                Lifecycle {
                    task: Task::ValidatePrepared(prepared),
                    failure: self.failure,
                    phase: Phase::ReadingRegistry { bin_dir },
                }
            } else {
                Lifecycle {
                    task: Task::AddPrepared(prepared),
                    failure: self.failure,
                    phase: Phase::CreatingRegistryDirectory { bin_dir },
                }
            },
        }
    }

    fn existing(self, name: String, bin_dir: PathBuf, registrations: Vec<Registration>) -> (r: Self)
        ensures
            r@ == self@.existing(name@, bin_dir@, views::views(registrations@)),
            r.wf(),
    {
        reveal(LifecycleView::existing);
        match registry::find_name(&registrations, &name) {
            None => self.fail(ApplicationError::UnknownName(name)),
            Some(at) => match application::managed_link(&bin_dir, &name) {
                Err(error) => self.fail(error),
                Ok(link) => self.at(
                    Phase::Examining {
                        bin_dir,
                        subject: Subject::Existing { at, link },
                        registrations,
                    },
                ),
            },
        }
    }

    fn renaming(
        self,
        name: String,
        new_name: String,
        bin_dir: PathBuf,
        registrations: Vec<Registration>,
    ) -> (r: Self)
        ensures
            r@ == self@.renaming(name@, new_name@, bin_dir@, views::views(registrations@)),
            r.wf(),
    {
        reveal(LifecycleView::renaming);
        let at = match registry::find_name(&registrations, &name) {
            None => {
                return self.fail(ApplicationError::UnknownName(name));
            },
            Some(at) => at,
        };
        let old_link = match application::managed_link(&bin_dir, &name) {
            Err(error) => {
                return self.fail(error);
            },
            Ok(link) => link,
        };
        if text::same(&name, &new_name) {
            return self.at(
                Phase::Examining {
                    bin_dir,
                    subject: Subject::Unchanged { at, link: old_link },
                    registrations,
                },
            );
        }
        match application::managed_link(&bin_dir, &new_name) {
            Err(error) => self.fail(error),
            Ok(new_link) => {
                let duplicate = match registry::find_name(&registrations, &new_name) {
                    Some(other) => Some(registrations[other].target.clone()),
                    None => None,
                };
                self.at(
                    Phase::Examining {
                        bin_dir,
                        subject: Subject::Renaming { at, old_link, new_link, duplicate },
                        registrations,
                    },
                )
            },
        }
    }

    fn adding(
        self,
        prepared: Prepared,
        bin_dir: PathBuf,
        registrations: Vec<Registration>,
    ) -> (r: Self)
        ensures
            r@ == self@.adding(prepared@, bin_dir@, views::views(registrations@)),
            r.wf(),
    {
        reveal(LifecycleView::adding);
        let existing = match registry::find_name(&registrations, &prepared.name) {
            Some(at) => Some(registrations[at].clone()),
            None => None,
        };
        self.at(
            Phase::Examining {
                bin_dir,
                subject: Subject::Adding { prepared, existing },
                registrations,
            },
        )
    }

    fn registry_read(self, bin_dir: PathBuf, registrations: Vec<Registration>) -> (r: Self)
        ensures
            r@ == self@.registry_read(bin_dir@, views::views(registrations@)),
            r.wf(),
    {
        reveal(LifecycleView::registry_read);
        match &self.task {
            Task::SetEnabled { name, .. } => {
                let name = name.clone();
                self.existing(name, bin_dir, registrations)
            },
            Task::Remove { name } => {
                let name = name.clone();
                self.existing(name, bin_dir, registrations)
            },
            Task::Rename { name, new_name } => {
                let name = name.clone();
                let new_name = new_name.clone();
                self.renaming(name, new_name, bin_dir, registrations)
            },
            Task::AddPrepared(prepared) => {
                let prepared = prepared.clone();
                self.adding(prepared, bin_dir, registrations)
            },
            Task::ValidatePrepared(prepared) => {
                let prepared = prepared.clone();
                self.adding(prepared, bin_dir, registrations)
            },
            _ => self.at(Phase::ReadingRegistry { bin_dir }),
        }
    }

    fn enabling_examined(
        self,
        enabled: bool,
        bin_dir: PathBuf,
        at: usize,
        link: PathBuf,
        registrations: Vec<Registration>,
        link_seen: &Observation,
        target_seen: &Observation,
        environment: &Environment,
    ) -> (r: Self)
        requires
            at < registrations@.len(),
        ensures
            r@ == self@.enabling_examined(
                enabled,
                bin_dir@,
                at as int,
                link@,
                views::views(registrations@),
                link_seen@,
                target_seen@,
                environment@,
            ),
            r.wf(),
    {
        reveal(LifecycleView::enabling_examined);
        let registration = &registrations[at];
        let owned = application::is_owned_link(link_seen, &registration.target);
        let exists = link_seen.entry.is_ok();
        if exists && !owned && !is_removable_broken_link(registration, enabled, link_seen) {
            return match application::inspect_registration(
                registration,
                &bin_dir,
                link_seen,
                target_seen,
            ) {
                Ok(state) => self.done(application::blocked("managed-path-conflict", state)),
                Err(error) => self.fail(error),
            };
        }
        let settled = if enabled {
            owned
        } else {
            !exists
        };
        if registration.enabled == enabled && settled {
            return match application::inspect_registration(
                registration,
                &bin_dir,
                link_seen,
                target_seen,
            ) {
                Ok(state) => self.done(
                    application::lifecycle_result(identifier_for(enabled), state),
                ),
                Err(error) => self.fail(error),
            };
        }
        if enabled {
            if let Err(error) = application::validate_target(
                &registration.target,
                target_seen,
                true,
            ) {
                return self.fail(error);
            }
        }
        let change = change_enabled(bin_dir, registrations, at, enabled, link, link_seen);
        self.change(change, environment)
    }

    fn removing_examined(
        self,
        bin_dir: PathBuf,
        at: usize,
        link: PathBuf,
        registrations: Vec<Registration>,
        link_seen: &Observation,
        target_seen: &Observation,
        environment: &Environment,
    ) -> (r: Self)
        requires
            at < registrations@.len(),
        ensures
            r@ == self@.removing_examined(
                bin_dir@,
                at as int,
                link@,
                views::views(registrations@),
                link_seen@,
                target_seen@,
                environment@,
            ),
            r.wf(),
    {
        reveal(LifecycleView::removing_examined);
        let registration = &registrations[at];
        if link_seen.entry.is_ok() && !application::is_owned_link(
            link_seen,
            &registration.target,
        ) {
            return match application::inspect_registration(
                registration,
                &bin_dir,
                link_seen,
                target_seen,
            ) {
                Ok(state) => self.done(application::blocked("managed-path-conflict", state)),
                Err(error) => self.fail(error),
            };
        }
        let change = change_removed(bin_dir, registrations, at, link, link_seen);
        self.change(change, environment)
    }

    fn renaming_examined(
        self,
        new_name: String,
        bin_dir: PathBuf,
        at: usize,
        old_link: PathBuf,
        new_link: PathBuf,
        duplicate: Option<PathBuf>,
        registrations: Vec<Registration>,
        seen: &Vec<Observation>,
        environment: &Environment,
    ) -> (r: Self)
        requires
            at < registrations@.len(),
            seen@.len() == 3,
        ensures
            r@ == self@.renaming_examined(
                new_name@,
                bin_dir@,
                at as int,
                old_link@,
                new_link@,
                views::view_of(duplicate),
                views::views(registrations@),
                views::views(seen@),
                environment@,
            ),
            r.wf(),
    {
        reveal(LifecycleView::renaming_examined);
        let registration = &registrations[at];
        let state = application::inspect_registration(registration, &bin_dir, &seen[0], &seen[1]);
        let paths = application::rename_paths_summary(
            "actual paths: old ",
            &old_link,
            &seen[0],
            &new_link,
            &seen[2],
        );
        if let Some(target) = duplicate {
            let mut m = text::joined3(
                "Command Name ",
                &text::quoted(&new_name),
                " is already registered to ",
            );
            m.append(&target.display());
            m.append("; choose another Command Name; ");
            m.append(&paths);
            return self.refuse_rename("command-name-registered", state, m);
        }
        if registration.enabled && seen[0].entry.is_ok() && !application::is_owned_link(
            &seen[0],
            &registration.target,
        ) {
            let m = text::joined(
                "old Managed Link ownership changed and it was left untouched; resolve it manually, then retry; ",
                &paths,
            );
            return self.refuse_rename("rename-source-conflict", state, m);
        }
        match &seen[2].entry {
            Ok(_) => {
                let mut m = text::joined3(
                    "new managed path ",
                    &new_link.display(),
                    " is occupied; remove or rename that unmanaged entry, then retry; ",
                );
                m.append(&paths);
                self.refuse_rename("rename-destination-conflict", state, m)
            },
            Err(source) => if source.is_not_found() {
                let change = change_renamed(
                    bin_dir,
                    registrations,
                    at,
                    new_name,
                    old_link,
                    new_link,
                    &seen[0],
                );
                self.change(change, environment)
            } else {
                self.fail(
                    ApplicationError::InspectManagedPath { path: new_link, source: source.clone() },
                )
            },
        }
    }

    fn refuse_rename(
        self,
        identifier: &'static str,
        state: Result<RegistrationState, ApplicationError>,
        conflict: String,
    ) -> (r: Self)
        ensures
            match state {
                Ok(state) => r@ == self@.done(
                    rename_refused(identifier@, state@, conflict@),
                ),
                Err(error) => r@ == self@.fail(error@),
            },
            r.wf(),
    {
        match state {
            Ok(state) => self.done(
                LifecycleResult {
                    status: LifecycleStatus::Blocked,
                    identifier: identifier.to_owned(),
                    registration: Some(state),
                    conflict: Some(conflict),
                },
            ),
            Err(error) => self.fail(error),
        }
    }

    fn adding_examined(
        self,
        validating: bool,
        prepared: Prepared,
        existing: Option<Registration>,
        bin_dir: PathBuf,
        registrations: Vec<Registration>,
        link_seen: &Observation,
        target_seen: &Observation,
        environment: &Environment,
    ) -> (r: Self)
        ensures
            r@ == self@.adding_examined(
                validating,
                prepared@,
                views::view_of(existing),
                bin_dir@,
                views::views(registrations@),
                link_seen@,
                target_seen@,
                environment@,
            ),
            r.wf(),
    {
        reveal(LifecycleView::adding_examined);
        if let Some(registration) = existing {
            let state = application::inspect_registration(
                &registration,
                &bin_dir,
                link_seen,
                target_seen,
            );
            let mut m = text::joined3(
                "Command Name ",
                &text::quoted(&prepared.name),
                " is already registered to ",
            );
            m.append(&registration.target.display());
            return self.refuse_rename("command-name-registered", state, m);
        }
        match &link_seen.entry {
            Ok(_) => self.done(
                LifecycleResult {
                    status: LifecycleStatus::Blocked,
                    identifier: "managed-path-occupied".to_owned(),
                    registration: None,
                    conflict: Some(
                        text::joined3(
                            "managed path ",
                            &prepared.managed_link.display(),
                            " is occupied by an unmanaged entry",
                        ),
                    ),
                },
            ),
            Err(source) => if !source.is_not_found() {
                self.fail(
                    ApplicationError::InspectManagedPath {
                        path: prepared.managed_link,
                        source: source.clone(),
                    },
                )
            } else if validating {
                self.done(
                    LifecycleResult {
                        status: LifecycleStatus::Healthy,
                        identifier: "add-valid".to_owned(),
                        registration: None,
                        conflict: None,
                    },
                )
            } else {
                let change = change_added(bin_dir, registrations, prepared);
                self.change(change, environment)
            },
        }
    }

    fn examined(
        self,
        bin_dir: PathBuf,
        subject: Subject,
        registrations: Vec<Registration>,
        seen: Vec<Observation>,
        environment: &Environment,
    ) -> (r: Self)
        requires
            phase_wf((Phase::Examining { bin_dir, subject, registrations })),
        ensures
            r@ == self@.examined(
                bin_dir@,
                subject@,
                views::views(registrations@),
                views::views(seen@),
                environment@,
            ),
            r.wf(),
    {
        reveal(LifecycleView::examined);
        let wanted = subject.observations();
        if seen.len() != wanted {
            return self.at(Phase::Examining { bin_dir, subject, registrations });
        }
        match subject {
            Subject::Existing { at, link } => match &self.task {
                Task::SetEnabled { enabled, .. } => {
                    let enabled = *enabled;
                    self.enabling_examined(
                        enabled,
                        bin_dir,
                        at,
                        link,
                        registrations,
                        &seen[0],
                        &seen[1],
                        environment,
                    )
                },
                Task::Remove { .. } => self.removing_examined(
                    bin_dir,
                    at,
                    link,
                    registrations,
                    &seen[0],
                    &seen[1],
                    environment,
                ),
                _ => self.at(
                    Phase::Examining {
                        bin_dir,
                        subject: Subject::Existing { at, link },
                        registrations,
                    },
                ),
            },
            Subject::Unchanged { at, link } => match &self.task {
                Task::Rename { .. } => match application::inspect_registration(
                    &registrations[at],
                    &bin_dir,
                    &seen[0],
                    &seen[1],
                ) {
                    Ok(state) => self.done(
                        application::lifecycle_result("registration-renamed", state),
                    ),
                    Err(error) => self.fail(error),
                },
                _ => self.at(
                    Phase::Examining {
                        bin_dir,
                        subject: Subject::Unchanged { at, link },
                        registrations,
                    },
                ),
            },
            Subject::Renaming { at, old_link, new_link, duplicate } => match &self.task {
                Task::Rename { new_name, .. } => {
                    let new_name = new_name.clone();
                    self.renaming_examined(
                        new_name,
                        bin_dir,
                        at,
                        old_link,
                        new_link,
                        duplicate,
                        registrations,
                        &seen,
                        environment,
                    )
                },
                _ => self.at(
                    Phase::Examining {
                        bin_dir,
                        subject: Subject::Renaming { at, old_link, new_link, duplicate },
                        registrations,
                    },
                ),
            },
            Subject::Adding { prepared, existing } => match &self.task {
                Task::AddPrepared(_) => self.adding_examined(
                    false,
                    prepared,
                    existing,
                    bin_dir,
                    registrations,
                    &seen[0],
                    &seen[1],
                    environment,
                ),
                Task::ValidatePrepared(_) => self.adding_examined(
                    true,
                    prepared,
                    existing,
                    bin_dir,
                    registrations,
                    &seen[0],
                    &seen[1],
                    environment,
                ),
                _ => self.at(
                    Phase::Examining {
                        bin_dir,
                        subject: Subject::Adding { prepared, existing },
                        registrations,
                    },
                ),
            },
        }
    }

    fn change(self, change: Change, environment: &Environment) -> (r: Self)
        ensures
            r@ == self@.change(change@, environment@),
            r.wf(),
    {
        reveal(LifecycleView::change);
        let creation = match &change.create {
            Some(link) => Some(link.clone()),
            None => None,
        };
        match creation {
            Some(link) => self.at(Phase::CreatingBinDirectory { link, change }),
            None => self.remove_link(change, environment),
        }
    }

    fn remove_link(self, change: Change, environment: &Environment) -> (r: Self)
        ensures
            r@ == self@.remove_link(change@, environment@),
            r.wf(),
    {
        reveal(LifecycleView::remove_link);
        let removal = match &change.remove {
            Some(removal) => Some(link_text(&removal.link, &removal.text)),
            None => None,
        };
        match removal {
            Some(removal) => self.at(Phase::CheckingLink { removal, change }),
            None => self.write(change, environment),
        }
    }

    fn write(self, change: Change, environment: &Environment) -> (r: Self)
        ensures
            r@ == self@.write(change@, environment@),
            r.wf(),
    {
        reveal(LifecycleView::write);
        match registry::store(&change.registrations, environment) {
            Ok(file) => self.at(Phase::Writing { file, change }),
            Err(error) => self.undo(change, ApplicationError::Registry(error), true),
        }
    }

    fn undo(self, change: Change, error: ApplicationError, restore: bool) -> (r: Self)
        ensures
            r@ == self@.undo(change@, error@, restore),
            r.wf(),
    {
        reveal(LifecycleView::undo);
        let creation = match &change.undo_create {
            Some(link) => Some(link.clone()),
            None => None,
        };
        match creation {
            Some(link) => self.at(Phase::UndoChecking { link, change, error, restore }),
            None => self.restore(change, error, restore),
        }
    }

    fn restore(self, change: Change, error: ApplicationError, restore: bool) -> (r: Self)
        ensures
            r@ == self@.restore(change@, error@, restore),
            r.wf(),
    {
        reveal(LifecycleView::restore);
        match change.undo_remove {
            Some(removal) => if restore {
                self.at(Phase::RestoreObserving { removal, error })
            } else {
                self.fail(error)
            },
            None => self.fail(error),
        }
    }

    fn link_checked(
        self,
        removal: LinkText,
        change: Change,
        outcome: Result<Option<PathBuf>, IoError>,
    ) -> (r: Self)
        ensures
            r@ == self@.link_checked(
                removal@,
                change@,
                match outcome {
                    Ok(text) => Ok(views::view_of(text)),
                    Err(source) => Err(source@),
                },
            ),
            r.wf(),
    {
        reveal(LifecycleView::link_checked);
        match outcome {
            Err(source) => self.undo(
                change,
                ApplicationError::RemoveManagedLink { path: removal.link, source },
                false,
            ),
            Ok(found) => {
                let unchanged = match &found {
                    Some(text) => text.same(&removal.text),
                    None => false,
                };
                if unchanged {
                    self.at(Phase::RemovingLink { removal, change })
                } else {
                    let error = ApplicationError::InvalidInput(
                        text::joined3(
                            "Managed Link ",
                            &removal.link.display(),
                            " changed before removal; it was left untouched; inspect the path and retry",
                        ),
                    );
                    self.undo(change, error, false)
                }
            },
        }
    }

    fn written(
        self,
        change: Change,
        outcome: Result<(), WriteFailure>,
        temporary: PathBuf,
        environment: &Environment,
    ) -> (r: Self)
        ensures
            r@ == self@.written(
                change@,
                discovery_ignore::unit_view(outcome),
                temporary@,
                environment@,
            ),
            r.wf(),
    {
        reveal(LifecycleView::written);
        match outcome {
            Ok(_) => self.at(Phase::Synchronizing { change }),
            Err(failure) => {
                let error = registry::write_failed(
                    failure,
                    temporary,
                    registry::registry_path(environment),
                );
                if error.replacement_committed() {
                    self.fail(ApplicationError::Registry(error))
                } else {
                    self.undo(change, ApplicationError::Registry(error), true)
                }
            },
        }
    }

    fn synchronized(self, change: Change, outcome: Result<(), ConfigGitError>) -> (r: Self)
        ensures
            r@ == self@.synchronized(change@, discovery_ignore::unit_view(outcome)),
            r.wf(),
    {
        reveal(LifecycleView::synchronized);
        reveal(LifecycleView::report);
        match outcome {
            Err(error) => self.fail(ApplicationError::Registry(RegistryError::GitSync(error))),
            Ok(_) => {
                let link = match &change.report {
                    Report::Removed => {
                        return self.done(removed());
                    },
                    Report::Changed { registration, .. } => application::managed_link(
                        &change.bin_dir,
                        &registration.name,
                    ),
                    Report::Added(registration) => application::managed_link(
                        &change.bin_dir,
                        &registration.name,
                    ),
                };
                match link {
                    Err(error) => self.fail(error),
                    Ok(link) => self.at(
                        Phase::Reporting { bin_dir: change.bin_dir, link, report: change.report },
                    ),
                }
            },
        }
    }

    fn report_observed(
        self,
        bin_dir: PathBuf,
        report: Report,
        link_seen: &Observation,
        target_seen: &Observation,
    ) -> (r: Self)
        ensures
            r@ == self@.report_observed(bin_dir@, report@, link_seen@, target_seen@),
            r.wf(),
    {
        reveal(LifecycleView::report_observed);
        match report {
            Report::Removed => self.done(removed()),
            Report::Changed {
                identifier,
                registration,
            } => match application::inspect_registration(
                &registration,
                &bin_dir,
                link_seen,
                target_seen,
            ) {
                Ok(state) => self.done(application::lifecycle_result(identifier, state)),
                Err(error) => self.fail(error),
            },
            Report::Added(registration) => match application::inspect_registration(
                &registration,
                &bin_dir,
                link_seen,
                target_seen,
            ) {
                Ok(state) => self.done(
                    LifecycleResult {
                        status: LifecycleStatus::Healthy,
                        identifier: "registration-added".to_owned(),
                        registration: Some(state),
                        conflict: None,
                    },
                ),
                Err(error) => self.fail(error),
            },
        }
    }

    fn look_up(
        self,
        message: String,
        bin_dir: PathBuf,
        next: usize,
        registrations: Vec<Registration>,
    ) -> (r: Self)
        requires
            self.failure is Some,
        ensures
            r@ == self@.look_up(
                self@.failure->0,
                message@,
                bin_dir@,
                next as int,
                views::views(registrations@),
            ),
            r.wf(),
    {
        let ghost all = views::views(registrations@);
        let ghost failure = self@.failure->0;
        let mut found: Option<(usize, PathBuf)> = None;
        let mut i: usize = next;
        let mut identifier: &'static str = "";
        if let Some(report) = &self.failure {
            identifier = report.identifier;
            while i < report.names.len() && found.is_none()
                invariant
                    next <= i,
                    i <= report.names@.len() || i == next,
                    all == views::views(registrations@),
                    failure == report@,
                    failure == self@.failure->0,
                    match found {
                        None => self@.look_up(failure, message@, bin_dir@, next as int, all)
                            == self@.look_up(failure, message@, bin_dir@, i as int, all),
                        Some((at, link)) => {
                            &&& at < registrations@.len()
                            &&& i <= usize::MAX
                            &&& self@.look_up(failure, message@, bin_dir@, next as int, all)
                                == self@.at(
                                PhaseView::FailureInspecting {
                                    message: message@,
                                    bin_dir: bin_dir@,
                                    link: link@,
                                    at: at as int,
                                    next: i as int,
                                    registrations: all,
                                },
                            )
                        },
                    },
                decreases
                        report.names.len() - i + (if found is None {
                            1int
                        } else {
                            0int
                        }),
            {
                assert(failure.names[i as int] == report.names@[i as int]@);
                let position = registry::find_name(&registrations, &report.names[i]);
                let link = application::managed_link(&bin_dir, &report.names[i]);
                if let (Some(at), Ok(link)) = (position, link) {
                    found = Some((at, link));
                }
                i = i + 1;
            }
        }
        match found {
            Some((at, link)) => self.at(
                Phase::FailureInspecting { message, bin_dir, link, at, next: i, registrations },
            ),
            None => self.mutation_failed(identifier, message, None),
        }
    }

    /// What the host is to do next.
    pub fn request(&self, environment: &Environment) -> (r: Request)
        requires
            self.wf(),
        ensures
            r@ == self@.request(environment@),
    {
        match &self.phase {
            Phase::Configuring => Request::ReadConfiguration(
                configuration::config_path(environment),
            ),
            Phase::CheckingTarget { target, .. } => Request::Observe(paths1(target)),
            Phase::CreatingRegistryDirectory { .. } => Request::CreateDirectory(
                registry::registry_directory(environment),
            ),
            Phase::Locking { .. } => Request::Lock(registry::lock_path(environment)),
            Phase::ReadingRegistry { .. } => Request::ReadRegistry(
                registry::registry_path(environment),
            ),
            Phase::Examining { subject, registrations, .. } => Request::Observe(
                subject.paths(registrations),
            ),
            Phase::CreatingBinDirectory { change, .. } => Request::CreateDirectory(
                change.bin_dir.clone(),
            ),
            Phase::CreatingLink { link, change } => Request::CreateLink {
                target: change.target.clone(),
                link: link.clone(),
                guarded: true,
            },
            Phase::CheckingLink { removal, .. } => Request::ReadLink {
                link: removal.link.clone(),
                guarded: true,
            },
            Phase::RemovingLink { removal, .. } => Request::RemoveLink(removal.link.clone()),
            Phase::Writing { file, .. } => Request::Write(file.clone()),
            Phase::Synchronizing { .. } => Request::Synchronize(
                registry::registry_path(environment),
            ),
            Phase::Reporting { link, report, .. } => match report {
                Report::Removed => Request::Observe(paths1(link)),
                Report::Changed { registration, .. } => Request::Observe(
                    paths2(link, &registration.target),
                ),
                Report::Added(registration) => Request::Observe(
                    paths2(link, &registration.target),
                ),
            },
            Phase::UndoChecking { link, .. } => Request::ReadLink {
                link: link.clone(),
                guarded: false,
            },
            Phase::UndoRemoving { link, .. } => Request::RemoveLink(link.clone()),
            Phase::RestoreObserving { removal, .. } => Request::Observe(paths1(&removal.link)),
            Phase::RestoreCreating { removal, .. } => Request::CreateLink {
                target: removal.text.clone(),
                link: removal.link.clone(),
                guarded: false,
            },
            Phase::FailureConfiguring { .. } => Request::ReadConfiguration(
                configuration::config_path(environment),
            ),
            Phase::FailureObserving { old, new, .. } => Request::Observe(paths2(old, new)),
            Phase::FailureReading { .. } => Request::ReadRegistry(
                registry::registry_path(environment),
            ),
            Phase::FailureInspecting { link, at, registrations, .. } => Request::Observe(
                paths2(link, &registrations[*at].target),
            ),
            Phase::Finished(_) => Request::Finish,
        }
    }
}

impl Lifecycle {
    fn failure_configured(
        self,
        message: String,
        read: FileRead<ConfigFile>,
        environment: &Environment,
    ) -> (r: Self)
        requires
            self.failure is Some,
        ensures
            r@ == self@.failure_configured(
                self@.failure->0,
                message@,
                read@,
                environment@,
            ),
            r.wf(),
    {
        reveal(LifecycleView::failure_configured);
        match configuration::load(environment, read) {
            Err(_) => {
                let identifier = match &self.failure {
                    Some(failure) => failure.identifier,
                    None => "",
                };
                self.mutation_failed(identifier, message, None)
            },
            Ok(configuration) => {
                let bin_dir = configuration.bin_dir;
                let paths = match &self.task {
                    Task::Rename { name, new_name } => Some(
                        (bin_dir.join_text(name), bin_dir.join_text(new_name)),
                    ),
                    _ => None,
                };
                match paths {
                    Some((old, new)) => self.at(
                        Phase::FailureObserving { message, bin_dir, old, new },
                    ),
                    None => self.at(Phase::FailureReading { message, bin_dir }),
                }
            },
        }
    }

    fn failure_read(
        self,
        message: String,
        bin_dir: PathBuf,
        read: FileRead<RegistryFile>,
        environment: &Environment,
    ) -> (r: Self)
        requires
            self.failure is Some,
        ensures
            r@ == self@.failure_read(
                self@.failure->0,
                message@,
                bin_dir@,
                read@,
                environment@,
            ),
            r.wf(),
    {
        reveal(LifecycleView::failure_read);
        match registry::load(environment, read) {
            Err(_) => {
                let identifier = match &self.failure {
                    Some(failure) => failure.identifier,
                    None => "",
                };
                self.mutation_failed(identifier, message, None)
            },
            Ok(registrations) => self.look_up(message, bin_dir, 0, registrations),
        }
    }

    fn failure_inspected(
        self,
        message: String,
        bin_dir: PathBuf,
        at: usize,
        next: usize,
        registrations: Vec<Registration>,
        link_seen: &Observation,
        target_seen: &Observation,
    ) -> (r: Self)
        requires
            self.failure is Some,
            at < registrations@.len(),
        ensures
            r@ == self@.failure_inspected(
                self@.failure->0,
                message@,
                bin_dir@,
                at as int,
                next as int,
                views::views(registrations@),
                link_seen@,
                target_seen@,
            ),
            r.wf(),
    {
        reveal(LifecycleView::failure_inspected);
        match application::inspect_registration(
            &registrations[at],
            &bin_dir,
            link_seen,
            target_seen,
        ) {
            Ok(state) => {
                let identifier = match &self.failure {
                    Some(failure) => failure.identifier,
                    None => "",
                };
                self.mutation_failed(identifier, message, Some(state))
            },
            Err(_) => self.look_up(message, bin_dir, next, registrations),
        }
    }

    fn on_configuration(self, read: FileRead<ConfigFile>, environment: &Environment) -> (r: Self)
        requires
            self.wf(),
        ensures
            r@ == self@.on_configuration(read@, environment@),
            r.wf(),
    {
        reveal(LifecycleView::on_configuration);
        let reported = self.failure.is_some();
        let Lifecycle { task, failure, phase } = self;
        let base = Lifecycle { task, failure, phase: Phase::Configuring };
        match phase {
            Phase::Configuring => match configuration::load(environment, read) {
                Err(error) => base.fail(ApplicationError::Configuration(error)),
                Ok(configuration) => base.configured(configuration.bin_dir, environment),
            },
            Phase::FailureConfiguring { message } => if reported {
                base.failure_configured(message, read, environment)
            } else {
                base.at(Phase::FailureConfiguring { message })
            },
            phase => base.at(phase),
        }
    }

    fn on_registry(self, read: FileRead<RegistryFile>, environment: &Environment) -> (r: Self)
        requires
            self.wf(),
        ensures
            r@ == self@.on_registry(read@, environment@),
            r.wf(),
    {
        reveal(LifecycleView::on_registry);
        let reported = self.failure.is_some();
        let Lifecycle { task, failure, phase } = self;
        let base = Lifecycle { task, failure, phase: Phase::Configuring };
        match phase {
            Phase::ReadingRegistry { bin_dir } => match registry::load(environment, read) {
                Err(error) => base.fail(ApplicationError::Registry(error)),
                Ok(registrations) => base.registry_read(bin_dir, registrations),
            },
            Phase::FailureReading { message, bin_dir } => if reported {
                base.failure_read(message, bin_dir, read, environment)
            } else {
                base.at(Phase::FailureReading { message, bin_dir })
            },
            phase => base.at(phase),
        }
    }

    fn on_done(self, outcome: Result<(), IoError>, environment: &Environment) -> (r: Self)
        requires
            self.wf(),
        ensures
            r@ == self@.on_done(discovery_ignore::unit_view(outcome), environment@),
            r.wf(),
    {
        reveal(LifecycleView::on_done);
        let Lifecycle { task, failure, phase } = self;
        let base = Lifecycle { task, failure, phase: Phase::Configuring };
        match (phase, outcome) {
            (Phase::CreatingRegistryDirectory { bin_dir }, Ok(_)) => base.at(
                Phase::Locking { bin_dir },
            ),
            (Phase::CreatingRegistryDirectory { .. }, Err(source)) => base.fail(
                ApplicationError::Registry(
                    RegistryError::CreateDirectory {
                        path: registry::registry_directory(environment),
                        source,
                    },
                ),
            ),
            (Phase::Locking { bin_dir }, Ok(_)) => base.at(Phase::ReadingRegistry { bin_dir }),
            (Phase::Locking { .. }, Err(source)) => base.fail(
                ApplicationError::Registry(
                    RegistryError::Lock { path: registry::lock_path(environment), source },
                ),
            ),
            (Phase::CreatingBinDirectory { link, change }, Ok(_)) => base.at(
                Phase::CreatingLink { link, change },
            ),
            (Phase::CreatingBinDirectory { change, .. }, Err(source)) => base.fail(
                ApplicationError::CreateManagedDirectory { path: change.bin_dir, source },
            ),
            (Phase::CreatingLink { change, .. }, Ok(_)) => base.remove_link(change, environment),
            (Phase::CreatingLink { link, .. }, Err(source)) => base.fail(
                ApplicationError::CreateManagedLink { path: link, source },
            ),
            (Phase::RemovingLink { change, .. }, Ok(_)) => base.write(change, environment),
            (Phase::RemovingLink { removal, change }, Err(source)) => base.undo(
                change,
                ApplicationError::RemoveManagedLink { path: removal.link, source },
                false,
            ),
            (Phase::UndoRemoving { change, error, restore, .. }, _) => base.restore(
                change,
                error,
                restore,
            ),
            (Phase::RestoreCreating { error, .. }, _) => base.fail(error),
            (phase, _) => base.at(phase),
        }
    }

    fn on_observed(self, seen: Vec<Observation>, environment: &Environment) -> (r: Self)
        requires
            self.wf(),
        ensures
            r@ == self@.on_observed(views::views(seen@), environment@),
            r.wf(),
    {
        reveal(LifecycleView::on_observed);
        let reported = self.failure.is_some();
        let Lifecycle { task, failure, phase } = self;
        let base = Lifecycle { task, failure, phase: Phase::Configuring };
        match phase {
            Phase::CheckingTarget { bin_dir, target } => {
                let request = match &base.task {
                    Task::Add(request) => Some((request.clone(), false)),
                    Task::ValidateAdd(request) => Some((request.clone(), true)),
                    _ => None,
                };
                match request {
                    Some((request, validating)) => if seen.len() == 1 {
                        base.target_checked(request, validating, bin_dir, target, &seen[0])
                    } else {
                        base.at(Phase::CheckingTarget { bin_dir, target })
                    },
                    None => base.at(Phase::CheckingTarget { bin_dir, target }),
                }
            },
            Phase::Examining { bin_dir, subject, registrations } => base.examined(
                bin_dir,
                subject,
                registrations,
                seen,
                environment,
            ),
            Phase::Reporting { bin_dir, link, report } => if seen.len() == 2 {
                base.report_observed(bin_dir, report, &seen[0], &seen[1])
            } else {
                base.at(Phase::Reporting { bin_dir, link, report })
            },
            Phase::RestoreObserving { removal, error } => if seen.len() != 1 {
                base.at(Phase::RestoreObserving { removal, error })
            } else if seen[0].entry.is_err() {
                base.at(Phase::RestoreCreating { removal, error })
            } else {
                base.fail(error)
            },
            Phase::FailureObserving { message, bin_dir, old, new } => if seen.len() == 2 {
                let summary = application::rename_paths_summary(
                    "; actual paths after failure: old ",
                    &old,
                    &seen[0],
                    &new,
                    &seen[1],
                );
                let message = text::joined3(
                    &message,
                    &summary,
                    "; next safe action: resolve any reported conflict, run `bin list`, then retry",
                );
                base.at(Phase::FailureReading { message, bin_dir })
            } else {
                base.at(Phase::FailureObserving { message, bin_dir, old, new })
            },
            Phase::FailureInspecting { message, bin_dir, link, at, next, registrations } => if reported
                && seen.len() == 2 {
                base.failure_inspected(
                    message,
                    bin_dir,
                    at,
                    next,
                    registrations,
                    &seen[0],
                    &seen[1],
                )
            } else {
                base.at(
                    Phase::FailureInspecting { message, bin_dir, link, at, next, registrations },
                )
            },
            phase => base.at(phase),
        }
    }

    fn on_link_read(self, outcome: Result<Option<PathBuf>, IoError>) -> (r: Self)
        requires
            self.wf(),
        ensures
            r@ == self@.on_link_read(
                match outcome {
                    Ok(text) => Ok(views::view_of(text)),
                    Err(source) => Err(source@),
                },
            ),
            r.wf(),
    {
        reveal(LifecycleView::on_link_read);
        let Lifecycle { task, failure, phase } = self;
        let base = Lifecycle { task, failure, phase: Phase::Configuring };
        match phase {
            Phase::CheckingLink { removal, change } => base.link_checked(removal, change, outcome),
            Phase::UndoChecking { link, change, error, restore } => {
                let unchanged = match &outcome {
                    Ok(Some(text)) => text.same(&change.target),
                    _ => false,
                };
                if unchanged {
                    base.at(Phase::UndoRemoving { link, change, error, restore })
                } else {
                    base.restore(change, error, restore)
                }
            },
            phase => base.at(phase),
        }
    }

    /// The state once the host has reported; a report that was not asked for changes nothing.
    pub fn advance(self, event: Event, environment: &Environment) -> (r: Self)
        requires
            self.wf(),
        ensures
            r@ == self@.advance(event@, environment@),
            r.wf(),
    {
        match event {
            Event::Configuration(read) => self.on_configuration(read, environment),
            Event::Registry(read) => self.on_registry(read, environment),
            Event::Done(outcome) => self.on_done(outcome, environment),
            Event::Observed(seen) => self.on_observed(seen, environment),
            Event::LinkRead(outcome) => self.on_link_read(outcome),
            Event::Written(outcome, temporary) => {
                let Lifecycle { task, failure, phase } = self;
                let base = Lifecycle { task, failure, phase: Phase::Configuring };
                match phase {
                    Phase::Writing { change, .. } => base.written(
                        change,
                        outcome,
                        temporary,
                        environment,
                    ),
                    phase => base.at(phase),
                }
            },
            Event::Synchronized(outcome) => {
                let Lifecycle { task, failure, phase } = self;
                let base = Lifecycle { task, failure, phase: Phase::Configuring };
                match phase {
                    Phase::Synchronizing { change } => base.synchronized(change, outcome),
                    phase => base.at(phase),
                }
            },
        }
    }

    /// The outcome of an operation that is over.
    pub fn outcome(self) -> (r: Option<Result<LifecycleResult, ApplicationError>>)
        ensures
            match self@.phase {
                PhaseView::Finished(Ok(result)) => r is Some && r->0 is Ok && r->0->Ok_0@
                    == result,
                PhaseView::Finished(Err(error)) => r is Some && r->0 is Err && r->0->Err_0@
                    == error,
                _ => r is None,
            },
    {
        match self.phase {
            Phase::Finished(outcome) => Some(outcome),
            _ => None,
        }
    }
}

pub open spec fn failure_named(identifier: Seq<char>, names: Seq<Seq<char>>) -> Option<
    FailureView,
> {
    Some(FailureView { identifier, names })
}

/// Where an operation on a named Registration begins: nothing is touched for an invalid name.
pub open spec fn begun(task: TaskView, failure: Option<FailureView>, names: Seq<Seq<char>>) -> LifecycleView
    decreases names.len(),
{
    let start = LifecycleView { task, failure, phase: PhaseView::Configuring };
    if names.len() == 0 {
        start
    } else if !registry::valid_name(names[0]) {
        start.fail(ApplicationErrorView::InvalidInput(registry::name_problem(names[0])))
    } else {
        begun(task, failure, names.skip(1))
    }
}

fn begin_named(task: Task, failure: Failure, name: &String) -> (r: Lifecycle)
    ensures
        r@ == begun(task@, Some(failure@), seq![name@]),
        r.wf(),
{
    let start = Lifecycle { task, failure: Some(failure), phase: Phase::Configuring };
    assert(seq![name@].skip(1).len() == 0);
    reveal_with_fuel(begun, 2);
    match registry::validate_name(name) {
        Err(message) => start.fail(ApplicationError::InvalidInput(message)),
        Ok(_) => start,
    }
}

fn one_name(name: &str) -> (r: Vec<String>)
    ensures
        views::views(r@) == seq![name@],
{
    let mut r: Vec<String> = Vec::new();
    r.push(name.to_owned());
    assert(views::views(r@) =~= seq![name@]);
    r
}

/// Begins to publish a Registration.
pub fn enable(name: &str) -> (r: Lifecycle)
    ensures
        r.wf(),
        r@ == begun(
            TaskView::SetEnabled { name: name@, enabled: true },
            failure_named("enable-failed"@, seq![name@]),
            seq![name@],
        ),
{
    let name = name.to_owned();
    begin_named(
        Task::SetEnabled { name: name.clone(), enabled: true },
        Failure { identifier: "enable-failed", names: one_name(&name) },
        &name,
    )
}

/// Begins to withdraw a Registration without forgetting it.
pub fn disable(name: &str) -> (r: Lifecycle)
    ensures
        r.wf(),
        r@ == begun(
            TaskView::SetEnabled { name: name@, enabled: false },
            failure_named("disable-failed"@, seq![name@]),
            seq![name@],
        ),
{
    let name = name.to_owned();
    begin_named(
        Task::SetEnabled { name: name.clone(), enabled: false },
        Failure { identifier: "disable-failed", names: one_name(&name) },
        &name,
    )
}

/// Begins to withdraw and forget a Registration.
pub fn remove(name: &str) -> (r: Lifecycle)
    ensures
        r.wf(),
        r@ == begun(
            TaskView::Remove { name: name@ },
            failure_named("remove-failed"@, seq![name@]),
            seq![name@],
        ),
{
    let name = name.to_owned();
    begin_named(
        Task::Remove { name: name.clone() },
        Failure { identifier: "remove-failed", names: one_name(&name) },
        &name,
    )
}

/// Begins to give a Registration another Command Name.
pub fn rename(name: &str, new_name: &str) -> (r: Lifecycle)
    ensures
        r.wf(),
        r@ == begun(
            TaskView::Rename { name: name@, new_name: new_name@ },
            failure_named("rename-failed"@, seq![new_name@, name@]),
            seq![name@, new_name@],
        ),
{
    let mut names: Vec<String> = Vec::new();
    names.push(new_name.to_owned());
    names.push(name.to_owned());
    assert(views::views(names@) =~= seq![new_name@, name@]);
    let start = Lifecycle {
        task: Task::Rename { name: name.to_owned(), new_name: new_name.to_owned() },
        failure: Some(Failure { identifier: "rename-failed", names }),
        phase: Phase::Configuring,
    };
    reveal_with_fuel(begun, 3);
    assert(seq![name@, new_name@].skip(1) =~= seq![new_name@]);
    assert(seq![new_name@].skip(1).len() == 0);
    if let Err(message) = registry::validate_name(name) {
        return start.fail(ApplicationError::InvalidInput(message));
    }
    if let Err(message) = registry::validate_name(new_name) {
        return start.fail(ApplicationError::InvalidInput(message));
    }
    start
}

/// The names that a failed addition is looked up under.
pub open spec fn added_names(request: AddRequestView) -> Seq<Seq<char>> {
    match proposed_name(request, request.target) {
        Some(name) => seq![name],
        None => Seq::empty(),
    }
}

/// Begins to register a Target.
pub fn add(request: AddRequest) -> (r: Lifecycle)
    ensures
        r.wf(),
        r@ == begun(
            TaskView::Add(request@),
            failure_named("add-failed"@, added_names(request@)),
            Seq::empty(),
        ),
{
    let name = match &request.name {
        Some(name) => Some(name.clone()),
        None => file_name_text(&request.target),
    };
    let names = match name {
        Some(name) => one_name(&name),
        None => Vec::new(),
    };
    assert(views::views(names@) =~= added_names(request@));
    Lifecycle {
        task: Task::Add(request),
        failure: Some(Failure { identifier: "add-failed", names }),
        phase: Phase::Configuring,
    }
}

/// Begins to check whether a Target could be registered, without changing anything.
pub fn validate_add(request: AddRequest) -> (r: Lifecycle)
    ensures
        r.wf(),
        r@ == begun(TaskView::ValidateAdd(request@), None, Seq::empty()),
{
    Lifecycle { task: Task::ValidateAdd(request), failure: None, phase: Phase::Configuring }
}

} // verus!
