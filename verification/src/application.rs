//! The policy that decides over single Registrations: what is healthy, what conflicts, and what
//! errors say.

use vstd::prelude::*;
use vstd::utf8;

use crate::configuration::{Configuration, ConfigurationError, ConfigurationErrorView};
use crate::discovery_ignore;
use crate::discovery_ignore::{DiscoveryIgnoreError, DiscoveryIgnoreErrorView, IgnorePhase};
use crate::environment::{Environment, EnvironmentView};
use crate::host::{
    EntryKind,
    IoError,
    IoErrorKind,
    IoErrorView,
    Observation,
    ObservationView,
};
use crate::model::{
    LifecycleResult,
    LifecycleResultView,
    LifecycleStatus,
    ListResult,
    ListResultView,
    ManagedPathKind,
    PathDiagnostic,
    PathDiagnosticView,
    PathStatus,
    Registration,
    RegistrationDefect,
    RegistrationDefectKind,
    RegistrationDefectView,
    RegistrationState,
    RegistrationStateView,
    RegistrationView,
};
use crate::path;
use crate::path::PathBuf;
use crate::registry;
use crate::registry::{RegistryError, RegistryErrorView};
use crate::text;
use crate::views;

pub use crate::lifecycle::{add, disable, enable, remove, rename, validate_add};
pub use crate::listing::list;
pub use crate::search::search;

verus! {

#[derive(Debug)]
pub struct SearchRequest {
    pub search_root: Option<PathBuf>,
}

#[derive(Debug)]
pub struct AddRequest {
    pub target: PathBuf,
    pub name: Option<String>,
    pub disabled: bool,
}

#[verifier::ext_equal]
pub struct AddRequestView {
    pub target: Seq<u8>,
    pub name: Option<Seq<char>>,
    pub disabled: bool,
}

impl View for AddRequest {
    type V = AddRequestView;

    open spec fn view(&self) -> AddRequestView {
        AddRequestView {
            target: self.target@,
            name: views::view_of(self.name),
            disabled: self.disabled,
        }
    }
}

impl Clone for AddRequest {
    fn clone(&self) -> (r: Self)
        ensures
            r@ == self@,
    {
        AddRequest {
            target: self.target.clone(),
            name: match &self.name {
                Some(name) => Some(name.clone()),
                None => None,
            },
            disabled: self.disabled,
        }
    }
}

#[derive(Debug, PartialEq, Eq)]
pub enum ApplicationError {
    Configuration(ConfigurationError),
    Registry(RegistryError),
    DiscoveryIgnore(DiscoveryIgnoreError),
    InvalidInput(String),
    UnknownName(String),
    Search { path: PathBuf, source: IoError },
    InspectTarget { path: PathBuf, source: IoError },
    InspectManagedPath { path: PathBuf, source: IoError },
    CreateManagedDirectory { path: PathBuf, source: IoError },
    CreateManagedLink { path: PathBuf, source: IoError },
    RemoveManagedLink { path: PathBuf, source: IoError },
    Operation {
        identifier: &'static str,
        message: String,
        resulting_registration: Option<RegistrationState>,
    },
    Mutation {
        identifier: &'static str,
        message: String,
        resulting_registration: Option<RegistrationState>,
    },
}

#[verifier::ext_equal]
pub enum ApplicationErrorView {
    Configuration(ConfigurationErrorView),
    Registry(RegistryErrorView),
    DiscoveryIgnore(DiscoveryIgnoreErrorView),
    InvalidInput(Seq<char>),
    UnknownName(Seq<char>),
    Search { path: Seq<u8>, source: IoErrorView },
    InspectTarget { path: Seq<u8>, source: IoErrorView },
    InspectManagedPath { path: Seq<u8>, source: IoErrorView },
    CreateManagedDirectory { path: Seq<u8>, source: IoErrorView },
    CreateManagedLink { path: Seq<u8>, source: IoErrorView },
    RemoveManagedLink { path: Seq<u8>, source: IoErrorView },
    Operation {
        identifier: Seq<char>,
        message: Seq<char>,
        resulting_registration: Option<RegistrationStateView>,
    },
    Mutation {
        identifier: Seq<char>,
        message: Seq<char>,
        resulting_registration: Option<RegistrationStateView>,
    },
}

impl View for ApplicationError {
    type V = ApplicationErrorView;

    open spec fn view(&self) -> ApplicationErrorView {
        match *self {
            ApplicationError::Configuration(error) => ApplicationErrorView::Configuration(error@),
            ApplicationError::Registry(error) => ApplicationErrorView::Registry(error@),
            ApplicationError::DiscoveryIgnore(error) => ApplicationErrorView::DiscoveryIgnore(
                error@,
            ),
            ApplicationError::InvalidInput(message) => ApplicationErrorView::InvalidInput(message@),
            ApplicationError::UnknownName(name) => ApplicationErrorView::UnknownName(name@),
            ApplicationError::Search { path, source } => ApplicationErrorView::Search {
                path: path@,
                source: source@,
            },
            ApplicationError::InspectTarget { path, source } =>
                ApplicationErrorView::InspectTarget { path: path@, source: source@ },
            ApplicationError::InspectManagedPath { path, source } =>
                ApplicationErrorView::InspectManagedPath { path: path@, source: source@ },
            ApplicationError::CreateManagedDirectory { path, source } =>
                ApplicationErrorView::CreateManagedDirectory { path: path@, source: source@ },
            ApplicationError::CreateManagedLink { path, source } =>
                ApplicationErrorView::CreateManagedLink { path: path@, source: source@ },
            ApplicationError::RemoveManagedLink { path, source } =>
                ApplicationErrorView::RemoveManagedLink { path: path@, source: source@ },
            ApplicationError::Operation { identifier, message, resulting_registration } =>
                ApplicationErrorView::Operation {
                identifier: identifier@,
                message: message@,
                resulting_registration: views::view_of(resulting_registration),
            },
            ApplicationError::Mutation { identifier, message, resulting_registration } =>
                ApplicationErrorView::Mutation {
                identifier: identifier@,
                message: message@,
                resulting_registration: views::view_of(resulting_registration),
            },
        }
    }
}

impl ApplicationErrorView {
    /// What the error says.
    pub open spec fn message(self) -> Seq<char> {
        match self {
            ApplicationErrorView::Configuration(error) => error.message(),
            ApplicationErrorView::Registry(error) => error.message(),
            ApplicationErrorView::DiscoveryIgnore(error) => error.message(),
            ApplicationErrorView::InvalidInput(message) => "invalid input: "@ + message,
            ApplicationErrorView::UnknownName(name) => "unknown Command Name "@
                + text::quoted_text(name),
            ApplicationErrorView::Search { path, source } => registry::path_message(
                "could not search "@,
                path,
                ": "@,
                source.message,
            ),
            ApplicationErrorView::InspectTarget { path, source } => registry::path_message(
                "could not inspect Target "@,
                path,
                ": "@,
                source.message,
            ),
            ApplicationErrorView::InspectManagedPath { path, source } => registry::path_message(
                "could not inspect managed path "@,
                path,
                ": "@,
                source.message,
            ),
            ApplicationErrorView::CreateManagedDirectory { path, source } => registry::path_message(
                "could not create managed directory "@,
                path,
                ": "@,
                source.message,
            ),
            ApplicationErrorView::CreateManagedLink { path, source } => registry::path_message(
                "could not create Managed Link "@,
                path,
                ": "@,
                source.message,
            ),
            ApplicationErrorView::RemoveManagedLink { path, source } => registry::path_message(
                "could not remove Managed Link "@,
                path,
                ": "@,
                source.message,
            ),
            ApplicationErrorView::Operation { message, .. } => message,
            ApplicationErrorView::Mutation { message, .. } => message,
        }
    }

    pub open spec fn identifier(self) -> Seq<char> {
        match self {
            ApplicationErrorView::Operation { identifier, .. } => identifier,
            ApplicationErrorView::Mutation { identifier, .. } => identifier,
            _ => "operation-failed"@,
        }
    }

    pub open spec fn resulting_registration(self) -> Option<RegistrationStateView> {
        match self {
            ApplicationErrorView::Operation { resulting_registration, .. } =>
                resulting_registration,
            ApplicationErrorView::Mutation { resulting_registration, .. } =>
                resulting_registration,
            _ => None,
        }
    }
}

impl ApplicationError {
    /// What the error says.
    pub fn message(&self) -> (r: String)
        ensures
            r@ == self@.message(),
    {
        match self {
            ApplicationError::Configuration(error) => error.message(),
            ApplicationError::Registry(error) => error.message(),
            ApplicationError::DiscoveryIgnore(error) => error.message(),
            ApplicationError::InvalidInput(message) => text::joined("invalid input: ", message),
            ApplicationError::UnknownName(name) => text::joined(
                "unknown Command Name ",
                &text::quoted(name),
            ),
            ApplicationError::Search { path, source } => registry::path_message_of(
                "could not search ",
                path,
                ": ",
                &source.message,
            ),
            ApplicationError::InspectTarget { path, source } => registry::path_message_of(
                "could not inspect Target ",
                path,
                ": ",
                &source.message,
            ),
            ApplicationError::InspectManagedPath { path, source } => registry::path_message_of(
                "could not inspect managed path ",
                path,
                ": ",
                &source.message,
            ),
            ApplicationError::CreateManagedDirectory { path, source } => registry::path_message_of(
                "could not create managed directory ",
                path,
                ": ",
                &source.message,
            ),
            ApplicationError::CreateManagedLink { path, source } => registry::path_message_of(
                "could not create Managed Link ",
                path,
                ": ",
                &source.message,
            ),
            ApplicationError::RemoveManagedLink { path, source } => registry::path_message_of(
                "could not remove Managed Link ",
                path,
                ": ",
                &source.message,
            ),
            ApplicationError::Operation { message, .. } => message.clone(),
            ApplicationError::Mutation { message, .. } => message.clone(),
        }
    }

    pub fn identifier(&self) -> (r: &'static str)
        ensures
            r@ == self@.identifier(),
    {
        match self {
            ApplicationError::Operation { identifier, .. } => identifier,
            ApplicationError::Mutation { identifier, .. } => identifier,
            _ => "operation-failed",
        }
    }

    pub fn resulting_registration(&self) -> (r: Option<&RegistrationState>)
        ensures
            match self@.resulting_registration() {
                Some(state) => r is Some && r->0@ == state,
                None => r is None,
            },
    {
        match self {
            ApplicationError::Operation { resulting_registration, .. } =>
                resulting_registration.as_ref(),
            ApplicationError::Mutation { resulting_registration, .. } =>
                resulting_registration.as_ref(),
            _ => None,
        }
    }
}

/// The Managed Link of a Command Name, which lies in the managed directory itself.
#[verifier::opaque]
pub open spec fn managed_link_of(bin_dir: Seq<u8>, name: Seq<char>) -> Result<
    Seq<u8>,
    ApplicationErrorView,
> {
    let link = path::normalized(path::joined(bin_dir, utf8::encode_utf8(name)));
    if path::names(link).len() > 0 && path::components(link).drop_last() == path::components(
        bin_dir,
    ) {
        Ok(link)
    } else {
        Err(
            ApplicationErrorView::InvalidInput(
                "Command Name "@ + text::quoted_text(name) + " escapes managed bin directory"@,
            ),
        )
    }
}

/// The Managed Link of a Command Name, which lies in the managed directory itself.
pub fn managed_link(bin_dir: &PathBuf, name: &str) -> (r: Result<PathBuf, ApplicationError>)
    ensures
        match managed_link_of(bin_dir@, name@) {
            Ok(link) => r is Ok && r->Ok_0@ == link,
            Err(error) => r is Err && r->Err_0@ == error,
        },
{
    reveal(managed_link_of);
    let link = bin_dir.join_text(name).normalize();
    if link.is_directly_below(bin_dir) {
        Ok(link)
    } else {
        Err(
            ApplicationError::InvalidInput(
                text::joined3(
                    "Command Name ",
                    &text::quoted(name),
                    " escapes managed bin directory",
                ),
            ),
        )
    }
}

/// A valid Command Name has a Managed Link in every absolute, normalized managed directory: the
/// directory's own path with the name behind it.
pub proof fn a_valid_name_has_a_managed_link(bin_dir: Seq<u8>, name: Seq<char>)
    requires
        registry::valid_name(name),
        path::absolute(bin_dir),
        path::normalized(bin_dir) == bin_dir,
    ensures
        managed_link_of(bin_dir, name) is Ok,
        path::names(managed_link_of(bin_dir, name)->Ok_0) == path::names(bin_dir).push(
            utf8::encode_utf8(name),
        ),
        path::absolute(managed_link_of(bin_dir, name)->Ok_0),
{
    reveal(managed_link_of);
    let n = utf8::encode_utf8(name);
    registry::valid_name_is_clean(name);
    let joined = path::joined(bin_dir, n);
    assert(!path::absolute(n));
    path::names_of_joined(bin_dir, n);
    path::lead_of_joined(bin_dir, n);
    path::names_of_clean_name(n);
    path::names_of_normalized(bin_dir);
    path::resolved_without_parents(path::names(bin_dir));
    let ns = path::names(bin_dir).push(n);
    assert(path::names(bin_dir) + seq![n] =~= ns);
    assert forall|i: int| 0 <= i < ns.len() implies #[trigger] ns[i] != path::parent_name() by {
        if i < path::names(bin_dir).len() {
            assert(ns[i] == path::names(bin_dir)[i]);
        }
    }
    path::resolved_without_parents(ns);
    path::names_of_normalized(joined);
    let link = path::normalized(joined);
    assert(path::names(link) == ns);
    assert(path::lead(link) == path::lead(bin_dir));
    assert(path::components(link).drop_last() =~= path::components(bin_dir));
}

/// Two names of one managed directory have the same Managed Link only if they are the same name.
pub proof fn managed_links_are_distinct(bin_dir: Seq<u8>, a: Seq<char>, b: Seq<char>)
    requires
        registry::valid_name(a),
        registry::valid_name(b),
        path::absolute(bin_dir),
        path::normalized(bin_dir) == bin_dir,
        managed_link_of(bin_dir, a)->Ok_0 == managed_link_of(bin_dir, b)->Ok_0,
    ensures
        a == b,
{
    a_valid_name_has_a_managed_link(bin_dir, a);
    a_valid_name_has_a_managed_link(bin_dir, b);
    let x = path::names(bin_dir).push(utf8::encode_utf8(a));
    let y = path::names(bin_dir).push(utf8::encode_utf8(b));
    assert(x.last() == y.last());
    utf8::encode_utf8_decode_utf8(a);
    utf8::encode_utf8_decode_utf8(b);
}

/// A link whose text is this path.
pub open spec fn owns(seen: ObservationView, target: Seq<u8>) -> bool {
    seen.link matches Some(link) && path::components(link) == path::components(target)
}

pub(crate) fn is_owned_link(seen: &Observation, target: &PathBuf) -> (r: bool)
    ensures
        r == owns(seen@, target@),
{
    match &seen.link {
        Some(link) => link.same(target),
        None => false,
    }
}

/// What an observation says lies at a managed path; the error where it could not be looked at.
pub open spec fn actual_kind(
    seen: ObservationView,
    target: Seq<u8>,
) -> Result<ManagedPathKind, IoErrorView> {
    match seen.entry {
        Err(source) => if source.kind == IoErrorKind::NotFound {
            Ok(ManagedPathKind::Missing)
        } else {
            Err(source)
        },
        Ok(EntryKind::SymbolicLink) => if owns(seen, target) {
            Ok(ManagedPathKind::OwnedLink)
        } else {
            Ok(ManagedPathKind::SymbolicLink)
        },
        Ok(EntryKind::File) => Ok(ManagedPathKind::File),
        Ok(EntryKind::Directory) => Ok(ManagedPathKind::Directory),
        Ok(EntryKind::Other) => Ok(ManagedPathKind::Other),
    }
}

/// What is wrong with a Registration, if anything is. The Target comes before the link.
pub open spec fn defect_of(
    registration: RegistrationView,
    managed_link: Seq<u8>,
    actual: ManagedPathKind,
    link: ObservationView,
    target: ObservationView,
) -> Result<Option<RegistrationDefectKind>, ApplicationErrorView> {
    match target.followed {
        Err(source) => if source.kind == IoErrorKind::NotFound {
            Ok(Some(RegistrationDefectKind::TargetMissing))
        } else {
            Err(ApplicationErrorView::InspectTarget { path: registration.target, source })
        },
        Ok(facts) => if !facts.is_executable_file() {
            Ok(Some(RegistrationDefectKind::TargetNotExecutable))
        } else if !registration.enabled {
            if actual == ManagedPathKind::Missing {
                Ok(None)
            } else {
                Ok(Some(RegistrationDefectKind::Conflict))
            }
        } else {
            match actual {
                ManagedPathKind::OwnedLink => Ok(None),
                ManagedPathKind::Missing => Ok(Some(RegistrationDefectKind::LinkMissing)),
                ManagedPathKind::SymbolicLink => match link.followed {
                    Ok(_) => Ok(Some(RegistrationDefectKind::LinkIncorrect)),
                    Err(source) => if source.kind == IoErrorKind::NotFound {
                        Ok(Some(RegistrationDefectKind::LinkBroken))
                    } else {
                        Err(
                            ApplicationErrorView::InspectManagedPath {
                                path: managed_link,
                                source,
                            },
                        )
                    },
                },
                _ => Ok(Some(RegistrationDefectKind::Conflict)),
            }
        },
    }
}

/// What a defect says, and what to do about it.
pub open spec fn defect_text(
    kind: RegistrationDefectKind,
    enabled: bool,
    actual: ManagedPathKind,
) -> Seq<char> {
    match kind {
        RegistrationDefectKind::TargetMissing =>
            "Target does not exist; restore it or remove the Registration"@,
        RegistrationDefectKind::TargetNotExecutable =>
            "Target is not an executable regular file; restore executable permissions"@,
        RegistrationDefectKind::LinkMissing => "Enabled Registration has no Managed Link"@,
        RegistrationDefectKind::LinkBroken =>
            "Managed Link points to a missing unexpected Target and ownership cannot be proven"@,
        RegistrationDefectKind::LinkIncorrect =>
            "Managed Link points to an unexpected Target and ownership cannot be proven"@,
        RegistrationDefectKind::Conflict => if !enabled && actual == ManagedPathKind::OwnedLink {
            "Disabled Registration still has its owned Managed Link"@
        } else {
            "Managed path contains an entry the executable registry cannot prove it owns"@
        },
    }
}

fn defect_message(kind: RegistrationDefectKind, enabled: bool, actual: ManagedPathKind) -> (r:
    &'static str)
    ensures
        r@ == defect_text(kind, enabled, actual),
{
    match kind {
        RegistrationDefectKind::TargetMissing =>
            "Target does not exist; restore it or remove the Registration",
        RegistrationDefectKind::TargetNotExecutable =>
            "Target is not an executable regular file; restore executable permissions",
        RegistrationDefectKind::LinkMissing => "Enabled Registration has no Managed Link",
        RegistrationDefectKind::LinkBroken =>
            "Managed Link points to a missing unexpected Target and ownership cannot be proven",
        RegistrationDefectKind::LinkIncorrect =>
            "Managed Link points to an unexpected Target and ownership cannot be proven",
        RegistrationDefectKind::Conflict => if !enabled && actual == ManagedPathKind::OwnedLink {
            "Disabled Registration still has its owned Managed Link"
        } else {
            "Managed path contains an entry the executable registry cannot prove it owns"
        },
    }
}

fn classify_defect(
    registration: &Registration,
    managed_link: &PathBuf,
    actual: ManagedPathKind,
    link: &Observation,
    target: &Observation,
) -> (r: Result<Option<RegistrationDefectKind>, ApplicationError>)
    ensures
        match defect_of(registration@, managed_link@, actual, link@, target@) {
            Ok(kind) => r == Ok::<Option<RegistrationDefectKind>, ApplicationError>(kind),
            Err(error) => r is Err && r->Err_0@ == error,
        },
{
    match &target.followed {
        Err(source) => if source.is_not_found() {
            Ok(Some(RegistrationDefectKind::TargetMissing))
        } else {
            Err(
                ApplicationError::InspectTarget {
                    path: registration.target.clone(),
                    source: source.clone(),
                },
            )
        },
        Ok(facts) => if !facts.executable_file() {
            Ok(Some(RegistrationDefectKind::TargetNotExecutable))
        } else if !registration.enabled {
            if actual == ManagedPathKind::Missing {
                Ok(None)
            } else {
                Ok(Some(RegistrationDefectKind::Conflict))
            }
        } else {
            match actual {
                ManagedPathKind::OwnedLink => Ok(None),
                ManagedPathKind::Missing => Ok(Some(RegistrationDefectKind::LinkMissing)),
                ManagedPathKind::SymbolicLink => match &link.followed {
                    Ok(_) => Ok(Some(RegistrationDefectKind::LinkIncorrect)),
                    Err(source) => if source.is_not_found() {
                        Ok(Some(RegistrationDefectKind::LinkBroken))
                    } else {
                        Err(
                            ApplicationError::InspectManagedPath {
                                path: managed_link.clone(),
                                source: source.clone(),
                            },
                        )
                    },
                },
                _ => Ok(Some(RegistrationDefectKind::Conflict)),
            }
        },
    }
}

/// The state of a Registration whose Managed Link and Target were looked at.
pub open spec fn inspected(
    registration: RegistrationView,
    bin_dir: Seq<u8>,
    link: ObservationView,
    target: ObservationView,
) -> Result<RegistrationStateView, ApplicationErrorView> {
    match managed_link_of(bin_dir, registration.name) {
        Err(error) => Err(error),
        Ok(managed_link) => match actual_kind(link, registration.target) {
            Err(source) => Err(
                ApplicationErrorView::InspectManagedPath { path: managed_link, source },
            ),
            Ok(actual) => match defect_of(registration, managed_link, actual, link, target) {
                Err(error) => Err(error),
                Ok(kind) => Ok(
                    RegistrationStateView {
                        registration,
                        managed_link,
                        actual,
                        observed_link_target: link.link,
                        defect: match kind {
                            Some(kind) => Some(
                                RegistrationDefectView {
                                    kind,
                                    message: defect_text(kind, registration.enabled, actual),
                                },
                            ),
                            None => None,
                        },
                    },
                ),
            },
        },
    }
}

/// The state of a Registration whose Managed Link and Target were looked at.
pub fn inspect_registration(
    registration: &Registration,
    bin_dir: &PathBuf,
    link: &Observation,
    target: &Observation,
) -> (r: Result<RegistrationState, ApplicationError>)
    ensures
        match inspected(registration@, bin_dir@, link@, target@) {
            Ok(state) => r is Ok && r->Ok_0@ == state,
            Err(error) => r is Err && r->Err_0@ == error,
        },
{
    let managed_link = match managed_link(bin_dir, &registration.name) {
        Ok(managed_link) => managed_link,
        Err(error) => {
            return Err(error);
        },
    };
    let actual = match &link.entry {
        Err(source) => if source.is_not_found() {
            ManagedPathKind::Missing
        } else {
            return Err(
                ApplicationError::InspectManagedPath {
                    path: managed_link,
                    source: source.clone(),
                },
            );
        },
        Ok(EntryKind::SymbolicLink) => if is_owned_link(link, &registration.target) {
            ManagedPathKind::OwnedLink
        } else {
            ManagedPathKind::SymbolicLink
        },
        Ok(EntryKind::File) => ManagedPathKind::File,
        Ok(EntryKind::Directory) => ManagedPathKind::Directory,
        Ok(EntryKind::Other) => ManagedPathKind::Other,
    };
    let kind = match classify_defect(registration, &managed_link, actual, link, target) {
        Ok(kind) => kind,
        Err(error) => {
            return Err(error);
        },
    };
    let defect = match kind {
        Some(kind) => Some(
            RegistrationDefect {
                kind,
                message: defect_message(kind, registration.enabled, actual).to_owned(),
            },
        ),
        None => None,
    };
    Ok(
        RegistrationState {
            registration: registration.clone(),
            managed_link,
            actual,
            observed_link_target: match &link.link {
                Some(target) => Some(target.clone()),
                None => None,
            },
            defect,
        },
    )
}

/// No state has a defect.
pub open spec fn all_healthy(states: Seq<RegistrationStateView>) -> bool {
    forall|i: int| 0 <= i < states.len() ==> (#[trigger] states[i]).defect is None
}

pub open spec fn status_of(states: Seq<RegistrationStateView>) -> LifecycleStatus {
    if all_healthy(states) {
        LifecycleStatus::Healthy
    } else {
        LifecycleStatus::Blocked
    }
}

/// Healthy exactly when no state has a defect.
pub fn status_from_defects(states: &Vec<RegistrationState>) -> (r: LifecycleStatus)
    ensures
        r == status_of(views::views(states@)),
{
    let ghost all = views::views(states@);
    let mut i: usize = 0;
    while i < states.len()
        invariant
            i <= states@.len(),
            all == views::views(states@),
            forall|j: int| 0 <= j < i ==> (#[trigger] all[j]).defect is None,
        decreases states.len() - i,
    {
        if states[i].defect.is_some() {
            assert(all[i as int].defect is Some);
            return LifecycleStatus::Blocked;
        }
        i = i + 1;
    }
    LifecycleStatus::Healthy
}

pub open spec fn listed(states: Seq<RegistrationStateView>) -> ListResultView {
    ListResultView {
        status: status_of(states),
        identifier: "registrations-listed"@,
        registrations: states,
    }
}

/// What a list of states reports.
pub fn list_result(registrations: Vec<RegistrationState>) -> (r: ListResult)
    ensures
        r@ == listed(views::views(registrations@)),
{
    ListResult {
        status: status_from_defects(&registrations),
        identifier: "registrations-listed".to_owned(),
        registrations,
    }
}

/// A report on one Registration, healthy or blocked by its own state.
pub open spec fn reported(identifier: Seq<char>, state: RegistrationStateView) -> LifecycleResultView {
    LifecycleResultView {
        status: if state.defect is None {
            LifecycleStatus::Healthy
        } else {
            LifecycleStatus::Blocked
        },
        identifier,
        registration: Some(state),
        conflict: None,
    }
}

pub fn lifecycle_result(identifier: &str, state: RegistrationState) -> (r: LifecycleResult)
    ensures
        r@ == reported(identifier@, state@),
{
    LifecycleResult {
        status: if state.defect.is_none() {
            LifecycleStatus::Healthy
        } else {
            LifecycleStatus::Blocked
        },
        identifier: identifier.to_owned(),
        registration: Some(state),
        conflict: None,
    }
}

/// A refusal to touch one Registration, for the defect that it has.
pub open spec fn refused(identifier: Seq<char>, state: RegistrationStateView) -> LifecycleResultView {
    LifecycleResultView {
        status: LifecycleStatus::Blocked,
        identifier,
        registration: Some(state),
        conflict: match state.defect {
            Some(defect) => Some(defect.message),
            None => None,
        },
    }
}

pub fn blocked(identifier: &str, state: RegistrationState) -> (r: LifecycleResult)
    ensures
        r@ == refused(identifier@, state@),
{
    let conflict = match &state.defect {
        Some(defect) => Some(defect.message.clone()),
        None => None,
    };
    LifecycleResult {
        status: LifecycleStatus::Blocked,
        identifier: identifier.to_owned(),
        registration: Some(state),
        conflict,
    }
}

/// A path made absolute against the working directory, and normalized.
pub open spec fn absolute_of(target: Seq<u8>, environment: EnvironmentView) -> Seq<u8> {
    if path::absolute(target) {
        path::normalized(target)
    } else {
        path::normalized(path::joined(environment.cwd, target))
    }
}

/// A path made absolute against the working directory, and normalized.
pub fn absolute_target(target: &PathBuf, environment: &Environment) -> (r: PathBuf)
    ensures
        r@ == absolute_of(target@, environment@),
{
    if target.is_absolute() {
        target.normalize()
    } else {
        environment.cwd().join(target).normalize()
    }
}

/// Why a Target cannot be published, if it cannot.
pub open spec fn checked_target(
    target: Seq<u8>,
    seen: ObservationView,
    missing_allowed: bool,
) -> Result<(), ApplicationErrorView> {
    if !utf8::valid_utf8(target) {
        Err(ApplicationErrorView::InvalidInput(registry::unstorable(target)))
    } else {
        match seen.followed {
            Err(source) => if source.kind == IoErrorKind::NotFound {
                if missing_allowed {
                    Ok(())
                } else {
                    Err(
                        ApplicationErrorView::InvalidInput(
                            "Target does not exist: "@ + text::lossy_text(target),
                        ),
                    )
                }
            } else {
                Err(
                    ApplicationErrorView::InvalidInput(
                        "could not inspect Target "@ + text::lossy_text(target) + ": "@
                            + source.message,
                    ),
                )
            },
            Ok(facts) => if !facts.is_file {
                Err(
                    ApplicationErrorView::InvalidInput(
                        "Target is not a file: "@ + text::lossy_text(target),
                    ),
                )
            } else if !facts.is_executable_file() {
                Err(
                    ApplicationErrorView::InvalidInput(
                        "Target is not executable: "@ + text::lossy_text(target),
                    ),
                )
            } else {
                Ok(())
            },
        }
    }
}

/// Why a Target cannot be published, if it cannot.
pub fn validate_target(target: &PathBuf, seen: &Observation, missing_allowed: bool) -> (r: Result<
    (),
    ApplicationError,
>)
    ensures
        match checked_target(target@, seen@, missing_allowed) {
            Ok(_) => r is Ok,
            Err(error) => r is Err && r->Err_0@ == error,
        },
{
    if let Err(message) = registry::validate_target_path(target) {
        return Err(ApplicationError::InvalidInput(message));
    }
    match &seen.followed {
        Err(source) => if source.is_not_found() {
            if missing_allowed {
                Ok(())
            } else {
                Err(
                    ApplicationError::InvalidInput(
                        text::joined("Target does not exist: ", &target.display()),
                    ),
                )
            }
        } else {
            let mut m = text::joined3("could not inspect Target ", &target.display(), ": ");
            m.append(&source.message);
            Err(ApplicationError::InvalidInput(m))
        },
        Ok(facts) => if !facts.is_file {
            Err(
                ApplicationError::InvalidInput(
                    text::joined("Target is not a file: ", &target.display()),
                ),
            )
        } else if !facts.executable_file() {
            Err(
                ApplicationError::InvalidInput(
                    text::joined("Target is not executable: ", &target.display()),
                ),
            )
        } else {
            Ok(())
        },
    }
}

/// What lies at a path, in words.
pub open spec fn path_summary(seen: ObservationView) -> Seq<char> {
    match seen.entry {
        Err(source) => if source.kind == IoErrorKind::NotFound {
            "missing"@
        } else {
            "unreadable"@
        },
        Ok(EntryKind::SymbolicLink) => "a symbolic link"@,
        Ok(EntryKind::File) => "an unmanaged file"@,
        Ok(EntryKind::Directory) => "an unmanaged directory"@,
        Ok(EntryKind::Other) => "an unmanaged entry"@,
    }
}

pub fn managed_path_summary(seen: &Observation) -> (r: &'static str)
    ensures
        r@ == path_summary(seen@),
{
    match &seen.entry {
        Err(source) => if source.is_not_found() {
            "missing"
        } else {
            "unreadable"
        },
        Ok(EntryKind::SymbolicLink) => "a symbolic link",
        Ok(EntryKind::File) => "an unmanaged file",
        Ok(EntryKind::Directory) => "an unmanaged directory",
        Ok(EntryKind::Other) => "an unmanaged entry",
    }
}

/// What lies at the two paths of a rename, in words.
pub open spec fn both_paths(
    label: Seq<char>,
    old_link: Seq<u8>,
    old_seen: ObservationView,
    new_link: Seq<u8>,
    new_seen: ObservationView,
) -> Seq<char> {
    label + text::lossy_text(old_link) + " is "@ + path_summary(old_seen) + ", new "@
        + text::lossy_text(new_link) + " is "@ + path_summary(new_seen)
}

pub(crate) fn rename_paths_summary(
    label: &str,
    old_link: &PathBuf,
    old_seen: &Observation,
    new_link: &PathBuf,
    new_seen: &Observation,
) -> (r: String)
    ensures
        r@ == both_paths(label@, old_link@, old_seen@, new_link@, new_seen@),
{
    let mut m = text::joined3(label, &old_link.display(), " is ");
    m.append(managed_path_summary(old_seen));
    m.append(", new ");
    m.append(&new_link.display());
    m.append(" is ");
    m.append(managed_path_summary(new_seen));
    m
}

/// The parts of a list of paths, which colons separate.
pub open spec fn path_list(s: Seq<u8>) -> Seq<Seq<u8>>
    decreases s.len(),
{
    if s.len() == 0 {
        seq![s]
    } else {
        let before = path_list(s.drop_last());
        if s.last() == 58u8 {
            before.push(Seq::empty())
        } else {
            before.update(before.len() - 1, before.last().push(s.last()))
        }
    }
}

/// The number of parts that are this directory, each taken against the working directory.
pub open spec fn matching_parts(
    parts: Seq<Seq<u8>>,
    bin_dir: Seq<u8>,
    environment: EnvironmentView,
) -> nat
    decreases parts.len(),
{
    if parts.len() == 0 {
        0
    } else {
        let before = matching_parts(parts.drop_last(), bin_dir, environment);
        if path::components(absolute_of(parts.last(), environment)) == path::components(bin_dir) {
            before + 1
        } else {
            before
        }
    }
}

/// How often the managed directory is a part of `PATH`.
pub open spec fn path_matches(bin_dir: Seq<u8>, environment: EnvironmentView) -> nat {
    match environment.variable("PATH"@) {
        Some(value) => matching_parts(path_list(value), bin_dir, environment),
        None => 0,
    }
}

/// Whether the shell finds what is published, and what to do if not.
pub open spec fn diagnosed(bin_dir: Seq<u8>, environment: EnvironmentView) -> PathDiagnosticView {
    let matches = path_matches(bin_dir, environment);
    if matches == 0 {
        PathDiagnosticView {
            status: PathStatus::Missing,
            identifier: "managed-bin-not-on-path"@,
            bin_dir,
            matches: 0,
            guidance: "add "@ + text::lossy_text(bin_dir)
                + " as a complete PATH component in your shell configuration, then start a new shell"@,
        }
    } else {
        PathDiagnosticView {
            status: PathStatus::Present,
            identifier: "managed-bin-on-path"@,
            bin_dir,
            matches: matches as usize,
            guidance: "managed bin directory "@ + text::lossy_text(bin_dir) + " is on PATH"@,
        }
    }
}

fn split_paths(value: &Vec<u8>) -> (r: Vec<PathBuf>)
    ensures
        views::views(r@) == path_list(value@),
{
    let mut done: Vec<PathBuf> = Vec::new();
    let mut part: Vec<u8> = Vec::new();
    let mut i: usize = 0;
    assert(part@ =~= value@.take(0));
    assert(views::views(done@).push(part@) =~= seq![value@.take(0)]);
    while i < value.len()
        invariant
            i <= value@.len(),
            views::views(done@).push(part@) == path_list(value@.take(i as int)),
        decreases value.len() - i,
    {
        let ghost before = done@;
        let ghost head = part@;
        let ghost listed = path_list(value@.take(i as int));
        assert(value@.take(i + 1).drop_last() =~= value@.take(i as int));
        assert(listed.last() == head);
        if value[i] == 58 {
            done.push(PathBuf::from_bytes(part));
            part = Vec::new();
            assert(views::views(done@) =~= views::views(before).push(head));
            assert(part@ =~= Seq::empty());
        } else {
            part.push(value[i]);
            assert(views::views(done@).push(part@) =~= listed.update(
                listed.len() - 1,
                head.push(value@[i as int]),
            ));
        }
        i = i + 1;
    }
    assert(value@.take(i as int) =~= value@);
    let ghost before = done@;
    let ghost head = part@;
    done.push(PathBuf::from_bytes(part));
    assert(views::views(done@) =~= views::views(before).push(head));
    done
}

/// Whether the shell finds what is published, and what to do if not.
pub fn path_diagnostic(configuration: &Configuration, environment: &Environment) -> (r:
    PathDiagnostic)
    ensures
        r@ == diagnosed(configuration@.bin_dir, environment@),
{
    let bin_dir = &configuration.bin_dir;
    let mut matches: usize = 0;
    if let Some(value) = environment.variable("PATH") {
        let parts = split_paths(value);
        let ghost all = views::views(parts@);
        let mut i: usize = 0;
        assert(all.take(0).len() == 0);
        while i < parts.len()
            invariant
                i <= parts@.len(),
                all == views::views(parts@),
                matches <= i,
                matches == matching_parts(all.take(i as int), bin_dir@, environment@),
            decreases parts.len() - i,
        {
            assert(all.take(i + 1).drop_last() =~= all.take(i as int));
            assert(all.take(i + 1).last() == parts@[i as int]@);
            if absolute_target(&parts[i], environment).same(bin_dir) {
                matches = matches + 1;
            }
            i = i + 1;
        }
        assert(all.take(i as int) =~= all);
    }
    if matches == 0 {
        PathDiagnostic {
            status: PathStatus::Missing,
            identifier: "managed-bin-not-on-path".to_owned(),
            bin_dir: bin_dir.clone(),
            matches,
            guidance: text::joined3(
                "add ",
                &bin_dir.display(),
                " as a complete PATH component in your shell configuration, then start a new shell",
            ),
        }
    } else {
        PathDiagnostic {
            status: PathStatus::Present,
            identifier: "managed-bin-on-path".to_owned(),
            bin_dir: bin_dir.clone(),
            matches,
            guidance: text::joined3("managed bin directory ", &bin_dir.display(), " is on PATH"),
        }
    }
}

/// Begins to leave a Target out of discovery.
pub fn ignore_target(target: &PathBuf, environment: &Environment) -> (r: IgnorePhase)
    ensures
        r@ == discovery_ignore::add_begins(absolute_of(target@, environment@), environment@),
{
    discovery_ignore::add(&absolute_target(target, environment), environment)
}

/// What comes of leaving a Target out of discovery.
pub open spec fn ignored(outcome: Result<(), DiscoveryIgnoreErrorView>) -> Result<
    Seq<char>,
    ApplicationErrorView,
> {
    match outcome {
        Ok(_) => Ok("target-ignored"@),
        Err(error) => Err(
            ApplicationErrorView::Operation {
                identifier: "ignore-failed"@,
                message: error.message(),
                resulting_registration: None,
            },
        ),
    }
}

/// What comes of leaving a Target out of discovery.
pub fn ignore_outcome(outcome: Result<(), DiscoveryIgnoreError>) -> (r: Result<
    String,
    ApplicationError,
>)
    ensures
        match ignored(discovery_ignore::unit_view(outcome)) {
            Ok(identifier) => r is Ok && r->Ok_0@ == identifier,
            Err(error) => r is Err && r->Err_0@ == error,
        },
{
    match outcome {
        Ok(_) => Ok("target-ignored".to_owned()),
        Err(error) => Err(
            ApplicationError::Operation {
                identifier: "ignore-failed",
                message: error.message(),
                resulting_registration: None,
            },
        ),
    }
}

/// A Registration is healthy exactly where its Target can be run and, if it is enabled, its link
/// leads there, or, if it is disabled, nothing lies at its managed path.
pub proof fn what_healthy_means(
    registration: RegistrationView,
    bin_dir: Seq<u8>,
    link: ObservationView,
    target: ObservationView,
)
    requires
        path::absolute(bin_dir),
        path::normalized(bin_dir) == bin_dir,
        registry::valid_name(registration.name),
    ensures
        (inspected(registration, bin_dir, link, target) matches Ok(state) && state.defect is None)
            <==> {
            &&& target.followed matches Ok(facts) && facts.is_executable_file()
            &&& if registration.enabled {
                link.entry == Ok::<EntryKind, IoErrorView>(EntryKind::SymbolicLink) && owns(
                    link,
                    registration.target,
                )
            } else {
                link.entry matches Err(source) && source.kind == IoErrorKind::NotFound
            }
        },
{
    a_valid_name_has_a_managed_link(bin_dir, registration.name);
}

/// A Target that is missing or cannot be run is what is reported, whatever the link is like.
pub proof fn the_target_comes_first(
    registration: RegistrationView,
    bin_dir: Seq<u8>,
    link: ObservationView,
    target: ObservationView,
)
    requires
        inspected(registration, bin_dir, link, target) is Ok,
    ensures
        ({
            let state = inspected(registration, bin_dir, link, target)->Ok_0;
            match target.followed {
                Err(_) => state.defect is Some && state.defect->0.kind
                    == RegistrationDefectKind::TargetMissing,
                Ok(facts) => facts.is_executable_file() || state.defect is Some
                    && state.defect->0.kind == RegistrationDefectKind::TargetNotExecutable,
            }
        }),
{
}

} // verus!
