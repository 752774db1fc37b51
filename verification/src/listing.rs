//! Listing every Registration, as a machine that the host drives. A missing Managed Link is absent
//! generated state and no conflict, so it is restored first, on what is observed under the
//! Registry lock.

use vstd::prelude::*;

use crate::application;
use crate::application::{ApplicationError, ApplicationErrorView};
use crate::configuration;
use crate::environment::{Environment, EnvironmentView};
use crate::host::{IoErrorKind, Observation};
use crate::lifecycle::{Event, EventView, Request, RequestView};
use crate::model::{
    ListResult,
    ListResultView,
    Registration,
    RegistrationDefectKind,
    RegistrationState,
    RegistrationStateView,
    RegistrationView,
};
use crate::path::PathBuf;
use crate::registry;
use crate::registry::{RegistryError, RegistryErrorView};
use crate::views;

verus! {

/// Why the Registrations are inspected: to see whether links are missing, to see which are missing
/// under the lock, or to report.
#[derive(Clone, Copy, Debug, PartialEq, Eq, Structural)]
pub enum Pass {
    First,
    Locked,
    Last,
}

/// Where a listing stands.
#[derive(Debug)]
pub enum ListPhase {
    Configuring,
    Reading { bin_dir: PathBuf, locked: bool },
    Inspecting {
        pass: Pass,
        bin_dir: PathBuf,
        link: PathBuf,
        registrations: Vec<Registration>,
        states: Vec<RegistrationState>,
    },
    CreatingRegistryDirectory { bin_dir: PathBuf },
    Locking { bin_dir: PathBuf },
    CreatingBinDirectory {
        bin_dir: PathBuf,
        registrations: Vec<Registration>,
        missing: Vec<RegistrationState>,
    },
    /// The last of the missing links is restored next.
    Linking {
        bin_dir: PathBuf,
        registrations: Vec<Registration>,
        target: PathBuf,
        link: PathBuf,
        missing: Vec<RegistrationState>,
    },
    Finished(Result<ListResult, ApplicationError>),
}

#[verifier::ext_equal]
pub enum ListPhaseView {
    Configuring,
    Reading { bin_dir: Seq<u8>, locked: bool },
    Inspecting {
        pass: Pass,
        bin_dir: Seq<u8>,
        link: Seq<u8>,
        registrations: Seq<RegistrationView>,
        states: Seq<RegistrationStateView>,
    },
    CreatingRegistryDirectory { bin_dir: Seq<u8> },
    Locking { bin_dir: Seq<u8> },
    CreatingBinDirectory {
        bin_dir: Seq<u8>,
        registrations: Seq<RegistrationView>,
        missing: Seq<RegistrationStateView>,
    },
    Linking {
        bin_dir: Seq<u8>,
        registrations: Seq<RegistrationView>,
        target: Seq<u8>,
        link: Seq<u8>,
        missing: Seq<RegistrationStateView>,
    },
    Finished(Result<ListResultView, ApplicationErrorView>),
}

impl View for ListPhase {
    type V = ListPhaseView;

    open spec fn view(&self) -> ListPhaseView {
        match *self {
            ListPhase::Configuring => ListPhaseView::Configuring,
            ListPhase::Reading { bin_dir, locked } => ListPhaseView::Reading {
                bin_dir: bin_dir@,
                locked,
            },
            ListPhase::Inspecting { pass, bin_dir, link, registrations, states } =>
                ListPhaseView::Inspecting {
                pass,
                bin_dir: bin_dir@,
                link: link@,
                registrations: views::views(registrations@),
                states: views::views(states@),
            },
            ListPhase::CreatingRegistryDirectory { bin_dir } =>
                ListPhaseView::CreatingRegistryDirectory { bin_dir: bin_dir@ },
            ListPhase::Locking { bin_dir } => ListPhaseView::Locking { bin_dir: bin_dir@ },
            ListPhase::CreatingBinDirectory { bin_dir, registrations, missing } =>
                ListPhaseView::CreatingBinDirectory {
                bin_dir: bin_dir@,
                registrations: views::views(registrations@),
                missing: views::views(missing@),
            },
            ListPhase::Linking { bin_dir, registrations, target, link, missing } =>
                ListPhaseView::Linking {
                bin_dir: bin_dir@,
                registrations: views::views(registrations@),
                target: target@,
                link: link@,
                missing: views::views(missing@),
            },
            ListPhase::Finished(outcome) => ListPhaseView::Finished(
                match outcome {
                    Ok(result) => Ok(result@),
                    Err(error) => Err(error@),
                },
            ),
        }
    }
}

/// The Managed Link of a Registration is missing.
pub open spec fn link_missing(state: RegistrationStateView) -> bool {
    state.defect matches Some(defect) && defect.kind == RegistrationDefectKind::LinkMissing
}

/// The states whose Managed Link is missing, the first one last.
pub open spec fn missing_links(states: Seq<RegistrationStateView>) -> Seq<RegistrationStateView>
    decreases states.len(),
{
    if states.len() == 0 {
        states
    } else {
        let rest = missing_links(states.drop_first());
        if link_missing(states[0]) {
            rest.push(states[0])
        } else {
            rest
        }
    }
}

pub open spec fn list_failed(error: ApplicationErrorView) -> ListPhaseView {
    ListPhaseView::Finished(Err(error))
}

/// On to the next Registration; after the last one the pass is over.
#[verifier::opaque]
pub open spec fn inspect_on(
    pass: Pass,
    bin_dir: Seq<u8>,
    registrations: Seq<RegistrationView>,
    states: Seq<RegistrationStateView>,
) -> ListPhaseView {
    if states.len() < registrations.len() {
        match application::managed_link_of(bin_dir, registrations[states.len() as int].name) {
            Err(error) => list_failed(error),
            Ok(link) => ListPhaseView::Inspecting { pass, bin_dir, link, registrations, states },
        }
    } else {
        match pass {
            Pass::First => if missing_links(states).len() == 0 {
                ListPhaseView::Finished(Ok(application::listed(states)))
            } else {
                ListPhaseView::CreatingRegistryDirectory { bin_dir }
            },
            Pass::Locked => if missing_links(states).len() == 0 {
                report(bin_dir, registrations)
            } else {
                ListPhaseView::CreatingBinDirectory {
                    bin_dir,
                    registrations,
                    missing: missing_links(states),
                }
            },
            Pass::Last => ListPhaseView::Finished(Ok(application::listed(states))),
        }
    }
}

/// The pass that reports what is there now.
pub open spec fn report(bin_dir: Seq<u8>, registrations: Seq<RegistrationView>) -> ListPhaseView {
    if registrations.len() == 0 {
        ListPhaseView::Finished(Ok(application::listed(Seq::empty())))
    } else {
        match application::managed_link_of(bin_dir, registrations[0].name) {
            Err(error) => list_failed(error),
            Ok(link) => ListPhaseView::Inspecting {
                pass: Pass::Last,
                bin_dir,
                link,
                registrations,
                states: Seq::empty(),
            },
        }
    }
}

/// On to the next missing link; after the last one comes the report.
pub open spec fn link_on(
    bin_dir: Seq<u8>,
    registrations: Seq<RegistrationView>,
    missing: Seq<RegistrationStateView>,
) -> ListPhaseView {
    if missing.len() == 0 {
        report(bin_dir, registrations)
    } else {
        ListPhaseView::Linking {
            bin_dir,
            registrations,
            target: missing.last().registration.target,
            link: missing.last().managed_link,
            missing: missing.drop_last(),
        }
    }
}

impl ListPhaseView {
    /// The next phase once the host has reported; a report that was not asked for changes nothing.
    pub open spec fn advance(self, event: EventView, environment: EnvironmentView) -> Self {
        match (self, event) {
            (
                ListPhaseView::Configuring,
                EventView::Configuration(read),
            ) => match configuration::loaded(environment, read) {
                Err(error) => list_failed(ApplicationErrorView::Configuration(error)),
                Ok(configuration) => ListPhaseView::Reading {
                    bin_dir: configuration.bin_dir,
                    locked: false,
                },
            },
            (
                ListPhaseView::Reading { bin_dir, locked },
                EventView::Registry(read),
            ) => match registry::loaded(environment, read) {
                Err(error) => list_failed(ApplicationErrorView::Registry(error)),
                Ok(registrations) => inspect_on(
                    if locked {
                        Pass::Locked
                    } else {
                        Pass::First
                    },
                    bin_dir,
                    registrations,
                    Seq::empty(),
                ),
            },
            (
                ListPhaseView::Inspecting { pass, bin_dir, registrations, states, .. },
                EventView::Observed(seen),
            ) => if seen.len() != 2 || states.len() >= registrations.len() {
                self
            } else {
                match application::inspected(
                    registrations[states.len() as int],
                    bin_dir,
                    seen[0],
                    seen[1],
                ) {
                    Err(error) => list_failed(error),
                    Ok(state) => inspect_on(pass, bin_dir, registrations, states.push(state)),
                }
            },
            (
                ListPhaseView::CreatingRegistryDirectory { bin_dir },
                EventView::Done(outcome),
            ) => match outcome {
                Ok(_) => ListPhaseView::Locking { bin_dir },
                Err(source) => list_failed(
                    ApplicationErrorView::Registry(
                        RegistryErrorView::CreateDirectory {
                            path: registry::registry_directory_of(environment),
                            source,
                        },
                    ),
                ),
            },
            (ListPhaseView::Locking { bin_dir }, EventView::Done(outcome)) => match outcome {
                Ok(_) => ListPhaseView::Reading { bin_dir, locked: true },
                Err(source) => list_failed(
                    ApplicationErrorView::Registry(
                        RegistryErrorView::Lock {
                            path: registry::lock_path_of(environment),
                            source,
                        },
                    ),
                ),
            },
            (
                ListPhaseView::CreatingBinDirectory { bin_dir, registrations, missing },
                EventView::Done(outcome),
            ) => match outcome {
                Ok(_) => link_on(bin_dir, registrations, missing),
                Err(source) => list_failed(
                    ApplicationErrorView::CreateManagedDirectory { path: bin_dir, source },
                ),
            },
            (
                ListPhaseView::Linking { bin_dir, registrations, link, missing, .. },
                EventView::Done(outcome),
            ) => match outcome {
                Ok(_) => link_on(bin_dir, registrations, missing),
                Err(source) => if source.kind == IoErrorKind::AlreadyExists {
                    link_on(bin_dir, registrations, missing)
                } else {
                    list_failed(ApplicationErrorView::CreateManagedLink { path: link, source })
                },
            },
            _ => self,
        }
    }

    /// What the host is to do next.
    pub open spec fn request(self, environment: EnvironmentView) -> RequestView {
        match self {
            ListPhaseView::Configuring => RequestView::ReadConfiguration(
                configuration::config_path_of(environment),
            ),
            ListPhaseView::Reading { .. } => RequestView::ReadRegistry(
                registry::registry_path_of(environment),
            ),
            ListPhaseView::Inspecting { link, registrations, states, .. } => RequestView::Observe(
                seq![link, registrations[states.len() as int].target],
            ),
            ListPhaseView::CreatingRegistryDirectory { .. } => RequestView::CreateDirectory(
                registry::registry_directory_of(environment),
            ),
            ListPhaseView::Locking { .. } => RequestView::Lock(registry::lock_path_of(environment)),
            ListPhaseView::CreatingBinDirectory { bin_dir, .. } => RequestView::CreateDirectory(
                bin_dir,
            ),
            ListPhaseView::Linking { target, link, .. } => RequestView::CreateLink {
                target,
                link,
                guarded: false,
            },
            ListPhaseView::Finished(_) => RequestView::Finish,
        }
    }
}

fn is_link_missing(state: &RegistrationState) -> (r: bool)
    ensures
        r == link_missing(state@),
{
    match &state.defect {
        Some(defect) => defect.kind == RegistrationDefectKind::LinkMissing,
        None => false,
    }
}

fn find_missing_links(states: &Vec<RegistrationState>) -> (r: Vec<RegistrationState>)
    ensures
        views::views(r@) == missing_links(views::views(states@)),
{
    let ghost all = views::views(states@);
    let mut r: Vec<RegistrationState> = Vec::new();
    let mut i: usize = states.len();
    assert(all.skip(all.len() as int).len() == 0);
    assert(views::views(r@) =~= missing_links(all.skip(all.len() as int)));
    while i > 0
        invariant
            i <= states@.len(),
            all == views::views(states@),
            views::views(r@) == missing_links(all.skip(i as int)),
        decreases i,
    {
        let ghost before = r@;
        let ghost t = all.skip(i - 1);
        assert(t[0] == states@[i - 1]@);
        assert(t.drop_first() =~= all.skip(i as int));
        if is_link_missing(&states[i - 1]) {
            r.push(states[i - 1].clone());
            assert(views::views(r@) =~= views::views(before).push(t[0]));
        }
        i = i - 1;
    }
    assert(all.skip(0) =~= all);
    r
}

fn start_report(bin_dir: PathBuf, registrations: Vec<Registration>) -> (r: ListPhase)
    ensures
        r@ == report(bin_dir@, views::views(registrations@)),
        r.wf(),
{
    let states: Vec<RegistrationState> = Vec::new();
    assert(views::views(states@) =~= Seq::empty());
    if registrations.len() == 0 {
        return ListPhase::Finished(Ok(application::list_result(states)));
    }
    match application::managed_link(&bin_dir, &registrations[0].name) {
        Err(error) => ListPhase::Finished(Err(error)),
        Ok(link) => ListPhase::Inspecting {
            pass: Pass::Last,
            bin_dir,
            link,
            registrations,
            states,
        },
    }
}

fn inspect_next(
    pass: Pass,
    bin_dir: PathBuf,
    registrations: Vec<Registration>,
    states: Vec<RegistrationState>,
) -> (r: ListPhase)
    ensures
        r@ == inspect_on(
            pass,
            bin_dir@,
            views::views(registrations@),
            views::views(states@),
        ),
        r.wf(),
{
    reveal(inspect_on);
    let n: usize = states.len();
    if n < registrations.len() {
        return match application::managed_link(&bin_dir, &registrations[n].name) {
            Err(error) => ListPhase::Finished(Err(error)),
            Ok(link) => ListPhase::Inspecting { pass, bin_dir, link, registrations, states },
        };
    }
    let missing = find_missing_links(&states);
    assert(views::views(missing@).len() == missing@.len());
    match pass {
        Pass::First => if missing.len() == 0 {
            ListPhase::Finished(Ok(application::list_result(states)))
        } else {
            ListPhase::CreatingRegistryDirectory { bin_dir }
        },
        Pass::Locked => if missing.len() == 0 {
            start_report(bin_dir, registrations)
        } else {
            ListPhase::CreatingBinDirectory { bin_dir, registrations, missing }
        },
        Pass::Last => ListPhase::Finished(Ok(application::list_result(states))),
    }
}

fn link_next(
    bin_dir: PathBuf,
    registrations: Vec<Registration>,
    missing: Vec<RegistrationState>,
) -> (r: ListPhase)
    ensures
        r@ == link_on(bin_dir@, views::views(registrations@), views::views(missing@)),
        r.wf(),
{
    let ghost all = views::views(missing@);
    let mut missing = missing;
    match missing.pop() {
        None => start_report(bin_dir, registrations),
        Some(state) => {
            assert(views::views(missing@) =~= all.drop_last());
            ListPhase::Linking {
                bin_dir,
                registrations,
                target: state.registration.target,
                link: state.managed_link,
                missing,
            }
        },
    }
}

/// Begins to list every Registration.
pub fn list() -> (r: ListPhase)
    ensures
        r@ == ListPhaseView::Configuring,
        r.wf(),
{
    ListPhase::Configuring
}

impl ListPhase {
    /// A Registration that is inspected is there.
    pub open spec fn wf(self) -> bool {
        self matches ListPhase::Inspecting { registrations, states, .. } ==> states@.len()
            < registrations@.len()
    }

    fn inspected(
        pass: Pass,
        bin_dir: PathBuf,
        registrations: Vec<Registration>,
        states: Vec<RegistrationState>,
        link: &Observation,
        target: &Observation,
    ) -> (r: Self)
        requires
            states@.len() < registrations@.len(),
        ensures
            r@ == (match application::inspected(
                views::views(registrations@)[states@.len() as int],
                bin_dir@,
                link@,
                target@,
            ) {
                Err(error) => list_failed(error),
                Ok(state) => inspect_on(
                    pass,
                    bin_dir@,
                    views::views(registrations@),
                    views::views(states@).push(state),
                ),
            }),
            r.wf(),
    {
        let n: usize = states.len();
        match application::inspect_registration(&registrations[n], &bin_dir, link, target) {
            Err(error) => ListPhase::Finished(Err(error)),
            Ok(state) => {
                let ghost before = views::views(states@);
                let mut states = states;
                states.push(state);
                assert(views::views(states@) =~= before.push(state@));
                inspect_next(pass, bin_dir, registrations, states)
            },
        }
    }

    /// The next phase once the host has reported; a report that was not asked for changes nothing.
    pub fn advance(self, event: Event, environment: &Environment) -> (r: Self)
        requires
            self.wf(),
        ensures
            r@ == self@.advance(event@, environment@),
            r.wf(),
    {
        match (self, event) {
            (ListPhase::Configuring, Event::Configuration(read)) => match configuration::load(
                environment,
                read,
            ) {
                Err(error) => ListPhase::Finished(Err(ApplicationError::Configuration(error))),
                Ok(configuration) => ListPhase::Reading {
                    bin_dir: configuration.bin_dir,
                    locked: false,
                },
            },
            (
                ListPhase::Reading { bin_dir, locked },
                Event::Registry(read),
            ) => match registry::load(environment, read) {
                Err(error) => ListPhase::Finished(Err(ApplicationError::Registry(error))),
                Ok(registrations) => {
                    let states: Vec<RegistrationState> = Vec::new();
                    assert(views::views(states@) =~= Seq::empty());
                    let pass = if locked {
                        Pass::Locked
                    } else {
                        Pass::First
                    };
                    inspect_next(pass, bin_dir, registrations, states)
                },
            },
            (
                ListPhase::Inspecting { pass, bin_dir, link, registrations, states },
                Event::Observed(seen),
            ) => if seen.len() != 2 {
                ListPhase::Inspecting { pass, bin_dir, link, registrations, states }
            } else {
                ListPhase::inspected(pass, bin_dir, registrations, states, &seen[0], &seen[1])
            },
            (
                ListPhase::CreatingRegistryDirectory { bin_dir },
                Event::Done(outcome),
            ) => match outcome {
                Ok(_) => ListPhase::Locking { bin_dir },
                Err(source) => ListPhase::Finished(
                    Err(
                        ApplicationError::Registry(
                            RegistryError::CreateDirectory {
                                path: registry::registry_directory(environment),
                                source,
                            },
                        ),
                    ),
                ),
            },
            (ListPhase::Locking { bin_dir }, Event::Done(outcome)) => match outcome {
                Ok(_) => ListPhase::Reading { bin_dir, locked: true },
                Err(source) => ListPhase::Finished(
                    Err(
                        ApplicationError::Registry(
                            RegistryError::Lock { path: registry::lock_path(environment), source },
                        ),
                    ),
                ),
            },
            (
                ListPhase::CreatingBinDirectory { bin_dir, registrations, missing },
                Event::Done(outcome),
            ) => match outcome {
                Ok(_) => link_next(bin_dir, registrations, missing),
                Err(source) => ListPhase::Finished(
                    Err(ApplicationError::CreateManagedDirectory { path: bin_dir, source }),
                ),
            },
            (
                ListPhase::Linking { bin_dir, registrations, link, missing, .. },
                Event::Done(outcome),
            ) => match outcome {
                Ok(_) => link_next(bin_dir, registrations, missing),
                Err(source) => if source.kind == IoErrorKind::AlreadyExists {
                    link_next(bin_dir, registrations, missing)
                } else {
                    ListPhase::Finished(
                        Err(ApplicationError::CreateManagedLink { path: link, source }),
                    )
                },
            },
            (phase, _) => phase,
        }
    }

    /// What the host is to do next.
    pub fn request(&self, environment: &Environment) -> (r: Request)
        requires
            self.wf(),
        ensures
            r@ == self@.request(environment@),
    {
        match self {
            ListPhase::Configuring => Request::ReadConfiguration(
                configuration::config_path(environment),
            ),
            ListPhase::Reading { .. } => Request::ReadRegistry(
                registry::registry_path(environment),
            ),
            ListPhase::Inspecting { link, registrations, states, .. } => {
                let mut paths: Vec<PathBuf> = Vec::new();
                paths.push(link.clone());
                paths.push(registrations[states.len()].target.clone());
                assert(views::views(paths@) =~= seq![
                    link@,
                    registrations@[states@.len() as int].target@,
                ]);
                Request::Observe(paths)
            },
            ListPhase::CreatingRegistryDirectory { .. } => Request::CreateDirectory(
                registry::registry_directory(environment),
            ),
            ListPhase::Locking { .. } => Request::Lock(registry::lock_path(environment)),
            ListPhase::CreatingBinDirectory { bin_dir, .. } => Request::CreateDirectory(
                bin_dir.clone(),
            ),
            ListPhase::Linking { target, link, .. } => Request::CreateLink {
                target: target.clone(),
                link: link.clone(),
                guarded: false,
            },
            ListPhase::Finished(_) => Request::Finish,
        }
    }

    /// The outcome of a listing that is over.
    pub fn outcome(self) -> (r: Option<Result<ListResult, ApplicationError>>)
        ensures
            match self@ {
                ListPhaseView::Finished(Ok(result)) => r is Some && r->0 is Ok && r->0->Ok_0@
                    == result,
                ListPhaseView::Finished(Err(error)) => r is Some && r->0 is Err && r->0->Err_0@
                    == error,
                _ => r is None,
            },
    {
        match self {
            ListPhase::Finished(outcome) => Some(outcome),
            _ => None,
        }
    }
}

/// A listing changes nothing but to restore links that it has just found missing, to the Targets
/// that they are registered for.
pub proof fn a_listing_only_restores_links(
    phase: ListPhaseView,
    event: EventView,
    environment: EnvironmentView,
)
    ensures
        phase.request(environment) !is RemoveLink,
        phase.request(environment) !is Write,
        phase.advance(event, environment).request(environment) is CreateLink ==> phase.request(
            environment,
        ) is CreateLink || phase is CreatingBinDirectory,
{
    reveal(inspect_on);
}

/// Every link that is restored belongs to a state whose defect is that its link is missing.
pub proof fn restored_links_were_missing(states: Seq<RegistrationStateView>, i: int)
    requires
        0 <= i < missing_links(states).len(),
    ensures
        link_missing(missing_links(states)[i]),
        states.contains(missing_links(states)[i]),
    decreases states.len(),
{
    let rest = missing_links(states.drop_first());
    if i < rest.len() {
        restored_links_were_missing(states.drop_first(), i);
        let j = choose|j: int|
            0 <= j < states.drop_first().len() && states.drop_first()[j] == rest[i];
        assert(states[j + 1] == rest[i]);
    } else {
        assert(states[0] == missing_links(states)[i]);
    }
}

} // verus!
