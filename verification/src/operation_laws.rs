//! What an operation on a Registration comes to on a host that does what it is asked: what the
//! Registry and the links are afterwards, and what is reported.

use vstd::prelude::*;
use vstd::utf8;

use crate::application;
use crate::application::{AddRequestView, ApplicationErrorView};
use crate::candidate_laws;
use crate::configuration;
use crate::configuration::ConfigFileView;
use crate::configuration_laws;
use crate::environment::EnvironmentView;
use crate::host::{EntryKind, FileReadView, IoErrorKind, IoErrorView, ObservationView};
use crate::lifecycle;
use crate::lifecycle::{
    ChangeView,
    EventView,
    FailureView,
    LifecycleView,
    PhaseView,
    PreparedView,
    ReportView,
    RequestView,
    SubjectView,
    TaskView,
};
use crate::lifecycle_laws;
use crate::model;
use crate::model::{LifecycleResultView, LifecycleStatus, RegistrationView};
use crate::order;
use crate::path;
use crate::registry;
use crate::registry::{RegistryErrorView, RegistryFileView};

verus! {

/// A machine: what its files read as, what is seen at each path, and the error where nothing is.
pub struct MachineView {
    pub configuration: FileReadView<ConfigFileView>,
    pub registry: FileReadView<RegistryFileView>,
    pub look: spec_fn(Seq<u8>) -> ObservationView,
    pub absence: IoErrorView,
}

impl MachineView {
    /// What the machine reports when it has done what it was asked.
    pub open spec fn answer(self, request: RequestView) -> EventView {
        match request {
            RequestView::ReadConfiguration(_) => EventView::Configuration(self.configuration),
            RequestView::ReadRegistry(_) => EventView::Registry(self.registry),
            RequestView::Observe(paths) => EventView::Observed(paths.map_values(self.look)),
            RequestView::ReadLink { link, .. } => EventView::LinkRead(Ok((self.look)(link).link)),
            RequestView::Write(_) => EventView::Written(Ok(()), Seq::empty()),
            RequestView::Synchronize(_) => EventView::Synchronized(Ok(())),
            _ => EventView::Done(Ok(())),
        }
    }

    /// The machine with a link.
    pub open spec fn linked(self, link: Seq<u8>, target: Seq<u8>) -> Self {
        MachineView {
            look: |p: Seq<u8>|
                if p == link {
                    ObservationView {
                        entry: Ok(EntryKind::SymbolicLink),
                        link: Some(target),
                        followed: (self.look)(target).followed,
                    }
                } else {
                    (self.look)(p)
                },
            ..self
        }
    }

    /// The machine with nothing at a path.
    pub open spec fn unlinked(self, link: Seq<u8>) -> Self {
        MachineView {
            look: |p: Seq<u8>|
                if p == link {
                    ObservationView {
                        entry: Err(self.absence),
                        link: None,
                        followed: Err(self.absence),
                    }
                } else {
                    (self.look)(p)
                },
            ..self
        }
    }

    /// The machine once it has done what it was asked.
    pub open spec fn after(self, request: RequestView) -> Self {
        match request {
            RequestView::Write(file) => MachineView { registry: FileReadView::Parsed(file), ..self },
            RequestView::CreateLink { target, link, .. } => self.linked(link, target),
            RequestView::RemoveLink(link) => self.unlinked(link),
            _ => self,
        }
    }

    /// What is seen is possible: only a symbolic link has a text, and where nothing is seen, nothing
    /// is there.
    pub open spec fn plain(self, p: Seq<u8>) -> bool {
        &&& (self.look)(p).link is Some ==> (self.look)(p).entry == Ok::<EntryKind, IoErrorView>(
            EntryKind::SymbolicLink,
        )
        &&& (self.look)(p).entry matches Err(source) ==> source.kind == IoErrorKind::NotFound
        &&& (self.look)(p).followed matches Err(source) ==> source.kind == IoErrorKind::NotFound
    }

    /// Nothing is at a path.
    pub open spec fn lacks(self, p: Seq<u8>) -> bool {
        (self.look)(p).entry is Err
    }

    /// A link at a path leads to a Target.
    pub open spec fn links(self, p: Seq<u8>, target: Seq<u8>) -> bool {
        &&& (self.look)(p).entry == Ok::<EntryKind, IoErrorView>(EntryKind::SymbolicLink)
        &&& (self.look)(p).link matches Some(text) && path::components(text) == path::components(
            target,
        )
    }

    /// What lies at a path is an executable file.
    pub open spec fn runs(self, p: Seq<u8>) -> bool {
        (self.look)(p).followed matches Ok(facts) && facts.is_file && facts.mode & 0o111 != 0
    }
}

/// Two machines differ at some paths at most, and in their Registries.
pub open spec fn differ_at(a: MachineView, b: MachineView, paths: Set<Seq<u8>>) -> bool {
    &&& a.configuration == b.configuration
    &&& a.absence == b.absence
    &&& forall|p: Seq<u8>| !paths.contains(p) ==> #[trigger] (a.look)(p) == (b.look)(p)
}

/// An operation and the machine that it runs on.
pub struct RunView {
    pub state: LifecycleView,
    pub machine: MachineView,
}

impl RunView {
    pub open spec fn step(self, environment: EnvironmentView) -> Self {
        let request = self.state.request(environment);
        RunView {
            state: self.state.advance(self.machine.answer(request), environment),
            machine: self.machine.after(request),
        }
    }

    /// Where a run has come to after some requests.
    pub open spec fn reached(self, requests: nat, environment: EnvironmentView) -> Self
        decreases requests,
    {
        if requests == 0 {
            self
        } else {
            self.step(environment).reached((requests - 1) as nat, environment)
        }
    }
}

/// As many requests as any operation makes.
pub open spec fn enough() -> nat {
    20
}

/// How a run ends.
pub open spec fn end_of(run: RunView, environment: EnvironmentView) -> RunView {
    run.reached(enough(), environment)
}

/// A run that has ended with a result, and left the machine as this one.
pub open spec fn ends_with(
    run: RunView,
    environment: EnvironmentView,
    result: LifecycleResultView,
    machine: MachineView,
) -> bool {
    &&& end_of(run, environment).state.phase == PhaseView::Finished(Ok(result))
    &&& end_of(run, environment).machine == machine
}

/// A run that has failed, and left the machine as it was.
pub open spec fn fails(run: RunView, environment: EnvironmentView) -> bool {
    &&& end_of(run, environment).state.phase matches PhaseView::Finished(Err(_))
    &&& end_of(run, environment).machine == run.machine
}

/// A run goes on from where it has come to.
pub proof fn reached_in_parts(run: RunView, first: nat, second: nat, environment: EnvironmentView)
    ensures
        run.reached(first + second, environment) == run.reached(first, environment).reached(
            second,
            environment,
        ),
    decreases first,
{
    if first > 0 {
        reached_in_parts(run.step(environment), (first - 1) as nat, second, environment);
    }
}

/// A run takes one step more.
pub proof fn one_more(run: RunView, requests: nat, environment: EnvironmentView)
    ensures
        run.reached(requests + 1, environment) == run.reached(requests, environment).step(
            environment,
        ),
{
    reached_in_parts(run, requests, 1, environment);
    let at = run.reached(requests, environment);
    assert(at.reached(1, environment) == at.step(environment).reached(0, environment));
}

proof fn an_end_stays(run: RunView, requests: nat, environment: EnvironmentView)
    requires
        run.state.phase is Finished,
    ensures
        run.reached(requests, environment) == run,
    decreases requests,
{
    if requests > 0 {
        reveal(LifecycleView::on_done);
        assert(run.step(environment) == run);
        an_end_stays(run, (requests - 1) as nat, environment);
    }
}

/// A run that has ended has ended as it will be.
pub proof fn ends_early(run: RunView, requests: nat, environment: EnvironmentView)
    requires
        requests <= enough(),
        run.reached(requests, environment).state.phase is Finished,
    ensures
        end_of(run, environment) == run.reached(requests, environment),
{
    let rest = (enough() - requests) as nat;
    reached_in_parts(run, requests, rest, environment);
    an_end_stays(run.reached(requests, environment), rest, environment);
}

/// Looking a failure up ends, and changes nothing.
proof fn looking_up_ends(
    state: LifecycleView,
    failure: FailureView,
    message: Seq<char>,
    bin_dir: Seq<u8>,
    next: int,
    registrations: Seq<RegistrationView>,
    machine: MachineView,
    environment: EnvironmentView,
) -> (requests: nat)
    requires
        state.failure == Some(failure),
        0 <= next <= failure.names.len(),
    ensures
        requests <= failure.names.len() - next,
        ({
            let run = RunView {
                state: state.look_up(failure, message, bin_dir, next, registrations),
                machine,
            };
            &&& run.reached(requests, environment).state.phase matches PhaseView::Finished(Err(_))
            &&& run.reached(requests, environment).machine == machine
        }),
    decreases failure.names.len() - next,
{
    reveal(LifecycleView::mutation_failed);
    if next >= failure.names.len() {
        0
    } else {
        match (
            registry::position_of(registrations, failure.names[next]),
            application::managed_link_of(bin_dir, failure.names[next]),
        ) {
            (Some(at), Ok(link)) => {
                let run = RunView {
                    state: state.look_up(failure, message, bin_dir, next, registrations),
                    machine,
                };
                reveal(LifecycleView::on_observed);
                reveal(LifecycleView::failure_inspected);
                let paths = seq![link, registrations[at].target];
                let seen = paths.map_values(machine.look);
                assert(seen.len() == 2);
                let base = state.at(PhaseView::Configuring);
                let after = run.step(environment);
                match application::inspected(registrations[at], bin_dir, seen[0], seen[1]) {
                    Ok(_) => {
                        assert(run.reached(1, environment) == after.reached(0, environment));
                        1
                    },
                    Err(_) => {
                        let rest = looking_up_ends(
                            base,
                            failure,
                            message,
                            bin_dir,
                            next + 1,
                            registrations,
                            machine,
                            environment,
                        );
                        assert(after.state == base.look_up(
                            failure,
                            message,
                            bin_dir,
                            next + 1,
                            registrations,
                        ));
                        assert(run.reached(rest + 1, environment) == after.reached(
                            rest,
                            environment,
                        ));
                        rest + 1
                    },
                }
            },
            _ => looking_up_ends(
                state,
                failure,
                message,
                bin_dir,
                next + 1,
                registrations,
                machine,
                environment,
            ),
        }
    }
}

/// A failure is reported as one, and changes nothing.
proof fn a_failure_ends(
    state: LifecycleView,
    error: ApplicationErrorView,
    machine: MachineView,
    environment: EnvironmentView,
) -> (requests: nat)
    requires
        state.failure matches Some(failure) ==> failure.names.len() <= 2,
    ensures
        requests <= 5,
        ({
            let run = RunView { state: state.fail(error), machine };
            &&& run.reached(requests, environment).state.phase matches PhaseView::Finished(Err(_))
            &&& run.reached(requests, environment).machine == machine
        }),
{
    reveal(LifecycleView::fail);
    reveal(LifecycleView::mutation_failed);
    let run = RunView { state: state.fail(error), machine };
    match state.failure {
        None => 0,
        Some(failure) => if failure.names.len() == 0 {
            0
        } else {
            reveal(LifecycleView::on_configuration);
            reveal(LifecycleView::failure_configured);
            let one = run.step(environment);
            assert(run.reached(1, environment) == one.reached(0, environment));
            match configuration::loaded(environment, machine.configuration) {
                Err(_) => 1,
                Ok(_) => {
                    let looked = if state.task is Rename {
                        reveal(LifecycleView::on_observed);
                        let two = one.step(environment);
                        assert(one.state.phase is FailureObserving);
                        let paths = seq![
                            one.state.phase->FailureObserving_old,
                            one.state.phase->FailureObserving_new,
                        ];
                        assert(paths.map_values(machine.look).len() == 2);
                        one_more(run, 1, environment);
                        two
                    } else {
                        one
                    };
                    let n: nat = if state.task is Rename {
                        2
                    } else {
                        1
                    };
                    assert(run.reached(n, environment) == looked);
                    assert(looked.state.phase is FailureReading);
                    assert(looked.machine == machine);
                    assert(looked.state.failure == Some(failure));
                    reveal(LifecycleView::on_registry);
                    reveal(LifecycleView::failure_read);
                    let read = looked.step(environment);
                    one_more(run, n, environment);
                    match registry::loaded(environment, machine.registry) {
                        Err(_) => n + 1,
                        Ok(registrations) => {
                            let base = looked.state.at(PhaseView::Configuring);
                            let message = looked.state.phase->FailureReading_message;
                            let bin_dir = looked.state.phase->FailureReading_bin_dir;
                            let rest = looking_up_ends(
                                base,
                                failure,
                                message,
                                bin_dir,
                                0,
                                registrations,
                                machine,
                                environment,
                            );
                            reached_in_parts(run, n + 1, rest, environment);
                            n + 1 + rest
                        },
                    }
                },
            }
        },
    }
}

/// A run that comes to a failure fails.
proof fn comes_to_a_failure(
    run: RunView,
    requests: nat,
    state: LifecycleView,
    error: ApplicationErrorView,
    environment: EnvironmentView,
)
    requires
        requests <= 15,
        run.reached(requests, environment) == (RunView {
            state: state.fail(error),
            machine: run.machine,
        }),
        state.failure matches Some(failure) ==> failure.names.len() <= 2,
    ensures
        fails(run, environment),
{
    let rest = a_failure_ends(state, error, run.machine, environment);
    reached_in_parts(run, requests, rest, environment);
    ends_early(run, requests + rest, environment);
}

/// The machine once a change has been made to its links.
pub open spec fn relinked(machine: MachineView, change: ChangeView) -> MachineView {
    let made = match change.create {
        Some(link) => machine.linked(link, change.target),
        None => machine,
    };
    match change.remove {
        Some(removal) => made.unlinked(removal.link),
        None => made,
    }
}

/// A change is made: the links, then the Registry.
proof fn a_change_is_made(
    state: LifecycleView,
    change: ChangeView,
    machine: MachineView,
    file: RegistryFileView,
    environment: EnvironmentView,
) -> (requests: nat)
    requires
        registry::stored(change.registrations, environment) == Ok::<
            RegistryFileView,
            RegistryErrorView,
        >(file),
        change.remove matches Some(removal) ==> (change.create == Some(removal.link)
            ==> change.target == removal.text) && (change.create != Some(removal.link) ==> ((
        machine.look)(removal.link).link matches Some(text) && path::components(text)
            == path::components(removal.text))),
    ensures
        requests <= 6,
        (RunView { state: state.change(change, environment), machine }).reached(
            requests,
            environment,
        ) == (RunView {
            state: state.at(PhaseView::Configuring).synchronized(change, Ok(())),
            machine: MachineView {
                registry: FileReadView::Parsed(file),
                ..relinked(machine, change)
            },
        }),
{
    let start = RunView { state: state.change(change, environment), machine };
    reveal(LifecycleView::change);
    reveal(LifecycleView::remove_link);
    reveal(LifecycleView::write);
    reveal(LifecycleView::on_done);
    reveal(LifecycleView::on_link_read);
    reveal(LifecycleView::link_checked);
    reveal(LifecycleView::written);
    let base = state.at(PhaseView::Configuring);
    let made = match change.create {
        Some(link) => machine.linked(link, change.target),
        None => machine,
    };
    let n: nat = if change.create is Some {
        2
    } else {
        0
    };
    let removing = RunView {
        state: if change.create is Some {
            base.remove_link(change, environment)
        } else {
            state.remove_link(change, environment)
        },
        machine: made,
    };
    if let Some(link) = change.create {
        let one = start.step(environment);
        let two = one.step(environment);
        assert(one.state == base.at(PhaseView::CreatingLink { link, change }));
        assert(two == removing);
        assert(start.reached(2, environment) == one.reached(1, environment));
        assert(one.reached(1, environment) == two.reached(0, environment));
    } else {
        assert(start == removing);
    }
    assert(start.reached(n, environment) == removing);
    let m: nat = if change.remove is Some {
        2
    } else {
        0
    };
    let writing = RunView {
        state: state.at(PhaseView::Writing { file, change }),
        machine: relinked(machine, change),
    };
    if let Some(removal) = change.remove {
        let one = removing.step(environment);
        let two = one.step(environment);
        assert(one.state == base.at(PhaseView::RemovingLink { removal, change }));
        assert(two == writing);
        assert(removing.reached(2, environment) == one.reached(1, environment));
        assert(one.reached(1, environment) == two.reached(0, environment));
    } else {
        assert(removing == writing);
    }
    assert(removing.reached(m, environment) == writing);
    reached_in_parts(start, n, m, environment);
    let one = writing.step(environment);
    let two = one.step(environment);
    assert(one.state == base.at(PhaseView::Synchronizing { change }));
    assert(two.state == base.synchronized(change, Ok(())));
    one_more(start, n + m, environment);
    one_more(start, n + m + 1, environment);
    n + m + 2
}

/// A Registration that was changed is reported as it is now.
proof fn a_change_is_reported(
    run: RunView,
    requests: nat,
    state: LifecycleView,
    change: ChangeView,
    registration: RegistrationView,
    link: Seq<u8>,
    environment: EnvironmentView,
)
    requires
        requests <= 15,
        state.phase is Configuring,
        run.reached(requests, environment).state == state.synchronized(change, Ok(())),
        change.report matches ReportView::Changed { registration: changed, .. } && changed
            == registration || change.report == ReportView::Added(registration),
        application::managed_link_of(change.bin_dir, registration.name) == Ok::<
            Seq<u8>,
            ApplicationErrorView,
        >(link),
        ({
            let machine = run.reached(requests, environment).machine;
            application::inspected(
                registration,
                change.bin_dir,
                (machine.look)(link),
                (machine.look)(registration.target),
            ) is Ok
        }),
    ensures
        ({
            let machine = run.reached(requests, environment).machine;
            let inspected = application::inspected(
                registration,
                change.bin_dir,
                (machine.look)(link),
                (machine.look)(registration.target),
            )->Ok_0;
            ends_with(
                run,
                environment,
                match change.report {
                    ReportView::Changed { identifier, .. } => application::reported(
                        identifier,
                        inspected,
                    ),
                    _ => LifecycleResultView {
                        status: LifecycleStatus::Healthy,
                        identifier: "registration-added"@,
                        registration: Some(inspected),
                        conflict: None,
                    },
                },
                machine,
            )
        }),
{
    reveal(LifecycleView::synchronized);
    reveal(LifecycleView::report);
    reveal(LifecycleView::on_observed);
    reveal(LifecycleView::report_observed);
    let at = run.reached(requests, environment);
    assert(at.state.phase == (PhaseView::Reporting {
        bin_dir: change.bin_dir,
        link,
        report: change.report,
    }));
    let paths = seq![link, registration.target];
    let seen = paths.map_values(at.machine.look);
    assert(seen.len() == 2 && seen[0] == (at.machine.look)(link) && seen[1] == (at.machine.look)(
        registration.target,
    ));
    one_more(run, requests, environment);
    ends_early(run, requests + 1, environment);
}

/// An operation on a named Registration.
pub open spec fn operation(task: TaskView, identifier: Seq<char>, names: Seq<Seq<char>>) -> LifecycleView {
    LifecycleView {
        task,
        failure: Some(FailureView { identifier, names }),
        phase: PhaseView::Configuring,
    }
}

/// An operation on a named Registration reads the configuration and, under the lock, the Registry,
/// before anything else.
proof fn an_operation_reads(
    task: TaskView,
    identifier: Seq<char>,
    names: Seq<Seq<char>>,
    machine: MachineView,
    bin_dir: Seq<u8>,
    registrations: Seq<RegistrationView>,
    environment: EnvironmentView,
)
    requires
        task is SetEnabled || task is Remove || task is Rename,
        configuration::loaded(environment, machine.configuration) matches Ok(configuration)
            && configuration.bin_dir == bin_dir,
        registry::loaded(environment, machine.registry) == Ok::<
            Seq<RegistrationView>,
            RegistryErrorView,
        >(registrations),
    ensures
        (RunView { state: operation(task, identifier, names), machine }).reached(4, environment)
            == (RunView {
            state: operation(task, identifier, names).registry_read(bin_dir, registrations),
            machine,
        }),
{
    reveal(LifecycleView::on_configuration);
    reveal(LifecycleView::configured);
    reveal(LifecycleView::on_done);
    reveal(LifecycleView::on_registry);
    let run = RunView { state: operation(task, identifier, names), machine };
    let one = run.step(environment);
    let two = one.step(environment);
    let three = two.step(environment);
    let four = three.step(environment);
    assert(one.state.phase == (PhaseView::CreatingRegistryDirectory { bin_dir }));
    assert(two.state.phase == (PhaseView::Locking { bin_dir }));
    assert(three.state.phase == (PhaseView::ReadingRegistry { bin_dir }));
    assert(four.state == operation(task, identifier, names).registry_read(bin_dir, registrations));
    assert(run.reached(4, environment) == one.reached(3, environment));
    assert(one.reached(3, environment) == two.reached(2, environment));
    assert(two.reached(2, environment) == three.reached(1, environment));
    assert(three.reached(1, environment) == four.reached(0, environment));
}

/// The managed path of a name: it lies in the managed directory under that name.
pub open spec fn managed(bin_dir: Seq<u8>, name: Seq<char>) -> Seq<u8> {
    path::joined(bin_dir, utf8::encode_utf8(name))
}

/// A valid name has its Managed Link where it is expected, in a managed directory that was
/// configured.
pub proof fn where_a_managed_link_lies(bin_dir: Seq<u8>, name: Seq<char>)
    requires
        registry::valid_name(name),
        path::absolute(bin_dir),
        path::normalized(bin_dir) == bin_dir,
    ensures
        application::managed_link_of(bin_dir, name) == Ok::<Seq<u8>, ApplicationErrorView>(
            managed(bin_dir, name),
        ),
{
    reveal(application::managed_link_of);
    application::a_valid_name_has_a_managed_link(bin_dir, name);
    registry::valid_name_is_clean(name);
    let bytes = utf8::encode_utf8(name);
    let ns = path::names(bin_dir);
    assert(!path::absolute(bytes));
    path::names_of_clean_name(bytes);
    path::names_of_joined(bin_dir, bytes);
    path::lead_of_joined(bin_dir, bytes);
    path::names_of_normalized(bin_dir);
    path::names_are_clean(bin_dir);
    let all = ns + seq![bytes];
    assert forall|i: int| 0 <= i < all.len() implies #[trigger] all[i] != path::parent_name() by {
        if i < ns.len() {
            assert(all[i] == path::names(path::normalized(bin_dir))[i]);
        }
    }
    path::resolved_without_parents(all);
    path::resolved_without_parents(ns);
    let link = path::joined(bin_dir, bytes);
    assert(path::names(link) =~= all);
    assert(path::normalized(link) == seq![47u8] + path::rendered_names(all));
    assert(path::rendered_names(seq![bytes]) == bytes);
    if ns.len() > 0 {
        path::rendered_names_of_appended(ns, seq![bytes]);
        let body = path::rendered_names(ns);
        assert(bin_dir =~= seq![47u8] + body);
        path::rendered_names_end_with_a_name(ns);
        assert(bin_dir.last() == body.last());
        assert(path::joined(bin_dir, bytes) =~= seq![47u8] + (body + seq![47u8] + bytes));
    } else {
        assert(all =~= seq![bytes]);
        assert(bin_dir =~= seq![47u8]);
        assert(path::joined(bin_dir, bytes) =~= seq![47u8] + bytes);
    }
}

/// The machine holds this Registry, and keeps its Managed Links in this directory; what it holds can
/// be written down.
pub open spec fn holds(
    machine: MachineView,
    bin_dir: Seq<u8>,
    registrations: Seq<RegistrationView>,
    environment: EnvironmentView,
) -> bool {
    &&& configuration::loaded(environment, machine.configuration) matches Ok(configuration)
        && configuration.bin_dir == bin_dir
    &&& registry::loaded(environment, machine.registry) == Ok::<
        Seq<RegistrationView>,
        RegistryErrorView,
    >(registrations)
    &&& forall|i: int|
        0 <= i < registrations.len() ==> registry::spellable(
            (#[trigger] registrations[i]).target,
            environment.home,
        )
    &&& machine.absence.kind == IoErrorKind::NotFound
}

/// What a machine holds is sound.
pub proof fn what_a_machine_holds(
    machine: MachineView,
    bin_dir: Seq<u8>,
    registrations: Seq<RegistrationView>,
    environment: EnvironmentView,
)
    requires
        holds(machine, bin_dir, registrations, environment),
    ensures
        path::absolute(bin_dir),
        path::normalized(bin_dir) == bin_dir,
        registry::sound(registrations),
{
    configuration_laws::configured_paths_are_absolute(environment, machine.configuration);
    registry::a_loaded_registry_is_sound(environment, machine.registry);
}

/// The one Registration with a name is where it is looked for.
proof fn the_position_of_a_name(registrations: Seq<RegistrationView>, at: int)
    requires
        registry::sound(registrations),
        0 <= at < registrations.len(),
    ensures
        registry::position_of(registrations, registrations[at].name) == Some(at),
{
    registry::position_is_first(registrations, registrations[at].name);
    assert(registry::registered(registrations, registrations[at].name));
    let found = registry::position_of(registrations, registrations[at].name)->0;
    if found < at {
        assert(registrations[found].name != registrations[at].name);
    }
    if at < found {
        assert(registrations[at].name != registrations[found].name);
    }
}

/// A look at a Registration and its managed path always tells its state, on a machine where what is
/// seen is possible.
pub proof fn a_state_is_told(
    registration: RegistrationView,
    bin_dir: Seq<u8>,
    link: ObservationView,
    target: ObservationView,
)
    requires
        path::absolute(bin_dir),
        path::normalized(bin_dir) == bin_dir,
        registry::valid_name(registration.name),
        link.entry matches Err(source) ==> source.kind == IoErrorKind::NotFound,
        link.followed matches Err(source) ==> source.kind == IoErrorKind::NotFound,
        target.followed matches Err(source) ==> source.kind == IoErrorKind::NotFound,
    ensures
        application::inspected(registration, bin_dir, link, target) matches Ok(state)
            && state.registration == registration,
{
    application::a_valid_name_has_a_managed_link(bin_dir, registration.name);
}

/// The Registration that has a name is enabled or disabled. Where its managed path is free or holds
/// its own link, the Registry holds it in that state afterwards, with no other Registration changed;
/// it has its link exactly if it is enabled, and nothing else has changed on the machine. A broken
/// link of another text is taken away with a Registration that gets disabled. Anything else at the
/// managed path is left alone: the operation is refused, and nothing changes. Nor does anything
/// change where what is to be enabled is there but cannot be run.
pub proof fn enabling_from_beginning_to_end(
    machine: MachineView,
    bin_dir: Seq<u8>,
    registrations: Seq<RegistrationView>,
    at: int,
    enabled: bool,
    identifier: Seq<char>,
    environment: EnvironmentView,
)
    requires
        holds(machine, bin_dir, registrations, environment),
        0 <= at < registrations.len(),
        machine.plain(managed(bin_dir, registrations[at].name)),
        machine.plain(registrations[at].target),
        registrations[at].target != managed(bin_dir, registrations[at].name),
    ensures
        ({
            let name = registrations[at].name;
            let target = registrations[at].target;
            let link = managed(bin_dir, name);
            let run = RunView {
                state: operation(
                    TaskView::SetEnabled { name, enabled },
                    identifier,
                    seq![name],
                ),
                machine,
            };
            let after = end_of(run, environment).machine;
            let owned = machine.links(link, target);
            let broken = !enabled && registrations[at].enabled && (machine.look)(link).entry
                == Ok::<EntryKind, IoErrorView>(EntryKind::SymbolicLink) && (machine.look)(
                link,
            ).link is Some && (machine.look)(link).followed is Err;
            if !machine.lacks(link) && !owned && !broken {
                exists|result: LifecycleResultView|
                    {
                        &&& #[trigger] ends_with(run, environment, result, machine)
                        &&& result.status == LifecycleStatus::Blocked
                        &&& result.identifier == "managed-path-conflict"@
                        &&& result.registration matches Some(state) && state.registration
                            == registrations[at]
                    }
            } else if enabled && !(registrations[at].enabled && owned) && (machine.look)(
                target,
            ).followed is Ok && !machine.runs(target) {
                fails(run, environment)
            } else {
                &&& exists|result: LifecycleResultView|
                    {
                        &&& #[trigger] ends_with(run, environment, result, after)
                        &&& result.identifier == if enabled {
                            "registration-enabled"@
                        } else {
                            "registration-disabled"@
                        }
                        &&& result.registration matches Some(state) && state.registration == (
                        RegistrationView { enabled, ..registrations[at] })
                        &&& result.conflict is None
                        &&& result.status == LifecycleStatus::Healthy <==> machine.runs(target)
                    }
                &&& registry::loaded(environment, after.registry) == Ok::<
                    Seq<RegistrationView>,
                    RegistryErrorView,
                >(registrations.update(at, RegistrationView { enabled, ..registrations[at] }))
                &&& differ_at(machine, after, set![link])
                &&& enabled ==> after.links(link, target)
                &&& !enabled ==> after.lacks(link)
            }
        }),
{
    what_a_machine_holds(machine, bin_dir, registrations, environment);
    let registration = registrations[at];
    let name = registration.name;
    let target = registration.target;
    let link = managed(bin_dir, name);
    where_a_managed_link_lies(bin_dir, name);
    the_position_of_a_name(registrations, at);
    let task = TaskView::SetEnabled { name, enabled };
    let start = operation(task, identifier, seq![name]);
    let run = RunView { state: start, machine };
    an_operation_reads(
        task,
        identifier,
        seq![name],
        machine,
        bin_dir,
        registrations,
        environment,
    );
    reveal(LifecycleView::registry_read);
    reveal(LifecycleView::existing);
    reveal(LifecycleView::on_observed);
    reveal(LifecycleView::examined);
    reveal(LifecycleView::enabling_examined);
    let four = run.reached(4, environment);
    let subject = SubjectView::Existing { at, link };
    assert(four.state.phase == (PhaseView::Examining { bin_dir, subject, registrations }));
    let seen = seq![link, target].map_values(machine.look);
    let link_seen = (machine.look)(link);
    let target_seen = (machine.look)(target);
    assert(seen.len() == 2 && seen[0] == link_seen && seen[1] == target_seen);
    let five = four.step(environment);
    one_more(run, 4, environment);
    assert(five.state == start.enabling_examined(
        enabled,
        bin_dir,
        at,
        link,
        registrations,
        link_seen,
        target_seen,
        environment,
    ));
    assert(five.machine == machine);
    a_state_is_told(registration, bin_dir, link_seen, target_seen);
    let told = application::inspected(registration, bin_dir, link_seen, target_seen)->Ok_0;
    let owned = machine.links(link, target);
    let broken = lifecycle::removable_broken_link(registration, enabled, link_seen);
    assert(owned == application::owns(link_seen, target));
    if !machine.lacks(link) && !owned && !broken {
        ends_early(run, 5, environment);
        let result = application::refused("managed-path-conflict"@, told);
        assert(ends_with(run, environment, result, machine));
    } else if registration.enabled == enabled && (if enabled {
        owned
    } else {
        machine.lacks(link)
    }) {
        ends_early(run, 5, environment);
        let result = application::reported(lifecycle::enabled_identifier(enabled), told);
        assert(ends_with(run, environment, result, machine));
        assert(registrations.update(at, RegistrationView { enabled, ..registrations[at] })
            =~= registrations);
        application::what_healthy_means(registration, bin_dir, link_seen, target_seen);
    } else if enabled && (machine.look)(target).followed is Ok && !machine.runs(target) {
        let error = application::checked_target(target, target_seen, true)->Err_0;
        assert(five == (RunView { state: start.fail(error), machine }));
        comes_to_a_failure(run, 5, start, error, environment);
    } else {
        assert(utf8::valid_utf8(target)) by {
            assert(registry::spellable(registrations[at].target, environment.home));
        }
        let change = lifecycle::enabling_change(
            bin_dir,
            registrations,
            at,
            enabled,
            link,
            link_seen,
        );
        let updated = RegistrationView { enabled, ..registration };
        assert(five.state == start.change(change, environment));
        let changed = registrations.update(at, updated);
        lifecycle_laws::enabling_keeps_the_registry_sound(
            bin_dir,
            registrations,
            at,
            enabled,
            link,
            link_seen,
        );
        assert forall|i: int| 0 <= i < changed.len() implies registry::spellable(
            (#[trigger] changed[i]).target,
            environment.home,
        ) by {
            assert(registry::spellable(registrations[i].target, environment.home));
        }
        registry::a_stored_registry_reads_back(changed, environment);
        let file = registry::stored(changed, environment)->Ok_0;
        let n = a_change_is_made(start, change, machine, file, environment);
        reached_in_parts(run, 5, n, environment);
        let made = run.reached(5 + n, environment).machine;
        a_state_is_told(updated, bin_dir, (made.look)(link), (made.look)(target));
        a_change_is_reported(run, 5 + n, start, change, updated, link, environment);
        let inspected = application::inspected(
            updated,
            bin_dir,
            (made.look)(link),
            (made.look)(target),
        )->Ok_0;
        let result = application::reported(lifecycle::enabled_identifier(enabled), inspected);
        assert(ends_with(run, environment, result, made));
        application::what_healthy_means(updated, bin_dir, (made.look)(link), (made.look)(target));
        assert(differ_at(machine, made, set![link]));
    }
}

/// An operation on a name that no Registration has fails, and changes nothing.
pub proof fn an_unknown_name_is_refused(
    machine: MachineView,
    bin_dir: Seq<u8>,
    registrations: Seq<RegistrationView>,
    name: Seq<char>,
    new_name: Seq<char>,
    enabled: bool,
    identifier: Seq<char>,
    environment: EnvironmentView,
)
    requires
        holds(machine, bin_dir, registrations, environment),
        forall|i: int| 0 <= i < registrations.len() ==> (#[trigger] registrations[i]).name != name,
    ensures
        fails(
            RunView {
                state: operation(TaskView::SetEnabled { name, enabled }, identifier, seq![name]),
                machine,
            },
            environment,
        ),
        fails(
            RunView {
                state: operation(TaskView::Remove { name }, identifier, seq![name]),
                machine,
            },
            environment,
        ),
        fails(
            RunView {
                state: operation(
                    TaskView::Rename { name, new_name },
                    identifier,
                    seq![new_name, name],
                ),
                machine,
            },
            environment,
        ),
{
    reveal(LifecycleView::registry_read);
    reveal(LifecycleView::existing);
    reveal(LifecycleView::renaming);
    registry::position_is_first(registrations, name);
    let error = ApplicationErrorView::UnknownName(name);
    let one = TaskView::SetEnabled { name, enabled };
    let two = TaskView::Remove { name };
    let three = TaskView::Rename { name, new_name };
    let names = seq![name];
    an_operation_reads(one, identifier, names, machine, bin_dir, registrations, environment);
    an_operation_reads(two, identifier, names, machine, bin_dir, registrations, environment);
    comes_to_a_failure(
        RunView { state: operation(one, identifier, names), machine },
        4,
        operation(one, identifier, names),
        error,
        environment,
    );
    comes_to_a_failure(
        RunView { state: operation(two, identifier, names), machine },
        4,
        operation(two, identifier, names),
        error,
        environment,
    );
    let both = seq![new_name, name];
    an_operation_reads(three, identifier, both, machine, bin_dir, registrations, environment);
    comes_to_a_failure(
        RunView { state: operation(three, identifier, both), machine },
        4,
        operation(three, identifier, both),
        error,
        environment,
    );
}

/// An operation on a name that is no Command Name fails, and changes nothing: it never gets as far
/// as reading.
pub proof fn an_invalid_name_is_refused(
    machine: MachineView,
    task: TaskView,
    identifier: Seq<char>,
    name: Seq<char>,
    other: Seq<char>,
    environment: EnvironmentView,
)
    requires
        name.len() == 0 || name == "."@ || name == ".."@ || name.contains('/') || name.contains(
            '\0',
        ),
    ensures
        ({
            let failure = Some(FailureView { identifier, names: seq![name] });
            fails(
                RunView { state: lifecycle::begun(task, failure, seq![name]), machine },
                environment,
            )
        }),
        ({
            let failure = Some(FailureView { identifier, names: seq![name, other] });
            &&& fails(
                RunView { state: lifecycle::begun(task, failure, seq![other, name]), machine },
                environment,
            )
            &&& fails(
                RunView { state: lifecycle::begun(task, failure, seq![name, other]), machine },
                environment,
            )
        }),
{
    reveal_with_fuel(lifecycle::begun, 3);
    let one = LifecycleView {
        task,
        failure: Some(FailureView { identifier, names: seq![name] }),
        phase: PhaseView::Configuring,
    };
    let two = LifecycleView {
        task,
        failure: Some(FailureView { identifier, names: seq![name, other] }),
        phase: PhaseView::Configuring,
    };
    assert(seq![other, name].skip(1) =~= seq![name]);
    let bad = ApplicationErrorView::InvalidInput(registry::name_problem(name));
    let worse = ApplicationErrorView::InvalidInput(registry::name_problem(other));
    comes_to_a_failure(RunView { state: one.fail(bad), machine }, 0, one, bad, environment);
    comes_to_a_failure(RunView { state: two.fail(bad), machine }, 0, two, bad, environment);
    comes_to_a_failure(RunView { state: two.fail(worse), machine }, 0, two, worse, environment);
}

proof fn without_one(registrations: Seq<RegistrationView>, at: int)
    requires
        0 <= at < registrations.len(),
        forall|i: int, j: int|
            0 <= i < j < registrations.len() ==> (#[trigger] registrations[i]).name != (
            #[trigger] registrations[j]).name,
    ensures
        lifecycle::without_name(registrations, registrations[at].name) == registrations.remove(at),
    decreases registrations.len(),
{
    let name = registrations[at].name;
    let before = registrations.drop_last();
    if at == registrations.len() - 1 {
        all_others(before, name);
        assert(registrations.remove(at) =~= before);
    } else {
        assert(before[at] == registrations[at]);
        without_one(before, at);
        assert(registrations.remove(at) =~= before.remove(at).push(registrations.last()));
    }
}

proof fn all_others(registrations: Seq<RegistrationView>, name: Seq<char>)
    requires
        forall|i: int| 0 <= i < registrations.len() ==> (#[trigger] registrations[i]).name != name,
    ensures
        lifecycle::without_name(registrations, name) == registrations,
    decreases registrations.len(),
{
    if registrations.len() > 0 {
        all_others(registrations.drop_last(), name);
        assert(registrations.drop_last().push(registrations.last()) =~= registrations);
    }
}

/// The Registration that has a name is removed: the Registry holds all the others afterwards, as
/// they were and in their order, and nothing lies at the managed path. Where something lies there
/// that is not the Registration's own link, the operation is refused, and nothing changes.
pub proof fn removing_from_beginning_to_end(
    machine: MachineView,
    bin_dir: Seq<u8>,
    registrations: Seq<RegistrationView>,
    at: int,
    identifier: Seq<char>,
    environment: EnvironmentView,
)
    requires
        holds(machine, bin_dir, registrations, environment),
        0 <= at < registrations.len(),
        machine.plain(managed(bin_dir, registrations[at].name)),
        machine.plain(registrations[at].target),
    ensures
        ({
            let name = registrations[at].name;
            let target = registrations[at].target;
            let link = managed(bin_dir, name);
            let run = RunView {
                state: operation(TaskView::Remove { name }, identifier, seq![name]),
                machine,
            };
            let after = end_of(run, environment).machine;
            if !machine.lacks(link) && !machine.links(link, target) {
                exists|result: LifecycleResultView|
                    {
                        &&& #[trigger] ends_with(run, environment, result, machine)
                        &&& result.status == LifecycleStatus::Blocked
                        &&& result.identifier == "managed-path-conflict"@
                        &&& result.registration matches Some(state) && state.registration
                            == registrations[at]
                    }
            } else {
                &&& ends_with(
                    run,
                    environment,
                    LifecycleResultView {
                        status: LifecycleStatus::Healthy,
                        identifier: "registration-removed"@,
                        registration: None,
                        conflict: None,
                    },
                    after,
                )
                &&& registry::loaded(environment, after.registry) == Ok::<
                    Seq<RegistrationView>,
                    RegistryErrorView,
                >(registrations.remove(at))
                &&& differ_at(machine, after, set![link])
                &&& after.lacks(link)
            }
        }),
{
    what_a_machine_holds(machine, bin_dir, registrations, environment);
    let registration = registrations[at];
    let name = registration.name;
    let target = registration.target;
    let link = managed(bin_dir, name);
    where_a_managed_link_lies(bin_dir, name);
    the_position_of_a_name(registrations, at);
    let task = TaskView::Remove { name };
    let start = operation(task, identifier, seq![name]);
    let run = RunView { state: start, machine };
    an_operation_reads(
        task,
        identifier,
        seq![name],
        machine,
        bin_dir,
        registrations,
        environment,
    );
    reveal(LifecycleView::registry_read);
    reveal(LifecycleView::existing);
    reveal(LifecycleView::on_observed);
    reveal(LifecycleView::examined);
    reveal(LifecycleView::removing_examined);
    let four = run.reached(4, environment);
    let subject = SubjectView::Existing { at, link };
    assert(four.state.phase == (PhaseView::Examining { bin_dir, subject, registrations }));
    let seen = seq![link, target].map_values(machine.look);
    let link_seen = (machine.look)(link);
    let target_seen = (machine.look)(target);
    assert(seen.len() == 2 && seen[0] == link_seen && seen[1] == target_seen);
    let five = four.step(environment);
    one_more(run, 4, environment);
    a_state_is_told(registration, bin_dir, link_seen, target_seen);
    let told = application::inspected(registration, bin_dir, link_seen, target_seen)->Ok_0;
    assert(machine.links(link, target) == application::owns(link_seen, target));
    if !machine.lacks(link) && !machine.links(link, target) {
        ends_early(run, 5, environment);
        let result = application::refused("managed-path-conflict"@, told);
        assert(ends_with(run, environment, result, machine));
    } else {
        let change = lifecycle::removing_change(bin_dir, registrations, at, link, link_seen);
        assert(five.state == start.change(change, environment));
        without_one(registrations, at);
        lifecycle_laws::removing_keeps_the_registry_sound(registrations, name);
        let changed = registrations.remove(at);
        assert forall|i: int| 0 <= i < changed.len() implies registry::spellable(
            (#[trigger] changed[i]).target,
            environment.home,
        ) by {
            let j = if i < at {
                i
            } else {
                i + 1
            };
            assert(changed[i] == registrations[j]);
            assert(registry::spellable(registrations[j].target, environment.home));
        }
        registry::a_stored_registry_reads_back(changed, environment);
        let file = registry::stored(changed, environment)->Ok_0;
        let n = a_change_is_made(start, change, machine, file, environment);
        reached_in_parts(run, 5, n, environment);
        reveal(LifecycleView::synchronized);
        ends_early(run, 5 + n, environment);
        let made = run.reached(5 + n, environment).machine;
        assert(differ_at(machine, made, set![link]));
    }
}

/// The Registration that has a name gets another one. Afterwards the Registry holds it under the new
/// name, with its Target and its state, and all the others as they were, in the order of their
/// names. If it is enabled, its link is found under the new name, and under the old name nothing of
/// it is left. Nothing changes, and the operation is refused, where the new name is registered,
/// where the old managed path of an enabled Registration holds something else, and where something
/// lies at the new managed path.
pub proof fn renaming_from_beginning_to_end(
    machine: MachineView,
    bin_dir: Seq<u8>,
    registrations: Seq<RegistrationView>,
    at: int,
    new_name: Seq<char>,
    identifier: Seq<char>,
    environment: EnvironmentView,
)
    requires
        holds(machine, bin_dir, registrations, environment),
        0 <= at < registrations.len(),
        registry::valid_name(new_name),
        new_name != registrations[at].name,
        machine.plain(managed(bin_dir, registrations[at].name)),
        machine.plain(managed(bin_dir, new_name)),
        machine.plain(registrations[at].target),
        registrations[at].target != managed(bin_dir, registrations[at].name),
        registrations[at].target != managed(bin_dir, new_name),
    ensures
        ({
            let name = registrations[at].name;
            let target = registrations[at].target;
            let enabled = registrations[at].enabled;
            let old_link = managed(bin_dir, name);
            let new_link = managed(bin_dir, new_name);
            let run = RunView {
                state: operation(
                    TaskView::Rename { name, new_name },
                    identifier,
                    seq![new_name, name],
                ),
                machine,
            };
            let after = end_of(run, environment).machine;
            let taken = exists|i: int|
                0 <= i < registrations.len() && (#[trigger] registrations[i]).name == new_name;
            let foreign = enabled && !machine.lacks(old_link) && !machine.links(old_link, target);
            if taken || foreign || !machine.lacks(new_link) {
                exists|result: LifecycleResultView|
                    {
                        &&& #[trigger] ends_with(run, environment, result, machine)
                        &&& result.status == LifecycleStatus::Blocked
                        &&& result.identifier == if taken {
                            "command-name-registered"@
                        } else if foreign {
                            "rename-source-conflict"@
                        } else {
                            "rename-destination-conflict"@
                        }
                        &&& result.conflict is Some
                        &&& result.registration matches Some(state) && state.registration
                            == registrations[at]
                    }
            } else {
                let renamed = RegistrationView { name: new_name, ..registrations[at] };
                &&& exists|result: LifecycleResultView|
                    {
                        &&& #[trigger] ends_with(run, environment, result, after)
                        &&& result.identifier == "registration-renamed"@
                        &&& result.registration matches Some(state) && state.registration
                            == renamed
                        &&& result.conflict is None
                        &&& result.status == LifecycleStatus::Healthy <==> machine.runs(target)
                    }
                &&& registry::loaded(environment, after.registry) matches Ok(loaded) && {
                    &&& loaded.to_multiset() == registrations.update(at, renamed).to_multiset()
                    &&& order::sorted(loaded, model::name_order())
                }
                &&& differ_at(machine, after, set![old_link, new_link])
                &&& enabled ==> after.links(new_link, target) && after.lacks(old_link)
                &&& !enabled ==> after.lacks(new_link) && !after.links(old_link, target)
                &&& !enabled && !machine.links(old_link, target) ==> (after.look)(old_link) == (
                machine.look)(old_link)
            }
        }),
{
    what_a_machine_holds(machine, bin_dir, registrations, environment);
    let registration = registrations[at];
    let name = registration.name;
    let target = registration.target;
    let old_link = managed(bin_dir, name);
    let new_link = managed(bin_dir, new_name);
    where_a_managed_link_lies(bin_dir, name);
    where_a_managed_link_lies(bin_dir, new_name);
    if old_link == new_link {
        application::managed_links_are_distinct(bin_dir, name, new_name);
    }
    the_position_of_a_name(registrations, at);
    registry::position_is_first(registrations, new_name);
    let task = TaskView::Rename { name, new_name };
    let names = seq![new_name, name];
    let start = operation(task, identifier, names);
    let run = RunView { state: start, machine };
    an_operation_reads(task, identifier, names, machine, bin_dir, registrations, environment);
    reveal(LifecycleView::registry_read);
    reveal(LifecycleView::renaming);
    reveal(LifecycleView::on_observed);
    reveal(LifecycleView::examined);
    reveal(LifecycleView::renaming_examined);
    let four = run.reached(4, environment);
    let duplicate = match registry::position_of(registrations, new_name) {
        Some(other) => Some(registrations[other].target),
        None => None,
    };
    let subject = SubjectView::Renaming { at, old_link, new_link, duplicate };
    assert(four.state.phase == (PhaseView::Examining { bin_dir, subject, registrations }));
    let seen = seq![old_link, target, new_link].map_values(machine.look);
    assert(seen.len() == 3 && seen[0] == (machine.look)(old_link) && seen[1] == (machine.look)(
        target,
    ) && seen[2] == (machine.look)(new_link));
    let five = four.step(environment);
    one_more(run, 4, environment);
    assert(five.state == start.renaming_examined(
        new_name,
        bin_dir,
        at,
        old_link,
        new_link,
        duplicate,
        registrations,
        seen,
        environment,
    ));
    a_state_is_told(registration, bin_dir, seen[0], seen[1]);
    assert(machine.links(old_link, target) == application::owns(seen[0], target));
    let taken = exists|i: int|
        0 <= i < registrations.len() && (#[trigger] registrations[i]).name == new_name;
    assert(taken == registry::registered(registrations, new_name));
    assert(duplicate is Some <==> taken);
    let foreign = registration.enabled && !machine.lacks(old_link) && !machine.links(
        old_link,
        target,
    );
    if taken || foreign || !machine.lacks(new_link) {
        assert(five.state.phase matches PhaseView::Finished(Ok(_)));
        let result = five.state.phase->Finished_0->Ok_0;
        ends_early(run, 5, environment);
        assert(ends_with(run, environment, result, machine));
    } else {
        let change = lifecycle::renaming_change(
            bin_dir,
            registrations,
            at,
            new_name,
            old_link,
            new_link,
            seen[0],
        );
        let renamed = RegistrationView { name: new_name, ..registration };
        assert(five.state == start.change(change, environment));
        lifecycle_laws::renaming_keeps_the_registry_sound(
            bin_dir,
            registrations,
            at,
            new_name,
            old_link,
            new_link,
            seen[0],
        );
        let changed = change.registrations;
        spellings_survive_sorting(registrations.update(at, renamed), changed, environment);
        registry::a_stored_registry_reads_back(changed, environment);
        let file = registry::stored(changed, environment)->Ok_0;
        let n = a_change_is_made(start, change, machine, file, environment);
        reached_in_parts(run, 5, n, environment);
        let made = run.reached(5 + n, environment).machine;
        a_state_is_told(renamed, bin_dir, (made.look)(new_link), (made.look)(target));
        a_change_is_reported(run, 5 + n, start, change, renamed, new_link, environment);
        let inspected = application::inspected(
            renamed,
            bin_dir,
            (made.look)(new_link),
            (made.look)(target),
        )->Ok_0;
        let result = application::reported("registration-renamed"@, inspected);
        assert(ends_with(run, environment, result, made));
        application::what_healthy_means(
            renamed,
            bin_dir,
            (made.look)(new_link),
            (made.look)(target),
        );
        assert(differ_at(machine, made, set![old_link, new_link]));
    }
}

/// What can be written down can be written down in any order.
proof fn spellings_survive_sorting(
    registrations: Seq<RegistrationView>,
    sorted: Seq<RegistrationView>,
    environment: EnvironmentView,
)
    requires
        sorted.to_multiset() == registrations.to_multiset(),
        forall|i: int|
            0 <= i < registrations.len() ==> registry::spellable(
                (#[trigger] registrations[i]).target,
                environment.home,
            ),
    ensures
        forall|i: int|
            0 <= i < sorted.len() ==> registry::spellable(
                (#[trigger] sorted[i]).target,
                environment.home,
            ),
{
    broadcast use vstd::seq_lib::group_to_multiset_ensures;

    assert forall|i: int| 0 <= i < sorted.len() implies registry::spellable(
        (#[trigger] sorted[i]).target,
        environment.home,
    ) by {
        assert(sorted.contains(sorted[i]));
        assert(sorted.to_multiset().count(sorted[i]) > 0);
        assert(registrations.contains(sorted[i]));
        let j = choose|j: int| 0 <= j < registrations.len() && registrations[j] == sorted[i];
        assert(registry::spellable(registrations[j].target, environment.home));
    }
}

/// A Registration that is given its own name stays as it is, and so does everything else.
pub proof fn renaming_to_the_same_name(
    machine: MachineView,
    bin_dir: Seq<u8>,
    registrations: Seq<RegistrationView>,
    at: int,
    identifier: Seq<char>,
    environment: EnvironmentView,
)
    requires
        holds(machine, bin_dir, registrations, environment),
        0 <= at < registrations.len(),
        machine.plain(managed(bin_dir, registrations[at].name)),
        machine.plain(registrations[at].target),
    ensures
        ({
            let name = registrations[at].name;
            let run = RunView {
                state: operation(
                    TaskView::Rename { name, new_name: name },
                    identifier,
                    seq![name, name],
                ),
                machine,
            };
            exists|result: LifecycleResultView|
                {
                    &&& #[trigger] ends_with(run, environment, result, machine)
                    &&& result.identifier == "registration-renamed"@
                    &&& result.conflict is None
                    &&& result.registration matches Some(state) && state.registration
                        == registrations[at]
                }
        }),
{
    what_a_machine_holds(machine, bin_dir, registrations, environment);
    let registration = registrations[at];
    let name = registration.name;
    let link = managed(bin_dir, name);
    where_a_managed_link_lies(bin_dir, name);
    the_position_of_a_name(registrations, at);
    let task = TaskView::Rename { name, new_name: name };
    let names = seq![name, name];
    let start = operation(task, identifier, names);
    let run = RunView { state: start, machine };
    an_operation_reads(task, identifier, names, machine, bin_dir, registrations, environment);
    reveal(LifecycleView::registry_read);
    reveal(LifecycleView::renaming);
    reveal(LifecycleView::on_observed);
    reveal(LifecycleView::examined);
    let seen = seq![link, registration.target].map_values(machine.look);
    assert(seen.len() == 2 && seen[0] == (machine.look)(link) && seen[1] == (machine.look)(
        registration.target,
    ));
    one_more(run, 4, environment);
    a_state_is_told(registration, bin_dir, seen[0], seen[1]);
    let told = application::inspected(registration, bin_dir, seen[0], seen[1])->Ok_0;
    ends_early(run, 5, environment);
    assert(ends_with(
        run,
        environment,
        application::reported("registration-renamed"@, told),
        machine,
    ));
}

/// A run of an addition, or of the check before one.
pub open spec fn addition(
    request: AddRequestView,
    checking: bool,
    failure: Option<FailureView>,
    machine: MachineView,
) -> RunView {
    RunView {
        state: LifecycleView {
            task: if checking {
                TaskView::ValidateAdd(request)
            } else {
                TaskView::Add(request)
            },
            failure,
            phase: PhaseView::Configuring,
        },
        machine,
    }
}

/// The Target that an addition means: a relative path is taken against the working directory.
pub open spec fn meant_target(request: AddRequestView, environment: EnvironmentView) -> Seq<u8> {
    path::normalized(
        if path::absolute(request.target) {
            request.target
        } else {
            path::joined(environment.cwd, request.target)
        },
    )
}

proof fn an_addition_looks(
    request: AddRequestView,
    checking: bool,
    failure: Option<FailureView>,
    machine: MachineView,
    bin_dir: Seq<u8>,
    registrations: Seq<RegistrationView>,
    environment: EnvironmentView,
)
    requires
        holds(machine, bin_dir, registrations, environment),
    ensures
        ({
            let run = addition(request, checking, failure, machine);
            let target = meant_target(request, environment);
            run.reached(2, environment) == (RunView {
                state: run.state.target_checked(
                    request,
                    checking,
                    bin_dir,
                    target,
                    (machine.look)(target),
                ),
                machine,
            })
        }),
{
    reveal(LifecycleView::on_configuration);
    reveal(LifecycleView::configured);
    reveal(LifecycleView::on_observed);
    let run = addition(request, checking, failure, machine);
    let target = meant_target(request, environment);
    let one = run.step(environment);
    let two = one.step(environment);
    assert(one.state.phase == (PhaseView::CheckingTarget { bin_dir, target }));
    let seen = seq![target].map_values(machine.look);
    assert(seen.len() == 1 && seen[0] == (machine.look)(target));
    assert(run.reached(2, environment) == one.reached(1, environment));
    assert(one.reached(1, environment) == two.reached(0, environment));
}

proof fn an_addition_reads(
    request: AddRequestView,
    prepared: PreparedView,
    failure: Option<FailureView>,
    machine: MachineView,
    bin_dir: Seq<u8>,
    registrations: Seq<RegistrationView>,
    environment: EnvironmentView,
)
    requires
        holds(machine, bin_dir, registrations, environment),
        lifecycle::prepared_for(
            request,
            bin_dir,
            meant_target(request, environment),
            (machine.look)(meant_target(request, environment)),
        ) == Ok::<PreparedView, ApplicationErrorView>(prepared),
    ensures
        ({
            let existing = match registry::position_of(registrations, prepared.name) {
                Some(at) => Some(registrations[at]),
                None => None,
            };
            let phase = PhaseView::Examining {
                bin_dir,
                subject: SubjectView::Adding { prepared, existing },
                registrations,
            };
            &&& addition(request, false, failure, machine).reached(5, environment) == (RunView {
                state: LifecycleView { task: TaskView::AddPrepared(prepared), failure, phase },
                machine,
            })
            &&& addition(request, true, None, machine).reached(3, environment) == (RunView {
                state: LifecycleView {
                    task: TaskView::ValidatePrepared(prepared),
                    failure: None,
                    phase,
                },
                machine,
            })
        }),
{
    let run = addition(request, false, failure, machine);
    let check = addition(request, true, None, machine);
    an_addition_looks(request, false, failure, machine, bin_dir, registrations, environment);
    an_addition_looks(request, true, None, machine, bin_dir, registrations, environment);
    reveal(LifecycleView::target_checked);
    reveal(LifecycleView::on_done);
    reveal(LifecycleView::on_registry);
    reveal(LifecycleView::registry_read);
    reveal(LifecycleView::adding);
    one_more(run, 2, environment);
    one_more(run, 3, environment);
    one_more(run, 4, environment);
    one_more(check, 2, environment);
}

/// A Target is published under a name: the Registry holds it afterwards with all the others as they
/// were, in the order of their names, and unless it was to be disabled, its link is found at the
/// managed path of that name. Where the name is registered, or something lies at the managed path,
/// the addition is refused, and nothing changes; a check before it tells what would come of it, and
/// changes nothing at all.
pub proof fn adding_from_beginning_to_end(
    machine: MachineView,
    bin_dir: Seq<u8>,
    registrations: Seq<RegistrationView>,
    request: AddRequestView,
    name: Seq<char>,
    failure: Option<FailureView>,
    environment: EnvironmentView,
)
    requires
        holds(machine, bin_dir, registrations, environment),
        path::absolute(environment.cwd),
        registry::valid_name(name),
        match request.name {
            Some(asked) => name == asked,
            None => {
                let names = path::names(meant_target(request, environment));
                names.len() > 0 && utf8::encode_utf8(name) == names.last()
            },
        },
        registry::spellable(meant_target(request, environment), environment.home),
        machine.runs(meant_target(request, environment)),
        machine.plain(managed(bin_dir, name)),
        meant_target(request, environment) != managed(bin_dir, name),
        forall|i: int|
            0 <= i < registrations.len() ==> machine.plain((#[trigger] registrations[i]).target),
    ensures
        ({
            let target = meant_target(request, environment);
            let link = managed(bin_dir, name);
            let run = addition(request, false, failure, machine);
            let check = addition(request, true, None, machine);
            let after = end_of(run, environment).machine;
            let taken = exists|i: int|
                0 <= i < registrations.len() && (#[trigger] registrations[i]).name == name;
            if taken || !machine.lacks(link) {
                exists|result: LifecycleResultView|
                    {
                        &&& #[trigger] ends_with(run, environment, result, machine)
                        &&& ends_with(check, environment, result, machine)
                        &&& result.status == LifecycleStatus::Blocked
                        &&& result.identifier == if taken {
                            "command-name-registered"@
                        } else {
                            "managed-path-occupied"@
                        }
                        &&& result.conflict is Some
                        &&& taken ==> (result.registration matches Some(state)
                            && registrations.contains(state.registration)
                            && state.registration.name == name)
                        &&& !taken ==> result.registration is None
                    }
            } else {
                let added = RegistrationView { name, target, enabled: !request.disabled };
                &&& exists|result: LifecycleResultView|
                    {
                        &&& #[trigger] ends_with(run, environment, result, after)
                        &&& result.identifier == "registration-added"@
                        &&& result.status == LifecycleStatus::Healthy
                        &&& result.registration matches Some(state) && state.registration == added
                            && state.defect is None
                        &&& result.conflict is None
                    }
                &&& registry::loaded(environment, after.registry) matches Ok(loaded) && {
                    &&& loaded.to_multiset() == registrations.to_multiset().insert(added)
                    &&& order::sorted(loaded, model::name_order())
                }
                &&& differ_at(machine, after, set![link])
                &&& if request.disabled {
                    after.lacks(link)
                } else {
                    after.links(link, target)
                }
                &&& ends_with(
                    check,
                    environment,
                    LifecycleResultView {
                        status: LifecycleStatus::Healthy,
                        identifier: "add-valid"@,
                        registration: None,
                        conflict: None,
                    },
                    machine,
                )
            }
        }),
{
    what_a_machine_holds(machine, bin_dir, registrations, environment);
    let target = meant_target(request, environment);
    let link = managed(bin_dir, name);
    where_a_managed_link_lies(bin_dir, name);
    let seen = (machine.look)(target);
    if request.name is None {
        registry::valid_name_is_clean(name);
        utf8::encode_utf8_valid_utf8(name);
        utf8::encode_utf8_decode_utf8(name);
        candidate_laws::the_last_name_is_proposed(target);
        let proposed = lifecycle::textual_file_name(target)->0;
        utf8::encode_utf8_decode_utf8(proposed);
        assert(proposed == name);
    }
    let prepared = PreparedView {
        name,
        target,
        disabled: request.disabled,
        managed_link: link,
    };
    assert(lifecycle::prepared_for(request, bin_dir, target, seen) == Ok::<
        PreparedView,
        ApplicationErrorView,
    >(prepared));
    let run = addition(request, false, failure, machine);
    let check = addition(request, true, None, machine);
    an_addition_reads(
        request,
        prepared,
        failure,
        machine,
        bin_dir,
        registrations,
        environment,
    );
    registry::position_is_first(registrations, name);
    let existing = match registry::position_of(registrations, name) {
        Some(at) => Some(registrations[at]),
        None => None,
    };
    let adding = LifecycleView {
        task: TaskView::AddPrepared(prepared),
        failure,
        phase: PhaseView::Configuring,
    };
    let looked_at = match existing {
        Some(registration) => registration.target,
        None => target,
    };
    let paths = seq![link, looked_at];
    let looks = paths.map_values(machine.look);
    assert(looks.len() == 2 && looks[0] == (machine.look)(link) && looks[1] == (machine.look)(
        looked_at,
    ));
    one_more(run, 5, environment);
    one_more(check, 3, environment);
    reveal(LifecycleView::on_observed);
    reveal(LifecycleView::examined);
    reveal(LifecycleView::adding_examined);
    if let Some(at) = registry::position_of(registrations, name) {
        assert(machine.plain(registrations[at].target));
        a_state_is_told(registrations[at], bin_dir, looks[0], looks[1]);
        assert(registrations.contains(registrations[at]));
    }
    let taken = exists|i: int|
        0 <= i < registrations.len() && (#[trigger] registrations[i]).name == name;
    assert(taken == registry::registered(registrations, name));
    if taken || !machine.lacks(link) {
        let six = run.reached(6, environment);
        assert(six.state.phase matches PhaseView::Finished(Ok(_)));
        let result = six.state.phase->Finished_0->Ok_0;
        ends_early(run, 6, environment);
        ends_early(check, 4, environment);
        assert(ends_with(run, environment, result, machine));
        assert(ends_with(check, environment, result, machine));
    } else {
        ends_early(check, 4, environment);
        let change = lifecycle::adding_change(bin_dir, registrations, prepared);
        let added = RegistrationView { name, target, enabled: !request.disabled };
        assert(run.reached(6, environment).state == adding.change(change, environment));
        lifecycle_laws::adding_keeps_the_registry_sound(
            bin_dir,
            registrations,
            request,
            seen,
            prepared,
            environment,
        );
        let changed = change.registrations;
        let unsorted = registrations.push(added);
        assert(unsorted.to_multiset() =~= registrations.to_multiset().insert(added)) by {
            broadcast use vstd::seq_lib::group_to_multiset_ensures;

        }
        assert forall|i: int| 0 <= i < unsorted.len() implies registry::spellable(
            (#[trigger] unsorted[i]).target,
            environment.home,
        ) by {
            if i < registrations.len() {
                assert(registry::spellable(registrations[i].target, environment.home));
            }
        }
        spellings_survive_sorting(unsorted, changed, environment);
        registry::a_stored_registry_reads_back(changed, environment);
        let file = registry::stored(changed, environment)->Ok_0;
        let n = a_change_is_made(adding, change, machine, file, environment);
        reached_in_parts(run, 6, n, environment);
        let made = run.reached(6 + n, environment).machine;
        a_state_is_told(added, bin_dir, (made.look)(link), (made.look)(target));
        a_change_is_reported(run, 6 + n, adding, change, added, link, environment);
        application::what_healthy_means(added, bin_dir, (made.look)(link), (made.look)(target));
        let inspected = application::inspected(
            added,
            bin_dir,
            (made.look)(link),
            (made.look)(target),
        )->Ok_0;
        let result = LifecycleResultView {
            status: LifecycleStatus::Healthy,
            identifier: "registration-added"@,
            registration: Some(inspected),
            conflict: None,
        };
        assert(ends_with(run, environment, result, made));
        assert(differ_at(machine, made, set![link]));
    }
}

/// A Target that is missing, is no file or cannot be run is not added, and nothing changes; nor is
/// one whose path is not text, nor one under a name that is none.
pub proof fn an_unfit_addition_is_refused(
    machine: MachineView,
    bin_dir: Seq<u8>,
    registrations: Seq<RegistrationView>,
    request: AddRequestView,
    checking: bool,
    failure: Option<FailureView>,
    environment: EnvironmentView,
)
    requires
        holds(machine, bin_dir, registrations, environment),
        failure matches Some(failure) ==> failure.names.len() <= 2,
        ({
            let target = meant_target(request, environment);
            ||| !machine.runs(target)
            ||| !utf8::valid_utf8(target)
            ||| request.name matches Some(name) && !registry::valid_name(name)
            ||| request.name is None && !candidate_laws::textually_named(target)
        }),
    ensures
        fails(addition(request, checking, failure, machine), environment),
{
    let run = addition(request, checking, failure, machine);
    let target = meant_target(request, environment);
    an_addition_looks(request, checking, failure, machine, bin_dir, registrations, environment);
    reveal(LifecycleView::target_checked);
    candidate_laws::the_last_name_is_proposed(target);
    let seen = (machine.look)(target);
    if lifecycle::prepared_for(request, bin_dir, target, seen) is Ok {
        candidate_laws::what_an_addition_prepares(
            request,
            bin_dir,
            target,
            seen,
            lifecycle::prepared_for(request, bin_dir, target, seen)->Ok_0,
        );
    }
    let error = lifecycle::prepared_for(request, bin_dir, target, seen)->Err_0;
    comes_to_a_failure(run, 2, run.state, error, environment);
}

} // verus!
