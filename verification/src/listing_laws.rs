//! What a listing comes to, from its beginning to its end.

use vstd::prelude::*;

use crate::application;
use crate::application::ApplicationErrorView;
use crate::configuration;
use crate::configuration::ConfigFileView;
use crate::environment::EnvironmentView;
use crate::host::{EntryKind, FileReadView, IoErrorView, ObservationView};
use crate::lifecycle::{EventView, RequestView};
use crate::listing;
use crate::listing::{ListPhaseView, Pass};
use crate::model::{RegistrationStateView, RegistrationView};
use crate::operation_laws;
use crate::operation_laws::MachineView;
use crate::registry;
use crate::registry::RegistryFileView;
use crate::views;

verus! {

/// The states that have been reported are those of the first Registrations, in order.
pub open spec fn in_step(
    states: Seq<RegistrationStateView>,
    registrations: Seq<RegistrationView>,
) -> bool {
    &&& states.len() <= registrations.len()
    &&& forall|i: int|
        0 <= i < states.len() ==> (#[trigger] states[i]).registration == registrations[i]
}

/// Every Registration has been reported once, in the order of the Registry.
pub open spec fn complete(
    states: Seq<RegistrationStateView>,
    registrations: Seq<RegistrationView>,
) -> bool {
    in_step(states, registrations) && states.len() == registrations.len()
}

/// What has been inspected and reported so far is of these Registrations.
pub open spec fn keeps_step(phase: ListPhaseView, registrations: Seq<RegistrationView>) -> bool {
    match phase {
        ListPhaseView::Inspecting { registrations: all, states, .. } => all == registrations
            && in_step(states, registrations),
        ListPhaseView::CreatingBinDirectory { registrations: all, .. } => all == registrations,
        ListPhaseView::Linking { registrations: all, .. } => all == registrations,
        ListPhaseView::Finished(Ok(result)) => complete(result.registrations, registrations),
        _ => true,
    }
}

/// Whatever the host reports, a listing inspects the Registrations of the Registry that was read
/// last, in their order, and one that succeeds reports one state for each of them.
pub proof fn every_listing_keeps_step(
    phase: ListPhaseView,
    event: EventView,
    environment: EnvironmentView,
    registrations: Seq<RegistrationView>,
)
    requires
        keeps_step(phase, registrations),
        phase is Reading ==> (event matches EventView::Registry(read) ==> registry::loaded(
            environment,
            read,
        ) matches Ok(all) ==> all == registrations),
    ensures
        keeps_step(phase.advance(event, environment), registrations),
{
    reveal(listing::inspect_on);
    if let ListPhaseView::Inspecting { registrations: all, states, bin_dir, .. } = phase {
        if let EventView::Observed(seen) = event {
            if seen.len() == 2 && states.len() < all.len() {
                let inspected = application::inspected(
                    all[states.len() as int],
                    bin_dir,
                    seen[0],
                    seen[1],
                );
                if let Ok(state) = inspected {
                    let more = states.push(state);
                    assert forall|i: int| 0 <= i < more.len() implies (
                    #[trigger] more[i]).registration == registrations[i] by {
                        if i < states.len() {
                            assert(more[i] == states[i]);
                        }
                    }
                }
            }
        }
    }
}

/// A host that does what it is asked, and on which nothing else changes while a listing runs: what
/// its files read as, and what is seen at each path before and after links are restored.
pub struct ListHostView {
    pub configuration: FileReadView<ConfigFileView>,
    pub registry: FileReadView<RegistryFileView>,
    pub before: spec_fn(Seq<u8>) -> ObservationView,
    pub after: spec_fn(Seq<u8>) -> ObservationView,
}

impl ListHostView {
    /// What is seen in a phase.
    pub open spec fn look(self, phase: ListPhaseView) -> spec_fn(Seq<u8>) -> ObservationView {
        if phase matches ListPhaseView::Inspecting { pass, .. } && pass == Pass::Last {
            self.after
        } else {
            self.before
        }
    }

    /// What the host reports when it is asked.
    pub open spec fn answer(self, phase: ListPhaseView, environment: EnvironmentView) -> EventView {
        match phase.request(environment) {
            RequestView::ReadConfiguration(_) => EventView::Configuration(self.configuration),
            RequestView::ReadRegistry(_) => EventView::Registry(self.registry),
            RequestView::Observe(paths) => EventView::Observed(
                paths.map_values(self.look(phase)),
            ),
            _ => EventView::Done(Ok(())),
        }
    }

    pub open spec fn step(
        self,
        phase: ListPhaseView,
        environment: EnvironmentView,
    ) -> ListPhaseView {
        phase.advance(self.answer(phase, environment), environment)
    }

    /// The phase that a listing has come to, once the host has answered some requests.
    pub open spec fn reached(
        self,
        phase: ListPhaseView,
        answers: nat,
        environment: EnvironmentView,
    ) -> ListPhaseView
        decreases answers,
    {
        if answers == 0 {
            phase
        } else {
            self.reached(self.step(phase, environment), (answers - 1) as nat, environment)
        }
    }
}

/// The state of a Registration, where this is seen.
pub open spec fn state_of(
    bin_dir: Seq<u8>,
    look: spec_fn(Seq<u8>) -> ObservationView,
    registration: RegistrationView,
) -> Result<RegistrationStateView, ApplicationErrorView> {
    match application::managed_link_of(bin_dir, registration.name) {
        Err(error) => Err(error),
        Ok(link) => application::inspected(
            registration,
            bin_dir,
            look(link),
            look(registration.target),
        ),
    }
}

pub open spec fn inspector(
    bin_dir: Seq<u8>,
    look: spec_fn(Seq<u8>) -> ObservationView,
) -> spec_fn(RegistrationView) -> Result<RegistrationStateView, ApplicationErrorView> {
    |registration: RegistrationView| state_of(bin_dir, look, registration)
}

/// No link that should be there is missing.
pub open spec fn none_missing(states: Seq<RegistrationStateView>) -> bool {
    forall|i: int| 0 <= i < states.len() ==> !listing::link_missing(#[trigger] states[i])
}

/// What a listing comes to: the states of all Registrations as they are, or, where a link was
/// missing, as they are once links are restored; or the first thing that went wrong.
pub open spec fn reported(
    host: ListHostView,
    bin_dir: Seq<u8>,
    registrations: Seq<RegistrationView>,
) -> ListPhaseView {
    match views::collected(registrations, inspector(bin_dir, host.before)) {
        Err(error) => listing::list_failed(error),
        Ok(states) => if none_missing(states) {
            ListPhaseView::Finished(Ok(application::listed(states)))
        } else {
            match views::collected(registrations, inspector(bin_dir, host.after)) {
                Err(error) => listing::list_failed(error),
                Ok(states) => ListPhaseView::Finished(Ok(application::listed(states))),
            }
        },
    }
}

proof fn an_end_stays(
    phase: ListPhaseView,
    host: ListHostView,
    answers: nat,
    environment: EnvironmentView,
)
    requires
        phase is Finished,
    ensures
        host.reached(phase, answers, environment) == phase,
    decreases answers,
{
    if answers > 0 {
        an_end_stays(phase, host, (answers - 1) as nat, environment);
    }
}

proof fn reached_in_parts(
    phase: ListPhaseView,
    host: ListHostView,
    first: nat,
    second: nat,
    environment: EnvironmentView,
)
    ensures
        host.reached(phase, first + second, environment) == host.reached(
            host.reached(phase, first, environment),
            second,
            environment,
        ),
    decreases first,
{
    if first > 0 {
        reached_in_parts(
            host.step(phase, environment),
            host,
            (first - 1) as nat,
            second,
            environment,
        );
    }
}

/// Where one pass over the Registrations leads.
spec fn passed(
    pass: Pass,
    bin_dir: Seq<u8>,
    registrations: Seq<RegistrationView>,
    look: spec_fn(Seq<u8>) -> ObservationView,
) -> ListPhaseView {
    match views::collected(registrations, inspector(bin_dir, look)) {
        Err(error) => listing::list_failed(error),
        Ok(states) => listing::inspect_on(pass, bin_dir, registrations, states),
    }
}

/// One pass over the Registrations, from the one that comes next.
proof fn a_pass_goes_through(
    host: ListHostView,
    pass: Pass,
    bin_dir: Seq<u8>,
    registrations: Seq<RegistrationView>,
    states: Seq<RegistrationStateView>,
    environment: EnvironmentView,
) -> (answers: nat)
    requires
        states.len() <= registrations.len(),
        views::collected(
            registrations.take(states.len() as int),
            inspector(
                bin_dir,
                if pass == Pass::Last {
                    host.after
                } else {
                    host.before
                },
            ),
        ) == Ok::<Seq<RegistrationStateView>, ApplicationErrorView>(states),
    ensures
        answers <= registrations.len() - states.len(),
        host.reached(
            listing::inspect_on(pass, bin_dir, registrations, states),
            answers,
            environment,
        ) == passed(
            pass,
            bin_dir,
            registrations,
            if pass == Pass::Last {
                host.after
            } else {
                host.before
            },
        ),
        forall|k: nat|
            k < answers ==> (#[trigger] host.reached(
                listing::inspect_on(pass, bin_dir, registrations, states),
                k,
                environment,
            ) matches ListPhaseView::Inspecting { pass: this, .. } && this == pass),
    decreases registrations.len() - states.len(),
{
    let look = if pass == Pass::Last {
        host.after
    } else {
        host.before
    };
    let inspect = inspector(bin_dir, look);
    let n = states.len() as int;
    let phase = listing::inspect_on(pass, bin_dir, registrations, states);
    if n == registrations.len() {
        assert(registrations.take(n) =~= registrations);
        0
    } else {
        views::collected_step(registrations, inspect, n);
        reveal(listing::inspect_on);
        let registration = registrations[n];
        match application::managed_link_of(bin_dir, registration.name) {
            Err(error) => {
                assert(inspect(registration) == Err::<RegistrationStateView, _>(error));
                0
            },
            Ok(link) => {
                let asked = seq![link, registration.target];
                assert(asked.map_values(look) =~= seq![look(link), look(registration.target)]);
                let next = host.step(phase, environment);
                match inspect(registration) {
                    Err(error) => {
                        assert(next == listing::list_failed(error));
                        assert(host.reached(phase, 1, environment) == host.reached(
                            next,
                            0,
                            environment,
                        ));
                        assert(host.reached(phase, 0, environment) == phase);
                        1
                    },
                    Ok(state) => {
                        let more = states.push(state);
                        assert(next == listing::inspect_on(pass, bin_dir, registrations, more));
                        let rest = a_pass_goes_through(
                            host,
                            pass,
                            bin_dir,
                            registrations,
                            more,
                            environment,
                        );
                        assert(host.reached(phase, rest + 1, environment) == host.reached(
                            next,
                            rest,
                            environment,
                        ));
                        assert forall|k: nat| k < rest + 1 implies (#[trigger] host.reached(
                            phase,
                            k,
                            environment,
                        ) matches ListPhaseView::Inspecting { pass: this, .. } && this == pass) by {
                            if k > 0 {
                                assert(host.reached(phase, k, environment) == host.reached(
                                    next,
                                    (k - 1) as nat,
                                    environment,
                                ));
                            }
                        }
                        rest + 1
                    },
                }
            },
        }
    }
}

/// The pass that reports.
proof fn a_report_goes_through(
    host: ListHostView,
    bin_dir: Seq<u8>,
    registrations: Seq<RegistrationView>,
    environment: EnvironmentView,
) -> (answers: nat)
    ensures
        answers <= registrations.len(),
        host.reached(listing::report(bin_dir, registrations), answers, environment)
            == match views::collected(registrations, inspector(bin_dir, host.after)) {
            Err(error) => listing::list_failed(error),
            Ok(states) => ListPhaseView::Finished(Ok(application::listed(states))),
        },
{
    let states = Seq::<RegistrationStateView>::empty();
    views::collected_of_none(registrations, inspector(bin_dir, host.after));
    let answers = a_pass_goes_through(
        host,
        Pass::Last,
        bin_dir,
        registrations,
        states,
        environment,
    );
    reveal(listing::inspect_on);
    assert(listing::report(bin_dir, registrations) == listing::inspect_on(
        Pass::Last,
        bin_dir,
        registrations,
        states,
    ));
    if views::collected(registrations, inspector(bin_dir, host.after)) is Ok {
        views::collected_elements(registrations, inspector(bin_dir, host.after));
    }
    answers
}

/// Missing links are restored one after another, and then comes the report.
proof fn restoring_goes_through(
    host: ListHostView,
    bin_dir: Seq<u8>,
    registrations: Seq<RegistrationView>,
    missing: Seq<RegistrationStateView>,
    environment: EnvironmentView,
) -> (answers: nat)
    ensures
        answers <= missing.len() + registrations.len(),
        host.reached(listing::link_on(bin_dir, registrations, missing), answers, environment)
            == match views::collected(registrations, inspector(bin_dir, host.after)) {
            Err(error) => listing::list_failed(error),
            Ok(states) => ListPhaseView::Finished(Ok(application::listed(states))),
        },
    decreases missing.len(),
{
    if missing.len() == 0 {
        a_report_goes_through(host, bin_dir, registrations, environment)
    } else {
        let phase = listing::link_on(bin_dir, registrations, missing);
        let rest = restoring_goes_through(
            host,
            bin_dir,
            registrations,
            missing.drop_last(),
            environment,
        );
        let next = host.step(phase, environment);
        assert(next == listing::link_on(bin_dir, registrations, missing.drop_last()));
        assert(host.reached(phase, rest + 1, environment) == host.reached(
            next,
            rest,
            environment,
        ));
        rest + 1
    }
}

proof fn missing_links_are_few(states: Seq<RegistrationStateView>)
    ensures
        listing::missing_links(states).len() <= states.len(),
        listing::missing_links(states).len() == 0 <==> none_missing(states),
    decreases states.len(),
{
    if states.len() > 0 {
        let rest = states.drop_first();
        missing_links_are_few(rest);
        assert(forall|i: int| 0 <= i < rest.len() ==> #[trigger] rest[i] == states[i + 1]);
        if none_missing(rest) && !listing::link_missing(states[0]) {
            assert forall|i: int| 0 <= i < states.len() implies !listing::link_missing(
                #[trigger] states[i],
            ) by {
                if i > 0 {
                    assert(rest[i - 1] == states[i]);
                }
            }
        }
        if none_missing(states) {
            assert(!listing::link_missing(states[0]));
        }
    }
}

/// A listing whose files can be read.
proof fn a_listing_goes_through(
    host: ListHostView,
    environment: EnvironmentView,
    bin_dir: Seq<u8>,
    registrations: Seq<RegistrationView>,
    answers: nat,
)
    requires
        configuration::loaded(environment, host.configuration) matches Ok(configuration)
            && configuration.bin_dir == bin_dir,
        registry::loaded(environment, host.registry) == Ok::<
            Seq<RegistrationView>,
            registry::RegistryErrorView,
        >(registrations),
        answers >= 6 + 4 * registrations.len(),
    ensures
        host.reached(ListPhaseView::Configuring, answers, environment) == reported(
            host,
            bin_dir,
            registrations,
        ),
        reported(host, bin_dir, registrations) matches ListPhaseView::Finished(Ok(result))
            ==> complete(result.registrations, registrations),
{
    let start = ListPhaseView::Configuring;
    let none = Seq::<RegistrationStateView>::empty();
    let inspect = inspector(bin_dir, host.before);
    views::collected_of_none(registrations, inspect);
    let reading = host.step(start, environment);
    let first = host.step(reading, environment);
    assert(first == listing::inspect_on(Pass::First, bin_dir, registrations, none));
    assert(host.reached(reading, 1, environment) == host.reached(first, 0, environment));
    assert(host.reached(start, 2, environment) == first);
    let a = a_pass_goes_through(host, Pass::First, bin_dir, registrations, none, environment);
    reached_in_parts(start, host, 2, a, environment);
    let seen = passed(Pass::First, bin_dir, registrations, host.before);
    let so_far = 2 + a;
    assert(host.reached(start, so_far, environment) == seen);
    reveal(listing::inspect_on);
    match views::collected(registrations, inspect) {
        Err(_) => {
            ends_here(start, host, so_far, answers, environment);
        },
        Ok(states) => {
            views::collected_elements(registrations, inspect);
            missing_links_are_few(states);
            states_are_complete(registrations, bin_dir, host.before);
            if none_missing(states) {
                ends_here(start, host, so_far, answers, environment);
            } else {
                let locking = host.step(seen, environment);
                let rereading = host.step(locking, environment);
                let second = host.step(rereading, environment);
                assert(second == listing::inspect_on(Pass::Locked, bin_dir, registrations, none));
                assert(host.reached(rereading, 1, environment) == host.reached(
                    second,
                    0,
                    environment,
                ));
                assert(host.reached(locking, 2, environment) == host.reached(
                    rereading,
                    1,
                    environment,
                ));
                assert(host.reached(seen, 3, environment) == host.reached(
                    locking,
                    2,
                    environment,
                ));
                reached_in_parts(start, host, so_far, 3, environment);
                let b = a_pass_goes_through(
                    host,
                    Pass::Locked,
                    bin_dir,
                    registrations,
                    none,
                    environment,
                );
                reached_in_parts(start, host, so_far + 3, b, environment);
                let making = passed(Pass::Locked, bin_dir, registrations, host.before);
                let missing = listing::missing_links(states);
                assert(making == ListPhaseView::CreatingBinDirectory {
                    bin_dir,
                    registrations,
                    missing,
                });
                let linking = host.step(making, environment);
                assert(linking == listing::link_on(bin_dir, registrations, missing));
                assert(host.reached(making, 1, environment) == host.reached(
                    linking,
                    0,
                    environment,
                ));
                reached_in_parts(start, host, so_far + 3 + b, 1, environment);
                let c = restoring_goes_through(
                    host,
                    bin_dir,
                    registrations,
                    missing,
                    environment,
                );
                reached_in_parts(start, host, so_far + 3 + b + 1, c, environment);
                if views::collected(registrations, inspector(bin_dir, host.after)) is Ok {
                    states_are_complete(registrations, bin_dir, host.after);
                }
                ends_here(start, host, so_far + 3 + b + 1 + c, answers, environment);
            }
        },
    }
}

/// What a listing comes to, whether or not its files can be read.
pub open spec fn listed_through(host: ListHostView, environment: EnvironmentView) -> ListPhaseView {
    match configuration::loaded(environment, host.configuration) {
        Err(error) => listing::list_failed(ApplicationErrorView::Configuration(error)),
        Ok(configuration) => match registry::loaded(environment, host.registry) {
            Err(error) => listing::list_failed(ApplicationErrorView::Registry(error)),
            Ok(registrations) => reported(host, configuration.bin_dir, registrations),
        },
    }
}

/// How many Registrations the Registry of a host has.
pub open spec fn registered_count(host: ListHostView, environment: EnvironmentView) -> nat {
    match registry::loaded(environment, host.registry) {
        Ok(registrations) => registrations.len(),
        Err(_) => 0,
    }
}

/// A listing ends, after at most six answers and four for each Registration. It reports one state
/// for each Registration of the Registry, in order: as they are, or, where a link was missing, as
/// they are once the missing links are restored; or the first thing that went wrong.
pub proof fn a_listing_from_beginning_to_end(
    host: ListHostView,
    environment: EnvironmentView,
    answers: nat,
)
    requires
        answers >= 6 + 4 * registered_count(host, environment),
    ensures
        host.reached(ListPhaseView::Configuring, answers, environment) == listed_through(
            host,
            environment,
        ),
        listed_through(host, environment) matches ListPhaseView::Finished(Ok(result))
            ==> complete(result.registrations, registry::loaded(environment, host.registry)->Ok_0),
{
    let start = ListPhaseView::Configuring;
    let reading = host.step(start, environment);
    let first = host.step(reading, environment);
    assert(host.reached(reading, 1, environment) == host.reached(first, 0, environment));
    assert(host.reached(start, 2, environment) == first);
    match configuration::loaded(environment, host.configuration) {
        Err(_) => {
            ends_here(start, host, 2, answers, environment);
        },
        Ok(configuration) => match registry::loaded(environment, host.registry) {
            Err(_) => {
                ends_here(start, host, 2, answers, environment);
            },
            Ok(registrations) => {
                a_listing_goes_through(
                    host,
                    environment,
                    configuration.bin_dir,
                    registrations,
                    answers,
                );
            },
        },
    }
}

proof fn ends_here(
    start: ListPhaseView,
    host: ListHostView,
    reached: nat,
    answers: nat,
    environment: EnvironmentView,
)
    requires
        reached <= answers,
        host.reached(start, reached, environment) is Finished,
    ensures
        host.reached(start, answers, environment) == host.reached(start, reached, environment),
{
    let rest = (answers - reached) as nat;
    reached_in_parts(start, host, reached, rest, environment);
    an_end_stays(host.reached(start, reached, environment), host, rest, environment);
}

proof fn states_are_complete(
    registrations: Seq<RegistrationView>,
    bin_dir: Seq<u8>,
    look: spec_fn(Seq<u8>) -> ObservationView,
)
    requires
        views::collected(registrations, inspector(bin_dir, look)) is Ok,
    ensures
        complete(
            views::collected(registrations, inspector(bin_dir, look))->Ok_0,
            registrations,
        ),
{
    let inspect = inspector(bin_dir, look);
    views::collected_elements(registrations, inspect);
    let states = views::collected(registrations, inspect)->Ok_0;
    assert forall|i: int| 0 <= i < states.len() implies (#[trigger] states[i]).registration
        == registrations[i] by {
        assert(inspect(registrations[i]) == Ok::<RegistrationStateView, ApplicationErrorView>(
            states[i],
        ));
    }
}

/// The restored links are all that differs: where a link was missing, there is now one with its
/// Target as its text; every other link and every Target looks as it did.
pub open spec fn restored(
    host: ListHostView,
    bin_dir: Seq<u8>,
    registrations: Seq<RegistrationView>,
) -> bool {
    forall|i: int|
        #![trigger registrations[i]]
        0 <= i < registrations.len() ==> {
            let registration = registrations[i];
            &&& (host.after)(registration.target) == (host.before)(registration.target)
            &&& application::managed_link_of(bin_dir, registration.name) matches Ok(link) ==> (if (
            state_of(bin_dir, host.before, registration) matches Ok(state)
                && listing::link_missing(state)) {
                &&& (host.after)(link).entry == Ok::<EntryKind, IoErrorView>(
                    EntryKind::SymbolicLink,
                )
                &&& application::owns((host.after)(link), registration.target)
            } else {
                (host.after)(link) == (host.before)(link)
            })
        }
}

/// Once every missing link has been restored, a listing reports none as missing, and succeeds.
pub proof fn no_restored_link_is_missing(
    host: ListHostView,
    bin_dir: Seq<u8>,
    registrations: Seq<RegistrationView>,
)
    requires
        restored(host, bin_dir, registrations),
        views::collected(registrations, inspector(bin_dir, host.before)) is Ok,
    ensures
        reported(host, bin_dir, registrations) matches ListPhaseView::Finished(Ok(result))
            && none_missing(result.registrations) && complete(result.registrations, registrations),
{
    let before = inspector(bin_dir, host.before);
    let after = inspector(bin_dir, host.after);
    views::collected_elements(registrations, before);
    states_are_complete(registrations, bin_dir, host.before);
    let old_states = views::collected(registrations, before)->Ok_0;
    let new_states = Seq::new(registrations.len(), |i: int| after(registrations[i])->Ok_0);
    assert forall|i: int| 0 <= i < registrations.len() implies after(#[trigger] registrations[i])
        == Ok::<RegistrationStateView, ApplicationErrorView>(new_states[i])
        && !listing::link_missing(new_states[i]) by {
        assert(before(registrations[i]) == Ok::<RegistrationStateView, ApplicationErrorView>(
            old_states[i],
        ));
    }
    views::all_collected(registrations, after, new_states);
    states_are_complete(registrations, bin_dir, host.after);
    assert forall|i: int| 0 <= i < new_states.len() implies !listing::link_missing(
        #[trigger] new_states[i],
    ) by {
        assert(after(registrations[i]) == Ok::<RegistrationStateView, ApplicationErrorView>(
            new_states[i],
        ));
    }
}

/// A listing and the machine that it runs on.
pub struct ListRunView {
    pub phase: ListPhaseView,
    pub machine: MachineView,
}

impl ListRunView {
    pub open spec fn step(self, environment: EnvironmentView) -> Self {
        let request = self.phase.request(environment);
        ListRunView {
            phase: self.phase.advance(self.machine.answer(request), environment),
            machine: self.machine.after(request),
        }
    }

    pub open spec fn reached(self, requests: nat, environment: EnvironmentView) -> Self
        decreases requests,
    {
        if requests == 0 {
            self
        } else {
            self.step(environment).reached((requests - 1) as nat, environment)
        }
    }
}

proof fn runs_in_parts(run: ListRunView, first: nat, second: nat, environment: EnvironmentView)
    ensures
        run.reached(first + second, environment) == run.reached(first, environment).reached(
            second,
            environment,
        ),
    decreases first,
{
    if first > 0 {
        runs_in_parts(run.step(environment), (first - 1) as nat, second, environment);
    }
}

/// The listing only looks in this phase, and has not come to its last look.
spec fn only_looks(phase: ListPhaseView) -> bool {
    match phase {
        ListPhaseView::Linking { .. } => false,
        ListPhaseView::Inspecting { pass, .. } => pass != Pass::Last,
        _ => true,
    }
}

proof fn looking_leaves_the_machine(
    run: ListRunView,
    host: ListHostView,
    n: nat,
    environment: EnvironmentView,
)
    requires
        host.configuration == run.machine.configuration,
        host.registry == run.machine.registry,
        host.before == run.machine.look,
        forall|k: nat| k < n ==> only_looks(#[trigger] host.reached(run.phase, k, environment)),
    ensures
        run.reached(n, environment) == (ListRunView {
            phase: host.reached(run.phase, n, environment),
            machine: run.machine,
        }),
    decreases n,
{
    if n > 0 {
        assert(only_looks(host.reached(run.phase, 0, environment)));
        let next = run.step(environment);
        assert(next.machine == run.machine);
        assert(next.phase == host.step(run.phase, environment));
        assert forall|k: nat| k < n - 1 implies only_looks(
            #[trigger] host.reached(next.phase, k, environment),
        ) by {
            assert(host.reached(run.phase, k + 1, environment) == host.reached(
                next.phase,
                k,
                environment,
            ));
        }
        looking_leaves_the_machine(next, host, (n - 1) as nat, environment);
    }
}

/// The listing reports what it sees in this phase, or is over.
spec fn reports(phase: ListPhaseView) -> bool {
    match phase {
        ListPhaseView::Inspecting { pass, .. } => pass == Pass::Last,
        ListPhaseView::Finished(_) => true,
        _ => false,
    }
}

proof fn reporting_leaves_the_machine(
    run: ListRunView,
    host: ListHostView,
    n: nat,
    environment: EnvironmentView,
)
    requires
        host.after == run.machine.look,
        reports(run.phase),
    ensures
        run.reached(n, environment) == (ListRunView {
            phase: host.reached(run.phase, n, environment),
            machine: run.machine,
        }),
    decreases n,
{
    if n > 0 {
        reveal(listing::inspect_on);
        let next = run.step(environment);
        assert(next.machine == run.machine);
        assert(next.phase == host.step(run.phase, environment));
        reporting_leaves_the_machine(next, host, (n - 1) as nat, environment);
    }
}

/// The machine with the links of some Registrations, the last of them first.
spec fn relinked(machine: MachineView, missing: Seq<RegistrationStateView>) -> MachineView
    decreases missing.len(),
{
    if missing.len() == 0 {
        machine
    } else {
        relinked(
            machine.linked(missing.last().managed_link, missing.last().registration.target),
            missing.drop_last(),
        )
    }
}

proof fn links_are_restored(
    machine: MachineView,
    bin_dir: Seq<u8>,
    registrations: Seq<RegistrationView>,
    missing: Seq<RegistrationStateView>,
    environment: EnvironmentView,
)
    ensures
        (ListRunView {
            phase: listing::link_on(bin_dir, registrations, missing),
            machine,
        }).reached(missing.len(), environment) == (ListRunView {
            phase: listing::report(bin_dir, registrations),
            machine: relinked(machine, missing),
        }),
    decreases missing.len(),
{
    let run = ListRunView { phase: listing::link_on(bin_dir, registrations, missing), machine };
    if missing.len() > 0 {
        let last = missing.last();
        let next = run.step(environment);
        assert(next.machine == machine.linked(last.managed_link, last.registration.target));
        assert(next.phase == listing::link_on(bin_dir, registrations, missing.drop_last()));
        links_are_restored(
            next.machine,
            bin_dir,
            registrations,
            missing.drop_last(),
            environment,
        );
    }
}

/// What links look like once they are restored, where none of them is the Target of another one.
proof fn what_is_restored(machine: MachineView, missing: Seq<RegistrationStateView>)
    requires
        forall|i: int, j: int|
            0 <= i < missing.len() && 0 <= j < missing.len() ==> (
            #[trigger] missing[i]).registration.target != (#[trigger] missing[j]).managed_link,
        forall|i: int, j: int|
            0 <= i < j < missing.len() ==> (#[trigger] missing[i]).managed_link != (
            #[trigger] missing[j]).managed_link,
    ensures
        ({
            let after = relinked(machine, missing);
            &&& after.configuration == machine.configuration
            &&& after.registry == machine.registry
            &&& after.absence == machine.absence
            &&& forall|i: int|
                0 <= i < missing.len() ==> (after.look)((#[trigger] missing[i]).managed_link) == (
                ObservationView {
                    entry: Ok(EntryKind::SymbolicLink),
                    link: Some(missing[i].registration.target),
                    followed: (machine.look)(missing[i].registration.target).followed,
                })
            &&& forall|p: Seq<u8>|
                (forall|i: int|
                    0 <= i < missing.len() ==> (#[trigger] missing[i]).managed_link != p)
                    ==> #[trigger] (after.look)(p) == (machine.look)(p)
        }),
    decreases missing.len(),
{
    if missing.len() > 0 {
        let last = missing.last();
        let rest = missing.drop_last();
        let n = missing.len() - 1;
        assert(missing[n] == last);
        let next = machine.linked(last.managed_link, last.registration.target);
        assert forall|i: int| 0 <= i < rest.len() implies rest[i] == #[trigger] missing[i] by {}
        what_is_restored(next, rest);
        let after = relinked(machine, missing);
        assert(after == relinked(next, rest));
        assert forall|i: int| 0 <= i < missing.len() implies (after.look)(
            (#[trigger] missing[i]).managed_link,
        ) == (ObservationView {
            entry: Ok(EntryKind::SymbolicLink),
            link: Some(missing[i].registration.target),
            followed: (machine.look)(missing[i].registration.target).followed,
        }) by {
            if i < n {
                assert(rest[i] == missing[i]);
                assert(missing[i].registration.target != missing[n].managed_link);
            } else {
                assert forall|j: int| 0 <= j < rest.len() implies (#[trigger] rest[j]).managed_link
                    != last.managed_link by {
                    assert(missing[j].managed_link != missing[n].managed_link);
                }
            }
        }
        assert forall|p: Seq<u8>|
            (forall|i: int|
                0 <= i < missing.len() ==> (#[trigger] missing[i]).managed_link
                    != p) implies #[trigger] (after.look)(p) == (machine.look)(p) by {
            assert forall|j: int| 0 <= j < rest.len() implies (#[trigger] rest[j]).managed_link
                != p by {
                assert(missing[j].managed_link != p);
            }
            assert(missing[n].managed_link != p);
        }
    }
}

/// The states whose link is missing are those that lack it, each once.
proof fn which_links_are_missing(states: Seq<RegistrationStateView>)
    ensures
        forall|k: int|
            0 <= k < listing::missing_links(states).len() ==> exists|i: int|
                0 <= i < states.len() && #[trigger] states[i] == #[trigger] listing::missing_links(
                    states,
                )[k] && listing::link_missing(states[i]),
        forall|i: int|
            0 <= i < states.len() && listing::link_missing(#[trigger] states[i])
                ==> listing::missing_links(states).contains(states[i]),
        (forall|i: int, j: int|
            0 <= i < j < states.len() ==> (#[trigger] states[i]).managed_link != (
            #[trigger] states[j]).managed_link) ==> forall|k: int, l: int|
            0 <= k < l < listing::missing_links(states).len() ==> (
            #[trigger] listing::missing_links(states)[k]).managed_link != (
            #[trigger] listing::missing_links(states)[l]).managed_link,
    decreases states.len(),
{
    if states.len() > 0 {
        let rest = states.drop_first();
        let before = listing::missing_links(rest);
        let all = listing::missing_links(states);
        which_links_are_missing(rest);
        assert forall|i: int| 0 <= i < rest.len() implies rest[i] == #[trigger] states[i + 1] by {}
        assert forall|k: int| 0 <= k < all.len() implies exists|i: int|
            0 <= i < states.len() && #[trigger] states[i] == #[trigger] all[k]
                && listing::link_missing(states[i]) by {
            if k < before.len() {
                assert(all[k] == before[k]);
                let i = choose|i: int|
                    0 <= i < rest.len() && #[trigger] rest[i] == before[k] && listing::link_missing(
                        rest[i],
                    );
                assert(states[i + 1] == all[k]);
            } else {
                assert(states[0] == all[k]);
            }
        }
        assert forall|i: int|
            0 <= i < states.len() && listing::link_missing(
                #[trigger] states[i],
            ) implies all.contains(states[i]) by {
            if i == 0 {
                assert(all[all.len() - 1] == states[0]);
            } else {
                assert(rest[i - 1] == states[i]);
                let k = choose|k: int| 0 <= k < before.len() && before[k] == rest[i - 1];
                assert(all[k] == states[i]);
            }
        }
        if forall|i: int, j: int|
            0 <= i < j < states.len() ==> (#[trigger] states[i]).managed_link != (
            #[trigger] states[j]).managed_link {
            assert forall|i: int, j: int| 0 <= i < j < rest.len() implies (
            #[trigger] rest[i]).managed_link != (#[trigger] rest[j]).managed_link by {
                assert(states[i + 1].managed_link != states[j + 1].managed_link);
            }
            assert forall|k: int, l: int| 0 <= k < l < all.len() implies (
            #[trigger] all[k]).managed_link != (#[trigger] all[l]).managed_link by {
                assert(all[k] == before[k]);
                if l < before.len() {
                    assert(all[l] == before[l]);
                } else {
                    let i = choose|i: int|
                        0 <= i < rest.len() && #[trigger] rest[i] == before[k]
                            && listing::link_missing(rest[i]);
                    assert(states[0].managed_link != states[i + 1].managed_link);
                }
            }
        }
    }
}

/// What is told of the Registrations of a machine.
spec fn told(
    machine: MachineView,
    bin_dir: Seq<u8>,
    registrations: Seq<RegistrationView>,
) -> Seq<RegistrationStateView> {
    Seq::new(
        registrations.len(),
        |i: int| state_of(bin_dir, machine.look, registrations[i])->Ok_0,
    )
}

/// Everything that a listing looks at can be looked at, and no managed path is a Target.
pub open spec fn can_be_listed(
    machine: MachineView,
    bin_dir: Seq<u8>,
    registrations: Seq<RegistrationView>,
    environment: EnvironmentView,
) -> bool {
    &&& operation_laws::holds(machine, bin_dir, registrations, environment)
    &&& forall|i: int|
        0 <= i < registrations.len() ==> machine.plain((#[trigger] registrations[i]).target)
            && machine.plain(operation_laws::managed(bin_dir, registrations[i].name))
    &&& forall|i: int, j: int|
        0 <= i < registrations.len() && 0 <= j < registrations.len() ==> (
        #[trigger] registrations[i]).target != operation_laws::managed(
            bin_dir,
            (#[trigger] registrations[j]).name,
        )
}

/// A Registration should be published, and is not.
pub open spec fn unpublished(
    machine: MachineView,
    bin_dir: Seq<u8>,
    registration: RegistrationView,
) -> bool {
    registration.enabled && machine.runs(registration.target) && machine.lacks(
        operation_laws::managed(bin_dir, registration.name),
    )
}

proof fn states_are_told(
    machine: MachineView,
    bin_dir: Seq<u8>,
    registrations: Seq<RegistrationView>,
    environment: EnvironmentView,
)
    requires
        can_be_listed(machine, bin_dir, registrations, environment),
    ensures
        ({
            let states = told(machine, bin_dir, registrations);
            &&& forall|i: int|
                0 <= i < registrations.len() ==> state_of(
                    bin_dir,
                    machine.look,
                    #[trigger] registrations[i],
                ) == Ok::<RegistrationStateView, ApplicationErrorView>(states[i])
            &&& forall|i: int|
                0 <= i < registrations.len() ==> {
                    &&& (#[trigger] states[i]).registration == registrations[i]
                    &&& states[i].managed_link == operation_laws::managed(
                        bin_dir,
                        registrations[i].name,
                    )
                    &&& listing::link_missing(states[i]) <==> unpublished(
                        machine,
                        bin_dir,
                        registrations[i],
                    )
                }
            &&& forall|i: int, j: int|
                0 <= i < j < states.len() ==> (#[trigger] states[i]).managed_link != (
                #[trigger] states[j]).managed_link
        }),
{
    operation_laws::what_a_machine_holds(machine, bin_dir, registrations, environment);
    let states = told(machine, bin_dir, registrations);
    assert forall|i: int| 0 <= i < registrations.len() implies state_of(
        bin_dir,
        machine.look,
        #[trigger] registrations[i],
    ) == Ok::<RegistrationStateView, ApplicationErrorView>(states[i]) && states[i].registration
        == registrations[i] && states[i].managed_link == operation_laws::managed(
        bin_dir,
        registrations[i].name,
    ) && (listing::link_missing(states[i]) <==> unpublished(machine, bin_dir, registrations[i]))
        by {
        let link = operation_laws::managed(bin_dir, registrations[i].name);
        operation_laws::where_a_managed_link_lies(bin_dir, registrations[i].name);
        operation_laws::a_state_is_told(
            registrations[i],
            bin_dir,
            (machine.look)(link),
            (machine.look)(registrations[i].target),
        );
    }
    assert forall|i: int, j: int| 0 <= i < j < states.len() implies (
    #[trigger] states[i]).managed_link != (#[trigger] states[j]).managed_link by {
        assert(states[i].registration == registrations[i]);
        operation_laws::where_a_managed_link_lies(bin_dir, registrations[i].name);
        operation_laws::where_a_managed_link_lies(bin_dir, registrations[j].name);
        if states[i].managed_link == states[j].managed_link {
            application::managed_links_are_distinct(
                bin_dir,
                registrations[i].name,
                registrations[j].name,
            );
        }
    }
}

proof fn missing_links_can_be_made(
    machine: MachineView,
    bin_dir: Seq<u8>,
    registrations: Seq<RegistrationView>,
    environment: EnvironmentView,
)
    requires
        can_be_listed(machine, bin_dir, registrations, environment),
    ensures
        ({
            let states = told(machine, bin_dir, registrations);
            let after = relinked(machine, listing::missing_links(states));
            &&& after.configuration == machine.configuration
            &&& after.registry == machine.registry
            &&& forall|i: int|
                0 <= i < registrations.len() ==> {
                    let link = operation_laws::managed(bin_dir, registrations[i].name);
                    &&& (after.look)((#[trigger] registrations[i]).target) == (machine.look)(
                        registrations[i].target,
                    )
                    &&& (after.look)(link) == if unpublished(machine, bin_dir, registrations[i]) {
                        ObservationView {
                            entry: Ok(EntryKind::SymbolicLink),
                            link: Some(registrations[i].target),
                            followed: (machine.look)(registrations[i].target).followed,
                        }
                    } else {
                        (machine.look)(link)
                    }
                }
            &&& forall|p: Seq<u8>|
                (forall|i: int|
                    0 <= i < registrations.len() && unpublished(
                        machine,
                        bin_dir,
                        #[trigger] registrations[i],
                    ) ==> operation_laws::managed(bin_dir, registrations[i].name) != p)
                    ==> #[trigger] (after.look)(p) == (machine.look)(p)
        }),
{
    states_are_told(machine, bin_dir, registrations, environment);
    let states = told(machine, bin_dir, registrations);
    let missing = listing::missing_links(states);
    which_links_are_missing(states);
    let after = relinked(machine, missing);
    assert forall|k: int, l: int|
        0 <= k < missing.len() && 0 <= l < missing.len() implies (
    #[trigger] missing[k]).registration.target != (#[trigger] missing[l]).managed_link by {
        let i = choose|i: int| 0 <= i < states.len() && #[trigger] states[i] == missing[k];
        let j = choose|j: int| 0 <= j < states.len() && #[trigger] states[j] == missing[l];
        assert(registrations[i].target != operation_laws::managed(
            bin_dir,
            registrations[j].name,
        ));
    }
    what_is_restored(machine, missing);
    assert forall|p: Seq<u8>|
        (forall|i: int|
            0 <= i < registrations.len() && unpublished(
                machine,
                bin_dir,
                #[trigger] registrations[i],
            ) ==> operation_laws::managed(bin_dir, registrations[i].name)
                != p) implies #[trigger] (after.look)(p) == (machine.look)(p) by {
        assert forall|k: int| 0 <= k < missing.len() implies (#[trigger] missing[k]).managed_link
            != p by {
            let j = choose|j: int|
                0 <= j < states.len() && #[trigger] states[j] == missing[k]
                    && listing::link_missing(states[j]);
            assert(unpublished(machine, bin_dir, registrations[j]));
        }
    }
    assert forall|i: int| 0 <= i < registrations.len() implies ({
        let link = operation_laws::managed(bin_dir, registrations[i].name);
        &&& (after.look)((#[trigger] registrations[i]).target) == (machine.look)(
            registrations[i].target,
        )
        &&& (after.look)(link) == if unpublished(machine, bin_dir, registrations[i]) {
            ObservationView {
                entry: Ok(EntryKind::SymbolicLink),
                link: Some(registrations[i].target),
                followed: (machine.look)(registrations[i].target).followed,
            }
        } else {
            (machine.look)(link)
        }
    }) by {
        let link = operation_laws::managed(bin_dir, registrations[i].name);
        assert(states[i].registration == registrations[i] && states[i].managed_link == link);
        if listing::link_missing(states[i]) {
            let k = choose|k: int| 0 <= k < missing.len() && missing[k] == states[i];
            assert(missing[k].managed_link == link);
        } else {
            assert forall|j: int|
                0 <= j < registrations.len() && unpublished(
                    machine,
                    bin_dir,
                    #[trigger] registrations[j],
                ) implies operation_laws::managed(bin_dir, registrations[j].name) != link by {
                assert(listing::link_missing(states[j]));
                if j < i {
                    assert(states[j].managed_link != states[i].managed_link);
                } else {
                    assert(states[i].managed_link != states[j].managed_link);
                }
            }
        }
    }
}

/// The run of a listing.
proof fn a_listing_runs(
    machine: MachineView,
    bin_dir: Seq<u8>,
    registrations: Seq<RegistrationView>,
    environment: EnvironmentView,
) -> (requests: nat)
    requires
        can_be_listed(machine, bin_dir, registrations, environment),
    ensures
        ({
            let states = told(machine, bin_dir, registrations);
            let after = relinked(machine, listing::missing_links(states));
            &&& requests <= 6 + 4 * registrations.len()
            &&& (ListRunView { phase: ListPhaseView::Configuring, machine }).reached(
                requests,
                environment,
            ) == (ListRunView {
                phase: if listing::missing_links(states).len() == 0 {
                    ListPhaseView::Finished(Ok(application::listed(states)))
                } else {
                    match views::collected(registrations, inspector(bin_dir, after.look)) {
                        Err(error) => listing::list_failed(error),
                        Ok(states) => ListPhaseView::Finished(Ok(application::listed(states))),
                    }
                },
                machine: after,
            })
        }),
{
    operation_laws::what_a_machine_holds(machine, bin_dir, registrations, environment);
    states_are_told(machine, bin_dir, registrations, environment);
    let start = ListPhaseView::Configuring;
    let run = ListRunView { phase: start, machine };
    let inspect = inspector(bin_dir, machine.look);
    let states = told(machine, bin_dir, registrations);
    views::all_collected(registrations, inspect, states);
    let missing = listing::missing_links(states);
    missing_links_are_few(states);
    let after = relinked(machine, missing);
    let host = ListHostView {
        configuration: machine.configuration,
        registry: machine.registry,
        before: machine.look,
        after: after.look,
    };
    let none = Seq::<RegistrationStateView>::empty();
    views::collected_of_none(registrations, inspect);
    let reading = host.step(start, environment);
    let first = host.step(reading, environment);
    assert(first == listing::inspect_on(Pass::First, bin_dir, registrations, none));
    assert(host.reached(start, 1, environment) == host.reached(reading, 0, environment));
    assert(host.reached(reading, 1, environment) == host.reached(first, 0, environment));
    assert(host.reached(start, 2, environment) == host.reached(reading, 1, environment));
    let a = a_pass_goes_through(host, Pass::First, bin_dir, registrations, none, environment);
    reached_in_parts(start, host, 2, a, environment);
    reveal(listing::inspect_on);
    let seen = passed(Pass::First, bin_dir, registrations, host.before);
    assert forall|k: nat| k < 2 + a implies only_looks(
        #[trigger] host.reached(start, k, environment),
    ) by {
        if k >= 2 {
            reached_in_parts(start, host, 2, (k - 2) as nat, environment);
            assert(host.reached(first, (k - 2) as nat, environment) is Inspecting);
        } else if k == 1 {
            assert(host.reached(start, 1, environment) == reading);
        } else {
            assert(host.reached(start, 0, environment) == start);
        }
    }
    looking_leaves_the_machine(run, host, 2 + a, environment);
    if missing.len() == 0 {
        2 + a
    } else {
        let b = the_rest_of_a_listing(
            machine,
            host,
            bin_dir,
            registrations,
            states,
            environment,
        );
        runs_in_parts(run, 2 + a, b, environment);
        2 + a + b
    }
}

/// The run of a listing that restores links, from where it has found that some are missing.
proof fn the_rest_of_a_listing(
    machine: MachineView,
    host: ListHostView,
    bin_dir: Seq<u8>,
    registrations: Seq<RegistrationView>,
    states: Seq<RegistrationStateView>,
    environment: EnvironmentView,
) -> (requests: nat)
    requires
        operation_laws::holds(machine, bin_dir, registrations, environment),
        views::collected(registrations, inspector(bin_dir, machine.look)) == Ok::<
            Seq<RegistrationStateView>,
            ApplicationErrorView,
        >(states),
        states.len() == registrations.len(),
        listing::missing_links(states).len() > 0,
        host == (ListHostView {
            configuration: machine.configuration,
            registry: machine.registry,
            before: machine.look,
            after: relinked(machine, listing::missing_links(states)).look,
        }),
    ensures
        requests <= 4 + 3 * registrations.len(),
        (ListRunView {
            phase: ListPhaseView::CreatingRegistryDirectory { bin_dir },
            machine,
        }).reached(requests, environment) == (ListRunView {
            phase: match views::collected(registrations, inspector(bin_dir, host.after)) {
                Err(error) => listing::list_failed(error),
                Ok(states) => ListPhaseView::Finished(Ok(application::listed(states))),
            },
            machine: relinked(machine, listing::missing_links(states)),
        }),
{
    operation_laws::what_a_machine_holds(machine, bin_dir, registrations, environment);
    let missing = listing::missing_links(states);
    missing_links_are_few(states);
    let after = relinked(machine, missing);
    let none = Seq::<RegistrationStateView>::empty();
    views::collected_of_none(registrations, inspector(bin_dir, machine.look));
    reveal(listing::inspect_on);
    let seen = ListPhaseView::CreatingRegistryDirectory { bin_dir };
    let run = ListRunView { phase: seen, machine };
    let locking = host.step(seen, environment);
    let rereading = host.step(locking, environment);
    let second = host.step(rereading, environment);
    assert(second == listing::inspect_on(Pass::Locked, bin_dir, registrations, none));
    assert(host.reached(seen, 0, environment) == seen);
    assert(host.reached(seen, 1, environment) == host.reached(locking, 0, environment));
    assert(host.reached(locking, 1, environment) == host.reached(rereading, 0, environment));
    assert(host.reached(seen, 2, environment) == host.reached(locking, 1, environment));
    assert(host.reached(rereading, 1, environment) == host.reached(second, 0, environment));
    assert(host.reached(locking, 2, environment) == host.reached(rereading, 1, environment));
    assert(host.reached(seen, 3, environment) == host.reached(locking, 2, environment));
    let b = a_pass_goes_through(host, Pass::Locked, bin_dir, registrations, none, environment);
    reached_in_parts(seen, host, 3, b, environment);
    let making = passed(Pass::Locked, bin_dir, registrations, host.before);
    assert(making == ListPhaseView::CreatingBinDirectory { bin_dir, registrations, missing });
    let linking = host.step(making, environment);
    assert(linking == listing::link_on(bin_dir, registrations, missing));
    assert(host.reached(making, 1, environment) == host.reached(linking, 0, environment));
    let m = 3 + b;
    reached_in_parts(seen, host, m, 1, environment);
    assert forall|k: nat| k < m + 1 implies only_looks(
        #[trigger] host.reached(seen, k, environment),
    ) by {
        if k >= 3 && k < m {
            reached_in_parts(seen, host, 3, (k - 3) as nat, environment);
            assert(host.reached(second, (k - 3) as nat, environment) is Inspecting);
        }
    }
    looking_leaves_the_machine(run, host, m + 1, environment);
    links_are_restored(machine, bin_dir, registrations, missing, environment);
    runs_in_parts(run, m + 1, missing.len(), environment);
    let c = a_report_goes_through(host, bin_dir, registrations, environment);
    let reporting = ListRunView { phase: listing::report(bin_dir, registrations), machine: after };
    assert(registrations.len() > 0);
    operation_laws::where_a_managed_link_lies(bin_dir, registrations[0].name);
    reporting_leaves_the_machine(reporting, host, c, environment);
    runs_in_parts(run, m + 1 + missing.len(), c, environment);
    m + 1 + missing.len() + c
}

/// A listing publishes what should be published and is not: where a Registration is enabled, its
/// Target can be run and nothing lies at its managed path, its link is there afterwards. Nothing
/// else changes: not the Registry, no other path, and nothing for a Registration that is disabled,
/// whose Target cannot be run or whose managed path is taken. The list then tells of every
/// Registration, in the order of the Registry, what is seen of it now; no link is missing.
pub proof fn what_a_listing_leaves(
    machine: MachineView,
    bin_dir: Seq<u8>,
    registrations: Seq<RegistrationView>,
    environment: EnvironmentView,
) -> (requests: nat)
    requires
        can_be_listed(machine, bin_dir, registrations, environment),
    ensures
        ({
            let end = (ListRunView { phase: ListPhaseView::Configuring, machine }).reached(
                requests,
                environment,
            );
            let after = end.machine;
            &&& requests <= 6 + 4 * registrations.len()
            &&& end.phase matches ListPhaseView::Finished(Ok(result)) && {
                &&& result.registrations.len() == registrations.len()
                &&& forall|i: int|
                    0 <= i < registrations.len() ==> application::inspected(
                        #[trigger] registrations[i],
                        bin_dir,
                        (after.look)(operation_laws::managed(bin_dir, registrations[i].name)),
                        (after.look)(registrations[i].target),
                    ) == Ok::<RegistrationStateView, ApplicationErrorView>(result.registrations[i])
                &&& none_missing(result.registrations)
            }
            &&& after.registry == machine.registry
            &&& after.configuration == machine.configuration
            &&& forall|i: int|
                0 <= i < registrations.len() && unpublished(
                    machine,
                    bin_dir,
                    #[trigger] registrations[i],
                ) ==> after.links(
                    operation_laws::managed(bin_dir, registrations[i].name),
                    registrations[i].target,
                )
            &&& forall|p: Seq<u8>|
                (forall|i: int|
                    0 <= i < registrations.len() && unpublished(
                        machine,
                        bin_dir,
                        #[trigger] registrations[i],
                    ) ==> operation_laws::managed(bin_dir, registrations[i].name) != p)
                    ==> #[trigger] (after.look)(p) == (machine.look)(p)
        }),
{
    operation_laws::what_a_machine_holds(machine, bin_dir, registrations, environment);
    states_are_told(machine, bin_dir, registrations, environment);
    missing_links_can_be_made(machine, bin_dir, registrations, environment);
    let requests = a_listing_runs(machine, bin_dir, registrations, environment);
    let states = told(machine, bin_dir, registrations);
    let missing = listing::missing_links(states);
    missing_links_are_few(states);
    which_links_are_missing(states);
    let after = relinked(machine, missing);
    let later = told(after, bin_dir, registrations);
    assert forall|i: int| 0 <= i < registrations.len() implies state_of(
        bin_dir,
        after.look,
        #[trigger] registrations[i],
    ) == Ok::<RegistrationStateView, ApplicationErrorView>(later[i]) && !listing::link_missing(
        later[i],
    ) by {
        let link = operation_laws::managed(bin_dir, registrations[i].name);
        operation_laws::where_a_managed_link_lies(bin_dir, registrations[i].name);
        assert(states[i].registration == registrations[i]);
        operation_laws::a_state_is_told(
            registrations[i],
            bin_dir,
            (after.look)(link),
            (after.look)(registrations[i].target),
        );
    }
    views::all_collected(registrations, inspector(bin_dir, after.look), later);
    if missing.len() == 0 {
        assert(after == machine);
        assert(later == states);
    }
    assert(none_missing(later)) by {
        assert forall|i: int| 0 <= i < later.len() implies !listing::link_missing(
            #[trigger] later[i],
        ) by {
            assert(state_of(bin_dir, after.look, registrations[i]) is Ok);
        }
    }
    assert forall|i: int| 0 <= i < registrations.len() implies application::inspected(
        #[trigger] registrations[i],
        bin_dir,
        (after.look)(operation_laws::managed(bin_dir, registrations[i].name)),
        (after.look)(registrations[i].target),
    ) == Ok::<RegistrationStateView, ApplicationErrorView>(later[i]) by {
        operation_laws::where_a_managed_link_lies(bin_dir, registrations[i].name);
        assert(state_of(bin_dir, after.look, registrations[i]) == Ok::<
            RegistrationStateView,
            ApplicationErrorView,
        >(later[i]));
    }
    requests
}

} // verus!
