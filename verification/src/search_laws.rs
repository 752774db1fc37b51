//! What a search comes to, from its beginning to its end.

use vstd::prelude::*;
use vstd::utf8;

use crate::application;
use crate::application::ApplicationErrorView;
use crate::configuration;
use crate::configuration::ConfigFileView;
use crate::discovery::DiscoveryView;
use crate::discovery_ignore;
use crate::discovery_ignore::IgnoreFileView;
use crate::environment::EnvironmentView;
use crate::host::{FileReadView, IoErrorKind, IoErrorView, ObservationView};
use crate::lifecycle;
use crate::model::{CandidateView, ConflictKind, NameConflictView, RegistrationView, SearchResultView};
use crate::path;
use crate::registry;
use crate::registry::RegistryFileView;
use crate::search;
use crate::search::{
    FindingsView,
    ProbeView,
    SearchEventView,
    SearchPhaseView,
    SearchQueryView,
    Verdict,
};
use crate::views;

verus! {

/// A host on which nothing changes while a search runs: what its files read as, what a walk of the
/// tree finds, and what is seen at each path.
pub struct SearchHostView {
    pub configuration: FileReadView<ConfigFileView>,
    pub registry: FileReadView<RegistryFileView>,
    pub ignored: FileReadView<IgnoreFileView>,
    pub discovered: Result<DiscoveryView, IoErrorView>,
    pub look: spec_fn(Seq<u8>) -> ObservationView,
}

impl SearchHostView {
    /// What the host reports when it is asked.
    pub open spec fn answer(self, query: SearchQueryView) -> SearchEventView {
        match query {
            SearchQueryView::ReadConfiguration(_) => SearchEventView::Configuration(
                self.configuration,
            ),
            SearchQueryView::ReadRegistry(_) => SearchEventView::Registry(self.registry),
            SearchQueryView::ReadIgnored(_) => SearchEventView::Ignored(self.ignored),
            SearchQueryView::Discover { .. } => SearchEventView::Discovered(self.discovered),
            SearchQueryView::Observe(paths) => SearchEventView::Observed(
                paths.map_values(self.look),
            ),
            SearchQueryView::Finish => SearchEventView::Observed(Seq::empty()),
        }
    }

    /// The phase that a search has come to, once the host has answered some queries.
    pub open spec fn after(
        self,
        phase: SearchPhaseView,
        answers: nat,
        environment: EnvironmentView,
    ) -> SearchPhaseView
        decreases answers,
    {
        if answers == 0 {
            phase
        } else {
            self.after(
                phase.advance(self.answer(phase.query(environment)), environment),
                (answers - 1) as nat,
                environment,
            )
        }
    }
}

/// The Targets that propose a name: those whose file name is text.
pub open spec fn proposing(targets: Seq<Seq<u8>>) -> Seq<Seq<u8>>
    decreases targets.len(),
{
    if targets.len() == 0 {
        targets
    } else {
        let before = proposing(targets.drop_last());
        if lifecycle::textual_file_name(targets.last()) is Some {
            before.push(targets.last())
        } else {
            before
        }
    }
}

/// The first conflict that applies to a Target without a Registration: its name is registered for
/// another Target, or proposed by another one, or something lies at its managed path.
pub open spec fn first_conflict(
    registrations: Seq<RegistrationView>,
    targets: Seq<Seq<u8>>,
    bin_dir: Seq<u8>,
    look: spec_fn(Seq<u8>) -> ObservationView,
    name: Seq<char>,
    target: Seq<u8>,
) -> Result<Option<NameConflictView>, ApplicationErrorView> {
    let managed_path = path::joined(bin_dir, utf8::encode_utf8(name));
    match (
        search::taken_name(registrations, name, target),
        search::rival_target(targets, name, target),
        look(managed_path).entry,
    ) {
        (Some(i), _, _) => Ok(
            Some(
                NameConflictView {
                    kind: ConflictKind::CommandNameRegistered,
                    conflicting_target: registrations[i].target,
                },
            ),
        ),
        (None, Some(i), _) => Ok(
            Some(
                NameConflictView {
                    kind: ConflictKind::DuplicateProposedName,
                    conflicting_target: targets[i],
                },
            ),
        ),
        (None, None, Ok(_)) => Ok(
            Some(
                NameConflictView {
                    kind: ConflictKind::ManagedPathOccupied,
                    conflicting_target: managed_path,
                },
            ),
        ),
        (None, None, Err(source)) => if source.kind == IoErrorKind::NotFound {
            Ok(None)
        } else {
            Err(ApplicationErrorView::InspectManagedPath { path: managed_path, source })
        },
    }
}

/// The candidate that a Target makes: with the state of its first Registration and a name that is
/// registered for another Target, or without a Registration and with the first conflict that
/// applies.
pub open spec fn candidate_for(
    registrations: Seq<RegistrationView>,
    targets: Seq<Seq<u8>>,
    bin_dir: Seq<u8>,
    look: spec_fn(Seq<u8>) -> ObservationView,
    target: Seq<u8>,
) -> Result<CandidateView, ApplicationErrorView> {
    let name = lifecycle::textual_file_name(target)->0;
    match search::registered_target(registrations, target) {
        Some(at) => match application::managed_link_of(bin_dir, registrations[at].name) {
            Err(error) => Err(error),
            Ok(link) => match application::inspected(
                registrations[at],
                bin_dir,
                look(link),
                look(registrations[at].target),
            ) {
                Err(error) => Err(error),
                Ok(state) => Ok(
                    CandidateView {
                        proposed_name: name,
                        target,
                        registration: Some(state),
                        conflict: match search::taken_name(registrations, name, target) {
                            Some(i) => Some(
                                NameConflictView {
                                    kind: ConflictKind::CommandNameRegistered,
                                    conflicting_target: registrations[i].target,
                                },
                            ),
                            None => None,
                        },
                    },
                ),
            },
        },
        None => match first_conflict(registrations, targets, bin_dir, look, name, target) {
            Err(error) => Err(error),
            Ok(conflict) => Ok(
                CandidateView { proposed_name: name, target, registration: None, conflict },
            ),
        },
    }
}

pub open spec fn candidate_maker(
    registrations: Seq<RegistrationView>,
    targets: Seq<Seq<u8>>,
    bin_dir: Seq<u8>,
    look: spec_fn(Seq<u8>) -> ObservationView,
) -> spec_fn(Seq<u8>) -> Result<CandidateView, ApplicationErrorView> {
    |target: Seq<u8>| candidate_for(registrations, targets, bin_dir, look, target)
}

/// What the Targets that were found come to: one candidate for each that proposes a name, in their
/// order, or the first error.
pub open spec fn judged_all(
    root: Seq<u8>,
    bin_dir: Seq<u8>,
    registrations: Seq<RegistrationView>,
    found: DiscoveryView,
    look: spec_fn(Seq<u8>) -> ObservationView,
) -> Result<SearchResultView, ApplicationErrorView> {
    match views::collected(
        proposing(found.targets),
        candidate_maker(registrations, found.targets, bin_dir, look),
    ) {
        Err(error) => Err(error),
        Ok(candidates) => Ok(
            SearchResultView {
                status: search::search_status(candidates),
                search_root: root,
                candidates,
                warnings: found.warnings,
            },
        ),
    }
}

/// What a search comes to.
pub open spec fn searched(
    host: SearchHostView,
    search_root: Option<Seq<u8>>,
    environment: EnvironmentView,
) -> Result<SearchResultView, ApplicationErrorView> {
    let root = search::search_root_of(search_root, environment);
    match configuration::loaded(environment, host.configuration) {
        Err(error) => Err(ApplicationErrorView::Configuration(error)),
        Ok(configuration) => match registry::loaded(environment, host.registry) {
            Err(error) => Err(ApplicationErrorView::Registry(error)),
            Ok(registrations) => match discovery_ignore::loaded(environment, host.ignored) {
                Err(error) => Err(ApplicationErrorView::DiscoveryIgnore(error)),
                Ok(_) => if path::components(root) == path::components(configuration.bin_dir) {
                    judged_all(
                        root,
                        configuration.bin_dir,
                        registrations,
                        DiscoveryView { targets: Seq::empty(), warnings: Seq::empty() },
                        host.look,
                    )
                } else {
                    match host.discovered {
                        Err(source) => Err(ApplicationErrorView::Search { path: root, source }),
                        Ok(found) => judged_all(
                            root,
                            configuration.bin_dir,
                            registrations,
                            found,
                            host.look,
                        ),
                    }
                },
            },
        },
    }
}

/// How many Targets a host finds.
pub open spec fn found_count(host: SearchHostView) -> nat {
    match host.discovered {
        Ok(found) => found.targets.len(),
        Err(_) => 0,
    }
}

spec fn maker_of(
    findings: FindingsView,
    look: spec_fn(Seq<u8>) -> ObservationView,
) -> spec_fn(Seq<u8>) -> Result<CandidateView, ApplicationErrorView> {
    candidate_maker(findings.registrations, findings.targets, findings.bin_dir, look)
}

/// The candidates so far are those of the Targets that were judged.
spec fn sound_so_far(findings: FindingsView, look: spec_fn(Seq<u8>) -> ObservationView) -> bool {
    &&& 0 <= findings.judged <= findings.targets.len()
    &&& views::collected(
        proposing(findings.targets.take(findings.judged)),
        maker_of(findings, look),
    ) == Ok::<Seq<CandidateView>, ApplicationErrorView>(findings.candidates)
}

/// What findings come to in the end.
spec fn end_of(
    findings: FindingsView,
    look: spec_fn(Seq<u8>) -> ObservationView,
) -> SearchPhaseView {
    SearchPhaseView::Finished(
        judged_all(
            findings.root,
            findings.bin_dir,
            findings.registrations,
            DiscoveryView { targets: findings.targets, warnings: findings.warnings },
            look,
        ),
    )
}

/// A phase in which findings are judged: it is over as it should be, or the Target that comes next
/// needs a look.
spec fn on_the_way(
    phase: SearchPhaseView,
    findings: FindingsView,
    look: spec_fn(Seq<u8>) -> ObservationView,
) -> bool {
    ||| phase == end_of(findings, look)
    ||| phase matches SearchPhaseView::Judging { findings: now, probe } && {
        &&& sound_so_far(now, look)
        &&& now.root == findings.root
        &&& now.bin_dir == findings.bin_dir
        &&& now.registrations == findings.registrations
        &&& now.targets == findings.targets
        &&& now.warnings == findings.warnings
        &&& findings.judged <= now.judged < now.targets.len()
        &&& probe_fits(now, probe)
    }
}

/// The look that the Target that comes next needs.
spec fn probe_fits(findings: FindingsView, probe: ProbeView) -> bool {
    match search::judged(
        findings.registrations,
        findings.targets,
        findings.targets[findings.judged],
    ) {
        Verdict::Registered { name, at, conflict } => application::managed_link_of(
            findings.bin_dir,
            findings.registrations[at].name,
        ) matches Ok(link) && probe == (ProbeView::Registered { name, at, link, conflict }),
        Verdict::Free { name } => probe == (ProbeView::Free {
            name,
            managed_path: path::joined(findings.bin_dir, utf8::encode_utf8(name)),
        }),
        _ => false,
    }
}

/// One more Target is judged: it makes its candidate, or ends the search with its error.
proof fn one_more(
    findings: FindingsView,
    look: spec_fn(Seq<u8>) -> ObservationView,
)
    requires
        sound_so_far(findings, look),
        findings.judged < findings.targets.len(),
    ensures
        ({
            let target = findings.targets[findings.judged];
            let made = maker_of(findings, look)(target);
            if lifecycle::textual_file_name(target) is None {
                sound_so_far(findings.next(), look)
            } else {
                &&& made matches Ok(candidate) ==> sound_so_far(findings.with(candidate), look)
                &&& made matches Err(error) ==> end_of(findings, look) == search::search_failed(
                    error,
                )
            }
        }),
{
    let k = findings.judged;
    let target = findings.targets[k];
    let all = findings.targets;
    let maker = maker_of(findings, look);
    assert(all.take(k + 1).drop_last() =~= all.take(k));
    assert(all.take(k + 1).last() == target);
    let before = proposing(all.take(k));
    let after = proposing(all.take(k + 1));
    if lifecycle::textual_file_name(target) is Some {
        assert(after.drop_last() =~= before);
        assert(after.last() == target);
        if maker(target) is Err {
            proposing_goes_on(all, k + 1);
            views::collected_of_prefix(proposing(all), maker, after.len() as int);
            assert(proposing(all).take(after.len() as int) =~= after);
        }
    }
}

/// What proposes a name among the first Targets does so among all.
proof fn proposing_goes_on(targets: Seq<Seq<u8>>, k: int)
    requires
        0 <= k <= targets.len(),
    ensures
        proposing(targets.take(k)).is_prefix_of(proposing(targets)),
    decreases targets.len(),
{
    if k == targets.len() {
        assert(targets.take(k) =~= targets);
        assert(proposing(targets) =~= proposing(targets).take(proposing(targets).len() as int));
    } else {
        let d = targets.drop_last();
        proposing_goes_on(d, k);
        assert(d.take(k) =~= targets.take(k));
        let a = proposing(targets.take(k));
        assert(a =~= proposing(d).take(a.len() as int));
        assert(a =~= proposing(targets).take(a.len() as int));
    }
}

/// Settling goes past what needs no look.
proof fn settling_is_on_the_way(
    findings: FindingsView,
    look: spec_fn(Seq<u8>) -> ObservationView,
)
    requires
        sound_so_far(findings, look),
    ensures
        on_the_way(findings.settle(), findings, look),
    decreases findings.targets.len() - findings.judged,
{
    if findings.judged >= findings.targets.len() {
        assert(findings.targets.take(findings.judged) =~= findings.targets);
    } else {
        let target = findings.targets[findings.judged];
        one_more(findings, look);
        reveal(search::judged);
        match search::judged(findings.registrations, findings.targets, target) {
            Verdict::Skipped => {
                settling_is_on_the_way(findings.next(), look);
            },
            Verdict::Conflicting { name, conflict } => {
                let candidate = findings.candidate(name, None, Some(conflict));
                assert(maker_of(findings, look)(target) == Ok::<
                    CandidateView,
                    ApplicationErrorView,
                >(candidate));
                settling_is_on_the_way(findings.with(candidate), look);
            },
            _ => {},
        }
    }
}

/// An honest look takes the findings on by one Target at least.
proof fn a_look_is_on_the_way(
    findings: FindingsView,
    probe: ProbeView,
    host: SearchHostView,
    environment: EnvironmentView,
)
    requires
        sound_so_far(findings, host.look),
        findings.judged < findings.targets.len(),
        probe_fits(findings, probe),
    ensures
        ({
            let phase = SearchPhaseView::Judging { findings, probe };
            let next = phase.advance(host.answer(phase.query(environment)), environment);
            &&& on_the_way(next, findings, host.look)
            &&& next matches SearchPhaseView::Judging { findings: now, .. } ==> now.judged
                > findings.judged
        }),
{
    let look = host.look;
    let target = findings.targets[findings.judged];
    let phase = SearchPhaseView::Judging { findings, probe };
    let made = maker_of(findings, look)(target);
    one_more(findings, look);
    reveal(search::judged);
    reveal(FindingsView::probed);
    match probe {
        ProbeView::Registered { name, at, link, conflict } => {
            let asked = seq![link, findings.registrations[at].target];
            assert(asked.map_values(look) =~= seq![look(asked[0]), look(asked[1])]);
        },
        ProbeView::Free { name, managed_path } => {
            let asked = seq![managed_path];
            assert(asked.map_values(look) =~= seq![look(managed_path)]);
        },
    }
    if let Ok(candidate) = made {
        settling_is_on_the_way(findings.with(candidate), look);
    }
}

proof fn judging_comes_to_an_end(
    phase: SearchPhaseView,
    start: FindingsView,
    host: SearchHostView,
    answers: nat,
    environment: EnvironmentView,
)
    requires
        on_the_way(phase, start, host.look),
        phase matches SearchPhaseView::Judging { findings, .. } ==> answers
            >= findings.targets.len() - findings.judged,
    ensures
        host.after(phase, answers, environment) == end_of(start, host.look),
    decreases answers,
{
    if let SearchPhaseView::Judging { findings, probe } = phase {
        a_look_is_on_the_way(findings, probe, host, environment);
        let next = phase.advance(host.answer(phase.query(environment)), environment);
        judging_comes_to_an_end(next, start, host, (answers - 1) as nat, environment);
    } else {
        an_end_stays(phase, host, answers, environment);
    }
}

proof fn an_end_stays(
    phase: SearchPhaseView,
    host: SearchHostView,
    answers: nat,
    environment: EnvironmentView,
)
    requires
        phase is Finished,
    ensures
        host.after(phase, answers, environment) == phase,
    decreases answers,
{
    if answers > 0 {
        an_end_stays(phase, host, (answers - 1) as nat, environment);
    }
}

proof fn judging_from_the_start(
    root: Seq<u8>,
    configuration: configuration::ConfigurationView,
    registrations: Seq<RegistrationView>,
    found: DiscoveryView,
    host: SearchHostView,
    answers: nat,
    environment: EnvironmentView,
)
    requires
        answers >= found.targets.len(),
    ensures
        host.after(
            search::findings_of(root, configuration, registrations, found).settle(),
            answers,
            environment,
        ) == SearchPhaseView::Finished(
            judged_all(root, configuration.bin_dir, registrations, found, host.look),
        ),
{
    let findings = search::findings_of(root, configuration, registrations, found);
    assert(findings.targets.take(0) =~= Seq::empty());
    settling_is_on_the_way(findings, host.look);
    judging_comes_to_an_end(findings.settle(), findings, host, answers, environment);
}

/// A search ends, after at most four answers and one for each Target that was found. It reports one
/// candidate for each Target whose file name is text, in the order in which they were found, each
/// with its first Registration and the first conflict that applies; or the first thing that went
/// wrong.
pub proof fn a_search_from_beginning_to_end(
    host: SearchHostView,
    search_root: Option<Seq<u8>>,
    environment: EnvironmentView,
    answers: nat,
)
    requires
        answers >= 4 + found_count(host),
    ensures
        host.after(SearchPhaseView::Configuring { search_root }, answers, environment)
            == SearchPhaseView::Finished(searched(host, search_root, environment)),
{
    let start = SearchPhaseView::Configuring { search_root };
    let root = search::search_root_of(search_root, environment);
    let one = start.advance(host.answer(start.query(environment)), environment);
    let two = one.advance(host.answer(one.query(environment)), environment);
    let three = two.advance(host.answer(two.query(environment)), environment);
    let four = three.advance(host.answer(three.query(environment)), environment);
    let n1 = (answers - 1) as nat;
    let n2 = (answers - 2) as nat;
    let n3 = (answers - 3) as nat;
    let n4 = (answers - 4) as nat;
    assert(host.after(start, answers, environment) == host.after(one, n1, environment));
    match configuration::loaded(environment, host.configuration) {
        Err(_) => {
            an_end_stays(one, host, n1, environment);
        },
        Ok(configuration) => {
            assert(host.after(one, n1, environment) == host.after(two, n2, environment));
            match registry::loaded(environment, host.registry) {
                Err(_) => {
                    an_end_stays(two, host, n2, environment);
                },
                Ok(registrations) => {
                    assert(host.after(two, n2, environment) == host.after(three, n3, environment));
                    match discovery_ignore::loaded(environment, host.ignored) {
                        Err(_) => {
                            an_end_stays(three, host, n3, environment);
                        },
                        Ok(_) => {
                            if path::components(root) == path::components(configuration.bin_dir) {
                                judging_from_the_start(
                                    root,
                                    configuration,
                                    registrations,
                                    DiscoveryView {
                                        targets: Seq::empty(),
                                        warnings: Seq::empty(),
                                    },
                                    host,
                                    n3,
                                    environment,
                                );
                            } else {
                                assert(host.after(three, n3, environment) == host.after(
                                    four,
                                    n4,
                                    environment,
                                ));
                                match host.discovered {
                                    Err(_) => {
                                        an_end_stays(four, host, n4, environment);
                                    },
                                    Ok(found) => {
                                        judging_from_the_start(
                                            root,
                                            configuration,
                                            registrations,
                                            found,
                                            host,
                                            n4,
                                            environment,
                                        );
                                    },
                                }
                            }
                        },
                    }
                },
            }
        },
    }
}

/// A search that ends well has one candidate for each Target that proposes a name, in order.
pub proof fn one_candidate_for_each_target(
    root: Seq<u8>,
    bin_dir: Seq<u8>,
    registrations: Seq<RegistrationView>,
    found: DiscoveryView,
    look: spec_fn(Seq<u8>) -> ObservationView,
)
    ensures
        judged_all(root, bin_dir, registrations, found, look) matches Ok(result) ==> {
            let targets = proposing(found.targets);
            &&& result.candidates.len() == targets.len()
            &&& forall|i: int|
                0 <= i < targets.len() ==> {
                    &&& (#[trigger] result.candidates[i]).target == targets[i]
                    &&& Some(result.candidates[i].proposed_name) == lifecycle::textual_file_name(
                        targets[i],
                    )
                }
        },
{
    let targets = proposing(found.targets);
    let maker = candidate_maker(registrations, found.targets, bin_dir, look);
    if views::collected(targets, maker) is Ok {
        views::collected_elements(targets, maker);
        let candidates = views::collected(targets, maker)->Ok_0;
        assert forall|i: int| 0 <= i < targets.len() implies {
            &&& (#[trigger] candidates[i]).target == targets[i]
            &&& Some(candidates[i].proposed_name) == lifecycle::textual_file_name(targets[i])
        } by {
            assert(maker(targets[i]) == Ok::<CandidateView, ApplicationErrorView>(candidates[i]));
            proposing_targets_have_names(found.targets, i);
        }
    }
}

proof fn proposing_targets_have_names(targets: Seq<Seq<u8>>, i: int)
    requires
        0 <= i < proposing(targets).len(),
    ensures
        lifecycle::textual_file_name(proposing(targets)[i]) is Some,
        targets.contains(proposing(targets)[i]),
    decreases targets.len(),
{
    let d = targets.drop_last();
    if i < proposing(d).len() {
        proposing_targets_have_names(d, i);
        let j = choose|j: int| 0 <= j < d.len() && d[j] == proposing(d)[i];
        assert(targets[j] == proposing(targets)[i]);
    } else {
        assert(targets[targets.len() - 1] == proposing(targets)[i]);
    }
}

} // verus!
