//! What the candidates of a search are, in terms of the Registry and of what was found.

use vstd::prelude::*;
use vstd::utf8;

use crate::application;
use crate::application::{AddRequestView, ApplicationErrorView};
use crate::configuration;
use crate::discovery::DiscoveryView;
use crate::environment::EnvironmentView;
use crate::host::ObservationView;
use crate::lifecycle;
use crate::lifecycle::PreparedView;
use crate::model::{CandidateView, ConflictKind, RegistrationView, SearchResultView, SearchStatus};
use crate::path;
use crate::registry;
use crate::search;
use crate::search::SearchPhaseView;
use crate::search_laws;
use crate::search_laws::SearchHostView;
use crate::views;

verus! {

/// A path has an ordinary last name that is text.
pub open spec fn textually_named(target: Seq<u8>) -> bool {
    &&& path::names(target).len() > 0
    &&& path::names(target).last() != seq![46u8, 46u8]
    &&& utf8::valid_utf8(path::names(target).last())
}

/// A path proposes the last of its names, all of it, where that is text and leads nowhere else; and
/// only such a path proposes a name.
pub proof fn the_last_name_is_proposed(target: Seq<u8>)
    ensures
        lifecycle::textual_file_name(target) is Some <==> textually_named(target),
        lifecycle::textual_file_name(target) matches Some(name) ==> utf8::encode_utf8(name)
            == path::names(target).last(),
        utf8::valid_utf8(target) && path::names(target).len() > 0 && path::names(target).last()
            != seq![46u8, 46u8] ==> textually_named(target),
{
    assert(path::parent_name() =~= seq![46u8, 46u8]);
    if textually_named(target) {
        utf8::decode_utf8_encode_utf8(path::names(target).last());
    }
    if utf8::valid_utf8(target) && path::names(target).len() > 0 {
        path::names_of_text_are_text(target);
    }
}

/// What an addition registers: the Target that was asked for, made absolute, under the name that
/// was asked for, or else under the last name of the Target.
pub proof fn what_an_addition_prepares(
    request: AddRequestView,
    bin_dir: Seq<u8>,
    target: Seq<u8>,
    seen: ObservationView,
    prepared: PreparedView,
)
    requires
        lifecycle::prepared_for(request, bin_dir, target, seen) == Ok::<
            PreparedView,
            ApplicationErrorView,
        >(prepared),
    ensures
        prepared.target == target,
        prepared.disabled == request.disabled,
        request.name matches Some(name) ==> prepared.name == name,
        request.name is None ==> textually_named(target) && utf8::encode_utf8(prepared.name)
            == path::names(target).last(),
        registry::valid_name(prepared.name),
        utf8::valid_utf8(target),
        seen.followed matches Ok(facts) && facts.is_file && facts.mode & 0o111 != 0,
{
    the_last_name_is_proposed(target);
}

/// Where nothing speaks against a Target and its name, the addition is prepared.
pub proof fn when_an_addition_is_prepared(
    request: AddRequestView,
    bin_dir: Seq<u8>,
    target: Seq<u8>,
    seen: ObservationView,
)
    requires
        path::absolute(bin_dir),
        path::normalized(bin_dir) == bin_dir,
        utf8::valid_utf8(target),
        seen.followed matches Ok(facts) && facts.is_file && facts.mode & 0o111 != 0,
        match request.name {
            Some(name) => registry::valid_name(name),
            None => textually_named(target) && !path::names(target).last().contains(0),
        },
    ensures
        lifecycle::prepared_for(request, bin_dir, target, seen) is Ok,
{
    the_last_name_is_proposed(target);
    if request.name is None {
        let name = lifecycle::textual_file_name(target)->0;
        path::names_are_clean(target);
        let bytes = path::names(target).last();
        assert(path::clean_name(path::names(target)[path::names(target).len() - 1]));
        crate::text::ascii_bytes_of_text(name, 47);
        crate::text::ascii_bytes_of_text(name, 0);
        assert(!name.contains('/')) by {
            if bytes.contains(47) {
                let i = choose|i: int| 0 <= i < bytes.len() && bytes[i] == 47;
                assert(bytes[i] != 47u8);
            }
        }
        dots_are_dots();
        if name.len() == 0 {
            utf8::encode_utf8_decode_utf8(name);
            assert(utf8::encode_utf8(name).len() == 0) by {
                reveal_with_fuel(utf8::encode_utf8, 1);
            }
        }
    }
    application::a_valid_name_has_a_managed_link(
        bin_dir,
        match request.name {
            Some(name) => name,
            None => lifecycle::textual_file_name(target)->0,
        },
    );
}

proof fn dots_are_dots()
    ensures
        utf8::encode_utf8("."@) == seq![46u8],
        utf8::encode_utf8(".."@) == seq![46u8, 46u8],
{
    reveal_strlit(".");
    reveal_strlit("..");
    let none = Seq::<char>::empty();
    crate::text::encoding_of_ascii('.', none);
    crate::text::encoding_of_ascii('.', seq!['.']);
    assert(seq!['.'] + none =~= "."@);
    assert(seq!['.'] + seq!['.'] =~= ".."@);
    assert("."@ =~= seq!['.']);
    assert(utf8::encode_utf8(none).len() == 0) by {
        reveal_with_fuel(utf8::encode_utf8, 1);
    }
    assert(utf8::encode_utf8("."@) =~= seq![46u8]);
    assert(utf8::encode_utf8(".."@) =~= seq![46u8, 46u8]);
}

/// A Registration gives a name to another Target, whether it is enabled or not.
pub open spec fn takes_the_name(
    registration: RegistrationView,
    name: Seq<char>,
    target: Seq<u8>,
) -> bool {
    registration.name == name && path::components(registration.target) != path::components(target)
}

/// A Registration is of a Target.
pub open spec fn registers(registration: RegistrationView, target: Seq<u8>) -> bool {
    path::components(registration.target) == path::components(target)
}

/// Another Target proposes a name.
pub open spec fn rivals(other: Seq<u8>, name: Seq<char>, target: Seq<u8>) -> bool {
    &&& textually_named(other)
    &&& path::names(other).last() == utf8::encode_utf8(name)
    &&& path::components(other) != path::components(target)
}

proof fn taken_names(registrations: Seq<RegistrationView>, name: Seq<char>, target: Seq<u8>)
    ensures
        match search::taken_name(registrations, name, target) {
            Some(at) => 0 <= at < registrations.len() && takes_the_name(
                registrations[at],
                name,
                target,
            ) && forall|i: int|
                0 <= i < at ==> !takes_the_name(#[trigger] registrations[i], name, target),
            None => forall|i: int|
                0 <= i < registrations.len() ==> !takes_the_name(
                    #[trigger] registrations[i],
                    name,
                    target,
                ),
        },
    decreases registrations.len(),
{
    if registrations.len() > 0 {
        let before = registrations.drop_last();
        taken_names(before, name, target);
        assert(forall|i: int|
            0 <= i < before.len() ==> #[trigger] registrations[i] == before[i]);
    }
}

proof fn registered_targets(registrations: Seq<RegistrationView>, target: Seq<u8>)
    ensures
        match search::registered_target(registrations, target) {
            Some(at) => 0 <= at < registrations.len() && registers(registrations[at], target)
                && forall|i: int|
                0 <= i < at ==> !registers(#[trigger] registrations[i], target),
            None => forall|i: int|
                0 <= i < registrations.len() ==> !registers(#[trigger] registrations[i], target),
        },
    decreases registrations.len(),
{
    if registrations.len() > 0 {
        let before = registrations.drop_last();
        registered_targets(before, target);
        assert(forall|i: int|
            0 <= i < before.len() ==> #[trigger] registrations[i] == before[i]);
    }
}

proof fn rival_targets(targets: Seq<Seq<u8>>, name: Seq<char>, target: Seq<u8>)
    ensures
        match search::rival_target(targets, name, target) {
            Some(at) => 0 <= at < targets.len() && rivals(targets[at], name, target) && forall|
                i: int,
            |
                0 <= i < at ==> !rivals(#[trigger] targets[i], name, target),
            None => forall|i: int|
                0 <= i < targets.len() ==> !rivals(#[trigger] targets[i], name, target),
        },
    decreases targets.len(),
{
    if targets.len() > 0 {
        let before = targets.drop_last();
        rival_targets(before, name, target);
        assert(forall|i: int| 0 <= i < before.len() ==> #[trigger] targets[i] == before[i]);
        the_last_name_is_proposed(targets.last());
        utf8::encode_utf8_decode_utf8(name);
        if textually_named(targets.last()) {
            let other = lifecycle::textual_file_name(targets.last())->0;
            utf8::encode_utf8_decode_utf8(other);
        }
    }
}

/// What a candidate says of its Target, where the Registry and the Targets that were found are
/// these.
///
/// Its name is the last name of its Target. It has the first Registration of that Target, if there
/// is one. Its name is reported as registered exactly where some Registration gives that name to
/// another Target, enabled or not. Of a Target without a Registration it is reported, in this order
/// and only where nothing before it applies, that another Target proposes the same name, and that
/// something lies at the managed path.
pub open spec fn tells_the_truth(
    candidate: CandidateView,
    registrations: Seq<RegistrationView>,
    targets: Seq<Seq<u8>>,
    bin_dir: Seq<u8>,
    look: spec_fn(Seq<u8>) -> ObservationView,
) -> bool {
    let name = candidate.proposed_name;
    let target = candidate.target;
    let managed_path = path::joined(bin_dir, utf8::encode_utf8(name));
    let taken = exists|i: int|
        0 <= i < registrations.len() && takes_the_name(#[trigger] registrations[i], name, target);
    let rivalled = exists|i: int|
        0 <= i < targets.len() && rivals(#[trigger] targets[i], name, target);
    &&& textually_named(target)
    &&& utf8::encode_utf8(name) == path::names(target).last()
    &&& match candidate.registration {
        Some(state) => exists|i: int|
            {
                &&& 0 <= i < registrations.len()
                &&& registers(#[trigger] registrations[i], target)
                &&& state.registration == registrations[i]
                &&& forall|j: int| 0 <= j < i ==> !registers(#[trigger] registrations[j], target)
            },
        None => forall|i: int|
            0 <= i < registrations.len() ==> !registers(#[trigger] registrations[i], target),
    }
    &&& (candidate.conflict matches Some(conflict) && conflict.kind
        == ConflictKind::CommandNameRegistered) <==> taken
    &&& (candidate.conflict matches Some(conflict) && conflict.kind
        == ConflictKind::DuplicateProposedName) <==> !taken && candidate.registration is None
        && rivalled
    &&& (candidate.conflict matches Some(conflict) && conflict.kind
        == ConflictKind::ManagedPathOccupied) <==> !taken && candidate.registration is None
        && !rivalled && look(managed_path).entry is Ok
    &&& candidate.conflict matches Some(conflict) ==> match conflict.kind {
        ConflictKind::CommandNameRegistered => exists|i: int|
            {
                &&& 0 <= i < registrations.len()
                &&& takes_the_name(#[trigger] registrations[i], name, target)
                &&& conflict.conflicting_target == registrations[i].target
                &&& forall|j: int|
                    0 <= j < i ==> !takes_the_name(#[trigger] registrations[j], name, target)
            },
        ConflictKind::DuplicateProposedName => exists|i: int|
            {
                &&& 0 <= i < targets.len()
                &&& rivals(#[trigger] targets[i], name, target)
                &&& conflict.conflicting_target == targets[i]
                &&& forall|j: int| 0 <= j < i ==> !rivals(#[trigger] targets[j], name, target)
            },
        ConflictKind::ManagedPathOccupied => conflict.conflicting_target == managed_path,
    }
}

proof fn a_candidate_tells_the_truth(
    registrations: Seq<RegistrationView>,
    targets: Seq<Seq<u8>>,
    bin_dir: Seq<u8>,
    look: spec_fn(Seq<u8>) -> ObservationView,
    target: Seq<u8>,
    candidate: CandidateView,
)
    requires
        lifecycle::textual_file_name(target) is Some,
        search_laws::candidate_for(registrations, targets, bin_dir, look, target) == Ok::<
            CandidateView,
            ApplicationErrorView,
        >(candidate),
    ensures
        tells_the_truth(candidate, registrations, targets, bin_dir, look),
        candidate.target == target,
{
    the_last_name_is_proposed(target);
    let name = lifecycle::textual_file_name(target)->0;
    taken_names(registrations, name, target);
    registered_targets(registrations, target);
    rival_targets(targets, name, target);
}

/// What was found, where the root of a search is the managed directory: nothing is looked for there.
pub open spec fn findings(
    host: SearchHostView,
    root: Seq<u8>,
    bin_dir: Seq<u8>,
) -> Option<DiscoveryView> {
    if path::components(root) == path::components(bin_dir) {
        Some(DiscoveryView { targets: Seq::empty(), warnings: Seq::empty() })
    } else {
        match host.discovered {
            Ok(found) => Some(found),
            Err(_) => None,
        }
    }
}

/// A search that ends well reports, in the order in which they were found, each Target whose last
/// name is text, and of each of them the truth; it passes on the warnings, and is blocked exactly
/// where a candidate has a conflict.
pub proof fn what_a_search_reports(
    host: SearchHostView,
    search_root: Option<Seq<u8>>,
    environment: EnvironmentView,
    answers: nat,
    result: SearchResultView,
)
    requires
        answers >= 4 + search_laws::found_count(host),
        host.after(SearchPhaseView::Configuring { search_root }, answers, environment)
            == SearchPhaseView::Finished(Ok(result)),
    ensures
        ({
            let root = path::normalized(
                match search_root {
                    Some(root) => if path::absolute(root) {
                        root
                    } else {
                        path::joined(environment.cwd, root)
                    },
                    None => if path::absolute(environment.cwd) {
                        environment.cwd
                    } else {
                        path::joined(environment.cwd, environment.cwd)
                    },
                },
            );
            let configured = configuration::loaded(environment, host.configuration);
            let registered = registry::loaded(environment, host.registry);
            &&& configured is Ok && registered is Ok
            &&& result.search_root == root
            &&& findings(host, root, configured->Ok_0.bin_dir) matches Some(found) && {
                &&& result.candidates.map_values(|candidate: CandidateView| candidate.target)
                    == found.targets.filter(|target: Seq<u8>| textually_named(target))
                &&& forall|k: int|
                    0 <= k < result.candidates.len() ==> tells_the_truth(
                        #[trigger] result.candidates[k],
                        registered->Ok_0,
                        found.targets,
                        configured->Ok_0.bin_dir,
                        host.look,
                    )
                &&& result.warnings == found.warnings
            }
            &&& result.status == SearchStatus::Blocked <==> exists|k: int|
                0 <= k < result.candidates.len() && (#[trigger] result.candidates[k]).conflict
                    is Some
        }),
{
    search_laws::a_search_from_beginning_to_end(host, search_root, environment, answers);
    assert(search_laws::searched(host, search_root, environment) == Ok::<
        SearchResultView,
        ApplicationErrorView,
    >(result));
    let root = search::search_root_of(search_root, environment);
    let bin_dir = configuration::loaded(environment, host.configuration)->Ok_0.bin_dir;
    let registrations = registry::loaded(environment, host.registry)->Ok_0;
    let found = findings(host, root, bin_dir)->0;
    let targets = search_laws::proposing(found.targets);
    let maker = search_laws::candidate_maker(registrations, found.targets, bin_dir, host.look);
    views::collected_elements(targets, maker);
    search_laws::one_candidate_for_each_target(
        root,
        bin_dir,
        registrations,
        found,
        host.look,
    );
    named_targets(found.targets);
    assert forall|k: int| 0 <= k < result.candidates.len() implies tells_the_truth(
        #[trigger] result.candidates[k],
        registrations,
        found.targets,
        bin_dir,
        host.look,
    ) by {
        assert(maker(targets[k]) == Ok::<CandidateView, ApplicationErrorView>(
            result.candidates[k],
        ));
        assert(Some(result.candidates[k].proposed_name) == lifecycle::textual_file_name(
            targets[k],
        ));
        a_candidate_tells_the_truth(
            registrations,
            found.targets,
            bin_dir,
            host.look,
            targets[k],
            result.candidates[k],
        );
    }
    assert(result.candidates.map_values(|candidate: CandidateView| candidate.target) =~= targets);
}

proof fn named_targets(targets: Seq<Seq<u8>>)
    ensures
        search_laws::proposing(targets) == targets.filter(
            |target: Seq<u8>| textually_named(target),
        ),
    decreases targets.len(),
{
    reveal(Seq::filter);
    if targets.len() > 0 {
        named_targets(targets.drop_last());
        the_last_name_is_proposed(targets.last());
    }
}

} // verus!
