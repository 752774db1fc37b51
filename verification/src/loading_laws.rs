//! What the lists of the interface hold once a search or the Registrations were loaded, and how they
//! are ordered.

use vstd::prelude::*;

use crate::application::ApplicationErrorView;
use crate::model::{
    CandidateView,
    LifecycleResultView,
    LifecycleStatus,
    ListResultView,
    RegistrationStateView,
    SearchResultView,
    SearchWarningView,
};
use crate::order;
use crate::path;
use crate::reading_laws;
use crate::text;
use crate::tui;
use crate::tui::{
    ControllerView,
    ItemListView,
    ListEntryView,
    OperationErrorView,
    OperationResultView,
    PlacedCandidateView,
};
use crate::tui_laws;

verus! {

/// An entry is for the path `target`.
pub open spec fn is_for(entry: ListEntryView, target: Seq<u8>) -> bool {
    path::components(entry.target) == path::components(target)
}

/// A list has an entry for the path `target`.
pub open spec fn knows(entries: Seq<ListEntryView>, target: Seq<u8>) -> bool {
    exists|i: int| 0 <= i < entries.len() && is_for(#[trigger] entries[i], target)
}

/// The last entry for the path `target` is the one at `i`.
pub open spec fn last_for(entries: Seq<ListEntryView>, target: Seq<u8>, i: int) -> bool {
    &&& 0 <= i < entries.len()
    &&& is_for(entries[i], target)
    &&& forall|j: int| i < j < entries.len() ==> !is_for(#[trigger] entries[j], target)
}

/// An entry for the path `target` that has no Registration.
pub open spec fn is_free_for(entry: ListEntryView, target: Seq<u8>) -> bool {
    is_for(entry, target) && entry.registration is None
}

/// The last entry for the path `target` without a Registration is the one at `i`.
pub open spec fn last_free_for(entries: Seq<ListEntryView>, target: Seq<u8>, i: int) -> bool {
    &&& 0 <= i < entries.len()
    &&& is_free_for(entries[i], target)
    &&& forall|j: int| i < j < entries.len() ==> !is_free_for(#[trigger] entries[j], target)
}

/// A candidate is offered: it has no Registration, or got it in this session.
pub open spec fn offered(candidate: CandidateView, session: Seq<Seq<u8>>) -> bool {
    ||| candidate.registration is None
    ||| exists|i: int|
        0 <= i < session.len() && path::components(#[trigger] session[i]) == path::components(
            candidate.target,
        )
}

/// An entry stands for a candidate: for its path, with its Registration, and not to be had where its
/// name is taken. Its name is the one that was last entered for an unregistered path; where there is
/// none, it is the name of the Registration, or else the one that is proposed.
pub open spec fn stands_for(
    entry: ListEntryView,
    candidate: CandidateView,
    before: Seq<ListEntryView>,
) -> bool {
    &&& entry.target == candidate.target
    &&& entry.registration == candidate.registration
    &&& entry.unavailable <==> candidate.conflict is Some
    &&& forall|i: int| last_free_for(before, candidate.target, i) ==> entry.name == before[i].name
    &&& (forall|i: int|
        0 <= i < before.len() ==> !is_free_for(#[trigger] before[i], candidate.target)) ==> match candidate.registration {
        Some(state) => entry.name == state.registration.name,
        None => entry.name == candidate.proposed_name,
    }
}

proof fn entries_are_found(entries: Seq<ListEntryView>, target: Seq<u8>)
    ensures
        tui::entry_of_target(entries, target) is Some <==> knows(entries, target),
        forall|i: int|
            #[trigger] last_for(entries, target, i) <==> tui::entry_of_target(entries, target)
                == Some(i),
    decreases entries.len(),
{
    if entries.len() > 0 {
        let rest = entries.drop_last();
        entries_are_found(rest, target);
        assert(entries.last() == entries[entries.len() - 1]);
        if is_for(entries.last(), target) {
            assert(knows(entries, target));
        } else {
            if knows(rest, target) {
                let i = choose|i: int| 0 <= i < rest.len() && is_for(#[trigger] rest[i], target);
                assert(is_for(entries[i], target));
            }
            if knows(entries, target) {
                let i = choose|i: int| 0 <= i < entries.len() && is_for(#[trigger] entries[i], target);
                assert(is_for(rest[i], target));
            }
        }
        assert forall|i: int|
            #[trigger] last_for(entries, target, i) <==> tui::entry_of_target(entries, target)
                == Some(i) by {
            if is_for(entries.last(), target) {
                if last_for(entries, target, i) && i < entries.len() - 1 {
                    assert(!is_for(entries[entries.len() - 1], target));
                }
            } else {
                if last_for(entries, target, i) {
                    assert forall|j: int| i < j < rest.len() implies !is_for(
                        #[trigger] rest[j],
                        target,
                    ) by {
                        assert(entries[j] == rest[j]);
                    }
                    assert(last_for(rest, target, i));
                }
                if last_for(rest, target, i) {
                    assert forall|j: int| i < j < entries.len() implies !is_for(
                        #[trigger] entries[j],
                        target,
                    ) by {
                        if j < rest.len() {
                            assert(entries[j] == rest[j]);
                        }
                    }
                }
            }
        }
    }
}

proof fn edited_names_are_found(entries: Seq<ListEntryView>, target: Seq<u8>)
    ensures
        forall|i: int|
            last_free_for(entries, target, i) ==> tui::edited_name(entries, target) == Some(
                #[trigger] entries[i].name,
            ),
        (forall|i: int| 0 <= i < entries.len() ==> !is_free_for(#[trigger] entries[i], target)) ==> (
        tui::edited_name(entries, target) is None),
    decreases entries.len(),
{
    if entries.len() > 0 {
        let rest = entries.drop_last();
        edited_names_are_found(rest, target);
        assert(entries.last() == entries[entries.len() - 1]);
        assert forall|i: int| last_free_for(entries, target, i) implies tui::edited_name(
            entries,
            target,
        ) == Some(#[trigger] entries[i].name) by {
            if i < entries.len() - 1 {
                assert(!is_free_for(entries[entries.len() - 1], target));
                assert forall|j: int| i < j < rest.len() implies !is_free_for(
                    #[trigger] rest[j],
                    target,
                ) by {
                    assert(entries[j] == rest[j]);
                }
                assert(last_free_for(rest, target, i));
                assert(rest[i] == entries[i]);
            }
        }
        if forall|i: int| 0 <= i < entries.len() ==> !is_free_for(#[trigger] entries[i], target) {
            assert forall|i: int| 0 <= i < rest.len() implies !is_free_for(
                #[trigger] rest[i],
                target,
            ) by {
                assert(entries[i] == rest[i]);
            }
            assert(!is_free_for(entries[entries.len() - 1], target));
        }
    }
}

proof fn kept_are_offered(candidates: Seq<CandidateView>, session: Seq<Seq<u8>>)
    ensures
        tui::kept_candidates(candidates, session) == candidates.filter(
            |candidate: CandidateView| offered(candidate, session),
        ),
    decreases candidates.len(),
{
    reveal(Seq::filter);
    if candidates.len() > 0 {
        kept_are_offered(candidates.drop_last(), session);
    }
}

proof fn candidate_order_is_weak()
    ensures
        order::weak_order(tui::candidate_order()),
{
    path::path_order_is_strict();
    order::strict_order_is_weak(path::path_order());
    let less = path::path_order();
    let ranks = tui::candidate_order();
    assert forall|a: PlacedCandidateView| !#[trigger] ranks(a, a) by {
        assert(!less(path::components(a.candidate.target), path::components(a.candidate.target)));
    }
    assert forall|a: PlacedCandidateView, b: PlacedCandidateView, c: PlacedCandidateView|
        #[trigger] ranks(a, b) && #[trigger] ranks(b, c) implies ranks(a, c) by {
        let x = path::components(a.candidate.target);
        let y = path::components(b.candidate.target);
        let z = path::components(c.candidate.target);
        assert(less(x, y) && less(y, z) ==> less(x, z));
    }
    assert forall|a: PlacedCandidateView, b: PlacedCandidateView, c: PlacedCandidateView|
        #[trigger] ranks(a, c) implies ranks(a, b) || #[trigger] ranks(b, c) by {
        let x = path::components(a.candidate.target);
        let y = path::components(b.candidate.target);
        let z = path::components(c.candidate.target);
        assert(less(x, z) ==> less(x, y) || less(y, z));
    }
}

/// What a search leaves in the list of candidates: one entry for each candidate that is offered, and
/// each entry stands for one of them. The root of the search is noted, and nothing else changes but
/// the warnings.
pub proof fn what_a_loaded_search_shows(state: ControllerView, found: SearchResultView)
    ensures
        ({
            let after = state.complete(OperationResultView::Search(Ok(found)));
            let before = state.discover.entries;
            let session = state.session_registered_targets;
            let due = found.candidates.filter(
                |candidate: CandidateView| offered(candidate, session),
            );
            &&& after == ControllerView {
                discover: after.discover,
                search_root: found.search_root,
                discovery_warning: after.discovery_warning,
                ..state
            }
            &&& after.discover.entries.len() == due.len()
            &&& forall|k: int|
                0 <= k < after.discover.entries.len() ==> exists|i: int|
                    0 <= i < due.len() && stands_for(
                        #[trigger] after.discover.entries[k],
                        #[trigger] due[i],
                        before,
                    )
            &&& forall|i: int|
                0 <= i < due.len() ==> exists|k: int|
                    0 <= k < after.discover.entries.len() && stands_for(
                        #[trigger] after.discover.entries[k],
                        #[trigger] due[i],
                        before,
                    )
        }),
{
    let after = state.complete(OperationResultView::Search(Ok(found)));
    let before = state.discover.entries;
    let session = state.session_registered_targets;
    let kept = tui::kept_candidates(found.candidates, session);
    let placed = kept.map_values(tui::place_candidate(before));
    let sorted = order::stably_sorted(placed, tui::candidate_order());
    kept_are_offered(found.candidates, session);
    reading_laws::sorted_elements(placed, tui::candidate_order());
    assert forall|candidate: CandidateView| #[trigger] stands_for(
        tui::enter_candidate(before)(tui::place_candidate(before)(candidate)),
        candidate,
        before,
    ) by {
        edited_names_are_found(before, candidate.target);
        let entry = tui::enter_candidate(before)(tui::place_candidate(before)(candidate));
        assert forall|i: int| last_free_for(before, candidate.target, i) implies entry.name
            == before[i].name by {
            assert(tui::edited_name(before, candidate.target) == Some(before[i].name));
        }
    }
    let entries = after.discover.entries;
    assert forall|k: int| 0 <= k < entries.len() implies exists|i: int|
        0 <= i < kept.len() && stands_for(#[trigger] entries[k], #[trigger] kept[i], before) by {
        assert(sorted.contains(sorted[k]));
        assert(placed.contains(sorted[k]));
        let i = choose|i: int| 0 <= i < placed.len() && placed[i] == sorted[k];
        assert(placed[i] == tui::place_candidate(before)(kept[i]));
        assert(stands_for(entries[k], kept[i], before));
    }
    assert forall|i: int| 0 <= i < kept.len() implies exists|k: int|
        0 <= k < entries.len() && stands_for(#[trigger] entries[k], #[trigger] kept[i], before) by {
        assert(placed[i] == tui::place_candidate(before)(kept[i]));
        assert(placed.contains(placed[i]));
        assert(sorted.contains(placed[i]));
        let k = choose|k: int| 0 <= k < sorted.len() && sorted[k] == placed[i];
        assert(stands_for(entries[k], kept[i], before));
    }
}

/// How candidates are ordered: those that the list had before keep their order and come first; new
/// ones follow, those without a Registration before the others, and otherwise by their paths.
pub proof fn how_candidates_are_ordered(
    state: ControllerView,
    found: SearchResultView,
    k: int,
    l: int,
)
    requires
        0 <= k < l < state.complete(
            OperationResultView::Search(Ok(found)),
        ).discover.entries.len(),
    ensures
        ({
            let entries = state.complete(OperationResultView::Search(Ok(found))).discover.entries;
            let before = state.discover.entries;
            let a = entries[k];
            let b = entries[l];
            &&& knows(before, b.target) ==> knows(before, a.target)
            &&& forall|i: int, j: int| #[trigger]
                last_for(before, a.target, i) && #[trigger] last_for(before, b.target, j) ==> i <= j
            &&& !knows(before, a.target) && !knows(before, b.target) ==> {
                &&& b.registration is None ==> a.registration is None
                &&& (a.registration is None <==> b.registration is None) ==> !path::path_order()(
                    path::components(b.target),
                    path::components(a.target),
                )
            }
        }),
{
    let entries = state.complete(OperationResultView::Search(Ok(found))).discover.entries;
    let before = state.discover.entries;
    let session = state.session_registered_targets;
    let kept = tui::kept_candidates(found.candidates, session);
    let placed = kept.map_values(tui::place_candidate(before));
    let sorted = order::stably_sorted(placed, tui::candidate_order());
    candidate_order_is_weak();
    order::stable_sort_sorts(placed, tui::candidate_order());
    reading_laws::sorted_elements(placed, tui::candidate_order());
    entries_are_found(before, entries[k].target);
    entries_are_found(before, entries[l].target);
    assert(sorted.contains(sorted[k]) && sorted.contains(sorted[l]));
    assert(placed.contains(sorted[k]) && placed.contains(sorted[l]));
    let m = choose|m: int| 0 <= m < placed.len() && placed[m] == sorted[k];
    let n = choose|n: int| 0 <= n < placed.len() && placed[n] == sorted[l];
    assert(placed[m] == tui::place_candidate(before)(kept[m]));
    assert(placed[n] == tui::place_candidate(before)(kept[n]));
    assert(!tui::candidate_order()(sorted[l], sorted[k]));
}

/// What is said of the warnings of a search: nothing where there are none, and otherwise each one's
/// kind, path and message, in order.
pub proof fn what_the_warnings_of_a_search_say(
    state: ControllerView,
    warnings: Seq<SearchWarningView>,
    last: SearchWarningView,
)
    ensures
        state.warnings_text(Seq::empty()) is None,
        ({
            let line = "warning["@ + last.kind.identifier_text() + "]: "@ + state.display(
                last.path,
            ) + ": "@ + last.message;
            state.warnings_text(warnings.push(last)) == match state.warnings_text(warnings) {
                None => Some(line),
                Some(said) => Some(said + "; "@ + line),
            }
        }),
{
    let all = state.warning_lines(warnings.push(last));
    assert(all.drop_last() =~= state.warning_lines(warnings));
}

/// The warnings of the last search are the ones that are noticed.
pub proof fn the_last_search_is_noticed(state: ControllerView, found: SearchResultView)
    ensures
        state.complete(OperationResultView::Search(Ok(found))).discovery_warning
            == state.warnings_text(found.warnings),
{
}

/// The focus stays where it was as long as an entry is shown there; else it goes to the last one,
/// and to the first place of a list that shows nothing.
pub proof fn where_the_focus_goes(
    list: ItemListView,
    entries: Seq<ListEntryView>,
    filter: Seq<char>,
)
    requires
        entries.len() <= usize::MAX,
    ensures
        ({
            let after = list.replace(entries, filter);
            let shown = tui::visible(entries, filter).len();
            &&& after.entries == entries
            &&& after.offset == list.offset
            &&& list.focus < shown ==> after.focus == list.focus
            &&& 0 < shown <= list.focus ==> after.focus == shown - 1
            &&& shown == 0 ==> after.focus == 0
        }),
{
}

/// A loaded list takes the place of the one before.
pub proof fn a_loaded_list_replaces_the_last(
    state: ControllerView,
    found: SearchResultView,
    listed: ListResultView,
)
    ensures
        ({
            let after = state.complete(OperationResultView::Search(Ok(found))).discover;
            after == state.discover.replace(after.entries, state.filter)
        }),
        ({
            let after = state.complete(OperationResultView::List(Ok(listed))).registrations;
            after == state.registrations.replace(after.entries, state.filter)
        }),
{
}

/// An entry shows a Registration.
pub open spec fn shows(entry: ListEntryView, registered: RegistrationStateView) -> bool {
    &&& entry.name == registered.registration.name
    &&& entry.target == registered.registration.target
    &&& entry.registration == Some(registered)
    &&& !entry.unavailable
}

/// What loading leaves in the list of Registrations: an entry for each of them. Nothing else changes
/// but that no place is kept any more.
pub proof fn what_loaded_registrations_show(state: ControllerView, listed: ListResultView)
    ensures
        ({
            let after = state.complete(OperationResultView::List(Ok(listed)));
            let entries = after.registrations.entries;
            &&& after == ControllerView {
                registrations: after.registrations,
                kept: None,
                ..state
            }
            &&& entries.len() == listed.registrations.len()
            &&& forall|k: int|
                0 <= k < entries.len() ==> exists|i: int|
                    0 <= i < listed.registrations.len() && shows(
                        #[trigger] entries[k],
                        #[trigger] listed.registrations[i],
                    )
            &&& forall|i: int|
                0 <= i < listed.registrations.len() ==> exists|k: int|
                    0 <= k < entries.len() && shows(
                        #[trigger] entries[k],
                        #[trigger] listed.registrations[i],
                    )
        }),
{
    let states = listed.registrations;
    let entries = state.complete(OperationResultView::List(Ok(listed))).registrations.entries;
    let placed = states.map_values(state.place_state());
    let sorted = order::stably_sorted(placed, tui::state_order());
    reading_laws::sorted_elements(placed, tui::state_order());
    assert forall|k: int| 0 <= k < entries.len() implies exists|i: int|
        0 <= i < states.len() && shows(#[trigger] entries[k], #[trigger] states[i]) by {
        assert(sorted.contains(sorted[k]));
        assert(placed.contains(sorted[k]));
        let i = choose|i: int| 0 <= i < placed.len() && placed[i] == sorted[k];
        assert(placed[i] == state.place_state()(states[i]));
        assert(shows(entries[k], states[i]));
    }
    assert forall|i: int| 0 <= i < states.len() implies exists|k: int|
        0 <= k < entries.len() && shows(#[trigger] entries[k], #[trigger] states[i]) by {
        assert(placed[i] == state.place_state()(states[i]));
        assert(placed.contains(placed[i]));
        assert(sorted.contains(placed[i]));
        let k = choose|k: int| 0 <= k < sorted.len() && sorted[k] == placed[i];
        assert(shows(entries[k], states[i]));
    }
}

/// A Registration stands in the first part of the list: it has a defect, or its place is kept.
pub open spec fn first_part(state: ControllerView, entry: ListEntryView) -> bool {
    ||| entry.registration matches Some(registered) && registered.defect is Some
    ||| state.kept == Some(entry.name)
}

/// How Registrations are ordered: first those with a defect and the one whose place is kept; in
/// either part by the display root that the Target lies below, and by name below the same root.
pub proof fn how_registrations_are_ordered(
    state: ControllerView,
    listed: ListResultView,
    k: int,
    l: int,
)
    requires
        0 <= k < l < listed.registrations.len(),
    ensures
        ({
            let entries = state.complete(
                OperationResultView::List(Ok(listed)),
            ).registrations.entries;
            let a = entries[k];
            let b = entries[l];
            let root_a = tui::root_key(state.display(a.target));
            let root_b = tui::root_key(state.display(b.target));
            &&& first_part(state, b) ==> first_part(state, a)
            &&& first_part(state, a) == first_part(state, b) ==> {
                &&& !text::text_order()(root_b, root_a)
                &&& root_a == root_b ==> !text::text_order()(b.name, a.name)
            }
        }),
{
    let states = listed.registrations;
    let placed = states.map_values(state.place_state());
    let sorted = order::stably_sorted(placed, tui::state_order());
    tui_laws::state_order_is_weak();
    order::stable_sort_sorts(placed, tui::state_order());
    reading_laws::sorted_elements(placed, tui::state_order());
    text::text_order_is_strict();
    assert(sorted.contains(sorted[k]) && sorted.contains(sorted[l]));
    assert(placed.contains(sorted[k]) && placed.contains(sorted[l]));
    let m = choose|m: int| 0 <= m < placed.len() && placed[m] == sorted[k];
    let n = choose|n: int| 0 <= n < placed.len() && placed[n] == sorted[l];
    assert(placed[m] == state.place_state()(states[m]));
    assert(placed[n] == state.place_state()(states[n]));
    assert(!tui::state_order()(sorted[l], sorted[k]));
    let less = text::text_order();
    assert(!less(sorted[k].root, sorted[k].root));
}

proof fn the_first_index(s: Seq<char>, from: int, c: char, i: int)
    requires
        0 <= from <= i < s.len(),
        s[i] == c,
        forall|j: int| from <= j < i ==> s[j] != c,
    ensures
        text::first_index(s, from, c) == Some(i),
    decreases i - from,
{
    if from < i {
        the_first_index(s, from + 1, c, i);
    }
}

/// What a shown path is ordered by: the display root in brackets that it begins with, whatever comes
/// behind it, and all of a path that begins with none.
pub proof fn what_a_root_key_is(shown: Seq<char>, name: Seq<char>, rest: Seq<char>)
    requires
        !name.contains(']'),
    ensures
        tui::root_key(seq!['['] + name + seq![']'] + rest) == seq!['['] + name + seq![']'],
        shown.len() == 0 || shown[0] != '[' ==> tui::root_key(shown) == shown,
{
    let s = seq!['['] + name + seq![']'] + rest;
    assert forall|j: int| 1 <= j < name.len() + 1 implies s[j] != ']' by {
        assert(s[j] == name[j - 1]);
        assert(name.contains(name[j - 1]));
    }
    the_first_index(s, 1, ']', name.len() as int + 1);
    assert(s.take(name.len() as int + 2) =~= seq!['['] + name + seq![']']);
}

/// What a failed change shows: the error's identifier and message, and where a Registration was left
/// behind its name; where that has a defect, the message goes on with what lies at its managed path,
/// the defect and what can be done.
pub proof fn what_an_error_of_a_change_shows(error: ApplicationErrorView)
    ensures
        tui::shown_mutation(Err(error)) matches Err(shown) && {
            &&& shown.identifier == error.identifier()
            &&& error.resulting_registration() is None ==> shown.message == error.message()
                && shown.registration_name is None
            &&& error.resulting_registration() matches Some(left) ==> {
                &&& shown.registration_name == Some(left.registration.name)
                &&& left.defect is None ==> shown.message == error.message()
                &&& left.defect matches Some(defect) ==> shown.message == error.message()
                    + "; Registration "@ + left.registration.name + " actual="@
                    + left.actual.identifier_text() + " defect="@ + defect.kind.identifier_text()
                    + "; next safe action: "@ + defect.message
            }
        },
{
    reveal_strlit("; ");
    reveal_strlit("Registration ");
    reveal_strlit("; Registration ");
    assert("; "@ + "Registration "@ =~= "; Registration "@);
    if let Some(left) = error.resulting_registration() {
        if let Some(defect) = left.defect {
            let rest = left.registration.name + " actual="@ + left.actual.identifier_text()
                + " defect="@ + defect.kind.identifier_text() + "; next safe action: "@
                + defect.message;
            assert(error.message() + "; "@ + tui::defect_summary(left)->0 =~= error.message()
                + "; Registration "@ + rest);
            assert(error.message() + "; Registration "@ + left.registration.name + " actual="@
                + left.actual.identifier_text() + " defect="@ + defect.kind.identifier_text()
                + "; next safe action: "@ + defect.message =~= error.message() + "; Registration "@
                + rest);
        }
    }
}

/// What a change shows that came to an end: itself, unless it was blocked. A blocked one is an error,
/// which says what is in the way, or else what is wrong with the Registration.
pub proof fn what_a_finished_change_shows(result: LifecycleResultView)
    ensures
        result.status != LifecycleStatus::Blocked ==> tui::shown_mutation(Ok(result)) == Ok::<
            LifecycleResultView,
            OperationErrorView,
        >(result),
        result.status == LifecycleStatus::Blocked ==> (tui::shown_mutation(Ok(result)) matches Err(
            shown,
        ) && {
            &&& shown.identifier == result.identifier
            &&& result.registration is None ==> shown.registration_name is None
            &&& result.registration matches Some(left) ==> shown.registration_name == Some(
                left.registration.name,
            )
            &&& result.conflict matches Some(conflict) ==> shown.message == conflict
            &&& result.conflict is None ==> {
                if result.registration matches Some(left) && left.defect matches Some(defect) {
                    shown.message == "Registration "@ + result.registration->0.registration.name
                        + " actual="@ + result.registration->0.actual.identifier_text()
                        + " defect="@ + result.registration->0.defect->0.kind.identifier_text()
                        + "; next safe action: "@ + result.registration->0.defect->0.message
                } else {
                    shown.message == "Registration operation is blocked; inspect it and retry"@
                }
            }
        }),
{
}

} // verus!
