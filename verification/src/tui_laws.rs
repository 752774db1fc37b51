//! What holds of the interface, whatever the user does and whatever requests come to.

use vstd::prelude::*;

use crate::discovery_ignore;
use crate::model::{
    CandidateView,
    LifecycleResultView,
    LifecycleStatus,
    ListResultView,
    RegistrationStateView,
    SearchResultView,
};
use crate::order;
use crate::text;
use crate::tui;
use crate::tui::{
    ControllerView,
    DialogView,
    EventView,
    ItemListView,
    ListEntryView,
    MouseEvent,
    OperationErrorView,
    OperationResultView,
    PlacedStateView,
    RequestView,
    Tab,
};

verus! {

/// An event that can ask for a change: a checkbox, a deletion, or what is entered in a dialog.
pub open spec fn may_change(event: EventView) -> bool {
    event is Toggle || event is Delete || event is Submit
}

/// Looking around changes nothing: no event but a toggle, a deletion or a submitted dialog asks
/// for a change or for the check before one.
pub proof fn looking_around_changes_nothing(state: ControllerView, event: EventView)
    requires
        !may_change(event),
    ensures
        state.handle(event).emitted_mutation == state.emitted_mutation,
        state.handle(event).mutation_active == state.mutation_active,
        state.handle(event).pending_add == state.pending_add,
        state.handle(event).pending == state.pending || state.handle(event).pending == Some(
            state.handle(event).reload(),
        ),
{
}

/// While a change runs no other one begins, and the change itself goes on.
pub proof fn one_change_at_a_time(state: ControllerView, event: EventView)
    requires
        state.mutation_active,
    ensures
        state.handle(event).mutation_active,
        state.handle(event).emitted_mutation == state.emitted_mutation,
        state.handle(event).pending_add == state.pending_add,
        state.handle(event).active_add_target == state.active_add_target,
        state.handle(event).active_item_key == state.active_item_key,
        state.handle(event).pending == state.pending || state.handle(event).pending == Some(
            state.handle(event).reload(),
        ),
{
}

/// What a request for a change leads to is noted: a change waits only where one was emitted.
pub open spec fn emissions_noted(state: ControllerView) -> bool {
    state.pending matches Some(request) && request.is_mutation() ==> state.emitted_mutation
}

/// A fresh interface has emitted nothing.
pub proof fn an_interface_begins_clean(search_root: Seq<u8>, home: Seq<u8>)
    ensures
        emissions_noted(ControllerView::initial(search_root, home, Seq::empty())),
        !ControllerView::initial(search_root, home, Seq::empty()).emitted_mutation,
        !ControllerView::initial(search_root, home, Seq::empty()).mutation_active,
{
}

/// Every change that waits was noted as emitted, after whatever the user does.
pub proof fn events_note_emissions(state: ControllerView, event: EventView)
    requires
        emissions_noted(state),
    ensures
        emissions_noted(state.handle(event)),
        state.emitted_mutation ==> state.handle(event).emitted_mutation,
{
}

/// Every change that waits was noted as emitted, after whatever requests come to.
pub proof fn outcomes_note_emissions(state: ControllerView, result: OperationResultView)
    requires
        emissions_noted(state),
    ensures
        emissions_noted(state.complete(result)),
        state.emitted_mutation ==> state.complete(result).emitted_mutation,
{
}

/// A check that does not come out healthy never adds: nothing is emitted, the interface is free
/// again, and the search is run anew.
pub proof fn a_refused_check_adds_nothing(
    state: ControllerView,
    outcome: Result<LifecycleResultView, OperationErrorView>,
)
    requires
        outcome matches Ok(result) ==> result.status != LifecycleStatus::Healthy,
    ensures
        ({
            let after = state.complete(OperationResultView::Validation(outcome));
            &&& after.emitted_mutation == state.emitted_mutation
            &&& !after.mutation_active
            &&& after.pending_add is None
            &&& after.active_add_target is None
            &&& after.pending == Some(RequestView::Search(state.search_root))
        }),
{
}

/// A check that comes out healthy adds exactly what was checked.
pub proof fn a_passed_check_adds_what_was_checked(
    state: ControllerView,
    result: LifecycleResultView,
    target: Seq<u8>,
    name: Seq<char>,
)
    requires
        result.status == LifecycleStatus::Healthy,
        state.pending_add == Some((target, name)),
    ensures
        state.complete(OperationResultView::Validation(Ok(result))).pending == Some(
            RequestView::Add { target, name },
        ),
        state.complete(OperationResultView::Validation(Ok(result))).emitted_mutation,
{
}

/// Whatever a change comes to, the interface is free again and loads what is there now.
pub proof fn every_change_is_followed_by_a_reload(
    state: ControllerView,
    outcome: Result<LifecycleResultView, OperationErrorView>,
)
    ensures
        ({
            let after = state.complete(OperationResultView::Mutation(outcome));
            &&& !after.mutation_active
            &&& after.pending == Some(state.reload())
            &&& after.discover == state.discover
            &&& after.registrations == state.registrations
        }),
{
}

/// An error stays with the item that it is about, until it is dismissed.
pub proof fn an_error_stays_with_its_item(
    state: ControllerView,
    error: OperationErrorView,
    key: Seq<char>,
    event: EventView,
)
    requires
        state.active_item_key == Some(key),
        state.view == Tab::Discover || error.registration_name is None
            || error.registration_name == Some(key),
        !(event is Dismiss),
    ensures
        ({
            let after = state.complete(OperationResultView::Mutation(Err(error)));
            &&& after.item_errors == state.item_errors.insert(key, tui::error_line(error))
            &&& after.handle(event).item_errors == after.item_errors
        }),
{
}

/// The entries that are shown are those that match the filter.
pub proof fn shown_entries_match(entries: Seq<ListEntryView>, filter: Seq<char>)
    ensures
        forall|entry: ListEntryView| #[trigger]
            tui::visible(entries, filter).contains(entry) <==> entries.contains(entry)
                && tui::shown_under(entry, filter),
        tui::visible(entries, filter).len() <= entries.len(),
    decreases entries.len(),
{
    if entries.len() > 0 {
        let rest = entries.drop_last();
        shown_entries_match(rest, filter);
        let before = tui::visible(rest, filter);
        assert forall|entry: ListEntryView| #[trigger]
            tui::visible(entries, filter).contains(entry) <==> entries.contains(entry)
                && tui::shown_under(entry, filter) by {
            assert(entries =~= rest.push(entries.last()));
            assert(entries.contains(entry) <==> rest.contains(entry) || entry == entries.last())
                by {
                if entries.contains(entry) {
                    let i = entries.index_of(entry);
                    if i < rest.len() {
                        assert(rest[i] == entry);
                    }
                }
                if rest.contains(entry) {
                    let i = rest.index_of(entry);
                    assert(entries[i] == entry);
                }
                if entry == entries.last() {
                    assert(entries[entries.len() - 1] == entry);
                }
            }
            let shown = tui::visible(entries, filter);
            if tui::shown_under(entries.last(), filter) {
                assert(shown == before.push(entries.last()));
                if shown.contains(entry) {
                    let i = shown.index_of(entry);
                    if i < before.len() {
                        assert(before[i] == entry);
                    }
                }
                if before.contains(entry) {
                    let i = before.index_of(entry);
                    assert(shown[i] == entry);
                }
                assert(shown[before.len() as int] == entries.last());
            } else {
                assert(shown == before);
            }
        }
    }
}

/// Without a filter every entry is shown.
pub proof fn without_a_filter_all_is_shown(entries: Seq<ListEntryView>)
    ensures
        tui::visible(entries, Seq::empty()) == entries,
    decreases entries.len(),
{
    if entries.len() > 0 {
        without_a_filter_all_is_shown(entries.drop_last());
        reveal(tui::shown_under);
        assert(tui::visible(entries, Seq::empty()) =~= entries);
    }
}

/// The focus is on an entry that is shown, or on the first place of an empty list.
pub open spec fn in_focus(list: ItemListView, filter: Seq<char>) -> bool {
    list.focus < tui::visible(list.entries, filter).len() || list.focus == 0
}

/// A list that was loaded has its focus on an entry.
pub proof fn a_loaded_list_is_in_focus(
    state: ControllerView,
    found: SearchResultView,
    listed: ListResultView,
)
    ensures
        in_focus(
            state.complete(OperationResultView::Search(Ok(found))).discover,
            state.filter,
        ),
        in_focus(
            state.complete(OperationResultView::List(Ok(listed))).registrations,
            state.filter,
        ),
{
}

/// Moving down and then up, or up and then down, comes back to the same entry.
pub proof fn moving_back_undoes_a_move(list: ItemListView, filter: Seq<char>, down: bool)
    requires
        list.focus < tui::visible(list.entries, filter).len(),
        tui::visible(list.entries, filter).len() <= usize::MAX,
    ensures
        list.move_focus(down, filter).move_focus(!down, filter) == list,
{
    let n = tui::visible(list.entries, filter).len() as int;
    let f = list.focus as int;
    if down {
        if f + 1 < n {
            vstd::arithmetic::div_mod::lemma_small_mod((f + 1) as nat, n as nat);
            vstd::arithmetic::div_mod::lemma_small_mod(f as nat, n as nat);
        } else {
            vstd::arithmetic::div_mod::lemma_mod_self_0(n);
            vstd::arithmetic::div_mod::lemma_mod_add_multiples_vanish(-1, n);
            vstd::arithmetic::div_mod::lemma_small_mod((n - 1) as nat, n as nat);
        }
    } else {
        if f > 0 {
            vstd::arithmetic::div_mod::lemma_small_mod((f - 1) as nat, n as nat);
            vstd::arithmetic::div_mod::lemma_small_mod(f as nat, n as nat);
        } else {
            vstd::arithmetic::div_mod::lemma_mod_add_multiples_vanish(-1, n);
            vstd::arithmetic::div_mod::lemma_small_mod((n - 1) as nat, n as nat);
            vstd::arithmetic::div_mod::lemma_mod_self_0(n);
        }
    }
}

/// Taking back what was typed restores the dialog.
pub proof fn backspace_undoes_typing(state: ControllerView, dialog: DialogView, c: char)
    requires
        state.dialog == Some(dialog),
        !(dialog is Error),
    ensures
        state.handle(EventView::Text(seq![c])).handle(EventView::Backspace) == state,
{
    match dialog {
        DialogView::EditName { original, value } => {
            assert((value + seq![c]).drop_last() =~= value);
        },
        DialogView::Rename { name, value } => {
            assert((value + seq![c]).drop_last() =~= value);
        },
        DialogView::Error { .. } => {},
    }
}

/// Cancelling leaves everything as it was but for the dialog.
pub proof fn cancelling_closes_a_dialog(state: ControllerView, dialog: DialogView)
    requires
        state.dialog == Some(dialog),
    ensures
        state.handle(EventView::Cancel) == (ControllerView { dialog: None, ..state }),
        state.handle(EventView::Dismiss) == (ControllerView { dialog: None, ..state }),
{
}

/// The mouse does not reach past a dialog.
pub proof fn a_dialog_keeps_the_mouse_out(
    state: ControllerView,
    dialog: DialogView,
    mouse: MouseEvent,
)
    requires
        state.dialog == Some(dialog),
    ensures
        state.handle(EventView::Mouse(mouse)) == state,
{
}

/// Nothing but the wish to leave ends the interface.
pub proof fn only_an_exit_leaves(state: ControllerView, event: EventView)
    requires
        !(event is Exit),
    ensures
        state.handle(event).exit == state.exit,
{
}

/// The order of a list of Registrations ranks any two of them the same way round.
pub proof fn state_order_is_weak()
    ensures
        order::weak_order(tui::state_order()),
{
    text::text_order_is_strict();
    order::strict_order_is_weak(text::text_order());
    let less = text::text_order();
    let ranks = tui::state_order();
    assert forall|a: PlacedStateView| !#[trigger] ranks(a, a) by {
        assert(!less(a.root, a.root));
        assert(!less(a.state.registration.name, a.state.registration.name));
    }
    assert forall|a: PlacedStateView, b: PlacedStateView, c: PlacedStateView| #[trigger]
        ranks(a, b) && #[trigger] ranks(b, c) implies ranks(a, c) by {
        if a.root == b.root && b.root == c.root {
            assert(less(a.state.registration.name, b.state.registration.name) && less(
                b.state.registration.name,
                c.state.registration.name,
            ) ==> less(a.state.registration.name, c.state.registration.name));
        } else {
            assert(less(a.root, b.root) && less(b.root, c.root) ==> less(a.root, c.root));
            assert(!less(a.root, a.root));
        }
    }
    assert forall|a: PlacedStateView, b: PlacedStateView, c: PlacedStateView| #[trigger]
        ranks(a, c) implies ranks(a, b) || #[trigger] ranks(b, c) by {
        assert(less(a.root, c.root) ==> less(a.root, b.root) || less(b.root, c.root));
        assert(a.root != b.root ==> less(a.root, b.root) || less(b.root, a.root));
        assert(b.root != c.root ==> less(b.root, c.root) || less(c.root, b.root));
        assert(less(b.root, a.root) && less(a.root, c.root) ==> less(b.root, c.root));
        assert(less(a.root, c.root) && less(c.root, b.root) ==> less(a.root, b.root));
        assert(less(a.state.registration.name, c.state.registration.name) ==> less(
            a.state.registration.name,
            b.state.registration.name,
        ) || less(b.state.registration.name, c.state.registration.name));
    }
}

/// A list of Registrations shows each of them once: it is what was loaded, in another order.
pub proof fn every_registration_is_listed(
    state: ControllerView,
    states: Seq<RegistrationStateView>,
)
    ensures
        state.listed_entries(states).len() == states.len(),
        forall|i: int|
            0 <= i < states.len() ==> state.listed_entries(states).contains(
                tui::registration_entry(#[trigger] states[i]),
            ),
{
    let place = state.place_state();
    let placed = states.map_values(place);
    let ordered = order::stably_sorted(placed, tui::state_order());
    order::stable_sort_is_a_permutation(placed, tui::state_order());
    broadcast use vstd::seq_lib::group_to_multiset_ensures;
    assert forall|i: int| 0 <= i < states.len() implies state.listed_entries(states).contains(
        tui::registration_entry(#[trigger] states[i]),
    ) by {
        assert(placed[i] == place(states[i]));
        assert(placed.contains(placed[i]));
        assert(placed.to_multiset().count(placed[i]) > 0);
        assert(ordered.contains(placed[i]));
        let j = ordered.index_of(placed[i]);
        assert(state.listed_entries(states)[j] == tui::registration_entry(states[i]));
    }
}

/// A list of Registrations shows those with a defect first, unless it keeps one among them that has
/// just lost its defect.
pub proof fn defects_come_first(
    state: ControllerView,
    states: Seq<RegistrationStateView>,
    i: int,
    j: int,
)
    requires
        state.kept is None,
        0 <= i < j < states.len(),
        state.listed_entries(states)[j].registration->0.defect is Some,
    ensures
        state.listed_entries(states)[i].registration->0.defect is Some,
{
    let place = state.place_state();
    let placed = states.map_values(place);
    let ordered = order::stably_sorted(placed, tui::state_order());
    order::stable_sort_is_a_permutation(placed, tui::state_order());
    state_order_is_weak();
    order::stable_sort_sorts(placed, tui::state_order());
    placed_from(placed, i);
    placed_from(placed, j);
    assert(!tui::state_order()(ordered[j], ordered[i]));
}

/// What a sorted list holds was in it before.
proof fn placed_from(placed: Seq<PlacedStateView>, i: int)
    requires
        0 <= i < placed.len(),
    ensures
        placed.contains(order::stably_sorted(placed, tui::state_order())[i]),
{
    let ordered = order::stably_sorted(placed, tui::state_order());
    order::stable_sort_is_a_permutation(placed, tui::state_order());
    broadcast use vstd::seq_lib::group_to_multiset_ensures;
    assert(ordered.contains(ordered[i]));
    assert(ordered.to_multiset().count(ordered[i]) > 0);
    assert(placed.to_multiset().count(ordered[i]) > 0);
}

/// A Registration whose broken link was just taken away stands to every other one as it did before:
/// the list is sorted anew, and only this one is sorted as if its link were still broken.
pub proof fn a_disabled_registration_keeps_its_place(
    state: ControllerView,
    before: RegistrationStateView,
    after: RegistrationStateView,
    other: RegistrationStateView,
)
    requires
        state.kept == Some(after.registration.name),
        before.defect is Some,
        before.registration.name == after.registration.name,
        before.registration.target == after.registration.target,
        other.registration.name != after.registration.name,
    ensures
        ({
            let earlier = (ControllerView { kept: None, ..state }).place_state();
            let now = state.place_state();
            &&& tui::state_order()(now(after), now(other)) == tui::state_order()(
                earlier(before),
                earlier(other),
            )
            &&& tui::state_order()(now(other), now(after)) == tui::state_order()(
                earlier(other),
                earlier(before),
            )
        }),
{
}

/// A list keeps a Registration in its place only where it was just disabled in the list of
/// Registrations and had a broken link there. Whatever else changes, the next list is sorted anew,
/// and so is every list after that one.
pub proof fn when_a_place_is_kept(
    state: ControllerView,
    outcome: Result<LifecycleResultView, OperationErrorView>,
    ignored: Result<Seq<char>, OperationErrorView>,
    listed: ListResultView,
)
    ensures
        state.complete(OperationResultView::Mutation(outcome)).kept matches Some(name) ==> {
            &&& state.view == Tab::Registrations
            &&& outcome matches Ok(result) && result.identifier == "registration-disabled"@
            &&& tui::entry_named(state.registrations.entries, name) matches Some(at)
                && tui::broken_entry(state.registrations.entries[at])
        },
        state.complete(OperationResultView::Ignore(ignored)).kept is None,
        state.complete(OperationResultView::List(Ok(listed))).kept is None,
        state.dialog is None && !state.filter_active ==> state.handle(
            EventView::SwitchView,
        ).kept is None,
{
}

/// Candidates that have a Registration are not offered, unless they got it in this session.
pub proof fn registered_candidates_are_hidden(
    entries: Seq<ListEntryView>,
    candidates: Seq<CandidateView>,
    session: Seq<Seq<u8>>,
    i: int,
)
    requires
        0 <= i < tui::discovered_entries(entries, candidates, session).len(),
    ensures
        ({
            let entry = tui::discovered_entries(entries, candidates, session)[i];
            entry.registration is None || discovery_ignore::listed(session, entry.target)
        }),
{
    let kept = tui::kept_candidates(candidates, session);
    let place = tui::place_candidate(entries);
    let placed = kept.map_values(place);
    let ordered = order::stably_sorted(placed, tui::candidate_order());
    order::stable_sort_is_a_permutation(placed, tui::candidate_order());
    broadcast use vstd::seq_lib::group_to_multiset_ensures;
    assert(ordered.contains(ordered[i]));
    assert(ordered.to_multiset().count(ordered[i]) > 0);
    assert(placed.to_multiset().count(ordered[i]) > 0);
    assert(placed.contains(ordered[i]));
    let k = placed.index_of(ordered[i]);
    assert(placed[k] == place(kept[k]));
    kept_candidates_are_due(candidates, session, k);
}

/// Each candidate that is kept has no Registration, or got it in this session.
proof fn kept_candidates_are_due(
    candidates: Seq<CandidateView>,
    session: Seq<Seq<u8>>,
    i: int,
)
    requires
        0 <= i < tui::kept_candidates(candidates, session).len(),
    ensures
        ({
            let candidate = tui::kept_candidates(candidates, session)[i];
            candidate.registration is None || discovery_ignore::listed(
                session,
                candidate.target,
            )
        }),
    decreases candidates.len(),
{
    if candidates.len() > 0 {
        let before = tui::kept_candidates(candidates.drop_last(), session);
        if i < before.len() {
            kept_candidates_are_due(candidates.drop_last(), session, i);
        }
    }
}

/// Candidates without a Registration are all offered.
pub proof fn unregistered_candidates_are_offered(
    entries: Seq<ListEntryView>,
    candidates: Seq<CandidateView>,
    session: Seq<Seq<u8>>,
    i: int,
)
    requires
        0 <= i < candidates.len(),
        candidates[i].registration is None,
    ensures
        exists|k: int|
            0 <= k < tui::discovered_entries(entries, candidates, session).len()
                && (#[trigger] tui::discovered_entries(entries, candidates, session)[k]).target
                == candidates[i].target,
{
    let kept = tui::kept_candidates(candidates, session);
    let place = tui::place_candidate(entries);
    let placed = kept.map_values(place);
    let ordered = order::stably_sorted(placed, tui::candidate_order());
    order::stable_sort_is_a_permutation(placed, tui::candidate_order());
    broadcast use vstd::seq_lib::group_to_multiset_ensures;
    unregistered_candidates_are_kept(candidates, session, i);
    let j = kept.index_of(candidates[i]);
    assert(placed[j] == place(kept[j]));
    assert(placed.contains(placed[j]));
    assert(placed.to_multiset().count(placed[j]) > 0);
    assert(ordered.contains(placed[j]));
    let k = ordered.index_of(placed[j]);
    assert(tui::discovered_entries(entries, candidates, session)[k].target
        == candidates[i].target);
}

proof fn unregistered_candidates_are_kept(
    candidates: Seq<CandidateView>,
    session: Seq<Seq<u8>>,
    i: int,
)
    requires
        0 <= i < candidates.len(),
        candidates[i].registration is None,
    ensures
        tui::kept_candidates(candidates, session).contains(candidates[i]),
    decreases candidates.len(),
{
    let rest = candidates.drop_last();
    let before = tui::kept_candidates(rest, session);
    let kept = tui::kept_candidates(candidates, session);
    if i < rest.len() {
        unregistered_candidates_are_kept(rest, session, i);
        let k = before.index_of(candidates[i]);
        assert(kept[k] == candidates[i]);
    } else {
        assert(kept[before.len() as int] == candidates[i]);
    }
}

} // verus!
