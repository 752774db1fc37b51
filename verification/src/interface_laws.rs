//! What each key, click and outcome comes to in the interface.

use vstd::prelude::*;

use crate::lifecycle;
use crate::lifecycle::{LifecycleView, TaskView};
use crate::listing::ListPhaseView;
use crate::model::{
    DisplayRootView,
    LifecycleResultView,
    LifecycleStatus,
    ManagedPathKind,
    PathDiagnosticView,
    PathStatus,
    RegistrationDefectKind,
    RegistrationStateView,
};
use crate::path;
use crate::registry;
use crate::search::SearchPhaseView;
use crate::text;
use crate::tui;
use crate::tui::{
    Area,
    ControllerView,
    DialogView,
    EventView,
    ItemListView,
    KeyCode,
    ListEntryView,
    MouseButton,
    MouseEvent,
    MouseEventKind,
    OperationErrorView,
    OperationResultView,
    OperationView,
    RequestView,
    Tab,
    TerminalEvent,
};

verus! {

/// In a list every key has a meaning of its own: space toggles, backspace and delete delete, `r`
/// renames, tab switches the view, `k` and up, `j` and down move, `/` starts a search, escape
/// dismisses, `q` leaves, and no other key does anything.
pub proof fn keys_in_a_list(code: KeyCode)
    ensures
        ({
            let meaning = tui::translated(TerminalEvent::Key(code), false, false);
            &&& meaning == Some(EventView::Toggle) <==> code == KeyCode::Char(' ')
            &&& meaning == Some(EventView::Delete) <==> code == KeyCode::Backspace || code
                == KeyCode::Delete
            &&& meaning == Some(EventView::Rename) <==> code == KeyCode::Char('r')
            &&& meaning == Some(EventView::SwitchView) <==> code == KeyCode::Tab
            &&& meaning == Some(EventView::Up) <==> code == KeyCode::Up || code == KeyCode::Char(
                'k',
            )
            &&& meaning == Some(EventView::Down) <==> code == KeyCode::Down || code
                == KeyCode::Char('j')
            &&& meaning == Some(EventView::StartFilter) <==> code == KeyCode::Char('/')
            &&& meaning == Some(EventView::Dismiss) <==> code == KeyCode::Esc
            &&& meaning == Some(EventView::Exit) <==> code == KeyCode::Char('q')
            &&& meaning matches Some(event) ==> !(event is Submit || event is Cancel || event
                is ClearFilter || event is Text || event is Backspace || event is Resize || event
                is Mouse)
        }),
{
}

/// While text is entered, every character is text, enter submits, backspace takes a character back,
/// and escape gives up the dialog or, in the search field, the search. Nothing is toggled, deleted,
/// renamed or left by a key.
pub proof fn keys_while_text_is_entered(code: KeyCode, dialog_open: bool, filter_active: bool)
    requires
        dialog_open || filter_active,
    ensures
        ({
            let meaning = tui::translated(TerminalEvent::Key(code), dialog_open, filter_active);
            &&& forall|c: char|
                code == KeyCode::Char(c) ==> meaning == Some(EventView::Text(seq![c]))
            &&& meaning matches Some(EventView::Text(_)) ==> code is Char
            &&& meaning == Some(EventView::Submit) <==> code == KeyCode::Enter
            &&& meaning == Some(EventView::Backspace) <==> code == KeyCode::Backspace
            &&& meaning == Some(EventView::ClearFilter) <==> code == KeyCode::Esc && filter_active
            &&& meaning == Some(EventView::Cancel) <==> code == KeyCode::Esc && !filter_active
            &&& meaning == Some(EventView::Up) <==> code == KeyCode::Up
            &&& meaning == Some(EventView::Down) <==> code == KeyCode::Down
            &&& meaning matches Some(event) ==> !(event is Toggle || event is Delete || event
                is Rename || event is SwitchView || event is StartFilter || event is Dismiss
                || event is Exit || event is Resize || event is Mouse)
        }),
{
}

/// The mouse and the size of the screen are passed on in every mode, and nothing else that the
/// terminal reports means anything.
pub proof fn other_reports_are_passed_on(
    width: u16,
    height: u16,
    mouse: MouseEvent,
    dialog_open: bool,
    filter_active: bool,
)
    ensures
        tui::translated(TerminalEvent::Resize(width, height), dialog_open, filter_active) == Some(
            EventView::Resize(width, height),
        ),
        tui::translated(TerminalEvent::Mouse(mouse), dialog_open, filter_active) == Some(
            EventView::Mouse(mouse),
        ),
        tui::translated(TerminalEvent::Other, dialog_open, filter_active) is None,
{
}

/// The list has the keyboard: no dialog is open, and no search is entered.
pub open spec fn in_list(state: ControllerView) -> bool {
    state.dialog is None && !state.filter_active
}

/// The entries that a filter leaves: all of them without a filter, else those whose name or path
/// holds it, whatever the case of the letters, in the order of the list.
pub proof fn what_a_filter_leaves(entries: Seq<ListEntryView>, filter: Seq<char>)
    ensures
        tui::visible(entries, filter) == entries.filter(
            |entry: ListEntryView|
                {
                    ||| filter.len() == 0
                    ||| exists|i: int| #[trigger]
                        text::occurs_at(
                            text::lowercase_text(entry.name),
                            text::lowercase_text(filter),
                            i,
                        )
                    ||| exists|i: int| #[trigger]
                        text::occurs_at(
                            text::lowercase_text(text::lossy_text(entry.target)),
                            text::lowercase_text(filter),
                            i,
                        )
                },
        ),
    decreases entries.len(),
{
    let kept = |entry: ListEntryView|
        {
            ||| filter.len() == 0
            ||| exists|i: int| #[trigger]
                text::occurs_at(text::lowercase_text(entry.name), text::lowercase_text(filter), i)
            ||| exists|i: int| #[trigger]
                text::occurs_at(
                    text::lowercase_text(text::lossy_text(entry.target)),
                    text::lowercase_text(filter),
                    i,
                )
        };
    reveal(Seq::filter);
    reveal(tui::shown_under);
    if entries.len() > 0 {
        what_a_filter_leaves(entries.drop_last(), filter);
        assert(kept(entries.last()) == tui::shown_under(entries.last(), filter));
    }
}

/// Where a text occurs in another.
pub proof fn what_occurring_means(hay: Seq<char>, needle: Seq<char>, i: int)
    ensures
        text::occurs_at(hay, needle, i) <==> 0 <= i && i + needle.len() <= hay.len() && forall|
            k: int,
        |
            0 <= k < needle.len() ==> #[trigger] hay[i + k] == needle[k],
{
    if 0 <= i && i + needle.len() <= hay.len() {
        let part = hay.subrange(i, i + needle.len() as int);
        if forall|k: int| 0 <= k < needle.len() ==> #[trigger] hay[i + k] == needle[k] {
            assert forall|k: int| 0 <= k < needle.len() implies part[k] == needle[k] by {
                assert(hay[i + k] == needle[k]);
            }
            assert(part =~= needle);
        }
        if part == needle {
            assert forall|k: int| 0 <= k < needle.len() implies #[trigger] hay[i + k]
                == needle[k] by {
                assert(part[k] == needle[k]);
            }
        }
    }
}

/// The state with the focus of the list that is shown elsewhere.
pub open spec fn refocused(state: ControllerView, focus: usize) -> ControllerView {
    match state.view {
        Tab::Discover => ControllerView {
            discover: ItemListView { focus, ..state.discover },
            ..state
        },
        Tab::Registrations => ControllerView {
            registrations: ItemListView { focus, ..state.registrations },
            ..state
        },
    }
}

/// The entries that are shown, of the list that is shown.
pub open spec fn shown_entries(state: ControllerView) -> Seq<ListEntryView> {
    tui::visible(
        match state.view {
            Tab::Discover => state.discover.entries,
            Tab::Registrations => state.registrations.entries,
        },
        state.filter,
    )
}

pub open spec fn focus_of(state: ControllerView) -> usize {
    match state.view {
        Tab::Discover => state.discover.focus,
        Tab::Registrations => state.registrations.focus,
    }
}

/// Down moves the focus to the next entry that is shown, from the last one to the first; up moves it
/// the other way. Nothing else changes, in the list and in the search field.
pub proof fn how_the_focus_moves(state: ControllerView)
    requires
        state.dialog is None,
        focus_of(state) < shown_entries(state).len(),
        shown_entries(state).len() <= usize::MAX,
    ensures
        ({
            let n = shown_entries(state).len();
            let focus = focus_of(state);
            &&& state.handle(EventView::Down) == refocused(
                state,
                if focus + 1 == n {
                    0
                } else {
                    (focus + 1) as usize
                },
            )
            &&& state.handle(EventView::Up) == refocused(
                state,
                if focus == 0 {
                    (n - 1) as usize
                } else {
                    (focus - 1) as usize
                },
            )
        }),
{
    let n = shown_entries(state).len() as int;
    let focus = focus_of(state) as int;
    assert((focus + 1) % n == if focus + 1 == n {
        0
    } else {
        focus + 1
    }) by {
        if focus + 1 == n {
            vstd::arithmetic::div_mod::lemma_mod_self_0(n);
        } else {
            vstd::arithmetic::div_mod::lemma_small_mod((focus + 1) as nat, n as nat);
        }
    }
    assert((focus - 1) % n == if focus == 0 {
        n - 1
    } else {
        focus - 1
    }) by {
        if focus == 0 {
            vstd::arithmetic::div_mod::lemma_mod_add_multiples_vanish(-1, n);
            vstd::arithmetic::div_mod::lemma_small_mod((n - 1) as nat, n as nat);
        } else {
            vstd::arithmetic::div_mod::lemma_small_mod((focus - 1) as nat, n as nat);
        }
    }
}

/// In a list without entries there is nowhere to move.
pub proof fn an_empty_list_has_no_focus_to_move(state: ControllerView)
    requires
        state.dialog is None,
        shown_entries(state).len() == 0,
    ensures
        state.handle(EventView::Down) == state,
        state.handle(EventView::Up) == state,
{
}

/// What a toggle asks for: an unregistered candidate is checked, to be added under the name that it
/// shows; a registered one is removed; a Registration in the Registry is disabled if it is enabled,
/// and enabled if it is not. It is the entry in focus that is meant, and no change begins while
/// another one runs.
pub proof fn what_a_toggle_asks_for(state: ControllerView)
    requires
        in_list(state),
    ensures
        ({
            let after = state.handle(EventView::Toggle);
            let shown = shown_entries(state);
            let focus = focus_of(state) as int;
            if state.mutation_active || focus >= shown.len() {
                after == state
            } else {
                let entry = shown[focus];
                match (state.view, entry.registration) {
                    (Tab::Discover, None) => {
                        &&& after.pending == Some(
                            RequestView::ValidateAdd { target: entry.target, name: entry.name },
                        )
                        &&& after.pending_add == Some((entry.target, entry.name))
                        &&& after.mutation_active
                        &&& after.emitted_mutation == state.emitted_mutation
                        &&& after.active_item_key == Some(text::lossy_text(entry.target))
                    },
                    (Tab::Discover, Some(registered)) => {
                        &&& after.pending == Some(
                            RequestView::Remove(registered.registration.name),
                        )
                        &&& after.mutation_active && after.emitted_mutation
                        &&& after.active_item_key == Some(text::lossy_text(entry.target))
                    },
                    (Tab::Registrations, Some(registered)) => {
                        &&& registered.registration.enabled ==> after.pending == Some(
                            RequestView::Disable(registered.registration.name),
                        )
                        &&& !registered.registration.enabled ==> after.pending == Some(
                            RequestView::Enable(registered.registration.name),
                        )
                        &&& after.mutation_active && after.emitted_mutation
                        &&& after.active_item_key == Some(registered.registration.name)
                    },
                    (Tab::Registrations, None) => after == state,
                }
            }
        }),
        ({
            let after = state.handle(EventView::Toggle);
            &&& after.discover == state.discover
            &&& after.registrations == state.registrations
            &&& after.view == state.view
            &&& after.filter == state.filter
            &&& in_list(after)
            &&& after.item_errors == state.item_errors
        }),
{
}

/// What a deletion asks for: of a Registration, that it is disabled if it is enabled, and removed if
/// it is not; of a candidate without a Registration, that its Target is ignored.
pub proof fn what_a_deletion_asks_for(state: ControllerView)
    requires
        in_list(state),
    ensures
        ({
            let after = state.handle(EventView::Delete);
            let shown = shown_entries(state);
            let focus = focus_of(state) as int;
            if state.mutation_active || focus >= shown.len() {
                after == state
            } else {
                let entry = shown[focus];
                match (state.view, entry.registration) {
                    (_, Some(registered)) => {
                        &&& registered.registration.enabled ==> after.pending == Some(
                            RequestView::Disable(registered.registration.name),
                        )
                        &&& !registered.registration.enabled ==> after.pending == Some(
                            RequestView::Remove(registered.registration.name),
                        )
                        &&& after.mutation_active && after.emitted_mutation
                        &&& after.active_item_key == Some(
                            if state.view == Tab::Discover {
                                text::lossy_text(entry.target)
                            } else {
                                entry.name
                            },
                        )
                    },
                    (Tab::Discover, None) => {
                        &&& after.pending == Some(RequestView::Ignore(entry.target))
                        &&& after.mutation_active && after.emitted_mutation
                        &&& after.active_item_key == Some(text::lossy_text(entry.target))
                    },
                    (Tab::Registrations, None) => after == state,
                }
            }
        }),
        ({
            let after = state.handle(EventView::Delete);
            &&& after.discover == state.discover
            &&& after.registrations == state.registrations
            &&& after.view == state.view
            &&& after.filter == state.filter
            &&& after.pending_add == state.pending_add
            &&& in_list(after)
        }),
{
}

/// A rename opens a dialog with the name of the entry in focus and does nothing else: for a
/// candidate at any time, for a Registration while no change runs.
pub proof fn what_a_rename_opens(state: ControllerView)
    requires
        in_list(state),
    ensures
        ({
            let after = state.handle(EventView::Rename);
            let shown = shown_entries(state);
            let focus = focus_of(state) as int;
            &&& after == (ControllerView { dialog: after.dialog, ..state })
            &&& if focus >= shown.len() {
                after.dialog is None
            } else {
                let entry = shown[focus];
                match entry.registration {
                    Some(registered) => after.dialog == if state.mutation_active {
                        None
                    } else {
                        Some(
                            DialogView::Rename {
                                name: registered.registration.name,
                                value: registered.registration.name,
                            },
                        )
                    },
                    None => after.dialog == if state.view == Tab::Discover {
                        Some(DialogView::EditName { original: entry.name, value: entry.name })
                    } else {
                        None
                    },
                }
            }
        }),
{
}

/// Switching shows the other list and loads it, and switching again comes back.
pub proof fn switching_goes_back_and_forth(state: ControllerView)
    requires
        in_list(state),
    ensures
        ({
            let after = state.handle(EventView::SwitchView);
            &&& after.view != state.view
            &&& after.pending == Some(
                if after.view == Tab::Discover {
                    RequestView::Search(state.search_root)
                } else {
                    RequestView::List
                },
            )
            &&& after.handle(EventView::SwitchView).view == state.view
            &&& after.discover == state.discover
            &&& after.registrations == state.registrations
            &&& after.filter == state.filter
            &&& after.item_errors == state.item_errors
            &&& after.mutation_active == state.mutation_active
        }),
{
}

/// Escape in a list clears the search, and where there is none, what is reported: errors of items,
/// the notice and the warnings of the last search. What is said of `PATH` stays.
pub proof fn what_is_dismissed(state: ControllerView)
    requires
        in_list(state),
    ensures
        state.filter.len() > 0 ==> state.handle(EventView::Dismiss) == refocused(
            ControllerView { filter: Seq::empty(), ..state },
            0,
        ),
        state.filter.len() == 0 ==> state.handle(EventView::Dismiss) == (ControllerView {
            item_errors: Map::empty(),
            notice: None,
            discovery_warning: None,
            ..state
        }),
        state.handle(EventView::ClearFilter) == refocused(
            ControllerView { filter: Seq::empty(), ..state },
            0,
        ),
{
}

/// A search begins with what is in the search field, and leaving is all that `q` does.
pub proof fn searching_and_leaving(state: ControllerView)
    requires
        in_list(state),
    ensures
        state.handle(EventView::StartFilter) == (ControllerView { filter_active: true, ..state }),
        state.handle(EventView::Exit) == (ControllerView { exit: true, ..state }),
{
}

/// In the search field what is typed is added to the filter, backspace takes the last character
/// away, enter keeps the filter and goes back to the list, and giving up clears it. Whenever the
/// filter changes, the first entry is in focus.
pub proof fn what_the_search_field_does(state: ControllerView, typed: Seq<char>)
    requires
        state.dialog is None,
        state.filter_active,
    ensures
        state.handle(EventView::Text(typed)) == refocused(
            ControllerView { filter: state.filter + typed, ..state },
            0,
        ),
        state.filter.len() > 0 ==> state.handle(EventView::Backspace) == refocused(
            ControllerView { filter: state.filter.take(state.filter.len() - 1), ..state },
            0,
        ),
        state.filter.len() == 0 ==> state.handle(EventView::Backspace).filter == state.filter,
        state.handle(EventView::Submit) == (ControllerView { filter_active: false, ..state }),
        state.handle(EventView::ClearFilter) == refocused(
            ControllerView { filter: Seq::empty(), filter_active: false, ..state },
            0,
        ),
        state.handle(EventView::Cancel) == state.handle(EventView::ClearFilter),
        state.handle(EventView::Dismiss) == state.handle(EventView::ClearFilter),
{
    if state.filter.len() > 0 {
        assert(state.filter.drop_last() =~= state.filter.take(state.filter.len() - 1));
    }
}

/// In a dialog for a name what is typed is added to the name; submitting a rename asks for that
/// Registration to get the name that was entered, unless a change runs.
pub proof fn what_a_rename_submits(
    state: ControllerView,
    name: Seq<char>,
    value: Seq<char>,
    typed: Seq<char>,
)
    requires
        state.dialog == Some(DialogView::Rename { name, value }),
    ensures
        state.handle(EventView::Text(typed)) == (ControllerView {
            dialog: Some(DialogView::Rename { name, value: value + typed }),
            ..state
        }),
        state.mutation_active ==> state.handle(EventView::Submit) == state,
        !state.mutation_active ==> {
            let after = state.handle(EventView::Submit);
            &&& after.pending == Some(RequestView::Rename { name, new_name: value })
            &&& after.dialog is None
            &&& after.mutation_active && after.emitted_mutation
            &&& after.active_item_key == Some(name)
            &&& after.discover == state.discover
            &&& after.registrations == state.registrations
            &&& after.view == state.view
        },
{
}

/// Entering a name for a candidate gives that name to the candidate in focus, and to no other entry,
/// and asks for nothing.
pub proof fn what_a_new_name_changes(
    state: ControllerView,
    original: Seq<char>,
    value: Seq<char>,
    at: int,
)
    requires
        state.dialog == Some(DialogView::EditName { original, value }),
        0 <= at < state.discover.entries.len(),
        ({
            let shown = tui::visible(state.discover.entries, state.filter);
            &&& state.discover.focus < shown.len()
            &&& path::components(shown[state.discover.focus as int].target) == path::components(
                state.discover.entries[at].target,
            )
            &&& forall|i: int|
                0 <= i < state.discover.entries.len() && i != at ==> path::components(
                    (#[trigger] state.discover.entries[i]).target,
                ) != path::components(state.discover.entries[at].target)
        }),
    ensures
        ({
            let after = state.handle(EventView::Submit);
            &&& after.dialog is None
            &&& after.discover.entries.len() == state.discover.entries.len()
            &&& after.discover.entries[at] == (ListEntryView {
                name: value,
                ..state.discover.entries[at]
            })
            &&& forall|i: int|
                0 <= i < state.discover.entries.len() && i != at
                    ==> #[trigger] after.discover.entries[i] == state.discover.entries[i]
            &&& after.registrations == state.registrations
            &&& after.pending == state.pending
            &&& after.emitted_mutation == state.emitted_mutation
            &&& after.mutation_active == state.mutation_active
        }),
{
    let shown = tui::visible(state.discover.entries, state.filter);
    let target = shown[state.discover.focus as int].target;
    first_entry_is_first(state.discover.entries, target);
    let found = tui::first_entry_of_target(state.discover.entries, target);
    assert(state.discover.entries[at] == state.discover.entries[at]);
    assert(found == Some(at));
}

/// The first entry of a Target has that Target, and no entry before it has.
pub proof fn first_entry_is_first(entries: Seq<ListEntryView>, target: Seq<u8>)
    ensures
        match tui::first_entry_of_target(entries, target) {
            Some(at) => 0 <= at < entries.len() && path::components(entries[at].target)
                == path::components(target) && forall|i: int|
                0 <= i < at ==> path::components((#[trigger] entries[i]).target)
                    != path::components(target),
            None => forall|i: int|
                0 <= i < entries.len() ==> path::components((#[trigger] entries[i]).target)
                    != path::components(target),
        },
    decreases entries.len(),
{
    if entries.len() > 0 {
        let before = entries.drop_last();
        first_entry_is_first(before, target);
        assert(forall|i: int| 0 <= i < before.len() ==> #[trigger] before[i] == entries[i]);
        assert forall|i: int|
            0 <= i < entries.len() && tui::first_entry_of_target(
                entries,
                target,
            ) is None implies path::components((#[trigger] entries[i]).target) != path::components(
            target,
        ) by {
            if i < before.len() {
                assert(before[i] == entries[i]);
            }
        }
        if let Some(at) = tui::first_entry_of_target(entries, target) {
            assert forall|i: int| 0 <= i < at implies path::components(
                (#[trigger] entries[i]).target,
            ) != path::components(target) by {
                assert(before[i] == entries[i]);
            }
        }
    }
}

/// An error is read and put away, and nothing else can be done about it.
pub proof fn an_error_is_put_away(state: ControllerView, error: Seq<char>, event: EventView)
    requires
        state.dialog == Some(DialogView::Error { text: error }),
        !(event is Resize),
    ensures
        state.handle(event) == if event is Cancel || event is Dismiss {
            ControllerView { dialog: None, ..state }
        } else if event is Exit {
            ControllerView { exit: true, ..state }
        } else {
            state
        },
{
}

/// The cells of an area: those from its upper left corner on, as many as it is wide and high.
pub proof fn what_an_area_holds(area: Area, column: u16, row: u16)
    requires
        area.x + area.width <= u16::MAX,
        area.y + area.height <= u16::MAX,
    ensures
        area.holds(column, row) <==> area.x <= column < area.x + area.width && area.y <= row
            < area.y + area.height,
{
}

pub open spec fn click(column: u16, row: u16) -> EventView {
    EventView::Mouse(
        MouseEvent { kind: MouseEventKind::Down(MouseButton::Left), column, row },
    )
}

/// A click on a tab shows its list, and loads it if it was not shown before. A click on the search
/// field lets a search be entered.
pub proof fn what_a_click_above_the_list_does(state: ControllerView, column: u16, row: u16)
    requires
        state.dialog is None,
    ensures
        ({
            let after = state.handle(click(column, row));
            let on_discover = state.mouse_regions.discover_tab.holds(column, row);
            let on_registrations = state.mouse_regions.registrations_tab.holds(column, row);
            let on_search = state.mouse_regions.search.holds(column, row);
            &&& on_discover ==> after.view == Tab::Discover && !after.filter_active && (
            if state.view == Tab::Discover {
                after.pending == state.pending
            } else {
                after.pending == Some(RequestView::Search(state.search_root))
            })
            &&& on_registrations && !on_discover ==> after.view == Tab::Registrations
                && !after.filter_active && (if state.view == Tab::Registrations {
                after.pending == state.pending
            } else {
                after.pending == Some(RequestView::List)
            })
            &&& on_search && !on_discover && !on_registrations ==> after == (ControllerView {
                filter_active: true,
                ..state
            })
            &&& on_discover || on_registrations ==> after.discover == state.discover
                && after.registrations == state.registrations && after.filter == state.filter
        }),
{
}

/// A click in the list puts the focus on the entry that is drawn there, if there is one.
pub proof fn what_a_click_in_the_list_does(state: ControllerView, column: u16, row: u16)
    requires
        state.dialog is None,
        state.mouse_regions.list.holds(column, row),
        !state.mouse_regions.discover_tab.holds(column, row),
        !state.mouse_regions.registrations_tab.holds(column, row),
        !state.mouse_regions.search.holds(column, row),
    ensures
        ({
            let after = state.handle(click(column, row));
            let offset = match state.view {
                Tab::Discover => state.discover.offset,
                Tab::Registrations => state.registrations.offset,
            };
            let index = offset + (row - state.mouse_regions.list.y);
            after == refocused(
                ControllerView { filter_active: false, ..state },
                if index < shown_entries(state).len() {
                    index as usize
                } else {
                    focus_of(state)
                },
            )
        }),
{
}

/// The wheel moves the list by three rows, never past its first or last screen, and the focus stays
/// on the screen: it moves only as far as it has to.
pub proof fn what_the_wheel_does(state: ControllerView, down: bool, column: u16, row: u16)
    requires
        state.dialog is None,
        state.mouse_regions.list.holds(column, row),
        shown_entries(state).len() > 0,
        shown_entries(state).len() <= usize::MAX,
        focus_of(state) < shown_entries(state).len(),
    ensures
        ({
            let kind = if down {
                MouseEventKind::ScrollDown
            } else {
                MouseEventKind::ScrollUp
            };
            let after = state.handle(EventView::Mouse(MouseEvent { kind, column, row }));
            let before = state.active();
            let list = after.active();
            let n = shown_entries(state).len() as int;
            let height = state.mouse_regions.list.height as int;
            let last_top: int = if n > height {
                n - height
            } else {
                0
            };
            &&& list.entries == before.entries
            &&& 0 <= list.offset <= last_top
            &&& down && before.offset + 3 <= last_top ==> list.offset == before.offset + 3
            &&& down && before.offset + 3 > last_top ==> list.offset == last_top
            &&& !down && before.offset < 3 ==> list.offset == 0
            &&& !down && 3 <= before.offset && before.offset - 3 <= last_top ==> list.offset
                == before.offset - 3
            &&& list.offset <= list.focus < n
            &&& list.focus < list.offset + height
            &&& list.offset <= before.focus < list.offset + height ==> list.focus == before.focus
            &&& before.focus < list.offset ==> list.focus == list.offset
            &&& after.view == state.view
            &&& after.filter == state.filter
            &&& after.pending == state.pending
            &&& after.mutation_active == state.mutation_active
        }),
{
}

/// Nothing that the mouse does outside the tabs, the search field and the list has any effect, nor
/// does any other button.
pub proof fn where_the_mouse_does_nothing(state: ControllerView, mouse: MouseEvent)
    requires
        state.dialog is None,
        !state.mouse_regions.list.holds(mouse.column, mouse.row),
        mouse.kind != MouseEventKind::Down(MouseButton::Left) || (
        !state.mouse_regions.discover_tab.holds(mouse.column, mouse.row)
            && !state.mouse_regions.registrations_tab.holds(mouse.column, mouse.row)
            && !state.mouse_regions.search.holds(mouse.column, mouse.row)),
    ensures
        state.handle(EventView::Mouse(mouse)) == state,
{
}

/// A new size is noted in every mode, and where things were drawn is forgotten.
pub proof fn a_new_size_is_noted(state: ControllerView, width: u16, height: u16)
    ensures
        ({
            let after = state.handle(EventView::Resize(width, height));
            &&& after.size == (width, height)
            &&& after == (ControllerView {
                size: after.size,
                mouse_regions: after.mouse_regions,
                ..state
            })
            &&& forall|column: u16, row: u16|
                !(#[trigger] after.mouse_regions.list.holds(column, row))
            &&& forall|column: u16, row: u16|
                !(#[trigger] after.mouse_regions.discover_tab.holds(column, row))
            &&& forall|column: u16, row: u16|
                !(#[trigger] after.mouse_regions.registrations_tab.holds(column, row))
            &&& forall|column: u16, row: u16|
                !(#[trigger] after.mouse_regions.search.holds(column, row))
        }),
{
}

/// A search or a list that fails is reported in a dialog, with the error's identifier and message,
/// and the lists stay as they are.
pub proof fn a_failed_load_is_reported(state: ControllerView, error: OperationErrorView)
    ensures
        state.complete(OperationResultView::Search(Err(error))) == (ControllerView {
            dialog: Some(DialogView::Error { text: error.identifier + ": "@ + error.message }),
            ..state
        }),
        state.complete(OperationResultView::List(Err(error))) == state.complete(
            OperationResultView::Search(Err(error)),
        ),
{
}

/// A change that was made is noticed under its identifier, and a Target that was added counts as
/// registered in this session. No item gets an error.
pub proof fn what_a_made_change_leaves(state: ControllerView, result: LifecycleResultView)
    ensures
        ({
            let after = state.complete(OperationResultView::Mutation(Ok(result)));
            &&& after.notice == Some(result.identifier)
            &&& after.item_errors == state.item_errors
            &&& after.active_add_target is None
            &&& after.active_item_key is None
            &&& match state.active_add_target {
                Some(target) => after.session_registered_targets
                    == state.session_registered_targets.push(target),
                None => after.session_registered_targets == state.session_registered_targets,
            }
            &&& after.dialog == state.dialog
            &&& after.filter == state.filter
            &&& after.view == state.view
        }),
        ({
            let after = state.complete(OperationResultView::Ignore(Ok(result.identifier)));
            &&& after.notice == Some(result.identifier)
            &&& after.item_errors == state.item_errors
            &&& !after.mutation_active
            &&& after.pending == Some(state.reload())
        }),
{
}

/// A change that failed leaves its error with an item: in the list of Registrations with the one
/// that the error names, else with the one that was changed. Nothing counts as registered by it,
/// and the notice stays.
pub proof fn what_a_failed_change_leaves(state: ControllerView, error: OperationErrorView)
    ensures
        ({
            let after = state.complete(OperationResultView::Mutation(Err(error)));
            let line = error.identifier + ": "@ + error.message;
            &&& after.session_registered_targets == state.session_registered_targets
            &&& after.notice == state.notice
            &&& after.active_add_target is None
            &&& match (state.view, error.registration_name, state.active_item_key) {
                (Tab::Registrations, Some(name), _) => after.item_errors
                    == state.item_errors.insert(name, line),
                (_, _, Some(key)) => after.item_errors == state.item_errors.insert(key, line),
                (_, _, None) => after.item_errors == state.item_errors,
            }
            &&& after == state.complete(OperationResultView::Ignore(Err(error)))
        }),
{
}

/// A check that did not pass leaves its reason with the candidate that was checked.
pub proof fn what_a_refused_check_leaves(
    state: ControllerView,
    result: LifecycleResultView,
    error: OperationErrorView,
    key: Seq<char>,
)
    requires
        state.active_item_key == Some(key),
        result.status == LifecycleStatus::Blocked,
    ensures
        state.complete(OperationResultView::Validation(Ok(result))).item_errors
            == state.item_errors.insert(
            key,
            result.identifier + ": "@ + match result.conflict {
                Some(conflict) => conflict,
                None => "Registration is blocked"@,
            },
        ),
        state.complete(OperationResultView::Validation(Err(error))).item_errors
            == state.item_errors.insert(key, error.identifier + ": "@ + error.message),
{
}

/// What is drawn of an entry: its name and Target, whether it is registered or, in the list of
/// Registrations, enabled, and the error that it was left with.
pub proof fn what_an_item_shows(state: ControllerView, i: int)
    requires
        0 <= i < shown_entries(state).len(),
    ensures
        ({
            let items = state.semantic_state(state.size.0, state.size.1).items;
            let entry = shown_entries(state)[i];
            let key = match state.view {
                Tab::Discover => text::lossy_text(entry.target),
                Tab::Registrations => entry.name,
            };
            &&& items.len() == shown_entries(state).len()
            &&& items[i].name == entry.name
            &&& items[i].target == entry.target
            &&& items[i].checked <==> (entry.registration matches Some(registered) && (state.view
                == Tab::Discover || registered.registration.enabled))
            &&& items[i].error is Some <==> state.item_errors.contains_key(key)
            &&& items[i].error matches Some(error) ==> error == state.item_errors[key]
            &&& entry.unavailable ==> items[i].status == "unavailable"@
            &&& !entry.unavailable && entry.registration is None ==> items[i].status.len() == 0
        }),
{
}

/// The status of a Registration says its defect, and what lies at its managed path unless that is
/// its own link or nothing.
pub proof fn what_a_status_says(
    state: ControllerView,
    entry: ListEntryView,
    registered: RegistrationStateView,
)
    requires
        entry.registration == Some(registered),
        !entry.unavailable,
    ensures
        ({
            let status = state.item(entry).status;
            let usual = registered.actual == ManagedPathKind::OwnedLink || registered.actual
                == ManagedPathKind::Missing;
            let kind = registered.actual.identifier_text();
            match registered.defect {
                None => status == if usual {
                    Seq::empty()
                } else {
                    kind
                },
                Some(defect) => status == if usual {
                    defect.kind.identifier_text()
                } else {
                    defect.kind.identifier_text() + " "@ + kind
                },
            }
        }),
{
}

/// An empty list says why it is empty, and only an empty one does. The screen is drawn compactly
/// where it is narrower than fifty cells or lower than ten.
pub proof fn what_the_screen_says(state: ControllerView, width: u16, height: u16)
    ensures
        ({
            let screen = state.semantic_state(width, height);
            let entries = state.active().entries;
            &&& screen.view == state.view
            &&& screen.focused == focus_of(state)
            &&& screen.filter == state.filter
            &&& screen.filter_active == state.filter_active
            &&& screen.search_root == state.search_root
            &&& screen.empty_message is Some <==> shown_entries(state).len() == 0
            &&& shown_entries(state).len() == 0 ==> screen.empty_message == Some(
                if state.filter.len() > 0 && entries.len() > 0 {
                    "No matches for "@ + text::quoted_text(state.filter)
                } else if state.view == Tab::Discover {
                    "No executable candidates found"@
                } else {
                    "No Registrations"@
                },
            )
            &&& screen.compact <==> width < 50 || height < 10
            &&& match state.dialog {
                None => screen.dialog is None,
                Some(DialogView::EditName { original, value }) => screen.dialog == Some(
                    "Edit Command Name ("@ + original + ")\n"@ + value,
                ),
                Some(DialogView::Rename { name, value }) => screen.dialog == Some(
                    "Command Name: "@ + value,
                ),
                Some(DialogView::Error { text }) => screen.dialog == Some(text),
            }
        }),
{
}

/// What is noticed is the outcome of the last change, what is said of `PATH`, and the warnings of
/// the last search, in this order, each once; and nothing where there is none of them.
pub proof fn what_is_noticed(
    state: ControllerView,
    notice: Seq<char>,
    path_warning: Seq<char>,
    discovery_warning: Seq<char>,
    width: u16,
    height: u16,
)
    requires
        notice != path_warning,
        path_warning != discovery_warning,
        discovery_warning != notice,
    ensures
        ({
            let noticed = |a: Option<Seq<char>>, b: Option<Seq<char>>, c: Option<Seq<char>>|
                (ControllerView {
                    notice: a,
                    path_warning: b,
                    discovery_warning: c,
                    ..state
                }).semantic_state(width, height).notice;
            let n = Some(notice);
            let p = Some(path_warning);
            let d = Some(discovery_warning);
            &&& noticed(None, None, None) is None
            &&& noticed(n, None, None) == n
            &&& noticed(None, p, None) == p
            &&& noticed(None, None, d) == d
            &&& noticed(n, n, n) == n
            &&& noticed(n, p, None) == Some(notice + "; "@ + path_warning)
            &&& noticed(None, p, d) == Some(path_warning + "; "@ + discovery_warning)
            &&& noticed(n, p, d) == Some(
                notice + "; "@ + path_warning + "; "@ + discovery_warning,
            )
        }),
{
    reveal_with_fuel(tui::without_repeats, 4);
    reveal_with_fuel(text::separated, 4);
    assert(seq![notice, notice, notice].drop_last() =~= seq![notice, notice]);
    assert(seq![notice, notice].drop_last() =~= seq![notice]);
    assert(seq![notice].drop_last() =~= Seq::<Seq<char>>::empty());
    assert(seq![path_warning].drop_last() =~= Seq::<Seq<char>>::empty());
    assert(seq![discovery_warning].drop_last() =~= Seq::<Seq<char>>::empty());
    assert(Seq::<Seq<char>>::empty().push(notice) =~= seq![notice]);
    assert(Seq::<Seq<char>>::empty().push(path_warning) =~= seq![path_warning]);
    assert(Seq::<Seq<char>>::empty().push(discovery_warning) =~= seq![discovery_warning]);
    assert(seq![notice][0] == notice);
    assert(seq![notice].contains(notice));
    assert(seq![notice, path_warning].drop_last() =~= seq![notice]);
    assert(seq![notice].push(path_warning) =~= seq![notice, path_warning]);
    assert(seq![path_warning, discovery_warning].drop_last() =~= seq![path_warning]);
    assert(seq![path_warning].push(discovery_warning) =~= seq![path_warning, discovery_warning]);
    assert(seq![notice, path_warning, discovery_warning].drop_last() =~= seq![notice, path_warning]);
    assert(seq![notice, path_warning].push(discovery_warning) =~= seq![
        notice,
        path_warning,
        discovery_warning,
    ]);
    let none = Seq::<Seq<char>>::empty();
    assert(none + none + none =~= none);
    assert(seq![notice] + none + none =~= seq![notice]);
    assert(none + seq![path_warning] + none =~= seq![path_warning]);
    assert(none + none + seq![discovery_warning] =~= seq![discovery_warning]);
    assert(seq![notice] + seq![notice] + seq![notice] =~= seq![notice, notice, notice]);
    assert(seq![notice] + seq![path_warning] + none =~= seq![notice, path_warning]);
    assert(none + seq![path_warning] + seq![discovery_warning] =~= seq![
        path_warning,
        discovery_warning,
    ]);
    assert(seq![notice] + seq![path_warning] + seq![discovery_warning] =~= seq![
        notice,
        path_warning,
        discovery_warning,
    ]);
}

/// Every request begins the operation that it names, on what it names; what the interface adds is
/// enabled at once.
pub proof fn requests_begin_their_operations(
    root: Seq<u8>,
    target: Seq<u8>,
    name: Seq<char>,
    new_name: Seq<char>,
)
    requires
        registry::valid_name(name),
        registry::valid_name(new_name),
    ensures
        tui::operation_for(RequestView::Search(root)) == OperationView::Search(
            SearchPhaseView::Configuring { search_root: Some(root) },
        ),
        tui::operation_for(RequestView::List) == OperationView::List(ListPhaseView::Configuring),
        tui::operation_for(RequestView::Ignore(target)) == OperationView::Ignore(target),
        tui::operation_for(RequestView::Enable(name)) matches OperationView::Mutation(state)
            && state.task == (TaskView::SetEnabled { name, enabled: true }) && begins(
            state,
            "enable-failed"@,
            seq![name],
        ),
        tui::operation_for(RequestView::Disable(name)) matches OperationView::Mutation(state)
            && state.task == (TaskView::SetEnabled { name, enabled: false }) && begins(
            state,
            "disable-failed"@,
            seq![name],
        ),
        tui::operation_for(RequestView::Remove(name)) matches OperationView::Mutation(state)
            && state.task == (TaskView::Remove { name }) && begins(
            state,
            "remove-failed"@,
            seq![name],
        ),
        tui::operation_for(RequestView::Rename { name, new_name }) matches OperationView::Mutation(
            state,
        ) && state.task == (TaskView::Rename { name, new_name }) && begins(
            state,
            "rename-failed"@,
            seq![new_name, name],
        ),
        tui::operation_for(RequestView::Add { target, name }) matches OperationView::Mutation(state)
            && begins(state, "add-failed"@, seq![name]) && (state.task matches TaskView::Add(request) && request.target
            == target && request.name == Some(name) && !request.disabled),
        tui::operation_for(
            RequestView::ValidateAdd { target, name },
        ) matches OperationView::Validation(state) && state.phase is Configuring && state.failure
            is None && (state.task matches TaskView::ValidateAdd(request) && request.target
            == target && request.name == Some(name) && !request.disabled),
{
    reveal_with_fuel(lifecycle::begun, 3);
    assert(seq![name].skip(1) =~= Seq::empty());
    assert(seq![name, new_name].skip(1) =~= seq![new_name]);
    assert(seq![new_name].skip(1) =~= Seq::empty());
}

/// An operation that has done nothing yet, and calls a failure this and looks these names up then.
pub open spec fn begins(
    state: LifecycleView,
    identifier: Seq<char>,
    names: Seq<Seq<char>>,
) -> bool {
    &&& state.phase is Configuring
    &&& state.failure matches Some(failure) && failure.identifier == identifier && failure.names
        == names
}

/// What is said of `PATH` stays on the screen once there is something to say.
pub proof fn what_is_said_of_the_path_stays(state: ControllerView, diagnostic: PathDiagnosticView)
    ensures
        diagnostic.status == PathStatus::Missing ==> state.warn_of_path(diagnostic).path_warning
            == Some("warning["@ + diagnostic.identifier + "]: "@ + diagnostic.guidance),
        diagnostic.status != PathStatus::Missing ==> state.warn_of_path(diagnostic) == state,
        state.warn_of_path(diagnostic) == (ControllerView {
            path_warning: state.warn_of_path(diagnostic).path_warning,
            ..state
        }),
{
}

/// An interface begins with a search below the root that it was given, and shows nothing yet.
pub proof fn how_an_interface_begins(
    search_root: Seq<u8>,
    home: Seq<u8>,
    roots: Seq<DisplayRootView>,
)
    ensures
        ({
            let state = ControllerView::initial(search_root, home, roots);
            &&& state.view == Tab::Discover
            &&& state.pending == Some(RequestView::Search(search_root))
            &&& state.search_root == search_root
            &&& state.home == home
            &&& state.roots == roots
            &&& state.discover.entries.len() == 0
            &&& state.registrations.entries.len() == 0
            &&& state.filter.len() == 0
            &&& !state.filter_active
            &&& !state.exit
            &&& !state.mutation_active
            &&& state.dialog is None
            &&& state.notice is None
        }),
{
}

/// Of messages under the same key the last one counts; a key under which none was put has none.
pub proof fn which_message_counts(messages: Seq<(String, String)>, key: Seq<char>, i: int)
    ensures
        ({
            &&& 0 <= i < messages.len()
            &&& messages[i].0@ == key
            &&& forall|j: int| i < j < messages.len() ==> (#[trigger] messages[j]).0@ != key
        }) ==> tui::messages_map(messages).contains_key(key) && tui::messages_map(messages)[key]
            == messages[i].1@,
        (forall|j: int| 0 <= j < messages.len() ==> (#[trigger] messages[j]).0@ != key)
            ==> !tui::messages_map(messages).contains_key(key),
    decreases messages.len(),
{
    if messages.len() > 0 {
        let rest = messages.drop_last();
        let last = messages.len() - 1;
        which_message_counts(rest, key, i);
        assert(messages.last() == messages[last]);
        if forall|j: int| 0 <= j < messages.len() ==> (#[trigger] messages[j]).0@ != key {
            assert forall|j: int| 0 <= j < rest.len() implies (#[trigger] rest[j]).0@ != key by {
                assert(rest[j] == messages[j]);
            }
            assert(messages[last].0@ != key);
        }
        if 0 <= i < rest.len() && messages[i].0@ == key && forall|j: int|
            i < j < messages.len() ==> (#[trigger] messages[j]).0@ != key {
            assert forall|j: int| i < j < rest.len() implies (#[trigger] rest[j]).0@ != key by {
                assert(rest[j] == messages[j]);
            }
            assert(messages[last].0@ != key);
            assert(rest[i] == messages[i]);
        }
    }
}

/// A Registration keeps its place in the next list where it was just disabled in the list of
/// Registrations, and had a broken link there.
pub proof fn whose_place_is_kept(
    state: ControllerView,
    result: LifecycleResultView,
    disabled: RegistrationStateView,
    i: int,
)
    requires
        state.view == Tab::Registrations,
        result.identifier == "registration-disabled"@,
        result.registration == Some(disabled),
        0 <= i < state.registrations.entries.len(),
        state.registrations.entries[i].name == disabled.registration.name,
        forall|j: int|
            0 <= j < state.registrations.entries.len() && (#[trigger] state.registrations.entries[j]).name
                == disabled.registration.name ==> j == i,
        state.registrations.entries[i].registration matches Some(shown) && shown.defect matches Some(
            defect,
        ) && defect.kind == RegistrationDefectKind::LinkBroken,
    ensures
        state.complete(OperationResultView::Mutation(Ok(result))).kept == Some(
            disabled.registration.name,
        ),
{
    the_entry_with_a_name(state.registrations.entries, disabled.registration.name, i);
}

proof fn the_entry_with_a_name(entries: Seq<ListEntryView>, name: Seq<char>, i: int)
    requires
        0 <= i < entries.len(),
        entries[i].name == name,
        forall|j: int| 0 <= j < entries.len() && (#[trigger] entries[j]).name == name ==> j == i,
    ensures
        tui::entry_named(entries, name) == Some(i),
    decreases entries.len(),
{
    let rest = entries.drop_last();
    if i < rest.len() {
        assert(entries[entries.len() - 1].name != name);
        assert forall|j: int| 0 <= j < rest.len() && (#[trigger] rest[j]).name == name implies j
            == i by {
            assert(entries[j] == rest[j]);
        }
        the_entry_with_a_name(rest, name, i);
    }
}

/// What is typed into a dialog is put behind what stands there, and backspace takes the last
/// character away; nothing else changes. Leaving goes on as ever.
pub proof fn what_typing_does(
    state: ControllerView,
    name: Seq<char>,
    value: Seq<char>,
    typed: Seq<char>,
    last: char,
)
    ensures
        ({
            let naming = |entered: Seq<char>|
                ControllerView {
                    dialog: Some(DialogView::EditName { original: name, value: entered }),
                    ..state
                };
            let renaming = |entered: Seq<char>|
                ControllerView {
                    dialog: Some(DialogView::Rename { name, value: entered }),
                    ..state
                };
            &&& naming(value).handle(EventView::Text(typed)) == naming(value + typed)
            &&& renaming(value).handle(EventView::Text(typed)) == renaming(value + typed)
            &&& naming(value.push(last)).handle(EventView::Backspace) == naming(value)
            &&& renaming(value.push(last)).handle(EventView::Backspace) == renaming(value)
            &&& naming(value).handle(EventView::Exit).exit
            &&& renaming(value).handle(EventView::Exit).exit
        }),
{
    assert(value.push(last).drop_last() =~= value);
}

} // verus!
