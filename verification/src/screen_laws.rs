//! What a screen shows and where, and how a terminal is given back.

use vstd::prelude::*;
use vstd::utf8;

use crate::path;
use crate::screen;
use crate::screen::{BodyView, Direction, SpanView};
use crate::terminal;
use crate::terminal::{CleanupStep, EntryStep};
use crate::text;
use crate::theme;
use crate::tui;
use crate::tui::{Area, ControllerView, DialogView, ListEntryView, SemanticItemView, Tab};

verus! {

/// The text of spans, one behind the other.
pub open spec fn read(spans: Seq<SpanView>) -> Seq<char>
    decreases spans.len(),
{
    if spans.len() == 0 {
        Seq::empty()
    } else {
        spans[0].text + read(spans.drop_first())
    }
}

proof fn read_in_parts(a: Seq<SpanView>, b: Seq<SpanView>)
    ensures
        read(a + b) == read(a) + read(b),
    decreases a.len(),
{
    if a.len() == 0 {
        assert(a + b =~= b);
        assert(read(a) + read(b) =~= read(b));
    } else {
        assert((a + b).drop_first() =~= a.drop_first() + b);
        read_in_parts(a.drop_first(), b);
        assert(a[0].text + (read(a.drop_first()) + read(b)) =~= a[0].text + read(a.drop_first())
            + read(b));
    }
}

proof fn read_one(a: SpanView)
    ensures
        read(seq![a]) == a.text,
{
    assert(seq![a].drop_first() =~= Seq::<SpanView>::empty());
    assert(read(seq![a].drop_first()) =~= Seq::<char>::empty());
    assert(a.text + Seq::<char>::empty() =~= a.text);
}

proof fn read_two(a: SpanView, b: SpanView)
    ensures
        read(seq![a, b]) == a.text + b.text,
{
    read_one(a);
    read_one(b);
    assert(seq![a, b] =~= seq![a] + seq![b]);
    read_in_parts(seq![a], seq![b]);
}

/// What a row of a list says: a box that is ticked where the item is checked, and the path; the name
/// where it is not the last one of the path, the status where there is one, and the error where
/// there is one follow behind a dot each.
pub proof fn what_a_row_says(state: ControllerView, item: SemanticItemView)
    ensures
        read(screen::row_spans(state, item)) == (if item.checked {
            "[x]"@
        } else {
            "[ ]"@
        }) + " "@ + state.display(item.target) + (match path::file_name_of(item.target) {
            Some(last) => if last == utf8::encode_utf8(item.name) {
                Seq::<char>::empty()
            } else {
                " · "@ + item.name
            },
            None => Seq::<char>::empty(),
        }) + (if item.status.len() == 0 {
            Seq::<char>::empty()
        } else {
            " · "@ + item.status
        }) + (match item.error {
            Some(error) => " · "@ + error,
            None => Seq::<char>::empty(),
        }),
{
    let none = Seq::<SpanView>::empty();
    let marker = if item.checked {
        screen::span("[x]"@, theme::ink(theme::mocha::GREEN))
    } else {
        screen::span("[ ]"@, theme::ink(theme::mocha::OVERLAY_0))
    };
    let shown = screen::span(" "@ + state.display(item.target), theme::unstyled());
    let dot = screen::span(" · "@, theme::unstyled());
    let name = screen::span(item.name, theme::ink(theme::mocha::GREEN));
    let told = screen::span(item.status, theme::ink(theme::mocha::PEACH));
    let head = seq![marker, shown];
    let alias = if screen::link_differs(item) {
        seq![dot, name]
    } else {
        none
    };
    let status = if item.status.len() > 0 {
        seq![dot, told]
    } else {
        none
    };
    let error = match item.error {
        Some(error) => seq![screen::span(" · "@ + error, theme::ink(theme::mocha::RED))],
        None => none,
    };
    read_two(marker, shown);
    read_two(dot, name);
    read_two(dot, told);
    assert(read(none) =~= Seq::<char>::empty());
    if let Some(said) = item.error {
        read_one(screen::span(" · "@ + said, theme::ink(theme::mocha::RED)));
    }
    read_in_parts(head, alias);
    read_in_parts(head + alias, status);
    read_in_parts(head + alias + status, error);
    assert(screen::row_spans(state, item) == head + alias + status + error);
    assert(marker.text + shown.text =~= marker.text + " "@ + state.display(item.target));
}

/// How a row looks: the one in focus is bold and has a background of its own; of the others, those
/// with a defect have their own color.
pub proof fn how_a_row_looks(entry: ListEntryView, other: ListEntryView)
    ensures
        screen::row_style(entry, true).bold,
        !screen::row_style(entry, false).bold,
        screen::row_style(entry, true) == screen::row_style(other, true),
        screen::row_style(entry, true).bg != screen::row_style(other, false).bg,
        (entry.registration matches Some(registered) && registered.defect is Some) ==> {
            &&& screen::row_style(entry, false).fg == Some(theme::mocha::YELLOW)
        },
        !(entry.registration matches Some(registered) && registered.defect is Some)
            ==> screen::row_style(entry, false).fg == Some(theme::mocha::TEXT),
{
}

/// The rows of a list are those that its filter leaves, in order, and the one in focus looks like it.
pub proof fn which_rows_there_are(state: ControllerView, i: int)
    requires
        0 <= i < tui::visible(state.active().entries, state.filter).len(),
    ensures
        ({
            let shown = tui::visible(state.active().entries, state.filter);
            let rows = screen::rows_of(state);
            &&& rows.len() == shown.len()
            &&& rows[i].style.bold <==> i == state.active().focus
            &&& rows[i].spans == screen::row_spans(state, state.item(shown[i]))
        }),
{
}

/// What stands in the search field: what was entered, and a prompt as long as nothing was and the
/// field is not in use.
pub proof fn what_the_search_field_shows(state: ControllerView)
    ensures
        state.filter.len() > 0 || state.filter_active ==> screen::search_line(state).0 == " "@
            + state.filter,
        state.filter.len() == 0 && !state.filter_active ==> screen::search_line(state).0
            == " Press / to search"@,
{
}

/// The list that is shown has its title in brackets, and both titles take the same place in either
/// list.
pub proof fn what_the_titles_are(view: Tab)
    ensures
        screen::titles(view).0 == if view == Tab::Discover {
            "[ Discover ]"@
        } else {
            "  Discover  "@
        },
        screen::titles(view).1 == if view == Tab::Registrations {
            "[ Registry ]"@
        } else {
            "  Registry  "@
        },
        screen::cells(screen::titles(view).0) == 12,
        screen::cells(screen::titles(view).1) == 12,
{
    reveal_strlit("[ Discover ]");
    reveal_strlit("  Registry  ");
    reveal_strlit("  Discover  ");
    reveal_strlit("[ Registry ]");
}

/// Where a click reaches a title: on the row of the titles, from the cell before it to the one
/// behind it.
pub proof fn where_the_titles_are(view: Tab, tabs: Area, search: Area, body: Area)
    requires
        tabs.width == 32,
        tabs.height == 3,
        tabs.x + 32 <= u16::MAX,
        tabs.y + 3 <= u16::MAX,
    ensures
        ({
            let regions = screen::regions_of(view, tabs, search, body);
            &&& regions.discover_tab == Area {
                x: (tabs.x + 1) as u16,
                y: (tabs.y + 1) as u16,
                width: 14,
                height: 1,
            }
            &&& regions.registrations_tab == Area {
                x: (tabs.x + 16) as u16,
                y: (tabs.y + 1) as u16,
                width: 14,
                height: 1,
            }
            &&& regions.search == search
        }),
{
    what_the_titles_are(view);
}

/// A cell lies in what two areas share exactly where it lies in both.
pub proof fn what_areas_share(a: Area, b: Area, column: u16, row: u16)
    ensures
        screen::overlap(a, b).holds(column, row) <==> a.holds(column, row) && b.holds(column, row),
{
}

/// A border takes the outermost cells on every side, and no others.
pub proof fn what_a_border_takes(area: Area, column: u16, row: u16)
    requires
        area.x + area.width <= u16::MAX,
        area.y + area.height <= u16::MAX,
    ensures
        screen::within_border(area).holds(column, row) <==> {
            &&& area.x < column < area.x + area.width - 1
            &&& area.y < row < area.y + area.height - 1
        },
{
}

/// The cursor of the search field stands behind what was entered, one row below the upper edge, and
/// never on the right border.
pub proof fn where_the_search_cursor_is(search: Area, filter: Seq<char>)
    requires
        search.width >= 4,
        search.x + search.width <= u16::MAX,
        search.y < u16::MAX,
        screen::cells(filter) <= u16::MAX,
    ensures
        ({
            let at = screen::search_cursor_of(search, filter);
            &&& at.1 == search.y + 1
            &&& 2 + screen::cells(filter) <= search.width - 2 ==> at.0 == search.x + 2
                + screen::cells(filter)
            &&& 2 + screen::cells(filter) > search.width - 2 ==> at.0 == search.x + search.width - 2
        }),
{
}

/// The cursor of a dialog stands behind the name that is entered; no other dialog has one.
pub proof fn where_the_dialog_cursor_is(dialog: DialogView, area: Area)
    requires
        area.width >= 5,
        area.x + area.width <= u16::MAX,
        area.y + 2 <= u16::MAX,
        screen::cells(dialog.shown()) <= u16::MAX,
    ensures
        screen::dialog_cursor(dialog, area) is Some <==> dialog is Rename,
        screen::dialog_cursor(dialog, area) matches Some(at) ==> {
            &&& at.1 == area.y + 2
            &&& 2 + screen::cells(dialog.shown()) <= area.width - 3 ==> at.0 == area.x + 2
                + screen::cells(dialog.shown())
            &&& 2 + screen::cells(dialog.shown()) > area.width - 3 ==> at.0 == area.x + area.width
                - 3
        },
{
}

/// Which cursor a screen has: that of the dialog, or else that of the search field while it is in
/// use, or else none.
pub proof fn which_cursor_is_shown(
    state: ControllerView,
    area: Area,
    parts: Seq<Area>,
    header: Seq<Area>,
    columns: Seq<Area>,
)
    ensures
        ({
            let shown = screen::screen_of(state, area, parts, header, columns);
            &&& (state.dialog matches Some(dialog) && dialog is Rename) ==> shown.cursor
                == screen::dialog_cursor(state.dialog->0, shown.dialog->0.area)
            &&& !(state.dialog matches Some(dialog) && dialog is Rename) ==> {
                if state.filter_active {
                    shown.cursor == Some(screen::search_cursor_of(header[1], state.filter))
                } else {
                    shown.cursor is None
                }
            }
            &&& shown.dialog is Some <==> state.dialog is Some
        }),
{
}

/// What stands where on a screen: the tabs and the search field in the header, the list below it,
/// and the hints at the bottom.
pub proof fn what_stands_where(
    state: ControllerView,
    area: Area,
    parts: Seq<Area>,
    header: Seq<Area>,
    columns: Seq<Area>,
)
    ensures
        ({
            let shown = screen::screen_of(state, area, parts, header, columns);
            &&& shown.tabs_area == header[0]
            &&& shown.search_area == header[1]
            &&& shown.body_area == parts[1]
            &&& shown.footer_area == parts[2]
            &&& shown.tab_titles == screen::titles(state.view)
            &&& shown.selected_tab == 0 <==> state.view == Tab::Discover
            &&& shown.focused == state.active().focus
            &&& shown.offset == state.active().offset
            &&& shown.hints == tui::FOOTER_HINTS@
            &&& shown.dialog matches Some(shown_dialog) ==> shown_dialog.text
                == state.dialog->0.shown() && shown_dialog.title == state.dialog->0.title()
        }),
{
}

/// What the list shows: its rows, or a message where there are none.
pub proof fn what_the_list_shows(state: ControllerView)
    ensures
        tui::visible(state.active().entries, state.filter).len() > 0 ==> screen::body_of(state)
            == BodyView::Rows(screen::rows_of(state)),
        tui::visible(state.active().entries, state.filter).len() == 0 ==> screen::body_of(state)
            == BodyView::Empty(
            if state.filter.len() > 0 && state.active().entries.len() > 0 {
                "No matches for "@ + text::quoted_text(state.filter)
            } else if state.view == Tab::Discover {
                "No executable candidates found"@
            } else {
                "No Registrations"@
            },
        ),
{
}

/// How a screen with room for all is divided: the header is three rows high, the tabs in it are
/// thirty-two cells wide and the search field has the rest, and the hints take three rows, or two on
/// a small screen.
pub proof fn how_a_screen_is_divided(area: Area, parts: Seq<Area>, header: Seq<Area>)
    requires
        area.x + area.width <= u16::MAX,
        area.y + area.height <= u16::MAX,
        area.width >= 33,
        area.height >= 7,
        screen::divides(
            parts,
            area,
            Direction::Vertical,
            screen::row_limits(screen::compact(area)),
        ),
        screen::divides(header, parts[0], Direction::Horizontal, screen::column_limits()),
    ensures
        ({
            let hints: int = if area.width < 50 || area.height < 10 {
                2
            } else {
                3
            };
            &&& header[0] == (Area { width: 32, height: 3, ..area })
            &&& header[1] == (Area {
                x: (area.x + 32) as u16,
                y: area.y,
                width: (area.width - 32) as u16,
                height: 3,
            })
            &&& parts[1].y == area.y + 3
            &&& parts[1].height == area.height - 3 - hints
            &&& parts[2].y == area.y + area.height - hints
            &&& parts[2].height == hints
        }),
{
    screen::rows_are_fixed(area, parts);
    screen::header_is_fixed(parts[0], header);
}

/// What dialogs say.
pub proof fn what_dialogs_say(
    original: Seq<char>,
    name: Seq<char>,
    value: Seq<char>,
    error: Seq<char>,
)
    ensures
        (DialogView::Rename { name, value }).shown() == "Command Name: "@ + value,
        (DialogView::Rename { name, value }).title() == " Rename"@,
        (DialogView::EditName { original, value }).shown() == "Edit Command Name ("@ + original
            + ")\n"@ + value,
        (DialogView::Error { text: error }).shown() == error,
{
}

/// A line takes as many rows of a column as it fills, the last one perhaps in part, and one even
/// where it is empty.
pub proof fn how_many_rows_a_line_takes(line: Seq<char>, column: int)
    requires
        column > 0,
    ensures
        ({
            let rows = screen::wrapped_rows(line, column);
            &&& rows >= 1
            &&& screen::cells(line) <= rows * column
            &&& rows > 1 ==> screen::cells(line) > (rows - 1) * column
        }),
{
    let width: int = if screen::cells(line) < 1 {
        1
    } else {
        screen::cells(line) as int
    };
    let rows = screen::wrapped_rows(line, column);
    vstd::arithmetic::div_mod::lemma_fundamental_div_mod(width + column - 1, column);
    vstd::arithmetic::div_mod::lemma_mod_bound(width + column - 1, column);
    let left = (width + column - 1) % column;
    assert(column * rows + left == width + column - 1);
    assert(rows * column == column * rows) by (nonlinear_arith);
    assert((rows - 1) * column == rows * column - column) by (nonlinear_arith);
    if rows < 1 {
        assert(column * rows <= 0) by (nonlinear_arith)
            requires
                rows < 1,
                column > 0,
        ;
    }
    assert(0 <= left < column);
    assert(rows >= 1);
    assert(width <= rows * column);
    assert(width > (rows - 1) * column);
    if rows > 1 {
        assert((rows - 1) * column >= 1) by (nonlinear_arith)
            requires
                rows > 1,
                column > 0,
        ;
    }
}

/// Lines take the rows that each of them takes.
pub proof fn how_many_rows_lines_take(lines: Seq<Seq<char>>, line: Seq<char>, column: int)
    ensures
        screen::total_rows(Seq::empty(), column) == 0,
        screen::total_rows(lines.push(line), column) == screen::total_rows(lines, column)
            + screen::wrapped_rows(line, column),
{
    assert(lines.push(line).drop_last() =~= lines);
}

/// A dialog is four rows higher than its text, unless the screen is not as high, and has as many
/// rows above it as below it, or one less.
pub proof fn how_high_a_dialog_is(column: Area, shown: Seq<char>, area: Area)
    requires
        area.y + area.height <= u16::MAX,
        0 <= screen::total_rows(
            text::lines_of(shown),
            if column.width < 5 {
                1
            } else {
                column.width - 4
            },
        ) <= 60000,
    ensures
        ({
            let rows = screen::total_rows(
                text::lines_of(shown),
                if column.width < 5 {
                    1
                } else {
                    column.width - 4
                },
            );
            let dialog = screen::dialog_area(column, shown, area);
            let above = dialog.y - area.y;
            let below = area.y + area.height - dialog.y - dialog.height;
            &&& dialog.x == column.x && dialog.width == column.width
            &&& rows + 4 <= area.height ==> dialog.height == rows + 4
            &&& rows + 4 > area.height ==> dialog.height == area.height
            &&& above <= below <= above + 1
        }),
{
}

/// Giving a terminal back takes every step once, and leaves raw mode last.
pub proof fn every_step_is_taken(step: CleanupStep)
    ensures
        terminal::all_steps().contains(step),
        terminal::all_steps().no_duplicates(),
        terminal::all_steps().last() == CleanupStep::DisableRawMode,
{
    let steps = terminal::all_steps();
    assert(steps[0] == CleanupStep::DisableMouseCapture);
    assert(steps[1] == CleanupStep::ShowCursor);
    assert(steps[2] == CleanupStep::LeaveAlternateScreen);
    assert(steps[3] == CleanupStep::DisableRawMode);
}

/// Where raw mode could not be had nothing is undone. Where a later step failed, the mouse, the
/// screen and raw mode are given back, raw mode last; the cursor was not hidden yet.
pub proof fn what_a_failed_start_undoes(failed: EntryStep, step: CleanupStep)
    ensures
        failed == EntryStep::EnableRawMode ==> terminal::undone_after(failed).len() == 0,
        failed != EntryStep::EnableRawMode ==> {
            let undone = terminal::undone_after(failed);
            &&& undone.contains(step) <==> step != CleanupStep::ShowCursor
            &&& undone.no_duplicates()
            &&& undone.last() == CleanupStep::DisableRawMode
        },
{
    if failed != EntryStep::EnableRawMode {
        let undone = terminal::undone_after(failed);
        assert(undone[0] == CleanupStep::DisableMouseCapture);
        assert(undone[1] == CleanupStep::LeaveAlternateScreen);
        assert(undone[2] == CleanupStep::DisableRawMode);
    }
}

} // verus!
