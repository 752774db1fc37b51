//! What is drawn where: the parts of the screen, their text and their looks.

use vstd::prelude::*;
use vstd::utf8;

use ratatui::layout;

use crate::path;
use crate::text;
use crate::theme;
use crate::theme::Style;
use crate::tui;
use crate::tui::{
    Area,
    Controller,
    ControllerView,
    Dialog,
    DialogView,
    ListEntryView,
    MouseRegions,
    SemanticItem,
    SemanticItemView,
    Tab,
};
use crate::views;

verus! {

/// Which way a part of the screen is divided.
#[derive(Clone, Copy, Debug, PartialEq, Eq, Structural)]
pub enum Direction {
    Horizontal,
    Vertical,
}

/// What a division asks of one part.
#[derive(Clone, Copy, Debug, PartialEq, Eq, Structural)]
pub enum Limit {
    Length(u16),
    Min(u16),
    Percentage(u16),
}

/// Where an area begins along a direction.
pub open spec fn start(area: Area, direction: Direction) -> int {
    match direction {
        Direction::Horizontal => area.x as int,
        Direction::Vertical => area.y as int,
    }
}

/// How far it extends.
pub open spec fn extent(area: Area, direction: Direction) -> int {
    match direction {
        Direction::Horizontal => area.width as int,
        Direction::Vertical => area.height as int,
    }
}

/// Where it ends, within the coordinates that there are.
pub open spec fn end(area: Area, direction: Direction) -> int {
    match direction {
        Direction::Horizontal => area.right_end(),
        Direction::Vertical => area.bottom_end(),
    }
}

/// Two areas have the same place across a direction.
pub open spec fn level(a: Area, b: Area, direction: Direction) -> bool {
    match direction {
        Direction::Horizontal => a.y == b.y && a.height == b.height,
        Direction::Vertical => a.x == b.x && a.width == b.width,
    }
}

/// The room that lengths and least lengths take; `None` where a share is asked for.
pub open spec fn room(limits: Seq<Limit>) -> Option<int>
    decreases limits.len(),
{
    if limits.len() == 0 {
        Some(0)
    } else {
        match (room(limits.drop_last()), limits.last()) {
            (Some(before), Limit::Length(n)) => Some(before + n),
            (Some(before), Limit::Min(n)) => Some(before + n),
            _ => None,
        }
    }
}

/// A part of some extent meets what was asked of it.
pub open spec fn meets(extent: int, limit: Limit) -> bool {
    match limit {
        Limit::Length(n) => extent == n,
        Limit::Min(n) => extent >= n,
        Limit::Percentage(_) => true,
    }
}

/// Some part may take more than was asked for.
pub open spec fn grows(limits: Seq<Limit>) -> bool {
    exists|i: int| 0 <= i < limits.len() && #[trigger] limits[i] is Min
}

/// The shares that are asked for, together; `None` where something else is asked for.
pub open spec fn shares(limits: Seq<Limit>) -> Option<int>
    decreases limits.len(),
{
    if limits.len() == 0 {
        Some(0)
    } else {
        match (shares(limits.drop_last()), limits.last()) {
            (Some(before), Limit::Percentage(n)) => Some(before + n),
            _ => None,
        }
    }
}

/// How far an area reaches along a direction.
pub open spec fn reach(area: Area, direction: Direction) -> int {
    end(area, direction) - start(area, direction)
}

/// The cells in some hundredths of a length, rounded to the nearest one, and a half up.
pub open spec fn share_of(length: int, hundredths: int) -> int {
    (length * hundredths + 50) / 100
}

/// Parts of an area: they follow one another without a gap from its beginning, and stay within it.
/// Where there is room for all lengths, they have them, and reach the area's end if one of them may
/// grow. Shares of the area end where that many hundredths of it do.
pub open spec fn divides(
    parts: Seq<Area>,
    area: Area,
    direction: Direction,
    limits: Seq<Limit>,
) -> bool {
    &&& parts.len() == limits.len()
    &&& forall|i: int| 0 <= i < parts.len() ==> level(#[trigger] parts[i], area, direction)
    &&& parts.len() > 0 ==> start(parts[0], direction) == start(area, direction)
    &&& forall|i: int, j: int|
        0 <= i && j == i + 1 && j < parts.len() ==> start(#[trigger] parts[j], direction) == start(
            #[trigger] parts[i],
            direction,
        ) + extent(parts[i], direction)
    &&& forall|i: int|
        0 <= i < parts.len() ==> start(#[trigger] parts[i], direction) + extent(
            parts[i],
            direction,
        ) <= end(area, direction)
    &&& room(limits) matches Some(n) ==> n <= reach(area, direction) ==> {
        &&& forall|i: int|
            0 <= i < parts.len() ==> meets(extent(#[trigger] parts[i], direction), limits[i])
        &&& grows(limits) ==> start(parts.last(), direction) + extent(parts.last(), direction)
            == end(area, direction)
    }
    &&& shares(limits) matches Some(n) ==> n <= 100 ==> forall|i: int|
        0 <= i < parts.len() ==> start(#[trigger] parts[i], direction) + extent(
            parts[i],
            direction,
        ) == start(area, direction) + share_of(
            reach(area, direction),
            shares(limits.take(i + 1))->0,
        )
}

/// `ratatui::layout::Layout::split` divides an area into one part for each constraint, here for up
/// to three of them. The parts span the area crosswise, follow one another without a gap from its
/// beginning, and stay within it. Where all lengths and least lengths fit, each part has what was
/// asked for, and a part with a least length grows until the area is used up. Shares that come to
/// at most the whole are all granted; a part ends at the cell nearest to where its shares end, and
/// a half is rounded up. Nothing is said of who gives way where the room is short: then the best
/// division need not be the only one, and the solver, which walks a seeded hash map, may find
/// another in the next run.
#[verifier::external_body]
fn split(direction: Direction, limits: &Vec<Limit>, area: Area) -> (r: Vec<Area>)
    requires
        limits@.len() <= 3,
    ensures
        divides(r@, area, direction, limits@),
{
    let direction = match direction {
        Direction::Horizontal => layout::Direction::Horizontal,
        Direction::Vertical => layout::Direction::Vertical,
    };
    let constraints = limits.iter().map(|limit| match limit {
        Limit::Length(n) => layout::Constraint::Length(*n),
        Limit::Min(n) => layout::Constraint::Min(*n),
        Limit::Percentage(n) => layout::Constraint::Percentage(*n),
    });
    let Area { x, y, width, height } = area;
    let whole = layout::Rect { x, y, width, height };
    let parts = layout::Layout::new(direction, constraints).split(whole);
    parts.iter().map(|r| Area { x: r.x, y: r.y, width: r.width, height: r.height }).collect()
}

/// How many cells a text takes, as `ratatui::text::Line::width` counts them.
pub uninterp spec fn display_width(text: Seq<char>) -> usize;

/// Every character is a printable one of ASCII.
pub open spec fn printable(text: Seq<char>) -> bool {
    forall|i: int| 0 <= i < text.len() ==> ' ' <= #[trigger] text[i] && text[i] <= '~'
}

/// `ratatui::text::Line::width` counts the cells that a text takes. A printable ASCII character
/// takes one.
#[verifier::external_body]
fn width_of(text: &str) -> (r: usize)
    ensures
        r == display_width(text@),
        printable(text@) ==> r == text@.len(),
{
    ratatui::text::Line::from(text).width()
}

/// The cells that a text takes: one for each character of printable ASCII.
pub open spec fn cells(text: Seq<char>) -> usize {
    if printable(text) && text.len() <= usize::MAX {
        text.len() as usize
    } else {
        display_width(text)
    }
}

fn cells_of(text: &str) -> (r: usize)
    ensures
        r == cells(text@),
{
    width_of(text)
}

/// The part of an area that lies within another.
pub open spec fn overlap(a: Area, b: Area) -> Area {
    let x = if a.x < b.x { b.x } else { a.x };
    let y = if a.y < b.y { b.y } else { a.y };
    let right = if a.right_end() < b.right_end() { a.right_end() } else { b.right_end() };
    let bottom = if a.bottom_end() < b.bottom_end() { a.bottom_end() } else { b.bottom_end() };
    Area {
        x,
        y,
        width: (if right < x { 0 } else { right - x }) as u16,
        height: (if bottom < y { 0 } else { bottom - y }) as u16,
    }
}

fn intersection(a: Area, b: Area) -> (r: Area)
    ensures
        r == overlap(a, b),
{
    let x: u16 = if a.x < b.x { b.x } else { a.x };
    let y: u16 = if a.y < b.y { b.y } else { a.y };
    let right: u16 = if a.right() < b.right() { a.right() } else { b.right() };
    let bottom: u16 = if a.bottom() < b.bottom() { a.bottom() } else { b.bottom() };
    Area { x, y, width: right.saturating_sub(x), height: bottom.saturating_sub(y) }
}

/// What a border on all sides leaves of an area.
pub open spec fn within_border(area: Area) -> Area {
    Area {
        x: (if area.x + 1 < area.right_end() { area.x + 1 } else { area.right_end() }) as u16,
        y: (if area.y + 1 < area.bottom_end() { area.y + 1 } else { area.bottom_end() }) as u16,
        width: (if area.width < 2 { 0 } else { area.width - 2 }) as u16,
        height: (if area.height < 2 { 0 } else { area.height - 2 }) as u16,
    }
}

fn bordered(area: Area) -> (r: Area)
    ensures
        r == within_border(area),
{
    let x: u16 = area.x.saturating_add(1);
    let y: u16 = area.y.saturating_add(1);
    Area {
        x: if x < area.right() { x } else { area.right() },
        y: if y < area.bottom() { y } else { area.bottom() },
        width: area.width.saturating_sub(2),
        height: area.height.saturating_sub(2),
    }
}

/// A piece of text with its looks.
#[derive(Debug, PartialEq, Eq)]
pub struct Span {
    pub text: String,
    pub style: Style,
}

#[verifier::ext_equal]
pub struct SpanView {
    pub text: Seq<char>,
    pub style: Style,
}

impl View for Span {
    type V = SpanView;

    open spec fn view(&self) -> SpanView {
        SpanView { text: self.text@, style: self.style }
    }
}

/// A row of the list.
#[derive(Debug, PartialEq, Eq)]
pub struct Row {
    pub spans: Vec<Span>,
    pub style: Style,
}

#[verifier::ext_equal]
pub struct RowView {
    pub spans: Seq<SpanView>,
    pub style: Style,
}

impl View for Row {
    type V = RowView;

    open spec fn view(&self) -> RowView {
        RowView { spans: views::views(self.spans@), style: self.style }
    }
}

/// What the middle of the screen shows.
#[derive(Debug, PartialEq, Eq)]
pub enum Body {
    Empty(String),
    Rows(Vec<Row>),
}

#[verifier::ext_equal]
pub enum BodyView {
    Empty(Seq<char>),
    Rows(Seq<RowView>),
}

impl View for Body {
    type V = BodyView;

    open spec fn view(&self) -> BodyView {
        match *self {
            Body::Empty(message) => BodyView::Empty(message@),
            Body::Rows(rows) => BodyView::Rows(views::views(rows@)),
        }
    }
}

/// A dialog on the screen.
#[derive(Debug, PartialEq, Eq)]
pub struct DialogBox {
    pub area: Area,
    pub title: String,
    pub text: String,
}

#[verifier::ext_equal]
pub struct DialogBoxView {
    pub area: Area,
    pub title: Seq<char>,
    pub text: Seq<char>,
}

impl View for DialogBox {
    type V = DialogBoxView;

    open spec fn view(&self) -> DialogBoxView {
        DialogBoxView { area: self.area, title: self.title@, text: self.text@ }
    }
}

/// All that is drawn.
#[derive(Debug, PartialEq, Eq)]
pub struct Screen {
    pub tabs_area: Area,
    pub tab_titles: (String, String),
    pub selected_tab: usize,
    pub search_area: Area,
    pub search_text: String,
    pub search_style: Style,
    pub search_border: Style,
    pub body_area: Area,
    pub body: Body,
    pub focused: usize,
    pub offset: usize,
    pub footer_area: Area,
    pub hints: String,
    pub dialog: Option<DialogBox>,
    pub cursor: Option<(u16, u16)>,
    pub regions: MouseRegions,
}

#[verifier::ext_equal]
pub struct ScreenView {
    pub tabs_area: Area,
    pub tab_titles: (Seq<char>, Seq<char>),
    pub selected_tab: usize,
    pub search_area: Area,
    pub search_text: Seq<char>,
    pub search_style: Style,
    pub search_border: Style,
    pub body_area: Area,
    pub body: BodyView,
    /// The row in focus.
    pub focused: usize,
    /// The first row on the screen before this one.
    pub offset: usize,
    pub footer_area: Area,
    pub hints: Seq<char>,
    pub dialog: Option<DialogBoxView>,
    pub cursor: Option<(u16, u16)>,
    pub regions: MouseRegions,
}

impl View for Screen {
    type V = ScreenView;

    open spec fn view(&self) -> ScreenView {
        ScreenView {
            tabs_area: self.tabs_area,
            tab_titles: (self.tab_titles.0@, self.tab_titles.1@),
            selected_tab: self.selected_tab,
            search_area: self.search_area,
            search_text: self.search_text@,
            search_style: self.search_style,
            search_border: self.search_border,
            body_area: self.body_area,
            body: self.body@,
            focused: self.focused,
            offset: self.offset,
            footer_area: self.footer_area,
            hints: self.hints@,
            dialog: views::view_of(self.dialog),
            cursor: self.cursor,
            regions: self.regions,
        }
    }
}

/// The titles of the two lists: the one that is shown stands in brackets.
pub open spec fn titles(view: Tab) -> (Seq<char>, Seq<char>) {
    match view {
        Tab::Discover => ("[ Discover ]"@, "  Registry  "@),
        Tab::Registrations => ("  Discover  "@, "[ Registry ]"@),
    }
}

fn tab_titles(view: Tab) -> (r: (&'static str, &'static str))
    ensures
        (r.0@, r.1@) == titles(view),
        printable(r.0@) && r.0@.len() == 12,
        printable(r.1@) && r.1@.len() == 12,
{
    proof {
        reveal_strlit("[ Discover ]");
        reveal_strlit("  Registry  ");
        reveal_strlit("  Discover  ");
        reveal_strlit("[ Registry ]");
    }
    match view {
        Tab::Discover => ("[ Discover ]", "  Registry  "),
        Tab::Registrations => ("  Discover  ", "[ Registry ]"),
    }
}

/// The sum of two coordinates, at most the largest one there is.
pub open spec fn shifted(a: u16, b: int) -> u16 {
    tui::capped(a as int, b) as u16
}

/// A coordinate less a distance, at least 0.
pub open spec fn held_back(a: int, b: int) -> int {
    if a < b {
        0
    } else {
        a - b
    }
}

pub open spec fn at_most(a: int, b: int) -> int {
    if a < b {
        a
    } else {
        b
    }
}

/// Where the title of a tab lies: one cell high, with a cell of padding on either side.
pub open spec fn tab_region(inside: Area, x: u16, title: Seq<char>) -> Area {
    overlap(
        Area {
            x,
            y: inside.y,
            width: (cells(title) + 2) as u16,
            height: at_most(inside.height as int, 1) as u16,
        },
        inside,
    )
}

/// Where the mouse meets a screen.
pub open spec fn regions_of(view: Tab, tabs: Area, search: Area, body: Area) -> MouseRegions {
    let inside = within_border(tabs);
    MouseRegions {
        discover_tab: tab_region(inside, inside.x, titles(view).0),
        registrations_tab: tab_region(
            inside,
            shifted(inside.x, cells(titles(view).0) + 3),
            titles(view).1,
        ),
        search,
        list: within_border(body),
    }
}

/// Where the mouse meets a screen whose parts lie where they are said to.
pub fn mouse_regions(view: Tab, tabs: Area, search: Area, body: Area) -> (r: MouseRegions)
    ensures
        r == regions_of(view, tabs, search, body),
{
    let inside = bordered(tabs);
    let (first, second) = tab_titles(view);
    let first_width: u16 = cells_of(first) as u16;
    let second_width: u16 = cells_of(second) as u16;
    let height: u16 = if inside.height < 1 { inside.height } else { 1 };
    let second_x: u16 = inside.x.saturating_add(first_width + 3);
    MouseRegions {
        discover_tab: intersection(
            Area { x: inside.x, y: inside.y, width: first_width + 2, height },
            inside,
        ),
        registrations_tab: intersection(
            Area { x: second_x, y: inside.y, width: second_width + 2, height },
            inside,
        ),
        search,
        list: bordered(body),
    }
}

/// The cursor in the search field: behind what was entered, but not on the border.
pub open spec fn search_cursor_of(search: Area, filter: Seq<char>) -> (u16, u16) {
    (
        at_most(
            shifted(shifted(search.x, 2), cells(filter) as u16 as int) as int,
            held_back(search.right_end(), 2),
        ) as u16,
        shifted(search.y, 1),
    )
}

fn smaller(a: u16, b: u16) -> (r: u16)
    ensures
        r == at_most(a as int, b as int),
{
    if a < b {
        a
    } else {
        b
    }
}

/// Where the cursor of the search field is.
pub fn search_cursor(search: Area, filter: &str) -> (r: (u16, u16))
    ensures
        r == search_cursor_of(search, filter@),
{
    let width: u16 = cells_of(filter) as u16;
    (
        smaller(
            search.x.saturating_add(2).saturating_add(width),
            search.right().saturating_sub(2),
        ),
        search.y.saturating_add(1),
    )
}

/// The cursor in a dialog in which a Registration is renamed: behind the name, within the dialog.
pub open spec fn dialog_cursor(dialog: DialogView, area: Area) -> Option<(u16, u16)> {
    match dialog {
        DialogView::Rename { .. } => Some(
            (
                at_most(
                    shifted(shifted(area.x, 2), cells(dialog.shown()) as u16 as int) as int,
                    held_back(area.right_end(), 3),
                ) as u16,
                shifted(area.y, 2),
            ),
        ),
        _ => None,
    }
}

/// Where the cursor of a dialog is, if it has one.
pub fn rename_cursor_position(dialog: &Dialog, area: Area) -> (r: Option<(u16, u16)>)
    ensures
        r == dialog_cursor(dialog@, area),
{
    match dialog {
        Dialog::Rename { .. } => {
            let width: u16 = cells_of(&tui::dialog_text(dialog)) as u16;
            Some(
                (
                    smaller(
                        area.x.saturating_add(2).saturating_add(width),
                        area.right().saturating_sub(3),
                    ),
                    area.y.saturating_add(2),
                ),
            )
        },
        _ => None,
    }
}

/// How many rows a line of text takes in a column.
pub open spec fn wrapped_rows(line: Seq<char>, column: int) -> int {
    let width: int = if cells(line) < 1 {
        1
    } else {
        cells(line) as int
    };
    (width + column - 1) / column
}

/// How many rows lines of text take in a column.
pub open spec fn total_rows(lines: Seq<Seq<char>>, column: int) -> int
    decreases lines.len(),
{
    if lines.len() == 0 {
        0
    } else {
        total_rows(lines.drop_last(), column) + wrapped_rows(lines.last(), column)
    }
}

/// The room for text in a dialog of some width: a border and a cell of padding on either side.
pub open spec fn content_width(width: u16) -> int {
    if width < 5 {
        1
    } else {
        width - 4
    }
}

/// The area of a dialog: as high as its text takes, in the middle of the screen.
pub open spec fn dialog_area(column: Area, text: Seq<char>, area: Area) -> Area {
    let rows = total_rows(text::lines_of(text), content_width(column.width)) as u16;
    let height = at_most(tui::capped(rows as int, 4), area.height as int);
    Area {
        x: column.x,
        y: shifted(area.y, (area.height - height) / 2),
        width: column.width,
        height: height as u16,
    }
}

/// The area of a dialog whose text takes one row.
pub open spec fn one_line_dialog(column: Area, area: Area) -> Area {
    let height = at_most(5, area.height as int);
    Area {
        x: column.x,
        y: shifted(area.y, (area.height - height) / 2),
        width: column.width,
        height: height as u16,
    }
}

/// A text of printable ASCII takes one row in a column.
pub open spec fn takes_one_row(text: Seq<char>, column: Area) -> bool {
    printable(text) && 0 < text.len() <= content_width(column.width)
}

/// A dialog of one line that fits is as high as the line with its border and padding, or as the
/// screen, and stands in the middle.
pub proof fn a_dialog_of_one_line(column: Area, text: Seq<char>, area: Area)
    requires
        takes_one_row(text, column),
    ensures
        dialog_area(column, text, area) == one_line_dialog(column, area),
{
    assert(!text.contains('\n'));
    text::one_line_without_line_feeds(text);
    let lines = text::lines_of(text);
    let room = content_width(column.width);
    assert(lines.drop_last() =~= Seq::empty());
    assert(total_rows(lines.drop_last(), room) == 0);
    let width = text.len() as int;
    assert((width + room - 1) / room == 1) by (nonlinear_arith)
        requires
            0 < width <= room,
    ;
    assert(wrapped_rows(text, room) == 1);
    assert(total_rows(lines, room) == 1);
}

/// The area of a dialog in a column of the screen.
pub fn dialog_rect(column: Area, text: &str, area: Area) -> (r: Area)
    ensures
        r == dialog_area(column, text@, area),
        takes_one_row(text@, column) ==> r == one_line_dialog(column, area),
{
    let content: u128 = if column.width < 5 {
        1
    } else {
        (column.width - 4) as u128
    };
    let lines = text::lines(text);
    let ghost all = views::views(lines@);
    let mut rows: u128 = 0;
    let mut i: usize = 0;
    assert(all.take(0).len() == 0);
    while i < lines.len()
        invariant
            i <= lines@.len(),
            all == views::views(lines@),
            content == content_width(column.width),
            rows == total_rows(all.take(i as int), content as int),
            rows <= i * 0xffff_ffff_ffff_ffff,
        decreases lines.len() - i,
    {
        assert(all.take(i + 1).drop_last() =~= all.take(i as int));
        assert(all.take(i + 1).last() == lines@[i as int]@);
        let width: usize = cells_of(&lines[i]);
        let width: u128 = if width < 1 {
            1
        } else {
            width as u128
        };
        let more: u128 = (width + (content - 1)) / content;
        assert(more == wrapped_rows(lines@[i as int]@, content as int));
        assert(more <= width) by (nonlinear_arith)
            requires
                content >= 1,
                width >= 1,
                more == (width + (content - 1)) / (content as int),
        {
            assert(width + (content - 1) <= width * content) by (nonlinear_arith)
                requires
                    content >= 1,
                    width >= 1,
            ;
        }
        rows = rows + more;
        i = i + 1;
    }
    assert(all.take(i as int) =~= all);
    proof {
        if takes_one_row(text@, column) {
            a_dialog_of_one_line(column, text@, area);
        }
    }
    let rows: u16 = rows as u16;
    let height: u16 = smaller(rows.saturating_add(4), area.height);
    Area {
        x: column.x,
        y: area.y.saturating_add((area.height - height) / 2),
        width: column.width,
        height,
    }
}

/// What the columns of a dialog are asked for: a share of the width in the middle.
pub open spec fn dialog_limits(percent_x: u16) -> Seq<Limit> {
    let rest = Limit::Percentage(((100 - percent_x) / 2) as u16);
    seq![rest, Limit::Percentage(percent_x), rest]
}

/// The columns of a dialog: the middle one takes its share of the width, the others what is left.
pub open spec fn column_areas(area: Area, percent_x: u16) -> Seq<Area> {
    let rest = (100 - percent_x) / 2;
    let length = reach(area, Direction::Horizontal);
    let first = share_of(length, rest);
    let second = share_of(length, rest + percent_x);
    let third = share_of(length, rest + percent_x + rest);
    seq![
        Area { width: first as u16, ..area },
        Area { x: (area.x + first) as u16, width: (second - first) as u16, ..area },
        Area { x: (area.x + second) as u16, width: (third - second) as u16, ..area },
    ]
}

/// The columns of the interface's own dialogs: seventy hundredths in the middle.
pub open spec fn dialog_areas(area: Area) -> Seq<Area> {
    let length = reach(area, Direction::Horizontal);
    let first = (length * 15 + 50) / 100;
    let second = (length * 85 + 50) / 100;
    seq![
        Area { width: first as u16, ..area },
        Area { x: (area.x + first) as u16, width: (second - first) as u16, ..area },
        Area { x: (area.x + second) as u16, width: (length - second) as u16, ..area },
    ]
}

/// The interface's own dialogs take their share.
pub proof fn dialogs_take_their_share(area: Area)
    ensures
        column_areas(area, DIALOG_SHARE) == dialog_areas(area),
{
    let length = reach(area, Direction::Horizontal);
    assert(share_of(length, 15) == (length * 15 + 50) / 100);
    assert(share_of(length, 85) == (length * 85 + 50) / 100);
    assert(share_of(length, 100) == length);
    assert(column_areas(area, DIALOG_SHARE) =~= dialog_areas(area));
}

/// Shares grow with the hundredths, up to the whole.
proof fn shares_grow(length: int, a: int, b: int)
    requires
        0 <= length,
        0 <= a <= b <= 100,
    ensures
        0 <= share_of(length, a) <= share_of(length, b) <= length,
{
    assert(0 <= length * a <= length * b <= length * 100) by (nonlinear_arith)
        requires
            0 <= length,
            0 <= a <= b <= 100,
    ;
}

proof fn columns_are_fixed(parts: Seq<Area>, area: Area, percent_x: u16)
    requires
        percent_x <= 100,
        divides(parts, area, Direction::Horizontal, dialog_limits(percent_x)),
    ensures
        parts == column_areas(area, percent_x),
{
    let limits = dialog_limits(percent_x);
    let rest = (100 - percent_x) / 2;
    let length = reach(area, Direction::Horizontal);
    assert(limits.take(3) =~= limits);
    assert(limits.take(3).drop_last() =~= limits.take(2));
    assert(limits.take(2).drop_last() =~= limits.take(1));
    assert(limits.take(1).drop_last() =~= Seq::empty());
    assert(shares(limits.take(1).drop_last()) == Some(0int));
    assert(shares(limits.take(1)) == Some(rest));
    assert(shares(limits.take(2)) == Some(rest + percent_x));
    assert(shares(limits.take(3)) == Some(rest + percent_x + rest));
    shares_grow(length, rest, rest + percent_x);
    shares_grow(length, rest + percent_x, rest + percent_x + rest);
    let first = parts[0];
    let second = parts[1];
    let third = parts[2];
    assert(level(first, area, Direction::Horizontal));
    assert(level(second, area, Direction::Horizontal));
    assert(level(third, area, Direction::Horizontal));
    assert(parts =~= column_areas(area, percent_x));
}

fn dialog_columns(percent_x: u16, area: Area) -> (r: Vec<Area>)
    requires
        percent_x <= 100,
    ensures
        r@ == column_areas(area, percent_x),
{
    let rest = Limit::Percentage((100 - percent_x) / 2);
    let mut limits: Vec<Limit> = Vec::new();
    limits.push(rest);
    limits.push(Limit::Percentage(percent_x));
    limits.push(rest);
    assert(limits@ =~= dialog_limits(percent_x));
    let r = split(Direction::Horizontal, &limits, area);
    proof {
        columns_are_fixed(r@, area, percent_x);
    }
    r
}

/// The area of a dialog that takes a share of the screen's width: the middle one of three columns
/// that the screen is divided into.
pub fn centered_dialog_rect(percent_x: u16, text: &str, area: Area) -> (r: Area)
    requires
        percent_x <= 100,
    ensures
        r == dialog_area(column_areas(area, percent_x)[1], text@, area),
        percent_x == DIALOG_SHARE ==> r == dialog_area(dialog_areas(area)[1], text@, area),
        percent_x == DIALOG_SHARE && takes_one_row(text@, dialog_areas(area)[1]) ==> r
            == one_line_dialog(dialog_areas(area)[1], area),
{
    proof {
        dialogs_take_their_share(area);
    }
    let columns = dialog_columns(percent_x, area);
    dialog_rect(columns[1], text, area)
}

/// The name of a link is not that of its Target.
pub open spec fn link_differs(item: SemanticItemView) -> bool {
    match path::file_name_of(item.target) {
        Some(name) => name != utf8::encode_utf8(item.name),
        None => false,
    }
}

/// Whether the name of a link is not that of its Target.
pub fn link_name_differs_from_target(item: &SemanticItem) -> (r: bool)
    ensures
        r == link_differs(item@),
{
    match item.target.file_name() {
        Some(name) => !path::same_bytes(&name, &text::bytes_of(&item.name)),
        None => false,
    }
}

pub open spec fn span(text: Seq<char>, style: Style) -> SpanView {
    SpanView { text, style }
}

/// What a row of the list says: a checkbox, the path, and what else there is to know.
pub open spec fn row_spans(state: ControllerView, item: SemanticItemView) -> Seq<SpanView> {
    let marker = if item.checked {
        span("[x]"@, theme::ink(theme::mocha::GREEN))
    } else {
        span("[ ]"@, theme::ink(theme::mocha::OVERLAY_0))
    };
    let separator = span(" · "@, theme::unstyled());
    let head = seq![marker, span(" "@ + state.display(item.target), theme::unstyled())];
    let alias = if link_differs(item) {
        seq![separator, span(item.name, theme::ink(theme::mocha::GREEN))]
    } else {
        Seq::empty()
    };
    let status = if item.status.len() > 0 {
        seq![separator, span(item.status, theme::ink(theme::mocha::PEACH))]
    } else {
        Seq::empty()
    };
    let error = match item.error {
        Some(error) => seq![span(" · "@ + error, theme::ink(theme::mocha::RED))],
        None => Seq::empty(),
    };
    head + alias + status + error
}

/// How a row looks: the one in focus stands out, and so does a defect.
pub open spec fn row_style(entry: ListEntryView, focused: bool) -> Style {
    if focused {
        Style {
            bold: true,
            ..theme::plain(theme::mocha::TEXT, theme::mocha::SURFACE_1)
        }
    } else if entry.registration matches Some(registration) && registration.defect is Some {
        theme::ink(theme::mocha::YELLOW)
    } else {
        theme::plain(theme::mocha::TEXT, theme::mocha::BASE)
    }
}

/// The rows of the list.
pub open spec fn rows_of(state: ControllerView) -> Seq<RowView> {
    let shown = tui::visible(state.active().entries, state.filter);
    Seq::new(
        shown.len(),
        |i: int|
            RowView {
                spans: row_spans(state, state.item(shown[i])),
                style: row_style(shown[i], i == state.active().focus),
            },
    )
}

pub open spec fn body_of(state: ControllerView) -> BodyView {
    match state.empty_text() {
        Some(message) => BodyView::Empty(message),
        None => BodyView::Rows(rows_of(state)),
    }
}

/// What the search field shows: a prompt, until something is entered.
pub open spec fn search_line(state: ControllerView) -> (Seq<char>, Style) {
    if state.filter.len() == 0 && !state.filter_active {
        (" Press / to search"@, theme::plain(theme::mocha::OVERLAY_0, theme::mocha::MANTLE))
    } else {
        (" "@ + state.filter, theme::plain(theme::mocha::TEXT, theme::mocha::MANTLE))
    }
}

/// The parts of the screen from top to bottom: the header, the list and the hints.
pub open spec fn row_limits(compact: bool) -> Seq<Limit> {
    seq![
        Limit::Length(3),
        Limit::Min(1),
        Limit::Length(
            if compact {
                2
            } else {
                3
            },
        ),
    ]
}

/// The parts of the header: the tabs and the search field.
pub open spec fn column_limits() -> Seq<Limit> {
    seq![Limit::Length(32), Limit::Min(1)]
}

/// A screen too small for all hints.
pub open spec fn compact(area: Area) -> bool {
    area.width < 50 || area.height < 10
}

/// The screen that a state makes, where its parts were found to lie: from top to bottom, across the
/// header, and across the screen for a dialog.
pub open spec fn screen_of(
    state: ControllerView,
    area: Area,
    parts: Seq<Area>,
    header: Seq<Area>,
    columns: Seq<Area>,
) -> ScreenView {
    let dialog = match state.dialog {
        Some(dialog) => Some(
            DialogBoxView {
                area: dialog_area(columns[1], dialog.shown(), area),
                title: dialog.title(),
                text: dialog.shown(),
            },
        ),
        None => None,
    };
    ScreenView {
        tabs_area: header[0],
        tab_titles: titles(state.view),
        selected_tab: match state.view {
            Tab::Discover => 0,
            Tab::Registrations => 1,
        },
        search_area: header[1],
        search_text: search_line(state).0,
        search_style: search_line(state).1,
        search_border: if state.filter_active {
            theme::plain(theme::mocha::MAUVE, theme::mocha::MANTLE)
        } else {
            theme::ink(theme::mocha::SURFACE_2)
        },
        body_area: parts[1],
        body: body_of(state),
        focused: state.active().focus,
        offset: state.active().offset,
        footer_area: parts[2],
        hints: tui::FOOTER_HINTS@,
        dialog,
        cursor: match state.dialog {
            Some(shown) => match dialog_cursor(shown, dialog->0.area) {
                Some(at) => Some(at),
                None => if state.filter_active {
                    Some(search_cursor_of(header[1], state.filter))
                } else {
                    None
                },
            },
            None => if state.filter_active {
                Some(search_cursor_of(header[1], state.filter))
            } else {
                None
            },
        },
        regions: regions_of(state.view, header[0], header[1], parts[1]),
    }
}

/// The rows of the hints.
pub open spec fn footer_rows(area: Area) -> int {
    if compact(area) {
        2
    } else {
        3
    }
}

/// There is room for the header, the hints and a row of the list, and for the tabs beside the
/// search field.
pub open spec fn roomy(area: Area) -> bool {
    &&& reach(area, Direction::Vertical) >= 4 + footer_rows(area)
    &&& reach(area, Direction::Horizontal) >= 33
}

/// The parts of a screen that has room for them: three rows for the header, the hints at the
/// bottom, and the list in between.
pub open spec fn row_areas(area: Area) -> Seq<Area> {
    let rows = reach(area, Direction::Vertical);
    let footer = footer_rows(area);
    seq![
        Area { height: 3, ..area },
        Area { y: (area.y + 3) as u16, height: (rows - 3 - footer) as u16, ..area },
        Area { y: (area.y + rows - footer) as u16, height: footer as u16, ..area },
    ]
}

/// The parts of a header that has room for them: the tabs, and the search field beside them.
pub open spec fn header_areas(top: Area) -> Seq<Area> {
    seq![
        Area { width: 32, ..top },
        Area {
            x: (top.x + 32) as u16,
            width: (reach(top, Direction::Horizontal) - 32) as u16,
            ..top
        },
    ]
}

/// A screen with room for its parts is divided in one way only.
pub proof fn rows_are_fixed(area: Area, parts: Seq<Area>)
    requires
        reach(area, Direction::Vertical) >= 4 + footer_rows(area),
        divides(parts, area, Direction::Vertical, row_limits(compact(area))),
    ensures
        parts == row_areas(area),
{
    let limits = row_limits(compact(area));
    assert(limits.drop_last().drop_last().drop_last() =~= Seq::empty());
    assert(room(limits.drop_last().drop_last().drop_last()) == Some(0int));
    assert(room(limits.drop_last().drop_last()) == Some(3int));
    assert(limits.drop_last().last() == Limit::Min(1));
    assert(room(limits.drop_last()) == Some(4int));
    assert(room(limits) == Some(4 + footer_rows(area)));
    assert(limits[1] is Min);
    assert(meets(extent(parts[0], Direction::Vertical), limits[0]));
    assert(meets(extent(parts[2], Direction::Vertical), limits[2]));
    assert(level(parts[0], area, Direction::Vertical));
    assert(level(parts[1], area, Direction::Vertical));
    assert(level(parts[2], area, Direction::Vertical));
    assert(start(parts[1], Direction::Vertical) == start(parts[0], Direction::Vertical) + 3);
    assert(start(parts[2], Direction::Vertical) == start(parts[1], Direction::Vertical) + extent(
        parts[1],
        Direction::Vertical,
    ));
    assert(parts =~= row_areas(area));
}

/// A header with room for its parts is divided in one way only.
pub proof fn header_is_fixed(top: Area, parts: Seq<Area>)
    requires
        reach(top, Direction::Horizontal) >= 33,
        divides(parts, top, Direction::Horizontal, column_limits()),
    ensures
        parts == header_areas(top),
{
    let limits = column_limits();
    assert(limits.drop_last().drop_last() =~= Seq::empty());
    assert(room(limits.drop_last().drop_last()) == Some(0int));
    assert(room(limits.drop_last()) == Some(32int));
    assert(room(limits) == Some(33int));
    assert(limits[1] is Min);
    assert(meets(extent(parts[0], Direction::Horizontal), limits[0]));
    assert(level(parts[0], top, Direction::Horizontal));
    assert(level(parts[1], top, Direction::Horizontal));
    assert(start(parts[1], Direction::Horizontal) == start(parts[0], Direction::Horizontal) + 32);
    assert(parts =~= header_areas(top));
}

/// The share of the screen's width that a dialog takes.
pub const DIALOG_SHARE: u16 = 70;

fn push_span(spans: &mut Vec<Span>, text: String, style: Style)
    ensures
        views::views(final(spans)@) == views::views(old(spans)@).push(span(text@, style)),
{
    let ghost before = spans@;
    spans.push(Span { text, style });
    assert(views::views(spans@) =~= views::views(before).push(span(text@, style)));
}

impl Controller {
    fn row(&self, item: &SemanticItem) -> (r: Vec<Span>)
        ensures
            views::views(r@) == row_spans(self.model(), item@),
    {
        let mut spans: Vec<Span> = Vec::new();
        assert(views::views(spans@) =~= Seq::empty());
        if item.checked {
            push_span(&mut spans, "[x]".to_owned(), theme::checked());
        } else {
            push_span(&mut spans, "[ ]".to_owned(), theme::unchecked());
        }
        push_span(&mut spans, text::joined(" ", &self.display_path(&item.target)), theme::raw());
        if link_name_differs_from_target(item) {
            push_span(&mut spans, " · ".to_owned(), theme::raw());
            push_span(&mut spans, item.name.clone(), theme::alias());
        }
        if !item.status.as_str().is_empty() {
            push_span(&mut spans, " · ".to_owned(), theme::raw());
            push_span(&mut spans, item.status.clone(), theme::status());
        }
        if let Some(error) = &item.error {
            push_span(&mut spans, text::joined(" · ", error), theme::error());
        }
        assert(views::views(spans@) =~= row_spans(self.model(), item@));
        spans
    }

    fn rows(&self) -> (r: Vec<Row>)
        ensures
            views::views(r@) == rows_of(self.model()),
    {
        let shown = self.shown();
        let focus = self.active_list().focus;
        let ghost state = self.model();
        let ghost all = rows_of(state);
        let mut r: Vec<Row> = Vec::new();
        let mut i: usize = 0;
        assert(views::views(r@) =~= all.take(0));
        while i < shown.len()
            invariant
                i <= shown@.len(),
                state == self.model(),
                all == rows_of(state),
                focus == state.active().focus,
                views::views(shown@) == tui::visible(state.active().entries, state.filter),
                views::views(r@) == all.take(i as int),
            decreases shown.len() - i,
        {
            let ghost before = r@;
            let style = if i == focus {
                theme::selected_row()
            } else {
                match &shown[i].registration {
                    Some(registration) => if registration.defect.is_some() {
                        theme::warning()
                    } else {
                        theme::panel()
                    },
                    None => theme::panel(),
                }
            };
            let row = Row { spans: self.row(&self.item(&shown[i])), style };
            assert(views::views(shown@)[i as int] == shown@[i as int]@);
            assert(row@ == all[i as int]);
            r.push(row);
            assert(views::views(r@) =~= views::views(before).push(row@));
            assert(all.take(i + 1) =~= all.take(i as int).push(row@));
            i = i + 1;
        }
        assert(all.take(i as int) =~= all);
        r
    }

    /// The screen of this state, where its parts were found to lie.
    pub fn lay_out(
        &self,
        area: Area,
        parts: &Vec<Area>,
        header: &Vec<Area>,
        columns: &Vec<Area>,
    ) -> (r: Screen)
        requires
            parts@.len() == 3,
            header@.len() == 2,
            columns@.len() == 3,
        ensures
            r@ == screen_of(self.model(), area, parts@, header@, columns@),
    {
        let state = self.semantic_state(area.width, area.height);
        let view = self.view();
        let (first, second) = tab_titles(view);
        let prompted = state.filter.as_str().is_empty() && !state.filter_active;
        let body = match state.empty_message {
            Some(message) => Body::Empty(message),
            None => Body::Rows(self.rows()),
        };
        let search_cursor = if state.filter_active {
            Some(search_cursor(header[1], &state.filter))
        } else {
            None
        };
        let (dialog, cursor) = match self.dialog() {
            Some(dialog) => {
                let shown = tui::dialog_text(dialog);
                let at = dialog_rect(columns[1], &shown, area);
                let cursor = match rename_cursor_position(dialog, at) {
                    Some(cursor) => Some(cursor),
                    None => search_cursor,
                };
                (
                    Some(
                        DialogBox {
                            area: at,
                            title: tui::dialog_title(dialog).to_owned(),
                            text: shown,
                        },
                    ),
                    cursor,
                )
            },
            None => (None, search_cursor),
        };
        Screen {
            tabs_area: header[0],
            tab_titles: (first.to_owned(), second.to_owned()),
            selected_tab: match view {
                Tab::Discover => 0,
                Tab::Registrations => 1,
            },
            search_area: header[1],
            search_text: if prompted {
                " Press / to search".to_owned()
            } else {
                text::joined(" ", &state.filter)
            },
            search_style: if prompted {
                theme::search_prompt()
            } else {
                theme::search_text()
            },
            search_border: if state.filter_active {
                theme::dialog_border()
            } else {
                theme::border()
            },
            body_area: parts[1],
            body,
            focused: state.focused,
            offset: self.active_list().offset,
            footer_area: parts[2],
            hints: state.hints,
            dialog,
            cursor,
            regions: mouse_regions(view, header[0], header[1], parts[1]),
        }
    }

    /// What is drawn on a screen: the screen is divided from top to bottom, its header across, and
    /// a dialog takes its share in the middle. Where the screen has room for all of it, each part
    /// has its place.
    pub fn render(&self, area: Area) -> (r: Screen)
        ensures
            exists|parts: Seq<Area>, header: Seq<Area>|
                {
                    &&& divides(parts, area, Direction::Vertical, row_limits(compact(area)))
                    &&& divides(header, parts[0], Direction::Horizontal, column_limits())
                    &&& r@ == #[trigger] screen_of(
                        self.model(),
                        area,
                        parts,
                        header,
                        dialog_areas(area),
                    )
                },
            roomy(area) ==> r@ == screen_of(
                self.model(),
                area,
                row_areas(area),
                header_areas(row_areas(area)[0]),
                dialog_areas(area),
            ),
    {
        let footer: u16 = if area.width < 50 || area.height < 10 {
            2
        } else {
            3
        };
        let mut limits: Vec<Limit> = Vec::new();
        limits.push(Limit::Length(3));
        limits.push(Limit::Min(1));
        limits.push(Limit::Length(footer));
        assert(limits@ =~= row_limits(compact(area)));
        let parts = split(Direction::Vertical, &limits, area);
        let mut limits: Vec<Limit> = Vec::new();
        limits.push(Limit::Length(32));
        limits.push(Limit::Min(1));
        assert(limits@ =~= column_limits());
        let header = split(Direction::Horizontal, &limits, parts[0]);
        let columns = dialog_columns(DIALOG_SHARE, area);
        proof {
            dialogs_take_their_share(area);
        }
        let r = self.lay_out(area, &parts, &header, &columns);
        assert(r@ == screen_of(
            self.model(),
            area,
            parts@,
            header@,
            dialog_areas(area),
        ));
        proof {
            if roomy(area) {
                rows_are_fixed(area, parts@);
                header_is_fixed(parts@[0], header@);
            }
        }
        r
    }
}

/// A cell lies in the part that two areas share only where it lies in both.
proof fn overlap_lies_in_both(a: Area, b: Area, column: u16, row: u16)
    ensures
        overlap(a, b).holds(column, row) <==> a.holds(column, row) && b.holds(column, row),
{
}

/// A cell within the border of an area lies in the area.
proof fn a_border_takes_away(area: Area, column: u16, row: u16)
    requires
        within_border(area).holds(column, row),
    ensures
        area.holds(column, row),
{
}

/// No cell of the screen belongs to two regions: a click means one thing.
pub proof fn regions_do_not_overlap(
    view: Tab,
    area: Area,
    compact: bool,
    parts: Seq<Area>,
    header: Seq<Area>,
    column: u16,
    row: u16,
)
    requires
        divides(parts, area, Direction::Vertical, row_limits(compact)),
        divides(header, parts[0], Direction::Horizontal, column_limits()),
    ensures
        ({
            let regions = regions_of(view, header[0], header[1], parts[1]);
            let first = regions.discover_tab.holds(column, row);
            let second = regions.registrations_tab.holds(column, row);
            let search = regions.search.holds(column, row);
            let list = regions.list.holds(column, row);
            &&& !(first && second)
            &&& !(first && search)
            &&& !(second && search)
            &&& !(first && list)
            &&& !(second && list)
            &&& !(search && list)
        }),
{
    let regions = regions_of(view, header[0], header[1], parts[1]);
    let inside = within_border(header[0]);
    let height = at_most(inside.height as int, 1) as u16;
    let w = cells(titles(view).0);
    let x = shifted(inside.x, w + 3);
    let tab = Area { x: inside.x, y: inside.y, width: (w + 2) as u16, height };
    let other = Area {
        x,
        y: inside.y,
        width: (cells(titles(view).1) + 2) as u16,
        height,
    };
    overlap_lies_in_both(tab, inside, column, row);
    overlap_lies_in_both(other, inside, column, row);
    if inside.holds(column, row) {
        a_border_takes_away(header[0], column, row);
    }
    if within_border(parts[1]).holds(column, row) {
        a_border_takes_away(parts[1], column, row);
    }
    assert(level(header[0], parts[0], Direction::Horizontal));
    assert(level(header[1], parts[0], Direction::Horizontal));
    assert(start(parts[0], Direction::Vertical) + extent(parts[0], Direction::Vertical) <= start(
        parts[1],
        Direction::Vertical,
    ));
    assert(start(header[0], Direction::Horizontal) + extent(header[0], Direction::Horizontal)
        <= start(header[1], Direction::Horizontal));
}

/// A dialog lies within the screen.
pub proof fn a_dialog_fits_the_screen(percent_x: u16, text: Seq<char>, area: Area)
    requires
        percent_x <= 100,
        area.y + area.height <= u16::MAX,
    ensures
        ({
            let dialog = dialog_area(column_areas(area, percent_x)[1], text, area);
            &&& area.x <= dialog.x
            &&& dialog.x + dialog.width <= area.right_end()
            &&& area.y <= dialog.y
            &&& dialog.y + dialog.height <= area.y + area.height
        }),
{
    let rest = (100 - percent_x) / 2;
    shares_grow(reach(area, Direction::Horizontal), rest, rest + percent_x);
}

/// A dialog stands in the middle of the screen: as far from its left edge as its width leaves, to
/// a cell.
pub proof fn a_dialog_is_in_the_middle(percent_x: u16, area: Area)
    requires
        percent_x <= 100,
        percent_x % 2 == 0,
    ensures
        ({
            let column = column_areas(area, percent_x)[1];
            let left = column.x - area.x;
            let right = area.right_end() - (column.x + column.width);
            right - 1 <= left <= right + 1
        }),
{
    let rest = (100 - percent_x) / 2;
    let length = reach(area, Direction::Horizontal);
    shares_grow(length, rest, rest + percent_x);
    assert(length * (rest + percent_x) == length * 100 - length * rest) by (nonlinear_arith)
        requires
            rest + percent_x == 100 - rest,
    ;
}

/// Where the screen has room for them, the header and the hints have their full height, and the
/// list has the rest.
pub proof fn the_list_takes_the_rest(area: Area, parts: Seq<Area>)
    requires
        reach(area, Direction::Vertical) >= 4 + footer_rows(area),
        area.y + area.height <= u16::MAX,
        divides(parts, area, Direction::Vertical, row_limits(compact(area))),
    ensures
        parts[0].height == 3,
        parts[2].height == footer_rows(area),
        parts[1].height == area.height - 3 - footer_rows(area),
        parts[1].y == area.y + 3,
        parts[2].y == area.y + area.height - footer_rows(area),
{
    rows_are_fixed(area, parts);
}

} // verus!
