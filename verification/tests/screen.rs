use bintui::model::{
    Candidate, LifecycleResult, LifecycleStatus, ListResult, ManagedPathKind, Registration,
    RegistrationDefect, RegistrationDefectKind, RegistrationState, SearchResult, SearchStatus,
};
use bintui::path::PathBuf;
use bintui::screen::{
    centered_dialog_rect, dialog_rect, link_name_differs_from_target, mouse_regions,
    rename_cursor_position, search_cursor, Body, Screen,
};
use bintui::theme;
use bintui::tui::{
    translate_event, Area, Controller, Dialog, Event, KeyCode, ListEntry, MouseButton, MouseEvent,
    MouseEventKind, OperationError, OperationResult, Request, SemanticItem, Tab, TerminalEvent,
};
use ratatui::backend::{Backend, TestBackend};
use ratatui::layout::Rect;
use ratatui::style::{Color, Modifier, Style};
use ratatui::text::{Line, Span};
use ratatui::widgets::block::Padding;
use ratatui::widgets::{
    Block, Borders, Clear, List, ListItem, ListState, Paragraph, Tabs, Wrap,
};
use ratatui::{Frame, Terminal};

fn path(text: &str) -> PathBuf {
    PathBuf::from_text(text)
}

fn color(value: u32) -> Color {
    Color::from_u32(value)
}

fn style(value: theme::Style) -> Style {
    let mut style = Style {
        fg: value.fg.map(color),
        bg: value.bg.map(color),
        ..Style::default()
    };
    if value.bold {
        style = style.add_modifier(Modifier::BOLD);
    }
    if value.underlined {
        style = style.add_modifier(Modifier::UNDERLINED);
    }
    style
}

fn rect(area: Area) -> Rect {
    Rect {
        x: area.x,
        y: area.y,
        width: area.width,
        height: area.height,
    }
}

fn bordered(panel: theme::Style, border: theme::Style) -> Block<'static> {
    Block::default()
        .borders(Borders::ALL)
        .style(style(panel))
        .border_style(style(border))
}

fn draw(frame: &mut Frame, screen: &Screen) -> usize {
    frame.render_widget(Block::default().style(style(theme::app())), frame.size());
    let (first, second) = &screen.tab_titles;
    frame.render_widget(
        Tabs::new([first.as_str(), second.as_str()])
            .select(screen.selected_tab)
            .style(style(theme::tab()))
            .highlight_style(style(theme::selected_tab()))
            .divider(" ")
            .block(bordered(theme::header(), theme::border())),
        rect(screen.tabs_area),
    );
    frame.render_widget(
        Paragraph::new(screen.search_text.as_str())
            .style(style(screen.search_style))
            .block(bordered(theme::header(), screen.search_border).title(" Search ")),
        rect(screen.search_area),
    );
    let panel = bordered(theme::panel(), theme::border());
    let mut offset = screen.offset;
    match &screen.body {
        Body::Empty(message) => frame.render_widget(
            Paragraph::new(message.as_str())
                .style(style(theme::empty()))
                .block(panel),
            rect(screen.body_area),
        ),
        Body::Rows(rows) => {
            let items: Vec<ListItem> = rows
                .iter()
                .map(|row| {
                    let spans: Vec<Span> = row
                        .spans
                        .iter()
                        .map(|span| Span::styled(span.text.as_str(), style(span.style)))
                        .collect();
                    ListItem::new(Line::from(spans)).style(style(row.style))
                })
                .collect();
            let mut state = ListState::default().with_offset(offset);
            state.select(Some(screen.focused));
            frame.render_stateful_widget(
                List::new(items).block(panel),
                rect(screen.body_area),
                &mut state,
            );
            offset = state.offset();
        }
    }
    frame.render_widget(
        Paragraph::new(screen.hints.as_str())
            .style(style(theme::footer()))
            .wrap(Wrap { trim: false })
            .block(bordered(theme::footer(), theme::border())),
        rect(screen.footer_area),
    );
    if let Some(dialog) = &screen.dialog {
        frame.render_widget(Clear, rect(dialog.area));
        frame.render_widget(
            Paragraph::new(dialog.text.as_str())
                .style(style(theme::dialog()))
                .wrap(Wrap { trim: false })
                .block(
                    bordered(theme::dialog(), theme::dialog_border())
                        .title_style(style(theme::dialog_title()))
                        .title(dialog.title.as_str())
                        .padding(Padding::uniform(1)),
                ),
            rect(dialog.area),
        );
    }
    if let Some((x, y)) = screen.cursor {
        frame.set_cursor(x, y);
    }
    offset
}

fn terminal(width: u16, height: u16) -> Terminal<TestBackend> {
    Terminal::new(TestBackend::new(width, height)).unwrap()
}

fn show(terminal: &mut Terminal<TestBackend>, controller: &mut Controller) {
    let mut offset = 0;
    let mut regions = None;
    terminal
        .draw(|frame| {
            let size = frame.size();
            let screen = controller.render(Area {
                x: size.x,
                y: size.y,
                width: size.width,
                height: size.height,
            });
            offset = draw(frame, &screen);
            regions = Some(screen.regions);
        })
        .unwrap();
    controller.drawn(regions.unwrap(), offset);
}

fn rendered(terminal: &Terminal<TestBackend>) -> String {
    terminal
        .backend()
        .buffer()
        .content()
        .iter()
        .map(|cell| cell.symbol())
        .collect()
}

fn mouse(controller: &mut Controller, kind: MouseEventKind, column: u16, row: u16) {
    let event = TerminalEvent::Mouse(MouseEvent { kind, column, row });
    let event =
        translate_event(event, controller.dialog().is_some(), controller.filter_active()).unwrap();
    controller.handle(event);
}

fn search(names: &[String]) -> OperationResult {
    OperationResult::Search(Ok(SearchResult {
        status: SearchStatus::Healthy,
        search_root: path("/project"),
        candidates: names
            .iter()
            .map(|name| Candidate {
                proposed_name: name.clone(),
                target: path("/project").join_text(name),
                registration: None,
                conflict: None,
            })
            .collect(),
        warnings: Vec::new(),
    }))
}

fn discovering(names: &[String]) -> Controller {
    let mut controller = Controller::new(path("/project"));
    controller.take_request();
    controller.complete(search(names));
    controller
}

fn registered(states: Vec<RegistrationState>) -> Controller {
    let mut controller = Controller::new(path("/project"));
    controller.handle(Event::SwitchView);
    controller.take_request();
    controller.complete(OperationResult::List(Ok(ListResult {
        status: LifecycleStatus::Healthy,
        identifier: "registrations-listed".to_owned(),
        registrations: states,
    })));
    controller
}

fn mouse_fixture() -> (Controller, Terminal<TestBackend>) {
    let names: Vec<String> = (0..40).map(|index| format!("tool{index:02}")).collect();
    let mut controller = discovering(&names);
    let mut terminal = terminal(80, 24);
    show(&mut terminal, &mut controller);
    (controller, terminal)
}

const LEFT: MouseEventKind = MouseEventKind::Down(MouseButton::Left);

#[test]
fn mouse_selects_tabs_and_search_without_clearing_filter() {
    let (mut controller, mut terminal) = mouse_fixture();
    mouse(&mut controller, LEFT, 40, 1);
    assert!(controller.filter_active());
    controller.handle(Event::Text("tool".into()));
    mouse(&mut controller, LEFT, 20, 1);
    assert_eq!(controller.view(), Tab::Registrations);
    assert!(!controller.filter_active());
    assert_eq!(controller.semantic_state(80, 24).filter, "tool");
    assert_eq!(controller.take_request(), Some(Request::List));
    show(&mut terminal, &mut controller);
    mouse(&mut controller, LEFT, 20, 1);
    assert_eq!(controller.take_request(), None);
    mouse(&mut controller, LEFT, 5, 1);
    assert_eq!(controller.view(), Tab::Discover);
}

#[test]
fn mouse_scrolls_and_selects_using_rendered_offset() {
    let (mut controller, mut terminal) = mouse_fixture();
    mouse(&mut controller, MouseEventKind::ScrollDown, 10, 5);
    show(&mut terminal, &mut controller);
    assert_eq!(controller.active_list().offset, 3);
    mouse(&mut controller, LEFT, 1, 5);
    assert_eq!(controller.active_list().focus, 4);
    assert!(!controller.has_emitted_mutation());
    assert_eq!(controller.take_request(), None);
    for _ in 0..30 {
        mouse(&mut controller, MouseEventKind::ScrollDown, 10, 5);
        show(&mut terminal, &mut controller);
    }
    assert_eq!(controller.active_list().offset, 24);
    for _ in 0..30 {
        mouse(&mut controller, MouseEventKind::ScrollUp, 10, 5);
        show(&mut terminal, &mut controller);
    }
    assert_eq!(controller.active_list().offset, 0);
    assert_eq!(controller.active_list().focus, 15);
}

#[test]
fn mouse_respects_filtered_rows_blank_space_and_dialogs() {
    let (mut controller, mut terminal) = mouse_fixture();
    controller.handle(Event::StartFilter);
    controller.handle(Event::Text("tool03".into()));
    show(&mut terminal, &mut controller);
    mouse(&mut controller, LEFT, 10, 4);
    assert!(!controller.filter_active());
    assert_eq!(controller.focused().unwrap().name, "tool03");
    mouse(&mut controller, LEFT, 10, 8);
    assert_eq!(controller.active_list().focus, 0);
    mouse(&mut controller, MouseEventKind::ScrollDown, 10, 5);
    assert_eq!(controller.active_list().offset, 0);
    controller.complete(OperationResult::Search(Err(OperationError::new(
        "search-failed",
        "blocked",
    ))));
    mouse(&mut controller, LEFT, 20, 1);
    mouse(&mut controller, LEFT, 40, 1);
    assert_eq!(controller.view(), Tab::Discover);
    assert!(!controller.filter_active());
}

#[test]
fn mouse_ignores_borders_other_buttons_and_stale_resize_regions() {
    let (mut controller, mut terminal) = mouse_fixture();
    for (kind, x, y) in [
        (LEFT, 0, 6),
        (MouseEventKind::Down(MouseButton::Right), 10, 6),
        (MouseEventKind::Drag(MouseButton::Left), 10, 6),
        (MouseEventKind::ScrollDown, 40, 1),
    ] {
        mouse(&mut controller, kind, x, y);
    }
    assert_eq!(controller.active_list().focus, 0);
    assert_eq!(controller.active_list().offset, 0);
    controller.handle(Event::Resize(20, 8));
    mouse(&mut controller, LEFT, 20, 1);
    assert_eq!(controller.view(), Tab::Discover);
    terminal.backend_mut().resize(20, 8);
    show(&mut terminal, &mut controller);
    mouse(&mut controller, MouseEventKind::ScrollDown, 10, 4);
    terminal.backend_mut().resize(1, 1);
    show(&mut terminal, &mut controller);
    mouse(&mut controller, MouseEventKind::ScrollDown, 0, 0);
}

#[test]
fn delete_keys_map_to_contextual_delete() {
    for code in [KeyCode::Backspace, KeyCode::Delete] {
        assert_eq!(
            translate_event(TerminalEvent::Key(code), false, false),
            Some(Event::Delete)
        );
    }
}

#[test]
fn enter_key_has_no_list_action() {
    assert_eq!(
        translate_event(TerminalEvent::Key(KeyCode::Enter), false, false),
        None
    );
}

#[test]
fn slash_key_focuses_the_filter() {
    assert_eq!(
        translate_event(TerminalEvent::Key(KeyCode::Char('/')), false, false),
        Some(Event::StartFilter)
    );
}

#[test]
fn escape_clears_the_active_filter() {
    assert_eq!(
        translate_event(TerminalEvent::Key(KeyCode::Esc), false, true),
        Some(Event::ClearFilter)
    );
}

#[test]
fn keys_mean_text_while_text_is_entered() {
    assert_eq!(
        translate_event(TerminalEvent::Key(KeyCode::Char('q')), true, false),
        Some(Event::Text("q".to_owned()))
    );
    assert_eq!(
        translate_event(TerminalEvent::Key(KeyCode::Esc), true, false),
        Some(Event::Cancel)
    );
    assert_eq!(
        translate_event(TerminalEvent::Key(KeyCode::Char('q')), false, false),
        Some(Event::Exit)
    );
    assert_eq!(
        translate_event(TerminalEvent::Resize(3, 4), true, true),
        Some(Event::Resize(3, 4))
    );
    assert_eq!(translate_event(TerminalEvent::Other, false, false), None);
}

fn state(name: &str, target: &str, enabled: bool, actual: ManagedPathKind) -> RegistrationState {
    RegistrationState {
        registration: Registration {
            name: name.to_owned(),
            target: path(target),
            enabled,
        },
        managed_link: path("/managed").join_text(name),
        actual,
        observed_link_target: None,
        defect: None,
    }
}

#[test]
fn registry_tab_renders_enabled_and_disabled_registrations() {
    let states = [("enabled", true), ("disabled", false)]
        .into_iter()
        .map(|(name, enabled)| {
            let target = format!("/project/{name}");
            let mut state = state(name, &target, enabled, ManagedPathKind::Missing);
            if enabled {
                state.defect = Some(RegistrationDefect {
                    kind: RegistrationDefectKind::LinkMissing,
                    message: "Enabled Registration has no Managed Link".to_owned(),
                });
            }
            state
        })
        .collect();
    let mut controller = registered(states);
    let mut terminal = terminal(80, 24);

    show(&mut terminal, &mut controller);

    let rendered = rendered(&terminal);
    assert!(rendered.contains("Registry"));
    assert!(!rendered.contains("Registrations"));
    assert!(rendered.contains("[x] /project/enabled"));
    assert!(rendered.contains("[ ] /project/disabled"));
}

#[test]
fn tui_uses_catppuccin_mocha_for_panels_tabs_and_focus() {
    let mut controller = discovering(&["tool".to_owned()]);
    let mut terminal = terminal(80, 24);

    show(&mut terminal, &mut controller);

    let buffer = terminal.backend().buffer();
    assert_eq!(buffer.get(0, 0).bg, color(theme::mocha::MANTLE));
    assert_eq!(buffer.get(1, 4).bg, color(theme::mocha::SURFACE_1));
    assert_eq!(buffer.get(1, 22).bg, color(theme::mocha::SURFACE_0));
    let discover_start = buffer
        .content()
        .windows("Discover".len())
        .position(|window| {
            window.iter().map(|cell| cell.symbol()).collect::<String>() == "Discover"
        })
        .expect("selected Discover tab is rendered");
    let selected_tab = &buffer.content()[discover_start..discover_start + "Discover".len()];
    assert!(selected_tab.iter().all(|cell| {
        cell.fg == color(theme::mocha::MAUVE)
            && cell.bg == color(theme::mocha::SURFACE_1)
            && cell.modifier.contains(Modifier::UNDERLINED)
    }));
    assert_eq!(buffer.content()[discover_start - 2].symbol(), "[");
    assert_eq!(
        buffer.content()[discover_start + "Discover".len() + 1].symbol(),
        "]"
    );
    let header_text: String = (0..3)
        .flat_map(|y| (0..80).map(move |x| buffer.get(x, y).symbol()))
        .collect();
    assert!(!header_text.contains("bin"));
    assert!(!header_text.contains("/project"));
}

#[test]
fn filter_is_in_the_header_and_has_leading_inner_space() {
    let mut controller = Controller::new(path("/project"));
    controller.take_request();
    controller.handle(Event::StartFilter);
    controller.handle(Event::Text("abc".to_owned()));
    let mut terminal = terminal(80, 24);

    show(&mut terminal, &mut controller);

    let buffer = terminal.backend().buffer();
    assert_eq!(buffer.get(33, 1).symbol(), " ");
    assert_eq!(buffer.get(34, 1).symbol(), "a");
    assert_eq!(terminal.backend_mut().get_cursor().unwrap(), (37, 1));
}

#[test]
fn only_the_differing_link_name_uses_catppuccin_mocha_green() {
    let mut controller = registered(vec![state(
        "alias",
        "/project/tool",
        true,
        ManagedPathKind::OwnedLink,
    )]);
    let mut terminal = terminal(80, 24);

    show(&mut terminal, &mut controller);

    let cells = terminal.backend().buffer().content();
    let alias_start = cells
        .windows(5)
        .position(|window| window.iter().map(|cell| cell.symbol()).collect::<String>() == "alias")
        .expect("differing link name is rendered");
    assert!(cells[alias_start..alias_start + 5]
        .iter()
        .all(|cell| cell.fg == color(theme::mocha::GREEN)));
    assert!(cells[alias_start - 3..alias_start]
        .iter()
        .all(|cell| cell.fg != color(theme::mocha::GREEN)));
}

#[test]
fn matching_link_name_is_not_repeated() {
    let item = SemanticItem {
        name: "tool".to_owned(),
        target: path("/project/tool"),
        checked: true,
        status: String::new(),
        error: None,
    };

    assert!(!link_name_differs_from_target(&item));
}

#[test]
fn a_target_without_a_file_name_has_no_name_to_differ_from() {
    let item = |target: &str| SemanticItem {
        name: "tool".to_owned(),
        target: path(target),
        checked: true,
        status: String::new(),
        error: None,
    };

    assert!(link_name_differs_from_target(&item("/project/other")));
    assert!(!link_name_differs_from_target(&item("/")));
    assert!(!link_name_differs_from_target(&item("/project/..")));
}

#[test]
fn healthy_registration_row_does_not_use_unhealthy_styling() {
    let mut controller = registered(
        ["first", "second"]
            .into_iter()
            .map(|name| {
                state(
                    name,
                    &format!("/project/{name}"),
                    true,
                    ManagedPathKind::OwnedLink,
                )
            })
            .collect(),
    );
    let mut terminal = terminal(80, 24);

    show(&mut terminal, &mut controller);

    assert!(terminal
        .backend()
        .buffer()
        .content()
        .iter()
        .all(|cell| cell.fg != color(theme::mocha::YELLOW)));
}

#[test]
fn a_row_with_a_defect_out_of_focus_is_a_warning() {
    let mut states: Vec<RegistrationState> = ["first", "second"]
        .into_iter()
        .map(|name| {
            state(
                name,
                &format!("/project/{name}"),
                true,
                ManagedPathKind::Missing,
            )
        })
        .collect();
    for state in &mut states {
        state.defect = Some(RegistrationDefect {
            kind: RegistrationDefectKind::LinkMissing,
            message: String::new(),
        });
    }
    let controller = registered(states);

    let screen = controller.render(Area {
        x: 0,
        y: 0,
        width: 80,
        height: 24,
    });
    let Body::Rows(rows) = screen.body else {
        panic!("rows are shown")
    };
    assert_eq!(rows[0].style, theme::selected_row());
    assert_eq!(rows[1].style, theme::warning());
    let texts: Vec<&str> = rows[1].spans.iter().map(|span| span.text.as_str()).collect();
    assert_eq!(texts, ["[x]", " /project/second", " · ", "link-missing"]);
}

#[test]
fn footer_contains_only_hotkeys() {
    let mut controller = Controller::new(path("/project"));
    controller.complete(OperationResult::Mutation(Ok(LifecycleResult {
        status: LifecycleStatus::Healthy,
        identifier: "registration-removed".to_owned(),
        registration: None,
        conflict: None,
    })));
    controller.take_request();
    assert_eq!(
        controller.semantic_state(100, 24).notice.as_deref(),
        Some("registration-removed")
    );
    let mut terminal = terminal(100, 24);

    show(&mut terminal, &mut controller);

    let rendered = rendered(&terminal);
    assert!(!rendered.contains("registration-removed"));
    assert!(!rendered.contains("↑↓ move"));
    assert!(rendered.contains(" tab    space    / search    r rename    del remove    q quit"));
}

#[test]
fn search_prompt_is_dimmer_than_entered_text() {
    let mut controller = Controller::new(path("/project"));
    controller.take_request();
    let mut terminal = terminal(80, 24);

    show(&mut terminal, &mut controller);
    assert_eq!(terminal.backend().buffer().get(34, 1).symbol(), "P");
    assert_eq!(
        terminal.backend().buffer().get(34, 1).fg,
        color(theme::mocha::OVERLAY_0)
    );

    controller.handle(Event::StartFilter);
    controller.handle(Event::Text("query".to_owned()));
    controller.handle(Event::Submit);
    show(&mut terminal, &mut controller);
    assert_eq!(terminal.backend().buffer().get(34, 1).symbol(), "q");
    assert_eq!(
        terminal.backend().buffer().get(34, 1).fg,
        color(theme::mocha::TEXT)
    );
}

#[test]
fn overflowing_list_scrolls_to_keep_the_focused_item_visible() {
    let names: Vec<String> = (0..10).map(|index| format!("tool-{index}")).collect();
    let mut controller = discovering(&names);
    controller.handle(Event::Up);
    assert_eq!(controller.active_list().focus, 9);

    let mut terminal = terminal(80, 10);
    show(&mut terminal, &mut controller);

    let rendered = rendered(&terminal);
    assert!(rendered.contains("tool-9"));
    assert!(!rendered.contains("tool-0"));
}

#[test]
fn rename_dialog_is_content_height_centered_with_an_indented_title_and_visible_input_cursor() {
    let mut controller = registered(vec![state(
        "old",
        "/project/tool",
        true,
        ManagedPathKind::OwnedLink,
    )]);
    controller.handle(Event::Rename);
    let mut terminal = terminal(80, 24);

    show(&mut terminal, &mut controller);

    let rendered = rendered(&terminal);
    assert!(rendered.contains("Rename"));
    assert!(!rendered.contains("Rename Registration old"));
    assert!(rendered.contains("Command Name: old"));
    let whole = Area {
        x: 0,
        y: 0,
        width: 80,
        height: 24,
    };
    assert_eq!(
        centered_dialog_rect(70, "Command Name: old", whole),
        Area {
            x: 12,
            y: 9,
            width: 56,
            height: 5
        }
    );
    assert_eq!(terminal.backend().buffer().get(14, 9).symbol(), "R");
    assert_eq!(terminal.backend_mut().get_cursor().unwrap(), (31, 11));
}

#[test]
fn a_dialog_grows_with_its_text_up_to_the_screen() {
    let area = Area {
        x: 0,
        y: 0,
        width: 40,
        height: 10,
    };
    let column = Area {
        x: 6,
        y: 0,
        width: 14,
        height: 10,
    };
    let wrapped = dialog_rect(column, "twelve chars\nmore", area);
    assert_eq!(
        wrapped,
        Area {
            x: 6,
            y: 1,
            width: 14,
            height: 7
        }
    );
    let cut = dialog_rect(column, "a\nb\r\nc\nd\ne\nf\ng\n", area);
    assert_eq!((cut.y, cut.height), (0, 10));
}

#[test]
fn wide_characters_count_as_two_cells() {
    let area = Area {
        x: 10,
        y: 2,
        width: 20,
        height: 3,
    };
    assert_eq!(search_cursor(area, "ab"), (14, 3));
    assert_eq!(search_cursor(area, "日本"), (16, 3));
    assert_eq!(search_cursor(area, "a text that is far too long"), (28, 3));
    let dialog = Dialog::Rename {
        name: "old".to_owned(),
        value: "日".to_owned(),
    };
    assert_eq!(rename_cursor_position(&dialog, area), Some((27, 4)));
    let error = Dialog::Error {
        text: "no".to_owned(),
    };
    assert_eq!(rename_cursor_position(&error, area), None);
}

#[test]
fn the_tabs_have_their_own_cells() {
    let area = |x, y, width, height| Area {
        x,
        y,
        width,
        height,
    };
    let regions = mouse_regions(
        Tab::Discover,
        area(0, 0, 32, 3),
        area(32, 0, 48, 3),
        area(0, 3, 80, 18),
    );
    assert_eq!(regions.discover_tab, area(1, 1, 14, 1));
    assert_eq!(regions.registrations_tab, area(16, 1, 14, 1));
    assert_eq!(regions.search, area(32, 0, 48, 3));
    assert_eq!(regions.list, area(1, 4, 78, 16));
    let none = mouse_regions(
        Tab::Discover,
        area(0, 0, 1, 1),
        area(1, 0, 0, 1),
        area(0, 1, 1, 0),
    );
    assert!(!none.discover_tab.contains(0, 0));
    assert!(!none.list.contains(0, 0));
}

#[test]
fn an_entry_is_made_of_a_candidate() {
    let entry = ListEntry::from_candidate(
        Candidate {
            proposed_name: "tool".to_owned(),
            target: path("/project/tool"),
            registration: None,
            conflict: None,
        },
        "other".to_owned(),
    );
    assert_eq!(entry.name, "other");
    assert!(!entry.unavailable);
}

/// Some hundredths of a length, to the nearest cell.
fn share(length: u16, hundredths: u32) -> u16 {
    ((u32::from(length) * hundredths + 50) / 100) as u16
}

#[test]
fn a_dialog_takes_its_share_of_every_width() {
    for x in [0, 7] {
        for width in 0..=300 {
            for percent in [0, 1, 33, 50, 70, 71, 99, 100] {
                let area = Area {
                    x,
                    y: 2,
                    width,
                    height: 24,
                };
                let rest = u32::from((100 - percent) / 2);
                let left = share(width, rest);
                let dialog = centered_dialog_rect(percent, "x", area);
                assert_eq!(dialog.x, x + left);
                assert_eq!(
                    dialog.width,
                    share(width, rest + u32::from(percent)) - left
                );
            }
        }
    }
    let whole = Area {
        x: 0,
        y: 0,
        width: 50,
        height: 24,
    };
    let dialog = centered_dialog_rect(70, "x", whole);
    assert_eq!((dialog.x, dialog.width), (8, 35));
}

#[test]
fn every_screen_with_room_is_divided_alike() {
    let controller = Controller::new(path("/project"));
    for y in [0, 5] {
        for width in [33, 40, 49, 50, 51, 80, 120, 201] {
            for height in 7..=70 {
                let footer = if width < 50 || height < 10 { 2 } else { 3 };
                let screen = controller.render(Area {
                    x: 3,
                    y,
                    width,
                    height,
                });
                let area = |x, y, width, height| Area {
                    x,
                    y,
                    width,
                    height,
                };
                assert_eq!(screen.tabs_area, area(3, y, 32, 3));
                assert_eq!(screen.search_area, area(35, y, width - 32, 3));
                assert_eq!(
                    screen.body_area,
                    area(3, y + 3, width, height - 3 - footer)
                );
                assert_eq!(
                    screen.footer_area,
                    area(3, y + height - footer, width, footer)
                );
            }
        }
    }
}

#[test]
fn the_parts_of_a_small_screen_leave_no_gap() {
    let controller = Controller::new(path("/project"));
    for width in 0..=40 {
        for height in 0..=8 {
            let screen = controller.render(Area {
                x: 3,
                y: 5,
                width,
                height,
            });
            let (tabs, search) = (screen.tabs_area, screen.search_area);
            assert_eq!((tabs.x, tabs.y), (3, 5));
            assert_eq!((search.x, search.y), (tabs.x + tabs.width, 5));
            assert!(search.x + search.width <= 3 + width);
            let (body, footer) = (screen.body_area, screen.footer_area);
            assert_eq!((body.x, body.y, body.width), (3, 5 + tabs.height, width));
            assert_eq!((footer.x, footer.y), (3, body.y + body.height));
            assert!(footer.y + footer.height <= 5 + height);
        }
    }
}
