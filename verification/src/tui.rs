//! The controller of the terminal interface: what every key, click and result leads to.

use vstd::prelude::*;

use crate::application::{
    AddRequest,
    AddRequestView,
    ApplicationError,
    ApplicationErrorView,
    SearchRequest,
};
use crate::cli;
use crate::discovery_ignore;
use crate::environment::Environment;
use crate::lifecycle;
use crate::lifecycle::{Lifecycle, LifecycleView, TaskView};
use crate::listing;
use crate::listing::{ListPhase, ListPhaseView};
use crate::model;
use crate::model::{
    Candidate,
    CandidateView,
    CanonicalPath,
    CanonicalPathView,
    DisplayRoot,
    DisplayRootView,
    LifecycleResult,
    LifecycleResultView,
    LifecycleStatus,
    ListResult,
    ListResultView,
    ManagedPathKind,
    PathDiagnostic,
    PathDiagnosticView,
    RegistrationDefectKind,
    RegistrationState,
    RegistrationStateView,
    SearchResult,
    SearchResultView,
    SearchWarning,
    SearchWarningView,
};
use crate::order;
use crate::path;
use crate::path::PathBuf;
use crate::search;
use crate::search::{SearchPhase, SearchPhaseView};
use crate::text;
use crate::views;

verus! {

/// The two lists of the interface.
#[derive(Clone, Copy, Debug, PartialEq, Eq, Structural)]
pub enum Tab {
    Discover,
    Registrations,
}

/// What the controller wants done.
#[derive(Debug, PartialEq, Eq)]
pub enum Request {
    Search(PathBuf),
    List,
    ValidateAdd { target: PathBuf, name: String },
    Add { target: PathBuf, name: String },
    Remove(String),
    Enable(String),
    Disable(String),
    Rename { name: String, new_name: String },
    Ignore(PathBuf),
}

#[allow(inconsistent_fields)]
#[verifier::ext_equal]
pub enum RequestView {
    Search(Seq<u8>),
    List,
    ValidateAdd { target: Seq<u8>, name: Seq<char> },
    Add { target: Seq<u8>, name: Seq<char> },
    Remove(Seq<char>),
    Enable(Seq<char>),
    Disable(Seq<char>),
    Rename { name: Seq<char>, new_name: Seq<char> },
    Ignore(Seq<u8>),
}

impl View for Request {
    type V = RequestView;

    open spec fn view(&self) -> RequestView {
        match *self {
            Request::Search(root) => RequestView::Search(root@),
            Request::List => RequestView::List,
            Request::ValidateAdd { target, name } => RequestView::ValidateAdd {
                target: target@,
                name: name@,
            },
            Request::Add { target, name } => RequestView::Add { target: target@, name: name@ },
            Request::Remove(name) => RequestView::Remove(name@),
            Request::Enable(name) => RequestView::Enable(name@),
            Request::Disable(name) => RequestView::Disable(name@),
            Request::Rename { name, new_name } => RequestView::Rename {
                name: name@,
                new_name: new_name@,
            },
            Request::Ignore(target) => RequestView::Ignore(target@),
        }
    }
}

impl RequestView {
    /// The request changes something.
    pub open spec fn is_mutation(self) -> bool {
        match self {
            RequestView::Search(_) => false,
            RequestView::List => false,
            RequestView::ValidateAdd { .. } => false,
            _ => true,
        }
    }
}

impl Request {
    /// Whether the request changes something.
    pub fn is_mutation(&self) -> (r: bool)
        ensures
            r == self@.is_mutation(),
    {
        match self {
            Request::Search(_) => false,
            Request::List => false,
            Request::ValidateAdd { .. } => false,
            _ => true,
        }
    }
}

/// Why an operation failed, as the interface shows it.
#[derive(Debug)]
pub struct OperationError {
    pub identifier: String,
    pub message: String,
    pub registration_name: Option<String>,
}

#[verifier::ext_equal]
pub struct OperationErrorView {
    pub identifier: Seq<char>,
    pub message: Seq<char>,
    pub registration_name: Option<Seq<char>>,
}

impl View for OperationError {
    type V = OperationErrorView;

    open spec fn view(&self) -> OperationErrorView {
        OperationErrorView {
            identifier: self.identifier@,
            message: self.message@,
            registration_name: views::view_of(self.registration_name),
        }
    }
}

impl Clone for OperationError {
    fn clone(&self) -> (r: Self)
        ensures
            r@ == self@,
    {
        OperationError {
            identifier: self.identifier.clone(),
            message: self.message.clone(),
            registration_name: match &self.registration_name {
                Some(name) => Some(name.clone()),
                None => None,
            },
        }
    }
}

/// What is wrong with a Registration, and what to do about it.
pub open spec fn defect_summary(state: RegistrationStateView) -> Option<Seq<char>> {
    match state.defect {
        Some(defect) => Some(
            "Registration "@ + state.registration.name + " actual="@
                + state.actual.identifier_text() + " defect="@ + defect.kind.identifier_text()
                + "; next safe action: "@ + defect.message,
        ),
        None => None,
    }
}

fn summarize_defect(state: &RegistrationState) -> (r: Option<String>)
    ensures
        views::view_of(r) == defect_summary(state@),
{
    match &state.defect {
        Some(defect) => {
            let mut m = text::joined3("Registration ", &state.registration.name, " actual=");
            m.append(state.actual.identifier());
            m.append(" defect=");
            m.append(defect.kind.identifier());
            m.append("; next safe action: ");
            m.append(&defect.message);
            Some(m)
        },
        None => None,
    }
}

/// An application error as the interface shows it.
pub open spec fn shown_error(error: ApplicationErrorView) -> OperationErrorView {
    OperationErrorView {
        identifier: error.identifier(),
        message: match error.resulting_registration() {
            Some(state) => match defect_summary(state) {
                Some(summary) => error.message() + "; "@ + summary,
                None => error.message(),
            },
            None => error.message(),
        },
        registration_name: match error.resulting_registration() {
            Some(state) => Some(state.registration.name),
            None => None,
        },
    }
}

impl OperationError {
    pub fn new(identifier: &str, message: &str) -> (r: Self)
        ensures
            r@ == (OperationErrorView {
                identifier: identifier@,
                message: message@,
                registration_name: None,
            }),
    {
        OperationError {
            identifier: identifier.to_owned(),
            message: message.to_owned(),
            registration_name: None,
        }
    }

    /// This error, attached to a Registration.
    pub fn for_registration(self, name: &str) -> (r: Self)
        ensures
            r@ == (OperationErrorView { registration_name: Some(name@), ..self@ }),
    {
        OperationError {
            identifier: self.identifier,
            message: self.message,
            registration_name: Some(name.to_owned()),
        }
    }

    /// An application error as the interface shows it.
    pub fn from_application(error: &ApplicationError) -> (r: Self)
        ensures
            r@ == shown_error(error@),
    {
        let mut message = error.message();
        match error.resulting_registration() {
            Some(state) => {
                if let Some(summary) = summarize_defect(state) {
                    message.append("; ");
                    message.append(&summary);
                }
                OperationError::new(error.identifier(), &message).for_registration(
                    &state.registration.name,
                )
            },
            None => OperationError::new(error.identifier(), &message),
        }
    }
}

/// What came of a request.
pub enum OperationResult {
    Search(Result<SearchResult, OperationError>),
    List(Result<ListResult, OperationError>),
    Validation(Result<LifecycleResult, OperationError>),
    Mutation(Result<LifecycleResult, OperationError>),
    Ignore(Result<String, OperationError>),
}

#[verifier::ext_equal]
pub enum OperationResultView {
    Search(Result<SearchResultView, OperationErrorView>),
    List(Result<ListResultView, OperationErrorView>),
    Validation(Result<LifecycleResultView, OperationErrorView>),
    Mutation(Result<LifecycleResultView, OperationErrorView>),
    Ignore(Result<Seq<char>, OperationErrorView>),
}

pub open spec fn result_view<T: View, E: View>(r: Result<T, E>) -> Result<T::V, E::V> {
    match r {
        Ok(x) => Ok(x@),
        Err(e) => Err(e@),
    }
}

impl View for OperationResult {
    type V = OperationResultView;

    open spec fn view(&self) -> OperationResultView {
        match *self {
            OperationResult::Search(r) => OperationResultView::Search(result_view(r)),
            OperationResult::List(r) => OperationResultView::List(result_view(r)),
            OperationResult::Validation(r) => OperationResultView::Validation(result_view(r)),
            OperationResult::Mutation(r) => OperationResultView::Mutation(result_view(r)),
            OperationResult::Ignore(r) => OperationResultView::Ignore(result_view(r)),
        }
    }
}

/// A mutation as the interface takes it: one that was blocked counts as failed.
pub open spec fn shown_mutation(
    outcome: Result<LifecycleResultView, ApplicationErrorView>,
) -> Result<LifecycleResultView, OperationErrorView> {
    match outcome {
        Err(error) => Err(shown_error(error)),
        Ok(result) => if result.status != LifecycleStatus::Blocked {
            Ok(result)
        } else {
            Err(
                OperationErrorView {
                    identifier: result.identifier,
                    message: match result.conflict {
                        Some(conflict) => conflict,
                        None => match result.registration {
                            Some(state) => match defect_summary(state) {
                                Some(summary) => summary,
                                None =>
                                    "Registration operation is blocked; inspect it and retry"@,
                            },
                            None => "Registration operation is blocked; inspect it and retry"@,
                        },
                    },
                    registration_name: match result.registration {
                        Some(state) => Some(state.registration.name),
                        None => None,
                    },
                },
            )
        },
    }
}

/// A mutation as the interface takes it: one that was blocked counts as failed.
pub fn mutation_result(outcome: Result<LifecycleResult, ApplicationError>) -> (r: OperationResult)
    ensures
        r@ == OperationResultView::Mutation(shown_mutation(result_view(outcome))),
{
    OperationResult::Mutation(
        match outcome {
            Err(error) => Err(OperationError::from_application(&error)),
            Ok(result) => if result.status != LifecycleStatus::Blocked {
                Ok(result)
            } else {
                let detail = match result.conflict {
                    Some(conflict) => conflict,
                    None => {
                        let summary = match &result.registration {
                            Some(state) => summarize_defect(state),
                            None => None,
                        };
                        match summary {
                            Some(summary) => summary,
                            None =>
                                "Registration operation is blocked; inspect it and retry".to_owned(),
                        }
                    },
                };
                let error = OperationError::new(&result.identifier, &detail);
                Err(
                    match result.registration {
                        Some(state) => error.for_registration(&state.registration.name),
                        None => error,
                    },
                )
            },
        },
    )
}

#[derive(Clone, Copy, Debug, PartialEq, Eq, Structural)]
pub enum MouseButton {
    Left,
    Right,
    Middle,
}

#[derive(Clone, Copy, Debug, PartialEq, Eq, Structural)]
pub enum MouseEventKind {
    Down(MouseButton),
    Up(MouseButton),
    Drag(MouseButton),
    Moved,
    ScrollDown,
    ScrollUp,
    ScrollLeft,
    ScrollRight,
}

/// A mouse event at a cell of the screen.
#[derive(Clone, Copy, Debug, PartialEq, Eq, Structural)]
pub struct MouseEvent {
    pub kind: MouseEventKind,
    pub column: u16,
    pub row: u16,
}

/// What the user does.
#[derive(Debug, PartialEq, Eq)]
pub enum Event {
    Up,
    Down,
    SwitchView,
    Toggle,
    Delete,
    Rename,
    Submit,
    Cancel,
    Dismiss,
    StartFilter,
    ClearFilter,
    Text(String),
    Backspace,
    Resize(u16, u16),
    Mouse(MouseEvent),
    Exit,
}

#[verifier::ext_equal]
pub enum EventView {
    Up,
    Down,
    SwitchView,
    Toggle,
    Delete,
    Rename,
    Submit,
    Cancel,
    Dismiss,
    StartFilter,
    ClearFilter,
    Text(Seq<char>),
    Backspace,
    Resize(u16, u16),
    Mouse(MouseEvent),
    Exit,
}

impl View for Event {
    type V = EventView;

    open spec fn view(&self) -> EventView {
        match *self {
            Event::Up => EventView::Up,
            Event::Down => EventView::Down,
            Event::SwitchView => EventView::SwitchView,
            Event::Toggle => EventView::Toggle,
            Event::Delete => EventView::Delete,
            Event::Rename => EventView::Rename,
            Event::Submit => EventView::Submit,
            Event::Cancel => EventView::Cancel,
            Event::Dismiss => EventView::Dismiss,
            Event::StartFilter => EventView::StartFilter,
            Event::ClearFilter => EventView::ClearFilter,
            Event::Text(typed) => EventView::Text(typed@),
            Event::Backspace => EventView::Backspace,
            Event::Resize(width, height) => EventView::Resize(width, height),
            Event::Mouse(mouse) => EventView::Mouse(mouse),
            Event::Exit => EventView::Exit,
        }
    }
}

/// A key of the keyboard.
#[derive(Clone, Copy, Debug, PartialEq, Eq, Structural)]
pub enum KeyCode {
    Enter,
    Esc,
    Backspace,
    Delete,
    Tab,
    Up,
    Down,
    Char(char),
    Other,
}

/// What the terminal reports.
#[derive(Clone, Copy, Debug, PartialEq, Eq, Structural)]
pub enum TerminalEvent {
    Resize(u16, u16),
    Mouse(MouseEvent),
    /// A key went down.
    Key(KeyCode),
    Other,
}

/// What a key means while text is entered.
pub open spec fn text_key(code: KeyCode, filter_active: bool) -> Option<EventView> {
    match code {
        KeyCode::Enter => Some(EventView::Submit),
        KeyCode::Esc => if filter_active {
            Some(EventView::ClearFilter)
        } else {
            Some(EventView::Cancel)
        },
        KeyCode::Backspace => Some(EventView::Backspace),
        KeyCode::Up => Some(EventView::Up),
        KeyCode::Down => Some(EventView::Down),
        KeyCode::Char(c) => Some(EventView::Text(seq![c])),
        _ => None,
    }
}

/// What a key means in a list.
pub open spec fn list_key(code: KeyCode) -> Option<EventView> {
    match code {
        KeyCode::Char(c) => if c == 'q' {
            Some(EventView::Exit)
        } else if c == 'k' {
            Some(EventView::Up)
        } else if c == 'j' {
            Some(EventView::Down)
        } else if c == '/' {
            Some(EventView::StartFilter)
        } else if c == ' ' {
            Some(EventView::Toggle)
        } else if c == 'r' {
            Some(EventView::Rename)
        } else {
            None
        },
        KeyCode::Up => Some(EventView::Up),
        KeyCode::Down => Some(EventView::Down),
        KeyCode::Tab => Some(EventView::SwitchView),
        KeyCode::Backspace => Some(EventView::Delete),
        KeyCode::Delete => Some(EventView::Delete),
        KeyCode::Esc => Some(EventView::Dismiss),
        _ => None,
    }
}

/// What a report of the terminal means.
pub open spec fn translated(
    event: TerminalEvent,
    dialog_open: bool,
    filter_active: bool,
) -> Option<EventView> {
    match event {
        TerminalEvent::Resize(width, height) => Some(EventView::Resize(width, height)),
        TerminalEvent::Mouse(mouse) => Some(EventView::Mouse(mouse)),
        TerminalEvent::Key(code) => if dialog_open || filter_active {
            text_key(code, filter_active)
        } else {
            list_key(code)
        },
        TerminalEvent::Other => None,
    }
}

/// What a report of the terminal means.
pub fn translate_event(event: TerminalEvent, dialog_open: bool, filter_active: bool) -> (r: Option<
    Event,
>)
    ensures
        views::view_of(r) == translated(event, dialog_open, filter_active),
{
    match event {
        TerminalEvent::Resize(width, height) => Some(Event::Resize(width, height)),
        TerminalEvent::Mouse(mouse) => Some(Event::Mouse(mouse)),
        TerminalEvent::Key(code) => if dialog_open || filter_active {
            match code {
                KeyCode::Enter => Some(Event::Submit),
                KeyCode::Esc => if filter_active {
                    Some(Event::ClearFilter)
                } else {
                    Some(Event::Cancel)
                },
                KeyCode::Backspace => Some(Event::Backspace),
                KeyCode::Up => Some(Event::Up),
                KeyCode::Down => Some(Event::Down),
                KeyCode::Char(c) => {
                    let mut typed = String::new();
                    typed.push(c);
                    assert(typed@ =~= seq![c]);
                    Some(Event::Text(typed))
                },
                _ => None,
            }
        } else {
            match code {
                KeyCode::Char(c) => if c == 'q' {
                    Some(Event::Exit)
                } else if c == 'k' {
                    Some(Event::Up)
                } else if c == 'j' {
                    Some(Event::Down)
                } else if c == '/' {
                    Some(Event::StartFilter)
                } else if c == ' ' {
                    Some(Event::Toggle)
                } else if c == 'r' {
                    Some(Event::Rename)
                } else {
                    None
                },
                KeyCode::Up => Some(Event::Up),
                KeyCode::Down => Some(Event::Down),
                KeyCode::Tab => Some(Event::SwitchView),
                KeyCode::Backspace => Some(Event::Delete),
                KeyCode::Delete => Some(Event::Delete),
                KeyCode::Esc => Some(Event::Dismiss),
                _ => None,
            }
        },
        TerminalEvent::Other => None,
    }
}

/// A row of the list, as the user understands it.
#[derive(Debug, PartialEq, Eq)]
pub struct SemanticItem {
    pub name: String,
    pub target: PathBuf,
    pub checked: bool,
    pub status: String,
    pub error: Option<String>,
}

#[verifier::ext_equal]
pub struct SemanticItemView {
    pub name: Seq<char>,
    pub target: Seq<u8>,
    pub checked: bool,
    pub status: Seq<char>,
    pub error: Option<Seq<char>>,
}

impl View for SemanticItem {
    type V = SemanticItemView;

    open spec fn view(&self) -> SemanticItemView {
        SemanticItemView {
            name: self.name@,
            target: self.target@,
            checked: self.checked,
            status: self.status@,
            error: views::view_of(self.error),
        }
    }
}

/// What is on the screen, as the user understands it.
#[derive(Debug, PartialEq, Eq)]
pub struct SemanticState {
    pub view: Tab,
    pub search_root: PathBuf,
    pub items: Vec<SemanticItem>,
    pub focused: usize,
    pub hints: String,
    pub filter: String,
    pub filter_active: bool,
    pub empty_message: Option<String>,
    pub compact: bool,
    pub dialog: Option<String>,
    pub notice: Option<String>,
}

#[verifier::ext_equal]
pub struct SemanticStateView {
    pub view: Tab,
    pub search_root: Seq<u8>,
    pub items: Seq<SemanticItemView>,
    pub focused: usize,
    pub hints: Seq<char>,
    pub filter: Seq<char>,
    pub filter_active: bool,
    pub empty_message: Option<Seq<char>>,
    pub compact: bool,
    pub dialog: Option<Seq<char>>,
    pub notice: Option<Seq<char>>,
}

impl View for SemanticState {
    type V = SemanticStateView;

    open spec fn view(&self) -> SemanticStateView {
        SemanticStateView {
            view: self.view,
            search_root: self.search_root@,
            items: views::views(self.items@),
            focused: self.focused,
            hints: self.hints@,
            filter: self.filter@,
            filter_active: self.filter_active,
            empty_message: views::view_of(self.empty_message),
            compact: self.compact,
            dialog: views::view_of(self.dialog),
            notice: views::view_of(self.notice),
        }
    }
}

pub const FOOTER_HINTS: &'static str =
    " tab    space    / search    r rename    del remove    q quit";

/// A dialog in front of the list.
#[derive(Debug)]
pub enum Dialog {
    EditName { original: String, value: String },
    Rename { name: String, value: String },
    Error { text: String },
}

#[verifier::ext_equal]
pub enum DialogView {
    EditName { original: Seq<char>, value: Seq<char> },
    Rename { name: Seq<char>, value: Seq<char> },
    Error { text: Seq<char> },
}

impl View for Dialog {
    type V = DialogView;

    open spec fn view(&self) -> DialogView {
        match *self {
            Dialog::EditName { original, value } => DialogView::EditName {
                original: original@,
                value: value@,
            },
            Dialog::Rename { name, value } => DialogView::Rename { name: name@, value: value@ },
            Dialog::Error { text } => DialogView::Error { text: text@ },
        }
    }
}

impl DialogView {
    /// What the dialog shows.
    pub open spec fn shown(self) -> Seq<char> {
        match self {
            DialogView::EditName { original, value } => "Edit Command Name ("@ + original + ")\n"@
                + value,
            DialogView::Rename { value, .. } => "Command Name: "@ + value,
            DialogView::Error { text } => text,
        }
    }

    /// What stands above it.
    pub open spec fn title(self) -> Seq<char> {
        match self {
            DialogView::Rename { .. } => " Rename"@,
            _ => "Dialog"@,
        }
    }
}

/// What a dialog shows.
pub fn dialog_text(dialog: &Dialog) -> (r: String)
    ensures
        r@ == dialog@.shown(),
{
    match dialog {
        Dialog::EditName { original, value } => {
            let mut m = text::joined3("Edit Command Name (", original, ")\n");
            m.append(value);
            m
        },
        Dialog::Rename { value, .. } => text::joined("Command Name: ", value),
        Dialog::Error { text } => text.clone(),
    }
}

/// What stands above a dialog.
pub fn dialog_title(dialog: &Dialog) -> (r: &'static str)
    ensures
        r@ == dialog@.title(),
{
    match dialog {
        Dialog::Rename { .. } => " Rename",
        _ => "Dialog",
    }
}

/// An entry of a list.
#[derive(Debug)]
pub struct ListEntry {
    pub name: String,
    pub target: PathBuf,
    pub registration: Option<RegistrationState>,
    pub unavailable: bool,
}

#[verifier::ext_equal]
pub struct ListEntryView {
    pub name: Seq<char>,
    pub target: Seq<u8>,
    pub registration: Option<RegistrationStateView>,
    pub unavailable: bool,
}

impl View for ListEntry {
    type V = ListEntryView;

    open spec fn view(&self) -> ListEntryView {
        ListEntryView {
            name: self.name@,
            target: self.target@,
            registration: views::view_of(self.registration),
            unavailable: self.unavailable,
        }
    }
}

impl Clone for ListEntry {
    fn clone(&self) -> (r: Self)
        ensures
            r@ == self@,
    {
        ListEntry {
            name: self.name.clone(),
            target: self.target.clone(),
            registration: match &self.registration {
                Some(state) => Some(state.clone()),
                None => None,
            },
            unavailable: self.unavailable,
        }
    }
}

pub open spec fn candidate_entry(candidate: CandidateView, name: Seq<char>) -> ListEntryView {
    ListEntryView {
        name,
        target: candidate.target,
        registration: candidate.registration,
        unavailable: candidate.conflict is Some,
    }
}

pub open spec fn registration_entry(state: RegistrationStateView) -> ListEntryView {
    ListEntryView {
        name: state.registration.name,
        target: state.registration.target,
        registration: Some(state),
        unavailable: false,
    }
}

impl ListEntry {
    pub fn from_candidate(candidate: Candidate, name: String) -> (r: Self)
        ensures
            r@ == candidate_entry(candidate@, name@),
    {
        ListEntry {
            name,
            unavailable: candidate.conflict.is_some(),
            target: candidate.target,
            registration: candidate.registration,
        }
    }

    pub fn from_registration(state: RegistrationState) -> (r: Self)
        ensures
            r@ == registration_entry(state@),
    {
        ListEntry {
            name: state.registration.name.clone(),
            target: state.registration.target.clone(),
            registration: Some(state),
            unavailable: false,
        }
    }
}

/// A text that holds another, whatever the case of their letters.
pub open spec fn holds(s: Seq<char>, part: Seq<char>) -> bool {
    text::occurs(text::lowercase_text(s), text::lowercase_text(part))
}

/// An entry is shown under a filter that its name or its path holds.
#[verifier::opaque]
pub open spec fn shown_under(entry: ListEntryView, filter: Seq<char>) -> bool {
    filter.len() == 0 || holds(entry.name, filter) || holds(text::lossy_text(entry.target), filter)
}

pub fn entry_matches_filter(entry: &ListEntry, filter: &str) -> (r: bool)
    ensures
        r == shown_under(entry@, filter@),
{
    reveal(shown_under);
    if filter.is_empty() {
        return true;
    }
    let part = text::lowercase(filter);
    text::contains_text(&text::lowercase(&entry.name), &part) || text::contains_text(
        &text::lowercase(&entry.target.display()),
        &part,
    )
}

/// The entries that are shown under a filter, in order.
pub open spec fn visible(entries: Seq<ListEntryView>, filter: Seq<char>) -> Seq<ListEntryView>
    decreases entries.len(),
{
    if entries.len() == 0 {
        entries
    } else {
        let before = visible(entries.drop_last(), filter);
        if shown_under(entries.last(), filter) {
            before.push(entries.last())
        } else {
            before
        }
    }
}

/// A list, the entry in focus among those that are shown, and the first row on the screen.
#[derive(Debug)]
pub struct ItemList {
    pub entries: Vec<ListEntry>,
    pub focus: usize,
    pub offset: usize,
}

#[verifier::ext_equal]
pub struct ItemListView {
    pub entries: Seq<ListEntryView>,
    pub focus: usize,
    pub offset: usize,
}

impl View for ItemList {
    type V = ItemListView;

    open spec fn view(&self) -> ItemListView {
        ItemListView {
            entries: views::views(self.entries@),
            focus: self.focus,
            offset: self.offset,
        }
    }
}

/// A focus within a list of some length; without entries, the first place.
pub open spec fn clamped(focus: usize, len: nat) -> usize {
    if len == 0 {
        0
    } else if focus < len {
        focus
    } else {
        (len - 1) as usize
    }
}

pub fn clamp_focus(focus: usize, len: usize) -> (r: usize)
    ensures
        r == clamped(focus, len as nat),
{
    if len == 0 {
        0
    } else if focus < len {
        focus
    } else {
        len - 1
    }
}

impl ItemListView {
    pub open spec fn empty() -> Self {
        ItemListView { entries: Seq::empty(), focus: 0, offset: 0 }
    }

    /// The entry in focus, if one is shown there.
    pub open spec fn focused(self, filter: Seq<char>) -> Option<ListEntryView> {
        let shown = visible(self.entries, filter);
        if self.focus < shown.len() {
            Some(shown[self.focus as int])
        } else {
            None
        }
    }

    pub open spec fn clamp(self, filter: Seq<char>) -> Self {
        ItemListView { focus: clamped(self.focus, visible(self.entries, filter).len()), ..self }
    }

    pub open spec fn replace(self, entries: Seq<ListEntryView>, filter: Seq<char>) -> Self {
        (ItemListView { entries, ..self }).clamp(filter)
    }

    /// The focus one place on or back, around the ends.
    pub open spec fn move_focus(self, down: bool, filter: Seq<char>) -> Self {
        let n = visible(self.entries, filter).len();
        if n == 0 {
            self
        } else {
            let moved: int = if down {
                self.focus + 1
            } else {
                self.focus - 1
            };
            ItemListView { focus: (moved % (n as int)) as usize, ..self }
        }
    }
}

fn count_visible(entries: &Vec<ListEntry>, filter: &str) -> (r: usize)
    ensures
        r == visible(views::views(entries@), filter@).len(),
        r <= entries@.len(),
{
    let ghost all = views::views(entries@);
    let mut i: usize = 0;
    let mut n: usize = 0;
    assert(all.take(0).len() == 0);
    while i < entries.len()
        invariant
            i <= entries@.len(),
            n <= i,
            all == views::views(entries@),
            n == visible(all.take(i as int), filter@).len(),
        decreases entries.len() - i,
    {
        assert(all.take(i + 1).drop_last() =~= all.take(i as int));
        assert(all.take(i + 1).last() == entries@[i as int]@);
        if entry_matches_filter(&entries[i], filter) {
            n = n + 1;
        }
        i = i + 1;
    }
    assert(all.take(i as int) =~= all);
    n
}

/// The place in a list of the entry that is shown at `at`.
fn find_visible(entries: &Vec<ListEntry>, filter: &str, at: usize) -> (r: Option<usize>)
    ensures
        match r {
            Some(i) => {
                &&& i < entries@.len()
                &&& at < visible(views::views(entries@), filter@).len()
                &&& entries@[i as int]@ == visible(views::views(entries@), filter@)[at as int]
            },
            None => at >= visible(views::views(entries@), filter@).len(),
        },
{
    let ghost all = views::views(entries@);
    let mut i: usize = 0;
    let mut n: usize = 0;
    let mut found: Option<usize> = None;
    assert(all.take(0).len() == 0);
    while i < entries.len()
        invariant
            i <= entries@.len(),
            n <= i,
            all == views::views(entries@),
            n == visible(all.take(i as int), filter@).len(),
            match found {
                Some(k) => k < entries@.len() && at < n && entries@[k as int]@ == visible(
                    all.take(i as int),
                    filter@,
                )[at as int],
                None => at >= n,
            },
        decreases entries.len() - i,
    {
        assert(all.take(i + 1).drop_last() =~= all.take(i as int));
        assert(all.take(i + 1).last() == entries@[i as int]@);
        if entry_matches_filter(&entries[i], filter) {
            if n == at {
                found = Some(i);
            }
            n = n + 1;
        }
        i = i + 1;
    }
    assert(all.take(i as int) =~= all);
    found
}

impl ItemList {
    pub fn empty() -> (r: Self)
        ensures
            r@ == ItemListView::empty(),
    {
        let r = ItemList { entries: Vec::new(), focus: 0, offset: 0 };
        assert(r@.entries =~= Seq::empty());
        r
    }

    /// The entry in focus, if one is shown there.
    pub fn focused(&self, filter: &str) -> (r: Option<ListEntry>)
        ensures
            views::view_of(r) == self@.focused(filter@),
    {
        match find_visible(&self.entries, filter, self.focus) {
            Some(i) => Some(self.entries[i].clone()),
            None => None,
        }
    }

    /// How many entries are shown.
    pub fn visible_len(&self, filter: &str) -> (r: usize)
        ensures
            r == visible(self@.entries, filter@).len(),
            r <= self.entries@.len(),
    {
        count_visible(&self.entries, filter)
    }

    fn clamp(&mut self, filter: &str)
        ensures
            final(self)@ == old(self)@.clamp(filter@),
    {
        let len = self.visible_len(filter);
        self.focus = clamp_focus(self.focus, len);
    }

    fn replace(&mut self, entries: Vec<ListEntry>, filter: &str)
        ensures
            final(self)@ == old(self)@.replace(views::views(entries@), filter@),
    {
        self.entries = entries;
        self.clamp(filter);
    }

    fn move_focus(&mut self, down: bool, filter: &str)
        ensures
            final(self)@ == old(self)@.move_focus(down, filter@),
    {
        let len = self.visible_len(filter);
        if len > 0 {
            let n: u128 = len as u128;
            let start: u128 = if down {
                self.focus as u128 + 1
            } else {
                self.focus as u128 + n - 1
            };
            proof {
                let f = self.focus as int;
                if !down {
                    vstd::arithmetic::div_mod::lemma_mod_add_multiples_vanish(f - 1, n as int);
                }
            }
            self.focus = (start % n) as usize;
        }
    }
}

/// Messages under keys.
#[derive(Debug)]
pub struct Messages {
    entries: Vec<(String, String)>,
}

/// The last message under each key.
pub open spec fn messages_map(s: Seq<(String, String)>) -> Map<Seq<char>, Seq<char>>
    decreases s.len(),
{
    if s.len() == 0 {
        Map::empty()
    } else {
        messages_map(s.drop_last()).insert(s.last().0@, s.last().1@)
    }
}

impl View for Messages {
    type V = Map<Seq<char>, Seq<char>>;

    closed spec fn view(&self) -> Map<Seq<char>, Seq<char>> {
        messages_map(self.entries@)
    }
}

impl Messages {
    pub fn new() -> (r: Self)
        ensures
            r@ == Map::<Seq<char>, Seq<char>>::empty(),
    {
        Messages { entries: Vec::new() }
    }

    pub fn insert(&mut self, key: String, message: String)
        ensures
            final(self)@ == old(self)@.insert(key@, message@),
    {
        let ghost before = self.entries@;
        self.entries.push((key, message));
        assert(self.entries@.drop_last() =~= before);
    }

    pub fn get(&self, key: &str) -> (r: Option<String>)
        ensures
            r is Some <==> self@.contains_key(key@),
            r is Some ==> r->0@ == self@[key@],
    {
        let mut i: usize = self.entries.len();
        assert(self.entries@.take(i as int) =~= self.entries@);
        while i > 0
            invariant
                i <= self.entries@.len(),
                self@.contains_key(key@) == messages_map(
                    self.entries@.take(i as int),
                ).contains_key(key@),
                self@.contains_key(key@) ==> self@[key@] == messages_map(
                    self.entries@.take(i as int),
                )[key@],
            decreases i,
        {
            let ghost t = self.entries@.take(i as int);
            assert(t.drop_last() =~= self.entries@.take(i - 1));
            assert(t.last() == self.entries@[i - 1]);
            if text::same(&self.entries[i - 1].0, key) {
                return Some(self.entries[i - 1].1.clone());
            }
            i = i - 1;
        }
        None
    }
}

/// A rectangle of cells.
#[derive(Clone, Copy, Debug, PartialEq, Eq, Structural)]
pub struct Area {
    pub x: u16,
    pub y: u16,
    pub width: u16,
    pub height: u16,
}

/// The sum of two coordinates, at most the largest one there is.
pub open spec fn capped(a: int, b: int) -> int {
    if a + b > u16::MAX {
        u16::MAX as int
    } else {
        a + b
    }
}

impl Area {
    pub open spec fn none() -> Area {
        Area { x: 0, y: 0, width: 0, height: 0 }
    }

    pub open spec fn right_end(self) -> int {
        capped(self.x as int, self.width as int)
    }

    pub open spec fn bottom_end(self) -> int {
        capped(self.y as int, self.height as int)
    }

    /// The cell lies within the rectangle.
    pub open spec fn holds(self, column: u16, row: u16) -> bool {
        self.x <= column && column < self.right_end() && self.y <= row && row < self.bottom_end()
    }

    pub fn right(&self) -> (r: u16)
        ensures
            r == self.right_end(),
    {
        self.x.saturating_add(self.width)
    }

    pub fn bottom(&self) -> (r: u16)
        ensures
            r == self.bottom_end(),
    {
        self.y.saturating_add(self.height)
    }

    /// Whether a cell lies within the rectangle.
    pub fn contains(&self, column: u16, row: u16) -> (r: bool)
        ensures
            r == self.holds(column, row),
    {
        column >= self.x && column < self.right() && row >= self.y && row < self.bottom()
    }
}

/// Where the mouse meets the interface.
#[derive(Clone, Copy, Debug, PartialEq, Eq, Structural)]
pub struct MouseRegions {
    pub discover_tab: Area,
    pub registrations_tab: Area,
    pub search: Area,
    pub list: Area,
}

impl MouseRegions {
    pub open spec fn none() -> MouseRegions {
        MouseRegions {
            discover_tab: Area::none(),
            registrations_tab: Area::none(),
            search: Area::none(),
            list: Area::none(),
        }
    }

    fn nowhere() -> (r: MouseRegions)
        ensures
            r == MouseRegions::none(),
    {
        let area = Area { x: 0, y: 0, width: 0, height: 0 };
        MouseRegions {
            discover_tab: area,
            registrations_tab: area,
            search: area,
            list: area,
        }
    }
}

/// The last entry of a Target.
pub open spec fn entry_of_target(entries: Seq<ListEntryView>, target: Seq<u8>) -> Option<int>
    decreases entries.len(),
{
    if entries.len() == 0 {
        None
    } else if path::components(entries.last().target) == path::components(target) {
        Some(entries.len() - 1)
    } else {
        entry_of_target(entries.drop_last(), target)
    }
}

fn find_entry_of_target(entries: &Vec<ListEntry>, target: &PathBuf) -> (r: Option<usize>)
    ensures
        match r {
            Some(i) => i < entries@.len() && entry_of_target(views::views(entries@), target@)
                == Some(i as int),
            None => entry_of_target(views::views(entries@), target@) is None,
        },
{
    let ghost all = views::views(entries@);
    let mut i: usize = entries.len();
    assert(all.take(i as int) =~= all);
    while i > 0
        invariant
            i <= entries@.len(),
            all == views::views(entries@),
            entry_of_target(all, target@) == entry_of_target(all.take(i as int), target@),
        decreases i,
    {
        assert(all.take(i as int).drop_last() =~= all.take(i - 1));
        assert(all.take(i as int).last() == entries@[i - 1]@);
        if entries[i - 1].target.same(target) {
            return Some(i - 1);
        }
        i = i - 1;
    }
    None
}

/// The name that an unregistered entry of a Target has.
pub open spec fn edited_name(entries: Seq<ListEntryView>, target: Seq<u8>) -> Option<Seq<char>>
    decreases entries.len(),
{
    if entries.len() == 0 {
        None
    } else if entries.last().registration is None && path::components(entries.last().target)
        == path::components(target) {
        Some(entries.last().name)
    } else {
        edited_name(entries.drop_last(), target)
    }
}

fn find_edited_name(entries: &Vec<ListEntry>, target: &PathBuf) -> (r: Option<String>)
    ensures
        views::view_of(r) == edited_name(views::views(entries@), target@),
{
    let ghost all = views::views(entries@);
    let mut i: usize = entries.len();
    assert(all.take(i as int) =~= all);
    while i > 0
        invariant
            i <= entries@.len(),
            all == views::views(entries@),
            edited_name(all, target@) == edited_name(all.take(i as int), target@),
        decreases i,
    {
        assert(all.take(i as int).drop_last() =~= all.take(i - 1));
        assert(all.take(i as int).last() == entries@[i - 1]@);
        if entries[i - 1].registration.is_none() && entries[i - 1].target.same(target) {
            return Some(entries[i - 1].name.clone());
        }
        i = i - 1;
    }
    None
}

/// The last entry with a name.
pub open spec fn entry_named(entries: Seq<ListEntryView>, name: Seq<char>) -> Option<int>
    decreases entries.len(),
{
    if entries.len() == 0 {
        None
    } else if entries.last().name == name {
        Some(entries.len() - 1)
    } else {
        entry_named(entries.drop_last(), name)
    }
}

fn find_entry_named(entries: &Vec<ListEntry>, name: &str) -> (r: Option<usize>)
    ensures
        match r {
            Some(i) => i < entries@.len() && entry_named(views::views(entries@), name@) == Some(
                i as int,
            ),
            None => entry_named(views::views(entries@), name@) is None,
        },
{
    let ghost all = views::views(entries@);
    let mut i: usize = entries.len();
    assert(all.take(i as int) =~= all);
    while i > 0
        invariant
            i <= entries@.len(),
            all == views::views(entries@),
            entry_named(all, name@) == entry_named(all.take(i as int), name@),
        decreases i,
    {
        assert(all.take(i as int).drop_last() =~= all.take(i - 1));
        assert(all.take(i as int).last() == entries@[i - 1]@);
        if text::same(&entries[i - 1].name, name) {
            return Some(i - 1);
        }
        i = i - 1;
    }
    None
}

/// A candidate beside its place in the list before.
pub struct PlacedCandidate {
    pub place: Option<usize>,
    pub candidate: Candidate,
}

#[verifier::ext_equal]
pub struct PlacedCandidateView {
    pub place: Option<int>,
    pub candidate: CandidateView,
}

impl View for PlacedCandidate {
    type V = PlacedCandidateView;

    open spec fn view(&self) -> PlacedCandidateView {
        PlacedCandidateView {
            place: match self.place {
                Some(i) => Some(i as int),
                None => None,
            },
            candidate: self.candidate@,
        }
    }
}

/// Known candidates keep their places; new ones follow, unregistered ones first, by path.
pub open spec fn candidate_order() -> spec_fn(PlacedCandidateView, PlacedCandidateView) -> bool {
    |a: PlacedCandidateView, b: PlacedCandidateView|
        match (a.place, b.place) {
            (Some(i), Some(j)) => i < j,
            (Some(_), None) => true,
            (None, Some(_)) => false,
            (None, None) => if a.candidate.registration is Some
                == b.candidate.registration is Some {
                path::path_order()(
                    path::components(a.candidate.target),
                    path::components(b.candidate.target),
                )
            } else {
                a.candidate.registration is None
            },
        }
}

impl order::Ranked for PlacedCandidate {
    open spec fn ranks_before(self, other: Self) -> bool {
        candidate_order()(self@, other@)
    }

    fn before(&self, other: &Self) -> (r: bool) {
        match (self.place, other.place) {
            (Some(i), Some(j)) => i < j,
            (Some(_), None) => true,
            (None, Some(_)) => false,
            (None, None) => if self.candidate.registration.is_some()
                == other.candidate.registration.is_some() {
                self.candidate.target.less(&other.candidate.target)
            } else {
                self.candidate.registration.is_none()
            },
        }
    }
}

/// The candidates that a list shows: those without a Registration, and those that were registered
/// in this session.
pub open spec fn kept_candidates(candidates: Seq<CandidateView>, session: Seq<Seq<u8>>) -> Seq<
    CandidateView,
>
    decreases candidates.len(),
{
    if candidates.len() == 0 {
        candidates
    } else {
        let before = kept_candidates(candidates.drop_last(), session);
        let last = candidates.last();
        if last.registration is None || discovery_ignore::listed(session, last.target) {
            before.push(last)
        } else {
            before
        }
    }
}

pub open spec fn place_candidate(entries: Seq<ListEntryView>) -> spec_fn(
    CandidateView,
) -> PlacedCandidateView {
    |candidate: CandidateView|
        PlacedCandidateView { place: entry_of_target(entries, candidate.target), candidate }
}

/// The entry of a candidate: a name that was edited stays.
pub open spec fn enter_candidate(entries: Seq<ListEntryView>) -> spec_fn(
    PlacedCandidateView,
) -> ListEntryView {
    |placed: PlacedCandidateView|
        candidate_entry(
            placed.candidate,
            match edited_name(entries, placed.candidate.target) {
                Some(name) => name,
                None => match placed.candidate.registration {
                    Some(state) => state.registration.name,
                    None => placed.candidate.proposed_name,
                },
            },
        )
}

/// The entries that found candidates make of a list.
pub open spec fn discovered_entries(
    entries: Seq<ListEntryView>,
    candidates: Seq<CandidateView>,
    session: Seq<Seq<u8>>,
) -> Seq<ListEntryView> {
    order::stably_sorted(
        kept_candidates(candidates, session).map_values(place_candidate(entries)),
        candidate_order(),
    ).map_values(enter_candidate(entries))
}

fn discover_entries(
    entries: &Vec<ListEntry>,
    candidates: Vec<Candidate>,
    session: &Vec<PathBuf>,
) -> (r: Vec<ListEntry>)
    ensures
        views::views(r@) == discovered_entries(
            views::views(entries@),
            views::views(candidates@),
            views::views(session@),
        ),
{
    let ghost es = views::views(entries@);
    let ghost cs = views::views(candidates@);
    let ghost ss = views::views(session@);
    let ghost place = place_candidate(es);
    let ghost enter = enter_candidate(es);
    let mut placed: Vec<PlacedCandidate> = Vec::new();
    let mut i: usize = 0;
    assert(views::views(placed@) =~= kept_candidates(cs.take(0), ss).map_values(place));
    while i < candidates.len()
        invariant
            i <= candidates@.len(),
            es == views::views(entries@),
            cs == views::views(candidates@),
            ss == views::views(session@),
            place == place_candidate(es),
            views::views(placed@) == kept_candidates(cs.take(i as int), ss).map_values(place),
        decreases candidates.len() - i,
    {
        let ghost before = placed@;
        assert(cs.take(i + 1).drop_last() =~= cs.take(i as int));
        assert(cs.take(i + 1).last() == candidates@[i as int]@);
        if candidates[i].registration.is_none() || discovery_ignore::contains(
            session,
            &candidates[i].target,
        ) {
            let candidate = candidates[i].clone();
            let at = find_entry_of_target(entries, &candidate.target);
            let one = PlacedCandidate { place: at, candidate };
            placed.push(one);
            assert(views::views(placed@) =~= views::views(before).push(one@));
            assert(kept_candidates(cs.take(i + 1), ss).map_values(place)
                =~= kept_candidates(cs.take(i as int), ss).map_values(place).push(one@));
        }
        i = i + 1;
    }
    assert(cs.take(i as int) =~= cs);
    proof {
        views::views_of_sorted(placed@, candidate_order());
    }
    let sorted = order::stable_sort(placed);
    let ghost ordered = views::views(sorted@);
    let mut r: Vec<ListEntry> = Vec::new();
    let mut k: usize = 0;
    assert(views::views(r@) =~= ordered.take(0).map_values(enter));
    while k < sorted.len()
        invariant
            k <= sorted@.len(),
            es == views::views(entries@),
            enter == enter_candidate(es),
            ordered == views::views(sorted@),
            views::views(r@) == ordered.take(k as int).map_values(enter),
        decreases sorted.len() - k,
    {
        let ghost before = r@;
        let candidate = sorted[k].candidate.clone();
        let name = match find_edited_name(entries, &candidate.target) {
            Some(name) => name,
            None => match &candidate.registration {
                Some(state) => state.registration.name.clone(),
                None => candidate.proposed_name.clone(),
            },
        };
        let entry = ListEntry::from_candidate(candidate, name);
        r.push(entry);
        assert(views::views(r@) =~= views::views(before).push(entry@));
        assert(ordered.take(k + 1).map_values(enter) =~= ordered.take(k as int).map_values(
            enter,
        ).push(entry@));
        k = k + 1;
    }
    assert(ordered.take(k as int) =~= ordered);
    r
}

/// The entry of a Registration whose link is broken.
pub open spec fn broken_entry(entry: ListEntryView) -> bool {
    entry.registration matches Some(state) && state.defect matches Some(defect) && defect.kind
        == RegistrationDefectKind::LinkBroken
}

fn is_broken_entry(entry: &ListEntry) -> (r: bool)
    ensures
        r == broken_entry(entry@),
{
    match &entry.registration {
        Some(state) => match &state.defect {
            Some(defect) => defect.kind == RegistrationDefectKind::LinkBroken,
            None => false,
        },
        None => false,
    }
}

/// A state beside what it is sorted by.
pub struct PlacedState {
    pub kept: bool,
    pub root: String,
    pub state: RegistrationState,
}

#[verifier::ext_equal]
pub struct PlacedStateView {
    pub kept: bool,
    pub root: Seq<char>,
    pub state: RegistrationStateView,
}

impl View for PlacedState {
    type V = PlacedStateView;

    open spec fn view(&self) -> PlacedStateView {
        PlacedStateView { kept: self.kept, root: self.root@, state: self.state@ }
    }
}

impl PlacedStateView {
    /// The state stands among those that come first: it has a defect, or had one until now.
    pub open spec fn comes_first(self) -> bool {
        self.kept || self.state.defect is Some
    }
}

/// Defective states come first; then it goes by root and name.
pub open spec fn state_order() -> spec_fn(PlacedStateView, PlacedStateView) -> bool {
    |a: PlacedStateView, b: PlacedStateView|
        if a.comes_first() != b.comes_first() {
            a.comes_first()
        } else if a.root != b.root {
            text::text_order()(a.root, b.root)
        } else {
            text::text_order()(a.state.registration.name, b.state.registration.name)
        }
}

impl order::Ranked for PlacedState {
    open spec fn ranks_before(self, other: Self) -> bool {
        state_order()(self@, other@)
    }

    fn before(&self, other: &Self) -> (r: bool) {
        let first = self.kept || self.state.defect.is_some();
        let other_first = other.kept || other.state.defect.is_some();
        if first != other_first {
            first
        } else if !text::same(&self.root, &other.root) {
            text::less(&self.root, &other.root)
        } else {
            text::less(&self.state.registration.name, &other.state.registration.name)
        }
    }
}

/// What paths are sorted by: the display root that a shown path begins with, or all of it.
pub open spec fn root_key(shown: Seq<char>) -> Seq<char> {
    if shown.len() > 0 && shown[0] == '[' {
        match text::first_index(shown, 1, ']') {
            Some(i) => shown.take(i + 1),
            None => shown,
        }
    } else {
        shown
    }
}

fn registration_root_sort_key(shown: &str) -> (r: String)
    ensures
        r@ == root_key(shown@),
{
    let chars = text::chars_of(shown);
    if chars.len() == 0 || chars[0] != '[' {
        return shown.to_owned();
    }
    let mut i: usize = 1;
    while i < chars.len()
        invariant
            1 <= i <= chars@.len(),
            chars@ == shown@,
            shown@[0] == '[',
            text::first_index(shown@, 1, ']') == text::first_index(shown@, i as int, ']'),
        decreases chars.len() - i,
    {
        if chars[i] == ']' {
            let r = text::slice_of(&chars, 0, i + 1);
            assert(r@ =~= shown@.take(i + 1));
            return r;
        }
        i = i + 1;
    }
    shown.to_owned()
}

/// A warning as the interface shows it.
pub open spec fn warning_text(warning: SearchWarningView, shown_path: Seq<char>) -> Seq<char> {
    "warning["@ + warning.kind.identifier_text() + "]: "@ + shown_path + ": "@ + warning.message
}

/// The parts of a status line, each once, in order.
pub open spec fn without_repeats(parts: Seq<Seq<char>>) -> Seq<Seq<char>>
    decreases parts.len(),
{
    if parts.len() == 0 {
        parts
    } else {
        let before = without_repeats(parts.drop_last());
        if before.contains(parts.last()) {
            before
        } else {
            before.push(parts.last())
        }
    }
}

/// Notices in one line.
pub open spec fn combined(notices: Seq<Seq<char>>) -> Option<Seq<char>> {
    if notices.len() == 0 {
        None
    } else {
        Some(text::separated(without_repeats(notices), "; "@))
    }
}

/// The status of a Registration in a list: its defect, and what lies at its managed path where
/// that is worth saying.
pub open spec fn status_text(state: RegistrationStateView) -> Seq<char> {
    let odd = state.actual != ManagedPathKind::OwnedLink && state.actual
        != ManagedPathKind::Missing;
    match state.defect {
        Some(defect) => if odd {
            defect.kind.identifier_text() + " "@ + state.actual.identifier_text()
        } else {
            defect.kind.identifier_text()
        },
        None => if odd {
            state.actual.identifier_text()
        } else {
            Seq::empty()
        },
    }
}

fn registration_status(state: &RegistrationState) -> (r: String)
    ensures
        r@ == status_text(state@),
{
    let odd = state.actual != ManagedPathKind::OwnedLink && state.actual
        != ManagedPathKind::Missing;
    match &state.defect {
        Some(defect) => if odd {
            text::joined3(defect.kind.identifier(), " ", state.actual.identifier())
        } else {
            defect.kind.identifier().to_owned()
        },
        None => if odd {
            state.actual.identifier().to_owned()
        } else {
            String::new()
        },
    }
}

/// The state of the interface.
pub struct Controller {
    view: Tab,
    search_root: PathBuf,
    home: PathBuf,
    roots: Vec<DisplayRoot>,
    canonical: Vec<CanonicalPath>,
    discover: ItemList,
    registrations: ItemList,
    dialog: Option<Dialog>,
    pending: Option<Request>,
    mutation_active: bool,
    pending_add: Option<(PathBuf, String)>,
    active_add_target: Option<PathBuf>,
    session_registered_targets: Vec<PathBuf>,
    active_item_key: Option<String>,
    emitted_mutation: bool,
    exit: bool,
    size: (u16, u16),
    item_errors: Messages,
    notice: Option<String>,
    path_warning: Option<String>,
    discovery_warning: Option<String>,
    filter: String,
    filter_active: bool,
    mouse_regions: MouseRegions,
    kept: Option<String>,
}

/// The state of the interface, as a value.
#[verifier::ext_equal]
pub struct ControllerView {
    pub view: Tab,
    pub search_root: Seq<u8>,
    pub home: Seq<u8>,
    pub roots: Seq<DisplayRootView>,
    pub canonical: Seq<CanonicalPathView>,
    pub discover: ItemListView,
    pub registrations: ItemListView,
    pub dialog: Option<DialogView>,
    /// The request that waits to be taken.
    pub pending: Option<RequestView>,
    /// A mutation, or the check before one, has not reported yet.
    pub mutation_active: bool,
    /// The Target and name that are being checked.
    pub pending_add: Option<(Seq<u8>, Seq<char>)>,
    pub active_add_target: Option<Seq<u8>>,
    pub session_registered_targets: Seq<Seq<u8>>,
    /// The item that an error is attached to.
    pub active_item_key: Option<Seq<char>>,
    pub emitted_mutation: bool,
    pub exit: bool,
    pub size: (u16, u16),
    pub item_errors: Map<Seq<char>, Seq<char>>,
    pub notice: Option<Seq<char>>,
    pub path_warning: Option<Seq<char>>,
    pub discovery_warning: Option<Seq<char>>,
    pub filter: Seq<char>,
    pub filter_active: bool,
    pub mouse_regions: MouseRegions,
    /// The Registration that the next list keeps among those with a defect: its broken link was
    /// just taken away.
    pub kept: Option<Seq<char>>,
}

impl Controller {
    /// The state as a value.
    pub closed spec fn model(&self) -> ControllerView {
        ControllerView {
            view: self.view,
            search_root: self.search_root@,
            home: self.home@,
            roots: views::views(self.roots@),
            canonical: views::views(self.canonical@),
            discover: self.discover@,
            registrations: self.registrations@,
            dialog: views::view_of(self.dialog),
            pending: views::view_of(self.pending),
            mutation_active: self.mutation_active,
            pending_add: match self.pending_add {
                Some((target, name)) => Some((target@, name@)),
                None => None,
            },
            active_add_target: views::view_of(self.active_add_target),
            session_registered_targets: views::views(self.session_registered_targets@),
            active_item_key: views::view_of(self.active_item_key),
            emitted_mutation: self.emitted_mutation,
            exit: self.exit,
            size: self.size,
            item_errors: self.item_errors@,
            notice: views::view_of(self.notice),
            path_warning: views::view_of(self.path_warning),
            discovery_warning: views::view_of(self.discovery_warning),
            filter: self.filter@,
            filter_active: self.filter_active,
            mouse_regions: self.mouse_regions,
            kept: views::view_of(self.kept),
        }
    }
}

/// An error in one line.
pub open spec fn error_line(error: OperationErrorView) -> Seq<char> {
    error.identifier + ": "@ + error.message
}

impl ControllerView {
    /// The state that an interface begins in: it searches.
    pub open spec fn initial(
        search_root: Seq<u8>,
        home: Seq<u8>,
        roots: Seq<DisplayRootView>,
    ) -> Self {
        ControllerView {
            view: Tab::Discover,
            search_root,
            home,
            roots,
            canonical: Seq::empty(),
            discover: ItemListView::empty(),
            registrations: ItemListView::empty(),
            dialog: None,
            pending: Some(RequestView::Search(search_root)),
            mutation_active: false,
            pending_add: None,
            active_add_target: None,
            session_registered_targets: Seq::empty(),
            active_item_key: None,
            emitted_mutation: false,
            exit: false,
            size: (80, 24),
            item_errors: Map::empty(),
            notice: None,
            path_warning: None,
            discovery_warning: None,
            filter: Seq::empty(),
            filter_active: false,
            mouse_regions: MouseRegions::none(),
            kept: None,
        }
    }

    /// A path as the user reads it.
    pub open spec fn display(self, p: Seq<u8>) -> Seq<char> {
        model::displayed(p, model::canonical_for(self.canonical, p), self.home, self.roots)
    }

    /// What loads the list that is shown.
    pub open spec fn reload(self) -> RequestView {
        match self.view {
            Tab::Discover => RequestView::Search(self.search_root),
            Tab::Registrations => RequestView::List,
        }
    }

    pub open spec fn active(self) -> ItemListView {
        match self.view {
            Tab::Discover => self.discover,
            Tab::Registrations => self.registrations,
        }
    }

    pub open spec fn with_active(self, list: ItemListView) -> Self {
        match self.view {
            Tab::Discover => ControllerView { discover: list, ..self },
            Tab::Registrations => ControllerView { registrations: list, ..self },
        }
    }

    pub open spec fn focused(self) -> Option<ListEntryView> {
        self.active().focused(self.filter)
    }

    pub open spec fn focused_registration(self) -> Option<RegistrationStateView> {
        match self.focused() {
            Some(entry) => entry.registration,
            None => None,
        }
    }

    /// The search warnings in one line.
    pub open spec fn warnings_text(self, warnings: Seq<SearchWarningView>) -> Option<Seq<char>> {
        if warnings.len() == 0 {
            None
        } else {
            Some(text::separated(self.warning_lines(warnings), "; "@))
        }
    }

    pub open spec fn warning_lines(self, warnings: Seq<SearchWarningView>) -> Seq<Seq<char>> {
        Seq::new(
            warnings.len(),
            |i: int| warning_text(warnings[i], self.display(warnings[i].path)),
        )
    }

    pub open spec fn warn_of_path(self, diagnostic: PathDiagnosticView) -> Self {
        match cli::path_warning_text(diagnostic) {
            Some(warning) => ControllerView { path_warning: Some(warning), ..self },
            None => self,
        }
    }

    pub open spec fn drawn(self, regions: MouseRegions, offset: usize) -> Self {
        (ControllerView { mouse_regions: regions, ..self }).with_active(
            ItemListView { offset, ..self.active() },
        )
    }

    pub open spec fn searched(self, result: SearchResultView) -> Self {
        ControllerView {
            discovery_warning: self.warnings_text(result.warnings),
            search_root: result.search_root,
            discover: self.discover.replace(
                discovered_entries(
                    self.discover.entries,
                    result.candidates,
                    self.session_registered_targets,
                ),
                self.filter,
            ),
            ..self
        }
    }

    pub open spec fn place_state(self) -> spec_fn(RegistrationStateView) -> PlacedStateView {
        |state: RegistrationStateView|
            PlacedStateView {
                kept: self.kept == Some(state.registration.name),
                root: root_key(self.display(state.registration.target)),
                state,
            }
    }

    pub open spec fn listed_entries(self, states: Seq<RegistrationStateView>) -> Seq<
        ListEntryView,
    > {
        order::stably_sorted(
            states.map_values(self.place_state()),
            state_order(),
        ).map_values(|placed: PlacedStateView| registration_entry(placed.state))
    }

    pub open spec fn listed(self, result: ListResultView) -> Self {
        ControllerView {
            registrations: self.registrations.replace(
                self.listed_entries(result.registrations),
                self.filter,
            ),
            kept: None,
            ..self
        }
    }

    /// A check has passed: what was checked is added.
    pub open spec fn validated(self) -> Self {
        match self.pending_add {
            Some((target, name)) => ControllerView {
                pending_add: None,
                emitted_mutation: true,
                active_add_target: Some(target),
                pending: Some(RequestView::Add { target, name }),
                ..self
            },
            None => self,
        }
    }

    /// A check has not passed: nothing is added.
    pub open spec fn refused(self, error: OperationErrorView) -> Self {
        ControllerView {
            mutation_active: false,
            pending_add: None,
            active_add_target: None,
            active_item_key: None,
            item_errors: match self.active_item_key {
                Some(key) => self.item_errors.insert(key, error_line(error)),
                None => self.item_errors,
            },
            pending: Some(RequestView::Search(self.search_root)),
            ..self
        }
    }

    /// A mutation has reported: its outcome is shown, and the list is loaded again.
    pub open spec fn finish_mutation(self, outcome: Result<Seq<char>, OperationErrorView>) -> Self {
        let after = match outcome {
            Ok(identifier) => ControllerView {
                session_registered_targets: match self.active_add_target {
                    Some(target) => self.session_registered_targets.push(target),
                    None => self.session_registered_targets,
                },
                notice: Some(identifier),
                ..self
            },
            Err(error) => {
                let key = match (self.view, error.registration_name) {
                    (Tab::Registrations, Some(name)) => Some(name),
                    _ => self.active_item_key,
                };
                ControllerView {
                    item_errors: match key {
                        Some(key) => self.item_errors.insert(key, error_line(error)),
                        None => self.item_errors,
                    },
                    ..self
                }
            },
        };
        ControllerView {
            mutation_active: false,
            active_add_target: None,
            active_item_key: None,
            pending: Some(self.reload()),
            kept: None,
            ..after
        }
    }

    /// The Registration that a change has just disabled, where its link was broken in the list that
    /// is shown.
    pub open spec fn unlinked(self, result: LifecycleResultView) -> Option<Seq<char>> {
        match result.registration {
            Some(state) => if self.view == Tab::Registrations && result.identifier
                == "registration-disabled"@ && (entry_named(
                self.registrations.entries,
                state.registration.name,
            ) matches Some(at) && broken_entry(self.registrations.entries[at])) {
                Some(state.registration.name)
            } else {
                None
            },
            None => None,
        }
    }

    pub open spec fn load_failed(self, error: OperationErrorView) -> Self {
        ControllerView { dialog: Some(DialogView::Error { text: error_line(error) }), ..self }
    }

    /// What the outcome of a request leads to.
    pub open spec fn complete(self, result: OperationResultView) -> Self {
        match result {
            OperationResultView::Search(Ok(result)) => self.searched(result),
            OperationResultView::Search(Err(error)) => self.load_failed(error),
            OperationResultView::List(Ok(result)) => self.listed(result),
            OperationResultView::List(Err(error)) => self.load_failed(error),
            OperationResultView::Validation(Ok(result)) => if result.status
                == LifecycleStatus::Healthy {
                self.validated()
            } else {
                self.refused(
                    OperationErrorView {
                        identifier: result.identifier,
                        message: match result.conflict {
                            Some(conflict) => conflict,
                            None => "Registration is blocked"@,
                        },
                        registration_name: None,
                    },
                )
            },
            OperationResultView::Validation(Err(error)) => self.refused(error),
            OperationResultView::Mutation(Ok(result)) => ControllerView {
                kept: self.unlinked(result),
                ..self.finish_mutation(Ok(result.identifier))
            },
            OperationResultView::Mutation(Err(error)) => self.finish_mutation(Err(error)),
            OperationResultView::Ignore(outcome) => self.finish_mutation(outcome),
        }
    }

    pub open spec fn switch_to(self, view: Tab) -> Self {
        let switched = ControllerView { view, kept: None, ..self };
        ControllerView { pending: Some(switched.reload()), ..switched }
    }

    pub open spec fn move_focus(self, down: bool) -> Self {
        self.with_active(self.active().move_focus(down, self.filter))
    }

    pub open spec fn focus_first(self) -> Self {
        self.with_active(ItemListView { focus: 0, ..self.active() })
    }

    pub open spec fn clear_filter(self) -> Self {
        (ControllerView { filter: Seq::empty(), ..self }).focus_first()
    }

    /// What an error of a mutation is attached to, unless the list says otherwise.
    pub open spec fn mutation_key(request: RequestView) -> Option<Seq<char>> {
        match request {
            RequestView::Search(_) => None,
            RequestView::List => None,
            RequestView::ValidateAdd { target, .. } => Some(text::lossy_text(target)),
            RequestView::Add { target, .. } => Some(text::lossy_text(target)),
            RequestView::Remove(name) => Some(name),
            RequestView::Enable(name) => Some(name),
            RequestView::Disable(name) => Some(name),
            RequestView::Rename { name, .. } => Some(name),
            RequestView::Ignore(target) => Some(text::lossy_text(target)),
        }
    }

    pub open spec fn begin_mutation(self, request: RequestView) -> Self {
        ControllerView {
            mutation_active: true,
            active_item_key: Self::mutation_key(request),
            emitted_mutation: true,
            pending: Some(request),
            ..self
        }
    }

    pub open spec fn keyed(self, key: Seq<char>) -> Self {
        ControllerView { active_item_key: Some(key), ..self }
    }

    /// A checkbox: a candidate is added or removed, a Registration enabled or disabled.
    pub open spec fn toggle(self) -> Self {
        match (self.focused(), self.view) {
            (None, _) => self,
            (Some(entry), Tab::Discover) => match entry.registration {
                Some(state) => self.begin_mutation(
                    RequestView::Remove(state.registration.name),
                ).keyed(text::lossy_text(entry.target)),
                None => ControllerView {
                    mutation_active: true,
                    active_item_key: Some(text::lossy_text(entry.target)),
                    pending_add: Some((entry.target, entry.name)),
                    pending: Some(
                        RequestView::ValidateAdd { target: entry.target, name: entry.name },
                    ),
                    ..self
                },
            },
            (Some(entry), Tab::Registrations) => match entry.registration {
                Some(state) => self.begin_mutation(
                    if state.registration.enabled {
                        RequestView::Disable(state.registration.name)
                    } else {
                        RequestView::Enable(state.registration.name)
                    },
                ),
                None => self,
            },
        }
    }

    /// What an entry's errors are kept under.
    pub open spec fn error_key(self, entry: ListEntryView) -> Seq<char> {
        match self.view {
            Tab::Discover => text::lossy_text(entry.target),
            Tab::Registrations => entry.name,
        }
    }

    /// Deletion goes one step: an enabled Registration is disabled, a disabled one removed, and a
    /// candidate ignored.
    pub open spec fn delete(self) -> Self {
        match self.focused() {
            None => self,
            Some(entry) => match entry.registration {
                Some(state) => self.begin_mutation(
                    if state.registration.enabled {
                        RequestView::Disable(state.registration.name)
                    } else {
                        RequestView::Remove(state.registration.name)
                    },
                ).keyed(self.error_key(entry)),
                None => if self.view == Tab::Discover {
                    self.begin_mutation(RequestView::Ignore(entry.target)).keyed(
                        self.error_key(entry),
                    )
                } else {
                    self
                },
            },
        }
    }

    /// A rename opens a dialog: for a candidate at once, for a Registration while no mutation runs.
    pub open spec fn rename(self) -> Self {
        if self.view == Tab::Discover && self.focused_registration() is None {
            match self.focused() {
                Some(entry) => ControllerView {
                    dialog: Some(
                        DialogView::EditName { original: entry.name, value: entry.name },
                    ),
                    ..self
                },
                None => self,
            }
        } else if !self.mutation_active {
            match self.focused_registration() {
                Some(state) => ControllerView {
                    dialog: Some(
                        DialogView::Rename {
                            name: state.registration.name,
                            value: state.registration.name,
                        },
                    ),
                    ..self
                },
                None => self,
            }
        } else {
            self
        }
    }

    pub open spec fn dismiss(self) -> Self {
        if self.filter.len() > 0 {
            self.clear_filter()
        } else {
            ControllerView {
                item_errors: Map::empty(),
                notice: None,
                discovery_warning: None,
                ..self
            }
        }
    }

    /// A key in a list.
    pub open spec fn handle_list(self, event: EventView) -> Self {
        match event {
            EventView::Up => self.move_focus(false),
            EventView::Down => self.move_focus(true),
            EventView::SwitchView => self.switch_to(
                match self.view {
                    Tab::Discover => Tab::Registrations,
                    Tab::Registrations => Tab::Discover,
                },
            ),
            EventView::Toggle => if self.mutation_active {
                self
            } else {
                self.toggle()
            },
            EventView::Delete => if self.mutation_active {
                self
            } else {
                self.delete()
            },
            EventView::Rename => self.rename(),
            EventView::StartFilter => ControllerView { filter_active: true, ..self },
            EventView::Dismiss => self.dismiss(),
            EventView::ClearFilter => self.clear_filter(),
            EventView::Exit => ControllerView { exit: true, ..self },
            _ => self,
        }
    }

    /// A key in the search field.
    pub open spec fn handle_filter(self, event: EventView) -> Self {
        match event {
            EventView::Submit => ControllerView { filter_active: false, ..self },
            EventView::ClearFilter => ControllerView {
                filter_active: false,
                ..self.clear_filter()
            },
            EventView::Cancel => ControllerView { filter_active: false, ..self.clear_filter() },
            EventView::Dismiss => ControllerView { filter_active: false, ..self.clear_filter() },
            EventView::Text(typed) => (ControllerView {
                filter: self.filter + typed,
                ..self
            }).focus_first(),
            EventView::Backspace => (ControllerView {
                filter: if self.filter.len() > 0 {
                    self.filter.drop_last()
                } else {
                    self.filter
                },
                ..self
            }).focus_first(),
            EventView::Up => self.move_focus(false),
            EventView::Down => self.move_focus(true),
            _ => self,
        }
    }

    /// A candidate takes the name that was entered for it.
    pub open spec fn name_candidate(self, value: Seq<char>) -> Self {
        let named = match self.discover.focused(self.filter) {
            Some(entry) => match first_entry_of_target(self.discover.entries, entry.target) {
                Some(i) => ItemListView {
                    entries: self.discover.entries.update(
                        i,
                        ListEntryView { name: value, ..self.discover.entries[i] },
                    ),
                    ..self.discover
                },
                None => self.discover,
            },
            None => self.discover,
        };
        ControllerView { discover: named.clamp(self.filter), dialog: None, ..self }
    }

    /// A key in a dialog.
    pub open spec fn handle_dialog(self, dialog: DialogView, event: EventView) -> Self {
        match (dialog, event) {
            (_, EventView::Cancel) => ControllerView { dialog: None, ..self },
            (_, EventView::Dismiss) => ControllerView { dialog: None, ..self },
            (DialogView::EditName { original, value }, EventView::Text(typed)) => ControllerView {
                dialog: Some(DialogView::EditName { original, value: value + typed }),
                ..self
            },
            (DialogView::Rename { name, value }, EventView::Text(typed)) => ControllerView {
                dialog: Some(DialogView::Rename { name, value: value + typed }),
                ..self
            },
            (DialogView::EditName { original, value }, EventView::Backspace) => ControllerView {
                dialog: Some(DialogView::EditName { original, value: shortened(value) }),
                ..self
            },
            (DialogView::Rename { name, value }, EventView::Backspace) => ControllerView {
                dialog: Some(DialogView::Rename { name, value: shortened(value) }),
                ..self
            },
            (DialogView::EditName { value, .. }, EventView::Submit) => self.name_candidate(value),
            (DialogView::Rename { name, value }, EventView::Submit) => if self.mutation_active {
                self
            } else {
                ControllerView {
                    dialog: None,
                    ..self.begin_mutation(RequestView::Rename { name, new_name: value })
                }
            },
            (_, EventView::Exit) => ControllerView { exit: true, ..self },
            _ => self,
        }
    }

    /// A click in the list.
    pub open spec fn click_list(self, row: u16) -> Self {
        let clicked = ControllerView { filter_active: false, ..self };
        let list = clicked.active();
        let index = list.offset + (row - self.mouse_regions.list.y);
        if index < visible(list.entries, self.filter).len() {
            clicked.with_active(ItemListView { focus: index as usize, ..list })
        } else {
            clicked
        }
    }

    /// The wheel moves the list by three rows, and the focus stays on the screen.
    pub open spec fn scroll(self, down: bool) -> Self {
        let list = self.active();
        let len = visible(list.entries, self.filter).len() as int;
        let height = self.mouse_regions.list.height as int;
        if len == 0 {
            self
        } else {
            let wanted: int = if down {
                list.offset + 3
            } else if list.offset >= 3 {
                list.offset - 3
            } else {
                0
            };
            let lowest: int = if len > height {
                len - height
            } else {
                0
            };
            let offset: int = if wanted < lowest {
                wanted
            } else {
                lowest
            };
            let last: int = if offset + height - 1 < len - 1 {
                offset + height - 1
            } else {
                len - 1
            };
            let focus: int = if list.focus < offset {
                offset
            } else if list.focus > last {
                last
            } else {
                list.focus as int
            };
            self.with_active(
                ItemListView { focus: focus as usize, offset: offset as usize, ..list },
            )
        }
    }

    pub open spec fn click_tab(self, view: Tab) -> Self {
        let clicked = ControllerView { filter_active: false, ..self };
        if self.view == view {
            clicked
        } else {
            clicked.switch_to(view)
        }
    }

    /// What the mouse does.
    pub open spec fn handle_mouse(self, mouse: MouseEvent) -> Self {
        let regions = self.mouse_regions;
        let left = mouse.kind == MouseEventKind::Down(MouseButton::Left);
        if left && regions.discover_tab.holds(mouse.column, mouse.row) {
            self.click_tab(Tab::Discover)
        } else if left && regions.registrations_tab.holds(mouse.column, mouse.row) {
            self.click_tab(Tab::Registrations)
        } else if left && regions.search.holds(mouse.column, mouse.row) {
            ControllerView { filter_active: true, ..self }
        } else if !regions.list.holds(mouse.column, mouse.row) {
            self
        } else if left {
            self.click_list(mouse.row)
        } else if mouse.kind == MouseEventKind::ScrollUp {
            self.scroll(false)
        } else if mouse.kind == MouseEventKind::ScrollDown {
            self.scroll(true)
        } else {
            self
        }
    }

    /// What the user does: a dialog comes before the mouse, the mouse before the search field, and
    /// that before the list.
    pub open spec fn handle(self, event: EventView) -> Self {
        match (event, self.dialog) {
            (EventView::Resize(width, height), _) => ControllerView {
                size: (width, height),
                mouse_regions: MouseRegions::none(),
                ..self
            },
            (_, Some(dialog)) => self.handle_dialog(dialog, event),
            (EventView::Mouse(mouse), None) => self.handle_mouse(mouse),
            (_, None) => if self.filter_active {
                self.handle_filter(event)
            } else {
                self.handle_list(event)
            },
        }
    }

    /// An entry as the user understands it.
    pub open spec fn item(self, entry: ListEntryView) -> SemanticItemView {
        SemanticItemView {
            name: entry.name,
            target: entry.target,
            checked: match self.view {
                Tab::Discover => entry.registration is Some,
                Tab::Registrations => entry.registration matches Some(state)
                    && state.registration.enabled,
            },
            status: if entry.unavailable {
                "unavailable"@
            } else {
                match entry.registration {
                    Some(state) => status_text(state),
                    None => Seq::empty(),
                }
            },
            error: if self.item_errors.contains_key(self.error_key(entry)) {
                Some(self.item_errors[self.error_key(entry)])
            } else {
                None
            },
        }
    }

    pub open spec fn items(self) -> Seq<SemanticItemView> {
        let shown = visible(self.active().entries, self.filter);
        Seq::new(shown.len(), |i: int| self.item(shown[i]))
    }

    /// What stands in place of an empty list.
    pub open spec fn empty_text(self) -> Option<Seq<char>> {
        if visible(self.active().entries, self.filter).len() > 0 {
            None
        } else if self.filter.len() > 0 && self.active().entries.len() > 0 {
            Some("No matches for "@ + text::quoted_text(self.filter))
        } else {
            match self.view {
                Tab::Discover => Some("No executable candidates found"@),
                Tab::Registrations => Some("No Registrations"@),
            }
        }
    }

    pub open spec fn notices(self) -> Seq<Seq<char>> {
        optional(self.notice) + optional(self.path_warning) + optional(self.discovery_warning)
    }

    /// What is on a screen of some size.
    pub open spec fn semantic_state(self, width: u16, height: u16) -> SemanticStateView {
        SemanticStateView {
            view: self.view,
            search_root: self.search_root,
            items: self.items(),
            focused: self.active().focus,
            hints: FOOTER_HINTS@,
            filter: self.filter,
            filter_active: self.filter_active,
            empty_message: self.empty_text(),
            compact: width < 50 || height < 10,
            dialog: match self.dialog {
                Some(dialog) => Some(dialog.shown()),
                None => None,
            },
            notice: combined(self.notices()),
        }
    }
}

pub open spec fn optional(o: Option<Seq<char>>) -> Seq<Seq<char>> {
    match o {
        Some(s) => seq![s],
        None => Seq::empty(),
    }
}

/// A text without its last character.
pub open spec fn shortened(s: Seq<char>) -> Seq<char> {
    if s.len() > 0 {
        s.drop_last()
    } else {
        s
    }
}

/// The first entry of a Target.
pub open spec fn first_entry_of_target(
    entries: Seq<ListEntryView>,
    target: Seq<u8>,
) -> Option<int>
    decreases entries.len(),
{
    if entries.len() == 0 {
        None
    } else {
        match first_entry_of_target(entries.drop_last(), target) {
            Some(i) => Some(i),
            None => if path::components(entries.last().target) == path::components(target) {
                Some(entries.len() - 1)
            } else {
                None
            },
        }
    }
}

fn copied(o: &Option<String>) -> (r: Option<String>)
    ensures
        views::view_of(r) == views::view_of(*o),
{
    match o {
        Some(s) => Some(s.clone()),
        None => None,
    }
}

fn line_of(error: &OperationError) -> (r: String)
    ensures
        r@ == error_line(error@),
{
    text::joined3(&error.identifier, ": ", &error.message)
}

fn contains_part(parts: &Vec<String>, part: &str) -> (r: bool)
    ensures
        r == views::views(parts@).contains(part@),
{
    let ghost all = views::views(parts@);
    let mut i: usize = 0;
    while i < parts.len()
        invariant
            i <= parts@.len(),
            all == views::views(parts@),
            forall|k: int| 0 <= k < i ==> all[k] != part@,
        decreases parts.len() - i,
    {
        if text::same(&parts[i], part) {
            assert(all[i as int] == part@);
            return true;
        }
        i = i + 1;
    }
    false
}

/// Notices in one line, each once.
pub fn combined_notice(notices: &Vec<String>) -> (r: Option<String>)
    ensures
        views::view_of(r) == combined(views::views(notices@)),
{
    let ghost all = views::views(notices@);
    let mut parts: Vec<String> = Vec::new();
    let mut i: usize = 0;
    assert(views::views(parts@) =~= without_repeats(all.take(0)));
    while i < notices.len()
        invariant
            i <= notices@.len(),
            all == views::views(notices@),
            views::views(parts@) == without_repeats(all.take(i as int)),
        decreases notices.len() - i,
    {
        let ghost before = parts@;
        assert(all.take(i + 1).drop_last() =~= all.take(i as int));
        assert(all.take(i + 1).last() == notices@[i as int]@);
        if !contains_part(&parts, &notices[i]) {
            let part = notices[i].clone();
            parts.push(part);
            assert(views::views(parts@) =~= views::views(before).push(part@));
        }
        i = i + 1;
    }
    assert(all.take(i as int) =~= all);
    if notices.len() == 0 {
        None
    } else {
        Some(text::separate(&parts, "; "))
    }
}

/// The first entry of a Target.
fn find_first_entry_of_target(entries: &Vec<ListEntry>, target: &PathBuf) -> (r: Option<usize>)
    ensures
        match r {
            Some(i) => i < entries@.len() && first_entry_of_target(
                views::views(entries@),
                target@,
            ) == Some(i as int),
            None => first_entry_of_target(views::views(entries@), target@) is None,
        },
{
    let ghost all = views::views(entries@);
    let mut i: usize = 0;
    let mut found: Option<usize> = None;
    while i < entries.len()
        invariant
            i <= entries@.len(),
            all == views::views(entries@),
            match found {
                Some(k) => k < i && first_entry_of_target(all.take(i as int), target@) == Some(
                    k as int,
                ),
                None => first_entry_of_target(all.take(i as int), target@) is None,
            },
        decreases entries.len() - i,
    {
        assert(all.take(i + 1).drop_last() =~= all.take(i as int));
        assert(all.take(i + 1).last() == entries@[i as int]@);
        if found.is_none() && entries[i].target.same(target) {
            found = Some(i);
        }
        i = i + 1;
    }
    assert(all.take(i as int) =~= all);
    found
}

/// Where a search begins: at the root that was asked for, or else in the working directory.
pub fn initial_search_root(search_root: Option<PathBuf>, environment: &Environment) -> (r: PathBuf)
    ensures
        r@ == match search_root {
            Some(root) => root@,
            None => environment@.cwd,
        },
{
    match search_root {
        Some(root) => root,
        None => environment.cwd().clone(),
    }
}

impl Controller {
    /// An interface that searches below a root, without display roots.
    pub fn new(search_root: PathBuf) -> (r: Self)
        ensures
            r.model() == ControllerView::initial(search_root@, Seq::empty(), Seq::empty()),
    {
        let home = PathBuf::from_bytes(Vec::new());
        let roots: Vec<DisplayRoot> = Vec::new();
        assert(views::views(roots@) =~= Seq::empty());
        assert(home@ =~= Seq::empty());
        Self::with_roots(search_root, home, roots)
    }

    /// An interface that searches below a root, and shows paths below display roots.
    pub fn with_roots(search_root: PathBuf, home: PathBuf, roots: Vec<DisplayRoot>) -> (r: Self)
        ensures
            r.model() == ControllerView::initial(search_root@, home@, views::views(roots@)),
    {
        let pending = Some(Request::Search(search_root.clone()));
        let r = Controller {
            view: Tab::Discover,
            search_root,
            home,
            roots,
            canonical: Vec::new(),
            discover: ItemList::empty(),
            registrations: ItemList::empty(),
            dialog: None,
            pending,
            mutation_active: false,
            pending_add: None,
            active_add_target: None,
            session_registered_targets: Vec::new(),
            active_item_key: None,
            emitted_mutation: false,
            exit: false,
            size: (80, 24),
            item_errors: Messages::new(),
            notice: None,
            path_warning: None,
            discovery_warning: None,
            filter: String::new(),
            filter_active: false,
            mouse_regions: MouseRegions::nowhere(),
            kept: None,
        };
        assert(r.model() =~= ControllerView::initial(r.search_root@, r.home@, views::views(r.roots@)));
        r
    }

    /// The list that is shown.
    pub fn view(&self) -> (r: Tab)
        ensures
            r == self.model().view,
    {
        self.view
    }

    /// The interface is to be left.
    pub fn should_exit(&self) -> (r: bool)
        ensures
            r == self.model().exit,
    {
        self.exit
    }

    /// A change was asked for in this session.
    pub fn has_emitted_mutation(&self) -> (r: bool)
        ensures
            r == self.model().emitted_mutation,
    {
        self.emitted_mutation
    }

    /// A dialog stands in front of the list.
    pub fn dialog(&self) -> (r: &Option<Dialog>)
        ensures
            views::view_of(*r) == self.model().dialog,
    {
        &self.dialog
    }

    /// What is typed goes to the search field.
    pub fn filter_active(&self) -> (r: bool)
        ensures
            r == self.model().filter_active,
    {
        self.filter_active
    }

    /// The list that is shown, with its focus and the first row on the screen.
    pub fn active_list(&self) -> (r: &ItemList)
        ensures
            r@ == self.model().active(),
    {
        match self.view {
            Tab::Discover => &self.discover,
            Tab::Registrations => &self.registrations,
        }
    }

    /// The request that waits, which then no longer does.
    pub fn take_request(&mut self) -> (r: Option<Request>)
        ensures
            views::view_of(r) == old(self).model().pending,
            final(self).model() == (ControllerView { pending: None, ..old(self).model() }),
    {
        self.pending.take()
    }

    /// What paths resolve to, for the paths that are shown from now on.
    pub fn resolve(&mut self, canonical: Vec<CanonicalPath>)
        ensures
            final(self).model() == (ControllerView {
                canonical: views::views(canonical@),
                ..old(self).model()
            }),
    {
        self.canonical = canonical;
    }

    /// What `PATH` lacks is shown until the end.
    pub fn warn_of_path(&mut self, diagnostic: &PathDiagnostic)
        ensures
            final(self).model() == old(self).model().warn_of_path(diagnostic@),
    {
        if let Some(warning) = cli::path_warning(diagnostic) {
            self.path_warning = Some(warning);
        }
    }

    /// The screen was drawn: where the mouse meets it, and the first row of the list on it.
    pub fn drawn(&mut self, regions: MouseRegions, offset: usize)
        ensures
            final(self).model() == old(self).model().drawn(regions, offset),
    {
        self.mouse_regions = regions;
        match self.view {
            Tab::Discover => {
                self.discover.offset = offset;
            },
            Tab::Registrations => {
                self.registrations.offset = offset;
            },
        }
    }

    /// A path as the user reads it.
    pub fn display_path(&self, path: &PathBuf) -> (r: String)
        ensures
            r@ == self.model().display(path@),
    {
        let canonical = model::find_canonical(&self.canonical, path);
        model::display_path_with_roots(path, &canonical, &self.home, &self.roots)
    }

    fn format_search_warnings(&self, warnings: &Vec<SearchWarning>) -> (r: Option<String>)
        ensures
            views::view_of(r) == self.model().warnings_text(views::views(warnings@)),
    {
        if warnings.len() == 0 {
            return None;
        }
        let ghost all = views::views(warnings@);
        let ghost shown = self.model().warning_lines(all);
        let mut parts: Vec<String> = Vec::new();
        let mut i: usize = 0;
        assert(views::views(parts@) =~= shown.take(0));
        while i < warnings.len()
            invariant
                i <= warnings@.len(),
                all == views::views(warnings@),
                shown == self.model().warning_lines(all),
                views::views(parts@) == shown.take(i as int),
            decreases warnings.len() - i,
        {
            let ghost before = parts@;
            let mut m = text::joined3("warning[", warnings[i].kind.identifier(), "]: ");
            m.append(&self.display_path(&warnings[i].path));
            m.append(": ");
            m.append(&warnings[i].message);
            assert(m@ == shown[i as int]);
            parts.push(m);
            assert(views::views(parts@) =~= views::views(before).push(m@));
            assert(shown.take(i + 1) =~= shown.take(i as int).push(m@));
            i = i + 1;
        }
        assert(shown.take(i as int) =~= shown);
        Some(text::separate(&parts, "; "))
    }

    fn reload_request(&self) -> (r: Request)
        ensures
            r@ == self.model().reload(),
    {
        match self.view {
            Tab::Discover => Request::Search(self.search_root.clone()),
            Tab::Registrations => Request::List,
        }
    }

    /// The entry in focus.
    pub fn focused(&self) -> (r: Option<ListEntry>)
        ensures
            views::view_of(r) == self.model().focused(),
    {
        self.active_list().focused(&self.filter)
    }

    fn focused_registration(&self) -> (r: Option<RegistrationState>)
        ensures
            views::view_of(r) == self.model().focused_registration(),
    {
        match self.focused() {
            Some(entry) => entry.registration,
            None => None,
        }
    }

    fn list_entries(&self, states: Vec<RegistrationState>) -> (r: Vec<ListEntry>)
        ensures
            views::views(r@) == self.model().listed_entries(views::views(states@)),
    {
        let ghost ss = views::views(states@);
        let ghost place = self.model().place_state();
        let ghost enter = |placed: PlacedStateView| registration_entry(placed.state);
        let mut placed: Vec<PlacedState> = Vec::new();
        let mut i: usize = 0;
        assert(views::views(placed@) =~= ss.take(0).map_values(place));
        while i < states.len()
            invariant
                i <= states@.len(),
                ss == views::views(states@),
                place == self.model().place_state(),
                views::views(placed@) == ss.take(i as int).map_values(place),
            decreases states.len() - i,
        {
            let ghost before = placed@;
            let state = states[i].clone();
            let kept = match &self.kept {
                Some(name) => text::same(name, &state.registration.name),
                None => false,
            };
            let root = registration_root_sort_key(&self.display_path(&state.registration.target));
            let one = PlacedState { kept, root, state };
            placed.push(one);
            assert(one@ == place(states@[i as int]@));
            assert(views::views(placed@) =~= views::views(before).push(one@));
            assert(ss.take(i + 1).map_values(place) =~= ss.take(i as int).map_values(place).push(
                one@,
            ));
            i = i + 1;
        }
        assert(ss.take(i as int) =~= ss);
        proof {
            views::views_of_sorted(placed@, state_order());
        }
        let sorted = order::stable_sort(placed);
        let ghost ordered = views::views(sorted@);
        let mut r: Vec<ListEntry> = Vec::new();
        let mut k: usize = 0;
        assert(views::views(r@) =~= ordered.take(0).map_values(enter));
        while k < sorted.len()
            invariant
                k <= sorted@.len(),
                enter == (|placed: PlacedStateView| registration_entry(placed.state)),
                ordered == views::views(sorted@),
                views::views(r@) == ordered.take(k as int).map_values(enter),
            decreases sorted.len() - k,
        {
            let ghost before = r@;
            let entry = ListEntry::from_registration(sorted[k].state.clone());
            r.push(entry);
            assert(views::views(r@) =~= views::views(before).push(entry@));
            assert(ordered.take(k + 1).map_values(enter) =~= ordered.take(k as int).map_values(
                enter,
            ).push(entry@));
            k = k + 1;
        }
        assert(ordered.take(k as int) =~= ordered);
        r
    }

    /// Takes in the outcome of a request.
    pub fn complete(&mut self, result: OperationResult)
        ensures
            final(self).model() == old(self).model().complete(result@),
    {
        match result {
            OperationResult::Search(Ok(result)) => {
                let warning = self.format_search_warnings(&result.warnings);
                self.discovery_warning = warning;
                self.search_root = result.search_root;
                let entries = discover_entries(
                    &self.discover.entries,
                    result.candidates,
                    &self.session_registered_targets,
                );
                self.discover.replace(entries, &self.filter);
            },
            OperationResult::Search(Err(error)) => {
                self.dialog = Some(Dialog::Error { text: line_of(&error) });
            },
            OperationResult::List(Ok(result)) => {
                let entries = self.list_entries(result.registrations);
                self.registrations.replace(entries, &self.filter);
                self.kept = None;
            },
            OperationResult::List(Err(error)) => {
                self.dialog = Some(Dialog::Error { text: line_of(&error) });
            },
            OperationResult::Validation(Ok(result)) => {
                if result.status == LifecycleStatus::Healthy {
                    if let Some((target, name)) = self.pending_add.take() {
                        self.emitted_mutation = true;
                        self.active_add_target = Some(target.clone());
                        self.pending = Some(Request::Add { target, name });
                    }
                } else {
                    let message = match result.conflict {
                        Some(conflict) => conflict,
                        None => "Registration is blocked".to_owned(),
                    };
                    self.refuse(
                        OperationError {
                            identifier: result.identifier,
                            message,
                            registration_name: None,
                        },
                    );
                }
            },
            OperationResult::Validation(Err(error)) => {
                self.refuse(error);
            },
            OperationResult::Mutation(Ok(result)) => {
                let kept = self.find_unlinked(&result);
                self.finish_mutation(Ok(result.identifier));
                self.kept = kept;
            },
            OperationResult::Mutation(Err(error)) => {
                self.finish_mutation(Err(error));
            },
            OperationResult::Ignore(outcome) => {
                self.finish_mutation(outcome);
            },
        }
    }

    fn find_unlinked(&self, result: &LifecycleResult) -> (r: Option<String>)
        ensures
            views::view_of(r) == self.model().unlinked(result@),
    {
        if let Some(state) = &result.registration {
            let name = &state.registration.name;
            if self.view == Tab::Registrations && text::same(
                &result.identifier,
                "registration-disabled",
            ) {
                if let Some(at) = find_entry_named(&self.registrations.entries, name) {
                    if is_broken_entry(&self.registrations.entries[at]) {
                        return Some(name.clone());
                    }
                }
            }
        }
        None
    }

    fn refuse(&mut self, error: OperationError)
        ensures
            final(self).model() == old(self).model().refused(error@),
    {
        self.mutation_active = false;
        self.pending_add = None;
        self.active_add_target = None;
        if let Some(key) = self.active_item_key.take() {
            self.item_errors.insert(key, line_of(&error));
        }
        self.pending = Some(Request::Search(self.search_root.clone()));
    }

    fn finish_mutation(&mut self, outcome: Result<String, OperationError>)
        ensures
            final(self).model() == old(self).model().finish_mutation(result_view(outcome)),
    {
        self.mutation_active = false;
        match outcome {
            Ok(identifier) => {
                let ghost before = self.session_registered_targets@;
                if let Some(target) = self.active_add_target.take() {
                    self.session_registered_targets.push(target);
                    assert(views::views(self.session_registered_targets@) =~= views::views(
                        before,
                    ).push(target@));
                }
                self.notice = Some(identifier);
            },
            Err(error) => {
                self.active_add_target = None;
                let line = line_of(&error);
                let key = match (self.view, error.registration_name) {
                    (Tab::Registrations, Some(name)) => Some(name),
                    (_, _) => copied(&self.active_item_key),
                };
                if let Some(key) = key {
                    self.item_errors.insert(key, line);
                }
            },
        }
        self.active_item_key = None;
        self.pending = Some(self.reload_request());
        self.kept = None;
    }

    fn switch_to(&mut self, view: Tab)
        ensures
            final(self).model() == old(self).model().switch_to(view),
    {
        self.view = view;
        self.kept = None;
        self.pending = Some(self.reload_request());
    }

    fn move_focus(&mut self, down: bool)
        ensures
            final(self).model() == old(self).model().move_focus(down),
    {
        match self.view {
            Tab::Discover => {
                self.discover.move_focus(down, &self.filter);
            },
            Tab::Registrations => {
                self.registrations.move_focus(down, &self.filter);
            },
        }
    }

    fn set_focus(&mut self, focus: usize)
        ensures
            final(self).model() == old(self).model().with_active(
                ItemListView { focus, ..old(self).model().active() },
            ),
    {
        match self.view {
            Tab::Discover => {
                self.discover.focus = focus;
            },
            Tab::Registrations => {
                self.registrations.focus = focus;
            },
        }
    }

    fn clear_filter(&mut self)
        ensures
            final(self).model() == old(self).model().clear_filter(),
    {
        self.filter = String::new();
        assert(self.filter@ =~= Seq::empty());
        self.set_focus(0);
    }

    fn begin_mutation(&mut self, request: Request)
        ensures
            final(self).model() == old(self).model().begin_mutation(request@),
    {
        self.mutation_active = true;
        self.active_item_key = match &request {
            Request::Search(_) => None,
            Request::List => None,
            Request::ValidateAdd { target, .. } => Some(target.display()),
            Request::Add { target, .. } => Some(target.display()),
            Request::Remove(name) => Some(name.clone()),
            Request::Enable(name) => Some(name.clone()),
            Request::Disable(name) => Some(name.clone()),
            Request::Rename { name, .. } => Some(name.clone()),
            Request::Ignore(target) => Some(target.display()),
        };
        self.emitted_mutation = true;
        self.pending = Some(request);
    }

    fn toggle(&mut self)
        ensures
            final(self).model() == old(self).model().toggle(),
    {
        if let Some(entry) = self.focused() {
            match self.view {
                Tab::Discover => match entry.registration {
                    Some(state) => {
                        self.begin_mutation(Request::Remove(state.registration.name));
                        self.active_item_key = Some(entry.target.display());
                    },
                    None => {
                        self.mutation_active = true;
                        self.active_item_key = Some(entry.target.display());
                        self.pending_add = Some((entry.target.clone(), entry.name.clone()));
                        self.pending = Some(
                            Request::ValidateAdd { target: entry.target, name: entry.name },
                        );
                    },
                },
                Tab::Registrations => {
                    if let Some(state) = entry.registration {
                        if state.registration.enabled {
                            self.begin_mutation(Request::Disable(state.registration.name));
                        } else {
                            self.begin_mutation(Request::Enable(state.registration.name));
                        }
                    }
                },
            }
        }
    }

    fn delete(&mut self)
        ensures
            final(self).model() == old(self).model().delete(),
    {
        if let Some(entry) = self.focused() {
            let error_key = match self.view {
                Tab::Discover => entry.target.display(),
                Tab::Registrations => entry.name,
            };
            match entry.registration {
                Some(state) => {
                    if state.registration.enabled {
                        self.begin_mutation(Request::Disable(state.registration.name));
                    } else {
                        self.begin_mutation(Request::Remove(state.registration.name));
                    }
                    self.active_item_key = Some(error_key);
                },
                None => {
                    if self.view == Tab::Discover {
                        self.begin_mutation(Request::Ignore(entry.target));
                        self.active_item_key = Some(error_key);
                    }
                },
            }
        }
    }

    fn rename(&mut self)
        ensures
            final(self).model() == old(self).model().rename(),
    {
        let registration = self.focused_registration();
        if self.view == Tab::Discover && registration.is_none() {
            if let Some(entry) = self.focused() {
                self.dialog = Some(
                    Dialog::EditName { original: entry.name.clone(), value: entry.name },
                );
            }
        } else if !self.mutation_active {
            if let Some(state) = registration {
                self.dialog = Some(
                    Dialog::Rename {
                        name: state.registration.name.clone(),
                        value: state.registration.name,
                    },
                );
            }
        }
    }

    /// Does what an event asks for.
    pub fn handle(&mut self, event: Event)
        ensures
            final(self).model() == old(self).model().handle(event@),
    {
        if let Event::Resize(width, height) = event {
            self.size = (width, height);
            self.mouse_regions = MouseRegions::nowhere();
            return;
        }
        if let Some(dialog) = self.dialog.take() {
            self.handle_dialog(dialog, event);
            return;
        }
        if let Event::Mouse(mouse) = event {
            self.handle_mouse(mouse);
            return;
        }
        if self.filter_active {
            self.handle_filter(event);
        } else {
            self.handle_list(event);
        }
    }

    fn handle_list(&mut self, event: Event)
        ensures
            final(self).model() == old(self).model().handle_list(event@),
    {
        match event {
            Event::Up => self.move_focus(false),
            Event::Down => self.move_focus(true),
            Event::SwitchView => {
                let view = match self.view {
                    Tab::Discover => Tab::Registrations,
                    Tab::Registrations => Tab::Discover,
                };
                self.switch_to(view);
            },
            Event::Toggle => {
                if !self.mutation_active {
                    self.toggle();
                }
            },
            Event::Delete => {
                if !self.mutation_active {
                    self.delete();
                }
            },
            Event::Rename => self.rename(),
            Event::StartFilter => {
                self.filter_active = true;
            },
            Event::Dismiss => {
                if self.filter.as_str().is_empty() {
                    self.item_errors = Messages::new();
                    self.notice = None;
                    self.discovery_warning = None;
                } else {
                    self.clear_filter();
                }
            },
            Event::ClearFilter => self.clear_filter(),
            Event::Exit => {
                self.exit = true;
            },
            _ => {},
        }
    }

    fn handle_filter(&mut self, event: Event)
        ensures
            final(self).model() == old(self).model().handle_filter(event@),
    {
        match event {
            Event::Submit => {
                self.filter_active = false;
            },
            Event::ClearFilter | Event::Cancel | Event::Dismiss => {
                self.clear_filter();
                self.filter_active = false;
            },
            Event::Text(typed) => {
                self.filter.append(&typed);
                self.set_focus(0);
            },
            Event::Backspace => {
                let _ = self.filter.pop();
                self.set_focus(0);
            },
            Event::Up => self.move_focus(false),
            Event::Down => self.move_focus(true),
            _ => {},
        }
    }

    fn handle_dialog(&mut self, dialog: Dialog, event: Event)
        requires
            old(self).model().dialog is None,
        ensures
            final(self).model() == (ControllerView {
                dialog: Some(dialog@),
                ..old(self).model()
            }).handle_dialog(dialog@, event@),
    {
        match (dialog, event) {
            (_, Event::Cancel) => {},
            (_, Event::Dismiss) => {},
            (Dialog::EditName { original, value }, Event::Text(typed)) => {
                let mut value = value;
                value.append(&typed);
                self.dialog = Some(Dialog::EditName { original, value });
            },
            (Dialog::Rename { name, value }, Event::Text(typed)) => {
                let mut value = value;
                value.append(&typed);
                self.dialog = Some(Dialog::Rename { name, value });
            },
            (Dialog::EditName { original, value }, Event::Backspace) => {
                let mut value = value;
                let _ = value.pop();
                self.dialog = Some(Dialog::EditName { original, value });
            },
            (Dialog::Rename { name, value }, Event::Backspace) => {
                let mut value = value;
                let _ = value.pop();
                self.dialog = Some(Dialog::Rename { name, value });
            },
            (Dialog::EditName { value, .. }, Event::Submit) => {
                self.name_candidate(value);
            },
            (Dialog::Rename { name, value }, Event::Submit) => {
                if self.mutation_active {
                    self.dialog = Some(Dialog::Rename { name, value });
                } else {
                    self.begin_mutation(Request::Rename { name, new_name: value });
                }
            },
            (dialog, Event::Exit) => {
                self.dialog = Some(dialog);
                self.exit = true;
            },
            (dialog, _) => {
                self.dialog = Some(dialog);
            },
        }
    }

    fn name_candidate(&mut self, value: String)
        ensures
            final(self).model() == old(self).model().name_candidate(value@),
    {
        if let Some(entry) = self.discover.focused(&self.filter) {
            if let Some(i) = find_first_entry_of_target(&self.discover.entries, &entry.target) {
                let ghost before = self.discover.entries@;
                let mut named = self.discover.entries[i].clone();
                named.name = value;
                self.discover.entries.set(i, named);
                assert(views::views(self.discover.entries@) =~= views::views(before).update(
                    i as int,
                    named@,
                ));
            }
        }
        self.discover.clamp(&self.filter);
        self.dialog = None;
    }

    fn handle_mouse(&mut self, mouse: MouseEvent)
        ensures
            final(self).model() == old(self).model().handle_mouse(mouse),
    {
        if mouse.kind == MouseEventKind::Down(MouseButton::Left) {
            if self.mouse_regions.discover_tab.contains(mouse.column, mouse.row) {
                self.click_tab(Tab::Discover);
                return;
            }
            if self.mouse_regions.registrations_tab.contains(mouse.column, mouse.row) {
                self.click_tab(Tab::Registrations);
                return;
            }
            if self.mouse_regions.search.contains(mouse.column, mouse.row) {
                self.filter_active = true;
                return;
            }
        }
        if !self.mouse_regions.list.contains(mouse.column, mouse.row) {
            return;
        }
        match mouse.kind {
            MouseEventKind::Down(MouseButton::Left) => self.click_list(mouse.row),
            MouseEventKind::ScrollUp => self.scroll(false),
            MouseEventKind::ScrollDown => self.scroll(true),
            _ => {},
        }
    }

    fn click_tab(&mut self, view: Tab)
        ensures
            final(self).model() == old(self).model().click_tab(view),
    {
        self.filter_active = false;
        if self.view != view {
            self.switch_to(view);
        }
    }

    fn click_list(&mut self, row: u16)
        requires
            old(self).model().mouse_regions.list.y <= row,
        ensures
            final(self).model() == old(self).model().click_list(row),
    {
        self.filter_active = false;
        let len = self.active_list().visible_len(&self.filter);
        let offset = self.active_list().offset;
        let below = (row - self.mouse_regions.list.y) as usize;
        if offset < len && below < len - offset {
            self.set_focus(offset + below);
        }
    }

    fn scroll(&mut self, down: bool)
        requires
            old(self).model().mouse_regions.list.height > 0,
        ensures
            final(self).model() == old(self).model().scroll(down),
    {
        let len = self.active_list().visible_len(&self.filter);
        if len == 0 {
            return;
        }
        let height = self.mouse_regions.list.height as usize;
        let offset = self.active_list().offset;
        let focus = self.active_list().focus;
        let lowest: usize = if len > height {
            len - height
        } else {
            0
        };
        let wanted: usize = if down {
            offset.saturating_add(3)
        } else {
            offset.saturating_sub(3)
        };
        let offset: usize = if wanted < lowest {
            wanted
        } else {
            lowest
        };
        let last: usize = if height - 1 < len - 1 - offset {
            offset + (height - 1)
        } else {
            len - 1
        };
        let focus: usize = if focus < offset {
            offset
        } else if focus > last {
            last
        } else {
            focus
        };
        match self.view {
            Tab::Discover => {
                self.discover.focus = focus;
                self.discover.offset = offset;
            },
            Tab::Registrations => {
                self.registrations.focus = focus;
                self.registrations.offset = offset;
            },
        }
    }

    /// An entry as the user understands it.
    pub(crate) fn item(&self, entry: &ListEntry) -> (r: SemanticItem)
        ensures
            r@ == self.model().item(entry@),
    {
        let error_key = match self.view {
            Tab::Discover => entry.target.display(),
            Tab::Registrations => entry.name.clone(),
        };
        SemanticItem {
            name: entry.name.clone(),
            target: entry.target.clone(),
            checked: match &entry.registration {
                Some(state) => match self.view {
                    Tab::Discover => true,
                    Tab::Registrations => state.registration.enabled,
                },
                None => false,
            },
            status: if entry.unavailable {
                "unavailable".to_owned()
            } else {
                match &entry.registration {
                    Some(state) => registration_status(state),
                    None => String::new(),
                }
            },
            error: self.item_errors.get(&error_key),
        }
    }

    /// The entries that are shown.
    pub(crate) fn shown(&self) -> (r: Vec<ListEntry>)
        ensures
            views::views(r@) == visible(self.model().active().entries, self.model().filter),
    {
        let entries = &self.active_list().entries;
        let ghost all = views::views(entries@);
        let ghost filter = self.filter@;
        let mut r: Vec<ListEntry> = Vec::new();
        let mut i: usize = 0;
        assert(views::views(r@) =~= visible(all.take(0), filter));
        while i < entries.len()
            invariant
                i <= entries@.len(),
                all == views::views(entries@),
                filter == self.filter@,
                views::views(r@) == visible(all.take(i as int), filter),
            decreases entries.len() - i,
        {
            let ghost before = r@;
            assert(all.take(i + 1).drop_last() =~= all.take(i as int));
            assert(all.take(i + 1).last() == entries@[i as int]@);
            if entry_matches_filter(&entries[i], &self.filter) {
                let entry = entries[i].clone();
                r.push(entry);
                assert(views::views(r@) =~= views::views(before).push(entry@));
            }
            i = i + 1;
        }
        assert(all.take(i as int) =~= all);
        r
    }

    fn items(&self) -> (r: Vec<SemanticItem>)
        ensures
            views::views(r@) == self.model().items(),
    {
        let entries = &self.active_list().entries;
        let ghost all = views::views(entries@);
        let ghost state = self.model();
        let ghost filter = self.filter@;
        let mut r: Vec<SemanticItem> = Vec::new();
        let mut i: usize = 0;
        assert(all.take(0).len() == 0);
        while i < entries.len()
            invariant
                i <= entries@.len(),
                all == views::views(entries@),
                state == self.model(),
                filter == self.filter@,
                r@.len() == visible(all.take(i as int), filter).len(),
                forall|k: int|
                    0 <= k < r@.len() ==> (#[trigger] r@[k])@ == state.item(
                        visible(all.take(i as int), filter)[k],
                    ),
            decreases entries.len() - i,
        {
            assert(all.take(i + 1).drop_last() =~= all.take(i as int));
            assert(all.take(i + 1).last() == entries@[i as int]@);
            if entry_matches_filter(&entries[i], &self.filter) {
                r.push(self.item(&entries[i]));
            }
            i = i + 1;
        }
        assert(all.take(i as int) =~= all);
        assert(views::views(r@) =~= state.items());
        r
    }

    fn empty_message(&self) -> (r: Option<String>)
        ensures
            views::view_of(r) == self.model().empty_text(),
    {
        let list = self.active_list();
        if list.visible_len(&self.filter) > 0 {
            None
        } else if !self.filter.as_str().is_empty() && list.entries.len() > 0 {
            Some(text::joined("No matches for ", &text::quoted(&self.filter)))
        } else {
            match self.view {
                Tab::Discover => Some("No executable candidates found".to_owned()),
                Tab::Registrations => Some("No Registrations".to_owned()),
            }
        }
    }

    /// What is on a screen of some size.
    pub fn semantic_state(&self, width: u16, height: u16) -> (r: SemanticState)
        ensures
            r@ == self.model().semantic_state(width, height),
    {
        let mut notices: Vec<String> = Vec::new();
        if let Some(notice) = &self.notice {
            notices.push(notice.clone());
        }
        assert(views::views(notices@) =~= optional(self.model().notice));
        let ghost first = notices@;
        if let Some(notice) = &self.path_warning {
            notices.push(notice.clone());
        }
        assert(views::views(notices@) =~= views::views(first) + optional(
            self.model().path_warning,
        ));
        let ghost second = notices@;
        if let Some(notice) = &self.discovery_warning {
            notices.push(notice.clone());
        }
        assert(views::views(notices@) =~= views::views(second) + optional(
            self.model().discovery_warning,
        ));
        SemanticState {
            view: self.view,
            search_root: self.search_root.clone(),
            items: self.items(),
            focused: self.active_list().focus,
            hints: FOOTER_HINTS.to_owned(),
            filter: self.filter.clone(),
            filter_active: self.filter_active,
            empty_message: self.empty_message(),
            compact: width < 50 || height < 10,
            dialog: match &self.dialog {
                Some(dialog) => Some(dialog_text(dialog)),
                None => None,
            },
            notice: combined_notice(&notices),
        }
    }
}

/// The outcome of an operation as the interface takes it.
pub fn reported<T>(outcome: Result<T, ApplicationError>) -> (r: Result<T, OperationError>)
    ensures
        match outcome {
            Ok(result) => r == Ok::<T, OperationError>(result),
            Err(error) => r is Err && r->Err_0@ == shown_error(error@),
        },
{
    match outcome {
        Ok(result) => Ok(result),
        Err(error) => Err(OperationError::from_application(&error)),
    }
}

/// An operation that a request asks for, at its beginning.
#[derive(Debug)]
pub enum Operation {
    Search(SearchPhase),
    List(ListPhase),
    Validation(Lifecycle),
    Mutation(Lifecycle),
    /// Leave a Target out of discovery.
    Ignore(PathBuf),
}

#[verifier::ext_equal]
pub enum OperationView {
    Search(SearchPhaseView),
    List(ListPhaseView),
    Validation(LifecycleView),
    Mutation(LifecycleView),
    Ignore(Seq<u8>),
}

impl View for Operation {
    type V = OperationView;

    open spec fn view(&self) -> OperationView {
        match *self {
            Operation::Search(phase) => OperationView::Search(phase@),
            Operation::List(phase) => OperationView::List(phase@),
            Operation::Validation(lifecycle) => OperationView::Validation(lifecycle@),
            Operation::Mutation(lifecycle) => OperationView::Mutation(lifecycle@),
            Operation::Ignore(target) => OperationView::Ignore(target@),
        }
    }
}

impl Operation {
    /// The operation can be carried out.
    pub open spec fn wf(self) -> bool {
        match self {
            Operation::Search(phase) => phase.wf(),
            Operation::List(phase) => phase.wf(),
            Operation::Validation(lifecycle) => lifecycle.wf(),
            Operation::Mutation(lifecycle) => lifecycle.wf(),
            Operation::Ignore(_) => true,
        }
    }
}

/// What is registered for a candidate: it is enabled at once.
pub open spec fn addition(target: Seq<u8>, name: Seq<char>) -> AddRequestView {
    AddRequestView { target, name: Some(name), disabled: false }
}

/// An operation on one Registration that reports its failures.
pub open spec fn named_operation(task: TaskView, failure: Seq<char>, name: Seq<char>) -> OperationView {
    OperationView::Mutation(
        lifecycle::begun(task, lifecycle::failure_named(failure, seq![name]), seq![name]),
    )
}

/// The operation that a request asks for.
pub open spec fn operation_for(request: RequestView) -> OperationView {
    match request {
        RequestView::Search(root) => OperationView::Search(
            SearchPhaseView::Configuring { search_root: Some(root) },
        ),
        RequestView::List => OperationView::List(ListPhaseView::Configuring),
        RequestView::ValidateAdd { target, name } => OperationView::Validation(
            lifecycle::begun(TaskView::ValidateAdd(addition(target, name)), None, Seq::empty()),
        ),
        RequestView::Add { target, name } => OperationView::Mutation(
            lifecycle::begun(
                TaskView::Add(addition(target, name)),
                lifecycle::failure_named("add-failed"@, seq![name]),
                Seq::empty(),
            ),
        ),
        RequestView::Remove(name) => named_operation(
            TaskView::Remove { name },
            "remove-failed"@,
            name,
        ),
        RequestView::Enable(name) => named_operation(
            TaskView::SetEnabled { name, enabled: true },
            "enable-failed"@,
            name,
        ),
        RequestView::Disable(name) => named_operation(
            TaskView::SetEnabled { name, enabled: false },
            "disable-failed"@,
            name,
        ),
        RequestView::Rename { name, new_name } => OperationView::Mutation(
            lifecycle::begun(
                TaskView::Rename { name, new_name },
                lifecycle::failure_named("rename-failed"@, seq![new_name, name]),
                seq![name, new_name],
            ),
        ),
        RequestView::Ignore(target) => OperationView::Ignore(target),
    }
}

/// Begins the operation that a request asks for.
pub fn execute_request(request: Request) -> (r: Operation)
    ensures
        r@ == operation_for(request@),
        r.wf(),
{
    match request {
        Request::Search(root) => Operation::Search(
            search::search(SearchRequest { search_root: Some(root) }),
        ),
        Request::List => Operation::List(listing::list()),
        Request::ValidateAdd { target, name } => Operation::Validation(
            lifecycle::validate_add(AddRequest { target, name: Some(name), disabled: false }),
        ),
        Request::Add { target, name } => Operation::Mutation(
            lifecycle::add(AddRequest { target, name: Some(name), disabled: false }),
        ),
        Request::Remove(name) => Operation::Mutation(lifecycle::remove(&name)),
        Request::Enable(name) => Operation::Mutation(lifecycle::enable(&name)),
        Request::Disable(name) => Operation::Mutation(lifecycle::disable(&name)),
        Request::Rename { name, new_name } => Operation::Mutation(
            lifecycle::rename(&name, &new_name),
        ),
        Request::Ignore(target) => Operation::Ignore(target),
    }
}

} // verus!
