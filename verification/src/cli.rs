//! What the commands print, and the status that they end with.

use vstd::prelude::*;

use crate::application::{ApplicationError, ApplicationErrorView};
use crate::model;
use crate::model::{
    CandidateView,
    CanonicalPath,
    CanonicalPathView,
    DisplayRoot,
    DisplayRootView,
    LifecycleResult,
    LifecycleResultView,
    LifecycleStatus,
    ListResult,
    ListResultView,
    PathDiagnostic,
    PathDiagnosticView,
    PathStatus,
    RegistrationState,
    RegistrationStateView,
    SearchResult,
    SearchStatus,
    SearchWarningView,
};
use crate::path::PathBuf;
use crate::text;
use crate::views;

verus! {

/// What paths are shown by: the home directory, the display roots, and what paths resolve to.
#[derive(Debug)]
pub struct PathDisplay {
    pub home: PathBuf,
    pub roots: Vec<DisplayRoot>,
    pub canonical: Vec<CanonicalPath>,
}

#[verifier::ext_equal]
pub struct PathDisplayView {
    pub home: Seq<u8>,
    pub roots: Seq<DisplayRootView>,
    pub canonical: Seq<CanonicalPathView>,
}

impl View for PathDisplay {
    type V = PathDisplayView;

    open spec fn view(&self) -> PathDisplayView {
        PathDisplayView {
            home: self.home@,
            roots: views::views(self.roots@),
            canonical: views::views(self.canonical@),
        }
    }
}

impl PathDisplayView {
    /// A path as the user reads it.
    pub open spec fn shown(self, p: Seq<u8>) -> Seq<char> {
        model::displayed(p, model::canonical_for(self.canonical, p), self.home, self.roots)
    }
}

impl PathDisplay {
    /// A path as the user reads it.
    pub fn path(&self, path: &PathBuf) -> (r: String)
        ensures
            r@ == self@.shown(path@),
    {
        let canonical = model::find_canonical(&self.canonical, path);
        model::display_path_with_roots(path, &canonical, &self.home, &self.roots)
    }
}

/// A path as the user reads it, without display roots.
pub fn display_path(path: &PathBuf, home: &PathBuf) -> (r: String)
    ensures
        r@ == model::displayed(path@, path@, home@, Seq::empty()),
{
    model::display_path(path, home)
}

/// The status that an operation ends with.
pub open spec fn code_of(status: LifecycleStatus) -> i32 {
    match status {
        LifecycleStatus::Healthy => 0,
        LifecycleStatus::Blocked => 1,
    }
}

/// The status that an operation ends with.
pub fn status_code(status: LifecycleStatus) -> (r: i32)
    ensures
        r == code_of(status),
{
    match status {
        LifecycleStatus::Healthy => 0,
        LifecycleStatus::Blocked => 1,
    }
}

/// The status that a search ends with.
pub open spec fn search_code_of(status: SearchStatus) -> i32 {
    match status {
        SearchStatus::Healthy => 0,
        SearchStatus::Blocked => 1,
    }
}

/// The status that a search ends with.
pub fn search_status_code(status: SearchStatus) -> (r: i32)
    ensures
        r == search_code_of(status),
{
    match status {
        SearchStatus::Healthy => 0,
        SearchStatus::Blocked => 1,
    }
}

/// The status that a failed operation ends with.
pub const FAILURE_CODE: i32 = 2;

/// How a command ends.
#[derive(Clone, Copy, Debug, PartialEq, Eq, Structural)]
pub enum Ending {
    /// An operation or a list has reported.
    Reported(LifecycleStatus),
    /// A search has reported.
    Searched(SearchStatus),
    /// A path was added to the ignored ones, or the user has left the interface.
    Done,
    /// Nothing could be reported but an error.
    Failed,
}

/// The status that a command ends with.
pub open spec fn exit_code_of(ending: Ending) -> i32 {
    match ending {
        Ending::Reported(status) => code_of(status),
        Ending::Searched(status) => search_code_of(status),
        Ending::Done => 0,
        Ending::Failed => FAILURE_CODE,
    }
}

/// The status that a command ends with: 0 where all is well, 1 where something is blocked, 2 where
/// it failed.
pub fn exit_code(ending: Ending) -> (r: i32)
    ensures
        r == exit_code_of(ending),
{
    match ending {
        Ending::Reported(status) => status_code(status),
        Ending::Searched(status) => search_status_code(status),
        Ending::Done => 0,
        Ending::Failed => FAILURE_CODE,
    }
}

/// How an operation on a Registration ends.
pub fn operation_ending(outcome: &Result<LifecycleResult, ApplicationError>) -> (r: Ending)
    ensures
        r == match *outcome {
            Ok(result) => Ending::Reported(result.status),
            Err(_) => Ending::Failed,
        },
{
    match outcome {
        Ok(result) => Ending::Reported(result.status),
        Err(_) => Ending::Failed,
    }
}

/// How a list ends.
pub fn list_ending(outcome: &Result<ListResult, ApplicationError>) -> (r: Ending)
    ensures
        r == match *outcome {
            Ok(result) => Ending::Reported(result.status),
            Err(_) => Ending::Failed,
        },
{
    match outcome {
        Ok(result) => Ending::Reported(result.status),
        Err(_) => Ending::Failed,
    }
}

/// How a search ends.
pub fn search_ending(outcome: &Result<SearchResult, ApplicationError>) -> (r: Ending)
    ensures
        r == match *outcome {
            Ok(result) => Ending::Searched(result.status),
            Err(_) => Ending::Failed,
        },
{
    match outcome {
        Ok(result) => Ending::Searched(result.status),
        Err(_) => Ending::Failed,
    }
}

/// How a command ends that has nothing to report but that it is done.
pub fn plain_ending<T, E>(outcome: &Result<T, E>) -> (r: Ending)
    ensures
        r == match *outcome {
            Ok(_) => Ending::Done,
            Err(_) => Ending::Failed,
        },
{
    match outcome {
        Ok(_) => Ending::Done,
        Err(_) => Ending::Failed,
    }
}

/// The line that an identifier is reported with.
pub open spec fn result_line_of(identifier: Seq<char>) -> Seq<char> {
    "Result: "@ + identifier
}

/// The line that an identifier is reported with.
pub fn result_line(identifier: &str) -> (r: String)
    ensures
        r@ == result_line_of(identifier@),
{
    text::joined("Result: ", identifier)
}

fn push_line(lines: &mut Vec<String>, line: String)
    ensures
        views::views(final(lines)@) == views::views(old(lines)@).push(line@),
{
    let ghost before = lines@;
    lines.push(line);
    assert(views::views(lines@) =~= views::views(before).push(line@));
}

pub open spec fn truth(b: bool) -> Seq<char> {
    if b {
        "true"@
    } else {
        "false"@
    }
}

/// A Registration in full.
pub open spec fn registration_text(state: RegistrationStateView, paths: PathDisplayView) -> Seq<
    Seq<char>,
> {
    let head = seq![
        "Registration: "@ + state.registration.name,
        "Target: "@ + paths.shown(state.registration.target),
        "Enabled: "@ + truth(state.registration.enabled),
        "Managed Link: "@ + paths.shown(state.managed_link),
        "Actual: "@ + state.actual.identifier_text(),
    ];
    let observed = match state.observed_link_target {
        Some(target) => seq!["Observed Link Target: "@ + paths.shown(target)],
        None => Seq::empty(),
    };
    let defect = match state.defect {
        Some(defect) => seq![
            "Defect: "@ + defect.kind.identifier_text(),
            "Reason: "@ + defect.message,
        ],
        None => Seq::empty(),
    };
    head + observed + defect
}

/// A Registration in full, a line for each thing to know of it.
pub fn registration_lines(state: &RegistrationState, paths: &PathDisplay) -> (r: Vec<String>)
    ensures
        views::views(r@) == registration_text(state@, paths@),
{
    let mut lines: Vec<String> = Vec::new();
    assert(views::views(lines@) =~= Seq::empty());
    push_line(&mut lines, text::joined("Registration: ", &state.registration.name));
    push_line(&mut lines, text::joined("Target: ", &paths.path(&state.registration.target)));
    push_line(
        &mut lines,
        text::joined(
            "Enabled: ",
            if state.registration.enabled {
                "true"
            } else {
                "false"
            },
        ),
    );
    push_line(&mut lines, text::joined("Managed Link: ", &paths.path(&state.managed_link)));
    push_line(&mut lines, text::joined("Actual: ", state.actual.identifier()));
    if let Some(target) = &state.observed_link_target {
        push_line(&mut lines, text::joined("Observed Link Target: ", &paths.path(target)));
    }
    if let Some(defect) = &state.defect {
        push_line(&mut lines, text::joined("Defect: ", defect.kind.identifier()));
        push_line(&mut lines, text::joined("Reason: ", &defect.message));
    }
    assert(views::views(lines@) =~= registration_text(state@, paths@));
    lines
}

/// The outcome of an operation on a Registration.
pub open spec fn lifecycle_text(result: LifecycleResultView, paths: PathDisplayView) -> Seq<
    Seq<char>,
> {
    let registration = match result.registration {
        Some(state) => registration_text(state, paths),
        None => Seq::empty(),
    };
    let conflict = match result.conflict {
        Some(conflict) => seq!["Conflict: "@ + conflict],
        None => Seq::empty(),
    };
    seq![result_line_of(result.identifier)] + registration + conflict
}

fn push_lines(lines: &mut Vec<String>, more: &Vec<String>)
    ensures
        views::views(final(lines)@) == views::views(old(lines)@) + views::views(more@),
{
    let ghost before = views::views(lines@);
    let ghost all = views::views(more@);
    let mut i: usize = 0;
    assert(views::views(lines@) =~= before + all.take(0));
    while i < more.len()
        invariant
            i <= more@.len(),
            all == views::views(more@),
            views::views(lines@) == before + all.take(i as int),
        decreases more.len() - i,
    {
        push_line(lines, more[i].clone());
        assert(before + all.take(i + 1) =~= (before + all.take(i as int)).push(
            more@[i as int]@,
        ));
        i = i + 1;
    }
    assert(all.take(i as int) =~= all);
}

/// What an operation on a Registration prints.
pub fn lifecycle_lines(result: &LifecycleResult, paths: &PathDisplay) -> (r: Vec<String>)
    ensures
        views::views(r@) == lifecycle_text(result@, paths@),
{
    let mut lines: Vec<String> = Vec::new();
    assert(views::views(lines@) =~= Seq::empty());
    push_line(&mut lines, result_line(&result.identifier));
    if let Some(state) = &result.registration {
        push_lines(&mut lines, &registration_lines(state, paths));
    }
    if let Some(conflict) = &result.conflict {
        push_line(&mut lines, text::joined("Conflict: ", conflict));
    }
    assert(views::views(lines@) =~= lifecycle_text(result@, paths@));
    lines
}

/// A Registration in a list: its name and Target, and what is unusual about it.
pub open spec fn listed_line(state: RegistrationStateView, paths: PathDisplayView) -> Seq<char> {
    let item = state.registration.name + " -> "@ + paths.shown(state.registration.target);
    match (state.registration.enabled, state.defect) {
        (true, None) => item,
        (true, Some(defect)) => item + " ["@ + defect.kind.identifier_text() + "]"@,
        (false, None) => item + " ["@ + "disabled"@ + "]"@,
        (false, Some(defect)) => item + " ["@ + ("disabled; "@ + defect.kind.identifier_text())
            + "]"@,
    }
}

fn list_line(state: &RegistrationState, paths: &PathDisplay) -> (r: String)
    ensures
        r@ == listed_line(state@, paths@),
{
    let mut line = text::joined3(
        &state.registration.name,
        " -> ",
        &paths.path(&state.registration.target),
    );
    match &state.defect {
        Some(defect) => {
            line.append(" [");
            if state.registration.enabled {
                line.append(defect.kind.identifier());
            } else {
                line.append(&text::joined("disabled; ", defect.kind.identifier()));
            }
            line.append("]");
        },
        None => {
            if !state.registration.enabled {
                line.append(" [");
                line.append("disabled");
                line.append("]");
            }
        },
    }
    line
}

/// The list of Registrations.
pub open spec fn list_text(result: ListResultView, paths: PathDisplayView) -> Seq<Seq<char>> {
    seq![result_line_of(result.identifier)] + Seq::new(
        result.registrations.len(),
        |i: int| listed_line(result.registrations[i], paths),
    )
}

/// What the list of Registrations prints.
pub fn list_lines(result: &ListResult, paths: &PathDisplay) -> (r: Vec<String>)
    ensures
        views::views(r@) == list_text(result@, paths@),
{
    let ghost all = list_text(result@, paths@);
    let mut lines: Vec<String> = Vec::new();
    assert(views::views(lines@) =~= Seq::empty());
    push_line(&mut lines, result_line(&result.identifier));
    let mut i: usize = 0;
    assert(views::views(lines@) =~= all.take(1));
    while i < result.registrations.len()
        invariant
            i <= result.registrations@.len(),
            all == list_text(result@, paths@),
            views::views(lines@) == all.take(i + 1),
        decreases result.registrations.len() - i,
    {
        push_line(&mut lines, list_line(&result.registrations[i], paths));
        assert(all[i + 1] == listed_line(result.registrations@[i as int]@, paths@));
        assert(all.take(i + 2) =~= all.take(i + 1).push(all[i + 1]));
        i = i + 1;
    }
    assert(all.take(i + 1) =~= all);
    lines
}

/// The Targets that a search offers: those without a Registration.
pub open spec fn offered_text(candidates: Seq<CandidateView>, paths: PathDisplayView) -> Seq<
    Seq<char>,
>
    decreases candidates.len(),
{
    if candidates.len() == 0 {
        Seq::empty()
    } else {
        let before = offered_text(candidates.drop_last(), paths);
        if candidates.last().registration is None {
            before.push(paths.shown(candidates.last().target))
        } else {
            before
        }
    }
}

/// The Targets that a search prints.
pub fn search_lines(result: &SearchResult, paths: &PathDisplay) -> (r: Vec<String>)
    ensures
        views::views(r@) == offered_text(result@.candidates, paths@),
{
    let ghost all = result@.candidates;
    let mut lines: Vec<String> = Vec::new();
    let mut i: usize = 0;
    assert(views::views(lines@) =~= offered_text(all.take(0), paths@));
    while i < result.candidates.len()
        invariant
            i <= result.candidates@.len(),
            all == views::views(result.candidates@),
            views::views(lines@) == offered_text(all.take(i as int), paths@),
        decreases result.candidates.len() - i,
    {
        assert(all.take(i + 1).drop_last() =~= all.take(i as int));
        assert(all.take(i + 1).last() == result.candidates@[i as int]@);
        if result.candidates[i].registration.is_none() {
            push_line(&mut lines, paths.path(&result.candidates[i].target));
        }
        i = i + 1;
    }
    assert(all.take(i as int) =~= all);
    lines
}

/// A warning of a search.
pub open spec fn warning_text(warning: SearchWarningView, paths: PathDisplayView) -> Seq<char> {
    "warning["@ + warning.kind.identifier_text() + "]: "@ + paths.shown(warning.path) + ": "@
        + warning.message
}

/// The warnings that a search prints, one on a line.
pub fn warning_lines(result: &SearchResult, paths: &PathDisplay) -> (r: Vec<String>)
    ensures
        views::views(r@) == Seq::new(
            result@.warnings.len(),
            |i: int| warning_text(result@.warnings[i], paths@),
        ),
{
    let ghost all = Seq::new(
        result@.warnings.len(),
        |i: int| warning_text(result@.warnings[i], paths@),
    );
    let mut lines: Vec<String> = Vec::new();
    let mut i: usize = 0;
    assert(views::views(lines@) =~= all.take(0));
    while i < result.warnings.len()
        invariant
            i <= result.warnings@.len(),
            all == Seq::new(
                result@.warnings.len(),
                |k: int| warning_text(result@.warnings[k], paths@),
            ),
            views::views(lines@) == all.take(i as int),
        decreases result.warnings.len() - i,
    {
        let warning = &result.warnings[i];
        let mut line = text::joined3("warning[", warning.kind.identifier(), "]: ");
        line.append(&paths.path(&warning.path));
        line.append(": ");
        line.append(&warning.message);
        assert(line@ == all[i as int]);
        push_line(&mut lines, line);
        assert(all.take(i + 1) =~= all.take(i as int).push(all[i as int]));
        i = i + 1;
    }
    assert(all.take(i as int) =~= all);
    lines
}

/// What an error is called: by its kind, but for one that only says that an operation failed.
pub open spec fn error_name(kind: Seq<char>, error: ApplicationErrorView) -> Seq<char> {
    if kind == "operation-failed"@ {
        error.identifier()
    } else {
        kind
    }
}

/// What an error is called.
pub fn error_identifier(kind: &str, error: &ApplicationError) -> (r: String)
    ensures
        r@ == error_name(kind@, error@),
{
    if text::same(kind, "operation-failed") {
        error.identifier().to_owned()
    } else {
        kind.to_owned()
    }
}

/// An error, with the Registration that it left behind.
pub open spec fn error_text(
    kind: Seq<char>,
    error: ApplicationErrorView,
    paths: PathDisplayView,
) -> Seq<Seq<char>> {
    let head = seq!["error["@ + error_name(kind, error) + "]: "@ + error.message()];
    match error.resulting_registration() {
        None => head,
        Some(state) => {
            let left = "Resulting Registration: "@ + state.registration.name + " -> "@
                + paths.shown(state.registration.target) + " [actual="@
                + state.actual.identifier_text();
            match state.defect {
                Some(defect) => head + seq![
                    left + "; defect="@ + defect.kind.identifier_text() + "]"@,
                    "Next safe action: "@ + defect.message,
                ],
                None => head + seq![left + "]"@],
            }
        },
    }
}

/// What a failed operation prints.
pub fn error_lines(kind: &str, error: &ApplicationError, paths: &PathDisplay) -> (r: Vec<String>)
    ensures
        views::views(r@) == error_text(kind@, error@, paths@),
{
    let mut lines: Vec<String> = Vec::new();
    assert(views::views(lines@) =~= Seq::empty());
    let mut head = text::joined3("error[", &error_identifier(kind, error), "]: ");
    head.append(&error.message());
    push_line(&mut lines, head);
    if let Some(state) = error.resulting_registration() {
        let mut left = text::joined3(
            "Resulting Registration: ",
            &state.registration.name,
            " -> ",
        );
        left.append(&paths.path(&state.registration.target));
        left.append(" [actual=");
        left.append(state.actual.identifier());
        match &state.defect {
            Some(defect) => {
                left.append("; defect=");
                left.append(defect.kind.identifier());
                left.append("]");
                push_line(&mut lines, left);
                push_line(&mut lines, text::joined("Next safe action: ", &defect.message));
            },
            None => {
                left.append("]");
                push_line(&mut lines, left);
            },
        }
    }
    assert(views::views(lines@) =~= error_text(kind@, error@, paths@));
    lines
}

/// An operation put a command where it can be invoked.
pub open spec fn publishes(result: LifecycleResultView) -> bool {
    result.status == LifecycleStatus::Healthy && (result.registration matches Some(state)
        && state.registration.enabled)
}

/// Whether an operation put a command where it can be invoked, so that `PATH` matters.
pub fn published(result: &LifecycleResult) -> (r: bool)
    ensures
        r == publishes(result@),
{
    match &result.registration {
        Some(state) => result.status == LifecycleStatus::Healthy && state.registration.enabled,
        None => false,
    }
}

/// What is said of `PATH`: something only where the managed directory is missing from it.
pub open spec fn path_warning_text(diagnostic: PathDiagnosticView) -> Option<Seq<char>> {
    if diagnostic.status == PathStatus::Missing {
        Some("warning["@ + diagnostic.identifier + "]: "@ + diagnostic.guidance)
    } else {
        None
    }
}

/// What is said of `PATH`.
pub fn path_warning(diagnostic: &PathDiagnostic) -> (r: Option<String>)
    ensures
        views::view_of(r) == path_warning_text(diagnostic@),
{
    if diagnostic.status == PathStatus::Missing {
        let mut line = text::joined3("warning[", &diagnostic.identifier, "]: ");
        line.append(&diagnostic.guidance);
        Some(line)
    } else {
        None
    }
}

} // verus!
