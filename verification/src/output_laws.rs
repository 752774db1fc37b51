//! What a command prints, and the status that it ends with.

use vstd::prelude::*;

use crate::application::ApplicationErrorView;
use crate::cli;
use crate::cli::{Ending, PathDisplayView};
use crate::model;
use crate::model::{
    CandidateView,
    DisplayRootView,
    LifecycleResultView,
    LifecycleStatus,
    ListResultView,
    PathDiagnosticView,
    PathStatus,
    RegistrationStateView,
    SearchStatus,
    SearchWarningView,
    WarningKind,
};
use crate::path;
use crate::text;

verus! {

/// A command ends with zero where all is well, with one where something is blocked, and with two
/// where nothing could be reported but an error.
pub proof fn how_commands_end(ending: Ending)
    ensures
        cli::exit_code_of(ending) == 0 <==> ending == Ending::Done || ending == Ending::Reported(
            LifecycleStatus::Healthy,
        ) || ending == Ending::Searched(SearchStatus::Healthy),
        cli::exit_code_of(ending) == 1 <==> ending == Ending::Reported(LifecycleStatus::Blocked)
            || ending == Ending::Searched(SearchStatus::Blocked),
        cli::exit_code_of(ending) == 2 <==> ending == Ending::Failed,
{
}

/// A search prints the Targets without a Registration, and no others, in their order.
pub proof fn what_a_search_prints(candidates: Seq<CandidateView>, paths: PathDisplayView)
    ensures
        cli::offered_text(candidates, paths) == candidates.filter(
            |candidate: CandidateView| candidate.registration is None,
        ).map_values(|candidate: CandidateView| paths.shown(candidate.target)),
    decreases candidates.len(),
{
    reveal(Seq::filter);
    let kept = |candidate: CandidateView| candidate.registration is None;
    let shown = |candidate: CandidateView| paths.shown(candidate.target);
    if candidates.len() > 0 {
        what_a_search_prints(candidates.drop_last(), paths);
        let before = candidates.drop_last().filter(kept);
        assert(before.push(candidates.last()).map_values(shown) =~= before.map_values(shown).push(
            shown(candidates.last()),
        ));
    }
    assert(cli::offered_text(candidates, paths) =~= candidates.filter(kept).map_values(shown));
}

/// A warning of a search says what kind it is, which path it is about, and why.
pub proof fn what_a_warning_says(warning: SearchWarningView, paths: PathDisplayView)
    ensures
        cli::warning_text(warning, paths) == "warning["@ + (match warning.kind {
            WarningKind::UnreadableDirectory => "unreadable-directory"@,
            WarningKind::UnreadablePath => "unreadable-path"@,
        }) + "]: "@ + paths.shown(warning.path) + ": "@ + warning.message,
{
}

/// A list prints one line for each Registration, in order, behind the line for the result: its name
/// and where it leads, and in brackets whether it is disabled and what is wrong with it, where there
/// is anything to say.
pub proof fn what_a_list_prints(result: ListResultView, paths: PathDisplayView, i: int)
    requires
        0 <= i < result.registrations.len(),
    ensures
        ({
            let lines = cli::list_text(result, paths);
            let state = result.registrations[i];
            let item = state.registration.name + " -> "@ + paths.shown(state.registration.target);
            let notes = (if state.registration.enabled {
                Seq::empty()
            } else {
                seq!["disabled"@]
            }) + (match state.defect {
                Some(defect) => seq![defect.kind.identifier_text()],
                None => Seq::empty(),
            });
            &&& lines.len() == result.registrations.len() + 1
            &&& lines[0] == "Result: "@ + result.identifier
            &&& lines[i + 1] == if notes.len() == 0 {
                item
            } else {
                item + " ["@ + text::separated(notes, "; "@) + "]"@
            }
        }),
{
    reveal_with_fuel(text::separated, 3);
    reveal_strlit("disabled");
    reveal_strlit("; ");
    reveal_strlit("disabled; ");
    assert("disabled"@ + "; "@ =~= "disabled; "@);
    let state = result.registrations[i];
    if let Some(defect) = state.defect {
        let id = defect.kind.identifier_text();
        assert(Seq::<Seq<char>>::empty() + seq![id] =~= seq![id]);
        assert(seq!["disabled"@] + seq![id] =~= seq!["disabled"@, id]);
        assert(seq!["disabled"@, id].drop_last() =~= seq!["disabled"@]);
        assert("disabled"@ + "; "@ + id =~= "disabled; "@ + id);
    } else {
        assert(seq!["disabled"@] + Seq::<Seq<char>>::empty() =~= seq!["disabled"@]);
        assert(Seq::<Seq<char>>::empty() + Seq::<Seq<char>>::empty() =~= Seq::empty());
    }
}

/// An operation prints its result first, then the Registration in full if there is one, and last the
/// conflict if there is one.
pub proof fn what_an_operation_prints(result: LifecycleResultView, paths: PathDisplayView)
    ensures
        ({
            let lines = cli::lifecycle_text(result, paths);
            &&& lines.len() > 0
            &&& lines[0] == "Result: "@ + result.identifier
            &&& result.conflict matches Some(conflict) ==> lines.last() == "Conflict: "@ + conflict
            &&& result.registration matches Some(state) ==> {
                let observed: int = if state.observed_link_target is Some {
                    1
                } else {
                    0
                };
                let defect: int = if state.defect is Some {
                    2
                } else {
                    0
                };
                let conflict: int = if result.conflict is Some {
                    1
                } else {
                    0
                };
                &&& lines.len() == 6 + observed + defect + conflict
                &&& lines[1] == "Registration: "@ + state.registration.name
                &&& lines[2] == "Target: "@ + paths.shown(state.registration.target)
                &&& lines[3] == if state.registration.enabled {
                    "Enabled: "@ + "true"@
                } else {
                    "Enabled: "@ + "false"@
                }
                &&& lines[4] == "Managed Link: "@ + paths.shown(state.managed_link)
                &&& lines[5] == "Actual: "@ + state.actual.identifier_text()
                &&& state.observed_link_target matches Some(target) ==> lines[6]
                    == "Observed Link Target: "@ + paths.shown(target)
                &&& state.defect matches Some(defect) ==> lines[6 + observed] == "Defect: "@
                    + defect.kind.identifier_text() && lines[7 + observed] == "Reason: "@
                    + defect.message
            }
            &&& result.registration is None ==> lines.len() == if result.conflict is Some {
                2
            } else {
                1nat
            }
        }),
{
}

/// An error prints what it is called and what it says, and of the Registration that it left behind,
/// its name, where it leads, what lies at its managed path, and what is wrong with it and what to do.
pub proof fn what_an_error_prints(
    kind: Seq<char>,
    error: ApplicationErrorView,
    paths: PathDisplayView,
)
    ensures
        ({
            let lines = cli::error_text(kind, error, paths);
            let name = if kind == "operation-failed"@ {
                error.identifier()
            } else {
                kind
            };
            &&& lines.len() > 0
            &&& lines[0] == "error["@ + name + "]: "@ + error.message()
            &&& match error.resulting_registration() {
                None => lines.len() == 1,
                Some(state) => {
                    let left = "Resulting Registration: "@ + state.registration.name + " -> "@
                        + paths.shown(state.registration.target) + " [actual="@
                        + state.actual.identifier_text();
                    match state.defect {
                        None => lines.len() == 2 && lines[1] == left + "]"@,
                        Some(defect) => lines.len() == 3 && lines[1] == left + "; defect="@
                            + defect.kind.identifier_text() + "]"@ && lines[2]
                            == "Next safe action: "@ + defect.message,
                    }
                },
            }
        }),
{
}

/// What an error is called is what its operation calls it, and only where nothing more is known,
/// that an operation failed. It has a Registration only where one was left behind.
pub proof fn what_an_error_is_called(
    identifier: Seq<char>,
    message: Seq<char>,
    left: Option<RegistrationStateView>,
    error: ApplicationErrorView,
)
    ensures
        ({
            let mutation = ApplicationErrorView::Mutation {
                identifier,
                message,
                resulting_registration: left,
            };
            let operation = ApplicationErrorView::Operation {
                identifier,
                message,
                resulting_registration: left,
            };
            &&& mutation.identifier() == identifier && operation.identifier() == identifier
            &&& mutation.message() == message && operation.message() == message
            &&& mutation.resulting_registration() == left && operation.resulting_registration()
                == left
        }),
        !(error is Mutation) && !(error is Operation) ==> error.identifier()
            == "operation-failed"@ && error.resulting_registration() is None,
{
}

/// Something is said of `PATH` exactly where an operation has published something and the managed
/// directory is missing from `PATH`.
pub proof fn when_something_is_said_of_the_path(
    result: LifecycleResultView,
    diagnostic: PathDiagnosticView,
)
    ensures
        cli::publishes(result) <==> result.status == LifecycleStatus::Healthy && (
        result.registration matches Some(state) && state.registration.enabled),
        cli::path_warning_text(diagnostic) is Some <==> diagnostic.status == PathStatus::Missing,
        cli::path_warning_text(diagnostic) matches Some(warning) ==> warning == "warning["@
            + diagnostic.identifier + "]: "@ + diagnostic.guidance,
{
}

/// A path lies below a display root, as it is spelled or as it resolves.
pub open spec fn lies_below(p: Seq<u8>, canonical: Seq<u8>, root: DisplayRootView) -> bool {
    path::starts_with(p, root.named.root) || path::starts_with(canonical, root.canonical)
}

/// How deep a display root is that a path lies below.
pub open spec fn depth(p: Seq<u8>, root: DisplayRootView) -> nat {
    if path::starts_with(p, root.named.root) {
        path::components(root.named.root).len()
    } else {
        path::components(root.canonical).len()
    }
}

/// The display root that a path is shown below.
pub open spec fn is_the_root(
    p: Seq<u8>,
    canonical: Seq<u8>,
    roots: Seq<DisplayRootView>,
    at: int,
) -> bool {
    &&& 0 <= at < roots.len()
    &&& lies_below(p, canonical, roots[at])
    &&& forall|i: int|
        0 <= i < roots.len() && lies_below(p, canonical, #[trigger] roots[i]) ==> depth(p, roots[i])
            <= depth(p, roots[at])
    &&& forall|i: int|
        0 <= i < at && lies_below(p, canonical, #[trigger] roots[i]) ==> depth(p, roots[i]) < depth(
            p,
            roots[at],
        )
}

proof fn the_best_root(p: Seq<u8>, canonical: Seq<u8>, roots: Seq<DisplayRootView>)
    ensures
        match model::best_root(p, canonical, roots) {
            None => forall|i: int|
                0 <= i < roots.len() ==> !lies_below(p, canonical, #[trigger] roots[i]),
            Some(found) => exists|at: int| #[trigger]
                is_the_root(p, canonical, roots, at) && Some(found) == model::root_match(
                    p,
                    canonical,
                    roots[at],
                ) && path::components(found.root).len() == depth(p, roots[at]),
        },
    decreases roots.len(),
{
    if roots.len() > 0 {
        let before = roots.drop_last();
        let n = roots.len() - 1;
        the_best_root(p, canonical, before);
        assert forall|i: int| 0 <= i < before.len() implies before[i] == #[trigger] roots[i] by {}
        match model::best_root(p, canonical, before) {
            None => {
                if lies_below(p, canonical, roots[n]) {
                    assert forall|i: int| 0 <= i < n implies !lies_below(
                        p,
                        canonical,
                        #[trigger] roots[i],
                    ) by {
                        assert(!lies_below(p, canonical, before[i]));
                    }
                    assert(is_the_root(p, canonical, roots, n));
                } else {
                    assert forall|i: int| 0 <= i < roots.len() implies !lies_below(
                        p,
                        canonical,
                        #[trigger] roots[i],
                    ) by {
                        if i < n {
                            assert(!lies_below(p, canonical, before[i]));
                        }
                    }
                }
            },
            Some(best) => {
                let at = choose|at: int| #[trigger]
                    is_the_root(p, canonical, before, at) && Some(best) == model::root_match(
                        p,
                        canonical,
                        before[at],
                    ) && path::components(best.root).len() == depth(p, before[at]);
                assert(before[at] == roots[at]);
                if lies_below(p, canonical, roots[n]) && depth(p, roots[n]) > depth(p, roots[at]) {
                    assert forall|i: int|
                        0 <= i < n && lies_below(p, canonical, #[trigger] roots[i]) implies depth(
                        p,
                        roots[i],
                    ) < depth(p, roots[n]) by {
                        assert(lies_below(p, canonical, before[i]));
                    }
                    assert(is_the_root(p, canonical, roots, n));
                } else {
                    assert forall|i: int|
                        0 <= i < roots.len() && lies_below(
                            p,
                            canonical,
                            #[trigger] roots[i],
                        ) implies depth(p, roots[i]) <= depth(p, roots[at]) by {
                        if i < n {
                            assert(lies_below(p, canonical, before[i]));
                        }
                    }
                    assert forall|i: int|
                        0 <= i < at && lies_below(p, canonical, #[trigger] roots[i]) implies depth(
                        p,
                        roots[i],
                    ) < depth(p, roots[at]) by {
                        assert(lies_below(p, canonical, before[i]));
                    }
                    assert(is_the_root(p, canonical, roots, at));
                }
            },
        }
    }
}

/// A path is shown below the deepest display root that it lies below, the first of them where
/// several are as deep: with the name of the root in brackets, and what leads from there to the path
/// behind it.
pub proof fn how_a_path_is_shown_below_a_root(
    p: Seq<u8>,
    canonical: Seq<u8>,
    home: Seq<u8>,
    roots: Seq<DisplayRootView>,
    at: int,
)
    requires
        is_the_root(p, canonical, roots, at),
    ensures
        ({
            let shown = model::displayed(p, canonical, home, roots);
            let name = roots[at].named.name;
            let relative = if path::starts_with(p, roots[at].named.root) {
                path::stripped(p, roots[at].named.root)
            } else {
                path::stripped(canonical, roots[at].canonical)
            };
            shown == if relative.len() == 0 {
                "["@ + name + "]"@
            } else {
                "["@ + name + "]/"@ + text::lossy_text(relative)
            }
        }),
{
    the_best_root(p, canonical, roots);
    assert(lies_below(p, canonical, roots[at]));
    let found = model::best_root(p, canonical, roots)->0;
    let other = choose|other: int| #[trigger]
        is_the_root(p, canonical, roots, other) && Some(found) == model::root_match(
            p,
            canonical,
            roots[other],
        );
    if other < at {
        assert(depth(p, roots[other]) < depth(p, roots[at]));
        assert(depth(p, roots[at]) <= depth(p, roots[other]));
    } else if at < other {
        assert(depth(p, roots[at]) < depth(p, roots[other]));
        assert(depth(p, roots[other]) <= depth(p, roots[at]));
    }
}

/// A path below no display root is shown with `~` for the home directory where it lies there, and
/// else as it is.
pub proof fn how_any_other_path_is_shown(
    p: Seq<u8>,
    canonical: Seq<u8>,
    home: Seq<u8>,
    roots: Seq<DisplayRootView>,
)
    requires
        forall|i: int| 0 <= i < roots.len() ==> !lies_below(p, canonical, #[trigger] roots[i]),
    ensures
        ({
            let shown = model::displayed(p, canonical, home, roots);
            &&& home.len() == 0 || !path::starts_with(p, home) ==> shown == text::lossy_text(p)
            &&& home.len() > 0 && path::components(p) == path::components(home) ==> shown == "~"@
            &&& home.len() > 0 && path::starts_with(p, home) && path::components(p)
                != path::components(home) ==> shown == "~/"@ + text::lossy_text(
                path::stripped(p, home),
            )
        }),
{
    the_best_root(p, canonical, roots);
    if model::best_root(p, canonical, roots) is Some {
        let at = choose|at: int| #[trigger] is_the_root(p, canonical, roots, at);
        assert(lies_below(p, canonical, roots[at]));
    }
}

} // verus!
