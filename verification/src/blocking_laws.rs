//! What an operation says where something is in its way.

use vstd::prelude::*;

use crate::application;
use crate::environment::EnvironmentView;
use crate::host::{EntryKind, IoErrorKind, IoErrorView, ObservationView};
use crate::lifecycle::{
    EventView,
    LifecycleView,
    PhaseView,
    PreparedView,
    SubjectView,
    TaskView,
};
use crate::model::{LifecycleResultView, LifecycleStatus, RegistrationStateView, RegistrationView};
use crate::path;
use crate::text;

verus! {

/// An operation is over, blocked, with this name for what blocks it, this Registration, and this to
/// say.
pub open spec fn blocked_with(
    after: LifecycleView,
    identifier: Seq<char>,
    registration: Option<RegistrationStateView>,
    conflict: Option<Seq<char>>,
) -> bool {
    after.phase == PhaseView::Finished(
        Ok(
            LifecycleResultView {
                status: LifecycleStatus::Blocked,
                identifier,
                registration,
                conflict,
            },
        ),
    )
}

/// Something lies at a managed path that is not a link to the Target.
pub open spec fn in_the_way(seen: ObservationView, target: Seq<u8>) -> bool {
    &&& seen.entry is Ok
    &&& !(seen.link matches Some(link) && path::components(link) == path::components(target))
}

/// A link that leads nowhere.
pub open spec fn leads_nowhere(seen: ObservationView) -> bool {
    &&& seen.entry == Ok::<EntryKind, IoErrorView>(EntryKind::SymbolicLink)
    &&& seen.link is Some
    &&& seen.followed matches Err(source) && source.kind == IoErrorKind::NotFound
}

/// What removing, enabling or disabling says where the managed path holds something else: what is
/// wrong with the Registration. A broken link is in nobody's way where an enabled Registration is
/// disabled.
pub proof fn what_a_conflict_at_the_managed_path_says(
    state: LifecycleView,
    bin_dir: Seq<u8>,
    at: int,
    link: Seq<u8>,
    registrations: Seq<RegistrationView>,
    link_seen: ObservationView,
    target_seen: ObservationView,
    found: RegistrationStateView,
    environment: EnvironmentView,
)
    requires
        state.phase == (PhaseView::Examining {
            bin_dir,
            subject: SubjectView::Existing { at, link },
            registrations,
        }),
        0 <= at < registrations.len(),
        in_the_way(link_seen, registrations[at].target),
        application::inspected(registrations[at], bin_dir, link_seen, target_seen) == Ok::<
            RegistrationStateView,
            application::ApplicationErrorView,
        >(found),
        state.task is Remove || (state.task matches TaskView::SetEnabled { enabled, .. } && (
        enabled || !registrations[at].enabled || !leads_nowhere(link_seen))),
    ensures
        blocked_with(
            state.advance(EventView::Observed(seq![link_seen, target_seen]), environment),
            "managed-path-conflict"@,
            Some(found),
            match found.defect {
                Some(defect) => Some(defect.message),
                None => None,
            },
        ),
{
    reveal(LifecycleView::on_observed);
    reveal(LifecycleView::examined);
    reveal(LifecycleView::enabling_examined);
    reveal(LifecycleView::removing_examined);
}

/// What lies at the two paths of a rename, in words.
pub open spec fn both_named(
    old_link: Seq<u8>,
    old_seen: ObservationView,
    new_link: Seq<u8>,
    new_seen: ObservationView,
) -> Seq<char> {
    "actual paths: old "@ + text::lossy_text(old_link) + " is "@ + application::path_summary(
        old_seen,
    ) + ", new "@ + text::lossy_text(new_link) + " is "@ + application::path_summary(new_seen)
}

/// What a rename says that is blocked: that the new name belongs to another Registration, and which
/// Target it has; else that the old link is no longer the Registration's own; else that something
/// lies where the new link would. In each case it says what lies at both paths.
pub proof fn what_a_blocked_rename_says(
    state: LifecycleView,
    new_name: Seq<char>,
    bin_dir: Seq<u8>,
    at: int,
    old_link: Seq<u8>,
    new_link: Seq<u8>,
    duplicate: Option<Seq<u8>>,
    registrations: Seq<RegistrationView>,
    seen: Seq<ObservationView>,
    found: RegistrationStateView,
    environment: EnvironmentView,
)
    requires
        state.phase == (PhaseView::Examining {
            bin_dir,
            subject: SubjectView::Renaming { at, old_link, new_link, duplicate },
            registrations,
        }),
        state.task matches TaskView::Rename { new_name: asked, .. } && asked == new_name,
        0 <= at < registrations.len(),
        seen.len() == 3,
        application::inspected(registrations[at], bin_dir, seen[0], seen[1]) == Ok::<
            RegistrationStateView,
            application::ApplicationErrorView,
        >(found),
    ensures
        ({
            let after = state.advance(EventView::Observed(seen), environment);
            let paths = both_named(old_link, seen[0], new_link, seen[2]);
            let lost = registrations[at].enabled && in_the_way(seen[0], registrations[at].target);
            &&& duplicate matches Some(target) ==> blocked_with(
                after,
                "command-name-registered"@,
                Some(found),
                Some(
                    "Command Name "@ + text::quoted_text(new_name) + " is already registered to "@
                        + text::lossy_text(target) + "; choose another Command Name; "@ + paths,
                ),
            )
            &&& duplicate is None && lost ==> blocked_with(
                after,
                "rename-source-conflict"@,
                Some(found),
                Some(
                    "old Managed Link ownership changed and it was left untouched; resolve it manually, then retry; "@
                        + paths,
                ),
            )
            &&& duplicate is None && !lost && seen[2].entry is Ok ==> blocked_with(
                after,
                "rename-destination-conflict"@,
                Some(found),
                Some(
                    "new managed path "@ + text::lossy_text(new_link)
                        + " is occupied; remove or rename that unmanaged entry, then retry; "@
                        + paths,
                ),
            )
        }),
{
    reveal(LifecycleView::on_observed);
    reveal(LifecycleView::examined);
    reveal(LifecycleView::renaming_examined);
}

/// What an addition says that is blocked, and likewise the check before it: that the name belongs to
/// a Registration, and which Target that has; else that something lies where the link would.
pub proof fn what_a_blocked_addition_says(
    state: LifecycleView,
    prepared: PreparedView,
    existing: Option<RegistrationView>,
    bin_dir: Seq<u8>,
    registrations: Seq<RegistrationView>,
    link_seen: ObservationView,
    target_seen: ObservationView,
    environment: EnvironmentView,
)
    requires
        state.phase == (PhaseView::Examining {
            bin_dir,
            subject: SubjectView::Adding { prepared, existing },
            registrations,
        }),
        state.task is AddPrepared || state.task is ValidatePrepared,
    ensures
        ({
            let after = state.advance(
                EventView::Observed(seq![link_seen, target_seen]),
                environment,
            );
            &&& existing matches Some(registered) ==> (application::inspected(
                registered,
                bin_dir,
                link_seen,
                target_seen,
            ) matches Ok(found) ==> blocked_with(
                after,
                "command-name-registered"@,
                Some(found),
                Some(
                    "Command Name "@ + text::quoted_text(prepared.name)
                        + " is already registered to "@ + text::lossy_text(registered.target),
                ),
            ))
            &&& existing is None && link_seen.entry is Ok ==> blocked_with(
                after,
                "managed-path-occupied"@,
                None,
                Some(
                    "managed path "@ + text::lossy_text(prepared.managed_link)
                        + " is occupied by an unmanaged entry"@,
                ),
            )
        }),
{
    reveal(LifecycleView::on_observed);
    reveal(LifecycleView::examined);
    reveal(LifecycleView::adding_examined);
}

/// What a change reports that has been made: the Registration as it is found then, blocked where it
/// has a defect. Only an addition counts as done whatever is found.
pub proof fn what_a_made_change_reports(
    identifier: Seq<char>,
    found: RegistrationStateView,
)
    ensures
        application::reported(identifier, found).identifier == identifier,
        application::reported(identifier, found).registration == Some(found),
        application::reported(identifier, found).conflict is None,
        application::reported(identifier, found).status == LifecycleStatus::Healthy
            <==> found.defect is None,
{
}

} // verus!
