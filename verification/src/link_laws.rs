//! What operations do to links, and what becomes of links when an operation fails before the
//! Registry is replaced.

use vstd::prelude::*;

use crate::application;
use crate::atomic_write::WriteStage;
use crate::environment::EnvironmentView;
use crate::host::ObservationView;
use crate::lifecycle;
use crate::lifecycle::{ChangeView, EventView, LifecycleView, PhaseView, PreparedView, RequestView};
use crate::lifecycle_laws;
use crate::model::RegistrationView;
use crate::path;
use crate::registry;

verus! {

/// The links of a file system, each with the components of its text.
pub type Links = Map<Seq<u8>, Seq<Seq<u8>>>;

/// The links once a request was carried out, or failed, as the event says.
pub open spec fn links_after(links: Links, request: RequestView, event: EventView) -> Links {
    match (request, event) {
        (RequestView::CreateLink { target, link, .. }, EventView::Done(Ok(_))) => links.insert(
            link,
            path::components(target),
        ),
        (RequestView::RemoveLink(link), EventView::Done(Ok(_))) => links.remove(link),
        _ => links,
    }
}

/// A host that tells the truth about its links and never replaces the Registry. Anything may fail
/// on it but the steps that take links back.
pub open spec fn honest(
    links: Links,
    phase: PhaseView,
    request: RequestView,
    event: EventView,
) -> bool {
    match request {
        RequestView::CreateLink { link, .. } => {
            &&& event matches EventView::Done(Ok(_)) ==> !links.contains_key(link)
            &&& phase is RestoreCreating ==> (event matches EventView::Done(Ok(_)))
        },
        RequestView::RemoveLink(_) => phase is UndoRemoving ==> (event matches EventView::Done(
            Ok(_),
        )),
        RequestView::ReadLink { link, .. } => {
            &&& event matches EventView::LinkRead(Ok(Some(text))) ==> links.contains_key(link)
                && links[link] == path::components(text)
            &&& event matches EventView::LinkRead(Ok(None)) ==> !links.contains_key(link)
            &&& phase is UndoChecking ==> (event matches EventView::LinkRead(Ok(_)))
        },
        RequestView::Observe(paths) => phase is RestoreObserving ==> {
            &&& event is Observed
            &&& event->Observed_0.len() == 1
            &&& event->Observed_0[0].entry is Err <==> !links.contains_key(paths[0])
        },
        RequestView::Write(_) => event matches EventView::Written(outcome, _) ==> (
        outcome matches Err(failure) && failure.stage != WriteStage::Directory),
        _ => true,
    }
}

/// A change that takes back what it makes, and puts back what it takes away, no more and no less.
pub open spec fn balanced(change: ChangeView) -> bool {
    &&& change.undo_create == change.create
    &&& change.undo_remove == change.remove
    &&& change.create is Some && change.remove is Some ==> change.create->0
        != change.remove->0.link
}

/// The links with the one that a change makes.
pub open spec fn with_made(links: Links, change: ChangeView) -> Links {
    match change.create {
        Some(link) => links.insert(link, path::components(change.target)),
        None => links,
    }
}

/// The links with all that a change does to them.
pub open spec fn with_change(links: Links, change: ChangeView) -> Links {
    match change.remove {
        Some(removal) => with_made(links, change).remove(removal.link),
        None => with_made(links, change),
    }
}

/// The link that a change makes was not there.
pub open spec fn makes_a_new_link(links: Links, change: ChangeView) -> bool {
    change.create matches Some(link) ==> !links.contains_key(link)
}

/// The link was there, with this text.
pub open spec fn was_there(links: Links, removal: lifecycle::LinkTextView) -> bool {
    links.contains_key(removal.link) && links[removal.link] == path::components(removal.text)
}

/// The link that a change takes away was there.
pub open spec fn takes_a_link_away(links: Links, change: ChangeView) -> bool {
    change.remove matches Some(removal) ==> was_there(links, removal)
}

/// The links that a phase of a change has to do with, where the links were `original` before.
pub open spec fn accounted(phase: PhaseView, original: Links, links: Links) -> bool {
    match phase {
        PhaseView::CreatingBinDirectory { link, change } => balanced(change) && change.create
            == Some(link) && links == original,
        PhaseView::CreatingLink { link, change } => balanced(change) && change.create == Some(link)
            && links == original,
        PhaseView::CheckingLink { removal, change } => balanced(change) && change.remove == Some(
            removal,
        ) && makes_a_new_link(original, change) && links == with_made(original, change),
        PhaseView::RemovingLink { removal, change } => balanced(change) && change.remove == Some(
            removal,
        ) && makes_a_new_link(original, change) && was_there(original, removal) && links
            == with_made(original, change),
        PhaseView::Writing { change, .. } => balanced(change) && makes_a_new_link(original, change)
            && takes_a_link_away(original, change) && links == with_change(original, change),
        PhaseView::UndoChecking { link, change, restore, .. } => undoing(
            original,
            links,
            link,
            change,
            restore,
        ),
        PhaseView::UndoRemoving { link, change, restore, .. } => undoing(
            original,
            links,
            link,
            change,
            restore,
        ),
        PhaseView::RestoreObserving { removal, .. } => was_there(original, removal) && links
            == original.remove(removal.link),
        PhaseView::RestoreCreating { removal, .. } => was_there(original, removal) && links
            == original.remove(removal.link),
        _ => lifecycle_laws::stage(phase) >= 5 && links == original,
    }
}

/// A link that was made is about to be taken back; one that was taken away is then restored.
pub open spec fn undoing(
    original: Links,
    links: Links,
    link: Seq<u8>,
    change: ChangeView,
    restore: bool,
) -> bool {
    &&& balanced(change)
    &&& change.create == Some(link)
    &&& makes_a_new_link(original, change)
    &&& if restore {
        takes_a_link_away(original, change) && links == with_change(original, change)
    } else {
        links == with_made(original, change)
    }
}

proof fn failing_is_accounted(
    state: LifecycleView,
    error: application::ApplicationErrorView,
    original: Links,
)
    ensures
        accounted(state.fail(error).phase, original, original),
{
    reveal(LifecycleView::fail);
    reveal(LifecycleView::mutation_failed);
}

proof fn restoring_is_accounted(
    state: LifecycleView,
    change: ChangeView,
    error: application::ApplicationErrorView,
    restore: bool,
    original: Links,
    links: Links,
)
    requires
        balanced(change),
        if restore && change.remove is Some {
            was_there(original, change.remove->0) && links == original.remove(
                change.remove->0.link,
            )
        } else {
            links == original
        },
    ensures
        accounted(state.restore(change, error, restore).phase, original, links),
{
    reveal(LifecycleView::restore);
    failing_is_accounted(state, error, original);
}

proof fn undoing_is_accounted(
    state: LifecycleView,
    change: ChangeView,
    error: application::ApplicationErrorView,
    restore: bool,
    original: Links,
    links: Links,
)
    requires
        balanced(change),
        makes_a_new_link(original, change),
        if restore {
            takes_a_link_away(original, change) && links == with_change(original, change)
        } else {
            links == with_made(original, change)
        },
    ensures
        accounted(state.undo(change, error, restore).phase, original, links),
{
    reveal(LifecycleView::undo);
    if change.undo_create is None {
        restoring_is_accounted(state, change, error, restore, original, links);
    }
}

proof fn writing_is_accounted(
    state: LifecycleView,
    change: ChangeView,
    environment: EnvironmentView,
    original: Links,
    links: Links,
)
    requires
        balanced(change),
        makes_a_new_link(original, change),
        takes_a_link_away(original, change),
        links == with_change(original, change),
    ensures
        accounted(state.write(change, environment).phase, original, links),
{
    reveal(LifecycleView::write);
    if let Err(error) = registry::stored(change.registrations, environment) {
        undoing_is_accounted(
            state,
            change,
            application::ApplicationErrorView::Registry(error),
            true,
            original,
            links,
        );
    }
}

proof fn removing_is_accounted(
    state: LifecycleView,
    change: ChangeView,
    environment: EnvironmentView,
    original: Links,
    links: Links,
)
    requires
        balanced(change),
        makes_a_new_link(original, change),
        links == with_made(original, change),
    ensures
        accounted(state.remove_link(change, environment).phase, original, links),
{
    reveal(LifecycleView::remove_link);
    if change.remove is None {
        writing_is_accounted(state, change, environment, original, links);
    }
}

/// A change begins with the links as they were.
pub proof fn changes_begin_accounted(
    state: LifecycleView,
    change: ChangeView,
    environment: EnvironmentView,
    links: Links,
)
    requires
        balanced(change),
    ensures
        accounted(state.change(change, environment).phase, links, links),
{
    reveal(LifecycleView::change);
    if change.create is None {
        removing_is_accounted(state, change, environment, links, links);
    }
}

/// Where the Registry is not replaced, a balanced change leaves the links as they were: after every
/// step the phase accounts for all that differs, and in a phase that reports a failure nothing does.
pub proof fn failures_leave_the_links(
    state: LifecycleView,
    event: EventView,
    environment: EnvironmentView,
    original: Links,
    links: Links,
)
    requires
        accounted(state.phase, original, links),
        honest(links, state.phase, state.request(environment), event),
    ensures
        accounted(
            state.advance(event, environment).phase,
            original,
            links_after(links, state.request(environment), event),
        ),
        lifecycle_laws::stage(state.advance(event, environment).phase) >= 5 ==> links_after(
            links,
            state.request(environment),
            event,
        ) == original,
{
    let base = state.at(PhaseView::Configuring);
    let next = state.advance(event, environment);
    let request = state.request(environment);
    let now = links_after(links, request, event);
    reveal(LifecycleView::on_configuration);
    reveal(LifecycleView::on_registry);
    reveal(LifecycleView::on_done);
    reveal(LifecycleView::on_observed);
    reveal(LifecycleView::on_link_read);
    reveal(LifecycleView::written);
    assert forall|error: application::ApplicationErrorView| accounted(
        (#[trigger] base.fail(error)).phase,
        original,
        original,
    ) by {
        failing_is_accounted(base, error, original);
    }
    match state.phase {
        PhaseView::CreatingBinDirectory { .. } => {},
        PhaseView::CreatingLink { link, change } => {
            if event matches EventView::Done(Ok(_)) {
                removing_is_accounted(base, change, environment, original, now);
            }
        },
        PhaseView::CheckingLink { removal, change } => {
            if let EventView::LinkRead(outcome) = event {
                reveal(LifecycleView::link_checked);
                if let Err(source) = outcome {
                    undoing_is_accounted(
                        base,
                        change,
                        application::ApplicationErrorView::RemoveManagedLink {
                            path: removal.link,
                            source,
                        },
                        false,
                        original,
                        links,
                    );
                } else {
                    undoing_is_accounted(
                        base,
                        change,
                        lifecycle::changed_before_removal(removal.link),
                        false,
                        original,
                        links,
                    );
                }
            }
        },
        PhaseView::RemovingLink { removal, change } => {
            if let EventView::Done(outcome) = event {
                if let Err(source) = outcome {
                    undoing_is_accounted(
                        base,
                        change,
                        application::ApplicationErrorView::RemoveManagedLink {
                            path: removal.link,
                            source,
                        },
                        false,
                        original,
                        links,
                    );
                } else {
                    writing_is_accounted(base, change, environment, original, now);
                }
            }
        },
        PhaseView::Writing { change, .. } => {
            if let EventView::Written(outcome, temporary) = event {
                let error = registry::write_error(
                    outcome->Err_0,
                    temporary,
                    registry::registry_path_of(environment),
                );
                undoing_is_accounted(
                    base,
                    change,
                    application::ApplicationErrorView::Registry(error),
                    true,
                    original,
                    links,
                );
            }
        },
        PhaseView::UndoChecking { .. } => {},
        PhaseView::UndoRemoving { link, change, error, restore } => {
            if change.remove is Some {
                assert(with_change(original, change).remove(link) =~= original.remove(
                    change.remove->0.link,
                ));
            }
            assert(with_made(original, change).remove(link) =~= original);
            restoring_is_accounted(base, change, error, restore, original, now);
        },
        PhaseView::RestoreObserving { .. } => {},
        PhaseView::RestoreCreating { removal, .. } => {
            assert(original.remove(removal.link).insert(
                removal.link,
                path::components(removal.text),
            ) =~= original);
        },
        _ => {
            lifecycle_laws::a_committed_change_is_final(state, event, environment);
            lifecycle_laws::operations_go_forward(state, event, environment);
        },
    }
}

/// Every addition, every removal and every renaming to another link is balanced.
pub proof fn most_changes_are_balanced(
    bin_dir: Seq<u8>,
    registrations: Seq<RegistrationView>,
    at: int,
    prepared: PreparedView,
    new_name: Seq<char>,
    link: Seq<u8>,
    new_link: Seq<u8>,
    seen: ObservationView,
)
    ensures
        balanced(lifecycle::adding_change(bin_dir, registrations, prepared)),
        balanced(lifecycle::removing_change(bin_dir, registrations, at, link, seen)),
        link != new_link ==> balanced(
            lifecycle::renaming_change(
                bin_dir,
                registrations,
                at,
                new_name,
                link,
                new_link,
                seen,
            ),
        ),
{
}

/// Enabling is balanced where the link is not there yet, and disabling where it is.
pub proof fn when_enabling_is_balanced(
    bin_dir: Seq<u8>,
    registrations: Seq<RegistrationView>,
    at: int,
    enabled: bool,
    link: Seq<u8>,
    seen: ObservationView,
)
    requires
        enabled ==> !application::owns(seen, registrations[at].target),
        !enabled ==> application::owns(seen, registrations[at].target)
            || lifecycle::removable_broken_link(registrations[at], enabled, seen),
    ensures
        balanced(lifecycle::enabling_change(bin_dir, registrations, at, enabled, link, seen)),
{
}

/// Where the Registry is replaced, the change to the links has been made in full.
pub proof fn a_replacement_follows_the_links(
    state: LifecycleView,
    temporary: Seq<u8>,
    environment: EnvironmentView,
    original: Links,
    links: Links,
)
    requires
        state.phase is Writing,
        accounted(state.phase, original, links),
    ensures
        state.advance(EventView::Written(Ok(()), temporary), environment).phase
            matches PhaseView::Synchronizing { change } && links == with_change(original, change),
{
    reveal(LifecycleView::written);
}

/// An addition publishes its Target unless it is disabled.
pub proof fn what_an_addition_publishes(
    bin_dir: Seq<u8>,
    registrations: Seq<RegistrationView>,
    prepared: PreparedView,
    links: Links,
)
    ensures
        ({
            let after = with_change(
                links,
                lifecycle::adding_change(bin_dir, registrations, prepared),
            );
            if prepared.disabled {
                after == links
            } else {
                after == links.insert(prepared.managed_link, path::components(prepared.target))
            }
        }),
{
}

/// What is enabled is published, and what is disabled is not; no other link changes.
pub proof fn what_enabling_publishes(
    bin_dir: Seq<u8>,
    registrations: Seq<RegistrationView>,
    at: int,
    enabled: bool,
    link: Seq<u8>,
    seen: ObservationView,
    links: Links,
)
    requires
        application::owns(seen, registrations[at].target) ==> links.contains_key(link)
            && links[link] == path::components(registrations[at].target),
        seen.entry is Err ==> !links.contains_key(link),
        seen.entry is Ok ==> application::owns(seen, registrations[at].target)
            || lifecycle::removable_broken_link(registrations[at], enabled, seen),
    ensures
        ({
            let after = with_change(
                links,
                lifecycle::enabling_change(bin_dir, registrations, at, enabled, link, seen),
            );
            if enabled {
                after == links.insert(link, path::components(registrations[at].target))
            } else {
                after == links.remove(link)
            }
        }),
{
    if enabled && application::owns(seen, registrations[at].target) {
        assert(links.insert(link, path::components(registrations[at].target)) =~= links);
    }
    if !enabled && seen.entry is Err {
        assert(links.remove(link) =~= links);
    }
}

/// Of what is removed no link is left that belonged to it; no other link changes.
pub proof fn what_removing_takes_away(
    bin_dir: Seq<u8>,
    registrations: Seq<RegistrationView>,
    at: int,
    link: Seq<u8>,
    seen: ObservationView,
    links: Links,
)
    requires
        seen.entry is Err ==> !links.contains_key(link),
        seen.entry is Ok ==> application::owns(seen, registrations[at].target),
    ensures
        with_change(links, lifecycle::removing_change(bin_dir, registrations, at, link, seen))
            == links.remove(link),
{
    if seen.entry is Err {
        assert(links.remove(link) =~= links);
    }
}

/// What is renamed is published under the new name if it is enabled, and its own link under the old
/// name is gone; no other link changes.
pub proof fn what_renaming_publishes(
    bin_dir: Seq<u8>,
    registrations: Seq<RegistrationView>,
    at: int,
    new_name: Seq<char>,
    old_link: Seq<u8>,
    new_link: Seq<u8>,
    seen: ObservationView,
    links: Links,
)
    requires
        seen.entry is Err ==> !links.contains_key(old_link),
        old_link != new_link,
    ensures
        ({
            let registration = registrations[at];
            let made = if registration.enabled {
                links.insert(new_link, path::components(registration.target))
            } else {
                links
            };
            let after = with_change(
                links,
                lifecycle::renaming_change(
                    bin_dir,
                    registrations,
                    at,
                    new_name,
                    old_link,
                    new_link,
                    seen,
                ),
            );
            after == if application::owns(seen, registration.target) || seen.entry is Err {
                made.remove(old_link)
            } else {
                made
            }
        }),
{
    let registration = registrations[at];
    if seen.entry is Err {
        assert(links.remove(old_link) =~= links);
        let made = links.insert(new_link, path::components(registration.target));
        assert(made.remove(old_link) =~= made);
    }
}

/// A look at a managed path that tells the truth about the links.
pub open spec fn truthful(
    seen: ObservationView,
    links: Links,
    link: Seq<u8>,
    target: Seq<u8>,
) -> bool {
    &&& seen.entry is Err ==> !links.contains_key(link)
    &&& application::owns(seen, target) <==> links.contains_key(link) && links[link]
        == path::components(target)
}

/// Enabling or disabling a second time changes nothing and reports the same: on the Registry and
/// the links that the first time left, it goes straight to the report that the first time gave.
pub proof fn a_second_time_changes_nothing(
    state: LifecycleView,
    bin_dir: Seq<u8>,
    registrations: Seq<RegistrationView>,
    at: int,
    enabled: bool,
    link: Seq<u8>,
    seen: ObservationView,
    links: Links,
    seen_again: ObservationView,
    target_seen: ObservationView,
    environment: EnvironmentView,
)
    requires
        0 <= at < registrations.len(),
        truthful(seen, links, link, registrations[at].target),
        seen.entry is Ok ==> application::owns(seen, registrations[at].target)
            || lifecycle::removable_broken_link(registrations[at], enabled, seen),
        ({
            let change = lifecycle::enabling_change(
                bin_dir,
                registrations,
                at,
                enabled,
                link,
                seen,
            );
            let after = with_change(links, change);
            &&& truthful(seen_again, after, link, registrations[at].target)
            &&& !after.contains_key(link) ==> seen_again.entry is Err
        }),
    ensures
        ({
            let change = lifecycle::enabling_change(
                bin_dir,
                registrations,
                at,
                enabled,
                link,
                seen,
            );
            let again = state.enabling_examined(
                enabled,
                bin_dir,
                at,
                link,
                change.registrations,
                seen_again,
                target_seen,
                environment,
            );
            &&& again == state.report_observed(bin_dir, change.report, seen_again, target_seen)
            &&& lifecycle_laws::stage(again.phase) >= 5
            &&& change.registrations[at] == lifecycle::with_enabled(registrations[at], enabled)
        }),
{
    reveal(LifecycleView::enabling_examined);
    reveal(LifecycleView::report_observed);
    reveal(LifecycleView::fail);
    reveal(LifecycleView::mutation_failed);
    what_enabling_publishes(bin_dir, registrations, at, enabled, link, seen, links);
    let change = lifecycle::enabling_change(bin_dir, registrations, at, enabled, link, seen);
    assert(change.registrations[at] == lifecycle::with_enabled(registrations[at], enabled));
    if enabled {
        assert(with_change(links, change).contains_key(link));
    } else {
        assert(!with_change(links, change).contains_key(link));
    }
}

} // verus!
