//! What holds of every operation on a Registration, whatever the host reports.

use vstd::prelude::*;

use crate::application;
use crate::application::ApplicationErrorView;
use crate::atomic_write::WriteStage;
use crate::config_git::ConfigGitErrorView;
use crate::environment::EnvironmentView;
use crate::host::{IoErrorKind, ObservationView};
use crate::lifecycle;
use crate::lifecycle::{
    ChangeView,
    EventView,
    FailureView,
    LifecycleView,
    PhaseView,
    PreparedView,
    RequestView,
    TaskView,
};
use crate::model;
use crate::model::{LifecycleStatus, RegistrationView};
use crate::order;
use crate::path;
use crate::registry;
use crate::text;

verus! {

/// How far an operation has come: it reads, changes links, replaces the Registry, takes links
/// back, reports what is committed, or reports a failure.
pub open spec fn stage(phase: PhaseView) -> int {
    match phase {
        PhaseView::Configuring => 0,
        PhaseView::CheckingTarget { .. } => 0,
        PhaseView::CreatingRegistryDirectory { .. } => 0,
        PhaseView::Locking { .. } => 0,
        PhaseView::ReadingRegistry { .. } => 0,
        PhaseView::Examining { .. } => 0,
        PhaseView::CreatingBinDirectory { .. } => 1,
        PhaseView::CreatingLink { .. } => 1,
        PhaseView::CheckingLink { .. } => 1,
        PhaseView::RemovingLink { .. } => 1,
        PhaseView::Writing { .. } => 2,
        PhaseView::UndoChecking { .. } => 3,
        PhaseView::UndoRemoving { .. } => 3,
        PhaseView::RestoreObserving { .. } => 3,
        PhaseView::RestoreCreating { .. } => 3,
        PhaseView::Synchronizing { .. } => 4,
        PhaseView::Reporting { .. } => 4,
        PhaseView::FailureConfiguring { .. } => 5,
        PhaseView::FailureObserving { .. } => 5,
        PhaseView::FailureReading { .. } => 5,
        PhaseView::FailureInspecting { .. } => 5,
        PhaseView::Finished(_) => 6,
    }
}

/// The request changes a link or the Registry file.
pub open spec fn mutates(request: RequestView) -> bool {
    request is CreateLink || request is RemoveLink || request is Write
}

proof fn fail_ends(state: LifecycleView, error: ApplicationErrorView)
    ensures
        stage(state.fail(error).phase) >= 5,
{
    reveal(LifecycleView::fail);
    reveal(LifecycleView::mutation_failed);
}

proof fn restore_goes_on(
    state: LifecycleView,
    change: ChangeView,
    error: ApplicationErrorView,
    restore: bool,
)
    ensures
        ({
            let next = state.restore(change, error, restore).phase;
            stage(next) >= 5 || next is RestoreObserving
        }),
{
    reveal(LifecycleView::restore);
    fail_ends(state, error);
}

proof fn undo_goes_on(
    state: LifecycleView,
    change: ChangeView,
    error: ApplicationErrorView,
    restore: bool,
)
    ensures
        ({
            let next = state.undo(change, error, restore).phase;
            stage(next) >= 5 || next is RestoreObserving || next is UndoChecking
        }),
{
    reveal(LifecycleView::undo);
    restore_goes_on(state, change, error, restore);
}

proof fn write_goes_on(state: LifecycleView, change: ChangeView, environment: EnvironmentView)
    ensures
        ({
            let next = state.write(change, environment).phase;
            stage(next) >= 5 || next is RestoreObserving || next is UndoChecking
                || next is Writing
        }),
{
    reveal(LifecycleView::write);
    if let Err(error) = registry::stored(change.registrations, environment) {
        undo_goes_on(state, change, ApplicationErrorView::Registry(error), true);
    }
}

proof fn remove_link_goes_on(
    state: LifecycleView,
    change: ChangeView,
    environment: EnvironmentView,
)
    ensures
        ({
            let next = state.remove_link(change, environment).phase;
            stage(next) >= 5 || next is RestoreObserving || next is UndoChecking
                || next is Writing || next is CheckingLink
        }),
{
    reveal(LifecycleView::remove_link);
    write_goes_on(state, change, environment);
}

proof fn change_goes_on(state: LifecycleView, change: ChangeView, environment: EnvironmentView)
    ensures
        ({
            let next = state.change(change, environment).phase;
            stage(next) >= 5 || next is RestoreObserving || next is UndoChecking
                || next is Writing || next is CheckingLink || next is CreatingBinDirectory
        }),
{
    reveal(LifecycleView::change);
    remove_link_goes_on(state, change, environment);
}

/// What can follow a look at a Registration.
pub open spec fn decided(phase: PhaseView) -> bool {
    stage(phase) >= 5 || phase is RestoreObserving || phase is UndoChecking || phase is Writing
        || phase is CheckingLink || phase is CreatingBinDirectory || phase is Examining
}

proof fn examined_decides(
    state: LifecycleView,
    bin_dir: Seq<u8>,
    subject: lifecycle::SubjectView,
    registrations: Seq<RegistrationView>,
    seen: Seq<ObservationView>,
    environment: EnvironmentView,
)
    ensures
        decided(state.examined(bin_dir, subject, registrations, seen, environment).phase),
        state.examined(bin_dir, subject, registrations, seen, environment).task == state.task,
{
    reveal(LifecycleView::examined);
    reveal(LifecycleView::enabling_examined);
    reveal(LifecycleView::removing_examined);
    reveal(LifecycleView::renaming_examined);
    reveal(LifecycleView::adding_examined);
    assert forall|error: ApplicationErrorView| stage(
        (#[trigger] state.fail(error)).phase,
    ) >= 5 by {
        fail_ends(state, error);
    }
    assert forall|change: ChangeView| decided(
        (#[trigger] state.change(change, environment)).phase,
    ) by {
        change_goes_on(state, change, environment);
    }
    task_stays(state, environment);
}

proof fn task_stays(state: LifecycleView, environment: EnvironmentView)
    ensures
        forall|error: ApplicationErrorView| (#[trigger] state.fail(error)).task == state.task,
        forall|change: ChangeView|
            (#[trigger] state.change(change, environment)).task == state.task,
{
    reveal(LifecycleView::fail);
    reveal(LifecycleView::mutation_failed);
    reveal(LifecycleView::restore);
    reveal(LifecycleView::undo);
    reveal(LifecycleView::write);
    reveal(LifecycleView::remove_link);
    reveal(LifecycleView::change);
}

proof fn look_up_ends(
    state: LifecycleView,
    failure: FailureView,
    message: Seq<char>,
    bin_dir: Seq<u8>,
    next: int,
    registrations: Seq<RegistrationView>,
)
    ensures
        stage(state.look_up(failure, message, bin_dir, next, registrations).phase) >= 5,
    decreases failure.names.len() - next,
{
    reveal(LifecycleView::mutation_failed);
    if next < failure.names.len() {
        look_up_ends(state, failure, message, bin_dir, next + 1, registrations);
    }
}

proof fn on_configuration_goes_on(
    state: LifecycleView,
    read: crate::host::FileReadView<crate::configuration::ConfigFileView>,
    environment: EnvironmentView,
)
    ensures
        ({
            let next = state.on_configuration(read, environment);
            next == state || stage(next.phase) >= 5 || (stage(next.phase) == 0 && stage(
                state.phase,
            ) == 0)
        }),
{
    reveal(LifecycleView::on_configuration);
    reveal(LifecycleView::configured);
    reveal(LifecycleView::failure_configured);
    reveal(LifecycleView::mutation_failed);
    let base = state.at(PhaseView::Configuring);
    assert forall|error: ApplicationErrorView| stage(
        (#[trigger] base.fail(error)).phase,
    ) >= 5 by {
        fail_ends(base, error);
    }
}

proof fn on_registry_goes_on(
    state: LifecycleView,
    read: crate::host::FileReadView<registry::RegistryFileView>,
    environment: EnvironmentView,
)
    ensures
        ({
            let next = state.on_registry(read, environment);
            next == state || stage(next.phase) >= 5 || (stage(next.phase) == 0 && stage(
                state.phase,
            ) == 0)
        }),
{
    reveal(LifecycleView::on_registry);
    reveal(LifecycleView::registry_read);
    reveal(LifecycleView::existing);
    reveal(LifecycleView::renaming);
    reveal(LifecycleView::adding);
    reveal(LifecycleView::failure_read);
    reveal(LifecycleView::mutation_failed);
    let base = state.at(PhaseView::Configuring);
    assert forall|error: ApplicationErrorView| stage(
        (#[trigger] base.fail(error)).phase,
    ) >= 5 by {
        fail_ends(base, error);
    }
    assert forall|
        failure: FailureView,
        message: Seq<char>,
        bin_dir: Seq<u8>,
        next: int,
        registrations: Seq<RegistrationView>,
    |
        stage(
            (#[trigger] base.look_up(failure, message, bin_dir, next, registrations)).phase,
        ) >= 5 by {
        look_up_ends(base, failure, message, bin_dir, next, registrations);
    }
}

/// What can follow a completed request.
proof fn on_done_goes_on(
    state: LifecycleView,
    outcome: Result<(), crate::host::IoErrorView>,
    environment: EnvironmentView,
)
    ensures
        ({
            let next = state.on_done(outcome, environment).phase;
            &&& stage(next) >= stage(state.phase)
            &&& state.on_done(outcome, environment) == state || next !is RemovingLink
                && next !is UndoRemoving
            &&& stage(state.phase) >= 4 ==> stage(next) >= 4
            &&& stage(state.phase) == 3 ==> stage(next) == 3 || stage(next) >= 5
            &&& stage(next) == 4 ==> stage(state.phase) == 4
        }),
{
    reveal(LifecycleView::on_done);
    let base = state.at(PhaseView::Configuring);
    assert forall|error: ApplicationErrorView| stage(
        (#[trigger] base.fail(error)).phase,
    ) >= 5 by {
        fail_ends(base, error);
    }
    match state.phase {
        PhaseView::CreatingLink { change, .. } => {
            remove_link_goes_on(base, change, environment);
        },
        PhaseView::RemovingLink { removal, change } => {
            write_goes_on(base, change, environment);
            if let Err(source) = outcome {
                undo_goes_on(
                    base,
                    change,
                    ApplicationErrorView::RemoveManagedLink { path: removal.link, source },
                    false,
                );
            }
        },
        PhaseView::UndoRemoving { change, error, restore, .. } => {
            restore_goes_on(base, change, error, restore);
        },
        _ => {},
    }
}

proof fn on_observed_goes_on(
    state: LifecycleView,
    seen: Seq<ObservationView>,
    environment: EnvironmentView,
)
    ensures
        ({
            let next = state.on_observed(seen, environment);
            &&& stage(next.phase) >= stage(state.phase)
            &&& next == state || next.phase !is RemovingLink && next.phase !is UndoRemoving
            &&& stage(state.phase) == 3 ==> stage(next.phase) == 3 || stage(next.phase) >= 5
            &&& stage(next.phase) == 4 ==> stage(state.phase) == 4
        }),
{
    reveal(LifecycleView::on_observed);
    reveal(LifecycleView::target_checked);
    reveal(LifecycleView::report_observed);
    reveal(LifecycleView::failure_inspected);
    reveal(LifecycleView::mutation_failed);
    let base = state.at(PhaseView::Configuring);
    assert forall|error: ApplicationErrorView| stage(
        (#[trigger] base.fail(error)).phase,
    ) >= 5 by {
        fail_ends(base, error);
    }
    match state.phase {
        PhaseView::Examining { bin_dir, subject, registrations } => {
            examined_decides(base, bin_dir, subject, registrations, seen, environment);
        },
        PhaseView::FailureInspecting { message, bin_dir, next, registrations, .. } => {
            if let Some(failure) = state.failure {
                look_up_ends(base, failure, message, bin_dir, next, registrations);
            }
        },
        _ => {},
    }
}

proof fn on_link_read_goes_on(
    state: LifecycleView,
    outcome: Result<Option<Seq<u8>>, crate::host::IoErrorView>,
)
    ensures
        ({
            let next = state.on_link_read(outcome);
            &&& stage(next.phase) >= stage(state.phase)
            &&& stage(state.phase) == 3 ==> stage(next.phase) == 3 || stage(next.phase) >= 5
            &&& stage(next.phase) == 4 ==> stage(state.phase) == 4
            &&& next == state || (next.phase matches PhaseView::RemovingLink { removal, change }
                ==> {
                &&& state.phase == (PhaseView::CheckingLink { removal, change })
                &&& outcome matches Ok(Some(text)) && path::components(text)
                    == path::components(removal.text)
            })
            &&& next == state || (next.phase matches PhaseView::UndoRemoving { link, change, .. }
                ==> {
                &&& state.phase matches PhaseView::UndoChecking { link: l, change: c, .. } && l
                    == link && c == change
                &&& outcome matches Ok(Some(text)) && path::components(text)
                    == path::components(change.target)
            })
        }),
{
    reveal(LifecycleView::on_link_read);
    reveal(LifecycleView::link_checked);
    let base = state.at(PhaseView::Configuring);
    match state.phase {
        PhaseView::CheckingLink { removal, change } => {
            undo_goes_on(base, change, lifecycle::changed_before_removal(removal.link), false);
            if let Err(source) = outcome {
                undo_goes_on(
                    base,
                    change,
                    ApplicationErrorView::RemoveManagedLink { path: removal.link, source },
                    false,
                );
            }
        },
        PhaseView::UndoChecking { change, error, restore, .. } => {
            restore_goes_on(base, change, error, restore);
        },
        _ => {},
    }
}

proof fn on_written_goes_on(
    state: LifecycleView,
    change: ChangeView,
    outcome: Result<(), crate::atomic_write::WriteFailureView>,
    temporary: Seq<u8>,
    environment: EnvironmentView,
)
    ensures
        ({
            let next = state.written(change, outcome, temporary, environment).phase;
            match outcome {
                Ok(_) => next == (PhaseView::Synchronizing { change }),
                Err(failure) => if failure.stage == WriteStage::Directory {
                    stage(next) >= 5
                } else {
                    next is UndoChecking || next is RestoreObserving || stage(next) >= 5
                },
            }
        }),
{
    reveal(LifecycleView::written);
    if let Err(failure) = outcome {
        let error = registry::write_error(
            failure,
            temporary,
            registry::registry_path_of(environment),
        );
        fail_ends(state, ApplicationErrorView::Registry(error));
        undo_goes_on(state, change, ApplicationErrorView::Registry(error), true);
    }
}

proof fn on_synchronized_goes_on(
    state: LifecycleView,
    change: ChangeView,
    outcome: Result<(), crate::config_git::ConfigGitErrorView>,
)
    ensures
        stage(state.synchronized(change, outcome).phase) >= 4,
        state.synchronized(change, outcome).phase !is Synchronizing,
{
    reveal(LifecycleView::synchronized);
    reveal(LifecycleView::report);
    assert forall|error: ApplicationErrorView| stage(
        (#[trigger] state.fail(error)).phase,
    ) >= 5 by {
        fail_ends(state, error);
    }
}

/// An operation only goes forward: it reads before it changes links, changes links before it
/// replaces the Registry, and never goes back from a later stage to an earlier one.
pub proof fn operations_go_forward(
    state: LifecycleView,
    event: EventView,
    environment: EnvironmentView,
)
    ensures
        stage(state.advance(event, environment).phase) >= stage(state.phase),
{
    let base = state.at(PhaseView::Configuring);
    match event {
        EventView::Configuration(read) => {
            on_configuration_goes_on(state, read, environment);
            reveal(LifecycleView::on_configuration);
            reveal(LifecycleView::failure_configured);
            reveal(LifecycleView::mutation_failed);
        },
        EventView::Registry(read) => {
            on_registry_goes_on(state, read, environment);
            if state.phase is Finished {
                reveal(LifecycleView::on_registry);
            }
        },
        EventView::Done(outcome) => {
            on_done_goes_on(state, outcome, environment);
        },
        EventView::Observed(seen) => {
            on_observed_goes_on(state, seen, environment);
        },
        EventView::LinkRead(outcome) => {
            on_link_read_goes_on(state, outcome);
        },
        EventView::Written(outcome, temporary) => {
            if let PhaseView::Writing { change, .. } = state.phase {
                on_written_goes_on(base, change, outcome, temporary, environment);
            }
        },
        EventView::Synchronized(outcome) => {
            if let PhaseView::Synchronizing { change } = state.phase {
                on_synchronized_goes_on(base, change, outcome);
            }
        },
    }
}

/// Once the Registry has been replaced, no link and no Registry file is touched again.
pub proof fn a_committed_change_is_final(
    state: LifecycleView,
    event: EventView,
    environment: EnvironmentView,
)
    requires
        stage(state.phase) >= 4,
    ensures
        !mutates(state.request(environment)),
        stage(state.advance(event, environment).phase) >= 4,
        !mutates(state.advance(event, environment).request(environment)),
{
    operations_go_forward(state, event, environment);
}

/// The Registry counts as replaced exactly when its write succeeded or failed only to sync the
/// directory afterwards. Whatever else a write reports, the operation ends without reporting the
/// change as made.
pub proof fn only_a_replacement_commits(
    state: LifecycleView,
    event: EventView,
    environment: EnvironmentView,
)
    ensures
        state.phase !is Synchronizing && state.advance(event, environment).phase
            is Synchronizing ==> state.phase is Writing && (event matches EventView::Written(
            outcome,
            _,
        ) && outcome is Ok),
        stage(state.phase) == 3 ==> stage(state.advance(event, environment).phase) == 3 || stage(
            state.advance(event, environment).phase,
        ) >= 5,
        state.phase is Writing && (event matches EventView::Written(Err(failure), _)
            && failure.stage == WriteStage::Directory) ==> stage(
            state.advance(event, environment).phase,
        ) >= 5,
{
    let base = state.at(PhaseView::Configuring);
    match event {
        EventView::Configuration(read) => {
            on_configuration_goes_on(state, read, environment);
        },
        EventView::Registry(read) => {
            on_registry_goes_on(state, read, environment);
        },
        EventView::Done(outcome) => {
            on_done_goes_on(state, outcome, environment);
            if stage(state.phase) == 4 {
                reveal(LifecycleView::on_done);
            }
        },
        EventView::Observed(seen) => {
            on_observed_goes_on(state, seen, environment);
            if stage(state.phase) == 4 {
                reveal(LifecycleView::on_observed);
                reveal(LifecycleView::report_observed);
                assert forall|error: ApplicationErrorView| stage(
                    (#[trigger] base.fail(error)).phase,
                ) >= 5 by {
                    fail_ends(base, error);
                }
            }
        },
        EventView::LinkRead(outcome) => {
            on_link_read_goes_on(state, outcome);
            if stage(state.phase) == 4 {
                reveal(LifecycleView::on_link_read);
            }
        },
        EventView::Written(outcome, temporary) => {
            if let PhaseView::Writing { change, .. } = state.phase {
                on_written_goes_on(base, change, outcome, temporary, environment);
            }
        },
        EventView::Synchronized(outcome) => {
            if let PhaseView::Synchronizing { change } = state.phase {
                on_synchronized_goes_on(base, change, outcome);
            }
        },
    }
}

/// The operation has failed, or is about to report that it did.
pub open spec fn failing(phase: PhaseView) -> bool {
    stage(phase) == 5 || (phase matches PhaseView::Finished(outcome) && outcome is Err)
}

proof fn failing_fails(state: LifecycleView, error: ApplicationErrorView)
    ensures
        failing(state.fail(error).phase),
{
    reveal(LifecycleView::fail);
    reveal(LifecycleView::mutation_failed);
}

proof fn looking_up_fails(
    state: LifecycleView,
    failure: FailureView,
    message: Seq<char>,
    bin_dir: Seq<u8>,
    next: int,
    registrations: Seq<RegistrationView>,
)
    ensures
        failing(state.look_up(failure, message, bin_dir, next, registrations).phase),
    decreases failure.names.len() - next,
{
    reveal(LifecycleView::mutation_failed);
    if next < failure.names.len() {
        looking_up_fails(state, failure, message, bin_dir, next + 1, registrations);
    }
}

/// A failure ends as a failure, whatever is found out about the state that it left.
pub proof fn a_failure_stays_a_failure(
    state: LifecycleView,
    event: EventView,
    environment: EnvironmentView,
)
    requires
        failing(state.phase),
    ensures
        failing(state.advance(event, environment).phase),
{
    let base = state.at(PhaseView::Configuring);
    reveal(LifecycleView::on_configuration);
    reveal(LifecycleView::on_registry);
    reveal(LifecycleView::on_done);
    reveal(LifecycleView::on_observed);
    reveal(LifecycleView::on_link_read);
    reveal(LifecycleView::failure_configured);
    reveal(LifecycleView::failure_read);
    reveal(LifecycleView::failure_inspected);
    reveal(LifecycleView::mutation_failed);
    assert forall|
        failure: FailureView,
        message: Seq<char>,
        bin_dir: Seq<u8>,
        next: int,
        registrations: Seq<RegistrationView>,
    |
        failing(
            (#[trigger] base.look_up(failure, message, bin_dir, next, registrations)).phase,
        ) by {
        looking_up_fails(base, failure, message, bin_dir, next, registrations);
    }
}

/// A change that could not be committed or pushed is reported as a failure, though the Registry was
/// replaced.
pub proof fn a_failed_synchronization_is_a_failure(
    state: LifecycleView,
    error: ConfigGitErrorView,
    environment: EnvironmentView,
)
    requires
        state.phase is Synchronizing,
    ensures
        failing(state.advance(EventView::Synchronized(Err(error)), environment).phase),
{
    reveal(LifecycleView::synchronized);
    failing_fails(
        state.at(PhaseView::Configuring),
        ApplicationErrorView::Registry(registry::RegistryErrorView::GitSync(error)),
    );
}

/// A link is removed only if, just before, it was read and still had the text that it was expected
/// to have.
pub proof fn only_a_link_just_read_is_removed(
    state: LifecycleView,
    event: EventView,
    environment: EnvironmentView,
    link: Seq<u8>,
)
    requires
        state.advance(event, environment) != state,
        state.advance(event, environment).request(environment) == RequestView::RemoveLink(link),
    ensures
        state.request(environment) matches RequestView::ReadLink { link: read, .. } && read == link,
        event matches EventView::LinkRead(Ok(Some(text))) && match state.phase {
            PhaseView::CheckingLink { removal, .. } => path::components(text)
                == path::components(removal.text),
            PhaseView::UndoChecking { change, .. } => path::components(text) == path::components(
                change.target,
            ),
            _ => false,
        },
{
    let base = state.at(PhaseView::Configuring);
    match event {
        EventView::Configuration(read) => {
            on_configuration_goes_on(state, read, environment);
        },
        EventView::Registry(read) => {
            on_registry_goes_on(state, read, environment);
        },
        EventView::Done(outcome) => {
            on_done_goes_on(state, outcome, environment);
        },
        EventView::Observed(seen) => {
            on_observed_goes_on(state, seen, environment);
        },
        EventView::LinkRead(outcome) => {
            on_link_read_goes_on(state, outcome);
        },
        EventView::Written(outcome, temporary) => {
            if let PhaseView::Writing { change, .. } = state.phase {
                on_written_goes_on(base, change, outcome, temporary, environment);
            }
        },
        EventView::Synchronized(outcome) => {
            if let PhaseView::Synchronizing { change } = state.phase {
                on_synchronized_goes_on(base, change, outcome);
            }
        },
    }
}

/// An operation that only checks, and what it has come to.
pub open spec fn only_checks(state: LifecycleView) -> bool {
    &&& state.failure is None
    &&& state.task is ValidateAdd || state.task is ValidatePrepared
    &&& match state.phase {
        PhaseView::Configuring => state.task is ValidateAdd,
        PhaseView::CheckingTarget { .. } => state.task is ValidateAdd,
        PhaseView::ReadingRegistry { .. } => true,
        PhaseView::Examining { .. } => true,
        PhaseView::Finished(_) => true,
        _ => false,
    }
}

/// A check asks the host for nothing but to look.
pub open spec fn only_looks(request: RequestView) -> bool {
    request is ReadConfiguration || request is ReadRegistry || request is Observe
        || request is Finish
}

/// Whatever the host reports, a check changes nothing.
pub proof fn a_check_changes_nothing(
    state: LifecycleView,
    event: EventView,
    environment: EnvironmentView,
)
    requires
        only_checks(state),
    ensures
        only_looks(state.request(environment)),
        only_checks(state.advance(event, environment)),
{
    reveal(LifecycleView::fail);
    reveal(LifecycleView::on_configuration);
    reveal(LifecycleView::on_registry);
    reveal(LifecycleView::on_done);
    reveal(LifecycleView::on_observed);
    reveal(LifecycleView::on_link_read);
    reveal(LifecycleView::configured);
    reveal(LifecycleView::target_checked);
    reveal(LifecycleView::registry_read);
    reveal(LifecycleView::adding);
    reveal(LifecycleView::examined);
    reveal(LifecycleView::adding_examined);
}

/// An addition and the check before it decide alike on what was looked at. Both are blocked with the
/// same report where the name is registered, or else where something lies at the managed path. The
/// check passes exactly where the addition goes on to be made.
pub proof fn a_check_decides_like_the_addition(
    adding: LifecycleView,
    checking: LifecycleView,
    prepared: PreparedView,
    existing: Option<RegistrationView>,
    bin_dir: Seq<u8>,
    registrations: Seq<RegistrationView>,
    link_seen: ObservationView,
    target_seen: ObservationView,
    environment: EnvironmentView,
)
    requires
        existing matches Some(registration) ==> application::inspected(
            registration,
            bin_dir,
            link_seen,
            target_seen,
        ) is Ok,
        link_seen.entry matches Err(source) ==> source.kind == IoErrorKind::NotFound,
    ensures
        ({
            let added = adding.adding_examined(
                false,
                prepared,
                existing,
                bin_dir,
                registrations,
                link_seen,
                target_seen,
                environment,
            );
            let checked = checking.adding_examined(
                true,
                prepared,
                existing,
                bin_dir,
                registrations,
                link_seen,
                target_seen,
                environment,
            );
            if existing is Some || link_seen.entry is Ok {
                &&& added.phase == checked.phase
                &&& checked.phase matches PhaseView::Finished(Ok(result)) && result.status
                    == LifecycleStatus::Blocked && result.identifier == if existing is Some {
                    "command-name-registered"@
                } else {
                    "managed-path-occupied"@
                }
            } else {
                &&& added == adding.change(
                    lifecycle::adding_change(bin_dir, registrations, prepared),
                    environment,
                )
                &&& checked.phase matches PhaseView::Finished(Ok(result)) && result.status
                    == LifecycleStatus::Healthy && result.identifier == "add-valid"@
            }
        }),
{
    reveal(LifecycleView::adding_examined);
}

/// Sorting keeps what is registered.
proof fn sorting_keeps_names(registrations: Seq<RegistrationView>, name: Seq<char>)
    ensures
        registry::registered(lifecycle::in_order(registrations), name) <==> registry::registered(
            registrations,
            name,
        ),
{
    broadcast use vstd::seq_lib::group_to_multiset_ensures;

    let sorted = lifecycle::in_order(registrations);
    order::stable_sort_is_a_permutation(registrations, model::name_order());
    if registry::registered(sorted, name) {
        let i = choose|i: int| 0 <= i < sorted.len() && #[trigger] sorted[i].name == name;
        assert(sorted.to_multiset().contains(sorted[i]));
        assert(registrations.to_multiset().contains(sorted[i]));
        let j = choose|j: int| 0 <= j < registrations.len() && registrations[j] == sorted[i];
        assert(registrations[j].name == name);
    }
    if registry::registered(registrations, name) {
        let i = choose|i: int|
            0 <= i < registrations.len() && #[trigger] registrations[i].name == name;
        assert(registrations.to_multiset().contains(registrations[i]));
        assert(sorted.to_multiset().contains(registrations[i]));
        let j = choose|j: int| 0 <= j < sorted.len() && sorted[j] == registrations[i];
        assert(sorted[j].name == name);
    }
}

/// Where an element is placed.
proof fn placed_somewhere(
    s: Seq<RegistrationView>,
    x: RegistrationView,
    less: spec_fn(RegistrationView, RegistrationView) -> bool,
) -> (k: int)
    ensures
        0 <= k <= s.len(),
        order::placed(s, x, less) == s.insert(k, x),
    decreases s.len(),
{
    if s.len() == 0 {
        assert(s.insert(0, x) =~= seq![x]);
        0
    } else if less(s[0], x) {
        let k = placed_somewhere(s.drop_first(), x, less);
        assert(seq![s[0]] + s.drop_first().insert(k, x) =~= s.insert(k + 1, x));
        k + 1
    } else {
        assert(s.insert(0, x) =~= seq![x] + s);
        0
    }
}

proof fn inserting_keeps_soundness(s: Seq<RegistrationView>, k: int, x: RegistrationView)
    requires
        registry::sound(s),
        0 <= k <= s.len(),
        registry::valid_name(x.name),
        path::absolute(x.target),
        path::normalized(x.target) == x.target,
        !registry::registered(s, x.name),
    ensures
        registry::sound(s.insert(k, x)),
{
    let t = s.insert(k, x);
    assert forall|i: int| 0 <= i < t.len() implies registry::valid_name((#[trigger] t[i]).name)
        && path::absolute(t[i].target) && path::normalized(t[i].target) == t[i].target by {
        if i < k {
            assert(t[i] == s[i]);
        } else if i > k {
            assert(t[i] == s[i - 1]);
        }
    }
    assert forall|i: int, j: int| 0 <= i < j < t.len() implies (#[trigger] t[i]).name != (
    #[trigger] t[j]).name by {
        let a = if i < k {
            i
        } else {
            i - 1
        };
        let b = if j < k {
            j
        } else {
            j - 1
        };
        if i == k {
            assert(t[j] == s[b]);
            assert(s[b].name != x.name);
        } else if j == k {
            assert(t[i] == s[a]);
            assert(s[a].name != x.name);
        } else {
            assert(t[i] == s[a] && t[j] == s[b]);
        }
    }
}

/// Sorting keeps Registrations sound.
pub proof fn sorting_keeps_soundness(registrations: Seq<RegistrationView>)
    requires
        registry::sound(registrations),
    ensures
        registry::sound(lifecycle::in_order(registrations)),
    decreases registrations.len(),
{
    if registrations.len() > 0 {
        let rest = registrations.drop_first();
        let x = registrations[0];
        assert(forall|i: int|
            0 <= i < rest.len() ==> #[trigger] rest[i] == registrations[i + 1]);
        assert(registry::sound(rest));
        sorting_keeps_soundness(rest);
        sorting_keeps_names(rest, x.name);
        assert(!registry::registered(rest, x.name)) by {
            if registry::registered(rest, x.name) {
                let i = choose|i: int| 0 <= i < rest.len() && #[trigger] rest[i].name == x.name;
                assert(registrations[0].name == registrations[i + 1].name);
            }
        }
        let sorted = lifecycle::in_order(rest);
        let k = placed_somewhere(sorted, x, model::name_order());
        inserting_keeps_soundness(sorted, k, x);
    }
}

/// Sorted Registrations are in the order of their names.
pub proof fn sorting_orders_names(registrations: Seq<RegistrationView>)
    ensures
        order::sorted(lifecycle::in_order(registrations), model::name_order()),
{
    text::text_order_is_strict();
    order::strict_order_is_weak(text::text_order());
    let less = text::text_order();
    let names = model::name_order();
    assert forall|a: RegistrationView, b: RegistrationView, c: RegistrationView| #[trigger]
        names(a, b) && #[trigger] names(b, c) implies names(a, c) by {
        assert(less(a.name, b.name) && less(b.name, c.name));
    }
    assert forall|a: RegistrationView, b: RegistrationView, c: RegistrationView| #[trigger]
        names(a, c) implies names(a, b) || #[trigger] names(b, c) by {
        assert(less(a.name, c.name));
        assert(less(a.name, b.name) || less(b.name, c.name));
    }
    assert forall|a: RegistrationView| !#[trigger] names(a, a) by {
        assert(!less(a.name, a.name));
    }
    order::stable_sort_sorts(registrations, names);
}

/// Enabling or disabling keeps the Registry sound, and changes nothing but the one state.
pub proof fn enabling_keeps_the_registry_sound(
    bin_dir: Seq<u8>,
    registrations: Seq<RegistrationView>,
    at: int,
    enabled: bool,
    link: Seq<u8>,
    seen: ObservationView,
)
    requires
        registry::sound(registrations),
        0 <= at < registrations.len(),
    ensures
        ({
            let after = lifecycle::enabling_change(
                bin_dir,
                registrations,
                at,
                enabled,
                link,
                seen,
            ).registrations;
            &&& registry::sound(after)
            &&& after.len() == registrations.len()
            &&& after[at] == lifecycle::with_enabled(registrations[at], enabled)
            &&& forall|i: int|
                0 <= i < after.len() && i != at ==> #[trigger] after[i] == registrations[i]
        }),
{
    let updated = lifecycle::with_enabled(registrations[at], enabled);
    let after = registrations.update(at, updated);
    assert forall|i: int, j: int| 0 <= i < j < after.len() implies (#[trigger] after[i]).name != (
    #[trigger] after[j]).name by {
        assert(after[i].name == registrations[i].name);
        assert(after[j].name == registrations[j].name);
    }
}

/// What is left is what had another name.
pub proof fn removal_leaves_the_others(
    registrations: Seq<RegistrationView>,
    name: Seq<char>,
    registration: RegistrationView,
)
    ensures
        lifecycle::without_name(registrations, name).contains(registration)
            <==> registrations.contains(registration) && registration.name != name,
    decreases registrations.len(),
{
    let after = lifecycle::without_name(registrations, name);
    if registrations.len() > 0 {
        let rest = registrations.drop_last();
        let last = registrations.last();
        let before = lifecycle::without_name(rest, name);
        removal_leaves_the_others(rest, name, registration);
        assert(registrations =~= rest.push(last));
        assert(registrations.contains(registration) <==> rest.contains(registration)
            || registration == last) by {
            if rest.contains(registration) {
                let i = choose|i: int| 0 <= i < rest.len() && rest[i] == registration;
                assert(registrations[i] == registration);
            }
            if registration == last {
                assert(registrations[registrations.len() - 1] == registration);
            }
            if registrations.contains(registration) {
                let i = choose|i: int|
                    0 <= i < registrations.len() && registrations[i] == registration;
                if i < rest.len() {
                    assert(rest[i] == registration);
                }
            }
        }
        if last.name != name {
            assert(after == before.push(last));
            if before.contains(registration) {
                let i = choose|i: int| 0 <= i < before.len() && before[i] == registration;
                assert(after[i] == registration);
            }
            if registration == last {
                assert(after[after.len() - 1] == registration);
            }
            if after.contains(registration) {
                let i = choose|i: int| 0 <= i < after.len() && after[i] == registration;
                if i < before.len() {
                    assert(before[i] == registration);
                }
            }
        }
    }
}

/// Removing keeps the Registry sound.
pub proof fn removing_keeps_the_registry_sound(
    registrations: Seq<RegistrationView>,
    name: Seq<char>,
)
    requires
        registry::sound(registrations),
    ensures
        registry::sound(lifecycle::without_name(registrations, name)),
        !registry::registered(lifecycle::without_name(registrations, name), name),
    decreases registrations.len(),
{
    let after = lifecycle::without_name(registrations, name);
    if registrations.len() > 0 {
        let rest = registrations.drop_last();
        let last = registrations.last();
        assert(forall|i: int| 0 <= i < rest.len() ==> #[trigger] rest[i] == registrations[i]);
        assert(registry::sound(rest));
        removing_keeps_the_registry_sound(rest, name);
        let before = lifecycle::without_name(rest, name);
        if last.name != name {
            assert(!registry::registered(before, last.name)) by {
                if registry::registered(before, last.name) {
                    let i = choose|i: int|
                        0 <= i < before.len() && #[trigger] before[i].name == last.name;
                    removal_leaves_the_others(rest, name, before[i]);
                    assert(before.contains(before[i]));
                    let j = choose|j: int| 0 <= j < rest.len() && rest[j] == before[i];
                    assert(registrations[j].name == registrations[registrations.len() - 1].name);
                }
            }
            assert(registrations[registrations.len() - 1] == last);
            inserting_keeps_soundness(before, before.len() as int, last);
            assert(before.insert(before.len() as int, last) =~= before.push(last));
            if registry::registered(after, name) {
                let i = choose|i: int| 0 <= i < after.len() && #[trigger] after[i].name == name;
                if i < before.len() {
                    assert(before[i].name == name);
                }
            }
        }
    }
}

/// Renaming to a name that is free keeps the Registry sound and in order, and changes nothing but
/// the one name.
pub proof fn renaming_keeps_the_registry_sound(
    bin_dir: Seq<u8>,
    registrations: Seq<RegistrationView>,
    at: int,
    new_name: Seq<char>,
    old_link: Seq<u8>,
    new_link: Seq<u8>,
    seen: ObservationView,
)
    requires
        registry::sound(registrations),
        0 <= at < registrations.len(),
        registry::valid_name(new_name),
        !registry::registered(registrations, new_name),
    ensures
        ({
            let after = lifecycle::renaming_change(
                bin_dir,
                registrations,
                at,
                new_name,
                old_link,
                new_link,
                seen,
            ).registrations;
            &&& registry::sound(after)
            &&& order::sorted(after, model::name_order())
            &&& after.to_multiset() == registrations.update(
                at,
                lifecycle::with_name(registrations[at], new_name),
            ).to_multiset()
        }),
{
    let updated = lifecycle::with_name(registrations[at], new_name);
    let changed = registrations.update(at, updated);
    assert forall|i: int, j: int| 0 <= i < j < changed.len() implies (#[trigger] changed[i]).name
        != (#[trigger] changed[j]).name by {
        if i == at {
            assert(changed[j] == registrations[j]);
            assert(registrations[j].name != new_name);
        } else if j == at {
            assert(changed[i] == registrations[i]);
            assert(registrations[i].name != new_name);
        } else {
            assert(changed[i] == registrations[i] && changed[j] == registrations[j]);
        }
    }
    assert(registry::sound(changed));
    sorting_keeps_soundness(changed);
    sorting_orders_names(changed);
    order::stable_sort_is_a_permutation(changed, model::name_order());
}

/// Adding a name that is free keeps the Registry sound and in order, and adds nothing but the one
/// Registration.
pub proof fn adding_keeps_the_registry_sound(
    bin_dir: Seq<u8>,
    registrations: Seq<RegistrationView>,
    request: application::AddRequestView,
    seen: ObservationView,
    prepared: PreparedView,
    environment: EnvironmentView,
)
    requires
        registry::sound(registrations),
        path::absolute(environment.cwd),
        lifecycle::prepared_for(
            request,
            bin_dir,
            application::absolute_of(request.target, environment),
            seen,
        ) == Ok::<PreparedView, ApplicationErrorView>(prepared),
        !registry::registered(registrations, prepared.name),
    ensures
        ({
            let after = lifecycle::adding_change(bin_dir, registrations, prepared).registrations;
            &&& registry::sound(after)
            &&& order::sorted(after, model::name_order())
            &&& after.to_multiset() == registrations.to_multiset().insert(
                lifecycle::added_registration(prepared),
            )
        }),
{
    broadcast use vstd::seq_lib::group_to_multiset_ensures;

    let added = lifecycle::added_registration(prepared);
    let target = request.target;
    if path::absolute(target) {
        path::names_of_normalized(target);
        path::normalizing_is_idempotent(target);
    } else {
        path::lead_of_joined(environment.cwd, target);
        path::names_of_normalized(path::joined(environment.cwd, target));
        path::normalizing_is_idempotent(path::joined(environment.cwd, target));
    }
    let n = registrations.len() as int;
    inserting_keeps_soundness(registrations, n, added);
    assert(registrations.insert(n, added) =~= registrations.push(added));
    let changed = registrations.push(added);
    sorting_keeps_soundness(changed);
    sorting_orders_names(changed);
    order::stable_sort_is_a_permutation(changed, model::name_order());
}

/// An addition that was checked.
pub open spec fn prepared_soundly(prepared: PreparedView) -> bool {
    registry::valid_name(prepared.name) && path::absolute(prepared.target) && path::normalized(
        prepared.target,
    ) == prepared.target
}

pub open spec fn task_is_sound(task: TaskView) -> bool {
    match task {
        TaskView::Rename { new_name, .. } => registry::valid_name(new_name),
        TaskView::AddPrepared(prepared) => prepared_soundly(prepared),
        TaskView::ValidatePrepared(prepared) => prepared_soundly(prepared),
        _ => true,
    }
}

/// The change that is under way, if one is.
pub open spec fn change_of(phase: PhaseView) -> Option<ChangeView> {
    match phase {
        PhaseView::CreatingBinDirectory { change, .. } => Some(change),
        PhaseView::CreatingLink { change, .. } => Some(change),
        PhaseView::CheckingLink { change, .. } => Some(change),
        PhaseView::RemovingLink { change, .. } => Some(change),
        PhaseView::Writing { change, .. } => Some(change),
        _ => None,
    }
}

/// What an operation looks at is in the Registry that it read.
pub open spec fn subject_is_sound(
    task: TaskView,
    subject: lifecycle::SubjectView,
    registrations: Seq<RegistrationView>,
) -> bool {
    match subject {
        lifecycle::SubjectView::Existing { at, .. } => 0 <= at < registrations.len(),
        lifecycle::SubjectView::Unchanged { at, .. } => 0 <= at < registrations.len(),
        lifecycle::SubjectView::Renaming { at, duplicate, .. } => 0 <= at < registrations.len() && (
        duplicate is None && (task matches TaskView::Rename { new_name, .. })
            ==> !registry::registered(registrations, task->Rename_new_name)),
        lifecycle::SubjectView::Adding { prepared, existing } => prepared_soundly(prepared) && (
        existing is None ==> !registry::registered(registrations, prepared.name)),
    }
}

/// Every Registration that an operation holds is sound, and so is what it is about to write.
pub open spec fn keeps_sound(state: LifecycleView, environment: EnvironmentView) -> bool {
    &&& task_is_sound(state.task)
    &&& match state.phase {
        PhaseView::CheckingTarget { target, .. } => path::absolute(target) && path::normalized(
            target,
        ) == target,
        PhaseView::Examining { subject, registrations, .. } => registry::sound(registrations)
            && subject_is_sound(state.task, subject, registrations),
        _ => true,
    }
    &&& change_of(state.phase) matches Some(change) ==> registry::sound(change.registrations)
    &&& state.phase matches PhaseView::Writing { file, change } ==> registry::stored(
        change.registrations,
        environment,
    ) == Ok::<registry::RegistryFileView, registry::RegistryErrorView>(file)
}

proof fn ended_is_sound(state: LifecycleView, environment: EnvironmentView)
    requires
        task_is_sound(state.task),
        stage(state.phase) >= 3,
    ensures
        keeps_sound(state, environment),
{
}

proof fn failing_is_sound(
    state: LifecycleView,
    error: ApplicationErrorView,
    environment: EnvironmentView,
)
    requires
        task_is_sound(state.task),
    ensures
        keeps_sound(state.fail(error), environment),
{
    fail_ends(state, error);
    task_stays(state, environment);
    ended_is_sound(state.fail(error), environment);
}

proof fn changing_is_sound(
    state: LifecycleView,
    change: ChangeView,
    environment: EnvironmentView,
)
    requires
        task_is_sound(state.task),
        registry::sound(change.registrations),
    ensures
        keeps_sound(state.change(change, environment), environment),
        keeps_sound(state.remove_link(change, environment), environment),
        keeps_sound(state.write(change, environment), environment),
{
    reveal(LifecycleView::change);
    reveal(LifecycleView::remove_link);
    reveal(LifecycleView::write);
    if let Err(error) = registry::stored(change.registrations, environment) {
        undoing_is_sound(state, change, ApplicationErrorView::Registry(error), true, environment);
    }
}

proof fn undoing_is_sound(
    state: LifecycleView,
    change: ChangeView,
    error: ApplicationErrorView,
    restore: bool,
    environment: EnvironmentView,
)
    requires
        task_is_sound(state.task),
    ensures
        keeps_sound(state.undo(change, error, restore), environment),
        keeps_sound(state.restore(change, error, restore), environment),
{
    reveal(LifecycleView::undo);
    reveal(LifecycleView::restore);
    failing_is_sound(state, error, environment);
}

proof fn examining_is_sound(
    state: LifecycleView,
    bin_dir: Seq<u8>,
    subject: lifecycle::SubjectView,
    registrations: Seq<RegistrationView>,
    seen: Seq<ObservationView>,
    environment: EnvironmentView,
)
    requires
        task_is_sound(state.task),
        registry::sound(registrations),
        subject_is_sound(state.task, subject, registrations),
    ensures
        keeps_sound(
            state.examined(bin_dir, subject, registrations, seen, environment),
            environment,
        ),
{
    reveal(LifecycleView::examined);
    assert forall|error: ApplicationErrorView| keeps_sound(
        #[trigger] state.fail(error),
        environment,
    ) by {
        failing_is_sound(state, error, environment);
    }
    match (state.task, subject) {
        (
            TaskView::SetEnabled { enabled, .. },
            lifecycle::SubjectView::Existing { at, link },
        ) => {
            reveal(LifecycleView::enabling_examined);
            if seen.len() == 2 {
                enabling_keeps_the_registry_sound(
                    bin_dir,
                    registrations,
                    at,
                    enabled,
                    link,
                    seen[0],
                );
                changing_is_sound(
                    state,
                    lifecycle::enabling_change(
                        bin_dir,
                        registrations,
                        at,
                        enabled,
                        link,
                        seen[0],
                    ),
                    environment,
                );
            }
        },
        (TaskView::Remove { .. }, lifecycle::SubjectView::Existing { at, link }) => {
            reveal(LifecycleView::removing_examined);
            if seen.len() == 2 {
                removing_keeps_the_registry_sound(registrations, registrations[at].name);
                changing_is_sound(
                    state,
                    lifecycle::removing_change(bin_dir, registrations, at, link, seen[0]),
                    environment,
                );
            }
        },
        (
            TaskView::Rename { new_name, .. },
            lifecycle::SubjectView::Renaming { at, old_link, new_link, duplicate },
        ) => {
            reveal(LifecycleView::renaming_examined);
            if seen.len() == 3 && duplicate is None {
                renaming_keeps_the_registry_sound(
                    bin_dir,
                    registrations,
                    at,
                    new_name,
                    old_link,
                    new_link,
                    seen[0],
                );
                changing_is_sound(
                    state,
                    lifecycle::renaming_change(
                        bin_dir,
                        registrations,
                        at,
                        new_name,
                        old_link,
                        new_link,
                        seen[0],
                    ),
                    environment,
                );
            }
        },
        (_, lifecycle::SubjectView::Adding { prepared, existing }) => {
            reveal(LifecycleView::adding_examined);
            if existing is None {
                adding_prepared_is_sound(bin_dir, registrations, prepared);
                changing_is_sound(
                    state,
                    lifecycle::adding_change(bin_dir, registrations, prepared),
                    environment,
                );
            }
        },
        _ => {},
    }
}

proof fn adding_prepared_is_sound(
    bin_dir: Seq<u8>,
    registrations: Seq<RegistrationView>,
    prepared: PreparedView,
)
    requires
        registry::sound(registrations),
        prepared_soundly(prepared),
        !registry::registered(registrations, prepared.name),
    ensures
        registry::sound(lifecycle::adding_change(bin_dir, registrations, prepared).registrations),
{
    let added = lifecycle::added_registration(prepared);
    let n = registrations.len() as int;
    inserting_keeps_soundness(registrations, n, added);
    assert(registrations.insert(n, added) =~= registrations.push(added));
    sorting_keeps_soundness(registrations.push(added));
}

proof fn reading_is_sound(
    state: LifecycleView,
    read: crate::host::FileReadView<registry::RegistryFileView>,
    environment: EnvironmentView,
)
    requires
        keeps_sound(state, environment),
    ensures
        keeps_sound(state.on_registry(read, environment), environment),
{
    reveal(LifecycleView::on_registry);
    let base = state.at(PhaseView::Configuring);
    assert forall|error: ApplicationErrorView| keeps_sound(
        #[trigger] base.fail(error),
        environment,
    ) by {
        failing_is_sound(base, error, environment);
    }
    match state.phase {
        PhaseView::ReadingRegistry { bin_dir } => {
            if let Ok(registrations) = registry::loaded(environment, read) {
                registry::a_loaded_registry_is_sound(environment, read);
                reveal(LifecycleView::registry_read);
                reveal(LifecycleView::existing);
                reveal(LifecycleView::renaming);
                reveal(LifecycleView::adding);
                match state.task {
                    TaskView::SetEnabled { name, .. } => {
                        registry::position_is_first(registrations, name);
                    },
                    TaskView::Remove { name } => {
                        registry::position_is_first(registrations, name);
                    },
                    TaskView::Rename { name, new_name } => {
                        registry::position_is_first(registrations, name);
                        registry::position_is_first(registrations, new_name);
                    },
                    TaskView::AddPrepared(prepared) => {
                        registry::position_is_first(registrations, prepared.name);
                    },
                    TaskView::ValidatePrepared(prepared) => {
                        registry::position_is_first(registrations, prepared.name);
                    },
                    _ => {},
                }
            }
        },
        PhaseView::FailureReading { message, bin_dir } => {
            reveal(LifecycleView::failure_read);
            reveal(LifecycleView::mutation_failed);
            if let Some(failure) = state.failure {
                if let Ok(registrations) = registry::loaded(environment, read) {
                    look_up_ends(base, failure, message, bin_dir, 0, registrations);
                    look_up_keeps_task(base, failure, message, bin_dir, 0, registrations);
                }
            }
        },
        _ => {},
    }
}

proof fn look_up_keeps_task(
    state: LifecycleView,
    failure: FailureView,
    message: Seq<char>,
    bin_dir: Seq<u8>,
    next: int,
    registrations: Seq<RegistrationView>,
)
    ensures
        state.look_up(failure, message, bin_dir, next, registrations).task == state.task,
    decreases failure.names.len() - next,
{
    reveal(LifecycleView::mutation_failed);
    if next < failure.names.len() {
        look_up_keeps_task(state, failure, message, bin_dir, next + 1, registrations);
    }
}

proof fn observing_is_sound(
    state: LifecycleView,
    seen: Seq<ObservationView>,
    environment: EnvironmentView,
)
    requires
        keeps_sound(state, environment),
    ensures
        keeps_sound(state.on_observed(seen, environment), environment),
{
    reveal(LifecycleView::on_observed);
    let base = state.at(PhaseView::Configuring);
    assert forall|error: ApplicationErrorView| keeps_sound(
        #[trigger] base.fail(error),
        environment,
    ) by {
        failing_is_sound(base, error, environment);
    }
    match state.phase {
        PhaseView::CheckingTarget { .. } => {
            reveal(LifecycleView::target_checked);
        },
        PhaseView::Examining { bin_dir, subject, registrations } => {
            examining_is_sound(base, bin_dir, subject, registrations, seen, environment);
        },
        PhaseView::Reporting { .. } => {
            reveal(LifecycleView::report_observed);
        },
        PhaseView::FailureInspecting { message, bin_dir, next, registrations, .. } => {
            reveal(LifecycleView::failure_inspected);
            reveal(LifecycleView::mutation_failed);
            if let Some(failure) = state.failure {
                look_up_ends(base, failure, message, bin_dir, next, registrations);
                look_up_keeps_task(base, failure, message, bin_dir, next, registrations);
            }
        },
        _ => {},
    }
}

/// Whatever the host reports, an operation holds and writes only Registrations that are sound,
/// where the working directory is absolute.
pub proof fn operations_keep_the_registry_sound(
    state: LifecycleView,
    event: EventView,
    environment: EnvironmentView,
)
    requires
        keeps_sound(state, environment),
        path::absolute(environment.cwd),
    ensures
        keeps_sound(state.advance(event, environment), environment),
{
    let base = state.at(PhaseView::Configuring);
    assert forall|error: ApplicationErrorView| keeps_sound(
        #[trigger] base.fail(error),
        environment,
    ) by {
        failing_is_sound(base, error, environment);
    }
    match event {
        EventView::Configuration(read) => {
            configuring_is_sound(state, read, environment);
        },
        EventView::Registry(read) => {
            reading_is_sound(state, read, environment);
        },
        EventView::Done(outcome) => {
            reveal(LifecycleView::on_done);
            match state.phase {
                PhaseView::CreatingLink { change, .. } => {
                    changing_is_sound(base, change, environment);
                },
                PhaseView::RemovingLink { removal, change } => {
                    changing_is_sound(base, change, environment);
                    if let Err(source) = outcome {
                        undoing_is_sound(
                            base,
                            change,
                            ApplicationErrorView::RemoveManagedLink { path: removal.link, source },
                            false,
                            environment,
                        );
                    }
                },
                PhaseView::UndoRemoving { change, error, restore, .. } => {
                    undoing_is_sound(base, change, error, restore, environment);
                },
                _ => {},
            }
        },
        EventView::Observed(seen) => {
            observing_is_sound(state, seen, environment);
        },
        EventView::LinkRead(outcome) => {
            reveal(LifecycleView::on_link_read);
            reveal(LifecycleView::link_checked);
            match state.phase {
                PhaseView::CheckingLink { removal, change } => {
                    undoing_is_sound(
                        base,
                        change,
                        lifecycle::changed_before_removal(removal.link),
                        false,
                        environment,
                    );
                    if let Err(source) = outcome {
                        undoing_is_sound(
                            base,
                            change,
                            ApplicationErrorView::RemoveManagedLink { path: removal.link, source },
                            false,
                            environment,
                        );
                    }
                },
                PhaseView::UndoChecking { change, error, restore, .. } => {
                    undoing_is_sound(base, change, error, restore, environment);
                },
                _ => {},
            }
        },
        EventView::Written(outcome, temporary) => {
            reveal(LifecycleView::written);
            if let PhaseView::Writing { change, .. } = state.phase {
                if let Err(failure) = outcome {
                    let error = registry::write_error(
                        failure,
                        temporary,
                        registry::registry_path_of(environment),
                    );
                    undoing_is_sound(
                        base,
                        change,
                        ApplicationErrorView::Registry(error),
                        true,
                        environment,
                    );
                }
            }
        },
        EventView::Synchronized(outcome) => {
            reveal(LifecycleView::synchronized);
            reveal(LifecycleView::report);
        },
    }
}

proof fn configuring_is_sound(
    state: LifecycleView,
    read: crate::host::FileReadView<crate::configuration::ConfigFileView>,
    environment: EnvironmentView,
)
    requires
        keeps_sound(state, environment),
        path::absolute(environment.cwd),
    ensures
        keeps_sound(state.on_configuration(read, environment), environment),
{
    reveal(LifecycleView::on_configuration);
    reveal(LifecycleView::configured);
    reveal(LifecycleView::failure_configured);
    reveal(LifecycleView::mutation_failed);
    let base = state.at(PhaseView::Configuring);
    assert forall|error: ApplicationErrorView| keeps_sound(
        #[trigger] base.fail(error),
        environment,
    ) by {
        failing_is_sound(base, error, environment);
    }
    assert forall|target: Seq<u8>| ({
        let made = #[trigger] application::absolute_of(target, environment);
        path::absolute(made) && path::normalized(made) == made
    }) by {
        if path::absolute(target) {
            path::names_of_normalized(target);
            path::normalizing_is_idempotent(target);
        } else {
            path::lead_of_joined(environment.cwd, target);
            path::names_of_normalized(path::joined(environment.cwd, target));
            path::normalizing_is_idempotent(path::joined(environment.cwd, target));
        }
    }
}

/// Every operation begins with nothing that could be unsound.
pub proof fn operations_begin_sound(
    task: TaskView,
    failure: Option<FailureView>,
    names: Seq<Seq<char>>,
    environment: EnvironmentView,
)
    requires
        task !is AddPrepared,
        task !is ValidatePrepared,
        task matches TaskView::Rename { new_name, .. } ==> registry::valid_name(new_name),
    ensures
        keeps_sound(lifecycle::begun(task, failure, names), environment),
    decreases names.len(),
{
    let start = LifecycleView { task, failure, phase: PhaseView::Configuring };
    if names.len() > 0 {
        if registry::valid_name(names[0]) {
            operations_begin_sound(task, failure, names.skip(1), environment);
        } else {
            failing_is_sound(
                start,
                ApplicationErrorView::InvalidInput(registry::name_problem(names[0])),
                environment,
            );
        }
    }
}

/// Disabling what was enabled, or enabling what was disabled, restores the Registry.
pub proof fn enabling_is_undone(
    bin_dir: Seq<u8>,
    registrations: Seq<RegistrationView>,
    at: int,
    link: Seq<u8>,
    seen: ObservationView,
    seen_later: ObservationView,
)
    requires
        0 <= at < registrations.len(),
    ensures
        ({
            let enabled = registrations[at].enabled;
            let changed = lifecycle::enabling_change(
                bin_dir,
                registrations,
                at,
                !enabled,
                link,
                seen,
            ).registrations;
            lifecycle::enabling_change(
                bin_dir,
                changed,
                at,
                enabled,
                link,
                seen_later,
            ).registrations == registrations
        }),
{
    let enabled = registrations[at].enabled;
    let changed = registrations.update(
        at,
        lifecycle::with_enabled(registrations[at], !enabled),
    );
    assert(changed.update(at, lifecycle::with_enabled(changed[at], enabled)) =~= registrations);
}

/// How often a Registration is left where a name was taken out.
proof fn counted_without_name(
    registrations: Seq<RegistrationView>,
    name: Seq<char>,
    registration: RegistrationView,
)
    ensures
        lifecycle::without_name(registrations, name).to_multiset().count(registration) == if
            registration.name == name {
            0
        } else {
            registrations.to_multiset().count(registration)
        },
    decreases registrations.len(),
{
    broadcast use vstd::seq_lib::group_to_multiset_ensures;

    if registrations.len() == 0 {
        assert(registrations =~= Seq::empty());
    } else {
        let rest = registrations.drop_last();
        counted_without_name(rest, name, registration);
        assert(registrations =~= rest.push(registrations.last()));
        assert(registrations.to_multiset() =~= rest.to_multiset().insert(registrations.last()));
    }
}

/// Removing what was added leaves the Registrations that were there.
pub proof fn removing_undoes_adding(
    bin_dir: Seq<u8>,
    registrations: Seq<RegistrationView>,
    prepared: PreparedView,
)
    requires
        !registry::registered(registrations, prepared.name),
    ensures
        lifecycle::without_name(
            lifecycle::adding_change(bin_dir, registrations, prepared).registrations,
            prepared.name,
        ).to_multiset() == registrations.to_multiset(),
{
    broadcast use vstd::seq_lib::group_to_multiset_ensures;

    let added = lifecycle::added_registration(prepared);
    let changed = registrations.push(added);
    let after = lifecycle::in_order(changed);
    order::stable_sort_is_a_permutation(changed, model::name_order());
    let left = lifecycle::without_name(after, prepared.name).to_multiset();
    assert forall|r: RegistrationView| #[trigger]
        left.count(r) == registrations.to_multiset().count(r) by {
        counted_without_name(after, prepared.name, r);
        assert(after.to_multiset() == registrations.to_multiset().insert(added));
        if r.name == prepared.name && registrations.to_multiset().count(r) > 0 {
            assert(registrations.contains(r));
            let i = registrations.index_of(r);
            assert(registrations[i].name == prepared.name);
        }
    }
    assert(left =~= registrations.to_multiset());
}

} // verus!
