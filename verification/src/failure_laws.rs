//! What a failed operation reports: what failed, and what state the Registration is left in.

use vstd::prelude::*;

use crate::application;
use crate::application::ApplicationErrorView;
use crate::atomic_write::{WriteFailureView, WriteStage};
use crate::config_git::ConfigGitErrorView;
use crate::environment::EnvironmentView;
use crate::host::{FileReadView, IoErrorView};
use crate::lifecycle::{EventView, FailureView, LifecycleView, PhaseView, TaskView};
use crate::model::RegistrationView;
use crate::operation_laws;
use crate::operation_laws::{MachineView, RunView};
use crate::path;
use crate::registry;
use crate::text;

verus! {

/// The first of some names that is registered.
pub open spec fn first_registered(
    names: Seq<Seq<char>>,
    registrations: Seq<RegistrationView>,
    k: int,
    at: int,
) -> bool {
    &&& 0 <= k < names.len()
    &&& 0 <= at < registrations.len()
    &&& registrations[at].name == names[k]
    &&& forall|j: int, i: int|
        0 <= j < k && 0 <= i < registrations.len() ==> (#[trigger] registrations[i]).name != (
        #[trigger] names[j])
}

/// None of some names is registered.
pub open spec fn none_registered(
    names: Seq<Seq<char>>,
    registrations: Seq<RegistrationView>,
) -> bool {
    forall|j: int, i: int|
        0 <= j < names.len() && 0 <= i < registrations.len() ==> (#[trigger] registrations[i]).name
            != (#[trigger] names[j])
}

proof fn looking_up(
    state: LifecycleView,
    failure: FailureView,
    message: Seq<char>,
    bin_dir: Seq<u8>,
    next: int,
    registrations: Seq<RegistrationView>,
    machine: MachineView,
    environment: EnvironmentView,
) -> (requests: nat)
    requires
        state.failure == Some(failure),
        0 <= next <= failure.names.len() <= 2,
        registry::sound(registrations),
        path::absolute(bin_dir),
        path::normalized(bin_dir) == bin_dir,
        forall|i: int|
            0 <= i < registrations.len() ==> machine.plain((#[trigger] registrations[i]).target)
                && machine.plain(operation_laws::managed(bin_dir, registrations[i].name)),
        forall|j: int, i: int|
            0 <= j < next && 0 <= i < registrations.len() ==> (#[trigger] registrations[i]).name
                != (#[trigger] failure.names[j]),
    ensures
        requests <= 1,
        ({
            let run = RunView {
                state: state.look_up(failure, message, bin_dir, next, registrations),
                machine,
            };
            let end = run.reached(requests, environment);
            &&& end.machine == machine
            &&& end.state.phase matches PhaseView::Finished(Err(ApplicationErrorView::Mutation {
                identifier,
                message: told,
                resulting_registration,
            })) && {
                &&& identifier == failure.identifier
                &&& told == message
                &&& match resulting_registration {
                    Some(found) => exists|k: int, at: int|
                        #[trigger] first_registered(failure.names, registrations, k, at)
                            && found.registration == registrations[at],
                    None => none_registered(failure.names, registrations),
                }
            }
        }),
    decreases failure.names.len() - next,
{
    reveal(LifecycleView::mutation_failed);
    if next >= failure.names.len() {
        0
    } else {
        let name = failure.names[next];
        registry::position_is_first(registrations, name);
        match registry::position_of(registrations, name) {
            Some(at) => {
                let link = operation_laws::managed(bin_dir, name);
                assert(machine.plain(registrations[at].target));
                operation_laws::where_a_managed_link_lies(bin_dir, name);
                let run = RunView {
                    state: state.look_up(failure, message, bin_dir, next, registrations),
                    machine,
                };
                reveal(LifecycleView::on_observed);
                reveal(LifecycleView::failure_inspected);
                let paths = seq![link, registrations[at].target];
                let seen = paths.map_values(machine.look);
                assert(seen.len() == 2 && seen[0] == (machine.look)(link) && seen[1] == (
                machine.look)(registrations[at].target));
                operation_laws::a_state_is_told(registrations[at], bin_dir, seen[0], seen[1]);
                let after = run.step(environment);
                assert(run.reached(1, environment) == after.reached(0, environment));
                assert(first_registered(failure.names, registrations, next, at));
                1
            },
            None => {
                assert forall|j: int, i: int|
                    0 <= j < next + 1 && 0 <= i < registrations.len() implies (
                #[trigger] registrations[i]).name != (#[trigger] failure.names[j]) by {
                    if j == next {
                        assert(!registry::registered(registrations, name));
                    }
                }
                looking_up(
                    state,
                    failure,
                    message,
                    bin_dir,
                    next + 1,
                    registrations,
                    machine,
                    environment,
                )
            },
        }
    }
}

/// A change that fails is reported under the identifier of its operation, with what went wrong, and
/// with the state that the Registration is in now: of the names that it may have, the first one that
/// is registered counts. Of a rename it is also told what lies at both paths.
pub proof fn what_a_failure_reports(
    state: LifecycleView,
    failure: FailureView,
    error: ApplicationErrorView,
    machine: MachineView,
    bin_dir: Seq<u8>,
    registrations: Seq<RegistrationView>,
    environment: EnvironmentView,
)
    requires
        operation_laws::holds(machine, bin_dir, registrations, environment),
        state.failure == Some(failure),
        1 <= failure.names.len() <= 2,
        forall|i: int|
            0 <= i < registrations.len() ==> machine.plain((#[trigger] registrations[i]).target)
                && machine.plain(operation_laws::managed(bin_dir, registrations[i].name)),
    ensures
        ({
            let run = RunView { state: state.fail(error), machine };
            let end = operation_laws::end_of(run, environment);
            &&& end.machine == machine
            &&& end.state.phase matches PhaseView::Finished(Err(ApplicationErrorView::Mutation {
                identifier,
                message,
                resulting_registration,
            })) && {
                &&& identifier == failure.identifier
                &&& match state.task {
                    TaskView::Rename { name, new_name } => {
                        let old = operation_laws::managed(bin_dir, name);
                        let new = operation_laws::managed(bin_dir, new_name);
                        message == error.message() + ("; actual paths after failure: old "@
                            + text::lossy_text(old) + " is "@ + application::path_summary(
                            (machine.look)(old),
                        ) + ", new "@ + text::lossy_text(new) + " is "@
                            + application::path_summary((machine.look)(new)))
                            + "; next safe action: resolve any reported conflict, run `bin list`, then retry"@
                    },
                    _ => message == error.message(),
                }
                &&& match resulting_registration {
                    Some(found) => exists|k: int, at: int|
                        #[trigger] first_registered(failure.names, registrations, k, at)
                            && found.registration == registrations[at],
                    None => none_registered(failure.names, registrations),
                }
            }
        }),
{
    operation_laws::what_a_machine_holds(machine, bin_dir, registrations, environment);
    reveal(LifecycleView::fail);
    let run = RunView { state: state.fail(error), machine };
    reveal(LifecycleView::on_configuration);
    reveal(LifecycleView::failure_configured);
    let one = run.step(environment);
    assert(run.reached(1, environment) == one.reached(0, environment));
    let n: nat = if state.task is Rename {
        2
    } else {
        1
    };
    let looked = run.reached(n, environment);
    if let TaskView::Rename { name, new_name } = state.task {
        reveal(LifecycleView::on_observed);
        let old = operation_laws::managed(bin_dir, name);
        let new = operation_laws::managed(bin_dir, new_name);
        assert(one.state.phase == (PhaseView::FailureObserving {
            message: error.message(),
            bin_dir,
            old,
            new,
        }));
        let seen = seq![old, new].map_values(machine.look);
        assert(seen.len() == 2 && seen[0] == (machine.look)(old) && seen[1] == (machine.look)(
            new,
        ));
        operation_laws::one_more(run, 1, environment);
    }
    assert(looked.state.phase is FailureReading);
    reveal(LifecycleView::on_registry);
    reveal(LifecycleView::failure_read);
    operation_laws::one_more(run, n, environment);
    let rest = looking_up(
        looked.state.at(PhaseView::Configuring),
        failure,
        looked.state.phase->FailureReading_message,
        bin_dir,
        0,
        registrations,
        machine,
        environment,
    );
    operation_laws::reached_in_parts(run, n + 1, rest, environment);
    operation_laws::ends_early(run, n + 1 + rest, environment);
}

/// A check that fails reports what went wrong, as it is.
pub proof fn what_a_failed_check_reports(
    state: LifecycleView,
    error: ApplicationErrorView,
)
    requires
        state.failure is None,
    ensures
        state.fail(error).phase == PhaseView::Finished(Err(error)),
{
    reveal(LifecycleView::fail);
}

/// An operation has failed with this message, and goes on to find out what state it left.
pub open spec fn failed_with(phase: PhaseView, message: Seq<char>) -> bool {
    phase == (PhaseView::FailureConfiguring { message })
}

/// A step that fails before a link was touched is reported with the path that it was about and the
/// reason that the host gave, and nothing is undone.
pub proof fn what_a_failed_step_says(
    state: LifecycleView,
    source: IoErrorView,
    environment: EnvironmentView,
)
    requires
        state.failure matches Some(failure) && failure.names.len() > 0,
    ensures
        ({
            let after = state.advance(EventView::Done(Err(source)), environment).phase;
            match state.phase {
                PhaseView::CreatingRegistryDirectory { .. } => failed_with(
                    after,
                    "could not create Registry directory "@ + text::lossy_text(
                        registry::registry_directory_of(environment),
                    ) + ": "@ + source.message,
                ),
                PhaseView::Locking { .. } => failed_with(
                    after,
                    "could not acquire Registry lock "@ + text::lossy_text(
                        registry::lock_path_of(environment),
                    ) + ": "@ + source.message,
                ),
                PhaseView::CreatingBinDirectory { change, .. } => failed_with(
                    after,
                    "could not create managed directory "@ + text::lossy_text(change.bin_dir)
                        + ": "@ + source.message,
                ),
                PhaseView::CreatingLink { link, .. } => failed_with(
                    after,
                    "could not create Managed Link "@ + text::lossy_text(link) + ": "@
                        + source.message,
                ),
                _ => true,
            }
        }),
{
    reveal(LifecycleView::on_done);
    reveal(LifecycleView::fail);
}

/// A file that cannot be read or understood is reported with its path and the reason.
pub proof fn what_an_unreadable_file_says(
    state: LifecycleView,
    source: IoErrorView,
    reason: Seq<char>,
    environment: EnvironmentView,
)
    requires
        state.failure matches Some(failure) && failure.names.len() > 0,
        state.phase is ReadingRegistry,
    ensures
        failed_with(
            state.advance(
                EventView::Registry(FileReadView::Unreadable(source)),
                environment,
            ).phase,
            "could not read Registry "@ + text::lossy_text(registry::registry_path_of(environment))
                + ": "@ + source.message,
        ),
        failed_with(
            state.advance(EventView::Registry(FileReadView::Malformed(reason)), environment).phase,
            "invalid Registry "@ + text::lossy_text(registry::registry_path_of(environment)) + ": "@
                + reason,
        ),
{
    reveal(LifecycleView::on_registry);
    reveal(LifecycleView::fail);
}

/// A write of the Registry that fails is reported with the file that it was about: the temporary
/// file while that is written, the Registry once it is replaced. Where the Registry was not
/// replaced, what was done to the links is undone.
pub proof fn what_a_failed_write_says(
    state: LifecycleView,
    failure: WriteFailureView,
    temporary: Seq<u8>,
    environment: EnvironmentView,
)
    requires
        state.failure matches Some(failure) && failure.names.len() > 0,
        state.phase is Writing,
    ensures
        ({
            let after = state.advance(
                EventView::Written(Err(failure), temporary),
                environment,
            ).phase;
            let change = state.phase->Writing_change;
            let registry = text::lossy_text(registry::registry_path_of(environment));
            let message = match failure.stage {
                WriteStage::Write => "could not write temporary Registry "@ + text::lossy_text(
                    temporary,
                ) + ": "@ + failure.source.message,
                WriteStage::Sync => "could not sync temporary Registry "@ + text::lossy_text(
                    temporary,
                ) + ": "@ + failure.source.message,
                WriteStage::Replace => "could not atomically replace Registry "@ + registry + ": "@
                    + failure.source.message,
                WriteStage::Directory => "Registry "@ + registry
                    + " was replaced but its directory could not be synced: "@
                    + failure.source.message,
            };
            if failure.stage == WriteStage::Directory || (change.undo_create is None
                && change.undo_remove is None) {
                failed_with(after, message)
            } else {
                match (change.undo_create, after) {
                    (
                        Some(made),
                        PhaseView::UndoChecking { link, error, restore, .. },
                    ) => link == made && error.message() == message && restore,
                    (
                        None,
                        PhaseView::RestoreObserving { removal, error },
                    ) => Some(removal) == change.undo_remove && error.message() == message,
                    _ => false,
                }
            }
        }),
{
    reveal(LifecycleView::written);
    reveal(LifecycleView::undo);
    reveal(LifecycleView::restore);
    reveal(LifecycleView::fail);
}

/// A synchronization that fails is reported, and that the Registry was replaced all the same.
pub proof fn what_a_failed_synchronization_says(
    state: LifecycleView,
    error: ConfigGitErrorView,
    environment: EnvironmentView,
)
    requires
        state.failure matches Some(failure) && failure.names.len() > 0,
        state.phase is Synchronizing,
    ensures
        failed_with(
            state.advance(EventView::Synchronized(Err(error)), environment).phase,
            "Registry was replaced but its Git synchronization failed: "@ + error.message(),
        ),
{
    reveal(LifecycleView::synchronized);
    reveal(LifecycleView::fail);
}

/// A link that was to be removed and has another text by now is left alone, and the operation fails;
/// a link that was made before is taken back.
pub proof fn a_changed_link_is_left_alone(
    state: LifecycleView,
    text: Option<Seq<u8>>,
    environment: EnvironmentView,
)
    requires
        state.phase is CheckingLink,
        text matches Some(found) ==> path::components(found) != path::components(
            state.phase->CheckingLink_removal.text,
        ),
    ensures
        ({
            let after = state.advance(EventView::LinkRead(Ok(text)), environment);
            let link = state.phase->CheckingLink_removal.link;
            let message = "invalid input: "@ + ("Managed Link "@ + text::lossy_text(link)
                + " changed before removal; it was left untouched; inspect the path and retry"@);
            &&& after.request(environment) !is RemoveLink
            &&& match state.phase->CheckingLink_change.undo_create {
                Some(made) => after.phase matches PhaseView::UndoChecking { link, error, .. }
                    && link == made && error.message() == message,
                None => (state.failure matches Some(failure) && failure.names.len() > 0)
                    ==> failed_with(after.phase, message),
            }
        }),
{
    reveal(LifecycleView::on_link_read);
    reveal(LifecycleView::link_checked);
    reveal(LifecycleView::undo);
    reveal(LifecycleView::restore);
    reveal(LifecycleView::fail);
    reveal(LifecycleView::mutation_failed);
}

} // verus!
