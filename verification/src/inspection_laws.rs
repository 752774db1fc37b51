//! What is told of a Registration, of a Target and of `PATH`, in terms of what is seen.

use vstd::prelude::*;
use vstd::utf8;

use crate::application;
use crate::application::ApplicationErrorView;
use crate::environment::EnvironmentView;
use crate::host;
use crate::host::{EntryKind, FileFacts, IoErrorKind, IoErrorView, ObservationView};
use crate::model::{
    ConflictKind,
    LifecycleStatus,
    ManagedPathKind,
    PathStatus,
    RegistrationDefectKind,
    RegistrationStateView,
    RegistrationView,
    WarningKind,
};
use crate::operation_laws;
use crate::path;
use crate::registry;
use crate::text;

verus! {

/// A file can be executed where its owner, its group or others may do so.
pub proof fn who_may_execute(mode: u32)
    ensures
        host::executable_mode(mode) <==> mode & 0o100 != 0 || mode & 0o010 != 0 || mode & 0o001
            != 0,
{
    assert(mode & 0o111 != 0 <==> mode & 0o100 != 0 || mode & 0o010 != 0 || mode & 0o001 != 0)
        by (bit_vector);
}

/// A Target can be run where it is a file that somebody may execute.
pub open spec fn runs(target: ObservationView) -> bool {
    target.followed matches Ok(facts) && facts.is_file && (facts.mode & 0o100 != 0 || facts.mode
        & 0o010 != 0 || facts.mode & 0o001 != 0)
}

proof fn running(facts: FileFacts)
    ensures
        facts.is_executable_file() <==> facts.is_file && (facts.mode & 0o100 != 0 || facts.mode
            & 0o010 != 0 || facts.mode & 0o001 != 0),
{
    who_may_execute(facts.mode);
}

/// A link's text is this path, however it is spelled.
pub open spec fn leads_to(link: ObservationView, target: Seq<u8>) -> bool {
    link.link matches Some(text) && path::components(text) == path::components(target)
}

/// A link is a Registration's own exactly where its text is the Registration's Target.
pub proof fn whose_a_link_is(link: ObservationView, target: Seq<u8>)
    ensures
        application::owns(link, target) == leads_to(link, target),
{
}

/// What is told of a Registration is what was seen: what lies at its managed path, where its link
/// leads, and what is wrong with it. A Target that is missing or cannot be run comes before
/// everything else; then something at the managed path of a disabled Registration, and the link of
/// an enabled one that is missing, broken, leads elsewhere or is no link at all.
pub proof fn what_is_told_of_a_registration(
    registration: RegistrationView,
    bin_dir: Seq<u8>,
    link: ObservationView,
    target: ObservationView,
    state: RegistrationStateView,
)
    requires
        registry::valid_name(registration.name),
        path::absolute(bin_dir),
        path::normalized(bin_dir) == bin_dir,
        application::inspected(registration, bin_dir, link, target) == Ok::<
            RegistrationStateView,
            ApplicationErrorView,
        >(state),
    ensures
        ({
            let kind = |kind: RegistrationDefectKind|
                state.defect matches Some(defect) && defect.kind == kind;
            let symlink = link.entry == Ok::<EntryKind, IoErrorView>(EntryKind::SymbolicLink);
            &&& state.registration == registration
            &&& state.managed_link == path::joined(bin_dir, utf8::encode_utf8(registration.name))
            &&& state.observed_link_target == link.link
            &&& state.actual == ManagedPathKind::Missing <==> link.entry is Err
            &&& state.actual == ManagedPathKind::OwnedLink <==> symlink && leads_to(
                link,
                registration.target,
            )
            &&& state.actual == ManagedPathKind::SymbolicLink <==> symlink && !leads_to(
                link,
                registration.target,
            )
            &&& state.actual == ManagedPathKind::File <==> link.entry == Ok::<
                EntryKind,
                IoErrorView,
            >(EntryKind::File)
            &&& state.actual == ManagedPathKind::Directory <==> link.entry == Ok::<
                EntryKind,
                IoErrorView,
            >(EntryKind::Directory)
            &&& state.actual == ManagedPathKind::Other <==> link.entry == Ok::<
                EntryKind,
                IoErrorView,
            >(EntryKind::Other)
            &&& kind(RegistrationDefectKind::TargetMissing) <==> target.followed is Err
            &&& kind(RegistrationDefectKind::TargetNotExecutable) <==> target.followed is Ok
                && !runs(target)
            &&& kind(RegistrationDefectKind::LinkMissing) <==> runs(target) && registration.enabled
                && link.entry is Err
            &&& kind(RegistrationDefectKind::LinkBroken) <==> runs(target) && registration.enabled
                && symlink && !leads_to(link, registration.target) && link.followed is Err
            &&& kind(RegistrationDefectKind::LinkIncorrect) <==> runs(target)
                && registration.enabled && symlink && !leads_to(link, registration.target)
                && link.followed is Ok
            &&& kind(RegistrationDefectKind::Conflict) <==> runs(target) && link.entry is Ok && (
            !registration.enabled || !symlink)
        }),
{
    operation_laws::where_a_managed_link_lies(bin_dir, registration.name);
    if let Ok(facts) = target.followed {
        running(facts);
    }
}

/// A Registration cannot be told of where its managed path or its Target cannot be looked at, and
/// only there; that something is missing is no reason.
pub proof fn when_a_registration_cannot_be_told_of(
    registration: RegistrationView,
    bin_dir: Seq<u8>,
    link: ObservationView,
    target: ObservationView,
)
    requires
        registry::valid_name(registration.name),
        path::absolute(bin_dir),
        path::normalized(bin_dir) == bin_dir,
    ensures
        ({
            let managed_link = path::joined(bin_dir, utf8::encode_utf8(registration.name));
            match application::inspected(registration, bin_dir, link, target) {
                Ok(_) => true,
                Err(ApplicationErrorView::InspectManagedPath { path, source }) => path
                    == managed_link && source.kind != IoErrorKind::NotFound && (link.entry == Err::<
                    EntryKind,
                    IoErrorView,
                >(source) || link.followed == Err::<FileFacts, IoErrorView>(source)),
                Err(ApplicationErrorView::InspectTarget { path, source }) => path
                    == registration.target && source.kind != IoErrorKind::NotFound
                    && target.followed == Err::<FileFacts, IoErrorView>(source),
                Err(_) => false,
            }
        }),
{
    operation_laws::where_a_managed_link_lies(bin_dir, registration.name);
}

/// What a defect says is told apart by its kind, and a disabled Registration whose own link is still
/// there from any other conflict.
pub proof fn what_a_defect_says(
    registration: RegistrationView,
    bin_dir: Seq<u8>,
    link: ObservationView,
    target: ObservationView,
    state: RegistrationStateView,
)
    requires
        application::inspected(registration, bin_dir, link, target) == Ok::<
            RegistrationStateView,
            ApplicationErrorView,
        >(state),
        state.defect is Some,
    ensures
        ({
            let said = state.defect->0.message;
            match state.defect->0.kind {
                RegistrationDefectKind::TargetMissing => said
                    == "Target does not exist; restore it or remove the Registration"@,
                RegistrationDefectKind::TargetNotExecutable => said
                    == "Target is not an executable regular file; restore executable permissions"@,
                RegistrationDefectKind::LinkMissing => said
                    == "Enabled Registration has no Managed Link"@,
                RegistrationDefectKind::LinkBroken => said
                    == "Managed Link points to a missing unexpected Target and ownership cannot be proven"@,
                RegistrationDefectKind::LinkIncorrect => said
                    == "Managed Link points to an unexpected Target and ownership cannot be proven"@,
                RegistrationDefectKind::Conflict => said == if !registration.enabled
                    && state.actual == ManagedPathKind::OwnedLink {
                    "Disabled Registration still has its owned Managed Link"@
                } else {
                    "Managed path contains an entry the executable registry cannot prove it owns"@
                },
            }
        }),
{
}

/// Every kind of defect has an identifier of its own.
pub proof fn identifiers_of_defects(kind: RegistrationDefectKind)
    ensures
        ({
            let identifier = kind.identifier_text();
            &&& identifier == "target-missing"@ <==> kind == RegistrationDefectKind::TargetMissing
            &&& identifier == "target-not-executable"@ <==> kind
                == RegistrationDefectKind::TargetNotExecutable
            &&& identifier == "link-missing"@ <==> kind == RegistrationDefectKind::LinkMissing
            &&& identifier == "link-broken"@ <==> kind == RegistrationDefectKind::LinkBroken
            &&& identifier == "link-incorrect"@ <==> kind == RegistrationDefectKind::LinkIncorrect
            &&& identifier == "conflict"@ <==> kind == RegistrationDefectKind::Conflict
        }),
{
    reveal_strlit("target-missing");
    assert("target-missing"@.len() == 14);
    reveal_strlit("target-not-executable");
    assert("target-not-executable"@.len() == 21);
    reveal_strlit("link-missing");
    assert("link-missing"@.len() == 12);
    reveal_strlit("link-broken");
    assert("link-broken"@.len() == 11);
    reveal_strlit("link-incorrect");
    assert("link-incorrect"@.len() == 14);
    reveal_strlit("conflict");
    assert("conflict"@.len() == 8);
    assert("target-missing"@[0] != "link-incorrect"@[0]);
}

/// Everything that can lie at a managed path has an identifier of its own.
pub proof fn identifiers_of_managed_paths(kind: ManagedPathKind)
    ensures
        ({
            let identifier = kind.identifier_text();
            &&& identifier == "missing"@ <==> kind == ManagedPathKind::Missing
            &&& identifier == "owned-link"@ <==> kind == ManagedPathKind::OwnedLink
            &&& identifier == "symbolic-link"@ <==> kind == ManagedPathKind::SymbolicLink
            &&& identifier == "file"@ <==> kind == ManagedPathKind::File
            &&& identifier == "directory"@ <==> kind == ManagedPathKind::Directory
            &&& identifier == "other"@ <==> kind == ManagedPathKind::Other
        }),
{
    reveal_strlit("missing");
    assert("missing"@.len() == 7);
    reveal_strlit("owned-link");
    assert("owned-link"@.len() == 10);
    reveal_strlit("symbolic-link");
    assert("symbolic-link"@.len() == 13);
    reveal_strlit("file");
    assert("file"@.len() == 4);
    reveal_strlit("directory");
    assert("directory"@.len() == 9);
    reveal_strlit("other");
    assert("other"@.len() == 5);
}

/// Every kind of conflict and of warning has an identifier of its own.
pub proof fn identifiers_of_conflicts_and_warnings(conflict: ConflictKind, warning: WarningKind)
    ensures
        ({
            let identifier = conflict.identifier_text();
            &&& identifier == "command-name-registered"@ <==> conflict
                == ConflictKind::CommandNameRegistered
            &&& identifier == "duplicate-proposed-name"@ <==> conflict
                == ConflictKind::DuplicateProposedName
            &&& identifier == "managed-path-occupied"@ <==> conflict
                == ConflictKind::ManagedPathOccupied
        }),
        ({
            let identifier = warning.identifier_text();
            &&& identifier == "unreadable-directory"@ <==> warning
                == WarningKind::UnreadableDirectory
            &&& identifier == "unreadable-path"@ <==> warning == WarningKind::UnreadablePath
        }),
{
    reveal_strlit("command-name-registered");
    assert("command-name-registered"@.len() == 23);
    reveal_strlit("duplicate-proposed-name");
    assert("duplicate-proposed-name"@.len() == 23);
    reveal_strlit("managed-path-occupied");
    assert("managed-path-occupied"@.len() == 21);
    reveal_strlit("unreadable-directory");
    assert("unreadable-directory"@.len() == 20);
    reveal_strlit("unreadable-path");
    assert("unreadable-path"@.len() == 15);
    assert("command-name-registered"@[0] != "duplicate-proposed-name"@[0]);
}

/// A list is blocked exactly where one of its Registrations has a defect, and reports all of them.
pub proof fn when_a_list_is_blocked(states: Seq<RegistrationStateView>)
    ensures
        application::listed(states).registrations == states,
        application::listed(states).status == LifecycleStatus::Blocked <==> exists|i: int|
            0 <= i < states.len() && (#[trigger] states[i]).defect is Some,
        application::listed(states).identifier == "registrations-listed"@,
{
    if !application::all_healthy(states) {
        let i = choose|i: int|
            0 <= i < states.len() && !((#[trigger] states[i]).defect is None);
        assert(states[i].defect is Some);
    }
}

/// Whether a Target can be published: it is text, and a file that can be run. To enable what is
/// registered, it may also be missing.
pub proof fn which_targets_can_be_published(
    target: Seq<u8>,
    seen: ObservationView,
    missing_allowed: bool,
)
    ensures
        application::checked_target(target, seen, missing_allowed) is Ok <==> utf8::valid_utf8(
            target,
        ) && (runs(seen) || missing_allowed && (seen.followed matches Err(source) && source.kind
            == IoErrorKind::NotFound)),
{
    if let Ok(facts) = seen.followed {
        running(facts);
    }
}

/// Why a Target cannot be published is told with its path.
pub proof fn why_a_target_cannot_be_published(target: Seq<u8>, seen: ObservationView)
    requires
        utf8::valid_utf8(target),
        !runs(seen),
    ensures
        application::checked_target(target, seen, false) == Err::<(), ApplicationErrorView>(
            ApplicationErrorView::InvalidInput(
                match seen.followed {
                    Err(source) => if source.kind == IoErrorKind::NotFound {
                        "Target does not exist: "@ + utf8::decode_utf8(target)
                    } else {
                        "could not inspect Target "@ + utf8::decode_utf8(target) + ": "@
                            + source.message
                    },
                    Ok(facts) => if facts.is_file {
                        "Target is not executable: "@ + utf8::decode_utf8(target)
                    } else {
                        "Target is not a file: "@ + utf8::decode_utf8(target)
                    },
                },
            ),
        ),
{
    if let Ok(facts) = seen.followed {
        running(facts);
    }
}

/// Parts of a list of paths with a colon between neighbours.
pub open spec fn with_colons(parts: Seq<Seq<u8>>) -> Seq<u8>
    decreases parts.len(),
{
    if parts.len() == 0 {
        Seq::empty()
    } else if parts.len() == 1 {
        parts[0]
    } else {
        with_colons(parts.drop_last()) + seq![58u8] + parts.last()
    }
}

/// The parts of a list of paths are what stands between its colons.
pub proof fn what_a_list_of_paths_holds(s: Seq<u8>)
    ensures
        application::path_list(s).len() > 0,
        with_colons(application::path_list(s)) == s,
        forall|i: int|
            0 <= i < application::path_list(s).len() ==> !(#[trigger] application::path_list(
                s,
            )[i]).contains(58u8),
    decreases s.len(),
{
    let parts = application::path_list(s);
    if s.len() == 0 {
        assert(parts[0] == s);
    } else {
        what_a_list_of_paths_holds(s.drop_last());
        let before = application::path_list(s.drop_last());
        assert(s =~= s.drop_last().push(s.last()));
        if s.last() == 58u8 {
            assert(parts.drop_last() =~= before);
            assert(parts.last() =~= Seq::<u8>::empty());
            assert(with_colons(parts) =~= s);
            assert forall|i: int| 0 <= i < parts.len() implies !(#[trigger] parts[i]).contains(
                58u8,
            ) by {
                if i < before.len() {
                    assert(parts[i] == before[i]);
                }
            }
        } else {
            assert(parts.drop_last() =~= before.drop_last());
            assert(parts.last() == before.last().push(s.last()));
            if parts.len() > 1 {
                assert(with_colons(before) == with_colons(before.drop_last()) + seq![58u8]
                    + before.last());
            }
            assert(with_colons(parts) =~= s);
            assert forall|i: int| 0 <= i < parts.len() implies !(#[trigger] parts[i]).contains(
                58u8,
            ) by {
                assert(!before[i].contains(58u8));
                if i == parts.len() - 1 {
                    let last = parts[i];
                    if last.contains(58u8) {
                        let k = choose|k: int| 0 <= k < last.len() && last[k] == 58u8;
                        assert(before[i][k] == 58u8);
                    }
                }
            }
        }
    }
}

/// A part of `PATH` means the managed directory, taken against the working directory.
pub open spec fn means_the_directory(
    part: Seq<u8>,
    bin_dir: Seq<u8>,
    environment: EnvironmentView,
) -> bool {
    path::components(
        path::normalized(
            if path::absolute(part) {
                part
            } else {
                path::joined(environment.cwd, part)
            },
        ),
    ) == path::components(bin_dir)
}

proof fn how_parts_are_counted(
    parts: Seq<Seq<u8>>,
    bin_dir: Seq<u8>,
    environment: EnvironmentView,
)
    ensures
        application::matching_parts(parts, bin_dir, environment) == parts.filter(
            |part: Seq<u8>| means_the_directory(part, bin_dir, environment),
        ).len(),
        application::matching_parts(parts, bin_dir, environment) > 0 <==> exists|i: int|
            0 <= i < parts.len() && means_the_directory(#[trigger] parts[i], bin_dir, environment),
    decreases parts.len(),
{
    reveal(Seq::filter);
    if parts.len() > 0 {
        let before = parts.drop_last();
        how_parts_are_counted(before, bin_dir, environment);
        if exists|i: int|
            0 <= i < before.len() && means_the_directory(
                #[trigger] before[i],
                bin_dir,
                environment,
            ) {
            let i = choose|i: int|
                0 <= i < before.len() && means_the_directory(
                    #[trigger] before[i],
                    bin_dir,
                    environment,
                );
            assert(parts[i] == before[i]);
        }
        if means_the_directory(parts.last(), bin_dir, environment) {
            assert(parts[parts.len() - 1] == parts.last());
        }
        if exists|i: int|
            0 <= i < parts.len() && means_the_directory(
                #[trigger] parts[i],
                bin_dir,
                environment,
            ) {
            let i = choose|i: int|
                0 <= i < parts.len() && means_the_directory(
                    #[trigger] parts[i],
                    bin_dir,
                    environment,
                );
            if i < before.len() {
                assert(before[i] == parts[i]);
            }
        }
    }
}

/// The managed directory is on `PATH` exactly where some part of `PATH` means it, and it is told how
/// many parts do. Where none does, it is told what to add.
pub proof fn when_the_directory_is_on_the_path(bin_dir: Seq<u8>, environment: EnvironmentView)
    requires
        environment.variables.contains_key("PATH"@),
        application::path_list(environment.variables["PATH"@]).len() <= usize::MAX,
    ensures
        ({
            let parts = application::path_list(environment.variables["PATH"@]);
            let diagnosed = application::diagnosed(bin_dir, environment);
            let found = parts.filter(
                |part: Seq<u8>| means_the_directory(part, bin_dir, environment),
            ).len();
            &&& diagnosed.bin_dir == bin_dir
            &&& diagnosed.matches == found
            &&& diagnosed.status == PathStatus::Present <==> exists|i: int|
                0 <= i < parts.len() && means_the_directory(
                    #[trigger] parts[i],
                    bin_dir,
                    environment,
                )
            &&& diagnosed.status == PathStatus::Present ==> diagnosed.identifier
                == "managed-bin-on-path"@ && diagnosed.guidance == "managed bin directory "@
                + text::lossy_text(bin_dir) + " is on PATH"@
            &&& diagnosed.status == PathStatus::Missing ==> diagnosed.identifier
                == "managed-bin-not-on-path"@ && diagnosed.guidance == "add "@ + text::lossy_text(
                bin_dir,
            )
                + " as a complete PATH component in your shell configuration, then start a new shell"@
        }),
{
    let parts = application::path_list(environment.variables["PATH"@]);
    how_parts_are_counted(parts, bin_dir, environment);
    filtered_is_no_longer(parts, bin_dir, environment);
}

proof fn filtered_is_no_longer(
    parts: Seq<Seq<u8>>,
    bin_dir: Seq<u8>,
    environment: EnvironmentView,
)
    ensures
        application::matching_parts(parts, bin_dir, environment) <= parts.len(),
    decreases parts.len(),
{
    if parts.len() > 0 {
        filtered_is_no_longer(parts.drop_last(), bin_dir, environment);
    }
}

/// Without a `PATH` the managed directory is not on it.
pub proof fn without_a_path(bin_dir: Seq<u8>, environment: EnvironmentView)
    requires
        !environment.variables.contains_key("PATH"@),
    ensures
        application::diagnosed(bin_dir, environment).status == PathStatus::Missing,
        application::diagnosed(bin_dir, environment).matches == 0,
{
}

/// What lies at a path is told in words of its own.
pub proof fn what_is_told_of_a_path(seen: ObservationView)
    ensures
        application::path_summary(seen) == match seen.entry {
            Ok(kind) => match kind {
                EntryKind::SymbolicLink => "a symbolic link"@,
                EntryKind::File => "an unmanaged file"@,
                EntryKind::Directory => "an unmanaged directory"@,
                EntryKind::Other => "an unmanaged entry"@,
            },
            Err(source) => if source.kind == IoErrorKind::NotFound {
                "missing"@
            } else {
                "unreadable"@
            },
        },
{
}

} // verus!
