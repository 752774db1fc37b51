//! Why a file of the user is refused, and what errors say.

use vstd::prelude::*;
use vstd::utf8;

use crate::application::ApplicationErrorView;
use crate::configuration;
use crate::configuration::{ConfigFileView, ConfigurationErrorView, RootEntryView};
use crate::environment::EnvironmentView;
use crate::host::{FileReadView, IoErrorView};
use crate::lifecycle::{EventView, LifecycleView, PhaseView};
use crate::model::MutationBoundary;
use crate::path;
use crate::patterns;
use crate::reading_laws;
use crate::registry;
use crate::registry::{RegistryErrorView, RegistryFileView};
use crate::text;
use crate::views;

verus! {

/// A Registry file was refused with this reason.
pub open spec fn registry_refused(
    environment: EnvironmentView,
    file: RegistryFileView,
    reason: Seq<char>,
) -> bool {
    registry::loaded(environment, FileReadView::Parsed(file)) matches Err(error)
        && error.message() == "invalid Registry "@ + text::lossy_text(
        registry::registry_path_of(environment),
    ) + ": "@ + reason
}

/// Why a Registry file is refused: for a version that is not the one, and else for the first entry
/// that cannot stand behind those before it: for its name, for a name that was there before, for a
/// variable that is not set, or for a Target that is not absolute.
pub proof fn why_a_registry_is_refused(
    environment: EnvironmentView,
    file: RegistryFileView,
    i: int,
    j: int,
)
    requires
        0 <= i < file.registrations.len(),
        registry::read_entries(file.registrations.take(i), environment) is Ok,
    ensures
        file.version != 1 ==> registry_refused(
            environment,
            file,
            "unsupported Registry version "@ + text::decimal(file.version as nat)
                + "; expected 1"@,
        ),
        ({
            let entry = file.registrations[i];
            let target = configuration::expanded_path(entry.target, environment);
            let fresh = forall|k: int|
                0 <= k < i ==> (#[trigger] file.registrations[k]).name != entry.name;
            file.version == 1 ==> {
                &&& !registry::valid_name(entry.name) ==> registry_refused(
                    environment,
                    file,
                    "invalid Command Name "@ + text::quoted_text(entry.name),
                )
                &&& registry::valid_name(entry.name) && 0 <= j < i && file.registrations[j].name
                    == entry.name ==> registry_refused(
                    environment,
                    file,
                    "duplicate Command Name "@ + text::quoted_text(entry.name),
                )
                &&& registry::valid_name(entry.name) && fresh ==> {
                    &&& target matches Err(name) ==> registry_refused(
                        environment,
                        file,
                        "configured path references missing environment variable "@ + name,
                    )
                    &&& (target matches Ok(relative) && !path::absolute(relative))
                        ==> registry_refused(
                        environment,
                        file,
                        "Target must be absolute: "@ + text::lossy_text(target->Ok_0),
                    )
                }
            }
        }),
{
    let entries = file.registrations;
    let before = entries.take(i);
    let entry = entries[i];
    reading_laws::how_entries_are_read(before, environment);
    let read = registry::read_entries(before, environment)->Ok_0;
    assert(entries.take(i + 1).drop_last() =~= before);
    assert(entries.take(i + 1).last() == entry);
    if registry::read_entries(entries.take(i + 1), environment) is Err {
        registry::read_failure_stays(entries, environment, i + 1);
    }
    if 0 <= j < i && entries[j].name == entry.name {
        assert(before[j] == entries[j]);
        assert(read[j].name == entry.name);
        assert(registry::registered(read, entry.name));
    }
    if registry::registered(read, entry.name) {
        let k = choose|k: int| 0 <= k < read.len() && #[trigger] read[k].name == entry.name;
        assert(before[k] == entries[k]);
        assert(entries[k].name == entry.name);
    }
}

/// A configuration was refused with this message.
pub open spec fn configuration_refused(
    environment: EnvironmentView,
    read: FileReadView<ConfigFileView>,
    message: Seq<char>,
) -> bool {
    configuration::loaded(environment, read) matches Err(error) && error.message() == message
}

/// Why no configuration can be had, whatever file there is: without a home directory, or where the
/// directory for configuration is not absolute; and why none can be had of a file that cannot be
/// read or understood, or has a version that is not the one.
pub proof fn why_a_configuration_is_refused(
    environment: EnvironmentView,
    read: FileReadView<ConfigFileView>,
    source: IoErrorView,
    reason: Seq<char>,
    file: ConfigFileView,
)
    ensures
        ({
            let home = configuration::config_home_of(environment);
            let at = text::lossy_text(configuration::config_path_of(environment));
            &&& environment.home.len() == 0 ==> configuration_refused(
                environment,
                read,
                "HOME is required to resolve configuration paths"@,
            )
            &&& environment.home.len() > 0 && !path::absolute(home) ==> configuration_refused(
                environment,
                read,
                "XDG_CONFIG_HOME"@ + " must resolve to an absolute path, got "@ + text::lossy_text(
                    home,
                ),
            )
            &&& environment.home.len() > 0 && path::absolute(home) ==> {
                &&& configuration_refused(
                    environment,
                    FileReadView::Unreadable(source),
                    "could not read configuration "@ + at + ": "@ + source.message,
                )
                &&& configuration_refused(
                    environment,
                    FileReadView::Malformed(reason),
                    "invalid configuration "@ + at + ": "@ + reason,
                )
                &&& file.version != 1 ==> configuration_refused(
                    environment,
                    FileReadView::Parsed(file),
                    "invalid configuration "@ + at + ": "@ + (
                    "unsupported configuration version "@ + text::decimal(file.version as nat)
                        + "; expected 1"@),
                )
            }
        }),
{
}

/// Why a pattern in a configuration is refused: the first one that cannot be used is named, with the
/// reason.
pub proof fn why_a_pattern_is_refused(environment: EnvironmentView, file: ConfigFileView, i: int)
    requires
        environment.home.len() > 0,
        path::absolute(configuration::config_home_of(environment)),
        file.version == 1,
        0 <= i < file.ignore.len(),
        forall|j: int|
            0 <= j < i ==> reading_laws::usable_pattern(#[trigger] file.ignore[j]),
        !reading_laws::usable_pattern(file.ignore[i]),
    ensures
        ({
            let pattern = file.ignore[i];
            let at = "invalid configuration "@ + text::lossy_text(
                configuration::config_path_of(environment),
            ) + ": "@;
            let globs = patterns::line_globs(configuration::gitignore_line(pattern));
            let read = FileReadView::Parsed(file);
            &&& pattern.len() == 0 || pattern.contains('\0') ==> configuration_refused(
                environment,
                read,
                at + ("ignore value "@ + text::quoted_text(pattern)
                    + " must be a non-empty gitignore pattern without NUL"@),
            )
            &&& pattern.len() > 0 && !pattern.contains('\0') ==> {
                &&& globs matches Err(reason) ==> configuration_refused(
                    environment,
                    read,
                    at + ("ignore value "@ + text::quoted_text(pattern)
                        + " is not a valid gitignore pattern: "@ + reason),
                )
                &&& globs matches Ok(made) ==> (patterns::build_failure(made) matches Some(reason)
                    && configuration_refused(
                    environment,
                    read,
                    at + ("ignore value "@ + text::quoted_text(pattern)
                        + " is not a valid gitignore pattern: "@ + reason),
                ))
            }
        }),
{
    let checker = configuration::pattern_checker();
    let before = file.ignore.take(i);
    reading_laws::collected_if_all(before, checker);
    assert forall|j: int| 0 <= j < before.len() implies checker(#[trigger] before[j]) is Ok by {
        assert(reading_laws::usable_pattern(file.ignore[j]));
    }
    views::collected_step(file.ignore, checker, i);
}

/// Why a directory for Managed Links is refused: it names a variable that is not set, or is not
/// absolute.
pub proof fn why_a_bin_directory_is_refused(environment: EnvironmentView, value: Seq<char>)
    ensures
        ({
            let refused = configuration::resolved_bin_dir(Some(value), environment);
            match configuration::expanded_path(value, environment) {
                Err(name) => refused matches Err(error) && error.message()
                    == "configured path references missing environment variable "@ + name,
                Ok(made) => if path::absolute(made) {
                    refused is Ok
                } else {
                    refused matches Err(error) && error.message() == "bin_dir"@
                        + " must resolve to an absolute path, got "@ + text::lossy_text(made)
                },
            }
        }),
{
}

/// Why a display root is refused: for its name, for a variable that is not set, or because its path
/// is not absolute.
pub proof fn why_a_root_is_refused(environment: EnvironmentView, entry: RootEntryView)
    ensures
        !configuration::valid_root_name(entry.name) ==> configuration::root_name_checker()(entry)
            == Err::<(), Seq<char>>(
            "roots key "@ + text::quoted_text(entry.name)
                + " must be a non-empty display name without '/', '[', ']', or NUL"@,
        ),
        match configuration::expanded_path(entry.value, environment) {
            Err(name) => configuration::resolved_root(entry, environment) matches Err(error)
                && error.message() == "configured path references missing environment variable "@
                + name,
            Ok(root) => !path::absolute(root) ==> (configuration::resolved_root(
                entry,
                environment,
            ) matches Err(error) && error.message() == "invalid configuration "@ + text::lossy_text(
                configuration::config_path_of(environment),
            ) + ": "@ + ("roots."@ + entry.name + " must resolve to an absolute path, got "@
                + text::lossy_text(root))),
        },
        configuration::valid_root_name(entry.name) <==> {
            &&& entry.name.len() > 0
            &&& forall|i: int|
                0 <= i < entry.name.len() ==> #[trigger] entry.name[i] != '/' && entry.name[i]
                    != '[' && entry.name[i] != ']' && entry.name[i] != '\0'
        },
{
    let name = entry.name;
    if configuration::valid_root_name(name) {
        assert forall|i: int| 0 <= i < name.len() implies #[trigger] name[i] != '/' && name[i]
            != '[' && name[i] != ']' && name[i] != '\0' by {
            assert(name.contains(name[i]));
        }
    }
}

/// What an error says that names a path: what could not be done, the path and the reason. None of
/// these errors has a name of its own, and none leaves a Registration behind.
pub proof fn what_errors_say(
    name: Seq<char>,
    message: Seq<char>,
    p: Seq<u8>,
    source: IoErrorView,
    configured: ConfigurationErrorView,
    kept: RegistryErrorView,
)
    ensures
        ({
            let reason = text::lossy_text(p) + ": "@ + source.message;
            &&& plain(ApplicationErrorView::InvalidInput(message), "invalid input: "@ + message)
            &&& plain(
                ApplicationErrorView::UnknownName(name),
                "unknown Command Name "@ + text::quoted_text(name),
            )
            &&& plain(
                ApplicationErrorView::Search { path: p, source },
                "could not search "@ + reason,
            )
            &&& plain(
                ApplicationErrorView::InspectTarget { path: p, source },
                "could not inspect Target "@ + reason,
            )
            &&& plain(
                ApplicationErrorView::InspectManagedPath { path: p, source },
                "could not inspect managed path "@ + reason,
            )
            &&& plain(
                ApplicationErrorView::CreateManagedDirectory { path: p, source },
                "could not create managed directory "@ + reason,
            )
            &&& plain(
                ApplicationErrorView::CreateManagedLink { path: p, source },
                "could not create Managed Link "@ + reason,
            )
            &&& plain(
                ApplicationErrorView::RemoveManagedLink { path: p, source },
                "could not remove Managed Link "@ + reason,
            )
            &&& plain(ApplicationErrorView::Configuration(configured), configured.message())
            &&& plain(ApplicationErrorView::Registry(kept), kept.message())
        }),
{
    let at = text::lossy_text(p);
    assert forall|before: Seq<char>| #[trigger] registry::path_message(
        before,
        p,
        ": "@,
        source.message,
    ) == before + (at + ": "@ + source.message) by {
        assert(before + at + ": "@ + source.message =~= before + (at + ": "@ + source.message));
    }
}

/// An error that says this, and nothing else.
pub open spec fn plain(error: ApplicationErrorView, message: Seq<char>) -> bool {
    &&& error.message() == message
    &&& error.identifier() == "operation-failed"@
    &&& error.resulting_registration() is None
}

/// How a Target is written down: with a tilde for the home directory where it is that or lies below
/// it, and otherwise as it is.
pub proof fn how_a_target_is_spelled(target: Seq<u8>, home: Seq<u8>)
    requires
        utf8::valid_utf8(target),
        path::components(home).len() > 0,
    ensures
        !path::starts_with(target, home) ==> registry::stored_target(target, home) == Ok::<
            Seq<char>,
            Seq<char>,
        >(utf8::decode_utf8(target)),
        path::starts_with(target, home) && path::stripped(target, home).len() == 0
            ==> registry::stored_target(target, home) == Ok::<Seq<char>, Seq<char>>("~"@),
        path::starts_with(target, home) && path::stripped(target, home).len() > 0
            && !path::absolute(path::stripped(target, home)) ==> (registry::stored_target(
            target,
            home,
        ) matches Ok(spelled) && spelled == "~/"@ + utf8::decode_utf8(
            path::stripped(target, home),
        )),
{
    utf8::encode_utf8_valid_utf8("~"@);
    utf8::encode_utf8_decode_utf8("~"@);
    let rest = path::stripped(target, home);
    if path::starts_with(target, home) && rest.len() > 0 && !path::absolute(rest) {
        path::stripped_text_is_text(target, home);
        utf8::decode_utf8_encode_utf8(rest);
        let read = utf8::decode_utf8(rest);
        reveal_strlit("~");
        reveal_strlit("~/");
        let none = Seq::<char>::empty();
        text::encoding_of_ascii('~', none);
        text::encoding_of_ascii('~', seq!['/'] + read);
        text::encoding_of_ascii('/', read);
        assert(seq!['~'] + none =~= "~"@);
        assert(seq!['~'] + (seq!['/'] + read) =~= "~/"@ + read);
        assert(utf8::encode_utf8(none).len() == 0);
        let tilde = utf8::encode_utf8("~"@);
        assert(tilde =~= seq![126u8]);
        assert(path::joined(tilde, rest) =~= utf8::encode_utf8("~/"@ + read));
        utf8::encode_utf8_valid_utf8("~/"@ + read);
        utf8::encode_utf8_decode_utf8("~/"@ + read);
    }
}

/// The boundaries that an operation passes: the lock, the link that it makes and the link that it
/// takes away. What undoes a step passes none.
pub proof fn which_boundaries_are_passed(state: LifecycleView, environment: EnvironmentView)
    ensures
        state.request(environment).boundary() == match state.phase {
            PhaseView::Locking { .. } => Some(MutationBoundary::LockAcquisition),
            PhaseView::CreatingLink { .. } => Some(MutationBoundary::ManagedLinkCreation),
            PhaseView::CheckingLink { .. } => Some(MutationBoundary::ManagedLinkRemoval),
            _ => None,
        },
{
}

/// A link that an operation made is taken back only where it still leads to the Target.
pub proof fn what_is_taken_back(
    state: LifecycleView,
    found: Result<Option<Seq<u8>>, IoErrorView>,
    environment: EnvironmentView,
)
    requires
        state.phase is UndoChecking,
    ensures
        state.advance(EventView::LinkRead(found), environment).phase is UndoRemoving <==> (
        found matches Ok(Some(text)) && path::components(text) == path::components(
            state.phase->UndoChecking_change.target,
        )),
        state.advance(EventView::LinkRead(found), environment).phase
            matches PhaseView::UndoRemoving { link, .. } ==> link
            == state.phase->UndoChecking_link,
{
    reveal(LifecycleView::on_link_read);
    reveal(LifecycleView::restore);
    reveal(LifecycleView::fail);
    reveal(LifecycleView::mutation_failed);
}

} // verus!
