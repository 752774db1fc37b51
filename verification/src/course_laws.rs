//! How a search and a listing go on from step to step, what they ask for, and how they fail.

use vstd::prelude::*;

use crate::configuration;
use crate::configuration::{ConfigFileView, ConfigurationView};
use crate::discovery_ignore;
use crate::discovery_ignore::IgnoreFileView;
use crate::environment::EnvironmentView;
use crate::host::{FileReadView, IoErrorKind, IoErrorView, ObservationView};
use crate::lifecycle::{EventView, RequestView};
use crate::listing::ListPhaseView;
use crate::model::{RegistrationStateView, RegistrationView, SearchStatus};
use crate::path;
use crate::registry;
use crate::registry::RegistryFileView;
use crate::search::{FindingsView, ProbeView, SearchEventView, SearchPhaseView, SearchQueryView};
use crate::text;

verus! {

/// A search has failed with this message.
pub open spec fn search_says(phase: SearchPhaseView, message: Seq<char>) -> bool {
    phase matches SearchPhaseView::Finished(Err(error)) && error.message() == message
        && error.identifier() == "operation-failed"@
}

/// A listing has failed with this message.
pub open spec fn list_says(phase: ListPhaseView, message: Seq<char>) -> bool {
    phase matches ListPhaseView::Finished(Err(error)) && error.message() == message
        && error.identifier() == "operation-failed"@
}

/// What a search asks for, in this order: the configuration, the Registry, the list of ignored
/// paths, and a walk from the root that stays out of the directory for Managed Links, of what the
/// patterns ignore, and of the ignored paths.
pub proof fn what_a_search_asks_for(
    search_root: Option<Seq<u8>>,
    root: Seq<u8>,
    configured: ConfigurationView,
    registrations: Seq<RegistrationView>,
    ignored: Seq<Seq<u8>>,
    environment: EnvironmentView,
)
    ensures
        (SearchPhaseView::Configuring { search_root }).query(environment)
            == SearchQueryView::ReadConfiguration(configuration::config_path_of(environment)),
        (SearchPhaseView::ReadingRegistry { root, configuration: configured }).query(environment)
            == SearchQueryView::ReadRegistry(registry::registry_path_of(environment)),
        (SearchPhaseView::ReadingIgnored { root, configuration: configured, registrations }).query(
            environment,
        ) == SearchQueryView::ReadIgnored(discovery_ignore::path_of(environment)),
        (SearchPhaseView::Discovering {
            root,
            configuration: configured,
            registrations,
            ignored_paths: ignored,
        }).query(environment) == (SearchQueryView::Discover {
            root,
            bin_dir: configured.bin_dir,
            ignored_patterns: configured.ignore,
            ignored_paths: ignored,
        }),
{
}

/// How a search fails: for a configuration, a Registry or a list of ignored paths that cannot be
/// used, for a root that cannot be searched, and for a managed path that cannot be looked at.
pub proof fn how_a_search_fails(
    search_root: Option<Seq<u8>>,
    root: Seq<u8>,
    configured: ConfigurationView,
    registrations: Seq<RegistrationView>,
    ignored: Seq<Seq<u8>>,
    config_read: FileReadView<ConfigFileView>,
    registry_read: FileReadView<RegistryFileView>,
    ignore_read: FileReadView<IgnoreFileView>,
    source: IoErrorView,
    environment: EnvironmentView,
)
    ensures
        configuration::loaded(environment, config_read) matches Err(error) ==> search_says(
            (SearchPhaseView::Configuring { search_root }).advance(
                SearchEventView::Configuration(config_read),
                environment,
            ),
            error.message(),
        ),
        registry::loaded(environment, registry_read) matches Err(error) ==> search_says(
            (SearchPhaseView::ReadingRegistry { root, configuration: configured }).advance(
                SearchEventView::Registry(registry_read),
                environment,
            ),
            error.message(),
        ),
        discovery_ignore::loaded(environment, ignore_read) matches Err(error) ==> search_says(
            (SearchPhaseView::ReadingIgnored {
                root,
                configuration: configured,
                registrations,
            }).advance(SearchEventView::Ignored(ignore_read), environment),
            error.message(),
        ),
        search_says(
            (SearchPhaseView::Discovering {
                root,
                configuration: configured,
                registrations,
                ignored_paths: ignored,
            }).advance(SearchEventView::Discovered(Err(source)), environment),
            "could not search "@ + text::lossy_text(root) + ": "@ + source.message,
        ),
{
}

/// A managed path that cannot be looked at ends a search.
pub proof fn how_a_look_fails(
    findings: FindingsView,
    name: Seq<char>,
    managed_path: Seq<u8>,
    seen: ObservationView,
    environment: EnvironmentView,
)
    requires
        seen.entry matches Err(source) && source.kind != IoErrorKind::NotFound,
    ensures
        search_says(
            (SearchPhaseView::Judging {
                findings,
                probe: ProbeView::Free { name, managed_path },
            }).advance(SearchEventView::Observed(seq![seen]), environment),
            "could not inspect managed path "@ + text::lossy_text(managed_path) + ": "@
                + seen.entry->Err_0.message,
        ),
{
    reveal(FindingsView::probed);
}

/// A search of the directory for Managed Links finds nothing; any other directory is walked through.
pub proof fn where_nothing_is_searched(
    root: Seq<u8>,
    configured: ConfigurationView,
    registrations: Seq<RegistrationView>,
    read: FileReadView<IgnoreFileView>,
    environment: EnvironmentView,
)
    requires
        discovery_ignore::loaded(environment, read) is Ok,
    ensures
        ({
            let phase = SearchPhaseView::ReadingIgnored {
                root,
                configuration: configured,
                registrations,
            };
            let after = phase.advance(SearchEventView::Ignored(read), environment);
            if path::components(root) == path::components(configured.bin_dir) {
                after matches SearchPhaseView::Finished(Ok(found)) && found.candidates.len() == 0
                    && found.warnings.len() == 0 && found.search_root == root && found.status
                    == SearchStatus::Healthy
            } else {
                after == (SearchPhaseView::Discovering {
                    root,
                    configuration: configured,
                    registrations,
                    ignored_paths: discovery_ignore::loaded(environment, read)->Ok_0,
                })
            }
        }),
{
}

/// How a listing fails: for a configuration or a Registry that cannot be used, and for a directory,
/// a lock or a link that cannot be made; each is named with the reason.
pub proof fn how_a_listing_fails(
    bin_dir: Seq<u8>,
    locked: bool,
    registrations: Seq<RegistrationView>,
    missing: Seq<RegistrationStateView>,
    target: Seq<u8>,
    link: Seq<u8>,
    config_read: FileReadView<ConfigFileView>,
    registry_read: FileReadView<RegistryFileView>,
    source: IoErrorView,
    environment: EnvironmentView,
)
    ensures
        configuration::loaded(environment, config_read) matches Err(error) ==> list_says(
            ListPhaseView::Configuring.advance(
                EventView::Configuration(config_read),
                environment,
            ),
            error.message(),
        ),
        registry::loaded(environment, registry_read) matches Err(error) ==> list_says(
            (ListPhaseView::Reading { bin_dir, locked }).advance(
                EventView::Registry(registry_read),
                environment,
            ),
            error.message(),
        ),
        list_says(
            (ListPhaseView::CreatingRegistryDirectory { bin_dir }).advance(
                EventView::Done(Err(source)),
                environment,
            ),
            "could not create Registry directory "@ + text::lossy_text(
                registry::registry_directory_of(environment),
            ) + ": "@ + source.message,
        ),
        list_says(
            (ListPhaseView::Locking { bin_dir }).advance(EventView::Done(Err(source)), environment),
            "could not acquire Registry lock "@ + text::lossy_text(
                registry::lock_path_of(environment),
            ) + ": "@ + source.message,
        ),
        list_says(
            (ListPhaseView::CreatingBinDirectory { bin_dir, registrations, missing }).advance(
                EventView::Done(Err(source)),
                environment,
            ),
            "could not create managed directory "@ + text::lossy_text(bin_dir) + ": "@
                + source.message,
        ),
        source.kind != IoErrorKind::AlreadyExists ==> list_says(
            (ListPhaseView::Linking { bin_dir, registrations, target, link, missing }).advance(
                EventView::Done(Err(source)),
                environment,
            ),
            "could not create Managed Link "@ + text::lossy_text(link) + ": "@ + source.message,
        ),
{
}

/// A link that something else has made in the meantime is left as it is, and the listing goes on as
/// if it had made the link itself.
pub proof fn a_link_made_meanwhile(
    bin_dir: Seq<u8>,
    registrations: Seq<RegistrationView>,
    missing: Seq<RegistrationStateView>,
    target: Seq<u8>,
    link: Seq<u8>,
    source: IoErrorView,
    environment: EnvironmentView,
)
    requires
        source.kind == IoErrorKind::AlreadyExists,
    ensures
        ({
            let phase = ListPhaseView::Linking { bin_dir, registrations, target, link, missing };
            phase.advance(EventView::Done(Err(source)), environment) == phase.advance(
                EventView::Done(Ok(())),
                environment,
            )
        }),
{
}

/// A listing makes the links that are missing, each to its own Target, the first one first.
pub proof fn which_link_is_made(
    bin_dir: Seq<u8>,
    registrations: Seq<RegistrationView>,
    missing: Seq<RegistrationStateView>,
    target: Seq<u8>,
    link: Seq<u8>,
    environment: EnvironmentView,
)
    ensures
        ({
            let phase = ListPhaseView::Linking { bin_dir, registrations, target, link, missing };
            let made = EventView::Done(Ok(()));
            &&& phase.request(environment) == (RequestView::CreateLink {
                target,
                link,
                guarded: false,
            })
            &&& missing.len() > 0 ==> phase.advance(made, environment).request(environment) == (
            RequestView::CreateLink {
                target: missing.last().registration.target,
                link: missing.last().managed_link,
                guarded: false,
            })
            &&& missing.len() == 0 ==> !(phase.advance(made, environment).request(environment)
                is CreateLink)
        }),
{
}

} // verus!
