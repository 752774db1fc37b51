//! Searching for executables that could be registered, as a machine that the host drives.

use vstd::prelude::*;
use vstd::utf8;

use crate::application;
use crate::application::{ApplicationError, ApplicationErrorView, SearchRequest};
use crate::configuration;
use crate::configuration::{
    ConfigFile,
    ConfigFileView,
    Configuration,
    ConfigurationView,
};
use crate::discovery::{Discovery, DiscoveryView};
use crate::discovery_ignore;
use crate::discovery_ignore::{IgnoreFile, IgnoreFileView};
use crate::environment::{Environment, EnvironmentView};
use crate::host::{
    FileRead,
    FileReadView,
    IoError,
    IoErrorKind,
    IoErrorView,
    Observation,
    ObservationView,
};
use crate::lifecycle;
use crate::model::{
    Candidate,
    CandidateView,
    ConflictKind,
    NameConflict,
    NameConflictView,
    Registration,
    RegistrationStateView,
    RegistrationView,
    SearchResult,
    SearchResultView,
    SearchStatus,
    SearchWarning,
    SearchWarningView,
};
use crate::path;
use crate::path::PathBuf;
use crate::registry;
use crate::registry::{RegistryFile, RegistryFileView};
use crate::text;
use crate::views;

verus! {

/// The first Registration of a Target.
pub open spec fn registered_target(
    registrations: Seq<RegistrationView>,
    target: Seq<u8>,
) -> Option<int>
    decreases registrations.len(),
{
    if registrations.len() == 0 {
        None
    } else {
        match registered_target(registrations.drop_last(), target) {
            Some(i) => Some(i),
            None => if path::components(registrations.last().target) == path::components(target) {
                Some(registrations.len() - 1)
            } else {
                None
            },
        }
    }
}

/// The first Registration that gives a name to another Target.
pub open spec fn taken_name(
    registrations: Seq<RegistrationView>,
    name: Seq<char>,
    target: Seq<u8>,
) -> Option<int>
    decreases registrations.len(),
{
    if registrations.len() == 0 {
        None
    } else {
        match taken_name(registrations.drop_last(), name, target) {
            Some(i) => Some(i),
            None => if registrations.last().name == name && path::components(
                registrations.last().target,
            ) != path::components(target) {
                Some(registrations.len() - 1)
            } else {
                None
            },
        }
    }
}

/// The first other Target that proposes the same name.
pub open spec fn rival_target(
    targets: Seq<Seq<u8>>,
    name: Seq<char>,
    target: Seq<u8>,
) -> Option<int>
    decreases targets.len(),
{
    if targets.len() == 0 {
        None
    } else {
        match rival_target(targets.drop_last(), name, target) {
            Some(i) => Some(i),
            None => if lifecycle::textual_file_name(targets.last()) == Some(name)
                && path::components(targets.last()) != path::components(target) {
                Some(targets.len() - 1)
            } else {
                None
            },
        }
    }
}

/// What a Target comes to, before anything else is looked at.
#[allow(inconsistent_fields)]
pub enum Verdict {
    /// A file name that is not text proposes nothing.
    Skipped,
    /// The Target is registered; its Registration has to be inspected.
    Registered { name: Seq<char>, at: int, conflict: Option<NameConflictView> },
    /// The name is taken, or proposed twice.
    Conflicting { name: Seq<char>, conflict: NameConflictView },
    /// The name is free, if its managed path is.
    Free { name: Seq<char> },
}

/// A registered name comes before a rival Target, and that before the managed path.
#[verifier::opaque]
pub open spec fn judged(
    registrations: Seq<RegistrationView>,
    targets: Seq<Seq<u8>>,
    target: Seq<u8>,
) -> Verdict {
    match lifecycle::textual_file_name(target) {
        None => Verdict::Skipped,
        Some(name) => {
            let conflict = match taken_name(registrations, name, target) {
                Some(i) => Some(
                    NameConflictView {
                        kind: ConflictKind::CommandNameRegistered,
                        conflicting_target: registrations[i].target,
                    },
                ),
                None => None,
            };
            match (registered_target(registrations, target), conflict) {
                (Some(at), _) => Verdict::Registered { name, at, conflict },
                (None, Some(conflict)) => Verdict::Conflicting { name, conflict },
                (None, None) => match rival_target(targets, name, target) {
                    Some(i) => Verdict::Conflicting {
                        name,
                        conflict: NameConflictView {
                            kind: ConflictKind::DuplicateProposedName,
                            conflicting_target: targets[i],
                        },
                    },
                    None => Verdict::Free { name },
                },
            }
        },
    }
}

/// What is looked at for the Target that comes next.
#[derive(Debug)]
pub enum Probe {
    Registered { name: String, at: usize, link: PathBuf, conflict: Option<NameConflict> },
    Free { name: String, managed_path: PathBuf },
}

#[verifier::ext_equal]
pub enum ProbeView {
    Registered { name: Seq<char>, at: int, link: Seq<u8>, conflict: Option<NameConflictView> },
    Free { name: Seq<char>, managed_path: Seq<u8> },
}

impl View for Probe {
    type V = ProbeView;

    open spec fn view(&self) -> ProbeView {
        match *self {
            Probe::Registered { name, at, link, conflict } => ProbeView::Registered {
                name: name@,
                at: at as int,
                link: link@,
                conflict: views::view_of(conflict),
            },
            Probe::Free { name, managed_path } => ProbeView::Free {
                name: name@,
                managed_path: managed_path@,
            },
        }
    }
}

/// What a search has found, and how far it has judged it.
#[derive(Debug)]
pub struct Findings {
    pub root: PathBuf,
    pub bin_dir: PathBuf,
    pub registrations: Vec<Registration>,
    pub targets: Vec<PathBuf>,
    pub warnings: Vec<SearchWarning>,
    pub judged: usize,
    pub candidates: Vec<Candidate>,
}

#[verifier::ext_equal]
pub struct FindingsView {
    pub root: Seq<u8>,
    pub bin_dir: Seq<u8>,
    pub registrations: Seq<RegistrationView>,
    pub targets: Seq<Seq<u8>>,
    pub warnings: Seq<SearchWarningView>,
    pub judged: int,
    pub candidates: Seq<CandidateView>,
}

impl View for Findings {
    type V = FindingsView;

    open spec fn view(&self) -> FindingsView {
        FindingsView {
            root: self.root@,
            bin_dir: self.bin_dir@,
            registrations: views::views(self.registrations@),
            targets: views::views(self.targets@),
            warnings: views::views(self.warnings@),
            judged: self.judged as int,
            candidates: views::views(self.candidates@),
        }
    }
}

/// Where a search stands.
#[derive(Debug)]
pub enum SearchPhase {
    Configuring { search_root: Option<PathBuf> },
    ReadingRegistry { root: PathBuf, configuration: Configuration },
    ReadingIgnored {
        root: PathBuf,
        configuration: Configuration,
        registrations: Vec<Registration>,
    },
    Discovering {
        root: PathBuf,
        configuration: Configuration,
        registrations: Vec<Registration>,
        ignored_paths: Vec<PathBuf>,
    },
    Judging { findings: Findings, probe: Probe },
    Finished(Result<SearchResult, ApplicationError>),
}

#[verifier::ext_equal]
pub enum SearchPhaseView {
    Configuring { search_root: Option<Seq<u8>> },
    ReadingRegistry { root: Seq<u8>, configuration: ConfigurationView },
    ReadingIgnored {
        root: Seq<u8>,
        configuration: ConfigurationView,
        registrations: Seq<RegistrationView>,
    },
    Discovering {
        root: Seq<u8>,
        configuration: ConfigurationView,
        registrations: Seq<RegistrationView>,
        ignored_paths: Seq<Seq<u8>>,
    },
    Judging { findings: FindingsView, probe: ProbeView },
    Finished(Result<SearchResultView, ApplicationErrorView>),
}

impl View for SearchPhase {
    type V = SearchPhaseView;

    open spec fn view(&self) -> SearchPhaseView {
        match *self {
            SearchPhase::Configuring { search_root } => SearchPhaseView::Configuring {
                search_root: views::view_of(search_root),
            },
            SearchPhase::ReadingRegistry { root, configuration } =>
                SearchPhaseView::ReadingRegistry { root: root@, configuration: configuration@ },
            SearchPhase::ReadingIgnored { root, configuration, registrations } =>
                SearchPhaseView::ReadingIgnored {
                root: root@,
                configuration: configuration@,
                registrations: views::views(registrations@),
            },
            SearchPhase::Discovering { root, configuration, registrations, ignored_paths } =>
                SearchPhaseView::Discovering {
                root: root@,
                configuration: configuration@,
                registrations: views::views(registrations@),
                ignored_paths: views::views(ignored_paths@),
            },
            SearchPhase::Judging { findings, probe } => SearchPhaseView::Judging {
                findings: findings@,
                probe: probe@,
            },
            SearchPhase::Finished(outcome) => SearchPhaseView::Finished(
                match outcome {
                    Ok(result) => Ok(result@),
                    Err(error) => Err(error@),
                },
            ),
        }
    }
}

/// What the host is asked to do next.
#[derive(Debug)]
pub enum SearchQuery {
    ReadConfiguration(PathBuf),
    ReadRegistry(PathBuf),
    ReadIgnored(PathBuf),
    /// Walk the tree below `root`.
    Discover {
        root: PathBuf,
        bin_dir: PathBuf,
        ignored_patterns: Vec<String>,
        ignored_paths: Vec<PathBuf>,
    },
    Observe(Vec<PathBuf>),
    Finish,
}

#[verifier::ext_equal]
pub enum SearchQueryView {
    ReadConfiguration(Seq<u8>),
    ReadRegistry(Seq<u8>),
    ReadIgnored(Seq<u8>),
    Discover {
        root: Seq<u8>,
        bin_dir: Seq<u8>,
        ignored_patterns: Seq<Seq<char>>,
        ignored_paths: Seq<Seq<u8>>,
    },
    Observe(Seq<Seq<u8>>),
    Finish,
}

impl View for SearchQuery {
    type V = SearchQueryView;

    open spec fn view(&self) -> SearchQueryView {
        match *self {
            SearchQuery::ReadConfiguration(path) => SearchQueryView::ReadConfiguration(path@),
            SearchQuery::ReadRegistry(path) => SearchQueryView::ReadRegistry(path@),
            SearchQuery::ReadIgnored(path) => SearchQueryView::ReadIgnored(path@),
            SearchQuery::Discover { root, bin_dir, ignored_patterns, ignored_paths } =>
                SearchQueryView::Discover {
                root: root@,
                bin_dir: bin_dir@,
                ignored_patterns: views::views(ignored_patterns@),
                ignored_paths: views::views(ignored_paths@),
            },
            SearchQuery::Observe(paths) => SearchQueryView::Observe(views::views(paths@)),
            SearchQuery::Finish => SearchQueryView::Finish,
        }
    }
}

/// What the host reports.
#[derive(Debug)]
pub enum SearchEvent {
    Configuration(FileRead<ConfigFile>),
    Registry(FileRead<RegistryFile>),
    Ignored(FileRead<IgnoreFile>),
    Discovered(Result<Discovery, IoError>),
    Observed(Vec<Observation>),
}

#[verifier::ext_equal]
pub enum SearchEventView {
    Configuration(FileReadView<ConfigFileView>),
    Registry(FileReadView<RegistryFileView>),
    Ignored(FileReadView<IgnoreFileView>),
    Discovered(Result<DiscoveryView, IoErrorView>),
    Observed(Seq<ObservationView>),
}

impl View for SearchEvent {
    type V = SearchEventView;

    open spec fn view(&self) -> SearchEventView {
        match *self {
            SearchEvent::Configuration(read) => SearchEventView::Configuration(read@),
            SearchEvent::Registry(read) => SearchEventView::Registry(read@),
            SearchEvent::Ignored(read) => SearchEventView::Ignored(read@),
            SearchEvent::Discovered(outcome) => SearchEventView::Discovered(
                match outcome {
                    Ok(found) => Ok(found@),
                    Err(source) => Err(source@),
                },
            ),
            SearchEvent::Observed(seen) => SearchEventView::Observed(views::views(seen@)),
        }
    }
}

/// A search is blocked exactly when a candidate has a conflict.
pub open spec fn search_status(candidates: Seq<CandidateView>) -> SearchStatus {
    if exists|i: int| 0 <= i < candidates.len() && (#[trigger] candidates[i]).conflict is Some {
        SearchStatus::Blocked
    } else {
        SearchStatus::Healthy
    }
}

pub open spec fn search_failed(error: ApplicationErrorView) -> SearchPhaseView {
    SearchPhaseView::Finished(Err(error))
}

impl FindingsView {
    pub open spec fn result(self) -> SearchResultView {
        SearchResultView {
            status: search_status(self.candidates),
            search_root: self.root,
            candidates: self.candidates,
            warnings: self.warnings,
        }
    }

    /// The Target that comes next has been judged.
    pub open spec fn next(self) -> Self {
        FindingsView { judged: self.judged + 1, ..self }
    }

    pub open spec fn with(self, candidate: CandidateView) -> Self {
        FindingsView {
            judged: self.judged + 1,
            candidates: self.candidates.push(candidate),
            ..self
        }
    }

    pub open spec fn candidate(
        self,
        name: Seq<char>,
        registration: Option<RegistrationStateView>,
        conflict: Option<NameConflictView>,
    ) -> CandidateView {
        CandidateView {
            proposed_name: name,
            target: self.targets[self.judged],
            registration,
            conflict,
        }
    }

    /// On to the next Target that needs a look; after the last one the search is over.
    pub open spec fn settle(self) -> SearchPhaseView
        decreases self.targets.len() - self.judged,
    {
        if self.judged >= self.targets.len() {
            SearchPhaseView::Finished(Ok(self.result()))
        } else {
            match judged(self.registrations, self.targets, self.targets[self.judged]) {
                Verdict::Skipped => self.next().settle(),
                Verdict::Conflicting { name, conflict } => self.with(
                    self.candidate(name, None, Some(conflict)),
                ).settle(),
                Verdict::Registered { name, at, conflict } => match application::managed_link_of(
                    self.bin_dir,
                    self.registrations[at].name,
                ) {
                    Err(error) => search_failed(error),
                    Ok(link) => SearchPhaseView::Judging {
                        findings: self,
                        probe: ProbeView::Registered { name, at, link, conflict },
                    },
                },
                Verdict::Free { name } => SearchPhaseView::Judging {
                    findings: self,
                    probe: ProbeView::Free {
                        name,
                        managed_path: path::joined(self.bin_dir, utf8::encode_utf8(name)),
                    },
                },
            }
        }
    }

    /// What a look at the Target that comes next leads to.
    #[verifier::opaque]
    pub open spec fn probed(self, probe: ProbeView, seen: Seq<ObservationView>) -> SearchPhaseView {
        match probe {
            ProbeView::Registered { name, at, conflict, .. } => if seen.len() != 2 {
                SearchPhaseView::Judging { findings: self, probe }
            } else {
                match application::inspected(
                    self.registrations[at],
                    self.bin_dir,
                    seen[0],
                    seen[1],
                ) {
                    Err(error) => search_failed(error),
                    Ok(state) => self.with(
                        self.candidate(name, Some(state), conflict),
                    ).settle(),
                }
            },
            ProbeView::Free { name, managed_path } => if seen.len() != 1 {
                SearchPhaseView::Judging { findings: self, probe }
            } else {
                match seen[0].entry {
                    Ok(_) => self.with(
                        self.candidate(
                            name,
                            None,
                            Some(
                                NameConflictView {
                                    kind: ConflictKind::ManagedPathOccupied,
                                    conflicting_target: managed_path,
                                },
                            ),
                        ),
                    ).settle(),
                    Err(source) => if source.kind == IoErrorKind::NotFound {
                        self.with(self.candidate(name, None, None)).settle()
                    } else {
                        search_failed(
                            ApplicationErrorView::InspectManagedPath { path: managed_path, source },
                        )
                    },
                }
            },
        }
    }
}

/// The directory that a request searches.
pub open spec fn search_root_of(
    search_root: Option<Seq<u8>>,
    environment: EnvironmentView,
) -> Seq<u8> {
    application::absolute_of(
        match search_root {
            Some(root) => root,
            None => environment.cwd,
        },
        environment,
    )
}

/// What was found, before it is judged.
pub open spec fn findings_of(
    root: Seq<u8>,
    configuration: ConfigurationView,
    registrations: Seq<RegistrationView>,
    found: DiscoveryView,
) -> FindingsView {
    FindingsView {
        root,
        bin_dir: configuration.bin_dir,
        registrations,
        targets: found.targets,
        warnings: found.warnings,
        judged: 0,
        candidates: Seq::empty(),
    }
}

impl SearchPhaseView {
    /// The next phase once the host has reported; a report that was not asked for changes nothing.
    pub open spec fn advance(self, event: SearchEventView, environment: EnvironmentView) -> Self {
        match (self, event) {
            (
                SearchPhaseView::Configuring { search_root },
                SearchEventView::Configuration(read),
            ) => match configuration::loaded(environment, read) {
                Err(error) => search_failed(ApplicationErrorView::Configuration(error)),
                Ok(configuration) => SearchPhaseView::ReadingRegistry {
                    root: search_root_of(search_root, environment),
                    configuration,
                },
            },
            (
                SearchPhaseView::ReadingRegistry { root, configuration },
                SearchEventView::Registry(read),
            ) => match registry::loaded(environment, read) {
                Err(error) => search_failed(ApplicationErrorView::Registry(error)),
                Ok(registrations) => SearchPhaseView::ReadingIgnored {
                    root,
                    configuration,
                    registrations,
                },
            },
            (
                SearchPhaseView::ReadingIgnored { root, configuration, registrations },
                SearchEventView::Ignored(read),
            ) => match discovery_ignore::loaded(environment, read) {
                Err(error) => search_failed(ApplicationErrorView::DiscoveryIgnore(error)),
                Ok(ignored_paths) => if path::components(root) == path::components(
                    configuration.bin_dir,
                ) {
                    findings_of(
                        root,
                        configuration,
                        registrations,
                        DiscoveryView { targets: Seq::empty(), warnings: Seq::empty() },
                    ).settle()
                } else {
                    SearchPhaseView::Discovering {
                        root,
                        configuration,
                        registrations,
                        ignored_paths,
                    }
                },
            },
            (
                SearchPhaseView::Discovering { root, configuration, registrations, .. },
                SearchEventView::Discovered(outcome),
            ) => match outcome {
                Err(source) => search_failed(ApplicationErrorView::Search { path: root, source }),
                Ok(found) => findings_of(root, configuration, registrations, found).settle(),
            },
            (
                SearchPhaseView::Judging { findings, probe },
                SearchEventView::Observed(seen),
            ) => findings.probed(probe, seen),
            _ => self,
        }
    }

    /// What the host is to do next.
    pub open spec fn query(self, environment: EnvironmentView) -> SearchQueryView {
        match self {
            SearchPhaseView::Configuring { .. } => SearchQueryView::ReadConfiguration(
                configuration::config_path_of(environment),
            ),
            SearchPhaseView::ReadingRegistry { .. } => SearchQueryView::ReadRegistry(
                registry::registry_path_of(environment),
            ),
            SearchPhaseView::ReadingIgnored { .. } => SearchQueryView::ReadIgnored(
                discovery_ignore::path_of(environment),
            ),
            SearchPhaseView::Discovering { root, configuration, ignored_paths, .. } =>
                SearchQueryView::Discover {
                root,
                bin_dir: configuration.bin_dir,
                ignored_patterns: configuration.ignore,
                ignored_paths,
            },
            SearchPhaseView::Judging { findings, probe } => SearchQueryView::Observe(
                match probe {
                    ProbeView::Registered { at, link, .. } => seq![
                        link,
                        findings.registrations[at].target,
                    ],
                    ProbeView::Free { managed_path, .. } => seq![managed_path],
                },
            ),
            SearchPhaseView::Finished(_) => SearchQueryView::Finish,
        }
    }
}

fn find_target(registrations: &Vec<Registration>, target: &PathBuf) -> (r: Option<usize>)
    ensures
        match r {
            Some(i) => i < registrations@.len() && registered_target(
                views::views(registrations@),
                target@,
            ) == Some(i as int),
            None => registered_target(views::views(registrations@), target@) is None,
        },
{
    let ghost all = views::views(registrations@);
    let mut i: usize = 0;
    let mut found: Option<usize> = None;
    assert(all.take(0).len() == 0);
    while i < registrations.len()
        invariant
            i <= registrations@.len(),
            all == views::views(registrations@),
            match found {
                Some(k) => k < registrations@.len() && registered_target(
                    all.take(i as int),
                    target@,
                ) == Some(k as int),
                None => registered_target(all.take(i as int), target@) is None,
            },
        decreases registrations.len() - i,
    {
        assert(all.take(i + 1).drop_last() =~= all.take(i as int));
        assert(all.take(i + 1).last() == registrations@[i as int]@);
        if found.is_none() && registrations[i].target.same(target) {
            found = Some(i);
        }
        i = i + 1;
    }
    assert(all.take(i as int) =~= all);
    found
}

fn find_taken_name(registrations: &Vec<Registration>, name: &str, target: &PathBuf) -> (r: Option<
    usize,
>)
    ensures
        match r {
            Some(i) => i < registrations@.len() && taken_name(
                views::views(registrations@),
                name@,
                target@,
            ) == Some(i as int),
            None => taken_name(views::views(registrations@), name@, target@) is None,
        },
{
    let ghost all = views::views(registrations@);
    let mut i: usize = 0;
    let mut found: Option<usize> = None;
    assert(all.take(0).len() == 0);
    while i < registrations.len()
        invariant
            i <= registrations@.len(),
            all == views::views(registrations@),
            match found {
                Some(k) => k < registrations@.len() && taken_name(
                    all.take(i as int),
                    name@,
                    target@,
                ) == Some(k as int),
                None => taken_name(all.take(i as int), name@, target@) is None,
            },
        decreases registrations.len() - i,
    {
        assert(all.take(i + 1).drop_last() =~= all.take(i as int));
        assert(all.take(i + 1).last() == registrations@[i as int]@);
        if found.is_none() && text::same(&registrations[i].name, name)
            && !registrations[i].target.same(target) {
            found = Some(i);
        }
        i = i + 1;
    }
    assert(all.take(i as int) =~= all);
    found
}

fn find_rival(targets: &Vec<PathBuf>, name: &str, target: &PathBuf) -> (r: Option<usize>)
    ensures
        match r {
            Some(i) => i < targets@.len() && rival_target(
                views::views(targets@),
                name@,
                target@,
            ) == Some(i as int),
            None => rival_target(views::views(targets@), name@, target@) is None,
        },
{
    let ghost all = views::views(targets@);
    let mut i: usize = 0;
    let mut found: Option<usize> = None;
    assert(all.take(0).len() == 0);
    while i < targets.len()
        invariant
            i <= targets@.len(),
            all == views::views(targets@),
            match found {
                Some(k) => k < targets@.len() && rival_target(all.take(i as int), name@, target@)
                    == Some(k as int),
                None => rival_target(all.take(i as int), name@, target@) is None,
            },
        decreases targets.len() - i,
    {
        assert(all.take(i + 1).drop_last() =~= all.take(i as int));
        assert(all.take(i + 1).last() == targets@[i as int]@);
        if found.is_none() {
            let same_name = match lifecycle::file_name_text(&targets[i]) {
                Some(other) => text::same(&other, name),
                None => false,
            };
            if same_name && !targets[i].same(target) {
                found = Some(i);
            }
        }
        i = i + 1;
    }
    assert(all.take(i as int) =~= all);
    found
}

/// What a Target comes to, before anything else is looked at.
#[allow(inconsistent_fields)]
enum Judgement {
    Skipped,
    Registered { name: String, at: usize, conflict: Option<NameConflict> },
    Conflicting { name: String, conflict: NameConflict },
    Free { name: String },
}

fn judge(registrations: &Vec<Registration>, targets: &Vec<PathBuf>, target: &PathBuf) -> (r:
    Judgement)
    ensures
        match judged(views::views(registrations@), views::views(targets@), target@) {
            Verdict::Skipped => r is Skipped,
            Verdict::Registered { name, at, conflict } => r matches Judgement::Registered {
                name: n,
                at: a,
                conflict: c,
            } && n@ == name && a == at && views::view_of(c) == conflict && a < registrations@.len(),
            Verdict::Conflicting { name, conflict } => r matches Judgement::Conflicting {
                name: n,
                conflict: c,
            } && n@ == name && c@ == conflict,
            Verdict::Free { name } => r matches Judgement::Free { name: n } && n@ == name,
        },
{
    reveal(judged);
    let name = match lifecycle::file_name_text(target) {
        None => {
            return Judgement::Skipped;
        },
        Some(name) => name,
    };
    let conflict = match find_taken_name(registrations, &name, target) {
        Some(i) => Some(
            NameConflict {
                kind: ConflictKind::CommandNameRegistered,
                conflicting_target: registrations[i].target.clone(),
            },
        ),
        None => None,
    };
    match (find_target(registrations, target), conflict) {
        (Some(at), conflict) => Judgement::Registered { name, at, conflict },
        (None, Some(conflict)) => Judgement::Conflicting { name, conflict },
        (None, None) => match find_rival(targets, &name, target) {
            Some(i) => Judgement::Conflicting {
                name,
                conflict: NameConflict {
                    kind: ConflictKind::DuplicateProposedName,
                    conflicting_target: targets[i].clone(),
                },
            },
            None => Judgement::Free { name },
        },
    }
}

fn status_of(candidates: &Vec<Candidate>) -> (r: SearchStatus)
    ensures
        r == search_status(views::views(candidates@)),
{
    let ghost all = views::views(candidates@);
    let mut i: usize = 0;
    while i < candidates.len()
        invariant
            i <= candidates@.len(),
            all == views::views(candidates@),
            forall|j: int| 0 <= j < i ==> (#[trigger] all[j]).conflict is None,
        decreases candidates.len() - i,
    {
        if candidates[i].conflict.is_some() {
            assert(all[i as int].conflict is Some);
            return SearchStatus::Blocked;
        }
        i = i + 1;
    }
    SearchStatus::Healthy
}

impl Findings {
    fn push(
        &mut self,
        name: String,
        registration: Option<crate::model::RegistrationState>,
        conflict: Option<NameConflict>,
    )
        requires
            old(self).judged < old(self).targets@.len(),
        ensures
            final(self)@ == old(self)@.with(
                old(self)@.candidate(
                    name@,
                    views::view_of(registration),
                    views::view_of(conflict),
                ),
            ),
    {
        let ghost before = self.candidates@;
        let target = self.targets[self.judged].clone();
        let candidate = Candidate { proposed_name: name, target, registration, conflict };
        let ghost value = candidate@;
        self.candidates.push(candidate);
        assert(views::views(self.candidates@) =~= views::views(before).push(value));
        assert(self.judged < self.targets.len());
        self.judged = self.judged + 1;
    }

    fn settle(self) -> (r: SearchPhase)
        ensures
            r@ == self@.settle(),
            r.wf(),
    {
        let mut findings = self;
        while findings.judged < findings.targets.len()
            invariant
                findings@.settle() == self@.settle(),
            decreases findings.targets.len() - findings.judged,
        {
            match judge(
                &findings.registrations,
                &findings.targets,
                &findings.targets[findings.judged],
            ) {
                Judgement::Skipped => {
                    findings.judged = findings.judged + 1;
                },
                Judgement::Conflicting { name, conflict } => {
                    findings.push(name, None, Some(conflict));
                },
                Judgement::Registered { name, at, conflict } => {
                    return match application::managed_link(
                        &findings.bin_dir,
                        &findings.registrations[at].name,
                    ) {
                        Err(error) => SearchPhase::Finished(Err(error)),
                        Ok(link) => SearchPhase::Judging {
                            findings,
                            probe: Probe::Registered { name, at, link, conflict },
                        },
                    };
                },
                Judgement::Free { name } => {
                    let managed_path = findings.bin_dir.join_text(&name);
                    return SearchPhase::Judging {
                        findings,
                        probe: Probe::Free { name, managed_path },
                    };
                },
            }
        }
        SearchPhase::Finished(
            Ok(
                SearchResult {
                    status: status_of(&findings.candidates),
                    search_root: findings.root,
                    candidates: findings.candidates,
                    warnings: findings.warnings,
                },
            ),
        )
    }

    fn probed(self, probe: Probe, seen: Vec<Observation>) -> (r: SearchPhase)
        requires
            (SearchPhase::Judging { findings: self, probe }).wf(),
        ensures
            r@ == self@.probed(probe@, views::views(seen@)),
            r.wf(),
    {
        reveal(FindingsView::probed);
        let mut findings = self;
        match probe {
            Probe::Registered { name, at, link, conflict } => {
                if seen.len() != 2 {
                    return SearchPhase::Judging {
                        findings,
                        probe: Probe::Registered { name, at, link, conflict },
                    };
                }
                match application::inspect_registration(
                    &findings.registrations[at],
                    &findings.bin_dir,
                    &seen[0],
                    &seen[1],
                ) {
                    Err(error) => SearchPhase::Finished(Err(error)),
                    Ok(state) => {
                        findings.push(name, Some(state), conflict);
                        findings.settle()
                    },
                }
            },
            Probe::Free { name, managed_path } => {
                if seen.len() != 1 {
                    return SearchPhase::Judging {
                        findings,
                        probe: Probe::Free { name, managed_path },
                    };
                }
                match &seen[0].entry {
                    Ok(_) => {
                        let conflict = NameConflict {
                            kind: ConflictKind::ManagedPathOccupied,
                            conflicting_target: managed_path,
                        };
                        findings.push(name, None, Some(conflict));
                        findings.settle()
                    },
                    Err(source) => if source.is_not_found() {
                        findings.push(name, None, None);
                        findings.settle()
                    } else {
                        SearchPhase::Finished(
                            Err(
                                ApplicationError::InspectManagedPath {
                                    path: managed_path,
                                    source: source.clone(),
                                },
                            ),
                        )
                    },
                }
            },
        }
    }
}

/// Begins a search.
pub fn search(request: SearchRequest) -> (r: SearchPhase)
    ensures
        r@ == (SearchPhaseView::Configuring { search_root: views::view_of(request.search_root) }),
        r.wf(),
{
    SearchPhase::Configuring { search_root: request.search_root }
}

fn start_judging(
    root: PathBuf,
    configuration: Configuration,
    registrations: Vec<Registration>,
    found: Discovery,
) -> (r: SearchPhase)
    ensures
        r@ == findings_of(
            root@,
            configuration@,
            views::views(registrations@),
            found@,
        ).settle(),
        r.wf(),
{
    let candidates: Vec<Candidate> = Vec::new();
    assert(views::views(candidates@) =~= Seq::empty());
    Findings {
        root,
        bin_dir: configuration.bin_dir,
        registrations,
        targets: found.targets,
        warnings: found.warnings,
        judged: 0,
        candidates,
    }.settle()
}

impl SearchPhase {
    /// What is judged is there.
    pub open spec fn wf(self) -> bool {
        self matches SearchPhase::Judging { findings, probe } ==> {
            &&& findings.judged < findings.targets@.len()
            &&& probe matches Probe::Registered { at, .. } ==> at < findings.registrations@.len()
        }
    }

    /// The next phase once the host has reported; a report that was not asked for changes nothing.
    pub fn advance(self, event: SearchEvent, environment: &Environment) -> (r: Self)
        requires
            self.wf(),
        ensures
            r@ == self@.advance(event@, environment@),
            r.wf(),
    {
        match (self, event) {
            (
                SearchPhase::Configuring { search_root },
                SearchEvent::Configuration(read),
            ) => match configuration::load(environment, read) {
                Err(error) => SearchPhase::Finished(Err(ApplicationError::Configuration(error))),
                Ok(configuration) => {
                    let root = match search_root {
                        Some(root) => application::absolute_target(&root, environment),
                        None => application::absolute_target(environment.cwd(), environment),
                    };
                    SearchPhase::ReadingRegistry { root, configuration }
                },
            },
            (
                SearchPhase::ReadingRegistry { root, configuration },
                SearchEvent::Registry(read),
            ) => match registry::load(environment, read) {
                Err(error) => SearchPhase::Finished(Err(ApplicationError::Registry(error))),
                Ok(registrations) => SearchPhase::ReadingIgnored {
                    root,
                    configuration,
                    registrations,
                },
            },
            (
                SearchPhase::ReadingIgnored { root, configuration, registrations },
                SearchEvent::Ignored(read),
            ) => match discovery_ignore::load(environment, read) {
                Err(error) => SearchPhase::Finished(Err(ApplicationError::DiscoveryIgnore(error))),
                Ok(ignored_paths) => if root.same(&configuration.bin_dir) {
                    let nothing = Discovery { targets: Vec::new(), warnings: Vec::new() };
                    assert(nothing@.targets =~= Seq::empty());
                    assert(nothing@.warnings =~= Seq::empty());
                    start_judging(root, configuration, registrations, nothing)
                } else {
                    SearchPhase::Discovering { root, configuration, registrations, ignored_paths }
                },
            },
            (
                SearchPhase::Discovering { root, configuration, registrations, .. },
                SearchEvent::Discovered(outcome),
            ) => match outcome {
                Err(source) => SearchPhase::Finished(
                    Err(ApplicationError::Search { path: root, source }),
                ),
                Ok(found) => start_judging(root, configuration, registrations, found),
            },
            (SearchPhase::Judging { findings, probe }, SearchEvent::Observed(seen)) => {
                findings.probed(probe, seen)
            },
            (phase, _) => phase,
        }
    }

    /// What the host is to do next.
    pub fn query(&self, environment: &Environment) -> (r: SearchQuery)
        requires
            self.wf(),
        ensures
            r@ == self@.query(environment@),
    {
        match self {
            SearchPhase::Configuring { .. } => SearchQuery::ReadConfiguration(
                configuration::config_path(environment),
            ),
            SearchPhase::ReadingRegistry { .. } => SearchQuery::ReadRegistry(
                registry::registry_path(environment),
            ),
            SearchPhase::ReadingIgnored { .. } => SearchQuery::ReadIgnored(
                discovery_ignore::path(environment),
            ),
            SearchPhase::Discovering { root, configuration, ignored_paths, .. } => {
                let ignored_patterns = configuration.ignore.clone();
                let ignored_paths_copy = ignored_paths.clone();
                assert(views::views(ignored_patterns@) =~= views::views(configuration.ignore@));
                assert(views::views(ignored_paths_copy@) =~= views::views(ignored_paths@));
                SearchQuery::Discover {
                    root: root.clone(),
                    bin_dir: configuration.bin_dir.clone(),
                    ignored_patterns,
                    ignored_paths: ignored_paths_copy,
                }
            },
            SearchPhase::Judging { findings, probe } => {
                let mut paths: Vec<PathBuf> = Vec::new();
                match probe {
                    Probe::Registered { at, link, .. } => {
                        paths.push(link.clone());
                        paths.push(findings.registrations[*at].target.clone());
                        assert(views::views(paths@) =~= seq![
                            link@,
                            findings.registrations@[*at as int].target@,
                        ]);
                    },
                    Probe::Free { managed_path, .. } => {
                        paths.push(managed_path.clone());
                        assert(views::views(paths@) =~= seq![managed_path@]);
                    },
                }
                SearchQuery::Observe(paths)
            },
            SearchPhase::Finished(_) => SearchQuery::Finish,
        }
    }

    /// The outcome of a search that is over.
    pub fn outcome(self) -> (r: Option<Result<SearchResult, ApplicationError>>)
        ensures
            match self@ {
                SearchPhaseView::Finished(Ok(result)) => r is Some && r->0 is Ok && r->0->Ok_0@
                    == result,
                SearchPhaseView::Finished(Err(error)) => r is Some && r->0 is Err && r->0->Err_0@
                    == error,
                _ => r is None,
            },
    {
        match self {
            SearchPhase::Finished(outcome) => Some(outcome),
            _ => None,
        }
    }
}

/// The conflict that a Target has, where its Registration and managed path show none, is a name
/// that is registered for another Target before it is a name that another Target proposes.
pub proof fn a_registered_name_comes_before_a_rival(
    registrations: Seq<RegistrationView>,
    targets: Seq<Seq<u8>>,
    target: Seq<u8>,
    name: Seq<char>,
)
    requires
        lifecycle::textual_file_name(target) == Some(name),
    ensures
        taken_name(registrations, name, target) is Some ==> match judged(
            registrations,
            targets,
            target,
        ) {
            Verdict::Registered { conflict: Some(conflict), .. } => conflict.kind
                == ConflictKind::CommandNameRegistered,
            Verdict::Conflicting { conflict, .. } => conflict.kind
                == ConflictKind::CommandNameRegistered,
            _ => false,
        },
        taken_name(registrations, name, target) is None && registered_target(
            registrations,
            target,
        ) is None && rival_target(targets, name, target) is Some ==> (judged(
            registrations,
            targets,
            target,
        ) matches Verdict::Conflicting { conflict, .. } && conflict.kind
            == ConflictKind::DuplicateProposedName),
        taken_name(registrations, name, target) is None && registered_target(
            registrations,
            target,
        ) is Some ==> (judged(registrations, targets, target) matches Verdict::Registered {
            conflict,
            ..
        } && conflict is None),
{
    reveal(judged);
}

/// Two Targets that propose the same name are each other's rivals, if no Registration decides.
pub proof fn rivals_are_mutual(targets: Seq<Seq<u8>>, name: Seq<char>, i: int, j: int)
    requires
        0 <= i < targets.len(),
        0 <= j < targets.len(),
        lifecycle::textual_file_name(targets[i]) == Some(name),
        lifecycle::textual_file_name(targets[j]) == Some(name),
        path::components(targets[i]) != path::components(targets[j]),
    ensures
        rival_target(targets, name, targets[i]) is Some,
        rival_target(targets, name, targets[j]) is Some,
{
    a_rival_is_found(targets, name, targets[i], j);
    a_rival_is_found(targets, name, targets[j], i);
}

proof fn a_rival_is_found(targets: Seq<Seq<u8>>, name: Seq<char>, target: Seq<u8>, k: int)
    requires
        0 <= k < targets.len(),
        lifecycle::textual_file_name(targets[k]) == Some(name),
        path::components(targets[k]) != path::components(target),
    ensures
        rival_target(targets, name, target) is Some,
    decreases targets.len(),
{
    if k < targets.len() - 1 {
        assert(targets.drop_last()[k] == targets[k]);
        a_rival_is_found(targets.drop_last(), name, target, k);
    }
}

} // verus!
