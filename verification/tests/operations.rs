//! Operations on a file system that is kept in memory.

use std::collections::BTreeMap;

use bintui::application::{
    self, AddRequest, ApplicationError, SearchRequest,
};
use bintui::atomic_write::{temporary_path, AtomicWrite, WriteFailure, WriteRequest};
use bintui::cli;
use bintui::config_git::{self, ConfigGitError, GitEvent, GitOutput, GitRequest};
use bintui::configuration::{self, ConfigFile, RootEntry};
use bintui::discovery::{self, Discovery, WalkEvent, WalkPhase};
use bintui::discovery_ignore::{self, IgnoreEvent, IgnoreFile, IgnorePhase};
use bintui::environment::{Environment, VarError, Variable};
use bintui::host::{EntryKind, FileFacts, FileRead, IoError, IoErrorKind, Observation};
use bintui::lifecycle::{Event, Lifecycle, Request};
use bintui::model::{
    ConflictKind, DisplayRoot, LifecycleResult, LifecycleStatus, ListResult, ManagedPathKind,
    MutationBoundary, MutationFaultInjector, NoMutationFaults, PathStatus, RegistrationDefectKind,
    SearchResult, SearchStatus, WarningKind,
};
use bintui::path::PathBuf;
use bintui::registry::{self, RegistrationFile, RegistryFile};
use bintui::search::{SearchEvent, SearchQuery};

const HOME: &str = "/base";

fn path(text: &str) -> PathBuf {
    PathBuf::from_text(text)
}

fn shown(path: &PathBuf) -> String {
    path.display()
}

fn variable(name: &str, value: &str) -> Variable {
    Variable {
        name: name.to_owned(),
        value: value.as_bytes().to_vec(),
    }
}

fn environment() -> Environment {
    Environment::from_values(
        path(HOME),
        path(HOME),
        vec![variable("XDG_CONFIG_HOME", "/base/config")],
    )
}

fn plain_environment(cwd: &str) -> Environment {
    Environment::from_values(path(HOME), path(cwd), Vec::new())
}

fn not_found() -> IoError {
    IoError::new(IoErrorKind::NotFound, "No such file or directory")
}

#[derive(Clone, Debug, PartialEq, Eq)]
enum Node {
    Directory { listable: bool },
    File { contents: String, mode: u32 },
    Link(String),
}

enum Fault {
    Nowhere,
    FailAt(MutationBoundary),
    SwapAtRemoval(String),
}

#[derive(Default)]
struct Repository {
    log: Vec<(String, Vec<String>)>,
    push_fails: bool,
    unchanged: bool,
}

struct Disk {
    nodes: BTreeMap<String, Node>,
    fault: Fault,
    git: Repository,
    writes: u32,
}

fn parent(path: &str) -> String {
    match path.rfind('/') {
        Some(0) | None => "/".to_owned(),
        Some(at) => path[..at].to_owned(),
    }
}

impl Disk {
    fn new() -> Self {
        let mut disk = Disk {
            nodes: BTreeMap::new(),
            fault: Fault::Nowhere,
            git: Repository::default(),
            writes: 0,
        };
        disk.directory("/base");
        disk
    }

    fn directory(&mut self, path: &str) {
        if path != "/" {
            self.directory(&parent(path));
        }
        self.nodes
            .entry(path.to_owned())
            .or_insert(Node::Directory { listable: true });
    }

    fn file(&mut self, path: &str, contents: &str, mode: u32) {
        self.directory(&parent(path));
        self.nodes.insert(
            path.to_owned(),
            Node::File {
                contents: contents.to_owned(),
                mode,
            },
        );
    }

    fn write(&mut self, path: &str, contents: &str) {
        self.file(path, contents, 0o644);
    }

    fn executable(&mut self, path: &str) {
        self.file(path, "#!/bin/sh\n", 0o755);
    }

    fn symlink(&mut self, target: &str, link: &str) {
        self.directory(&parent(link));
        self.nodes
            .insert(link.to_owned(), Node::Link(target.to_owned()));
    }

    fn remove(&mut self, path: &str) {
        assert!(self.nodes.remove(path).is_some(), "{path} exists");
    }

    fn has(&self, path: &str) -> bool {
        self.nodes.contains_key(path)
    }

    fn link(&self, path: &str) -> Option<String> {
        match self.nodes.get(path) {
            Some(Node::Link(target)) => Some(target.clone()),
            _ => None,
        }
    }

    fn read(&self, path: &str) -> Option<String> {
        match self.nodes.get(&self.resolve(path)?) {
            Some(Node::File { contents, .. }) => Some(contents.clone()),
            _ => None,
        }
    }

    /// Where a path leads, with every link followed.
    fn resolve(&self, path: &str) -> Option<String> {
        self.follow(path, 0)
    }

    fn follow(&self, path: &str, depth: usize) -> Option<String> {
        if depth > 20 {
            return None;
        }
        let mut at = String::new();
        for name in path.split('/').filter(|name| !name.is_empty()) {
            if name == "." {
                continue;
            }
            if name == ".." {
                at = match at.rfind('/') {
                    Some(end) => at[..end].to_owned(),
                    None => String::new(),
                };
                continue;
            }
            let here = format!("{at}/{name}");
            at = match self.nodes.get(&here)? {
                Node::Link(target) if target.starts_with('/') => self.follow(target, depth + 1)?,
                Node::Link(target) => self.follow(&format!("{at}/{target}"), depth + 1)?,
                _ => here,
            };
        }
        Some(if at.is_empty() { "/".to_owned() } else { at })
    }

    /// Where the entry itself lies, with the links above it followed.
    fn place(&self, path: &PathBuf) -> Option<String> {
        let text = shown(path);
        let name = text.rsplit('/').next().unwrap().to_owned();
        let above = self.resolve(&parent(&text))?;
        Some(if above == "/" {
            format!("/{name}")
        } else {
            format!("{above}/{name}")
        })
    }

    fn facts(&self, path: &PathBuf) -> Result<FileFacts, IoError> {
        let resolved = self.resolve(&shown(path)).ok_or_else(not_found)?;
        match self.nodes.get(&resolved).ok_or_else(not_found)? {
            Node::Directory { .. } => Ok(FileFacts {
                is_file: false,
                is_dir: true,
                mode: 0o755,
            }),
            Node::File { mode, .. } => Ok(FileFacts {
                is_file: true,
                is_dir: false,
                mode: *mode,
            }),
            Node::Link(_) => Err(not_found()),
        }
    }

    fn observe(&self, path: &PathBuf) -> Observation {
        let node = self.place(path).and_then(|place| self.nodes.get(&place));
        Observation {
            entry: match node {
                None => Err(not_found()),
                Some(Node::Directory { .. }) => Ok(EntryKind::Directory),
                Some(Node::File { .. }) => Ok(EntryKind::File),
                Some(Node::Link(_)) => Ok(EntryKind::SymbolicLink),
            },
            link: match node {
                Some(Node::Link(target)) => Some(PathBuf::from_text(target)),
                _ => None,
            },
            followed: self.facts(path),
        }
    }

    fn observe_all(&self, paths: &[PathBuf]) -> Vec<Observation> {
        paths.iter().map(|path| self.observe(path)).collect()
    }

    fn check(&mut self, boundary: Option<MutationBoundary>) -> Result<(), IoError> {
        let Some(boundary) = boundary else {
            return Ok(());
        };
        NoMutationFaults.check(boundary).unwrap();
        match &self.fault {
            Fault::FailAt(failing) if *failing == boundary => Err(IoError::new(
                IoErrorKind::Other,
                &format!("injected {boundary:?} failure"),
            )),
            Fault::SwapAtRemoval(path) if boundary == MutationBoundary::ManagedLinkRemoval => {
                let path = path.clone();
                self.remove(&path);
                self.write(&path, "externally replaced");
                Ok(())
            }
            _ => Ok(()),
        }
    }

    fn parse<T>(
        &self,
        path: &PathBuf,
        read: impl Fn(&toml::Table) -> Result<T, String>,
    ) -> FileRead<T> {
        match self.read(&shown(path)) {
            None => FileRead::Missing,
            Some(contents) => match contents.parse::<toml::Table>() {
                Err(error) => FileRead::Malformed(error.to_string()),
                Ok(table) => match read(&table) {
                    Ok(value) => FileRead::Parsed(value),
                    Err(message) => FileRead::Malformed(message),
                },
            },
        }
    }

    fn configuration(&self, path: &PathBuf) -> FileRead<ConfigFile> {
        self.parse(path, |table| {
            Ok(ConfigFile {
                version: number(table, "version").unwrap_or_else(|_| configuration::current_version()),
                bin_dir: table
                    .get("bin_dir")
                    .and_then(|value| value.as_str())
                    .map(str::to_owned),
                ignore: texts(table, "ignore"),
                roots: match table.get("roots").and_then(|value| value.as_table()) {
                    Some(roots) => roots
                        .iter()
                        .map(|(name, value)| RootEntry {
                            name: name.clone(),
                            value: value.as_str().unwrap().to_owned(),
                        })
                        .collect(),
                    None => Vec::new(),
                },
            })
        })
    }

    fn registry(&self, path: &PathBuf) -> FileRead<RegistryFile> {
        self.parse(path, |table| {
            Ok(RegistryFile {
                version: number(table, "version")?,
                registrations: match table.get("command").and_then(|value| value.as_array()) {
                    Some(entries) => entries
                        .iter()
                        .map(|entry| RegistrationFile {
                            name: entry["name"].as_str().unwrap().to_owned(),
                            target: entry["target"].as_str().unwrap().to_owned(),
                            enabled: entry["enabled"].as_bool().unwrap(),
                        })
                        .collect(),
                    None => Vec::new(),
                },
            })
        })
    }

    fn ignored(&self, path: &PathBuf) -> FileRead<IgnoreFile> {
        self.parse(path, |table| {
            Ok(IgnoreFile {
                version: number(table, "version")?,
                paths: texts(table, "paths"),
            })
        })
    }

    /// Replaces a file in the steps of an atomic write; only a Registry write passes boundaries.
    fn replace(
        &mut self,
        target: &PathBuf,
        label: &str,
        contents: &str,
        guarded: bool,
    ) -> (Result<(), WriteFailure>, PathBuf) {
        self.writes += 1;
        let directory = path(&parent(&shown(target)));
        let temporary = temporary_path(&directory, label, 7, u128::from(self.writes));
        let place = self.place(target).unwrap();
        let temporary_place = self.place(&temporary).unwrap();
        let mut write = AtomicWrite::start();
        loop {
            let request = write.request();
            let passed = if guarded {
                self.check(request.boundary())
            } else {
                Ok(())
            };
            let outcome = passed.and_then(|()| match request {
                WriteRequest::WriteTemporary => {
                    self.write(&temporary_place, contents);
                    Ok(())
                }
                WriteRequest::SyncTemporary | WriteRequest::SyncDirectory => Ok(()),
                WriteRequest::Rename => {
                    let node = self.nodes.remove(&temporary_place).unwrap();
                    self.nodes.insert(place.clone(), node);
                    Ok(())
                }
                WriteRequest::RemoveTemporary => {
                    self.nodes.remove(&temporary_place);
                    Ok(())
                }
                WriteRequest::Finish => Ok(()),
            });
            if request == WriteRequest::Finish {
                return (write.outcome().unwrap(), temporary);
            }
            write = write.advance(outcome);
        }
    }

    fn synchronize(
        &mut self,
        changed: PathBuf,
        environment: &Environment,
    ) -> Result<(), ConfigGitError> {
        let mut sync = config_git::commit_and_push(changed, environment);
        loop {
            let event = match sync.request() {
                GitRequest::Resolve(path) => GitEvent::Resolved(
                    self.resolve(&shown(&path)).map(|path| PathBuf::from_text(&path)),
                ),
                GitRequest::Exists(path) => GitEvent::Exists(self.has(&shown(&path))),
                GitRequest::Run {
                    directory,
                    arguments,
                } => {
                    let command = arguments[0].clone();
                    self.git.log.push((shown(&directory), arguments));
                    let failed = command == "push" && self.git.push_fails;
                    let changed = command == "diff" && !self.git.unchanged;
                    GitEvent::Output(Ok(GitOutput {
                        code: Some(if failed {
                            128
                        } else if changed {
                            1
                        } else {
                            0
                        }),
                        status: "exit status".to_owned(),
                        stdout: Vec::new(),
                        stderr: if failed {
                            b"no upstream\n".to_vec()
                        } else {
                            Vec::new()
                        },
                    }))
                }
                GitRequest::Finish => return sync.outcome().unwrap(),
            };
            sync = sync.advance(event);
        }
    }

    fn answer(&mut self, request: Request, environment: &Environment) -> Event {
        let passed = self.check(request.boundary());
        match request {
            Request::ReadConfiguration(path) => Event::Configuration(self.configuration(&path)),
            Request::ReadRegistry(path) => Event::Registry(self.registry(&path)),
            Request::CreateDirectory(path) => {
                self.directory(&shown(&path));
                Event::Done(passed)
            }
            Request::Lock(_) => Event::Done(passed),
            Request::Observe(paths) => Event::Observed(self.observe_all(&paths)),
            Request::CreateLink { target, link, .. } => Event::Done(passed.and_then(|()| {
                let place = self.place(&link).ok_or_else(not_found)?;
                if self.has(&place) {
                    return Err(IoError::new(IoErrorKind::AlreadyExists, "File exists"));
                }
                self.nodes.insert(place, Node::Link(shown(&target)));
                Ok(())
            })),
            Request::ReadLink { link, .. } => {
                Event::LinkRead(passed.map(|()| self.observe(&link).link))
            }
            Request::RemoveLink(link) => {
                self.remove(&shown(&link));
                Event::Done(Ok(()))
            }
            Request::Write(file) => {
                let target = registry::registry_path(environment);
                let contents = registry_text(&file);
                let (outcome, temporary) = self.replace(&target, "registry", &contents, true);
                Event::Written(outcome, temporary)
            }
            Request::Synchronize(path) => {
                Event::Synchronized(self.synchronize(path, environment))
            }
            Request::Finish => unreachable!(),
        }
    }

    fn run(
        &mut self,
        operation: Lifecycle,
        environment: &Environment,
    ) -> Result<LifecycleResult, ApplicationError> {
        let mut operation = operation;
        loop {
            let request = operation.request(environment);
            if request == Request::Finish {
                return operation.outcome().unwrap();
            }
            let event = self.answer(request, environment);
            operation = operation.advance(event, environment);
        }
    }

    fn add(
        &mut self,
        target: &str,
        name: Option<&str>,
        disabled: bool,
    ) -> Result<LifecycleResult, ApplicationError> {
        self.run(
            application::add(request(target, name, disabled)),
            &environment(),
        )
    }

    fn validate_add(
        &mut self,
        target: &str,
        name: Option<&str>,
    ) -> Result<LifecycleResult, ApplicationError> {
        self.run(
            application::validate_add(request(target, name, false)),
            &environment(),
        )
    }

    fn enable(&mut self, name: &str) -> Result<LifecycleResult, ApplicationError> {
        self.run(application::enable(name), &environment())
    }

    fn disable(&mut self, name: &str) -> Result<LifecycleResult, ApplicationError> {
        self.run(application::disable(name), &environment())
    }

    fn unregister(&mut self, name: &str) -> Result<LifecycleResult, ApplicationError> {
        self.run(application::remove(name), &environment())
    }

    fn rename(&mut self, name: &str, new_name: &str) -> Result<LifecycleResult, ApplicationError> {
        self.run(application::rename(name, new_name), &environment())
    }

    fn list(&mut self) -> Result<ListResult, ApplicationError> {
        let environment = environment();
        let mut phase = application::list();
        loop {
            let request = phase.request(&environment);
            if request == Request::Finish {
                return phase.outcome().unwrap();
            }
            let event = self.answer(request, &environment);
            phase = phase.advance(event, &environment);
        }
    }

    fn discover(
        &self,
        root: PathBuf,
        bin_dir: PathBuf,
        ignored_patterns: Vec<String>,
        ignored_paths: Vec<PathBuf>,
    ) -> Result<Discovery, IoError> {
        let mut walk = discovery::discover(root, bin_dir, ignored_patterns, ignored_paths);
        loop {
            let event = match walk.phase() {
                WalkPhase::CheckingRoot => WalkEvent::Root(self.facts(walk.root())),
                WalkPhase::Listing(directory) => WalkEvent::Listed(self.entries(directory)),
                WalkPhase::Inspecting(child) => WalkEvent::Inspected(self.observe(child)),
                WalkPhase::Matching(_) => WalkEvent::Matched(false),
                WalkPhase::Finished(_) => return walk.outcome().unwrap(),
            };
            walk = walk.advance(event);
        }
    }

    fn entries(&self, directory: &PathBuf) -> Result<Vec<Result<PathBuf, IoError>>, IoError> {
        let text = self.resolve(&shown(directory)).ok_or_else(not_found)?;
        match self.nodes.get(&text) {
            Some(Node::Directory { listable: true }) => {}
            _ => return Err(IoError::new(IoErrorKind::Other, "Permission denied")),
        }
        let above = if text == "/" { "/".to_owned() } else { format!("{text}/") };
        Ok(self
            .nodes
            .keys()
            .rev()
            .filter(|child| *child != "/" && child.starts_with(&above))
            .filter(|child| !child[above.len()..].contains('/'))
            .map(|child| Ok(directory.join_text(&child[above.len()..])))
            .collect())
    }

    fn search_in(
        &mut self,
        root: Option<&str>,
        environment: &Environment,
    ) -> Result<SearchResult, ApplicationError> {
        let mut phase = application::search(SearchRequest {
            search_root: root.map(path),
        });
        loop {
            let event = match phase.query(environment) {
                SearchQuery::ReadConfiguration(path) => {
                    SearchEvent::Configuration(self.configuration(&path))
                }
                SearchQuery::ReadRegistry(path) => SearchEvent::Registry(self.registry(&path)),
                SearchQuery::ReadIgnored(path) => SearchEvent::Ignored(self.ignored(&path)),
                SearchQuery::Discover {
                    root,
                    bin_dir,
                    ignored_patterns,
                    ignored_paths,
                } => SearchEvent::Discovered(self.discover(
                    root,
                    bin_dir,
                    ignored_patterns,
                    ignored_paths,
                )),
                SearchQuery::Observe(paths) => SearchEvent::Observed(self.observe_all(&paths)),
                SearchQuery::Finish => return phase.outcome().unwrap(),
            };
            phase = phase.advance(event, environment);
        }
    }

    fn ignore(
        &mut self,
        target: &PathBuf,
        environment: &Environment,
    ) -> Result<String, ApplicationError> {
        let absolute = application::absolute_target(target, environment);
        let mut phase = application::ignore_target(target, environment);
        loop {
            let event = match &phase {
                IgnorePhase::CreatingDirectory => {
                    self.directory(&shown(&registry::registry_directory(environment)));
                    IgnoreEvent::Done(Ok(()))
                }
                IgnorePhase::Locking => IgnoreEvent::Done(Ok(())),
                IgnorePhase::Reading => {
                    IgnoreEvent::Read(self.ignored(&discovery_ignore::path(environment)))
                }
                IgnorePhase::Writing(file) => {
                    let contents = ignore_text(file);
                    let (outcome, temporary) = self.replace(
                        &discovery_ignore::path(environment),
                        "ignore",
                        &contents,
                        false,
                    );
                    IgnoreEvent::Written(outcome, temporary)
                }
                IgnorePhase::Synchronizing => IgnoreEvent::Synchronized(
                    self.synchronize(discovery_ignore::path(environment), environment),
                ),
                IgnorePhase::Finished(_) => {
                    let IgnorePhase::Finished(outcome) = phase else {
                        unreachable!()
                    };
                    return application::ignore_outcome(outcome);
                }
            };
            phase = discovery_ignore::advance(phase, event, &absolute, environment);
        }
    }
}

fn number(table: &toml::Table, key: &str) -> Result<u32, String> {
    match table.get(key).and_then(|value| value.as_integer()) {
        Some(value) => Ok(value as u32),
        None => Err(format!("missing field `{key}`")),
    }
}

fn texts(table: &toml::Table, key: &str) -> Vec<String> {
    match table.get(key).and_then(|value| value.as_array()) {
        Some(values) => values
            .iter()
            .map(|value| value.as_str().unwrap().to_owned())
            .collect(),
        None => Vec::new(),
    }
}

fn registry_text(file: &RegistryFile) -> String {
    let mut contents = format!("version = {}\n", file.version);
    for entry in &file.registrations {
        contents.push_str(&format!(
            "\n[[command]]\nname = {:?}\ntarget = {:?}\nenabled = {}\n",
            entry.name, entry.target, entry.enabled
        ));
    }
    contents
}

fn ignore_text(file: &IgnoreFile) -> String {
    format!("version = {}\npaths = {:?}\n", file.version, file.paths)
}

fn request(target: &str, name: Option<&str>, disabled: bool) -> AddRequest {
    AddRequest {
        target: path(target),
        name: name.map(str::to_owned),
        disabled,
    }
}

const REGISTRY: &str = "/base/config/bintui/registry.toml";

fn write_registration(disk: &mut Disk, name: &str, target: &str, enabled: bool) {
    disk.write(
        REGISTRY,
        &format!(
            "version = 1\n\n[[command]]\nname = {name:?}\ntarget = {target:?}\nenabled = {enabled}\n"
        ),
    );
}

#[test]
fn add_validation_reports_conflicts_without_mutating_registry_or_link() {
    let mut disk = Disk::new();
    let target = "/base/project/tool";
    disk.executable(target);

    let valid = disk.validate_add(target, Some("work")).unwrap();
    assert_eq!(valid.identifier, "add-valid");
    assert!(!disk.has(REGISTRY));
    assert!(!disk.has("/base/.local/bin/work"));

    disk.add(target, Some("work"), true).unwrap();
    let blocked = disk.validate_add(target, Some("work")).unwrap();
    assert_eq!(blocked.status, LifecycleStatus::Blocked);
    assert_eq!(blocked.identifier, "command-name-registered");
}

#[test]
fn disabled_add_with_a_name_override_is_visible_through_list() {
    let mut disk = Disk::new();
    disk.executable("/base/project/tool");

    let added = disk
        .add("/base/project/./tool", Some("work"), true)
        .unwrap();

    let state = added.registration.unwrap();
    assert!(state.defect.is_none());
    assert!(!disk.has(&shown(&state.managed_link)));
    let listed = disk.list().unwrap();
    assert_eq!(listed.identifier, "registrations-listed");
    assert_eq!(listed.registrations, vec![state]);
}

#[test]
fn registry_stores_home_targets_with_a_tilde_and_loads_them_as_absolute_paths() {
    let mut disk = Disk::new();
    let target = "/base/project/tool";
    disk.executable(target);

    disk.add(target, Some("work"), true).unwrap();

    let contents = disk.read(REGISTRY).unwrap();
    assert!(contents.contains("target = \"~/project/tool\""));
    assert!(!contents.contains(HOME));
    assert_eq!(
        disk.list().unwrap().registrations[0].registration.target,
        path(target)
    );
}

#[test]
fn enable_disable_and_remove_reconcile_only_the_owned_managed_link() {
    let mut disk = Disk::new();
    let target = "/base/project/tool";
    disk.executable(target);
    let added = disk.add(target, None, true).unwrap();
    let managed_link = shown(&added.registration.unwrap().managed_link);

    let enabled = disk.enable("tool").unwrap();
    assert_eq!(enabled.identifier, "registration-enabled");
    assert_eq!(disk.link(&managed_link).as_deref(), Some(target));
    assert!(
        disk.enable("tool")
            .unwrap()
            .registration
            .unwrap()
            .registration
            .enabled
    );

    let disabled = disk.disable("tool").unwrap();
    assert_eq!(disabled.identifier, "registration-disabled");
    assert!(disabled.registration.unwrap().defect.is_none());
    assert!(!disk.has(&managed_link));
    assert!(
        !disk
            .disable("tool")
            .unwrap()
            .registration
            .unwrap()
            .registration
            .enabled
    );

    let removed = disk.unregister("tool").unwrap();
    assert_eq!(removed.identifier, "registration-removed");
    assert!(removed.registration.is_none());
    assert!(disk.list().unwrap().registrations.is_empty());
}

#[test]
fn add_rejects_invalid_names_and_ineligible_targets_without_persisting_them() {
    let mut disk = Disk::new();
    disk.executable("/base/project/tool");
    disk.directory("/base/project/directory");
    disk.write("/base/project/plain", "plain");

    for (target, name, expected) in [
        (
            "/base/project/tool",
            Some("../escape"),
            "invalid Command Name",
        ),
        ("/base/missing", None, "does not exist"),
        ("/base/project/directory", None, "not a file"),
        ("/base/project/plain", None, "not executable"),
    ] {
        let error = disk.add(target, name, false).unwrap_err();
        assert!(
            error.message().contains(expected),
            "unexpected error: {}",
            error.message()
        );
    }
    assert!(disk.list().unwrap().registrations.is_empty());
}

#[test]
fn add_rejects_a_non_utf8_target_before_link_or_registry_mutation() {
    let mut disk = Disk::new();
    let target = path("/base/project").join(&PathBuf::from_bytes(b"tool-\xff".to_vec()));

    let error = disk
        .run(
            application::add(AddRequest {
                target,
                name: Some("tool".to_owned()),
                disabled: false,
            }),
            &environment(),
        )
        .unwrap_err();

    assert!(error.message().contains("valid UTF-8"));
    assert!(!disk.has("/base/.local/bin/tool"));
    assert!(!disk.has(REGISTRY));
}

#[test]
fn duplicate_names_and_unmanaged_paths_are_blocked_without_replacement() {
    let mut disk = Disk::new();
    let first = "/base/project/first";
    let second = "/base/project/second";
    disk.executable(first);
    disk.executable(second);
    disk.add(first, Some("one"), true).unwrap();

    let duplicate_name = disk.add(second, Some("one"), true).unwrap();
    assert_eq!(duplicate_name.status, LifecycleStatus::Blocked);
    assert_eq!(duplicate_name.identifier, "command-name-registered");
    let occupied = "/base/.local/bin/blocked";
    disk.executable(occupied);
    let contents = disk.read(occupied);
    let blocked = disk.add(second, Some("blocked"), false).unwrap();
    assert_eq!(blocked.identifier, "managed-path-occupied");
    assert_eq!(disk.read(occupied), contents);

    let occupied_directory = "/base/.local/bin/directory";
    disk.directory(occupied_directory);
    let blocked = disk.add(second, Some("directory"), false).unwrap();
    assert_eq!(blocked.identifier, "managed-path-occupied");
    assert!(disk.has(occupied_directory));

    let occupied_link = "/base/.local/bin/link";
    disk.symlink(first, occupied_link);
    let blocked = disk.add(second, Some("link"), false).unwrap();
    assert_eq!(blocked.identifier, "managed-path-occupied");
    assert_eq!(disk.link(occupied_link).as_deref(), Some(first));
}

#[test]
fn lifecycle_mutations_block_unmanaged_entries_and_changed_registered_links() {
    let mut disk = Disk::new();
    let other = "/base/project/other";
    disk.executable("/base/project/tool");
    disk.executable(other);
    let added = disk.add("/base/project/tool", None, false).unwrap();
    let managed = shown(&added.registration.unwrap().managed_link);
    disk.remove(&managed);
    disk.symlink(other, &managed);

    for result in [
        disk.disable("tool").unwrap(),
        disk.unregister("tool").unwrap(),
    ] {
        assert_eq!(result.status, LifecycleStatus::Blocked);
        assert_eq!(result.identifier, "managed-path-conflict");
        assert_eq!(disk.link(&managed).as_deref(), Some(other));
    }
    assert_eq!(disk.list().unwrap().registrations.len(), 1);
}

#[test]
fn disable_removes_a_broken_link_to_an_unexpected_target_and_allows_unregister() {
    let mut disk = Disk::new();
    disk.executable("/base/project/tool");
    let managed = shown(
        &disk
            .add("/base/project/tool", None, false)
            .unwrap()
            .registration
            .unwrap()
            .managed_link,
    );
    disk.remove(&managed);
    disk.symlink("/base/missing/other", &managed);

    let disabled = disk.disable("tool").unwrap();
    assert_eq!(disabled.identifier, "registration-disabled");
    assert!(!disabled.registration.unwrap().registration.enabled);
    assert!(!disk.has(&managed));
    assert!(!disk.list().unwrap().registrations[0].registration.enabled);

    assert_eq!(
        disk.unregister("tool").unwrap().identifier,
        "registration-removed"
    );
    assert!(disk.list().unwrap().registrations.is_empty());
}

#[test]
fn missing_target_can_be_enabled_disabled_and_unregistered() {
    let mut disk = Disk::new();
    let target = "/base/project/tool";
    disk.executable(target);
    let managed = shown(
        &disk
            .add(target, None, false)
            .unwrap()
            .registration
            .unwrap()
            .managed_link,
    );
    disk.remove(target);

    assert_eq!(
        disk.disable("tool").unwrap().identifier,
        "registration-disabled"
    );
    assert!(!disk.has(&managed));
    let enabled = disk.enable("tool").unwrap().registration.unwrap();
    assert!(enabled.registration.enabled);
    assert_eq!(
        enabled.defect.unwrap().kind,
        RegistrationDefectKind::TargetMissing
    );
    assert_eq!(disk.link(&managed).as_deref(), Some(target));
    assert_eq!(
        disk.disable("tool").unwrap().identifier,
        "registration-disabled"
    );
    assert!(!disk.has(&managed));
    assert_eq!(
        disk.unregister("tool").unwrap().identifier,
        "registration-removed"
    );
}

#[test]
fn broken_link_disable_preserves_replacements_and_restores_original_link_on_failure() {
    for boundary in [
        MutationBoundary::ManagedLinkRemoval,
        MutationBoundary::TemporaryRegistryWrite,
    ] {
        let mut disk = Disk::new();
        disk.executable("/base/project/tool");
        let managed = shown(
            &disk
                .add("/base/project/tool", None, false)
                .unwrap()
                .registration
                .unwrap()
                .managed_link,
        );
        let unexpected = "../../missing/other";
        disk.remove(&managed);
        disk.symlink(unexpected, &managed);

        if boundary == MutationBoundary::ManagedLinkRemoval {
            disk.fault = Fault::SwapAtRemoval(managed.clone());
            disk.disable("tool").unwrap_err();
            assert_eq!(disk.read(&managed).as_deref(), Some("externally replaced"));
        } else {
            disk.fault = Fault::FailAt(boundary);
            disk.disable("tool").unwrap_err();
            assert_eq!(disk.link(&managed).as_deref(), Some(unexpected));
        }
        disk.fault = Fault::Nowhere;
        assert!(disk.list().unwrap().registrations[0].registration.enabled);
    }
}

#[test]
fn disable_revalidates_ownership_at_the_removal_boundary() {
    let mut disk = Disk::new();
    disk.executable("/base/project/tool");
    let managed = shown(
        &disk
            .add("/base/project/tool", None, false)
            .unwrap()
            .registration
            .unwrap()
            .managed_link,
    );

    disk.fault = Fault::SwapAtRemoval(managed.clone());
    let error = disk.disable("tool").unwrap_err();

    assert_eq!(error.identifier(), "disable-failed");
    assert_eq!(disk.read(&managed).as_deref(), Some("externally replaced"));
    disk.fault = Fault::Nowhere;
    assert!(disk.list().unwrap().registrations[0].registration.enabled);
}

#[test]
fn remove_revalidates_ownership_at_the_removal_boundary() {
    let mut disk = Disk::new();
    disk.executable("/base/project/tool");
    let managed = shown(
        &disk
            .add("/base/project/tool", None, false)
            .unwrap()
            .registration
            .unwrap()
            .managed_link,
    );

    disk.fault = Fault::SwapAtRemoval(managed.clone());
    let error = disk.unregister("tool").unwrap_err();

    assert_eq!(error.identifier(), "remove-failed");
    assert_eq!(disk.read(&managed).as_deref(), Some("externally replaced"));
    disk.fault = Fault::Nowhere;
    assert_eq!(disk.list().unwrap().registrations.len(), 1);
}

#[test]
fn unknown_names_are_actionable_errors() {
    let mut disk = Disk::new();
    for error in [
        disk.enable("missing").unwrap_err(),
        disk.disable("missing").unwrap_err(),
        disk.unregister("missing").unwrap_err(),
    ] {
        assert!(error.message().contains("unknown Command Name"));
    }
}

#[test]
fn mutation_boundary_failures_leave_returned_errors_consistent_with_actual_state() {
    for boundary in [
        MutationBoundary::ManagedLinkCreation,
        MutationBoundary::LockAcquisition,
        MutationBoundary::TemporaryRegistryWrite,
        MutationBoundary::RegistrySync,
        MutationBoundary::AtomicRegistryReplacement,
    ] {
        let mut disk = Disk::new();
        disk.executable("/base/project/tool");
        disk.fault = Fault::FailAt(boundary);
        let error = disk.add("/base/project/tool", None, false).unwrap_err();

        assert!(error.message().contains("injected"));
        assert_eq!(error.identifier(), "add-failed");
        assert!(error.resulting_registration().is_none());
        disk.fault = Fault::Nowhere;
        assert!(disk.list().unwrap().registrations.is_empty());
        assert!(!disk.has("/base/.local/bin/tool"));
        assert!(!disk
            .nodes
            .keys()
            .any(|path| path.starts_with("/base/config/bintui/") && path.contains("tmp")));
    }

    let mut disk = Disk::new();
    disk.executable("/base/project/tool");
    let added = disk.add("/base/project/tool", None, false).unwrap();
    let managed_link = shown(&added.registration.unwrap().managed_link);
    disk.fault = Fault::FailAt(MutationBoundary::ManagedLinkRemoval);
    let error = disk.disable("tool").unwrap_err();
    assert!(error.message().contains("injected"));
    assert_eq!(error.identifier(), "disable-failed");
    let returned = error.resulting_registration().unwrap();
    assert!(returned.registration.enabled);
    assert!(returned.defect.is_none());
    disk.fault = Fault::Nowhere;
    let result = disk.list().unwrap();
    let resulting = &result.registrations[0];
    assert_eq!(resulting, returned);
    assert!(disk.has(&managed_link));
}

#[test]
fn directory_sync_failure_reports_the_committed_registration_and_link_state() {
    let mut disk = Disk::new();
    let target = "/base/project/tool";
    disk.executable(target);

    disk.fault = Fault::FailAt(MutationBoundary::RegistryDirectorySync);
    let error = disk.add(target, None, false).unwrap_err();

    assert_eq!(error.identifier(), "add-failed");
    let state = error.resulting_registration().unwrap();
    assert_eq!(state.registration.target, path(target));
    assert!(state.defect.is_none());
    disk.fault = Fault::Nowhere;
    let listed = disk.list().unwrap();
    assert_eq!(listed.registrations.as_slice(), std::slice::from_ref(state));
    assert_eq!(
        disk.link(&shown(&state.managed_link)).as_deref(),
        Some(target)
    );
}

#[test]
fn invalid_registry_content_blocks_mutation_without_rewrite() {
    let mut disk = Disk::new();
    disk.executable("/base/project/tool");
    for contents in ["version = 99\n", "version = broken\n"] {
        disk.write(REGISTRY, contents);
        assert!(disk.add("/base/project/tool", None, true).is_err());
        assert_eq!(disk.read(REGISTRY).as_deref(), Some(contents));
    }
}

#[test]
fn add_uses_the_target_filename_and_publishes_an_owned_managed_link() {
    let mut disk = Disk::new();
    let target = "/base/project/tool";
    disk.executable(target);

    let result = disk.add(target, None, false).unwrap();

    assert_eq!(result.status, LifecycleStatus::Healthy);
    assert_eq!(result.identifier, "registration-added");
    let state = result.registration.unwrap();
    assert_eq!(state.registration.name, "tool");
    assert_eq!(state.registration.target, path(target));
    assert!(state.registration.enabled);
    assert!(state.defect.is_none());
    assert_eq!(
        disk.link(&shown(&state.managed_link)).as_deref(),
        Some(target)
    );
    assert!(disk.read(REGISTRY).unwrap().contains("name = \"tool\""));
}

#[test]
fn list_reports_no_defects_in_stable_command_name_order() {
    let mut disk = Disk::new();
    disk.executable("/base/project/alpha");
    disk.executable("/base/project/zeta");
    disk.add("/base/project/zeta", Some("zeta"), true).unwrap();
    disk.add("/base/project/alpha", Some("alpha"), true)
        .unwrap();

    let result = disk.list().unwrap();

    assert_eq!(result.identifier, "registrations-listed");
    assert_eq!(result.registrations.len(), 2);
    assert_eq!(result.registrations[0].registration.name, "alpha");
    assert_eq!(result.registrations[1].registration.name, "zeta");
    assert!(result.registrations[0].defect.is_none());
    assert_eq!(
        result.registrations[0].observed_link_target,
        None::<PathBuf>
    );
}

#[test]
fn list_restores_a_missing_managed_link_before_reporting_registration_state() {
    let mut disk = Disk::new();
    let target = "/base/project/tool";
    disk.executable(target);
    write_registration(&mut disk, "tool", target, true);
    let registry_before = disk.read(REGISTRY);

    let result = disk.list().unwrap();

    assert_eq!(disk.link("/base/.local/bin/tool").as_deref(), Some(target));
    assert_eq!(disk.read(REGISTRY), registry_before);
    assert_eq!(result.status, LifecycleStatus::Healthy);
    assert!(result.registrations[0].defect.is_none());
    assert_eq!(result.registrations[0].actual, ManagedPathKind::OwnedLink);
}

#[test]
fn a_listing_has_one_state_for_each_registration_and_no_missing_link() {
    let mut disk = Disk::new();
    let mut contents = "version = 1\n".to_owned();
    for (name, enabled) in [("alpha", true), ("beta", true), ("delta", false), ("gamma", true)] {
        let target = format!("/base/project/{name}");
        disk.executable(&target);
        contents.push_str(&format!(
            "\n[[command]]\nname = {name:?}\ntarget = {target:?}\nenabled = {enabled}\n"
        ));
    }
    disk.write(REGISTRY, &contents);
    disk.directory("/base/.local/bin");
    disk.symlink("/base/project/beta", "/base/.local/bin/beta");

    let result = disk.list().unwrap();

    let listed: Vec<(&str, ManagedPathKind)> = result
        .registrations
        .iter()
        .map(|state| (state.registration.name.as_str(), state.actual))
        .collect();
    assert_eq!(
        listed,
        [
            ("alpha", ManagedPathKind::OwnedLink),
            ("beta", ManagedPathKind::OwnedLink),
            ("delta", ManagedPathKind::Missing),
            ("gamma", ManagedPathKind::OwnedLink),
        ]
    );
    assert!(result.registrations.iter().all(|state| state.defect.is_none()));
    assert_eq!(result.status, LifecycleStatus::Healthy);
}

#[test]
fn a_target_that_is_a_restored_link_is_linked_by_the_next_listing() {
    let mut disk = Disk::new();
    disk.executable("/base/project/tool");
    disk.write(
        REGISTRY,
        "version = 1\n\n[[command]]\nname = \"again\"\ntarget = \"/base/.local/bin/tool\"\n\
         enabled = true\n\n[[command]]\nname = \"tool\"\ntarget = \"/base/project/tool\"\n\
         enabled = true\n",
    );

    let first = disk.list().unwrap();
    assert_eq!(first.registrations.len(), 2);
    assert_eq!(
        first.registrations[0].defect.as_ref().map(|defect| &defect.kind),
        Some(&RegistrationDefectKind::LinkMissing)
    );
    assert!(first.registrations[1].defect.is_none());

    let second = disk.list().unwrap();
    assert!(second.registrations.iter().all(|state| state.defect.is_none()));
}

#[test]
fn list_does_not_change_a_malformed_registry() {
    let mut disk = Disk::new();
    disk.write(REGISTRY, "version = broken\n");

    assert!(disk.list().is_err());
    assert_eq!(disk.read(REGISTRY).as_deref(), Some("version = broken\n"));
}

#[test]
fn invalid_target_defect_precedes_absent_broken_incorrect_and_conflicting_paths() {
    for target_defect in [
        RegistrationDefectKind::TargetMissing,
        RegistrationDefectKind::TargetNotExecutable,
    ] {
        for managed_kind in [
            ManagedPathKind::Missing,
            ManagedPathKind::SymbolicLink, // broken
            ManagedPathKind::OwnedLink,    // setup below points to another existing Target
            ManagedPathKind::File,
        ] {
            let mut disk = Disk::new();
            let target = "/base/project/tool";
            if target_defect == RegistrationDefectKind::TargetNotExecutable {
                disk.file(target, "#!/bin/sh\n", 0o644);
            }
            let other = "/base/project/other";
            disk.executable(other);
            write_registration(&mut disk, "tool", target, true);
            let managed = "/base/.local/bin/tool";
            disk.directory("/base/.local/bin");
            match managed_kind {
                ManagedPathKind::Missing => {}
                ManagedPathKind::SymbolicLink => disk.symlink("/base/missing-other", managed),
                ManagedPathKind::OwnedLink => disk.symlink(other, managed),
                ManagedPathKind::File => disk.write(managed, "conflict"),
                _ => unreachable!(),
            }

            let state = disk.list().unwrap();
            assert_eq!(
                state.registrations[0]
                    .defect
                    .as_ref()
                    .map(|defect| &defect.kind),
                Some(&target_defect)
            );
        }
    }
}

#[test]
fn a_link_appearing_for_a_disabled_registration_is_an_unmanaged_conflict() {
    let mut disk = Disk::new();
    let other = "/base/project/other";
    disk.executable("/base/project/tool");
    disk.executable(other);
    disk.add("/base/project/tool", Some("tool"), true).unwrap();
    let managed = "/base/.local/bin/tool";
    disk.symlink(other, managed);

    let state = disk.list().unwrap();
    assert_eq!(
        state.registrations[0]
            .defect
            .as_ref()
            .map(|defect| &defect.kind),
        Some(&RegistrationDefectKind::Conflict)
    );
    assert_eq!(disk.link(managed).as_deref(), Some(other));
}

enum LinkSetup {
    Missing,
    Expected,
    WrongExisting,
    WrongMissing,
    File,
    Directory,
}

#[test]
fn list_classifies_the_defect_matrix_and_precedence() {
    let cases = [
        (
            "healthy",
            true,
            true,
            true,
            LinkSetup::Expected,
            None,
            ManagedPathKind::OwnedLink,
        ),
        (
            "disabled",
            false,
            true,
            true,
            LinkSetup::Missing,
            None,
            ManagedPathKind::Missing,
        ),
        (
            "disabled-target-missing",
            false,
            false,
            false,
            LinkSetup::Missing,
            Some(RegistrationDefectKind::TargetMissing),
            ManagedPathKind::Missing,
        ),
        (
            "target-missing",
            true,
            false,
            false,
            LinkSetup::Missing,
            Some(RegistrationDefectKind::TargetMissing),
            ManagedPathKind::Missing,
        ),
        (
            "target-not-executable",
            true,
            true,
            false,
            LinkSetup::Missing,
            Some(RegistrationDefectKind::TargetNotExecutable),
            ManagedPathKind::Missing,
        ),
        (
            "link-missing-restored",
            true,
            true,
            true,
            LinkSetup::Missing,
            None,
            ManagedPathKind::OwnedLink,
        ),
        (
            "link-broken",
            true,
            true,
            true,
            LinkSetup::WrongMissing,
            Some(RegistrationDefectKind::LinkBroken),
            ManagedPathKind::SymbolicLink,
        ),
        (
            "link-incorrect",
            true,
            true,
            true,
            LinkSetup::WrongExisting,
            Some(RegistrationDefectKind::LinkIncorrect),
            ManagedPathKind::SymbolicLink,
        ),
        (
            "file-conflict",
            true,
            true,
            true,
            LinkSetup::File,
            Some(RegistrationDefectKind::Conflict),
            ManagedPathKind::File,
        ),
        (
            "directory-conflict",
            true,
            true,
            true,
            LinkSetup::Directory,
            Some(RegistrationDefectKind::Conflict),
            ManagedPathKind::Directory,
        ),
        // Target validity has deterministic precedence over every Managed Link defect.
        (
            "missing-with-wrong-link",
            true,
            false,
            false,
            LinkSetup::WrongExisting,
            Some(RegistrationDefectKind::TargetMissing),
            ManagedPathKind::SymbolicLink,
        ),
        (
            "nonexec-with-file",
            true,
            true,
            false,
            LinkSetup::File,
            Some(RegistrationDefectKind::TargetNotExecutable),
            ManagedPathKind::File,
        ),
        // A disabled Registration has no defect only when its Managed Link is absent.
        (
            "disabled-owned",
            false,
            true,
            true,
            LinkSetup::Expected,
            Some(RegistrationDefectKind::Conflict),
            ManagedPathKind::OwnedLink,
        ),
    ];

    for (name, enabled, target_exists, target_executable, link, defect, actual) in cases {
        let mut disk = Disk::new();
        let target = "/base/project/tool";
        if target_exists {
            let mode = if target_executable { 0o755 } else { 0o644 };
            disk.file(target, "#!/bin/sh\n", mode);
        }
        let other = "/base/project/other";
        disk.executable(other);
        write_registration(&mut disk, name, target, enabled);
        let managed = format!("/base/.local/bin/{name}");
        disk.directory("/base/.local/bin");
        match link {
            LinkSetup::Missing => {}
            LinkSetup::Expected => disk.symlink(target, &managed),
            LinkSetup::WrongExisting => disk.symlink(other, &managed),
            LinkSetup::WrongMissing => disk.symlink("/base/gone", &managed),
            LinkSetup::File => disk.write(&managed, "untouched"),
            LinkSetup::Directory => disk.directory(&managed),
        }

        let result = disk.list().unwrap();
        let state = &result.registrations[0];
        assert_eq!(
            state.defect.as_ref().map(|defect| &defect.kind),
            defect.as_ref(),
            "case {name}"
        );
        assert_eq!(state.actual, actual, "case {name}");
        assert_eq!(
            result.status,
            if defect.is_none() {
                LifecycleStatus::Healthy
            } else {
                LifecycleStatus::Blocked
            },
            "case {name}"
        );
    }
}

#[test]
fn rename_preserves_target_and_enabled_state_while_moving_only_the_owned_link() {
    let mut disk = Disk::new();
    let target = "/base/project/tool";
    disk.executable(target);
    disk.add(target, Some("old"), false).unwrap();

    let result = disk.rename("old", "new").unwrap();

    assert_eq!(result.status, LifecycleStatus::Healthy);
    assert_eq!(result.identifier, "registration-renamed");
    let state = result.registration.unwrap();
    assert_eq!(state.registration.name, "new");
    assert_eq!(state.registration.target, path(target));
    assert!(state.registration.enabled);
    assert!(state.defect.is_none());
    assert!(!disk.has("/base/.local/bin/old"));
    assert_eq!(disk.link("/base/.local/bin/new").as_deref(), Some(target));
}

#[test]
fn enabled_rename_reconciles_when_the_old_managed_link_is_missing() {
    let mut disk = Disk::new();
    let target = "/base/project/tool";
    disk.executable(target);
    disk.add(target, Some("old"), false).unwrap();
    disk.remove("/base/.local/bin/old");

    let result = disk.rename("old", "new").unwrap();

    assert_eq!(result.status, LifecycleStatus::Healthy);
    assert_eq!(disk.link("/base/.local/bin/new").as_deref(), Some(target));
}

#[test]
fn rename_blocks_destination_and_changed_source_without_deleting_them() {
    for changed_source in [false, true] {
        let mut disk = Disk::new();
        let target = "/base/project/tool";
        let other = "/base/project/other";
        disk.executable(target);
        disk.executable(other);
        disk.add(target, Some("old"), false).unwrap();
        let old = "/base/.local/bin/old";
        let new = "/base/.local/bin/new";
        if changed_source {
            disk.remove(old);
            disk.symlink(other, old);
        } else {
            disk.write(new, "keep me");
        }

        let result = disk.rename("old", "new").unwrap();

        assert_eq!(result.status, LifecycleStatus::Blocked);
        assert_eq!(
            disk.link(old).as_deref(),
            Some(if changed_source { other } else { target })
        );
        if !changed_source {
            assert_eq!(disk.read(new).as_deref(), Some("keep me"));
        }
    }
}

#[test]
fn disabled_rename_changes_only_desired_state_and_no_ops_are_safe() {
    let mut disk = Disk::new();
    disk.executable("/base/old/tool");
    disk.add("/base/old/tool", Some("old-name"), true).unwrap();

    let renamed = disk.rename("old-name", "new-name").unwrap();
    assert!(!renamed.registration.as_ref().unwrap().registration.enabled);
    assert!(!disk.has("/base/.local/bin/old-name"));
    assert!(!disk.has("/base/.local/bin/new-name"));
    let same_name = disk.rename("new-name", "new-name").unwrap();
    assert_eq!(same_name.status, LifecycleStatus::Healthy);
}

#[test]
fn disabled_rename_leaves_an_unrelated_old_path_entry_untouched() {
    let mut disk = Disk::new();
    disk.executable("/base/project/tool");
    disk.add("/base/project/tool", Some("old"), true).unwrap();
    let old_path = "/base/.local/bin/old";
    disk.write(old_path, "unrelated");

    let result = disk.rename("old", "new").unwrap();

    assert_eq!(result.status, LifecycleStatus::Healthy);
    let state = result.registration.unwrap();
    assert_eq!(state.registration.name, "new");
    assert!(!state.registration.enabled);
    assert!(state.defect.is_none());
    assert_eq!(disk.read(old_path).as_deref(), Some("unrelated"));
    assert!(!disk.has("/base/.local/bin/new"));
}

#[test]
fn rename_failures_restore_the_original_registration_and_report_both_paths() {
    let mut disk = Disk::new();
    let target = "/base/project/tool";
    disk.executable(target);
    disk.add(target, Some("old"), false).unwrap();

    disk.fault = Fault::FailAt(MutationBoundary::AtomicRegistryReplacement);
    let error = disk.rename("old", "new").unwrap_err();
    assert_eq!(
        error.resulting_registration().unwrap().registration.name,
        "old"
    );
    assert_eq!(disk.link("/base/.local/bin/old").as_deref(), Some(target));
    assert!(!disk.has("/base/.local/bin/new"));

    disk.fault = Fault::FailAt(MutationBoundary::ManagedLinkRemoval);
    let error = disk.rename("old", "new").unwrap_err();
    assert_eq!(
        error.resulting_registration().unwrap().registration.name,
        "old"
    );
    assert!(error.message().contains("actual paths after failure"));
    assert_eq!(disk.link("/base/.local/bin/old").as_deref(), Some(target));
    assert!(!disk.has("/base/.local/bin/new"));
}

#[test]
fn path_diagnostic_matches_complete_normalized_components_and_never_changes_path() {
    let bin = "/base/.local/bin";
    let with_path = |value: &str| {
        Environment::from_values(
            path(HOME),
            path(HOME),
            vec![
                variable("XDG_CONFIG_HOME", "/base/config"),
                variable("PATH", value),
            ],
        )
    };
    let diagnose = |environment: &Environment| {
        let configuration = configuration::load(environment, FileRead::Missing).unwrap();
        application::path_diagnostic(&configuration, environment)
    };
    let misleading = format!("{bin}-backup:/usr/bin");
    let absent = with_path(&misleading);
    assert_eq!(diagnose(&absent).status, PathStatus::Missing);

    let exact = format!("/usr/bin:{bin}/../bin:{bin}");
    let present = with_path(&exact);
    let result = diagnose(&present);
    assert_eq!(result.status, PathStatus::Present);
    assert_eq!(result.matches, 2);
    assert_eq!(present.variable("PATH").unwrap(), exact.as_bytes());
    assert!(result.guidance.contains(bin));
}

fn names(result: &SearchResult) -> Vec<&str> {
    result
        .candidates
        .iter()
        .map(|item| item.proposed_name.as_str())
        .collect()
}

#[test]
fn search_finds_only_files_with_an_executable_bit_and_normalizes_targets() {
    let mut disk = Disk::new();
    for (name, mode) in [("owner", 0o100), ("group", 0o010), ("other", 0o001)] {
        disk.file(&format!("/base/project/{name}"), "#!/bin/sh\n", mode);
    }
    disk.file("/base/project/plain", "#!/bin/sh\n", 0o644);

    let result = disk
        .search_in(
            Some("/base/project/./nested/.."),
            &plain_environment("/base"),
        )
        .unwrap();

    assert_eq!(names(&result), ["group", "other", "owner"]);
    assert!(result
        .candidates
        .iter()
        .all(|item| item.target.is_absolute()));
    assert_eq!(result.status, SearchStatus::Healthy);
}

#[test]
fn search_defaults_to_working_directory_and_never_mutates_it() {
    let mut disk = Disk::new();
    disk.executable("/base/tool");
    let before = disk.nodes.clone();

    let result = disk.search_in(None, &plain_environment("/base")).unwrap();

    assert_eq!(result.search_root, path("/base"));
    assert_eq!(result.candidates.len(), 1);
    assert_eq!(disk.nodes, before);
}

#[test]
fn search_includes_valid_file_links_but_does_not_follow_directory_links() {
    let mut disk = Disk::new();
    disk.executable("/base/project/real-tool");
    disk.executable("/base/outside/hidden-tool");
    disk.symlink("/base/project/real-tool", "/base/project/linked-tool");
    disk.symlink("/base/project/missing", "/base/project/broken-tool");
    disk.symlink("/base/outside", "/base/project/linked-directory");

    let result = disk
        .search_in(Some("/base/project"), &plain_environment("/base"))
        .unwrap();

    assert_eq!(names(&result), ["linked-tool", "real-tool"]);
}

#[test]
fn search_applies_configured_and_managed_directory_exclusions() {
    let mut disk = Disk::new();
    for directory in [".git", "node_modules", "target", "managed"] {
        disk.executable(&format!("/base/project/{directory}/tool"));
    }
    disk.executable("/base/project/kept/tool");
    disk.write(
        "/base/config/bintui/config.toml",
        "version = 1\nbin_dir = \"/base/project/managed\"\nignore = [\".git\", \"node_modules\", \"target\"]\n",
    );

    let result = disk
        .search_in(Some("/base/project"), &environment())
        .unwrap();

    assert_eq!(result.candidates.len(), 1);
    assert_eq!(result.candidates[0].proposed_name, "tool");
    assert!(shown(&result.candidates[0].target).ends_with("kept/tool"));
}

#[test]
fn search_applies_gitignore_paths_at_any_depth_below_the_search_root() {
    let mut disk = Disk::new();
    for target in [
        "tools/tui/bintui/target/release/build/ignored-tool",
        "target/release/build/ignored-root-tool",
        "tools/tui/bintui/target/release/package/kept-tool",
        "tools/tui/bintui/target/debug/build/debug-tool",
    ] {
        disk.executable(&format!("/base/workspace/{target}"));
    }
    disk.write(
        "/base/config/bintui/config.toml",
        "version = 1\nignore = [\"target/release/build/\"]\n",
    );

    let result = disk
        .search_in(Some("/base/workspace"), &environment())
        .unwrap();

    assert_eq!(names(&result), ["debug-tool", "kept-tool"]);
}

#[test]
fn ignored_full_path_is_persisted_separately_and_filtered_until_manually_removed() {
    let mut disk = Disk::new();
    let ignored = "/base/project/nested/tool";
    let kept = "/base/project/other/tool";
    disk.executable(ignored);
    disk.executable(kept);
    let environment = environment();

    assert_eq!(
        disk.ignore(&path(ignored), &environment).unwrap(),
        "target-ignored"
    );
    let ignore_path = "/base/config/bintui/ignore.toml";
    let stored = disk.read(ignore_path).unwrap();
    assert!(stored.contains("version = 1"));
    assert!(stored.contains(ignored));
    assert!(!disk.has("/base/config/bintui/config.toml"));

    let filtered = disk.search_in(Some("/base/project"), &environment).unwrap();
    assert_eq!(filtered.candidates.len(), 1);
    assert_eq!(filtered.candidates[0].target, path(kept));

    disk.write(ignore_path, "version = 1\npaths = []\n");
    let restored = disk.search_in(Some("/base/project"), &environment).unwrap();
    assert_eq!(restored.candidates.len(), 2);
}

#[test]
fn search_does_not_exclude_unconfigured_directory_names() {
    let mut disk = Disk::new();
    disk.executable("/base/project/.git/git-tool");
    disk.executable("/base/project/node_modules/node-tool");

    let result = disk
        .search_in(Some("/base/project"), &plain_environment("/base"))
        .unwrap();

    assert_eq!(names(&result), ["git-tool", "node-tool"]);
}

#[test]
fn search_associates_registrations_and_reports_name_conflicts() {
    let mut disk = Disk::new();
    disk.executable("/base/project/same");
    disk.executable("/base/project/other/same");
    write_registration(&mut disk, "same", "/base/project/same", true);

    let result = disk
        .search_in(Some("/base/project"), &environment())
        .unwrap();

    let registered = result
        .candidates
        .iter()
        .find(|item| shown(&item.target).ends_with("project/same"))
        .unwrap();
    let state = registered.registration.as_ref().unwrap();
    assert_eq!(state.registration.name, "same");
    assert_eq!(
        state.defect.as_ref().map(|defect| &defect.kind),
        Some(&RegistrationDefectKind::LinkMissing)
    );
    assert_eq!(state.actual, ManagedPathKind::Missing);
    assert!(registered.conflict.is_none());
    let duplicate = result
        .candidates
        .iter()
        .find(|item| shown(&item.target).ends_with("other/same"))
        .unwrap();
    assert_eq!(
        duplicate.conflict.as_ref().unwrap().kind,
        ConflictKind::CommandNameRegistered
    );
    assert_eq!(result.status, SearchStatus::Blocked);
}

#[test]
fn a_search_has_one_candidate_for_each_target_with_a_text_name() {
    let mut disk = Disk::new();
    disk.executable("/base/.local/bin/held");
    write_registration(&mut disk, "taken", "/base/elsewhere/taken", true);
    let environment = environment();
    let found = ["/base/a/taken", "/base/b/twice", "/base/c/held", "/base/c/twice", "/base/d/free"];
    let mut targets: Vec<PathBuf> = found.iter().map(|target| path(target)).collect();
    targets.insert(2, PathBuf::from_bytes(b"/base/b/\xff".to_vec()));
    let mut discovered = Some(Discovery {
        targets,
        warnings: Vec::new(),
    });

    let mut phase = application::search(SearchRequest { search_root: None });
    let result = loop {
        let event = match phase.query(&environment) {
            SearchQuery::ReadConfiguration(path) => {
                SearchEvent::Configuration(disk.configuration(&path))
            }
            SearchQuery::ReadRegistry(path) => SearchEvent::Registry(disk.registry(&path)),
            SearchQuery::ReadIgnored(path) => SearchEvent::Ignored(disk.ignored(&path)),
            SearchQuery::Discover { .. } => SearchEvent::Discovered(Ok(discovered.take().unwrap())),
            SearchQuery::Observe(paths) => SearchEvent::Observed(disk.observe_all(&paths)),
            SearchQuery::Finish => break phase.outcome().unwrap().unwrap(),
        };
        phase = phase.advance(event, &environment);
    };

    let candidates: Vec<(String, Option<(ConflictKind, String)>)> = result
        .candidates
        .iter()
        .map(|candidate| {
            let conflict = candidate.conflict.as_ref();
            (
                shown(&candidate.target),
                conflict.map(|found| (found.kind, shown(&found.conflicting_target))),
            )
        })
        .collect();
    let conflict = |kind: ConflictKind, target: &str| Some((kind, target.to_owned()));
    assert_eq!(
        candidates,
        [
            (
                found[0].to_owned(),
                conflict(ConflictKind::CommandNameRegistered, "/base/elsewhere/taken")
            ),
            (
                found[1].to_owned(),
                conflict(ConflictKind::DuplicateProposedName, "/base/c/twice")
            ),
            (
                found[2].to_owned(),
                conflict(ConflictKind::ManagedPathOccupied, "/base/.local/bin/held")
            ),
            (
                found[3].to_owned(),
                conflict(ConflictKind::DuplicateProposedName, "/base/b/twice")
            ),
            (found[4].to_owned(), None),
        ]
    );
    assert_eq!(result.status, SearchStatus::Blocked);
}

#[test]
fn unmanaged_paths_in_the_managed_bin_directory_are_command_name_conflicts() {
    let mut disk = Disk::new();
    disk.executable("/base/project/tool");
    disk.executable("/base/managed/tool");
    disk.write(
        "/base/.config/bintui/config.toml",
        "version = 1\nbin_dir = \"/base/managed\"\n",
    );

    let result = disk
        .search_in(Some("/base/project"), &plain_environment("/base"))
        .unwrap();

    assert_eq!(result.status, SearchStatus::Blocked);
    assert_eq!(
        result.candidates[0].conflict.as_ref().unwrap().kind,
        ConflictKind::ManagedPathOccupied
    );
}

#[test]
fn duplicate_proposed_names_are_reported_without_an_existing_registry() {
    let mut disk = Disk::new();
    disk.executable("/base/one/tool");
    disk.executable("/base/two/tool");

    let result = disk
        .search_in(Some("/base"), &plain_environment("/base"))
        .unwrap();

    assert_eq!(result.status, SearchStatus::Blocked);
    assert_eq!(result.candidates.len(), 2);
    assert!(result.candidates.iter().all(|candidate| {
        candidate.conflict.as_ref().map(|conflict| &conflict.kind)
            == Some(&ConflictKind::DuplicateProposedName)
    }));
}

#[test]
fn unreadable_directories_are_warnings_and_other_candidates_are_returned() {
    let mut disk = Disk::new();
    disk.executable("/base/visible");
    disk.nodes.insert(
        "/base/private".to_owned(),
        Node::Directory { listable: false },
    );

    let result = disk
        .search_in(Some("/base"), &plain_environment("/base"))
        .unwrap();

    assert_eq!(result.candidates.len(), 1);
    assert!(result.warnings.iter().any(|warning| {
        warning.kind == WarningKind::UnreadableDirectory && warning.path == path("/base/private")
    }));
}

#[test]
fn searching_the_managed_bin_directory_returns_no_candidates() {
    let mut disk = Disk::new();
    disk.executable("/base/managed/tool");
    disk.write(
        "/base/.config/bintui/config.toml",
        "version = 1\nbin_dir = \"/base/managed\"\n",
    );

    let result = disk
        .search_in(Some("/base/managed"), &plain_environment("/base"))
        .unwrap();

    assert!(result.candidates.is_empty());
}

#[test]
fn search_reads_but_does_not_modify_registry_configuration_candidates_or_managed_paths() {
    let mut disk = Disk::new();
    disk.executable("/base/project/tool");
    disk.directory("/base/managed");
    disk.write(
        "/base/config/bintui/config.toml",
        "version = 1\nbin_dir = \"/base/managed\"\n",
    );
    write_registration(&mut disk, "tool", "/base/project/tool", false);
    let before = disk.nodes.clone();

    let result = disk
        .search_in(Some("/base/project"), &environment())
        .unwrap();

    assert!(
        !result.candidates[0]
            .registration
            .as_ref()
            .unwrap()
            .registration
            .enabled
    );
    assert_eq!(disk.nodes, before);
}

#[test]
fn invalid_registry_data_fails_without_rewriting_it() {
    let mut disk = Disk::new();
    disk.executable("/base/project/tool");
    for (contents, expected) in [
        ("version = 9\n", "unsupported Registry version 9"),
        ("version = nope\n", "invalid Registry"),
        (
            "version = 1\n[[command]]\nname = \"bad/name\"\ntarget = \"/tmp/tool\"\nenabled = true\n",
            "invalid Command Name",
        ),
        (
            "version = 1\n[[command]]\nname = \"tool\"\ntarget = \"relative\"\nenabled = true\n",
            "Target must be absolute",
        ),
    ] {
        disk.write(REGISTRY, contents);
        let error = disk
            .search_in(Some("/base/project"), &environment())
            .unwrap_err();
        assert!(
            error.message().contains(expected),
            "unexpected error: {}",
            error.message()
        );
        assert_eq!(disk.read(REGISTRY).as_deref(), Some(contents));
    }
}

#[test]
fn bintui_configuration_mutations_commit_and_push_only_the_changed_file() {
    let mut disk = Disk::new();
    disk.directory("/base/config/.git");
    disk.write("/base/config/bintui/config.toml", "version = 1\n");
    disk.executable("/base/project/tool");

    disk.add("/base/project/tool", Some("tool"), true).unwrap();
    disk.directory("/base/ignored");
    disk.ignore(&path("/base/ignored"), &environment()).unwrap();
    disk.synchronize(path("/base/config/bintui/config.toml"), &environment())
        .unwrap();

    let expected: Vec<(String, Vec<String>)> = [
        "bintui/registry.toml",
        "bintui/ignore.toml",
        "bintui/config.toml",
    ]
    .iter()
    .flat_map(|file| {
        [
            vec!["add", "--", file],
            vec!["diff", "--cached", "--quiet", "--", file],
            vec![
                "commit",
                "--only",
                "-m",
                "Update bintui configuration",
                "--",
                file,
            ],
            vec!["push"],
        ]
    })
    .map(|arguments| {
        (
            "/base/config".to_owned(),
            arguments.into_iter().map(str::to_owned).collect(),
        )
    })
    .collect();
    assert_eq!(disk.git.log, expected);
}

#[test]
fn config_home_inside_a_git_worktree_is_committed_and_pushed() {
    let mut disk = Disk::new();
    disk.directory("/base/home/.git");
    disk.directory("/base/home/.config");
    disk.executable("/base/project/tool");
    let environment = Environment::from_values(
        path("/base/home"),
        path("/base/home"),
        vec![variable("XDG_CONFIG_HOME", "/base/home/.config")],
    );

    disk.run(
        application::add(request("/base/project/tool", Some("tool"), true)),
        &environment,
    )
    .unwrap();

    assert!(disk
        .git
        .log
        .iter()
        .all(|(directory, _)| directory == "/base/home"));
    assert_eq!(
        disk.git.log[0].1,
        ["add", "--", ".config/bintui/registry.toml"]
    );
    assert_eq!(disk.git.log.last().unwrap().1, ["push"]);
}

#[test]
fn symlinked_bintui_directory_uses_the_physical_git_worktree() {
    let mut disk = Disk::new();
    disk.directory("/base/home/.config");
    disk.directory("/base/dotfiles/.git");
    disk.directory("/base/dotfiles/bintui");
    disk.symlink("/base/dotfiles/bintui", "/base/home/.config/bintui");
    let environment = Environment::from_values(
        path("/base/home"),
        path("/base/home"),
        vec![variable("XDG_CONFIG_HOME", "/base/home/.config")],
    );

    disk.executable("/base/project/tool");
    disk.run(
        application::add(request("/base/project/tool", Some("tool"), true)),
        &environment,
    )
    .unwrap();

    assert!(disk.has("/base/dotfiles/bintui/registry.toml"));

    assert_eq!(
        disk.git.log[0],
        (
            "/base/dotfiles".to_owned(),
            vec![
                "add".to_owned(),
                "--".to_owned(),
                "bintui/registry.toml".to_owned()
            ]
        )
    );
    assert_eq!(disk.git.log.last().unwrap().1, ["push"]);
}

#[test]
fn a_push_failure_is_reported_after_the_registry_change_is_committed() {
    let mut disk = Disk::new();
    disk.directory("/base/config/.git");
    disk.executable("/base/project/tool");
    disk.git.push_fails = true;

    let error = disk
        .add("/base/project/tool", Some("tool"), true)
        .unwrap_err();

    assert_eq!(error.identifier(), "add-failed");
    assert!(error.message().contains("pushing the bintui change"));
    assert!(error.message().contains("no upstream"));
    assert!(disk.has(REGISTRY));
    assert_eq!(disk.git.log[2].1[0], "commit");
}

#[test]
fn a_change_that_git_does_not_see_is_not_committed() {
    let mut disk = Disk::new();
    disk.directory("/base/config/.git");
    disk.executable("/base/project/tool");
    disk.git.unchanged = true;

    disk.add("/base/project/tool", Some("tool"), true).unwrap();

    assert_eq!(disk.git.log.len(), 2);
    assert_eq!(disk.git.log[1].1[0], "diff");
}

#[test]
fn a_configuration_outside_a_worktree_is_left_alone() {
    let mut disk = Disk::new();
    disk.executable("/base/project/tool");

    disk.add("/base/project/tool", Some("tool"), true).unwrap();

    assert!(disk.git.log.is_empty());
}

fn displays(roots: Vec<DisplayRoot>) -> cli::PathDisplay {
    cli::PathDisplay {
        home: path(HOME),
        roots,
        canonical: Vec::new(),
    }
}

#[test]
fn text_search_prints_only_the_target_and_abbreviates_home_paths() {
    let mut disk = Disk::new();
    disk.executable("/base/project/tool");

    let result = disk
        .search_in(None, &plain_environment("/base/project"))
        .unwrap();

    assert_eq!(cli::search_status_code(result.status), 0);
    assert_eq!(
        cli::search_lines(&result, &displays(Vec::new())),
        ["~/project/tool"]
    );
}

#[test]
fn configured_roots_shorten_text_paths_but_not_json_paths() {
    let mut disk = Disk::new();
    disk.executable("/base/project/nested/tool");
    disk.write(
        "/base/.config/bintui/config.toml",
        "version = 1\n[roots]\nproject = \"~/project\"\n",
    );
    let environment = plain_environment("/base");

    let result = disk.search_in(Some("/base/project"), &environment).unwrap();
    let read = disk.configuration(&configuration::config_path(&environment));
    let roots = configuration::load(&environment, read)
        .unwrap()
        .roots
        .into_iter()
        .map(|named| DisplayRoot {
            canonical: named.root.clone(),
            named,
        })
        .collect();

    assert_eq!(
        cli::search_lines(&result, &displays(roots)),
        ["[project]/nested/tool"]
    );
    assert!(result.search_root.is_absolute());
    assert!(result.candidates[0].target.is_absolute());
}

#[test]
fn json_search_exposes_stable_status_and_conflict_identifiers() {
    let mut disk = Disk::new();
    disk.executable("/base/project/one/tool");
    disk.executable("/base/project/two/tool");

    let result = disk
        .search_in(Some("/base/project"), &plain_environment("/base"))
        .unwrap();

    assert_eq!(cli::search_status_code(result.status), 1);
    assert_eq!(result.status, SearchStatus::Blocked);
    assert_eq!(
        result.candidates[0]
            .conflict
            .as_ref()
            .unwrap()
            .kind
            .identifier(),
        "duplicate-proposed-name"
    );
    assert!(result.search_root.is_absolute());
}

#[test]
fn json_search_reports_structured_warnings_without_failing_the_search() {
    let mut disk = Disk::new();
    disk.directory("/base/project");
    disk.nodes.insert(
        "/base/project/private".to_owned(),
        Node::Directory { listable: false },
    );

    let result = disk
        .search_in(Some("/base/project"), &plain_environment("/base"))
        .unwrap();

    assert_eq!(result.status, SearchStatus::Healthy);
    assert_eq!(
        result.warnings[0].kind.identifier(),
        "unreadable-directory"
    );
    assert_eq!(
        cli::warning_lines(&result, &displays(Vec::new())),
        ["warning[unreadable-directory]: ~/project/private: Permission denied"]
    );
}

#[test]
fn ignore_persists_the_target_and_removes_it_from_discovery() {
    let mut disk = Disk::new();
    disk.executable("/base/project/tool");
    let environment = plain_environment("/base");

    assert_eq!(
        disk.ignore(&path("/base/project/tool"), &environment)
            .unwrap(),
        "target-ignored"
    );

    let result = disk.search_in(Some("/base/project"), &environment).unwrap();
    assert!(cli::search_lines(&result, &displays(Vec::new())).is_empty());
}

#[test]
fn text_search_omits_registered_targets() {
    let mut disk = Disk::new();
    disk.executable("/base/project/registered");
    disk.executable("/base/project/available");
    disk.add("/base/project/registered", None, false).unwrap();

    let result = disk
        .search_in(Some("/base/project"), &environment())
        .unwrap();

    let nowhere = cli::PathDisplay {
        home: path("/elsewhere"),
        roots: Vec::new(),
        canonical: Vec::new(),
    };
    assert_eq!(
        cli::search_lines(&result, &nowhere),
        ["/base/project/available"]
    );
}

#[test]
fn invalid_input_has_exit_status_two_and_an_actionable_message() {
    let mut disk = Disk::new();

    let error = disk
        .search_in(Some("/base/missing"), &plain_environment("/base"))
        .unwrap_err();

    assert_eq!(cli::FAILURE_CODE, 2);
    let lines = cli::error_lines("search-failed", &error, &displays(Vec::new()));
    assert!(lines[0].starts_with("error[search-failed]: "));
    assert!(lines[0].contains("could not search"));
}

#[test]
fn json_search_errors_have_stable_identifiers() {
    let mut disk = Disk::new();
    disk.write("/base/.config/bintui/config.toml", "version = 99\n");

    let error = disk
        .search_in(None, &plain_environment("/base"))
        .unwrap_err();

    assert_eq!(
        cli::error_identifier("search-failed", &error),
        "search-failed"
    );
    assert!(error.message().contains("version 99"));
}

#[test]
fn missing_home_is_reported_as_an_operational_failure() {
    let missing = Environment::current(
        vec![(b"PATH".to_vec(), b"/usr/bin".to_vec())],
        None,
        Some(path("/base")),
    );
    assert_eq!(missing.err(), Some(VarError::NotPresent));
}

#[test]
fn lifecycle_commands_and_list_present_the_shared_application_results() {
    let mut disk = Disk::new();
    disk.executable("/base/project/tool");
    let paths = displays(Vec::new());

    let added = disk.add("/base/project/tool", None, true).unwrap();
    assert_eq!(cli::status_code(added.status), 0);
    assert_eq!(
        cli::lifecycle_lines(&added, &paths),
        [
            "Result: registration-added",
            "Registration: tool",
            "Target: ~/project/tool",
            "Enabled: false",
            "Managed Link: ~/.local/bin/tool",
            "Actual: missing",
        ]
    );
    assert_eq!(cli::status_code(disk.enable("tool").unwrap().status), 0);
    let listed = disk.list().unwrap();
    assert_eq!(cli::status_code(listed.status), 0);
    assert_eq!(
        cli::list_lines(&listed, &paths),
        ["Result: registrations-listed", "tool -> ~/project/tool"]
    );
    assert_eq!(cli::status_code(disk.disable("tool").unwrap().status), 0);
    let listed = disk.list().unwrap();
    assert_eq!(
        cli::list_lines(&listed, &paths),
        [
            "Result: registrations-listed",
            "tool -> ~/project/tool [disabled]"
        ]
    );
    let removed = disk.unregister("tool").unwrap();
    assert_eq!(cli::status_code(removed.status), 0);
    assert_eq!(
        cli::lifecycle_lines(&removed, &paths),
        ["Result: registration-removed"]
    );
}

#[test]
fn list_restores_missing_links_and_presents_remaining_defects_with_the_exit_status_contract() {
    let mut disk = Disk::new();
    let target = "/base/project/tool";
    disk.executable(target);
    let paths = displays(Vec::new());
    disk.add(target, None, false).unwrap();

    assert!(disk.list().unwrap().registrations[0].defect.is_none());

    let managed_link = "/base/.local/bin/tool";
    disk.remove(managed_link);
    let listed = disk.list().unwrap();
    assert_eq!(cli::status_code(listed.status), 0);
    assert!(!cli::list_lines(&listed, &paths)
        .join("\n")
        .contains("link-missing"));
    assert_eq!(disk.link(managed_link).as_deref(), Some(target));

    disk.remove(target);
    let listed = disk.list().unwrap();
    assert_eq!(cli::status_code(listed.status), 1);
    assert_eq!(
        cli::list_lines(&listed, &paths)[1],
        "tool -> ~/project/tool [target-missing]"
    );
}

#[test]
fn blocked_and_invalid_lifecycle_requests_use_the_exit_status_contract() {
    let mut disk = Disk::new();
    disk.executable("/base/project/tool");
    disk.executable("/base/.local/bin/tool");
    let paths = displays(Vec::new());

    let blocked = disk.add("/base/project/tool", None, false).unwrap();
    assert_eq!(cli::status_code(blocked.status), 1);
    assert_eq!(
        cli::lifecycle_lines(&blocked, &paths)[0],
        "Result: managed-path-occupied"
    );

    let error = disk.disable("missing").unwrap_err();
    assert_eq!(
        cli::error_identifier("operation-failed", &error),
        "disable-failed"
    );
    assert!(cli::error_lines("operation-failed", &error, &paths)[0]
        .starts_with("error[disable-failed]: "));
}

#[test]
fn rename_exposes_structured_outcome_and_path_guidance() {
    let mut disk = Disk::new();
    disk.executable("/base/project/tool");
    disk.add("/base/project/tool", Some("old"), false).unwrap();

    let renamed = disk.rename("old", "new").unwrap();

    assert_eq!(renamed.identifier, "registration-renamed");
    assert!(cli::published(&renamed));
    assert_eq!(renamed.registration.unwrap().registration.name, "new");
    let environment = Environment::from_values(
        path(HOME),
        path(HOME),
        vec![
            variable("XDG_CONFIG_HOME", "/base/config"),
            variable("PATH", "/usr/bin:/bin"),
        ],
    );
    let configuration = configuration::load(&environment, FileRead::Missing).unwrap();
    let diagnostic = application::path_diagnostic(&configuration, &environment);
    assert_eq!(diagnostic.identifier, "managed-bin-not-on-path");
    assert!(cli::path_warning(&diagnostic)
        .unwrap()
        .starts_with("warning[managed-bin-not-on-path]: "));
}

#[test]
fn rename_failures_are_actionable_and_keep_exit_status_contract() {
    let mut disk = Disk::new();
    disk.executable("/base/tool");
    disk.add("/base/tool", Some("old"), false).unwrap();
    disk.write("/base/.local/bin/new", "keep");

    let result = disk.rename("old", "new").unwrap();

    assert_eq!(cli::status_code(result.status), 1);
    let lines = cli::lifecycle_lines(&result, &displays(Vec::new())).join("\n");
    assert!(lines.contains("rename-destination-conflict"));
    assert!(lines.contains("remove or rename"));
    assert_eq!(disk.read("/base/.local/bin/new").as_deref(), Some("keep"));
}

#[test]
fn a_disabled_registration_with_a_defect_lists_both() {
    let mut disk = Disk::new();
    disk.executable("/base/project/tool");
    disk.add("/base/project/tool", None, true).unwrap();
    disk.remove("/base/project/tool");

    let listed = disk.list().unwrap();

    assert_eq!(
        cli::list_lines(&listed, &displays(Vec::new()))[1],
        "tool -> ~/project/tool [disabled; target-missing]"
    );
}

#[test]
fn a_failure_prints_the_registration_that_it_left_behind() {
    let mut disk = Disk::new();
    disk.executable("/base/project/tool");
    disk.fault = Fault::FailAt(MutationBoundary::RegistryDirectorySync);
    let healthy = disk.add("/base/project/tool", None, false).unwrap_err();
    let paths = displays(Vec::new());
    assert_eq!(
        cli::error_lines("operation-failed", &healthy, &paths)[1],
        "Resulting Registration: tool -> ~/project/tool [actual=owned-link]"
    );

    disk.fault = Fault::Nowhere;
    disk.remove("/base/project/tool");
    disk.fault = Fault::FailAt(MutationBoundary::ManagedLinkRemoval);
    let defective = disk.disable("tool").unwrap_err();
    let lines = cli::error_lines("operation-failed", &defective, &paths);
    assert_eq!(
        lines[1],
        "Resulting Registration: tool -> ~/project/tool [actual=owned-link; defect=target-missing]"
    );
    assert_eq!(
        lines[2],
        "Next safe action: Target does not exist; restore it or remove the Registration"
    );
}

#[test]
fn enabling_and_disabling_again_restores_the_registry() {
    let mut disk = Disk::new();
    disk.executable("/base/project/tool");
    disk.add("/base/project/tool", None, true).unwrap();
    let before = disk.read(REGISTRY);

    disk.enable("tool").unwrap();
    assert_ne!(disk.read(REGISTRY), before);
    disk.disable("tool").unwrap();

    assert_eq!(disk.read(REGISTRY), before);
}

#[test]
fn removing_what_was_added_leaves_the_others() {
    let mut disk = Disk::new();
    disk.executable("/base/project/alpha");
    disk.executable("/base/project/zulu");
    disk.add("/base/project/alpha", None, false).unwrap();
    let before = disk.read(REGISTRY);

    disk.add("/base/project/zulu", None, false).unwrap();
    disk.unregister("zulu").unwrap();

    assert_eq!(disk.read(REGISTRY), before);
    assert!(disk.has("/base/.local/bin/alpha"));
    assert!(!disk.has("/base/.local/bin/zulu"));
}

#[test]
fn a_walk_reports_targets_in_the_order_of_their_paths() {
    let mut disk = Disk::new();
    for target in ["b", "a/z", "a-b", "c/inner/x"] {
        disk.executable(&format!("/base/project/{target}"));
    }

    let found = disk
        .discover(
            path("/base/project"),
            path("/base/project/c"),
            Vec::new(),
            vec![path("/base/project/b")],
        )
        .unwrap();

    assert_eq!(
        found.targets,
        [path("/base/project/a/z"), path("/base/project/a-b")]
    );
    assert!(found.warnings.is_empty());
}

#[test]
fn a_walk_needs_a_directory_and_usable_patterns() {
    let mut disk = Disk::new();
    disk.executable("/base/tool");

    let file = disk
        .discover(path("/base/tool"), path("/bin"), Vec::new(), Vec::new())
        .err()
        .unwrap();
    assert_eq!(file.kind, IoErrorKind::InvalidInput);
    assert_eq!(file.message, "search root is not a directory: /base/tool");

    let missing = disk
        .discover(path("/base/none"), path("/bin"), Vec::new(), Vec::new())
        .err()
        .unwrap();
    assert_eq!(missing.kind, IoErrorKind::NotFound);

    let pattern = disk
        .discover(
            path("/base"),
            path("/bin"),
            vec!["a{b".to_owned()],
            Vec::new(),
        )
        .err()
        .unwrap();
    assert_eq!(pattern.kind, IoErrorKind::InvalidInput);
}

#[test]
fn a_second_time_gives_the_same_result_and_changes_nothing() {
    let mut disk = Disk::new();
    disk.executable("/base/project/tool");
    disk.add("/base/project/tool", None, true).unwrap();

    let enabled = disk.enable("tool").unwrap();
    let registry = disk.read(REGISTRY);
    assert_eq!(disk.enable("tool").unwrap(), enabled);
    assert_eq!(disk.read(REGISTRY), registry);
    assert_eq!(
        disk.link("/base/.local/bin/tool").as_deref(),
        Some("/base/project/tool")
    );

    let disabled = disk.disable("tool").unwrap();
    let registry = disk.read(REGISTRY);
    assert_eq!(disk.disable("tool").unwrap(), disabled);
    assert_eq!(disk.read(REGISTRY), registry);
    assert!(!disk.has("/base/.local/bin/tool"));
}

#[test]
fn a_check_gives_the_identifier_of_the_addition() {
    let mut disk = Disk::new();
    disk.executable("/base/project/tool");
    disk.executable("/base/project/other");
    let checked = disk.validate_add("/base/project/tool", None).unwrap();
    assert_eq!(checked.identifier, "add-valid");
    let added = disk.add("/base/project/tool", None, false).unwrap();
    assert_eq!(added.identifier, "registration-added");

    let checked = disk.validate_add("/base/project/tool", None).unwrap();
    let added = disk.add("/base/project/tool", None, false).unwrap();
    assert_eq!(checked, added);
    assert_eq!(added.identifier, "command-name-registered");

    disk.write("/base/.local/bin/other", "mine");
    let checked = disk.validate_add("/base/project/other", None).unwrap();
    let added = disk.add("/base/project/other", None, true).unwrap();
    assert_eq!(checked, added);
    assert_eq!(added.identifier, "managed-path-occupied");
}
