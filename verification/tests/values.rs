use bintui::application::{AddRequest, ApplicationError};
use bintui::atomic_write::{temporary_path, AtomicWrite, WriteRequest, WriteStage};
use bintui::cli::{
    exit_code, list_ending, operation_ending, plain_ending, result_line, search_ending, Ending,
};
use bintui::config_git::{commit_and_push, ConfigGitError, GitEvent, GitOutput, GitRequest};
use bintui::configuration;
use bintui::discovery_ignore::{self, DiscoveryIgnoreError, IgnoreFile, IgnorePhase};
use bintui::environment::{Environment, Variable};
use bintui::host::{FileRead, IoError, IoErrorKind};
use bintui::model::{
    Candidate, CanonicalPath, LifecycleResult, LifecycleStatus, ListResult, ManagedPathKind,
    PathDiagnostic, PathStatus, Registration, RegistrationDefect, RegistrationDefectKind,
    RegistrationState, SearchResult, SearchStatus, SearchWarning, WarningKind,
};
use bintui::order;
use bintui::path::PathBuf;
use bintui::registry::{
    self, RegistrationFile, RegistryError, RegistryFile,
};
use bintui::text;
use bintui::tui::{
    combined_notice, execute_request, mutation_result, reported, Controller, Event, Operation,
    OperationError, OperationResult, Request,
};

fn path(value: &str) -> PathBuf {
    PathBuf::from_text(value)
}

fn environment(variables: &[(&str, &str)]) -> Environment {
    Environment::from_values(
        path("/home/me"),
        path("/work"),
        variables
            .iter()
            .map(|(name, value)| Variable {
                name: (*name).to_owned(),
                value: value.as_bytes().to_vec(),
            })
            .collect(),
    )
}

fn failure(message: &str) -> IoError {
    IoError::new(IoErrorKind::Other, message)
}

#[test]
fn lines_end_with_line_feeds() {
    assert_eq!(text::lines("a\nb\r\nc"), ["a", "b", "c"]);
    assert_eq!(text::lines("a\n"), ["a"]);
    assert_eq!(text::lines("\n\nx\r"), ["", "", "x\r"]);
    assert!(text::lines("").is_empty());
}

#[test]
fn texts_are_joined_and_compared() {
    assert_eq!(
        text::separate(&vec!["a".to_owned(), "b".to_owned()], "; "),
        "a; b"
    );
    assert_eq!(text::separate(&Vec::new(), "; "), "");
    assert_eq!(text::decimal_of(0), "0");
    assert_eq!(text::decimal_of(9_007), "9007");
    assert!(text::less("a", "ab"));
    assert!(text::less("Z", "a"));
    assert!(!text::less("b", "a"));
    assert!(text::contains_text("haystack", "st"));
    assert!(!text::contains_text("hay", "stack"));
    assert_eq!(text::without_prefix("~/x", "~/").as_deref(), Some("x"));
    assert_eq!(text::without_prefix("x", "~/"), None);
    assert_eq!(text::bytes_of("é"), [0xc3, 0xa9]);
}

#[test]
fn notices_are_shown_once_each() {
    let notices = ["one", "two", "one"].map(str::to_owned).to_vec();
    assert_eq!(combined_notice(&notices).as_deref(), Some("one; two"));
    assert_eq!(combined_notice(&Vec::new()), None);
}

#[test]
fn paths_compare_by_their_components() {
    assert_eq!(path("/a//b/./c/"), path("/a/b/c"));
    assert_ne!(path("/a/b"), path("a/b"));
    assert_ne!(path("/a/../b"), path("/b"));
    assert_eq!(path("/a/b").join(&path("c")), path("/a/b/c"));
    assert_eq!(path("/a/b").join(&path("/c")), path("/c"));
    assert_eq!(path("/a/b/c").strip_prefix(&path("/a")), Some(path("b/c")));
    assert_eq!(path("/ab").strip_prefix(&path("/a")), None);
    assert!(path("/a/b").starts_with(&path("/a")));
    assert!(path("/a/b").less(&path("/a/c")));
    assert_eq!(path("/a/b").file_name(), Some(b"b".to_vec()));
    assert_eq!(path("/..").file_name(), None);
    assert_eq!(path("/a/../..").normalize(), path("/"));
    assert_eq!(
        PathBuf::from_bytes(b"/x\xff".to_vec()).display(),
        "/x\u{fffd}"
    );
    assert_eq!(PathBuf::from_bytes(b"/x\xff".to_vec()).to_text(), None);
}

#[test]
fn sorting_keeps_equals_in_place() {
    let sorted = order::stable_sort(vec![
        path("/b"),
        path("/a/./x"),
        path("/a"),
        path("/a//x"),
    ]);
    let spelled: Vec<&[u8]> = sorted.iter().map(|path| path.as_bytes().as_slice()).collect();
    assert_eq!(
        spelled,
        [
            b"/a".as_slice(),
            b"/a/./x".as_slice(),
            b"/a//x".as_slice(),
            b"/b".as_slice()
        ]
    );
}

fn registration(name: &str, target: &str, enabled: bool) -> Registration {
    Registration {
        name: name.to_owned(),
        target: path(target),
        enabled,
    }
}

#[test]
fn a_registry_reads_back_as_it_was_stored() {
    let environment = environment(&[]);
    let registrations = vec![
        registration("alpha", "/home/me/alpha", true),
        registration("beta", "/opt/beta", false),
        registration("home", "/home/me", false),
    ];
    let file = registry::store(&registrations, &environment).unwrap();
    let targets: Vec<&str> = file
        .registrations
        .iter()
        .map(|entry| entry.target.as_str())
        .collect();
    assert_eq!(targets, ["~/alpha", "/opt/beta", "~"]);
    assert_eq!(
        registry::load(&environment, FileRead::Parsed(file)).unwrap(),
        registrations
    );
}

#[test]
fn a_registry_holds_valid_names_and_absolute_targets_once_each() {
    let environment = environment(&[]);
    let entry = |name: &str, target: &str| RegistrationFile {
        name: name.to_owned(),
        target: target.to_owned(),
        enabled: true,
    };
    let load = |version, registrations| {
        registry::load(
            &environment,
            FileRead::Parsed(RegistryFile {
                version,
                registrations,
            }),
        )
        .map_err(|error| error.message())
    };
    assert!(load(1, vec![entry("a", "/x"), entry("b", "/x")]).is_ok());
    for (version, registrations, expected) in [
        (2, Vec::new(), "unsupported Registry version 2"),
        (1, vec![entry("", "/x")], "invalid Command Name"),
        (1, vec![entry("a/b", "/x")], "invalid Command Name"),
        (1, vec![entry("..", "/x")], "invalid Command Name"),
        (1, vec![entry("a", "x")], "Target must be absolute"),
        (1, vec![entry("a", "/x"), entry("a", "/y")], "duplicate"),
    ] {
        let message = load(version, registrations).unwrap_err();
        assert!(message.contains(expected), "{message}");
        assert!(message.starts_with("invalid Registry /home/me/.config/bintui/registry.toml: "));
    }
    assert_eq!(
        registry::load(&environment, FileRead::Missing).unwrap(),
        Vec::new()
    );
    assert_eq!(
        registry::load(&environment, FileRead::Unreadable(failure("denied")))
            .unwrap_err()
            .message(),
        "could not read Registry /home/me/.config/bintui/registry.toml: denied"
    );
    assert_eq!(
        registry::load(&environment, FileRead::Malformed("bad".to_owned()))
            .unwrap_err()
            .message(),
        "invalid Registry /home/me/.config/bintui/registry.toml: bad"
    );
}

#[test]
fn registry_errors_say_what_failed_and_whether_it_was_committed() {
    let at = || path("/r");
    for (error, message, committed) in [
        (
            RegistryError::CreateDirectory {
                path: at(),
                source: failure("no"),
            },
            "could not create Registry directory /r: no",
            false,
        ),
        (
            RegistryError::Lock {
                path: at(),
                source: failure("no"),
            },
            "could not acquire Registry lock /r: no",
            false,
        ),
        (
            RegistryError::Write {
                path: at(),
                source: failure("no"),
            },
            "could not write temporary Registry /r: no",
            false,
        ),
        (
            RegistryError::Sync {
                path: at(),
                source: failure("no"),
            },
            "could not sync temporary Registry /r: no",
            false,
        ),
        (
            RegistryError::Replace {
                path: at(),
                source: failure("no"),
            },
            "could not atomically replace Registry /r: no",
            false,
        ),
        (
            RegistryError::Durability {
                path: at(),
                source: failure("no"),
            },
            "Registry /r was replaced but its directory could not be synced: no",
            true,
        ),
        (
            RegistryError::GitSync(ConfigGitError::NonUtf8Path(at())),
            "Registry was replaced but its Git synchronization failed: configuration change path is not valid UTF-8: /r",
            true,
        ),
    ] {
        assert_eq!(error.message(), message);
        assert_eq!(error.replacement_committed(), committed);
    }
}

#[test]
fn ignored_paths_are_kept_in_order_and_once_each() {
    let environment = environment(&[]);
    let load = |paths: &[&str]| {
        discovery_ignore::load(
            &environment,
            FileRead::Parsed(IgnoreFile {
                version: 1,
                paths: paths.iter().map(|path| (*path).to_owned()).collect(),
            }),
        )
    };
    let paths = load(&["/b", "/a/../c", "/b/"]).unwrap();
    assert_eq!(paths, [path("/b"), path("/c")]);
    let file = discovery_ignore::store(&paths, &environment).unwrap();
    assert_eq!(file.paths, ["/b", "/c"]);
    assert_eq!(
        discovery_ignore::load(&environment, FileRead::Parsed(file)).unwrap(),
        paths
    );
    assert!(load(&["relative"])
        .unwrap_err()
        .message()
        .contains("non-empty absolute path: \"relative\""));
    assert!(load(&[""]).is_err());
    let newer = IgnoreFile {
        version: 3,
        paths: Vec::new(),
    };
    assert!(
        discovery_ignore::load(&environment, FileRead::Parsed(newer))
            .unwrap_err()
            .message()
            .contains("unsupported discovery ignore version 3; expected 1")
    );
    let unspeakable = vec![PathBuf::from_bytes(b"/\xff".to_vec())];
    assert!(discovery_ignore::store(&unspeakable, &environment)
        .unwrap_err()
        .message()
        .contains("must be valid UTF-8"));
    assert!(matches!(
        discovery_ignore::add(&path("relative"), &environment),
        IgnorePhase::Finished(Err(DiscoveryIgnoreError::Invalid { .. }))
    ));
    assert!(matches!(
        discovery_ignore::add(&unspeakable[0], &environment),
        IgnorePhase::Finished(Err(DiscoveryIgnoreError::Invalid { .. }))
    ));
}

#[test]
fn ignore_errors_say_what_failed() {
    let at = || path("/i");
    for (error, message) in [
        (
            DiscoveryIgnoreError::Read {
                path: at(),
                source: failure("no"),
            },
            "could not read discovery ignore file /i: no",
        ),
        (
            DiscoveryIgnoreError::CreateDirectory {
                path: at(),
                source: failure("no"),
            },
            "could not create discovery ignore directory /i: no",
        ),
        (
            DiscoveryIgnoreError::Lock {
                path: at(),
                source: failure("no"),
            },
            "could not lock discovery ignore file /i: no",
        ),
        (
            DiscoveryIgnoreError::Write {
                path: at(),
                source: failure("no"),
            },
            "could not write discovery ignore file /i: no",
        ),
        (
            DiscoveryIgnoreError::Replace {
                path: at(),
                source: failure("no"),
            },
            "could not replace discovery ignore file /i: no",
        ),
        (
            DiscoveryIgnoreError::GitSync(ConfigGitError::OutsideConfigHome {
                path: at(),
                config_home: path("/c"),
            }),
            "discovery ignore file was replaced but its Git synchronization failed: configuration change /i is outside XDG_CONFIG_HOME /c",
        ),
    ] {
        assert_eq!(error.message(), message);
    }
}

#[test]
fn application_errors_say_what_failed() {
    let at = || path("/t");
    for (error, message) in [
        (
            ApplicationError::InvalidInput("odd".to_owned()),
            "invalid input: odd",
        ),
        (
            ApplicationError::UnknownName("a\"b".to_owned()),
            "unknown Command Name \"a\\\"b\"",
        ),
        (
            ApplicationError::Search {
                path: at(),
                source: failure("no"),
            },
            "could not search /t: no",
        ),
        (
            ApplicationError::InspectTarget {
                path: at(),
                source: failure("no"),
            },
            "could not inspect Target /t: no",
        ),
        (
            ApplicationError::InspectManagedPath {
                path: at(),
                source: failure("no"),
            },
            "could not inspect managed path /t: no",
        ),
        (
            ApplicationError::CreateManagedDirectory {
                path: at(),
                source: failure("no"),
            },
            "could not create managed directory /t: no",
        ),
        (
            ApplicationError::CreateManagedLink {
                path: at(),
                source: failure("no"),
            },
            "could not create Managed Link /t: no",
        ),
        (
            ApplicationError::RemoveManagedLink {
                path: at(),
                source: failure("no"),
            },
            "could not remove Managed Link /t: no",
        ),
    ] {
        assert_eq!(error.message(), message);
        assert_eq!(error.identifier(), "operation-failed");
        assert!(error.resulting_registration().is_none());
    }
}

#[test]
fn an_atomic_write_goes_through_its_steps_and_cleans_up() {
    let mut write = AtomicWrite::start();
    let mut steps = Vec::new();
    while write.request() != WriteRequest::Finish {
        steps.push(write.request());
        write = write.advance(Ok(()));
    }
    assert_eq!(
        steps,
        [
            WriteRequest::WriteTemporary,
            WriteRequest::SyncTemporary,
            WriteRequest::Rename,
            WriteRequest::SyncDirectory
        ]
    );
    assert!(write.outcome().unwrap().is_ok());

    for (failing, stage) in [
        (0, WriteStage::Write),
        (1, WriteStage::Sync),
        (2, WriteStage::Replace),
        (3, WriteStage::Directory),
    ] {
        let mut write = AtomicWrite::start();
        for _ in 0..failing {
            write = write.advance(Ok(()));
        }
        write = write.advance(Err(failure("no")));
        assert_eq!(write.request(), WriteRequest::RemoveTemporary);
        write = write.advance(Err(failure("still there")));
        let failed = write.outcome().unwrap().unwrap_err();
        assert_eq!(failed.stage, stage);
        assert_eq!(failed.source.message, "no");
    }
    let mut write = AtomicWrite::start().advance(Err(failure("no")));
    write = write.advance(Err(IoError::new(IoErrorKind::NotFound, "never made")));
    assert_eq!(write.outcome().unwrap().unwrap_err().source.message, "no");
    assert_ne!(
        temporary_path(&path("/d"), "registry", 1, 2),
        temporary_path(&path("/d"), "registry", 1, 3)
    );
    assert!(temporary_path(&path("/d"), "registry", 1, 2).starts_with(&path("/d")));
}

fn output(code: Option<i32>, stdout: &str, stderr: &str) -> GitEvent {
    GitEvent::Output(Ok(GitOutput {
        code,
        status: "signal: 9".to_owned(),
        stdout: stdout.as_bytes().to_vec(),
        stderr: stderr.as_bytes().to_vec(),
    }))
}

fn synchronize(answers: Vec<GitEvent>) -> Result<(), String> {
    let environment = environment(&[("XDG_CONFIG_HOME", "/c")]);
    let mut sync = commit_and_push(path("/c/bintui/registry.toml"), &environment);
    let mut answers = answers.into_iter();
    loop {
        let event = match sync.request() {
            GitRequest::Resolve(path) => GitEvent::Resolved(Some(path)),
            GitRequest::Exists(at) => GitEvent::Exists(at == path("/c/.git")),
            GitRequest::Run { .. } => answers.next().unwrap(),
            GitRequest::Finish => {
                return sync.outcome().unwrap().map_err(|error| error.message())
            }
        };
        sync = sync.advance(event);
    }
}

#[test]
fn a_failed_git_command_is_quoted() {
    assert_eq!(
        synchronize(vec![output(Some(1), "", " broken \n")]).unwrap_err(),
        "git failed while staging the bintui change in /c: broken"
    );
    assert_eq!(
        synchronize(vec![output(Some(0), "", ""), output(None, "said\n", "")]).unwrap_err(),
        "git failed while checking the staged bintui change in /c: said"
    );
    assert_eq!(
        synchronize(vec![
            output(Some(0), "", ""),
            output(Some(1), "", ""),
            output(Some(3), " ", "")
        ])
        .unwrap_err(),
        "git failed while committing the bintui change in /c: git exited with signal: 9"
    );
    assert_eq!(
        synchronize(vec![GitEvent::Output(Err(failure("no git")))]).unwrap_err(),
        "could not run git while staging the bintui change in /c: no git"
    );
    assert!(synchronize(vec![output(Some(0), "", ""), output(Some(0), "", "")]).is_ok());
}

fn state(name: &str, defect: Option<RegistrationDefectKind>) -> RegistrationState {
    RegistrationState {
        registration: registration(name, "/project/tool", true),
        managed_link: path("/managed").join_text(name),
        actual: ManagedPathKind::Missing,
        observed_link_target: None,
        defect: defect.map(|kind| RegistrationDefect {
            kind,
            message: "look at it".to_owned(),
        }),
    }
}

fn blocked(registration: Option<RegistrationState>, conflict: Option<&str>) -> LifecycleResult {
    LifecycleResult {
        status: LifecycleStatus::Blocked,
        identifier: "blocked".to_owned(),
        registration,
        conflict: conflict.map(str::to_owned),
    }
}

fn failed(result: OperationResult) -> OperationError {
    match result {
        OperationResult::Mutation(Err(error)) => error,
        _ => panic!("the mutation failed"),
    }
}

#[test]
fn a_blocked_mutation_counts_as_failed() {
    let conflict = failed(mutation_result(Ok(blocked(None, Some("occupied")))));
    assert_eq!(conflict.message, "occupied");
    assert_eq!(conflict.registration_name, None);
    let defect = failed(mutation_result(Ok(blocked(
        Some(state("tool", Some(RegistrationDefectKind::LinkMissing))),
        None,
    ))));
    assert_eq!(
        defect.message,
        "Registration tool actual=missing defect=link-missing; next safe action: look at it"
    );
    assert_eq!(defect.registration_name.as_deref(), Some("tool"));
    let bare = failed(mutation_result(Ok(blocked(None, None))));
    assert_eq!(
        bare.message,
        "Registration operation is blocked; inspect it and retry"
    );
    let error = failed(mutation_result(Err(ApplicationError::Mutation {
        identifier: "enable-failed",
        message: "no".to_owned(),
        resulting_registration: Some(state("tool", Some(RegistrationDefectKind::Conflict))),
    })));
    assert_eq!(error.identifier, "enable-failed");
    assert_eq!(
        error.message,
        "no; Registration tool actual=missing defect=conflict; next safe action: look at it"
    );
    assert_eq!(
        reported::<()>(Err(ApplicationError::InvalidInput("odd".to_owned())))
            .unwrap_err()
            .identifier,
        "operation-failed"
    );
    assert_eq!(reported(Ok(3)).unwrap(), 3);
}

#[test]
fn requests_become_operations() {
    assert!(matches!(
        execute_request(Request::Search(path("/project"))),
        Operation::Search(_)
    ));
    assert!(matches!(execute_request(Request::List), Operation::List(_)));
    assert!(matches!(
        execute_request(Request::ValidateAdd {
            target: path("/project/tool"),
            name: "tool".to_owned()
        }),
        Operation::Validation(_)
    ));
    for request in [
        Request::Add {
            target: path("/project/tool"),
            name: "tool".to_owned(),
        },
        Request::Remove("tool".to_owned()),
        Request::Enable("tool".to_owned()),
        Request::Disable("tool".to_owned()),
        Request::Rename {
            name: "tool".to_owned(),
            new_name: "other".to_owned(),
        },
    ] {
        assert!(request.is_mutation());
        assert!(matches!(execute_request(request), Operation::Mutation(_)));
    }
    assert!(matches!(
        execute_request(Request::Ignore(path("/project/tool"))),
        Operation::Ignore(target) if target == path("/project/tool")
    ));
    let Operation::Mutation(refused) = execute_request(Request::Enable("a/b".to_owned())) else {
        panic!("enabling is a mutation")
    };
    assert!(matches!(
        refused.request(&environment(&[])),
        bintui::lifecycle::Request::ReadConfiguration(_) | bintui::lifecycle::Request::Finish
    ));
}

fn search(names: &[&str]) -> OperationResult {
    OperationResult::Search(Ok(SearchResult {
        status: SearchStatus::Healthy,
        search_root: path("/project"),
        candidates: names
            .iter()
            .map(|name| Candidate {
                proposed_name: (*name).to_owned(),
                target: path("/project").join_text(name),
                registration: None,
                conflict: None,
            })
            .collect(),
        warnings: Vec::new(),
    }))
}

fn discovering(names: &[&str]) -> Controller {
    let mut controller = Controller::new(path("/project"));
    controller.take_request();
    controller.complete(search(names));
    controller
}

#[test]
fn moving_back_returns_to_the_same_entry_around_the_ends() {
    let mut controller = discovering(&["a", "b", "c"]);
    for (event, back, there) in [(Event::Up, Event::Down, 2), (Event::Down, Event::Up, 1)] {
        controller.handle(event);
        assert_eq!(controller.active_list().focus, there);
        controller.handle(back);
        assert_eq!(controller.active_list().focus, 0);
    }
}

#[test]
fn a_reload_keeps_the_focus_on_an_entry() {
    let mut controller = discovering(&["a", "b", "c"]);
    controller.handle(Event::Up);
    controller.complete(search(&["a"]));
    assert_eq!(controller.active_list().focus, 0);
    controller.complete(search(&[]));
    assert!(controller.focused().is_none());
}

#[test]
fn one_change_runs_at_a_time() {
    let mut controller = discovering(&["a", "b"]);
    controller.handle(Event::Delete);
    assert_eq!(
        controller.take_request(),
        Some(Request::Ignore(path("/project/a")))
    );
    controller.handle(Event::Toggle);
    controller.handle(Event::Delete);
    assert_eq!(controller.take_request(), None);
}

#[test]
fn a_dialog_takes_back_what_was_typed() {
    let mut controller = discovering(&["a"]);
    controller.handle(Event::Rename);
    let before = controller.semantic_state(80, 24).dialog;
    controller.handle(Event::Text("x".to_owned()));
    assert_ne!(controller.semantic_state(80, 24).dialog, before);
    controller.handle(Event::Backspace);
    assert_eq!(controller.semantic_state(80, 24).dialog, before);
    assert_eq!(
        before.as_deref(),
        Some("Edit Command Name (a)\na")
    );
}

#[test]
fn an_empty_filter_result_quotes_the_filter() {
    let mut controller = discovering(&["Alpha"]);
    controller.handle(Event::StartFilter);
    controller.handle(Event::Text("x\"".to_owned()));
    assert_eq!(
        controller.semantic_state(80, 24).empty_message.as_deref(),
        Some("No matches for \"x\\\"\"")
    );
}

fn listing(states: Vec<RegistrationState>) -> OperationResult {
    OperationResult::List(Ok(ListResult {
        status: LifecycleStatus::Healthy,
        identifier: "registrations-listed".to_owned(),
        registrations: states,
    }))
}

fn changed(identifier: &str, registration: Option<RegistrationState>) -> OperationResult {
    OperationResult::Mutation(Ok(LifecycleResult {
        status: LifecycleStatus::Healthy,
        identifier: identifier.to_owned(),
        registration,
        conflict: None,
    }))
}

fn listed_names(controller: &Controller) -> Vec<String> {
    controller
        .semantic_state(80, 24)
        .items
        .into_iter()
        .map(|item| item.name)
        .collect()
}

#[test]
fn registrations_are_sorted_anew_after_a_change() {
    let mut controller = Controller::new(path("/project"));
    controller.handle(Event::SwitchView);
    controller.take_request();
    controller.complete(listing(vec![state("b", None), state("d", None)]));
    controller.complete(changed("registration-renamed", Some(state("a", None))));
    assert_eq!(controller.take_request(), Some(Request::List));
    controller.complete(listing(vec![state("d", None), state("a", None)]));
    assert_eq!(listed_names(&controller), ["a", "d"]);
    controller.complete(OperationResult::Mutation(Err(OperationError::new(
        "mutation-failed",
        "no",
    ))));
    let missing = state("d", Some(RegistrationDefectKind::TargetMissing));
    controller.complete(listing(vec![state("a", None), missing]));
    assert_eq!(listed_names(&controller), ["d", "a"]);
}

#[test]
fn a_disabled_broken_registration_keeps_its_place_once() {
    let broken = |name: &str| state(name, Some(RegistrationDefectKind::LinkBroken));
    let mut controller = Controller::new(path("/project"));
    controller.handle(Event::SwitchView);
    controller.take_request();
    controller.complete(listing(vec![state("a", None), broken("y"), broken("z")]));
    assert_eq!(listed_names(&controller), ["y", "z", "a"]);
    controller.complete(changed("registration-disabled", Some(state("z", None))));
    let after = || vec![state("z", None), state("a", None), broken("y")];
    controller.complete(listing(after()));
    assert_eq!(listed_names(&controller), ["y", "z", "a"]);
    controller.complete(listing(after()));
    assert_eq!(listed_names(&controller), ["y", "a", "z"]);
}

#[test]
fn a_disabled_healthy_registration_is_sorted_anew() {
    let mut controller = Controller::new(path("/project"));
    controller.handle(Event::SwitchView);
    controller.take_request();
    let missing = || state("y", Some(RegistrationDefectKind::LinkMissing));
    controller.complete(listing(vec![state("a", None), missing()]));
    assert_eq!(listed_names(&controller), ["y", "a"]);
    controller.complete(changed("registration-disabled", Some(state("y", None))));
    controller.complete(listing(vec![state("y", None), state("a", None)]));
    assert_eq!(listed_names(&controller), ["a", "y"]);
}

#[test]
fn warnings_and_paths_are_shown_as_they_resolve() {
    let mut controller = Controller::with_roots(
        path("/project"),
        path("/home/me"),
        vec![bintui::model::DisplayRoot {
            named: bintui::configuration::NamedRoot {
                name: "work".to_owned(),
                root: path("/link"),
            },
            canonical: path("/real"),
        }],
    );
    controller.resolve(vec![CanonicalPath {
        path: path("/x/tool"),
        canonical: path("/real/tool"),
    }]);
    assert_eq!(controller.display_path(&path("/x/tool")), "[work]/tool");
    assert_eq!(controller.display_path(&path("/home/me/y")), "~/y");
    controller.warn_of_path(&PathDiagnostic {
        status: PathStatus::Missing,
        identifier: "managed-bin-not-on-path".to_owned(),
        bin_dir: path("/home/me/bin"),
        matches: 0,
        guidance: "add it".to_owned(),
    });
    controller.complete(OperationResult::Search(Ok(SearchResult {
        status: SearchStatus::Healthy,
        search_root: path("/project"),
        candidates: Vec::new(),
        warnings: vec![SearchWarning {
            kind: WarningKind::UnreadablePath,
            path: path("/x/tool"),
            message: "no".to_owned(),
        }],
    })));
    assert_eq!(
        controller.semantic_state(80, 24).notice.as_deref(),
        Some(
            "warning[managed-bin-not-on-path]: add it; warning[unreadable-path]: [work]/tool: no"
        )
    );
}

#[test]
fn a_request_to_add_can_be_kept() {
    let request = AddRequest {
        target: path("/project/tool"),
        name: Some("tool".to_owned()),
        disabled: true,
    };
    let kept = request.clone();
    assert_eq!(kept.target, path("/project/tool"));
    assert_eq!(kept.name.as_deref(), Some("tool"));
    assert!(kept.disabled);
}

#[test]
fn targets_are_spelled_relative_to_home() {
    let home = path("/home/me");
    let spelled = |target: &str| registry::stored_target_path(&path(target), &home).unwrap();
    assert_eq!(spelled("/home/me"), "~");
    assert_eq!(spelled("/home/me/bin/tool"), "~/bin/tool");
    assert_eq!(spelled("/home/mercury"), "/home/mercury");
    assert_eq!(
        registry::stored_target_path(&path("/opt/tool"), &PathBuf::from_bytes(vec![47, 255]))
            .unwrap(),
        "/opt/tool"
    );
    for target in ["/home/me", "/home/me/bin/tool", "/home/mercury", "/opt/tool"] {
        let back = configuration::expand_path(&spelled(target), &environment(&[])).unwrap();
        assert_eq!(back.as_bytes(), target.as_bytes());
    }
}

#[test]
fn ignoring_a_path_again_leaves_the_list() {
    let environment = environment(&[]);
    let target = path("/project/./tool");
    let advance = |read: FileRead<IgnoreFile>| {
        match discovery_ignore::advance(
            IgnorePhase::Reading,
            discovery_ignore::IgnoreEvent::Read(read),
            &target,
            &environment,
        ) {
            IgnorePhase::Writing(file) => file.paths,
            other => panic!("unexpected phase: {other:?}"),
        }
    };
    let parsed = |paths: &[String]| {
        FileRead::Parsed(IgnoreFile {
            version: 1,
            paths: paths.to_vec(),
        })
    };
    let once = advance(parsed(&["/z".to_owned(), "/a".to_owned()]));
    assert_eq!(once, ["/a", "/project/tool", "/z"]);
    assert_eq!(advance(parsed(&once)), once);
}

#[test]
fn commands_end_with_the_status_of_their_outcome() {
    assert_eq!(exit_code(Ending::Reported(LifecycleStatus::Healthy)), 0);
    assert_eq!(exit_code(Ending::Reported(LifecycleStatus::Blocked)), 1);
    assert_eq!(exit_code(Ending::Searched(SearchStatus::Healthy)), 0);
    assert_eq!(exit_code(Ending::Searched(SearchStatus::Blocked)), 1);
    assert_eq!(exit_code(Ending::Done), 0);
    assert_eq!(exit_code(Ending::Failed), 2);
    assert_eq!(result_line("target-ignored"), "Result: target-ignored");
    let outcome = Ok(blocked(None, None));
    assert_eq!(operation_ending(&outcome), Ending::Reported(LifecycleStatus::Blocked));
    let listed = Ok(ListResult {
        status: LifecycleStatus::Healthy,
        identifier: "registrations-listed".to_owned(),
        registrations: Vec::new(),
    });
    assert_eq!(list_ending(&listed), Ending::Reported(LifecycleStatus::Healthy));
    let searched = Ok(SearchResult {
        status: SearchStatus::Blocked,
        search_root: path("/project"),
        candidates: Vec::new(),
        warnings: Vec::new(),
    });
    assert_eq!(search_ending(&searched), Ending::Searched(SearchStatus::Blocked));
    let unknown = || ApplicationError::UnknownName("tool".to_owned());
    assert_eq!(operation_ending(&Err(unknown())), Ending::Failed);
    assert_eq!(list_ending(&Err(unknown())), Ending::Failed);
    assert_eq!(search_ending(&Err(unknown())), Ending::Failed);
    assert_eq!(plain_ending::<i32, i32>(&Ok(1)), Ending::Done);
    assert_eq!(plain_ending::<i32, i32>(&Err(1)), Ending::Failed);
}

#[test]
fn messages_lose_the_white_space_around_them() {
    let white: Vec<u32> = ('\0'..=char::MAX)
        .filter(|c| c.is_whitespace())
        .map(|c| c as u32)
        .collect();
    let mut expected: Vec<u32> = (0x9..=0xd).collect();
    expected.extend([0x20, 0x85, 0xa0, 0x1680]);
    expected.extend(0x2000..=0x200a);
    expected.extend([0x2028, 0x2029, 0x202f, 0x205f, 0x3000]);
    assert_eq!(white, expected);
    for c in '\0'..=char::MAX {
        let text = format!("{c}x{c}");
        assert_eq!(text::trimmed(&text), text.trim());
    }
    assert_eq!(text::trimmed(" \t\n"), "");
    assert_eq!(
        synchronize(vec![output(
            Some(1),
            "",
            "\u{3000}\u{85}\t two words\u{200b}\u{a0}\r\n"
        )])
        .unwrap_err(),
        "git failed while staging the bintui change in /c: two words\u{200b}"
    );
}
