//! The paths that discovery leaves out, and the file that keeps them.

use vstd::prelude::*;
use vstd::utf8;

use crate::atomic_write::{WriteFailure, WriteFailureView, WriteStage};
use crate::config_git::{ConfigGitError, ConfigGitErrorView};
use crate::configuration;
use crate::environment::{Environment, EnvironmentView};
use crate::host::{FileRead, FileReadView, IoError, IoErrorView};
use crate::order;
use crate::path;
use crate::path::PathBuf;
use crate::registry;
use crate::text;
use crate::views;

verus! {

#[derive(Debug, PartialEq, Eq)]
pub enum DiscoveryIgnoreError {
    Read { path: PathBuf, source: IoError },
    Invalid { path: PathBuf, message: String },
    CreateDirectory { path: PathBuf, source: IoError },
    Lock { path: PathBuf, source: IoError },
    Write { path: PathBuf, source: IoError },
    Replace { path: PathBuf, source: IoError },
    GitSync(ConfigGitError),
}

#[verifier::ext_equal]
pub enum DiscoveryIgnoreErrorView {
    Read { path: Seq<u8>, source: IoErrorView },
    Invalid { path: Seq<u8>, message: Seq<char> },
    CreateDirectory { path: Seq<u8>, source: IoErrorView },
    Lock { path: Seq<u8>, source: IoErrorView },
    Write { path: Seq<u8>, source: IoErrorView },
    Replace { path: Seq<u8>, source: IoErrorView },
    GitSync(ConfigGitErrorView),
}

impl View for DiscoveryIgnoreError {
    type V = DiscoveryIgnoreErrorView;

    open spec fn view(&self) -> DiscoveryIgnoreErrorView {
        match *self {
            DiscoveryIgnoreError::Read { path, source } => DiscoveryIgnoreErrorView::Read {
                path: path@,
                source: source@,
            },
            DiscoveryIgnoreError::Invalid { path, message } => DiscoveryIgnoreErrorView::Invalid {
                path: path@,
                message: message@,
            },
            DiscoveryIgnoreError::CreateDirectory { path, source } =>
                DiscoveryIgnoreErrorView::CreateDirectory { path: path@, source: source@ },
            DiscoveryIgnoreError::Lock { path, source } => DiscoveryIgnoreErrorView::Lock {
                path: path@,
                source: source@,
            },
            DiscoveryIgnoreError::Write { path, source } => DiscoveryIgnoreErrorView::Write {
                path: path@,
                source: source@,
            },
            DiscoveryIgnoreError::Replace { path, source } => DiscoveryIgnoreErrorView::Replace {
                path: path@,
                source: source@,
            },
            DiscoveryIgnoreError::GitSync(error) => DiscoveryIgnoreErrorView::GitSync(error@),
        }
    }
}

impl DiscoveryIgnoreErrorView {
    /// What the error says.
    pub open spec fn message(self) -> Seq<char> {
        match self {
            DiscoveryIgnoreErrorView::Read { path, source } => registry::path_message(
                "could not read discovery ignore file "@,
                path,
                ": "@,
                source.message,
            ),
            DiscoveryIgnoreErrorView::Invalid { path, message } => registry::path_message(
                "invalid discovery ignore file "@,
                path,
                ": "@,
                message,
            ),
            DiscoveryIgnoreErrorView::CreateDirectory { path, source } => registry::path_message(
                "could not create discovery ignore directory "@,
                path,
                ": "@,
                source.message,
            ),
            DiscoveryIgnoreErrorView::Lock { path, source } => registry::path_message(
                "could not lock discovery ignore file "@,
                path,
                ": "@,
                source.message,
            ),
            DiscoveryIgnoreErrorView::Write { path, source } => registry::path_message(
                "could not write discovery ignore file "@,
                path,
                ": "@,
                source.message,
            ),
            DiscoveryIgnoreErrorView::Replace { path, source } => registry::path_message(
                "could not replace discovery ignore file "@,
                path,
                ": "@,
                source.message,
            ),
            DiscoveryIgnoreErrorView::GitSync(error) =>
                "discovery ignore file was replaced but its Git synchronization failed: "@
                + error.message(),
        }
    }
}

impl DiscoveryIgnoreError {
    /// What the error says.
    pub fn message(&self) -> (r: String)
        ensures
            r@ == self@.message(),
    {
        match self {
            DiscoveryIgnoreError::Read { path, source } => registry::path_message_of(
                "could not read discovery ignore file ",
                path,
                ": ",
                &source.message,
            ),
            DiscoveryIgnoreError::Invalid { path, message } => registry::path_message_of(
                "invalid discovery ignore file ",
                path,
                ": ",
                message,
            ),
            DiscoveryIgnoreError::CreateDirectory { path, source } => registry::path_message_of(
                "could not create discovery ignore directory ",
                path,
                ": ",
                &source.message,
            ),
            DiscoveryIgnoreError::Lock { path, source } => registry::path_message_of(
                "could not lock discovery ignore file ",
                path,
                ": ",
                &source.message,
            ),
            DiscoveryIgnoreError::Write { path, source } => registry::path_message_of(
                "could not write discovery ignore file ",
                path,
                ": ",
                &source.message,
            ),
            DiscoveryIgnoreError::Replace { path, source } => registry::path_message_of(
                "could not replace discovery ignore file ",
                path,
                ": ",
                &source.message,
            ),
            DiscoveryIgnoreError::GitSync(error) => text::joined(
                "discovery ignore file was replaced but its Git synchronization failed: ",
                &error.message(),
            ),
        }
    }
}

/// The contents of a discovery ignore file.
#[derive(Debug, PartialEq, Eq)]
pub struct IgnoreFile {
    pub version: u32,
    pub paths: Vec<String>,
}

#[verifier::ext_equal]
pub struct IgnoreFileView {
    pub version: u32,
    pub paths: Seq<Seq<char>>,
}

impl View for IgnoreFile {
    type V = IgnoreFileView;

    open spec fn view(&self) -> IgnoreFileView {
        IgnoreFileView { version: self.version, paths: views::views(self.paths@) }
    }
}

pub open spec fn path_of(environment: EnvironmentView) -> Seq<u8> {
    path::joined(
        configuration::config_home_of(environment),
        utf8::encode_utf8("bintui/ignore.toml"@),
    )
}

pub open spec fn lock_path_of(environment: EnvironmentView) -> Seq<u8> {
    path::joined(registry::registry_directory_of(environment), utf8::encode_utf8("ignore.lock"@))
}

/// The discovery ignore file.
pub fn path(environment: &Environment) -> (r: PathBuf)
    ensures
        r@ == path_of(environment@),
{
    configuration::config_home(environment).join_text("bintui/ignore.toml")
}

pub fn lock_path(environment: &Environment) -> (r: PathBuf)
    ensures
        r@ == lock_path_of(environment@),
{
    registry::registry_directory(environment).join_text("ignore.lock")
}

/// Paths are ordered by their components.
pub open spec fn ignored_order() -> spec_fn(Seq<u8>, Seq<u8>) -> bool {
    |a: Seq<u8>, b: Seq<u8>| path::path_order()(path::components(a), path::components(b))
}

/// Some path of a list is this path.
pub open spec fn listed(paths: Seq<Seq<u8>>, p: Seq<u8>) -> bool {
    exists|i: int|
        0 <= i < paths.len() && path::components(#[trigger] paths[i]) == path::components(p)
}

/// A list in order with one more path, unless it is already there.
pub open spec fn with_path(paths: Seq<Seq<u8>>, p: Seq<u8>) -> Seq<Seq<u8>> {
    if listed(paths, p) {
        paths
    } else {
        order::placed(paths, p, ignored_order())
    }
}

/// Paths in order, without repetition.
pub open spec fn path_set(paths: Seq<Seq<u8>>) -> Seq<Seq<u8>>
    decreases paths.len(),
{
    if paths.len() == 0 {
        paths
    } else {
        with_path(path_set(paths.drop_last()), paths.last())
    }
}

/// Whether a path is on a list.
pub fn contains(paths: &Vec<PathBuf>, p: &PathBuf) -> (r: bool)
    ensures
        r == listed(views::views(paths@), p@),
{
    let ghost all = views::views(paths@);
    let mut i: usize = 0;
    while i < paths.len()
        invariant
            i <= paths@.len(),
            all == views::views(paths@),
            forall|j: int|
                0 <= j < i ==> path::components(#[trigger] all[j]) != path::components(p@),
        decreases paths.len() - i,
    {
        if paths[i].same(p) {
            assert(path::components(all[i as int]) == path::components(p@));
            return true;
        }
        assert(all[i as int] == paths@[i as int]@);
        i = i + 1;
    }
    false
}

fn insert(paths: &mut Vec<PathBuf>, p: PathBuf)
    ensures
        views::views(final(paths)@) == with_path(views::views(old(paths)@), p@),
{
    if contains(paths, &p) {
        return;
    }
    let ghost before = views::views(paths@);
    let ghost value = p@;
    let mut i: usize = 0;
    while i < paths.len() && paths[i].less(&p)
        invariant
            i <= paths@.len(),
            before == views::views(paths@),
            value == p@,
            forall|j: int| 0 <= j < i ==> ignored_order()(#[trigger] before[j], value),
        decreases paths.len() - i,
    {
        assert(before[i as int] == paths@[i as int]@);
        i = i + 1;
    }
    proof {
        if i < paths@.len() {
            assert(before[i as int] == paths@[i as int]@);
        }
        order::placed_at(before, value, ignored_order(), i as int);
    }
    paths.insert(i, p);
    assert(views::views(paths@) =~= before.insert(i as int, value));
}

/// The path that an entry of the file stands for.
pub open spec fn read_path(value: Seq<char>) -> Result<Seq<u8>, Seq<char>> {
    if value.len() == 0 || !path::absolute(utf8::encode_utf8(value)) {
        Err("ignored path must be a non-empty absolute path: "@ + text::quoted_text(value))
    } else {
        Ok(path::normalized(utf8::encode_utf8(value)))
    }
}

pub open spec fn path_reader() -> spec_fn(Seq<char>) -> Result<Seq<u8>, Seq<char>> {
    |value: Seq<char>| read_path(value)
}

/// The ignored paths of an environment whose discovery ignore file was read with this outcome.
pub open spec fn loaded(
    environment: EnvironmentView,
    read: FileReadView<IgnoreFileView>,
) -> Result<Seq<Seq<u8>>, DiscoveryIgnoreErrorView> {
    let path = path_of(environment);
    match read {
        FileReadView::Missing => Ok(Seq::empty()),
        FileReadView::Unreadable(source) => Err(DiscoveryIgnoreErrorView::Read { path, source }),
        FileReadView::Malformed(message) => Err(
            DiscoveryIgnoreErrorView::Invalid { path, message },
        ),
        FileReadView::Parsed(file) => if file.version != 1 {
            Err(
                DiscoveryIgnoreErrorView::Invalid {
                    path,
                    message: "unsupported discovery ignore version "@ + text::decimal(
                        file.version as nat,
                    ) + "; expected 1"@,
                },
            )
        } else {
            match views::collected(file.paths, path_reader()) {
                Ok(paths) => Ok(path_set(paths)),
                Err(message) => Err(DiscoveryIgnoreErrorView::Invalid { path, message }),
            }
        },
    }
}

/// The ignored paths of an environment, given the outcome of reading its discovery ignore file.
pub fn load(environment: &Environment, read: FileRead<IgnoreFile>) -> (r: Result<
    Vec<PathBuf>,
    DiscoveryIgnoreError,
>)
    ensures
        match loaded(environment@, read@) {
            Ok(paths) => r is Ok && views::views(r->Ok_0@) == paths,
            Err(error) => r is Err && r->Err_0@ == error,
        },
{
    let file_path = path(environment);
    let file = match read {
        FileRead::Missing => {
            let none: Vec<PathBuf> = Vec::new();
            assert(views::views(none@) =~= Seq::empty());
            return Ok(none);
        },
        FileRead::Unreadable(source) => {
            return Err(DiscoveryIgnoreError::Read { path: file_path, source });
        },
        FileRead::Malformed(message) => {
            return Err(DiscoveryIgnoreError::Invalid { path: file_path, message });
        },
        FileRead::Parsed(file) => file,
    };
    if file.version != 1 {
        return Err(
            DiscoveryIgnoreError::Invalid {
                path: file_path,
                message: text::joined3(
                    "unsupported discovery ignore version ",
                    &text::decimal_of(file.version as u128),
                    "; expected 1",
                ),
            },
        );
    }
    let ghost values = views::views(file.paths@);
    let ghost reader = path_reader();
    let mut paths: Vec<PathBuf> = Vec::new();
    let mut i: usize = 0;
    let ghost mut seen: Seq<Seq<u8>> = Seq::empty();
    proof {
        views::collected_of_none(values, reader);
    }
    assert(views::views(paths@) =~= Seq::empty());
    while i < file.paths.len()
        invariant
            i <= file.paths@.len(),
            values == views::views(file.paths@),
            reader == path_reader(),
            read@ == FileReadView::Parsed(file@),
            file.version == 1,
            file_path@ == path_of(environment@),
            views::collected(values.take(i as int), reader) == Ok::<Seq<Seq<u8>>, Seq<char>>(seen),
            views::views(paths@) == path_set(seen),
        decreases file.paths.len() - i,
    {
        proof {
            views::collected_step(values, reader, i as int);
        }
        let ignored = PathBuf::from_text(&file.paths[i]);
        if file.paths[i].as_str().is_empty() || !ignored.is_absolute() {
            return Err(
                DiscoveryIgnoreError::Invalid {
                    path: file_path,
                    message: text::joined(
                        "ignored path must be a non-empty absolute path: ",
                        &text::quoted(&file.paths[i]),
                    ),
                },
            );
        }
        let normalized = ignored.normalize();
        proof {
            assert(seen.push(normalized@).drop_last() =~= seen);
            seen = seen.push(normalized@);
        }
        insert(&mut paths, normalized);
        i = i + 1;
    }
    assert(values.take(i as int) =~= values);
    Ok(paths)
}

pub open spec fn not_utf8(p: Seq<u8>) -> Seq<char> {
    "ignored path must be valid UTF-8: "@ + text::lossy_text(p)
}

pub open spec fn path_speller() -> spec_fn(Seq<u8>) -> Result<Seq<char>, Seq<char>> {
    |p: Seq<u8>|
        if utf8::valid_utf8(p) {
            Ok(utf8::decode_utf8(p))
        } else {
            Err(not_utf8(p))
        }
}

/// The file that spells some paths.
pub open spec fn stored(paths: Seq<Seq<u8>>, environment: EnvironmentView) -> Result<
    IgnoreFileView,
    DiscoveryIgnoreErrorView,
> {
    match views::collected(paths, path_speller()) {
        Ok(values) => Ok(IgnoreFileView { version: 1, paths: values }),
        Err(message) => Err(
            DiscoveryIgnoreErrorView::Invalid { path: path_of(environment), message },
        ),
    }
}

/// The file that spells some paths.
pub fn store(paths: &Vec<PathBuf>, environment: &Environment) -> (r: Result<
    IgnoreFile,
    DiscoveryIgnoreError,
>)
    ensures
        match stored(views::views(paths@), environment@) {
            Ok(file) => r is Ok && r->Ok_0@ == file,
            Err(error) => r is Err && r->Err_0@ == error,
        },
{
    let ghost all = views::views(paths@);
    let ghost spell = path_speller();
    let mut values: Vec<String> = Vec::new();
    let mut i: usize = 0;
    proof {
        views::collected_of_none(all, spell);
    }
    assert(views::views(values@) =~= Seq::empty());
    while i < paths.len()
        invariant
            i <= paths@.len(),
            all == views::views(paths@),
            spell == path_speller(),
            views::collected(all.take(i as int), spell) == Ok::<Seq<Seq<char>>, Seq<char>>(
                views::views(values@),
            ),
        decreases paths.len() - i,
    {
        proof {
            views::collected_step(all, spell, i as int);
        }
        match paths[i].to_text() {
            None => {
                return Err(
                    DiscoveryIgnoreError::Invalid {
                        path: path(environment),
                        message: text::joined(
                            "ignored path must be valid UTF-8: ",
                            &paths[i].display(),
                        ),
                    },
                );
            },
            Some(value) => {
                let ghost before = values@;
                values.push(value);
                assert(views::views(values@) =~= views::views(before).push(value@));
            },
        }
        i = i + 1;
    }
    assert(all.take(i as int) =~= all);
    let file = IgnoreFile { version: 1, paths: values };
    assert(file@.paths =~= views::views(values@));
    Ok(file)
}

/// What a failed write of the discovery ignore file means.
pub open spec fn write_error(
    failure: WriteFailureView,
    temporary: Seq<u8>,
    path: Seq<u8>,
) -> DiscoveryIgnoreErrorView {
    let source = failure.source;
    match failure.stage {
        WriteStage::Write => DiscoveryIgnoreErrorView::Write { path: temporary, source },
        WriteStage::Sync => DiscoveryIgnoreErrorView::Write { path: temporary, source },
        WriteStage::Replace => DiscoveryIgnoreErrorView::Replace { path, source },
        WriteStage::Directory => DiscoveryIgnoreErrorView::Write { path, source },
    }
}

/// What a failed write of the discovery ignore file means.
pub fn write_failed(failure: WriteFailure, temporary: PathBuf, path: PathBuf) -> (r:
    DiscoveryIgnoreError)
    ensures
        r@ == write_error(failure@, temporary@, path@),
{
    let source = failure.source;
    match failure.stage {
        WriteStage::Write => DiscoveryIgnoreError::Write { path: temporary, source },
        WriteStage::Sync => DiscoveryIgnoreError::Write { path: temporary, source },
        WriteStage::Replace => DiscoveryIgnoreError::Replace { path, source },
        WriteStage::Directory => DiscoveryIgnoreError::Write { path, source },
    }
}

/// Where the addition of an ignored path stands.
#[derive(Debug)]
pub enum IgnorePhase {
    CreatingDirectory,
    Locking,
    Reading,
    Writing(IgnoreFile),
    Synchronizing,
    Finished(Result<(), DiscoveryIgnoreError>),
}

#[verifier::ext_equal]
pub enum IgnorePhaseView {
    CreatingDirectory,
    Locking,
    Reading,
    Writing(IgnoreFileView),
    Synchronizing,
    Finished(Result<(), DiscoveryIgnoreErrorView>),
}

impl View for IgnorePhase {
    type V = IgnorePhaseView;

    open spec fn view(&self) -> IgnorePhaseView {
        match *self {
            IgnorePhase::CreatingDirectory => IgnorePhaseView::CreatingDirectory,
            IgnorePhase::Locking => IgnorePhaseView::Locking,
            IgnorePhase::Reading => IgnorePhaseView::Reading,
            IgnorePhase::Writing(file) => IgnorePhaseView::Writing(file@),
            IgnorePhase::Synchronizing => IgnorePhaseView::Synchronizing,
            IgnorePhase::Finished(outcome) => IgnorePhaseView::Finished(
                match outcome {
                    Ok(_) => Ok(()),
                    Err(error) => Err(error@),
                },
            ),
        }
    }
}

/// What the host reports while a path is added.
#[derive(Debug)]
pub enum IgnoreEvent {
    Done(Result<(), IoError>),
    Read(FileRead<IgnoreFile>),
    /// The outcome of an atomic write, and the temporary file that it used.
    Written(Result<(), WriteFailure>, PathBuf),
    Synchronized(Result<(), ConfigGitError>),
}

#[verifier::ext_equal]
pub enum IgnoreEventView {
    Done(Result<(), IoErrorView>),
    Read(FileReadView<IgnoreFileView>),
    Written(Result<(), WriteFailureView>, Seq<u8>),
    Synchronized(Result<(), ConfigGitErrorView>),
}

pub open spec fn unit_view<E: View>(r: Result<(), E>) -> Result<(), E::V> {
    match r {
        Ok(_) => Ok(()),
        Err(e) => Err(e@),
    }
}

impl View for IgnoreEvent {
    type V = IgnoreEventView;

    open spec fn view(&self) -> IgnoreEventView {
        match *self {
            IgnoreEvent::Done(outcome) => IgnoreEventView::Done(unit_view(outcome)),
            IgnoreEvent::Read(read) => IgnoreEventView::Read(read@),
            IgnoreEvent::Written(outcome, temporary) => IgnoreEventView::Written(
                unit_view(outcome),
                temporary@,
            ),
            IgnoreEvent::Synchronized(outcome) => IgnoreEventView::Synchronized(
                unit_view(outcome),
            ),
        }
    }
}

pub open spec fn ignore_failed(error: DiscoveryIgnoreErrorView) -> IgnorePhaseView {
    IgnorePhaseView::Finished(Err(error))
}

/// Where the addition of a path begins: nothing is touched for a path that cannot be kept.
pub open spec fn add_begins(target: Seq<u8>, environment: EnvironmentView) -> IgnorePhaseView {
    let p = path::normalized(target);
    if !path::absolute(p) {
        ignore_failed(
            DiscoveryIgnoreErrorView::Invalid {
                path: path_of(environment),
                message: "ignored path must be absolute: "@ + text::lossy_text(p),
            },
        )
    } else if !utf8::valid_utf8(p) {
        ignore_failed(
            DiscoveryIgnoreErrorView::Invalid {
                path: path_of(environment),
                message: not_utf8(p),
            },
        )
    } else {
        IgnorePhaseView::CreatingDirectory
    }
}

/// The next phase once the host has reported; a report that was not asked for changes nothing.
pub open spec fn add_advances(
    phase: IgnorePhaseView,
    event: IgnoreEventView,
    target: Seq<u8>,
    environment: EnvironmentView,
) -> IgnorePhaseView {
    match (phase, event) {
        (IgnorePhaseView::CreatingDirectory, IgnoreEventView::Done(outcome)) => match outcome {
            Ok(_) => IgnorePhaseView::Locking,
            Err(source) => ignore_failed(
                DiscoveryIgnoreErrorView::CreateDirectory {
                    path: registry::registry_directory_of(environment),
                    source,
                },
            ),
        },
        (IgnorePhaseView::Locking, IgnoreEventView::Done(outcome)) => match outcome {
            Ok(_) => IgnorePhaseView::Reading,
            Err(source) => ignore_failed(
                DiscoveryIgnoreErrorView::Lock { path: lock_path_of(environment), source },
            ),
        },
        (IgnorePhaseView::Reading, IgnoreEventView::Read(read)) => match loaded(
            environment,
            read,
        ) {
            Err(error) => ignore_failed(error),
            Ok(paths) => match stored(with_path(paths, path::normalized(target)), environment) {
                Err(error) => ignore_failed(error),
                Ok(file) => IgnorePhaseView::Writing(file),
            },
        },
        (IgnorePhaseView::Writing(_), IgnoreEventView::Written(outcome, temporary)) => match outcome {
            Ok(_) => IgnorePhaseView::Synchronizing,
            Err(failure) => ignore_failed(
                write_error(failure, temporary, path_of(environment)),
            ),
        },
        (IgnorePhaseView::Synchronizing, IgnoreEventView::Synchronized(outcome)) => match outcome {
            Ok(_) => IgnorePhaseView::Finished(Ok(())),
            Err(error) => ignore_failed(DiscoveryIgnoreErrorView::GitSync(error)),
        },
        _ => phase,
    }
}

/// Begins to add a path to the ones that discovery leaves out.
pub fn add(target: &PathBuf, environment: &Environment) -> (r: IgnorePhase)
    ensures
        r@ == add_begins(target@, environment@),
{
    let p = target.normalize();
    if !p.is_absolute() {
        return IgnorePhase::Finished(
            Err(
                DiscoveryIgnoreError::Invalid {
                    path: path(environment),
                    message: text::joined("ignored path must be absolute: ", &p.display()),
                },
            ),
        );
    }
    if p.to_text().is_none() {
        return IgnorePhase::Finished(
            Err(
                DiscoveryIgnoreError::Invalid {
                    path: path(environment),
                    message: text::joined("ignored path must be valid UTF-8: ", &p.display()),
                },
            ),
        );
    }
    IgnorePhase::CreatingDirectory
}

/// The next phase once the host has reported; a report that was not asked for changes nothing.
pub fn advance(
    phase: IgnorePhase,
    event: IgnoreEvent,
    target: &PathBuf,
    environment: &Environment,
) -> (r: IgnorePhase)
    ensures
        r@ == add_advances(phase@, event@, target@, environment@),
{
    match (phase, event) {
        (IgnorePhase::CreatingDirectory, IgnoreEvent::Done(outcome)) => match outcome {
            Ok(_) => IgnorePhase::Locking,
            Err(source) => IgnorePhase::Finished(
                Err(
                    DiscoveryIgnoreError::CreateDirectory {
                        path: registry::registry_directory(environment),
                        source,
                    },
                ),
            ),
        },
        (IgnorePhase::Locking, IgnoreEvent::Done(outcome)) => match outcome {
            Ok(_) => IgnorePhase::Reading,
            Err(source) => IgnorePhase::Finished(
                Err(DiscoveryIgnoreError::Lock { path: lock_path(environment), source }),
            ),
        },
        (IgnorePhase::Reading, IgnoreEvent::Read(read)) => match load(environment, read) {
            Err(error) => IgnorePhase::Finished(Err(error)),
            Ok(paths) => {
                let mut paths = paths;
                insert(&mut paths, target.normalize());
                match store(&paths, environment) {
                    Err(error) => IgnorePhase::Finished(Err(error)),
                    Ok(file) => IgnorePhase::Writing(file),
                }
            },
        },
        (IgnorePhase::Writing(_), IgnoreEvent::Written(outcome, temporary)) => match outcome {
            Ok(_) => IgnorePhase::Synchronizing,
            Err(failure) => IgnorePhase::Finished(
                Err(write_failed(failure, temporary, path(environment))),
            ),
        },
        (IgnorePhase::Synchronizing, IgnoreEvent::Synchronized(outcome)) => match outcome {
            Ok(_) => IgnorePhase::Finished(Ok(())),
            Err(error) => IgnorePhase::Finished(Err(DiscoveryIgnoreError::GitSync(error))),
        },
        (phase, _) => phase,
    }
}

/// A path list has the paths that it was made of, and no other.
pub proof fn path_set_members(paths: Seq<Seq<u8>>, p: Seq<u8>)
    ensures
        listed(path_set(paths), p) <==> listed(paths, p),
    decreases paths.len(),
{
    if paths.len() > 0 {
        let before = paths.drop_last();
        path_set_members(before, p);
        added_path_members(path_set(before), paths.last(), p);
        assert(forall|i: int| 0 <= i < before.len() ==> before[i] == #[trigger] paths[i]);
        if listed(before, p) {
            let i = choose|i: int|
                0 <= i < before.len() && path::components(#[trigger] before[i])
                    == path::components(p);
            assert(path::components(paths[i]) == path::components(p));
        }
        if path::components(paths.last()) == path::components(p) {
            assert(path::components(paths[paths.len() - 1]) == path::components(p));
        }
        if listed(paths, p) {
            let i = choose|i: int|
                0 <= i < paths.len() && path::components(#[trigger] paths[i])
                    == path::components(p);
            if i < before.len() {
                assert(path::components(before[i]) == path::components(p));
            }
        }
    }
}

/// Adding a path keeps those that are there.
pub proof fn added_path_members(paths: Seq<Seq<u8>>, added: Seq<u8>, p: Seq<u8>)
    ensures
        listed(with_path(paths, added), p) <==> listed(paths, p) || path::components(added)
            == path::components(p),
{
    let after = with_path(paths, added);
    if listed(paths, added) {
        if path::components(added) == path::components(p) {
            let i = choose|i: int|
                0 <= i < paths.len() && path::components(#[trigger] paths[i])
                    == path::components(added);
            assert(path::components(paths[i]) == path::components(p));
        }
    } else {
        broadcast use vstd::seq_lib::group_to_multiset_ensures;

        order::placed_is_a_permutation(paths, added, ignored_order());
        if listed(after, p) {
            let i = choose|i: int|
                0 <= i < after.len() && path::components(#[trigger] after[i])
                    == path::components(p);
            assert(after.to_multiset().contains(after[i]));
            if after[i] != added {
                assert(paths.to_multiset().contains(after[i]));
                let j = choose|j: int| 0 <= j < paths.len() && paths[j] == after[i];
                assert(path::components(paths[j]) == path::components(p));
            }
        }
        if listed(paths, p) {
            let i = choose|i: int|
                0 <= i < paths.len() && path::components(#[trigger] paths[i])
                    == path::components(p);
            assert(paths.to_multiset().contains(paths[i]));
            assert(after.to_multiset().contains(paths[i]));
            let j = choose|j: int| 0 <= j < after.len() && after[j] == paths[i];
            assert(path::components(after[j]) == path::components(p));
        }
        if path::components(added) == path::components(p) {
            assert(after.to_multiset().contains(added));
            let j = choose|j: int| 0 <= j < after.len() && after[j] == added;
            assert(path::components(after[j]) == path::components(p));
        }
    }
}

/// A list that was stored reads back with the same paths.
pub proof fn a_stored_list_reads_back(
    paths: Seq<Seq<u8>>,
    environment: EnvironmentView,
    p: Seq<u8>,
)
    requires
        stored(paths, environment) is Ok,
        forall|i: int|
            0 <= i < paths.len() ==> path::absolute(#[trigger] paths[i]) && path::normalized(
                paths[i],
            ) == paths[i],
    ensures
        ({
            let read = loaded(
                environment,
                FileReadView::Parsed(stored(paths, environment)->Ok_0),
            );
            &&& read == Ok::<Seq<Seq<u8>>, DiscoveryIgnoreErrorView>(path_set(paths))
            &&& listed(read->Ok_0, p) <==> listed(paths, p)
        }),
{
    views::collected_elements(paths, path_speller());
    let values = stored(paths, environment)->Ok_0.paths;
    assert forall|i: int| 0 <= i < values.len() implies path_reader()(#[trigger] values[i])
        == Ok::<Seq<u8>, Seq<char>>(paths[i]) by {
        assert(path_speller()(paths[i]) == Ok::<Seq<char>, Seq<char>>(values[i]));
        utf8::decode_utf8_encode_utf8(paths[i]);
        if values[i].len() == 0 {
            assert(values[i] =~= Seq::empty());
            assert(utf8::encode_utf8(values[i]).len() == 0);
        }
    }
    views::all_collected(values, path_reader(), paths);
    path_set_members(paths, p);
}

/// A list in order: every path comes before those behind it.
pub open spec fn in_order(paths: Seq<Seq<u8>>) -> bool {
    forall|i: int, j: int|
        0 <= i < j < paths.len() ==> ignored_order()(#[trigger] paths[i], #[trigger] paths[j])
}

/// A path that can be kept: absolute, normalized and text.
pub open spec fn keepable(p: Seq<u8>) -> bool {
    path::absolute(p) && path::normalized(p) == p && utf8::valid_utf8(p)
}

/// A list as it is read: in order, and of paths that can be kept.
pub open spec fn proper(paths: Seq<Seq<u8>>) -> bool {
    in_order(paths) && forall|i: int| 0 <= i < paths.len() ==> keepable(#[trigger] paths[i])
}

proof fn adding_keeps_a_list_proper(paths: Seq<Seq<u8>>, p: Seq<u8>)
    requires
        proper(paths),
        keepable(p),
    ensures
        proper(with_path(paths, p)),
{
    if !listed(paths, p) {
        let less = ignored_order();
        path::path_order_is_strict();
        let i = first_not_before(paths, p, 0);
        order::placed_at(paths, p, less, i);
        let after = paths.insert(i, p);
        assert(with_path(paths, p) == after);
        assert forall|a: int, b: int| 0 <= a < b < after.len() implies less(
            #[trigger] after[a],
            #[trigger] after[b],
        ) by {
            let q = if a < i { a } else { a - 1 };
            let r = if b < i { b } else { b - 1 };
            if a == i {
                assert(path::components(paths[i]) != path::components(p));
                assert(less(p, paths[i]));
                assert(b - 1 > i ==> less(paths[i], paths[b - 1]));
            } else if b == i {
                assert(less(paths[a], p));
            } else {
                assert(less(paths[q], paths[r]));
            }
        }
        assert forall|a: int| 0 <= a < after.len() implies keepable(#[trigger] after[a]) by {
            if a < i {
                assert(keepable(paths[a]));
            } else if a > i {
                assert(keepable(paths[a - 1]));
            }
        }
    }
}

/// Where a path belongs in a list in order.
proof fn first_not_before(paths: Seq<Seq<u8>>, p: Seq<u8>, from: int) -> (i: int)
    requires
        0 <= from <= paths.len(),
        forall|j: int| 0 <= j < from ==> ignored_order()(#[trigger] paths[j], p),
    ensures
        0 <= i <= paths.len(),
        forall|j: int| 0 <= j < i ==> ignored_order()(#[trigger] paths[j], p),
        i == paths.len() || !ignored_order()(paths[i], p),
    decreases paths.len() - from,
{
    if from < paths.len() && ignored_order()(paths[from], p) {
        first_not_before(paths, p, from + 1)
    } else {
        from
    }
}

/// A list in order is the list that is made of its paths.
proof fn a_list_in_order_stays(paths: Seq<Seq<u8>>)
    requires
        in_order(paths),
    ensures
        path_set(paths) == paths,
    decreases paths.len(),
{
    if paths.len() > 0 {
        let before = paths.drop_last();
        let last = paths.last();
        path::path_order_is_strict();
        assert forall|i: int, j: int| 0 <= i < j < before.len() implies ignored_order()(
            #[trigger] before[i],
            #[trigger] before[j],
        ) by {
            assert(ignored_order()(paths[i], paths[j]));
        }
        a_list_in_order_stays(before);
        assert forall|i: int| 0 <= i < before.len() implies ignored_order()(
            #[trigger] before[i],
            last,
        ) by {
            assert(ignored_order()(paths[i], paths[paths.len() - 1]));
        }
        if listed(before, last) {
            let i = choose|i: int|
                0 <= i < before.len() && path::components(#[trigger] before[i])
                    == path::components(last);
            assert(ignored_order()(before[i], last));
        }
        order::placed_at(before, last, ignored_order(), before.len() as int);
        assert(before.insert(before.len() as int, last) =~= paths);
    }
}

proof fn path_sets_are_proper(paths: Seq<Seq<u8>>)
    requires
        forall|i: int| 0 <= i < paths.len() ==> keepable(#[trigger] paths[i]),
    ensures
        proper(path_set(paths)),
    decreases paths.len(),
{
    if paths.len() > 0 {
        let before = paths.drop_last();
        assert forall|i: int| 0 <= i < before.len() implies keepable(#[trigger] before[i]) by {
            assert(before[i] == paths[i]);
        }
        path_sets_are_proper(before);
        assert(keepable(paths[paths.len() - 1]));
        adding_keeps_a_list_proper(path_set(before), paths.last());
    }
}

/// Whatever the discovery ignore file holds, a list that loads is in order, and of absolute,
/// normalized paths that are text.
pub proof fn a_loaded_list_is_proper(
    environment: EnvironmentView,
    read: FileReadView<IgnoreFileView>,
)
    requires
        loaded(environment, read) is Ok,
    ensures
        proper(loaded(environment, read)->Ok_0),
{
    if let FileReadView::Parsed(file) = read {
        views::collected_elements(file.paths, path_reader());
        let paths = views::collected(file.paths, path_reader())->Ok_0;
        assert forall|i: int| 0 <= i < paths.len() implies keepable(#[trigger] paths[i]) by {
            assert(path_reader()(file.paths[i]) == Ok::<Seq<u8>, Seq<char>>(paths[i]));
            let bytes = utf8::encode_utf8(file.paths[i]);
            utf8::encode_utf8_valid_utf8(file.paths[i]);
            path::normalized_text_is_text(bytes);
            path::names_of_normalized(bytes);
            path::normalizing_is_idempotent(bytes);
        }
        path_sets_are_proper(paths);
    }
}

/// A proper list is stored, and reads back as it is.
pub proof fn a_proper_list_reads_back(paths: Seq<Seq<u8>>, environment: EnvironmentView)
    requires
        proper(paths),
    ensures
        stored(paths, environment) matches Ok(file) && loaded(
            environment,
            FileReadView::Parsed(file),
        ) == Ok::<Seq<Seq<u8>>, DiscoveryIgnoreErrorView>(paths),
{
    let values = Seq::new(paths.len(), |i: int| utf8::decode_utf8(paths[i]));
    assert forall|i: int| 0 <= i < paths.len() implies path_speller()(#[trigger] paths[i]) == Ok::<
        Seq<char>,
        Seq<char>,
    >(values[i]) by {
        assert(keepable(paths[i]));
    }
    views::all_collected(paths, path_speller(), values);
    assert forall|i: int| 0 <= i < paths.len() implies path::absolute(#[trigger] paths[i])
        && path::normalized(paths[i]) == paths[i] by {
        assert(keepable(paths[i]));
    }
    a_stored_list_reads_back(paths, environment, Seq::empty());
    a_list_in_order_stays(paths);
}

/// What ignoring a path comes to. A path that is relative or not text is refused before anything is
/// touched. Any other one is added: the file that is written reads back as exactly the old list
/// with the path, and ignoring the path again writes the same file.
pub proof fn ignoring_adds_exactly_the_path(
    environment: EnvironmentView,
    read: FileReadView<IgnoreFileView>,
    target: Seq<u8>,
    q: Seq<u8>,
)
    requires
        loaded(environment, read) is Ok,
    ensures
        ({
            let p = path::normalized(target);
            let old_list = loaded(environment, read)->Ok_0;
            let new_list = with_path(old_list, p);
            let next = add_advances(
                IgnorePhaseView::Reading,
                IgnoreEventView::Read(read),
                target,
                environment,
            );
            if path::absolute(p) && utf8::valid_utf8(p) {
                &&& add_begins(target, environment) is CreatingDirectory
                &&& next matches IgnorePhaseView::Writing(file) && {
                    &&& loaded(environment, FileReadView::Parsed(file)) == Ok::<
                        Seq<Seq<u8>>,
                        DiscoveryIgnoreErrorView,
                    >(new_list)
                    &&& add_advances(
                        IgnorePhaseView::Reading,
                        IgnoreEventView::Read(FileReadView::Parsed(file)),
                        target,
                        environment,
                    ) == next
                }
                &&& listed(new_list, q) <==> listed(old_list, q) || path::components(p)
                    == path::components(q)
                &&& with_path(new_list, p) == new_list
            } else {
                add_begins(target, environment) matches IgnorePhaseView::Finished(Err(error))
                    && error is Invalid
            }
        }),
{
    let p = path::normalized(target);
    let old_list = loaded(environment, read)->Ok_0;
    if path::absolute(p) && utf8::valid_utf8(p) {
        a_loaded_list_is_proper(environment, read);
        path::normalizing_is_idempotent(target);
        adding_keeps_a_list_proper(old_list, p);
        let new_list = with_path(old_list, p);
        a_proper_list_reads_back(new_list, environment);
        added_path_members(old_list, p, q);
        added_path_members(old_list, p, p);
    }
}

/// A path that was added to the list and stored is on the list that is read next, and so is
/// everything that was on it before.
pub proof fn an_ignored_path_stays_ignored(
    paths: Seq<Seq<u8>>,
    target: Seq<u8>,
    environment: EnvironmentView,
    p: Seq<u8>,
)
    requires
        path::absolute(target),
        forall|i: int|
            0 <= i < paths.len() ==> path::absolute(#[trigger] paths[i]) && path::normalized(
                paths[i],
            ) == paths[i],
        stored(with_path(paths, path::normalized(target)), environment) is Ok,
    ensures
        ({
            let file = stored(with_path(paths, path::normalized(target)), environment)->Ok_0;
            let read = loaded(environment, FileReadView::Parsed(file));
            &&& read is Ok
            &&& listed(read->Ok_0, path::normalized(target))
            &&& listed(paths, p) ==> listed(read->Ok_0, p)
        }),
{
    let added = path::normalized(target);
    let after = with_path(paths, added);
    path::names_of_normalized(target);
    path::normalizing_is_idempotent(target);
    assert forall|i: int| 0 <= i < after.len() implies path::absolute(#[trigger] after[i])
        && path::normalized(after[i]) == after[i] by {
        if !listed(paths, added) {
            broadcast use vstd::seq_lib::group_to_multiset_ensures;

            order::placed_is_a_permutation(paths, added, ignored_order());
            assert(after.to_multiset().contains(after[i]));
            if after[i] != added {
                assert(paths.to_multiset().contains(after[i]));
                assert(paths.contains(after[i]));
            }
        }
    }
    a_stored_list_reads_back(after, environment, added);
    a_stored_list_reads_back(after, environment, p);
    added_path_members(paths, added, added);
    added_path_members(paths, added, p);
}

} // verus!
