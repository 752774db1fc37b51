//! The Registry: which Command Names exist, what they stand for, and how the Registry file spells
//! that.

use vstd::prelude::*;
use vstd::utf8;

use crate::atomic_write::{WriteFailure, WriteFailureView, WriteStage};
use crate::config_git::{ConfigGitError, ConfigGitErrorView};
use crate::configuration;
use crate::configuration::ConfigurationErrorView;
use crate::environment::{Environment, EnvironmentView};
use crate::host::{FileRead, FileReadView, IoError, IoErrorView};
use crate::model::{Registration, RegistrationView};
use crate::path;
use crate::path::PathBuf;
use crate::text;
use crate::views;

verus! {

#[derive(Debug, PartialEq, Eq)]
pub enum RegistryError {
    Read { path: PathBuf, source: IoError },
    Invalid { path: PathBuf, message: String },
    CreateDirectory { path: PathBuf, source: IoError },
    Lock { path: PathBuf, source: IoError },
    Write { path: PathBuf, source: IoError },
    Sync { path: PathBuf, source: IoError },
    Replace { path: PathBuf, source: IoError },
    Durability { path: PathBuf, source: IoError },
    GitSync(ConfigGitError),
}

#[verifier::ext_equal]
pub enum RegistryErrorView {
    Read { path: Seq<u8>, source: IoErrorView },
    Invalid { path: Seq<u8>, message: Seq<char> },
    CreateDirectory { path: Seq<u8>, source: IoErrorView },
    Lock { path: Seq<u8>, source: IoErrorView },
    Write { path: Seq<u8>, source: IoErrorView },
    Sync { path: Seq<u8>, source: IoErrorView },
    Replace { path: Seq<u8>, source: IoErrorView },
    Durability { path: Seq<u8>, source: IoErrorView },
    GitSync(ConfigGitErrorView),
}

impl View for RegistryError {
    type V = RegistryErrorView;

    open spec fn view(&self) -> RegistryErrorView {
        match *self {
            RegistryError::Read { path, source } => RegistryErrorView::Read {
                path: path@,
                source: source@,
            },
            RegistryError::Invalid { path, message } => RegistryErrorView::Invalid {
                path: path@,
                message: message@,
            },
            RegistryError::CreateDirectory { path, source } => RegistryErrorView::CreateDirectory {
                path: path@,
                source: source@,
            },
            RegistryError::Lock { path, source } => RegistryErrorView::Lock {
                path: path@,
                source: source@,
            },
            RegistryError::Write { path, source } => RegistryErrorView::Write {
                path: path@,
                source: source@,
            },
            RegistryError::Sync { path, source } => RegistryErrorView::Sync {
                path: path@,
                source: source@,
            },
            RegistryError::Replace { path, source } => RegistryErrorView::Replace {
                path: path@,
                source: source@,
            },
            RegistryError::Durability { path, source } => RegistryErrorView::Durability {
                path: path@,
                source: source@,
            },
            RegistryError::GitSync(error) => RegistryErrorView::GitSync(error@),
        }
    }
}

pub open spec fn path_message(
    before: Seq<char>,
    path: Seq<u8>,
    between: Seq<char>,
    reason: Seq<char>,
) -> Seq<char> {
    before + text::lossy_text(path) + between + reason
}

pub(crate) fn path_message_of(before: &str, path: &PathBuf, between: &str, reason: &str) -> (r:
    String)
    ensures
        r@ == path_message(before@, path@, between@, reason@),
{
    let mut m = text::joined3(before, &path.display(), between);
    m.append(reason);
    m
}

impl RegistryErrorView {
    /// What the error says.
    pub open spec fn message(self) -> Seq<char> {
        match self {
            RegistryErrorView::Read { path, source } => path_message(
                "could not read Registry "@,
                path,
                ": "@,
                source.message,
            ),
            RegistryErrorView::Invalid { path, message } => path_message(
                "invalid Registry "@,
                path,
                ": "@,
                message,
            ),
            RegistryErrorView::CreateDirectory { path, source } => path_message(
                "could not create Registry directory "@,
                path,
                ": "@,
                source.message,
            ),
            RegistryErrorView::Lock { path, source } => path_message(
                "could not acquire Registry lock "@,
                path,
                ": "@,
                source.message,
            ),
            RegistryErrorView::Write { path, source } => path_message(
                "could not write temporary Registry "@,
                path,
                ": "@,
                source.message,
            ),
            RegistryErrorView::Sync { path, source } => path_message(
                "could not sync temporary Registry "@,
                path,
                ": "@,
                source.message,
            ),
            RegistryErrorView::Replace { path, source } => path_message(
                "could not atomically replace Registry "@,
                path,
                ": "@,
                source.message,
            ),
            RegistryErrorView::Durability { path, source } => path_message(
                "Registry "@,
                path,
                " was replaced but its directory could not be synced: "@,
                source.message,
            ),
            RegistryErrorView::GitSync(error) =>
                "Registry was replaced but its Git synchronization failed: "@ + error.message(),
        }
    }

    /// The replacement had already put the new desired state in place.
    pub open spec fn committed(self) -> bool {
        self is Durability || self is GitSync
    }
}

impl RegistryError {
    /// What the error says.
    pub fn message(&self) -> (r: String)
        ensures
            r@ == self@.message(),
    {
        match self {
            RegistryError::Read { path, source } => path_message_of(
                "could not read Registry ",
                path,
                ": ",
                &source.message,
            ),
            RegistryError::Invalid { path, message } => path_message_of(
                "invalid Registry ",
                path,
                ": ",
                message,
            ),
            RegistryError::CreateDirectory { path, source } => path_message_of(
                "could not create Registry directory ",
                path,
                ": ",
                &source.message,
            ),
            RegistryError::Lock { path, source } => path_message_of(
                "could not acquire Registry lock ",
                path,
                ": ",
                &source.message,
            ),
            RegistryError::Write { path, source } => path_message_of(
                "could not write temporary Registry ",
                path,
                ": ",
                &source.message,
            ),
            RegistryError::Sync { path, source } => path_message_of(
                "could not sync temporary Registry ",
                path,
                ": ",
                &source.message,
            ),
            RegistryError::Replace { path, source } => path_message_of(
                "could not atomically replace Registry ",
                path,
                ": ",
                &source.message,
            ),
            RegistryError::Durability { path, source } => path_message_of(
                "Registry ",
                path,
                " was replaced but its directory could not be synced: ",
                &source.message,
            ),
            RegistryError::GitSync(error) => text::joined(
                "Registry was replaced but its Git synchronization failed: ",
                &error.message(),
            ),
        }
    }

    /// True when the atomic replacement already committed the new desired state.
    pub fn replacement_committed(&self) -> (r: bool)
        ensures
            r == self@.committed(),
    {
        match self {
            RegistryError::Durability { .. } => true,
            RegistryError::GitSync(_) => true,
            _ => false,
        }
    }
}

/// A Registration as the Registry file spells it.
#[derive(Debug, PartialEq, Eq)]
pub struct RegistrationFile {
    pub name: String,
    pub target: String,
    pub enabled: bool,
}

#[verifier::ext_equal]
pub struct RegistrationFileView {
    pub name: Seq<char>,
    pub target: Seq<char>,
    pub enabled: bool,
}

impl View for RegistrationFile {
    type V = RegistrationFileView;

    open spec fn view(&self) -> RegistrationFileView {
        RegistrationFileView { name: self.name@, target: self.target@, enabled: self.enabled }
    }
}

impl Clone for RegistrationFile {
    fn clone(&self) -> (r: Self)
        ensures
            r@ == self@,
    {
        RegistrationFile {
            name: self.name.clone(),
            target: self.target.clone(),
            enabled: self.enabled,
        }
    }
}

/// The contents of a Registry file.
#[derive(Debug, PartialEq, Eq)]
pub struct RegistryFile {
    pub version: u32,
    pub registrations: Vec<RegistrationFile>,
}

#[verifier::ext_equal]
pub struct RegistryFileView {
    pub version: u32,
    pub registrations: Seq<RegistrationFileView>,
}

impl View for RegistryFile {
    type V = RegistryFileView;

    open spec fn view(&self) -> RegistryFileView {
        RegistryFileView {
            version: self.version,
            registrations: views::views(self.registrations@),
        }
    }
}

impl Clone for RegistryFile {
    fn clone(&self) -> (r: Self)
        ensures
            r@ == self@,
    {
        let registrations = self.registrations.clone();
        assert(views::views(registrations@) =~= views::views(self.registrations@));
        RegistryFile { version: self.version, registrations }
    }
}

/// The directory that holds the Registry.
pub open spec fn registry_directory_of(environment: EnvironmentView) -> Seq<u8> {
    path::joined(configuration::config_home_of(environment), utf8::encode_utf8("bintui"@))
}

pub open spec fn registry_path_of(environment: EnvironmentView) -> Seq<u8> {
    path::joined(
        configuration::config_home_of(environment),
        utf8::encode_utf8("bintui/registry.toml"@),
    )
}

pub open spec fn lock_path_of(environment: EnvironmentView) -> Seq<u8> {
    path::joined(registry_directory_of(environment), utf8::encode_utf8("registry.lock"@))
}

pub fn registry_directory(environment: &Environment) -> (r: PathBuf)
    ensures
        r@ == registry_directory_of(environment@),
{
    configuration::config_home(environment).join_text("bintui")
}

pub fn registry_path(environment: &Environment) -> (r: PathBuf)
    ensures
        r@ == registry_path_of(environment@),
{
    configuration::config_home(environment).join_text("bintui/registry.toml")
}

pub fn lock_path(environment: &Environment) -> (r: PathBuf)
    ensures
        r@ == lock_path_of(environment@),
{
    registry_directory(environment).join_text("registry.lock")
}

/// What may be a Command Name: a single ordinary name of a file.
pub open spec fn valid_name(name: Seq<char>) -> bool {
    name.len() > 0 && name != "."@ && name != ".."@ && !name.contains('/') && !name.contains('\0')
}

pub open spec fn name_problem(name: Seq<char>) -> Seq<char> {
    "invalid Command Name "@ + text::quoted_text(name)
}

pub fn validate_name(name: &str) -> (r: Result<(), String>)
    ensures
        r is Ok <==> valid_name(name@),
        r is Err ==> r->Err_0@ == name_problem(name@),
{
    if name.is_empty() || text::same(name, ".") || text::same(name, "..") || text::contains(
        name,
        '/',
    ) || text::contains(name, '\0') {
        Err(text::joined("invalid Command Name ", &text::quoted(name)))
    } else {
        Ok(())
    }
}

/// A Command Name is clean as a name within a path, and is not the parent directory.
pub proof fn valid_name_is_clean(name: Seq<char>)
    requires
        valid_name(name),
    ensures
        path::clean_name(utf8::encode_utf8(name)),
        utf8::encode_utf8(name) != path::parent_name(),
        path::file_name_of(utf8::encode_utf8(name)) == Some(utf8::encode_utf8(name)),
{
    let n = utf8::encode_utf8(name);
    text::ascii_bytes_of_text(name, path::SLASH);
    assert(path::SLASH as char == '/');
    assert(!n.contains(path::SLASH));
    assert forall|i: int| 0 <= i < n.len() implies n[i] != path::SLASH by {
        if n[i] == path::SLASH {
            assert(n.contains(path::SLASH));
        }
    }
    reveal_strlit(".");
    reveal_strlit("..");
    let none = Seq::<char>::empty();
    text::encoding_of_ascii('.', none);
    text::encoding_of_ascii('.', seq!['.'] + none);
    assert(seq!['.'] + none =~= "."@);
    assert(seq!['.'] + (seq!['.'] + none) =~= ".."@);
    assert(utf8::encode_utf8(none).len() == 0);
    assert(utf8::encode_utf8("."@) =~= seq![path::DOT]);
    assert(utf8::encode_utf8(".."@) =~= path::parent_name());
    utf8::encode_utf8_decode_utf8(name);
    utf8::encode_utf8_decode_utf8("."@);
    utf8::encode_utf8_decode_utf8(".."@);
    assert(n.len() > 0) by {
        if n.len() == 0 {
            assert(n =~= utf8::encode_utf8(none));
            utf8::encode_utf8_decode_utf8(none);
            assert(name == none);
        }
    }
    path::names_of_clean_name(n);
}

/// Some Registration has this name.
pub open spec fn registered(registrations: Seq<RegistrationView>, name: Seq<char>) -> bool {
    exists|i: int| 0 <= i < registrations.len() && #[trigger] registrations[i].name == name
}

/// The first Registration with this name.
#[verifier::opaque]
pub open spec fn position_of(registrations: Seq<RegistrationView>, name: Seq<char>) -> Option<int>
    decreases registrations.len(),
{
    if registrations.len() == 0 {
        None
    } else {
        match position_of(registrations.drop_last(), name) {
            Some(i) => Some(i),
            None => if registrations.last().name == name {
                Some(registrations.len() - 1)
            } else {
                None
            },
        }
    }
}

/// A position holds the name, and no earlier one does.
pub proof fn position_is_first(registrations: Seq<RegistrationView>, name: Seq<char>)
    ensures
        match position_of(registrations, name) {
            Some(i) => 0 <= i < registrations.len() && registrations[i].name == name && forall|j: int|
                0 <= j < i ==> (#[trigger] registrations[j]).name != name,
            None => !registered(registrations, name),
        },
        position_of(registrations, name) is Some <==> registered(registrations, name),
    decreases registrations.len(),
{
    reveal(position_of);
    if registrations.len() > 0 {
        let before = registrations.drop_last();
        position_is_first(before, name);
        assert(forall|j: int|
            0 <= j < before.len() ==> before[j] == #[trigger] registrations[j]);
        match position_of(before, name) {
            Some(i) => {
                assert(registrations[i].name == name);
                assert forall|j: int| 0 <= j < i implies (#[trigger] registrations[j]).name
                    != name by {
                    assert(before[j].name != name);
                }
            },
            None => {
                assert forall|j: int| 0 <= j < before.len() implies (
                #[trigger] registrations[j]).name != name by {
                    if before[j].name == name {
                        assert(registered(before, name));
                    }
                }
                if registered(registrations, name) {
                    let j = choose|j: int|
                        0 <= j < registrations.len() && #[trigger] registrations[j].name == name;
                    if j < before.len() {
                        assert(before[j].name == name);
                    }
                }
            },
        }
    }
}

/// The first Registration with this name.
pub fn find_name(registrations: &Vec<Registration>, name: &str) -> (r: Option<usize>)
    ensures
        match r {
            Some(i) => position_of(views::views(registrations@), name@) == Some(i as int) && i
                < registrations@.len() && registrations@[i as int].name@ == name@,
            None => position_of(views::views(registrations@), name@) is None,
        },
{
    reveal(position_of);
    let ghost all = views::views(registrations@);
    let mut i: usize = 0;
    assert(all.take(0).len() == 0);
    while i < registrations.len()
        invariant
            i <= registrations@.len(),
            all == views::views(registrations@),
            position_of(all.take(i as int), name@) is None,
        decreases registrations.len() - i,
    {
        reveal(position_of);
        assert(all.take(i + 1).drop_last() =~= all.take(i as int));
        if text::same(&registrations[i].name, name) {
            proof {
                position_stays(all, name@, i + 1);
            }
            return Some(i);
        }
        i = i + 1;
    }
    assert(all.take(i as int) =~= all);
    None
}

proof fn position_stays(registrations: Seq<RegistrationView>, name: Seq<char>, n: int)
    requires
        0 <= n <= registrations.len(),
        position_of(registrations.take(n), name) is Some,
    ensures
        position_of(registrations, name) == position_of(registrations.take(n), name),
    decreases registrations.len() - n,
{
    reveal(position_of);
    if n == registrations.len() {
        assert(registrations.take(n) =~= registrations);
    } else {
        assert(registrations.take(n + 1).drop_last() =~= registrations.take(n));
        position_stays(registrations, name, n + 1);
    }
}

/// What the Registry keeps: names that are valid and distinct, and Targets that are absolute and
/// normalized.
pub open spec fn sound(registrations: Seq<RegistrationView>) -> bool {
    &&& forall|i: int|
        0 <= i < registrations.len() ==> valid_name((#[trigger] registrations[i]).name)
            && path::absolute(registrations[i].target) && path::normalized(registrations[i].target)
            == registrations[i].target
    &&& forall|i: int, j: int|
        0 <= i < j < registrations.len() ==> (#[trigger] registrations[i]).name != (
        #[trigger] registrations[j]).name
}

/// The Registrations that entries stand for, or what is wrong with the first bad one.
pub open spec fn read_entries(
    entries: Seq<RegistrationFileView>,
    environment: EnvironmentView,
) -> Result<Seq<RegistrationView>, Seq<char>>
    decreases entries.len(),
{
    if entries.len() == 0 {
        Ok(Seq::empty())
    } else {
        match read_entries(entries.drop_last(), environment) {
            Err(message) => Err(message),
            Ok(before) => read_entry(before, entries.last(), environment),
        }
    }
}

/// The Registrations with one more entry.
pub open spec fn read_entry(
    before: Seq<RegistrationView>,
    entry: RegistrationFileView,
    environment: EnvironmentView,
) -> Result<Seq<RegistrationView>, Seq<char>> {
    if !valid_name(entry.name) {
        Err(name_problem(entry.name))
    } else if registered(before, entry.name) {
        Err("duplicate Command Name "@ + text::quoted_text(entry.name))
    } else {
        match configuration::expanded_path(entry.target, environment) {
            Err(name) => Err(ConfigurationErrorView::MissingVariable(name).message()),
            Ok(target) => if path::absolute(target) {
                Ok(
                    before.push(
                        RegistrationView {
                            name: entry.name,
                            target: path::normalized(target),
                            enabled: entry.enabled,
                        },
                    ),
                )
            } else {
                Err("Target must be absolute: "@ + text::lossy_text(target))
            },
        }
    }
}

/// The Registrations of an environment whose Registry file was read with this outcome.
pub open spec fn loaded(
    environment: EnvironmentView,
    read: FileReadView<RegistryFileView>,
) -> Result<Seq<RegistrationView>, RegistryErrorView> {
    let path = registry_path_of(environment);
    match read {
        FileReadView::Missing => Ok(Seq::empty()),
        FileReadView::Unreadable(source) => Err(RegistryErrorView::Read { path, source }),
        FileReadView::Malformed(message) => Err(RegistryErrorView::Invalid { path, message }),
        FileReadView::Parsed(file) => if file.version != 1 {
            Err(
                RegistryErrorView::Invalid {
                    path,
                    message: "unsupported Registry version "@ + text::decimal(file.version as nat)
                        + "; expected 1"@,
                },
            )
        } else {
            match read_entries(file.registrations, environment) {
                Ok(registrations) => Ok(registrations),
                Err(message) => Err(RegistryErrorView::Invalid { path, message }),
            }
        },
    }
}

/// What is wrong with the first entries is wrong with all.
pub proof fn read_failure_stays(
    entries: Seq<RegistrationFileView>,
    environment: EnvironmentView,
    n: int,
)
    requires
        0 <= n <= entries.len(),
        read_entries(entries.take(n), environment) is Err,
    ensures
        read_entries(entries, environment) == read_entries(entries.take(n), environment),
    decreases entries.len() - n,
{
    if n == entries.len() {
        assert(entries.take(n) =~= entries);
    } else {
        assert(entries.take(n + 1).drop_last() =~= entries.take(n));
        read_failure_stays(entries, environment, n + 1);
    }
}

fn read_one(
    before: &Vec<Registration>,
    entry: RegistrationFile,
    environment: &Environment,
) -> (r: Result<Registration, String>)
    ensures
        match read_entry(views::views(before@), entry@, environment@) {
            Ok(after) => r is Ok && after == views::views(before@).push(r->Ok_0@),
            Err(message) => r is Err && r->Err_0@ == message,
        },
{
    if let Err(message) = validate_name(&entry.name) {
        return Err(message);
    }
    proof {
        position_is_first(views::views(before@), entry.name@);
    }
    if find_name(before, &entry.name).is_some() {
        return Err(text::joined("duplicate Command Name ", &text::quoted(&entry.name)));
    }
    match configuration::expand_path(&entry.target, environment) {
        Err(error) => Err(error.message()),
        Ok(target) => if target.is_absolute() {
            Ok(
                Registration {
                    name: entry.name,
                    target: target.normalize(),
                    enabled: entry.enabled,
                },
            )
        } else {
            Err(text::joined("Target must be absolute: ", &target.display()))
        },
    }
}

/// The Registrations of an environment, given the outcome of reading its Registry file.
pub fn load(environment: &Environment, read: FileRead<RegistryFile>) -> (r: Result<
    Vec<Registration>,
    RegistryError,
>)
    ensures
        match loaded(environment@, read@) {
            Ok(registrations) => r is Ok && views::views(r->Ok_0@) == registrations,
            Err(error) => r is Err && r->Err_0@ == error,
        },
{
    let path = registry_path(environment);
    let file = match read {
        FileRead::Missing => {
            let none: Vec<Registration> = Vec::new();
            assert(views::views(none@) =~= Seq::empty());
            return Ok(none);
        },
        FileRead::Unreadable(source) => {
            return Err(RegistryError::Read { path, source });
        },
        FileRead::Malformed(message) => {
            return Err(RegistryError::Invalid { path, message });
        },
        FileRead::Parsed(file) => file,
    };
    if file.version != 1 {
        return Err(
            RegistryError::Invalid {
                path,
                message: text::joined3(
                    "unsupported Registry version ",
                    &text::decimal_of(file.version as u128),
                    "; expected 1",
                ),
            },
        );
    }
    let ghost entries = views::views(file.registrations@);
    let mut registrations: Vec<Registration> = Vec::new();
    let mut i: usize = 0;
    assert(entries.take(0).len() == 0);
    assert(views::views(registrations@) =~= Seq::empty());
    while i < file.registrations.len()
        invariant
            i <= file.registrations@.len(),
            entries == views::views(file.registrations@),
            read@ == FileReadView::Parsed(file@),
            file.version == 1,
            path@ == registry_path_of(environment@),
            read_entries(entries.take(i as int), environment@) == Ok::<
                Seq<RegistrationView>,
                Seq<char>,
            >(views::views(registrations@)),
        decreases file.registrations.len() - i,
    {
        assert(entries.take(i + 1).drop_last() =~= entries.take(i as int));
        match read_one(&registrations, file.registrations[i].clone(), environment) {
            Err(message) => {
                proof {
                    read_failure_stays(entries, environment@, i + 1);
                }
                return Err(RegistryError::Invalid { path, message });
            },
            Ok(registration) => {
                let ghost before = registrations@;
                registrations.push(registration);
                assert(views::views(registrations@) =~= views::views(before).push(registration@));
            },
        }
        i = i + 1;
    }
    assert(entries.take(i as int) =~= entries);
    Ok(registrations)
}

/// Whatever a Registry file holds, the Registrations read from it are sound.
pub proof fn read_registrations_are_sound(
    entries: Seq<RegistrationFileView>,
    environment: EnvironmentView,
)
    requires
        read_entries(entries, environment) is Ok,
    ensures
        sound(read_entries(entries, environment)->Ok_0),
    decreases entries.len(),
{
    if entries.len() > 0 {
        read_registrations_are_sound(entries.drop_last(), environment);
        let before = read_entries(entries.drop_last(), environment)->Ok_0;
        let after = read_entries(entries, environment)->Ok_0;
        let target = configuration::expanded_path(entries.last().target, environment)->Ok_0;
        path::normalizing_is_idempotent(target);
        path::names_of_normalized(target);
        assert(after == before.push(after.last()));
        assert forall|i: int, j: int| 0 <= i < j < after.len() implies (#[trigger] after[i]).name
            != (#[trigger] after[j]).name by {
            assert(after[i] == before[i]);
            if j < before.len() {
                assert(after[j] == before[j]);
            } else {
                assert(before[i].name != after[j].name);
            }
        }
    }
}

/// Whatever the Registry file holds, a Registry that loads is sound.
pub proof fn a_loaded_registry_is_sound(
    environment: EnvironmentView,
    read: FileReadView<RegistryFileView>,
)
    requires
        loaded(environment, read) is Ok,
    ensures
        sound(loaded(environment, read)->Ok_0),
{
    if let FileReadView::Parsed(file) = read {
        read_registrations_are_sound(file.registrations, environment);
    }
}

pub open spec fn unstorable(path: Seq<u8>) -> Seq<char> {
    "Target path must be valid UTF-8 to be stored in the Registry: "@ + text::lossy_text(path)
}

/// The text of a Target, which it must have to be stored.
pub fn validate_target_path(target: &PathBuf) -> (r: Result<String, String>)
    ensures
        r is Ok <==> utf8::valid_utf8(target@),
        r is Ok ==> r->Ok_0@ == utf8::decode_utf8(target@),
        r is Err ==> r->Err_0@ == unstorable(target@),
{
    match target.to_text() {
        Some(value) => Ok(value),
        None => Err(
            text::joined(
                "Target path must be valid UTF-8 to be stored in the Registry: ",
                &target.display(),
            ),
        ),
    }
}

/// A Target as the Registry file spells it: below the home directory, with `~` for it.
pub open spec fn stored_target(target: Seq<u8>, home: Seq<u8>) -> Result<Seq<char>, Seq<char>> {
    let spelled = if !path::starts_with(target, home) {
        target
    } else if path::stripped(target, home).len() == 0 {
        utf8::encode_utf8("~"@)
    } else {
        path::joined(utf8::encode_utf8("~"@), path::stripped(target, home))
    };
    if utf8::valid_utf8(spelled) {
        Ok(utf8::decode_utf8(spelled))
    } else {
        Err(unstorable(spelled))
    }
}

/// A Target as the Registry file spells it, or why it cannot.
pub fn stored_target_path(target: &PathBuf, home: &PathBuf) -> (r: Result<String, String>)
    ensures
        match stored_target(target@, home@) {
            Ok(value) => r is Ok && r->Ok_0@ == value,
            Err(message) => r is Err && r->Err_0@ == message,
        },
{
    proof {
        utf8::encode_utf8_valid_utf8("~"@);
        utf8::encode_utf8_decode_utf8("~"@);
    }
    match target.strip_prefix(home) {
        None => validate_target_path(target),
        Some(relative) => if relative.is_empty() {
            Ok("~".to_owned())
        } else {
            validate_target_path(&PathBuf::from_text("~").join(&relative))
        },
    }
}

pub open spec fn stored_entry(home: Seq<u8>) -> spec_fn(RegistrationView) -> Result<
    RegistrationFileView,
    Seq<char>,
> {
    |registration: RegistrationView|
        match stored_target(registration.target, home) {
            Ok(target) => Ok(
                RegistrationFileView {
                    name: registration.name,
                    target,
                    enabled: registration.enabled,
                },
            ),
            Err(message) => Err(message),
        }
}

/// The Registry file that spells some Registrations.
pub open spec fn stored(
    registrations: Seq<RegistrationView>,
    environment: EnvironmentView,
) -> Result<RegistryFileView, RegistryErrorView> {
    match views::collected(registrations, stored_entry(environment.home)) {
        Ok(entries) => Ok(RegistryFileView { version: 1, registrations: entries }),
        Err(message) => Err(
            RegistryErrorView::Invalid { path: registry_path_of(environment), message },
        ),
    }
}

/// The Registry file that spells some Registrations.
pub fn store(registrations: &Vec<Registration>, environment: &Environment) -> (r: Result<
    RegistryFile,
    RegistryError,
>)
    ensures
        match stored(views::views(registrations@), environment@) {
            Ok(file) => r is Ok && r->Ok_0@ == file,
            Err(error) => r is Err && r->Err_0@ == error,
        },
{
    let ghost all = views::views(registrations@);
    let ghost spell = stored_entry(environment@.home);
    let mut entries: Vec<RegistrationFile> = Vec::new();
    let mut i: usize = 0;
    proof {
        views::collected_of_none(all, spell);
    }
    assert(views::views(entries@) =~= Seq::empty());
    while i < registrations.len()
        invariant
            i <= registrations@.len(),
            all == views::views(registrations@),
            spell == stored_entry(environment@.home),
            views::collected(all.take(i as int), spell) == Ok::<
                Seq<RegistrationFileView>,
                Seq<char>,
            >(views::views(entries@)),
        decreases registrations.len() - i,
    {
        proof {
            views::collected_step(all, spell, i as int);
        }
        match stored_target_path(&registrations[i].target, environment.home()) {
            Err(message) => {
                return Err(RegistryError::Invalid { path: registry_path(environment), message });
            },
            Ok(target) => {
                let ghost before = entries@;
                let entry = RegistrationFile {
                    name: registrations[i].name.clone(),
                    target,
                    enabled: registrations[i].enabled,
                };
                entries.push(entry);
                assert(views::views(entries@) =~= views::views(before).push(entry@));
            },
        }
        i = i + 1;
    }
    assert(all.take(i as int) =~= all);
    let file = RegistryFile { version: 1, registrations: entries };
    assert(file@.registrations =~= views::views(entries@));
    Ok(file)
}

/// What a failed write of the Registry file means.
pub open spec fn write_error(
    failure: WriteFailureView,
    temporary: Seq<u8>,
    path: Seq<u8>,
) -> RegistryErrorView {
    let source = failure.source;
    match failure.stage {
        WriteStage::Write => RegistryErrorView::Write { path: temporary, source },
        WriteStage::Sync => RegistryErrorView::Sync { path: temporary, source },
        WriteStage::Replace => RegistryErrorView::Replace { path, source },
        WriteStage::Directory => RegistryErrorView::Durability { path, source },
    }
}

/// What a failed write of the Registry file means.
pub fn write_failed(failure: WriteFailure, temporary: PathBuf, path: PathBuf) -> (r: RegistryError)
    ensures
        r@ == write_error(failure@, temporary@, path@),
{
    let source = failure.source;
    match failure.stage {
        WriteStage::Write => RegistryError::Write { path: temporary, source },
        WriteStage::Sync => RegistryError::Sync { path: temporary, source },
        WriteStage::Replace => RegistryError::Replace { path, source },
        WriteStage::Directory => RegistryError::Durability { path, source },
    }
}

/// Decoded bytes hold a `$` exactly where the bytes do.
pub(crate) proof fn decoded_without_references(bytes: Seq<u8>)
    requires
        utf8::valid_utf8(bytes),
        !bytes.contains(36u8),
    ensures
        !utf8::decode_utf8(bytes).contains('$'),
{
    utf8::decode_utf8_encode_utf8(bytes);
    text::ascii_bytes_of_text(utf8::decode_utf8(bytes), 36u8);
    assert(36u8 as char == '$');
}

/// The encoding of `~`.
proof fn tilde_bytes()
    ensures
        utf8::encode_utf8("~"@) == seq![126u8],
        utf8::encode_utf8("~/"@) == seq![126u8, path::SLASH],
        "~"@.len() == 1,
        "~/"@.len() == 2,
        "~"@[0] == '~',
        "~/"@[0] == '~',
        "~/"@[1] == '/',
{
    reveal_strlit("~");
    reveal_strlit("~/");
    let none = Seq::<char>::empty();
    assert(utf8::encode_utf8(none).len() == 0);
    text::encoding_of_ascii('~', none);
    assert(seq!['~'] + none =~= "~"@);
    assert(utf8::encode_utf8("~"@) =~= seq![126u8]);
    text::encoding_of_ascii('/', none);
    text::encoding_of_ascii('~', seq!['/'] + none);
    assert(seq!['~'] + (seq!['/'] + none) =~= "~/"@);
    assert(utf8::encode_utf8("~/"@) =~= seq![126u8, path::SLASH]);
}

/// An absolute path does not read as relative to the home directory.
pub(crate) proof fn absolute_text_keeps_its_home(bytes: Seq<u8>, home: Seq<u8>)
    requires
        utf8::valid_utf8(bytes),
        path::absolute(bytes),
    ensures
        configuration::with_home(utf8::decode_utf8(bytes), home) == utf8::decode_utf8(bytes),
{
    let s = utf8::decode_utf8(bytes);
    utf8::decode_utf8_encode_utf8(bytes);
    tilde_bytes();
    assert(s.len() > 0) by {
        if s.len() == 0 {
            assert(utf8::encode_utf8(s).len() == 0);
        }
    }
    if s[0] == '~' {
        let rest = s.skip(1);
        assert(s =~= seq!['~'] + rest);
        text::encoding_of_ascii('~', rest);
        assert(bytes[0] == 126u8);
    }
    assert(s[0] != '~');
    if "~/"@.is_prefix_of(s) {
        assert("~/"@ =~= s.subrange(0, 2));
        assert(s.subrange(0, 2)[0] == s[0]);
    }
}

/// Whether the Registry file can spell a Target so that it reads back as the same one: it is text,
/// and no `$` would be taken for a variable, in the Target or, where the Target lies below it, in
/// the home directory.
pub open spec fn spellable(target: Seq<u8>, home: Seq<u8>) -> bool {
    &&& utf8::valid_utf8(target)
    &&& !target.contains(36u8)
    &&& path::starts_with(target, home) ==> {
        &&& path::components(home).len() > 0
        &&& utf8::valid_utf8(home)
        &&& !home.contains(36u8)
    }
}

/// A Target that can be spelled is stored: the home directory as `~`, what lies below it with `~/`
/// in front, and any other one as it is.
pub proof fn how_targets_are_spelled(target: Seq<u8>, home: Seq<u8>)
    requires
        spellable(target, home),
    ensures
        stored_target(target, home) matches Ok(value) && if !path::starts_with(target, home) {
            value == utf8::decode_utf8(target)
        } else if path::components(target) == path::components(home) {
            value == "~"@
        } else {
            "~/"@.is_prefix_of(value)
        },
{
    tilde_bytes();
    if path::starts_with(target, home) {
        if path::components(target) == path::components(home) {
            path::nothing_is_stripped_off_itself(target, home);
            utf8::encode_utf8_valid_utf8("~"@);
            utf8::encode_utf8_decode_utf8("~"@);
        } else {
            path::names_of_stripped(target, home);
            if path::stripped(target, home).len() == 0 {
                assert(path::names(path::stripped(target, home)).len() == 0);
                assert(path::names(target) =~= path::names(home));
            }
            stored_below_home(target, home);
            let rest = utf8::decode_utf8(path::stripped(target, home));
            assert("~/"@ =~= ("~/"@ + rest).subrange(0, 2));
        }
    }
}

/// A Target that can be spelled reads back as the same Target: once it is normalized, and byte for
/// byte where the home directory is absolute and normalized or has no part in it.
pub proof fn a_stored_target_reads_back(target: Seq<u8>, environment: EnvironmentView)
    requires
        path::absolute(target),
        path::normalized(target) == target,
        spellable(target, environment.home),
    ensures
        stored_target(target, environment.home) matches Ok(value) && (
        configuration::expanded_path(value, environment) matches Ok(back) && {
            &&& path::absolute(back)
            &&& path::normalized(back) == target
            &&& !path::starts_with(target, environment.home) || (path::absolute(environment.home)
                && path::normalized(environment.home) == environment.home) ==> back == target
        }),
{
    let home = environment.home;
    how_targets_are_spelled(target, home);
    let value = stored_target(target, home)->Ok_0;
    tilde_bytes();
    if !path::starts_with(target, home) {
        absolute_text_keeps_its_home(target, home);
        decoded_without_references(target);
        configuration::text_without_references(value, environment.variables);
        utf8::decode_utf8_encode_utf8(target);
    } else {
        let relative = path::stripped(target, home);
        path::names_of_stripped(target, home);
        path::stripping_undone_by_joining(target, home);
        path::lead_of_joined(home, relative);
        path::normalized_of_same_components(path::joined(home, relative), target);
        path::same_components(path::joined(home, relative), target);
        if relative.len() == 0 {
            utf8::encode_utf8_decode_utf8("~"@);
            assert(value == "~"@);
            path::names_of_joined(home, relative);
            assert(path::names(relative).len() == 0);
            assert(path::names(home) + path::names(relative) =~= path::names(home));
            path::normalized_of_same_components(home, path::joined(home, relative));
            decoded_without_references(home);
            configuration::text_without_references(
                utf8::decode_utf8(home),
                environment.variables,
            );
            utf8::decode_utf8_encode_utf8(home);
        } else {
            stored_below_home(target, home);
            let rest = utf8::decode_utf8(relative);
            let joined = path::joined(home, relative);
            assert(value == "~/"@ + rest);
            assert("~/"@.is_prefix_of(value)) by {
                assert("~/"@ =~= value.subrange(0, 2));
            }
            assert(value.skip(2) =~= rest);
            assert(value != "~"@);
            decoded_without_references(joined);
            configuration::text_without_references(
                utf8::decode_utf8(joined),
                environment.variables,
            );
            utf8::decode_utf8_encode_utf8(joined);
            if path::absolute(home) && path::normalized(home) == home {
                path::stripping_undone_exactly(target, home);
            }
        }
    }
}

proof fn stored_below_home(target: Seq<u8>, home: Seq<u8>)
    requires
        path::starts_with(target, home),
        spellable(target, home),
        path::stripped(target, home).len() > 0,
    ensures
        utf8::valid_utf8(path::stripped(target, home)),
        utf8::encode_utf8(utf8::decode_utf8(path::stripped(target, home))) == path::stripped(
            target,
            home,
        ),
        stored_target(target, home) == Ok::<Seq<char>, Seq<char>>(
            "~/"@ + utf8::decode_utf8(path::stripped(target, home)),
        ),
        utf8::valid_utf8(path::joined(home, path::stripped(target, home))),
        !path::joined(home, path::stripped(target, home)).contains(36u8),
{
    path::stripped_text_is_text(target, home);
    utf8::encode_utf8_valid_utf8("~/"@);
    utf8::valid_utf8_concat(utf8::encode_utf8("~/"@), path::stripped(target, home));
    let relative = path::stripped(target, home);
    let spelled = path::joined(utf8::encode_utf8("~"@), relative);
    path::names_of_stripped(target, home);
    tilde_bytes();
    assert(spelled =~= seq![126u8, path::SLASH] + relative);
    let value = utf8::decode_utf8(spelled);
    utf8::decode_utf8_encode_utf8(spelled);
    assert(value.len() >= 2 && value[0] == '~' && value[1] == '/') by {
        leading_ascii(value, spelled);
        let tail = value.skip(1);
        text::encoding_of_ascii('~', tail);
        assert(value =~= seq!['~'] + tail);
        assert(utf8::encode_utf8(tail) =~= spelled.skip(1));
        leading_ascii(tail, spelled.skip(1));
    }
    let rest = value.skip(2);
    assert(value =~= "~/"@ + rest);
    text::encoding_of_appended("~/"@, rest);
    assert(utf8::encode_utf8(rest) =~= relative) by {
        let bytes = utf8::encode_utf8(rest);
        assert(spelled == seq![126u8, path::SLASH] + bytes);
        assert(spelled.skip(2) =~= bytes);
        assert(spelled.skip(2) =~= relative);
    }
    utf8::encode_utf8_valid_utf8(rest);
    utf8::encode_utf8_decode_utf8(rest);
    let joined = path::joined(home, relative);
    utf8::decode_utf8_encode_utf8(home);
    let h = utf8::decode_utf8(home);
    if home.len() > 0 && home.last() != path::SLASH {
        text::encoding_of_ascii('/', rest);
        text::encoding_of_appended(h, seq!['/'] + rest);
        assert(joined =~= utf8::encode_utf8(h + (seq!['/'] + rest)));
        utf8::encode_utf8_valid_utf8(h + (seq!['/'] + rest));
    } else {
        text::encoding_of_appended(h, rest);
        utf8::encode_utf8_valid_utf8(h + rest);
    }
    path::stripped_is_part(target, home);
    assert(!joined.contains(36u8)) by {
        if joined.contains(36u8) {
            let i = choose|i: int| 0 <= i < joined.len() && joined[i] == 36u8;
            if i < home.len() {
                assert(home[i] == 36u8);
            } else {
                let off = joined.len() - relative.len();
                if i >= off {
                    assert(relative[i - off] == 36u8);
                    assert(relative.contains(36u8));
                }
            }
        }
    }
}

/// The first character of a text whose encoding starts with an ASCII byte.
proof fn leading_ascii(s: Seq<char>, bytes: Seq<u8>)
    requires
        utf8::encode_utf8(s) == bytes,
        bytes.len() > 0,
        bytes[0] < 0x80,
    ensures
        s.len() > 0,
        s[0] == bytes[0] as char,
{
    if s.len() == 0 {
        assert(utf8::encode_utf8(s).len() == 0);
    } else {
        let t = s.take(1);
        assert(s =~= t + s.skip(1));
        text::encoding_of_appended(t, s.skip(1));
        let first = utf8::encode_utf8(t);
        assert(first.len() > 0) by {
            if first.len() == 0 {
                utf8::encode_utf8_decode_utf8(t);
                utf8::encode_utf8_decode_utf8(Seq::<char>::empty());
                assert(first =~= utf8::encode_utf8(Seq::<char>::empty()));
            }
        }
        assert(first[0] == bytes[0]);
        assert(first.contains(bytes[0]));
        text::ascii_bytes_of_text(t, bytes[0]);
    }
}

/// Registrations whose Targets can be spelled are stored, and read back as they were.
pub proof fn a_stored_registry_reads_back(
    registrations: Seq<RegistrationView>,
    environment: EnvironmentView,
)
    requires
        sound(registrations),
        forall|i: int|
            0 <= i < registrations.len() ==> spellable(
                (#[trigger] registrations[i]).target,
                environment.home,
            ),
    ensures
        stored(registrations, environment) matches Ok(file) && loaded(
            environment,
            FileReadView::Parsed(file),
        ) == Ok::<Seq<RegistrationView>, RegistryErrorView>(registrations),
{
    let spell = stored_entry(environment.home);
    let spelled = Seq::new(registrations.len(), |i: int| spell(registrations[i])->Ok_0);
    assert forall|i: int| 0 <= i < registrations.len() implies spell(#[trigger] registrations[i])
        == Ok::<RegistrationFileView, Seq<char>>(spelled[i]) by {
        how_targets_are_spelled(registrations[i].target, environment.home);
    }
    views::all_collected(registrations, spell, spelled);
    views::collected_elements(registrations, spell);
    let entries = views::collected(registrations, spell)->Ok_0;
    entries_read_back(registrations, entries, environment, registrations.len() as int);
    assert(entries.take(registrations.len() as int) =~= entries);
    assert(registrations.take(registrations.len() as int) =~= registrations);
}

proof fn entries_read_back(
    registrations: Seq<RegistrationView>,
    entries: Seq<RegistrationFileView>,
    environment: EnvironmentView,
    n: int,
)
    requires
        sound(registrations),
        forall|i: int|
            0 <= i < registrations.len() ==> spellable(
                (#[trigger] registrations[i]).target,
                environment.home,
            ),
        entries.len() == registrations.len(),
        forall|i: int|
            0 <= i < registrations.len() ==> stored_entry(environment.home)(
                #[trigger] registrations[i],
            ) == Ok::<RegistrationFileView, Seq<char>>(entries[i]),
        0 <= n <= entries.len(),
    ensures
        read_entries(entries.take(n), environment) == Ok::<Seq<RegistrationView>, Seq<char>>(
            registrations.take(n),
        ),
    decreases n,
{
    if n == 0 {
        assert(registrations.take(0) =~= Seq::empty());
    } else {
        entries_read_back(registrations, entries, environment, n - 1);
        assert(entries.take(n).drop_last() =~= entries.take(n - 1));
        let registration = registrations[n - 1];
        let before = registrations.take(n - 1);
        assert(stored_entry(environment.home)(registration) == Ok::<
            RegistrationFileView,
            Seq<char>,
        >(entries[n - 1]));
        a_stored_target_reads_back(registration.target, environment);
        assert(!registered(before, registration.name)) by {
            if registered(before, registration.name) {
                let i = choose|i: int|
                    0 <= i < before.len() && #[trigger] before[i].name == registration.name;
                assert(registrations[i].name == registrations[n - 1].name);
            }
        }
        assert(before.push(registration) =~= registrations.take(n));
    }
}

} // verus!
