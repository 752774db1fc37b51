//! Keeping configuration in Git: one changed file is committed and pushed, if it lies in a
//! worktree. The host runs the commands; this machine decides which, and what their outcomes mean.

use vstd::prelude::*;
use vstd::utf8;

use crate::configuration;
use crate::environment::Environment;
use crate::host::{IoError, IoErrorView};
use crate::path;
use crate::path::PathBuf;
use crate::text;
use crate::views;

verus! {

pub const COMMIT_MESSAGE: &'static str = "Update bintui configuration";

#[derive(Debug, PartialEq, Eq)]
pub enum ConfigGitError {
    OutsideConfigHome { path: PathBuf, config_home: PathBuf },
    NonUtf8Path(PathBuf),
    Execute { action: &'static str, config_home: PathBuf, source: IoError },
    Failed { action: &'static str, config_home: PathBuf, message: String },
}

#[verifier::ext_equal]
pub enum ConfigGitErrorView {
    OutsideConfigHome { path: Seq<u8>, config_home: Seq<u8> },
    NonUtf8Path(Seq<u8>),
    Execute { action: Seq<char>, config_home: Seq<u8>, source: IoErrorView },
    Failed { action: Seq<char>, config_home: Seq<u8>, message: Seq<char> },
}

impl View for ConfigGitError {
    type V = ConfigGitErrorView;

    open spec fn view(&self) -> ConfigGitErrorView {
        match *self {
            ConfigGitError::OutsideConfigHome { path, config_home } =>
                ConfigGitErrorView::OutsideConfigHome { path: path@, config_home: config_home@ },
            ConfigGitError::NonUtf8Path(path) => ConfigGitErrorView::NonUtf8Path(path@),
            ConfigGitError::Execute { action, config_home, source } =>
                ConfigGitErrorView::Execute {
                action: action@,
                config_home: config_home@,
                source: source@,
            },
            ConfigGitError::Failed { action, config_home, message } => ConfigGitErrorView::Failed {
                action: action@,
                config_home: config_home@,
                message: message@,
            },
        }
    }
}

impl ConfigGitErrorView {
    /// What the error says.
    pub open spec fn message(self) -> Seq<char> {
        match self {
            ConfigGitErrorView::OutsideConfigHome { path, config_home } => "configuration change "@
                + text::lossy_text(path) + " is outside XDG_CONFIG_HOME "@ + text::lossy_text(
                config_home,
            ),
            ConfigGitErrorView::NonUtf8Path(path) =>
                "configuration change path is not valid UTF-8: "@ + text::lossy_text(path),
            ConfigGitErrorView::Execute { action, config_home, source } =>
                "could not run git while "@ + action + " in "@ + text::lossy_text(config_home)
                + ": "@ + source.message,
            ConfigGitErrorView::Failed { action, config_home, message } =>
                "git failed while "@ + action + " in "@ + text::lossy_text(config_home) + ": "@
                + message,
        }
    }
}

impl ConfigGitError {
    /// What the error says.
    pub fn message(&self) -> (r: String)
        ensures
            r@ == self@.message(),
    {
        match self {
            ConfigGitError::OutsideConfigHome { path, config_home } => {
                let mut m = text::joined3(
                    "configuration change ",
                    &path.display(),
                    " is outside XDG_CONFIG_HOME ",
                );
                m.append(&config_home.display());
                m
            },
            ConfigGitError::NonUtf8Path(path) => text::joined(
                "configuration change path is not valid UTF-8: ",
                &path.display(),
            ),
            ConfigGitError::Execute { action, config_home, source } => {
                let mut m = text::joined3("could not run git while ", action, " in ");
                m.append(&config_home.display());
                m.append(": ");
                m.append(&source.message);
                m
            },
            ConfigGitError::Failed { action, config_home, message } => {
                let mut m = text::joined3("git failed while ", action, " in ");
                m.append(&config_home.display());
                m.append(": ");
                m.append(message);
                m
            },
        }
    }
}

/// What a Git command left behind: its exit code, if it exited, how its status reads, and what it
/// printed.
#[derive(Debug)]
pub struct GitOutput {
    pub code: Option<i32>,
    pub status: String,
    pub stdout: Vec<u8>,
    pub stderr: Vec<u8>,
}

#[verifier::ext_equal]
pub struct GitOutputView {
    pub code: Option<i32>,
    pub status: Seq<char>,
    pub stdout: Seq<u8>,
    pub stderr: Seq<u8>,
}

impl View for GitOutput {
    type V = GitOutputView;

    open spec fn view(&self) -> GitOutputView {
        GitOutputView {
            code: self.code,
            status: self.status@,
            stdout: self.stdout@,
            stderr: self.stderr@,
        }
    }
}

/// What a failed command has to say: its errors, else its output, else its status.
pub open spec fn failure_message(output: GitOutputView) -> Seq<char> {
    let stderr = text::trimmed_text(text::lossy_text(output.stderr));
    let stdout = text::trimmed_text(text::lossy_text(output.stdout));
    if stderr.len() > 0 {
        stderr
    } else if stdout.len() > 0 {
        stdout
    } else {
        "git exited with "@ + output.status
    }
}

fn command_failure(action: &'static str, worktree: PathBuf, output: &GitOutput) -> (r:
    ConfigGitError)
    ensures
        r@ == (ConfigGitErrorView::Failed {
            action: action@,
            config_home: worktree@,
            message: failure_message(output@),
        }),
{
    let stderr = text::trimmed(&text::lossy(&output.stderr));
    let stdout = text::trimmed(&text::lossy(&output.stdout));
    let message = if !stderr.as_str().is_empty() {
        stderr
    } else if !stdout.as_str().is_empty() {
        stdout
    } else {
        text::joined("git exited with ", &output.status)
    };
    ConfigGitError::Failed { action, config_home: worktree, message }
}

/// The commands that a change goes through.
#[derive(Clone, Copy, Debug, PartialEq, Eq, Structural)]
pub enum GitCommand {
    Stage,
    Check,
    Commit,
    Push,
}

impl GitCommand {
    /// What the command is doing, for messages.
    pub open spec fn action_text(self) -> Seq<char> {
        match self {
            GitCommand::Stage => "staging the bintui change"@,
            GitCommand::Check => "checking the staged bintui change"@,
            GitCommand::Commit => "committing the bintui change"@,
            GitCommand::Push => "pushing the bintui change"@,
        }
    }

    /// The command line behind `git`, for one file of a worktree.
    pub open spec fn arguments_for(self, file: Seq<char>) -> Seq<Seq<char>> {
        match self {
            GitCommand::Stage => seq!["add"@, "--"@, file],
            GitCommand::Check => seq!["diff"@, "--cached"@, "--quiet"@, "--"@, file],
            GitCommand::Commit => seq![
                "commit"@,
                "--only"@,
                "-m"@,
                COMMIT_MESSAGE@,
                "--"@,
                file,
            ],
            GitCommand::Push => seq!["push"@],
        }
    }

    fn action(&self) -> (r: &'static str)
        ensures
            r@ == self.action_text(),
    {
        match self {
            GitCommand::Stage => "staging the bintui change",
            GitCommand::Check => "checking the staged bintui change",
            GitCommand::Commit => "committing the bintui change",
            GitCommand::Push => "pushing the bintui change",
        }
    }

    fn arguments(&self, file: &String) -> (r: Vec<String>)
        ensures
            views::views(r@) == self.arguments_for(file@),
    {
        let mut r: Vec<String> = Vec::new();
        match self {
            GitCommand::Stage => {
                r.push("add".to_owned());
                r.push("--".to_owned());
                r.push(file.clone());
            },
            GitCommand::Check => {
                r.push("diff".to_owned());
                r.push("--cached".to_owned());
                r.push("--quiet".to_owned());
                r.push("--".to_owned());
                r.push(file.clone());
            },
            GitCommand::Commit => {
                r.push("commit".to_owned());
                r.push("--only".to_owned());
                r.push("-m".to_owned());
                r.push(COMMIT_MESSAGE.to_owned());
                r.push("--".to_owned());
                r.push(file.clone());
            },
            GitCommand::Push => {
                r.push("push".to_owned());
            },
        }
        assert(views::views(r@) =~= self.arguments_for(file@));
        r
    }
}

/// Where a synchronization stands.
#[derive(Debug)]
pub enum GitPhase {
    /// The change lies outside the configuration directory: is that a worktree?
    Stray,
    /// Where does the changed file really lie?
    Resolving,
    /// Is the directory made of the first `kept` names of the file's path a worktree?
    Locating { physical: PathBuf, kept: usize },
    Running { command: GitCommand, worktree: PathBuf, file: String },
    Finished(Result<(), ConfigGitError>),
}

#[verifier::ext_equal]
pub enum GitPhaseView {
    Stray,
    Resolving,
    Locating { physical: Seq<u8>, kept: int },
    Running { command: GitCommand, worktree: Seq<u8>, file: Seq<char> },
    Finished(Result<(), ConfigGitErrorView>),
}

impl View for GitPhase {
    type V = GitPhaseView;

    open spec fn view(&self) -> GitPhaseView {
        match *self {
            GitPhase::Stray => GitPhaseView::Stray,
            GitPhase::Resolving => GitPhaseView::Resolving,
            GitPhase::Locating { physical, kept } => GitPhaseView::Locating {
                physical: physical@,
                kept: kept as int,
            },
            GitPhase::Running { command, worktree, file } => GitPhaseView::Running {
                command,
                worktree: worktree@,
                file: file@,
            },
            GitPhase::Finished(outcome) => GitPhaseView::Finished(
                match outcome {
                    Ok(_) => Ok(()),
                    Err(error) => Err(error@),
                },
            ),
        }
    }
}

/// A synchronization under way.
#[derive(Debug)]
pub struct GitSync {
    changed: PathBuf,
    config_home: PathBuf,
    phase: GitPhase,
}

#[verifier::ext_equal]
pub struct GitSyncView {
    pub changed: Seq<u8>,
    pub config_home: Seq<u8>,
    pub phase: GitPhaseView,
}

impl View for GitSync {
    type V = GitSyncView;

    closed spec fn view(&self) -> GitSyncView {
        GitSyncView {
            changed: self.changed@,
            config_home: self.config_home@,
            phase: self.phase@,
        }
    }
}

/// What the host is asked to do next.
#[derive(Debug, PartialEq, Eq)]
pub enum GitRequest {
    Resolve(PathBuf),
    Exists(PathBuf),
    Run { directory: PathBuf, arguments: Vec<String> },
    Finish,
}

#[verifier::ext_equal]
pub enum GitRequestView {
    Resolve(Seq<u8>),
    Exists(Seq<u8>),
    Run { directory: Seq<u8>, arguments: Seq<Seq<char>> },
    Finish,
}

impl View for GitRequest {
    type V = GitRequestView;

    open spec fn view(&self) -> GitRequestView {
        match *self {
            GitRequest::Resolve(path) => GitRequestView::Resolve(path@),
            GitRequest::Exists(path) => GitRequestView::Exists(path@),
            GitRequest::Run { directory, arguments } => GitRequestView::Run {
                directory: directory@,
                arguments: views::views(arguments@),
            },
            GitRequest::Finish => GitRequestView::Finish,
        }
    }
}

/// What the host reports.
#[derive(Debug)]
pub enum GitEvent {
    Resolved(Option<PathBuf>),
    Exists(bool),
    Output(Result<GitOutput, IoError>),
}

#[verifier::ext_equal]
pub enum GitEventView {
    Resolved(Option<Seq<u8>>),
    Exists(bool),
    Output(Result<GitOutputView, IoErrorView>),
}

impl View for GitEvent {
    type V = GitEventView;

    open spec fn view(&self) -> GitEventView {
        match *self {
            GitEvent::Resolved(path) => GitEventView::Resolved(views::view_of(path)),
            GitEvent::Exists(found) => GitEventView::Exists(found),
            GitEvent::Output(outcome) => GitEventView::Output(
                match outcome {
                    Ok(output) => Ok(output@),
                    Err(source) => Err(source@),
                },
            ),
        }
    }
}

/// The directory made of the first names of a path.
pub open spec fn ancestor(s: Seq<u8>, kept: int) -> Seq<u8> {
    path::rendered(path::absolute(s), path::names(s).take(kept))
}

pub open spec fn git_entry(directory: Seq<u8>) -> Seq<u8> {
    path::joined(directory, utf8::encode_utf8(".git"@))
}

impl GitSyncView {
    pub open spec fn request(self) -> GitRequestView {
        match self.phase {
            GitPhaseView::Stray => GitRequestView::Exists(git_entry(self.config_home)),
            GitPhaseView::Resolving => GitRequestView::Resolve(self.changed),
            GitPhaseView::Locating { physical, kept } => GitRequestView::Exists(
                git_entry(ancestor(physical, kept)),
            ),
            GitPhaseView::Running { command, worktree, file } => GitRequestView::Run {
                directory: worktree,
                arguments: command.arguments_for(file),
            },
            GitPhaseView::Finished(_) => GitRequestView::Finish,
        }
    }

    pub open spec fn at(self, phase: GitPhaseView) -> Self {
        GitSyncView { phase, ..self }
    }

    /// The search for a worktree, from the directory that holds the file upwards.
    pub open spec fn locate(self, physical: Seq<u8>) -> Self {
        let n = path::names(physical).len();
        if n == 0 {
            self.at(GitPhaseView::Finished(Ok(())))
        } else {
            self.at(GitPhaseView::Locating { physical, kept: n - 1 })
        }
    }

    /// The first command for a file found in a worktree.
    pub open spec fn stage(self, physical: Seq<u8>, kept: int) -> Self {
        let worktree = ancestor(physical, kept);
        let relative = path::rendered(false, path::names(physical).skip(kept));
        if utf8::valid_utf8(relative) {
            self.at(
                GitPhaseView::Running {
                    command: GitCommand::Stage,
                    worktree,
                    file: utf8::decode_utf8(relative),
                },
            )
        } else {
            self.at(GitPhaseView::Finished(Err(ConfigGitErrorView::NonUtf8Path(relative))))
        }
    }

    /// What the outcome of a command leads to.
    pub open spec fn ran(
        self,
        command: GitCommand,
        worktree: Seq<u8>,
        file: Seq<char>,
        outcome: Result<GitOutputView, IoErrorView>,
    ) -> Self {
        match outcome {
            Err(source) => self.at(
                GitPhaseView::Finished(
                    Err(
                        ConfigGitErrorView::Execute {
                            action: command.action_text(),
                            config_home: worktree,
                            source,
                        },
                    ),
                ),
            ),
            Ok(output) => {
                let next = |command: GitCommand|
                    self.at(GitPhaseView::Running { command, worktree, file });
                let failed = self.at(
                    GitPhaseView::Finished(
                        Err(
                            ConfigGitErrorView::Failed {
                                action: command.action_text(),
                                config_home: worktree,
                                message: failure_message(output),
                            },
                        ),
                    ),
                );
                match (command, output.code) {
                    (GitCommand::Stage, Some(0)) => next(GitCommand::Check),
                    (GitCommand::Check, Some(0)) => self.at(GitPhaseView::Finished(Ok(()))),
                    (GitCommand::Check, Some(1)) => next(GitCommand::Commit),
                    (GitCommand::Commit, Some(0)) => next(GitCommand::Push),
                    (GitCommand::Push, Some(0)) => self.at(GitPhaseView::Finished(Ok(()))),
                    _ => failed,
                }
            },
        }
    }

    /// The state once the host has reported; a report that was not asked for changes nothing.
    pub open spec fn advance(self, event: GitEventView) -> Self {
        match (self.phase, event) {
            (GitPhaseView::Stray, GitEventView::Exists(found)) => self.at(
                GitPhaseView::Finished(
                    if found {
                        Err(
                            ConfigGitErrorView::OutsideConfigHome {
                                path: self.changed,
                                config_home: self.config_home,
                            },
                        )
                    } else {
                        Ok(())
                    },
                ),
            ),
            (GitPhaseView::Resolving, GitEventView::Resolved(found)) => self.locate(
                match found {
                    Some(physical) => physical,
                    None => self.changed,
                },
            ),
            (GitPhaseView::Locating { physical, kept }, GitEventView::Exists(found)) => if found {
                self.stage(physical, kept)
            } else if kept <= 0 {
                self.at(GitPhaseView::Finished(Ok(())))
            } else {
                self.at(GitPhaseView::Locating { physical, kept: kept - 1 })
            },
            (
                GitPhaseView::Running { command, worktree, file },
                GitEventView::Output(outcome),
            ) => self.ran(command, worktree, file, outcome),
            _ => self,
        }
    }
}

/// Begins to commit and push one changed file, where it lies in a Git worktree. Other staged or
/// unstaged files are left out of the commit.
pub fn commit_and_push(changed: PathBuf, environment: &Environment) -> (r: GitSync)
    ensures
        r@ == (GitSyncView {
            changed: changed@,
            config_home: configuration::config_home_of(environment@),
            phase: if path::starts_with(
                changed@,
                configuration::config_home_of(environment@),
            ) {
                GitPhaseView::Resolving
            } else {
                GitPhaseView::Stray
            },
        }),
        r.wf(),
{
    let config_home = configuration::config_home(environment);
    let phase = if changed.starts_with(&config_home) {
        GitPhase::Resolving
    } else {
        GitPhase::Stray
    };
    GitSync { changed, config_home, phase }
}

fn ancestor_of(physical: &PathBuf, kept: usize) -> (r: PathBuf)
    requires
        kept <= path::names(physical@).len(),
    ensures
        r@ == ancestor(physical@, kept as int),
{
    let mut all = physical.names();
    all.truncate(kept);
    assert(views::views(all@) =~= path::names(physical@).take(kept as int));
    PathBuf::from_names(physical.is_absolute(), &all)
}

impl GitSync {
    /// A file is looked for only in directories that hold it.
    pub closed spec fn wf(self) -> bool {
        self.phase matches GitPhase::Locating { physical, kept } ==> kept < path::names(
            physical@,
        ).len()
    }

    /// What the host is to do next.
    pub fn request(&self) -> (r: GitRequest)
        requires
            self.wf(),
        ensures
            r@ == self@.request(),
    {
        match &self.phase {
            GitPhase::Stray => GitRequest::Exists(self.config_home.join_text(".git")),
            GitPhase::Resolving => GitRequest::Resolve(self.changed.clone()),
            GitPhase::Locating { physical, kept } => GitRequest::Exists(
                ancestor_of(physical, *kept).join_text(".git"),
            ),
            GitPhase::Running { command, worktree, file } => GitRequest::Run {
                directory: worktree.clone(),
                arguments: command.arguments(file),
            },
            GitPhase::Finished(_) => GitRequest::Finish,
        }
    }

    fn locate(self, physical: PathBuf) -> (r: Self)
        ensures
            r@ == self@.locate(physical@),
            r.wf(),
    {
        let all = physical.names();
        assert(views::views(all@).len() == all@.len());
        let phase = if all.len() == 0 {
            GitPhase::Finished(Ok(()))
        } else {
            GitPhase::Locating { physical, kept: all.len() - 1 }
        };
        GitSync { changed: self.changed, config_home: self.config_home, phase }
    }

    fn stage(changed: PathBuf, config_home: PathBuf, physical: PathBuf, kept: usize) -> (r: Self)
        requires
            kept <= path::names(physical@).len(),
        ensures
            r@ == (GitSyncView {
                changed: changed@,
                config_home: config_home@,
                phase: GitPhaseView::Resolving,
            }).stage(physical@, kept as int),
            r.wf(),
    {
        let worktree = ancestor_of(&physical, kept);
        let mut all = physical.names();
        let rest = all.split_off(kept);
        assert(views::views(rest@) =~= path::names(physical@).skip(kept as int));
        let relative = PathBuf::from_names(false, &rest);
        let phase = match relative.to_text() {
            Some(file) => GitPhase::Running { command: GitCommand::Stage, worktree, file },
            None => GitPhase::Finished(Err(ConfigGitError::NonUtf8Path(relative))),
        };
        GitSync { changed, config_home, phase }
    }

    fn ran(
        command: GitCommand,
        worktree: PathBuf,
        file: String,
        outcome: Result<GitOutput, IoError>,
        state: Ghost<GitSyncView>,
    ) -> (r: GitPhase)
        ensures
            r@ == state@.ran(
                command,
                worktree@,
                file@,
                match outcome {
                    Ok(output) => Ok(output@),
                    Err(source) => Err(source@),
                },
            ).phase,
            r !is Locating,
    {
        match outcome {
            Err(source) => GitPhase::Finished(
                Err(
                    ConfigGitError::Execute {
                        action: command.action(),
                        config_home: worktree,
                        source,
                    },
                ),
            ),
            Ok(output) => match (command, output.code) {
                (GitCommand::Stage, Some(0)) => GitPhase::Running {
                    command: GitCommand::Check,
                    worktree,
                    file,
                },
                (GitCommand::Check, Some(0)) => GitPhase::Finished(Ok(())),
                (GitCommand::Check, Some(1)) => GitPhase::Running {
                    command: GitCommand::Commit,
                    worktree,
                    file,
                },
                (GitCommand::Commit, Some(0)) => GitPhase::Running {
                    command: GitCommand::Push,
                    worktree,
                    file,
                },
                (GitCommand::Push, Some(0)) => GitPhase::Finished(Ok(())),
                _ => GitPhase::Finished(
                    Err(command_failure(command.action(), worktree, &output)),
                ),
            },
        }
    }

    /// The state once the host has reported; a report that was not asked for changes nothing.
    pub fn advance(self, event: GitEvent) -> (r: Self)
        requires
            self.wf(),
        ensures
            r@ == self@.advance(event@),
            r.wf(),
    {
        let ghost before = self@;
        let GitSync { changed, config_home, phase } = self;
        match (phase, event) {
            (GitPhase::Stray, GitEvent::Exists(found)) => {
                let outcome = if found {
                    Err(
                        ConfigGitError::OutsideConfigHome {
                            path: changed.clone(),
                            config_home: config_home.clone(),
                        },
                    )
                } else {
                    Ok(())
                };
                GitSync { changed, config_home, phase: GitPhase::Finished(outcome) }
            },
            (GitPhase::Resolving, GitEvent::Resolved(found)) => {
                let physical = match found {
                    Some(physical) => physical,
                    None => changed.clone(),
                };
                GitSync { changed, config_home, phase: GitPhase::Resolving }.locate(physical)
            },
            (GitPhase::Locating { physical, kept }, GitEvent::Exists(found)) => if found {
                GitSync::stage(changed, config_home, physical, kept)
            } else if kept == 0 {
                GitSync { changed, config_home, phase: GitPhase::Finished(Ok(())) }
            } else {
                GitSync {
                    changed,
                    config_home,
                    phase: GitPhase::Locating { physical, kept: kept - 1 },
                }
            },
            (GitPhase::Running { command, worktree, file }, GitEvent::Output(outcome)) => {
                let phase = GitSync::ran(command, worktree, file, outcome, Ghost(before));
                GitSync { changed, config_home, phase }
            },
            (phase, _) => GitSync { changed, config_home, phase },
        }
    }

    /// The outcome of a synchronization that is over.
    pub fn outcome(self) -> (r: Option<Result<(), ConfigGitError>>)
        ensures
            match self@.phase {
                GitPhaseView::Finished(Ok(_)) => r is Some && r->0 is Ok,
                GitPhaseView::Finished(Err(error)) => r is Some && r->0 is Err && r->0->Err_0@
                    == error,
                _ => r is None,
            },
    {
        match self.phase {
            GitPhase::Finished(outcome) => Some(outcome),
            _ => None,
        }
    }
}

/// A push follows a successful commit of the same file of the same worktree.
pub proof fn a_push_follows_a_commit(
    state: GitSyncView,
    event: GitEventView,
    worktree: Seq<u8>,
    file: Seq<char>,
)
    requires
        state.advance(event).phase == (GitPhaseView::Running {
            command: GitCommand::Push,
            worktree,
            file,
        }),
        state.advance(event) != state,
    ensures
        state.phase == (GitPhaseView::Running { command: GitCommand::Commit, worktree, file }),
        event matches GitEventView::Output(Ok(output)) && output.code == Some(0i32),
{
}

/// A commit follows a check that found the file changed.
pub proof fn a_commit_follows_a_check(
    state: GitSyncView,
    event: GitEventView,
    worktree: Seq<u8>,
    file: Seq<char>,
)
    requires
        state.advance(event).phase == (GitPhaseView::Running {
            command: GitCommand::Commit,
            worktree,
            file,
        }),
        state.advance(event) != state,
    ensures
        state.phase == (GitPhaseView::Running { command: GitCommand::Check, worktree, file }),
        event matches GitEventView::Output(Ok(output)) && output.code == Some(1i32),
{
}

/// The file that is staged is the one that was found: taken from the worktree it has the names of
/// the changed file's physical path.
pub proof fn the_staged_file_is_the_changed_one(state: GitSyncView, physical: Seq<u8>, kept: int)
    requires
        0 <= kept <= path::names(physical).len(),
    ensures
        state.stage(physical, kept).phase matches GitPhaseView::Running { worktree, file, .. } ==> {
            let whole = path::joined(worktree, utf8::encode_utf8(file));
            path::names(whole) == path::names(physical) && path::absolute(whole)
                == path::absolute(physical)
        },
{
    if let GitPhaseView::Running { worktree, file, .. } = state.stage(physical, kept).phase {
        let all = path::names(physical);
        let rooted = path::absolute(physical);
        let relative = path::rendered(false, all.skip(kept));
        path::names_are_clean(physical);
        assert forall|i: int| 0 <= i < all.take(kept).len() implies path::clean_name(
            #[trigger] all.take(kept)[i],
        ) by {
            assert(all.take(kept)[i] == all[i]);
        }
        assert forall|i: int| 0 <= i < all.skip(kept).len() implies path::clean_name(
            #[trigger] all.skip(kept)[i],
        ) by {
            assert(all.skip(kept)[i] == all[kept + i]);
        }
        path::names_of_rendered(rooted, all.take(kept));
        path::names_of_rendered(false, all.skip(kept));
        utf8::decode_utf8_encode_utf8(relative);
        path::names_of_joined(worktree, relative);
        assert(all.take(kept) + all.skip(kept) =~= all);
        if worktree.len() > 0 {
            path::lead_of_joined(worktree, relative);
        } else {
            assert(path::joined(worktree, relative) =~= relative);
        }
    }
}

/// One synchronization has to do with one file of one worktree, and every command but the push
/// names that file and no other, behind `--`.
pub proof fn commands_name_one_file(
    state: GitSyncView,
    event: GitEventView,
    command: GitCommand,
    worktree: Seq<u8>,
    file: Seq<char>,
)
    requires
        state.phase == (GitPhaseView::Running { command, worktree, file }),
    ensures
        state.advance(event).phase matches GitPhaseView::Running {
            worktree: next_worktree,
            file: next_file,
            ..
        } ==> next_worktree == worktree && next_file == file,
        state.request() == (GitRequestView::Run {
            directory: worktree,
            arguments: command.arguments_for(file),
        }),
        command != GitCommand::Push ==> {
            let arguments = command.arguments_for(file);
            &&& arguments.len() >= 2
            &&& arguments[arguments.len() - 2] == "--"@
            &&& arguments.last() == file
        },
{
}

/// The commands end well only with a push that succeeded or a check that found nothing to commit;
/// any other end is an error.
pub proof fn a_failed_command_is_reported(state: GitSyncView, event: GitEventView)
    requires
        state.phase is Running,
        event matches GitEventView::Output(_),
        state.advance(event).phase is Finished,
    ensures
        state.advance(event).phase == GitPhaseView::Finished(Ok(())) <==> (event
            matches GitEventView::Output(Ok(output)) && output.code == Some(0i32) && (
        state.phase->command == GitCommand::Push || state.phase->command == GitCommand::Check)),
{
}

} // verus!
