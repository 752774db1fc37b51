//! How a changed file reaches Git: where its worktree is looked for, and what Git is told.

use vstd::prelude::*;
use vstd::utf8;

use crate::config_git;
use crate::config_git::{
    ConfigGitErrorView,
    GitCommand,
    GitEventView,
    GitOutputView,
    GitPhaseView,
    GitRequestView,
    GitSyncView,
};
use crate::host::IoErrorView;
use crate::path;
use crate::text;

verus! {

/// The host is asked to run Git in a directory.
pub open spec fn runs(state: GitSyncView, directory: Seq<u8>, arguments: Seq<Seq<char>>) -> bool {
    state.request() == (GitRequestView::Run { directory, arguments })
}

pub open spec fn ran(code: Option<i32>, output: GitOutputView) -> GitEventView {
    GitEventView::Output(Ok(GitOutputView { code, ..output }))
}

/// Git is told to stage the file, to check whether it is changed, to commit it alone, and to push:
/// each only once the one before has succeeded, all in the worktree of the file. Where nothing is
/// changed, it is neither committed nor pushed.
pub proof fn what_git_is_told(
    state: GitSyncView,
    worktree: Seq<u8>,
    file: Seq<char>,
    output: GitOutputView,
)
    requires
        state.phase == (GitPhaseView::Running { command: GitCommand::Stage, worktree, file }),
    ensures
        ({
            let staged = state.advance(ran(Some(0), output));
            let changed = staged.advance(ran(Some(1), output));
            let committed = changed.advance(ran(Some(0), output));
            let pushed = committed.advance(ran(Some(0), output));
            &&& runs(state, worktree, seq!["add"@, "--"@, file])
            &&& runs(
                staged,
                worktree,
                seq!["diff"@, "--cached"@, "--quiet"@, "--"@, file],
            )
            &&& runs(
                changed,
                worktree,
                seq!["commit"@, "--only"@, "-m"@, "Update bintui configuration"@, "--"@, file],
            )
            &&& runs(committed, worktree, seq!["push"@])
            &&& pushed.phase == GitPhaseView::Finished(Ok(()))
            &&& staged.advance(ran(Some(0), output)).phase == GitPhaseView::Finished(Ok(()))
        }),
{
}

/// A command fails where it ends with anything but success, and but for a check that finds the file
/// changed; or where it cannot be run. What it was to do is told, where, and why it did not: what
/// Git said in its errors, else in its output, else how it ended. Nothing is run after that.
pub proof fn how_git_fails(
    state: GitSyncView,
    command: GitCommand,
    worktree: Seq<u8>,
    file: Seq<char>,
    code: Option<i32>,
    output: GitOutputView,
    source: IoErrorView,
)
    requires
        state.phase == (GitPhaseView::Running { command, worktree, file }),
        code != Some(0i32),
        command == GitCommand::Check ==> code != Some(1i32),
    ensures
        ({
            let action = match command {
                GitCommand::Stage => "staging the bintui change"@,
                GitCommand::Check => "checking the staged bintui change"@,
                GitCommand::Commit => "committing the bintui change"@,
                GitCommand::Push => "pushing the bintui change"@,
            };
            let errors = text::trimmed_text(text::lossy_text(output.stderr));
            let said = text::trimmed_text(text::lossy_text(output.stdout));
            let message = if errors.len() > 0 {
                errors
            } else if said.len() > 0 {
                said
            } else {
                "git exited with "@ + output.status
            };
            &&& state.advance(ran(code, output)).phase == GitPhaseView::Finished(
                Err(ConfigGitErrorView::Failed { action, config_home: worktree, message }),
            )
            &&& state.advance(GitEventView::Output(Err(source))).phase == GitPhaseView::Finished(
                Err(ConfigGitErrorView::Execute { action, config_home: worktree, source }),
            )
        }),
{
}

/// What an error of Git says.
pub proof fn what_an_error_of_git_says(
    action: Seq<char>,
    directory: Seq<u8>,
    p: Seq<u8>,
    message: Seq<char>,
    source: IoErrorView,
)
    ensures
        (ConfigGitErrorView::Failed { action, config_home: directory, message }).message()
            == "git failed while "@ + action + " in "@ + text::lossy_text(directory) + ": "@
            + message,
        (ConfigGitErrorView::Execute { action, config_home: directory, source }).message()
            == "could not run git while "@ + action + " in "@ + text::lossy_text(directory) + ": "@
            + source.message,
        (ConfigGitErrorView::OutsideConfigHome { path: p, config_home: directory }).message()
            == "configuration change "@ + text::lossy_text(p) + " is outside XDG_CONFIG_HOME "@
            + text::lossy_text(directory),
        ConfigGitErrorView::NonUtf8Path(p).message()
            == "configuration change path is not valid UTF-8: "@ + text::lossy_text(p),
{
}

/// The host is asked whether there is a `.git` in the directory with these names.
pub open spec fn asks_about(state: GitSyncView, names: Seq<Seq<u8>>) -> bool {
    state.request() matches GitRequestView::Exists(entry) && path::names(entry) == names.push(
        utf8::encode_utf8(".git"@),
    )
}

/// The directory with the first names of a path.
proof fn names_of_an_ancestor(physical: Seq<u8>, kept: int)
    requires
        0 <= kept <= path::names(physical).len(),
    ensures
        path::names(config_git::ancestor(physical, kept)) == path::names(physical).take(kept),
        path::absolute(config_git::ancestor(physical, kept)) == path::absolute(physical),
{
    path::names_are_clean(physical);
    let ns = path::names(physical).take(kept);
    assert forall|i: int| 0 <= i < ns.len() implies path::clean_name(#[trigger] ns[i]) by {
        assert(path::clean_name(path::names(physical)[i]));
    }
    path::names_of_rendered(path::absolute(physical), ns);
}

proof fn entry_of_a_directory(directory: Seq<u8>)
    ensures
        path::names(config_git::git_entry(directory)) == path::names(directory).push(
            utf8::encode_utf8(".git"@),
        ),
{
    reveal_strlit(".git");
    assert(crate::registry::valid_name(".git"@)) by {
        reveal_strlit(".");
        reveal_strlit("..");
        assert(".git"@.len() == 4);
        assert(forall|i: int| 0 <= i < 4 ==> #[trigger] ".git"@[i] != '/' && ".git"@[i] != '\0');
    }
    crate::registry::valid_name_is_clean(".git"@);
    let name = utf8::encode_utf8(".git"@);
    path::names_of_clean_name(name);
    path::names_of_joined(directory, name);
    assert(path::names(directory) + seq![name] =~= path::names(directory).push(name));
}

/// A worktree is looked for from the directory of the file that was changed upwards, first where the
/// file really lies.
pub proof fn where_a_worktree_is_looked_for(state: GitSyncView, resolved: Option<Seq<u8>>)
    requires
        state.phase is Resolving,
    ensures
        ({
            let physical = match resolved {
                Some(physical) => physical,
                None => state.changed,
            };
            let names = path::names(physical);
            let first = state.advance(GitEventView::Resolved(resolved));
            &&& state.request() == GitRequestView::Resolve(state.changed)
            &&& names.len() == 0 ==> first.phase == GitPhaseView::Finished(Ok(()))
            &&& names.len() > 0 ==> asks_about(first, names.drop_last())
            &&& names.len() > 0 ==> first.phase == (GitPhaseView::Locating {
                physical,
                kept: names.len() - 1,
            })
        }),
{
    let physical = match resolved {
        Some(physical) => physical,
        None => state.changed,
    };
    let names = path::names(physical);
    if names.len() > 0 {
        names_of_an_ancestor(physical, names.len() - 1);
        entry_of_a_directory(config_git::ancestor(physical, names.len() - 1));
        assert(names.take(names.len() - 1) =~= names.drop_last());
    }
}

/// The first directory that has a `.git` is the worktree; where none has, there is nothing to do.
/// The file is named by the way from the worktree to it.
pub proof fn which_worktree_is_taken(state: GitSyncView, physical: Seq<u8>, kept: int)
    requires
        state.phase == (GitPhaseView::Locating { physical, kept }),
        0 <= kept < path::names(physical).len(),
    ensures
        asks_about(state, path::names(physical).take(kept)),
        ({
            let missed = state.advance(GitEventView::Exists(false));
            &&& kept == 0 ==> missed.phase == GitPhaseView::Finished(Ok(()))
            &&& kept > 0 ==> asks_about(missed, path::names(physical).take(kept - 1))
        }),
        match state.advance(GitEventView::Exists(true)).phase {
            GitPhaseView::Running { command, worktree, file } => {
                &&& command == GitCommand::Stage
                &&& path::names(worktree) == path::names(physical).take(kept)
                &&& path::absolute(worktree) == path::absolute(physical)
                &&& path::names(utf8::encode_utf8(file)) == path::names(physical).skip(kept)
                &&& !path::absolute(utf8::encode_utf8(file))
            },
            GitPhaseView::Finished(Err(ConfigGitErrorView::NonUtf8Path(relative))) => {
                &&& path::names(relative) == path::names(physical).skip(kept)
                &&& !utf8::valid_utf8(relative)
            },
            _ => false,
        },
{
    let names = path::names(physical);
    names_of_an_ancestor(physical, kept);
    entry_of_a_directory(config_git::ancestor(physical, kept));
    if kept > 0 {
        names_of_an_ancestor(physical, kept - 1);
        entry_of_a_directory(config_git::ancestor(physical, kept - 1));
    }
    path::names_are_clean(physical);
    let rest = names.skip(kept);
    assert forall|i: int| 0 <= i < rest.len() implies path::clean_name(#[trigger] rest[i]) by {
        assert(path::clean_name(names[i + kept]));
    }
    path::names_of_rendered(false, rest);
    let relative = path::rendered(false, rest);
    if utf8::valid_utf8(relative) {
        utf8::decode_utf8_encode_utf8(relative);
    }
}

/// A file outside the directory for configuration is an error where that directory is a worktree,
/// and of no concern where it is none. Nothing is run for it.
pub proof fn a_stray_file(state: GitSyncView, found: bool)
    requires
        state.phase is Stray,
    ensures
        asks_about(state, path::names(state.config_home)),
        state.advance(GitEventView::Exists(found)).phase == GitPhaseView::Finished(
            if found {
                Err(
                    ConfigGitErrorView::OutsideConfigHome {
                        path: state.changed,
                        config_home: state.config_home,
                    },
                )
            } else {
                Ok(())
            },
        ),
{
    entry_of_a_directory(state.config_home);
}

} // verus!
