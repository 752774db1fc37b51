//! What is left out of discovery: the paths on the list, how one is added to it, and what the
//! patterns keep a walk out of.

use vstd::prelude::*;
use vstd::utf8;

use crate::application;
use crate::application::ApplicationErrorView;
use crate::atomic_write::{WriteFailureView, WriteStage};
use crate::config_git::ConfigGitErrorView;
use crate::configuration;
use crate::discovery;
use crate::discovery::{WalkEventView, WalkPhaseView, WalkView};
use crate::discovery_ignore;
use crate::discovery_ignore::{
    DiscoveryIgnoreErrorView,
    IgnoreEventView,
    IgnoreFileView,
    IgnorePhaseView,
};
use crate::environment::EnvironmentView;
use crate::host::{FileFacts, FileReadView, IoErrorKind, IoErrorView};
use crate::path;
use crate::patterns;
use crate::reading_laws;
use crate::registry;
use crate::search;
use crate::text;
use crate::value_laws;
use crate::views;

verus! {

/// A path that the user names is taken from the working directory, unless it begins at the root, and
/// every `..` in it is resolved.
pub proof fn where_a_named_path_leads(target: Seq<u8>, environment: EnvironmentView)
    ensures
        ({
            let made = application::absolute_of(target, environment);
            &&& path::absolute(target) ==> {
                &&& path::absolute(made)
                &&& path::names(made) == path::resolved(path::names(target))
            }
            &&& !path::absolute(target) ==> {
                &&& path::names(made) == path::resolved(
                    path::names(environment.cwd) + path::names(target),
                )
                &&& path::absolute(environment.cwd) ==> path::absolute(made)
            }
        }),
{
    value_laws::what_normalizing_keeps(target);
    value_laws::what_normalizing_keeps(path::joined(environment.cwd, target));
    if !path::absolute(target) {
        path::names_of_joined(environment.cwd, target);
        if path::absolute(environment.cwd) {
            path::lead_of_joined(environment.cwd, target);
        }
    }
}

/// A search begins in the directory that was named, or else in the working directory.
pub proof fn where_a_search_begins(root: Seq<u8>, environment: EnvironmentView)
    requires
        path::absolute(environment.cwd),
    ensures
        search::search_root_of(Some(root), environment) == application::absolute_of(
            root,
            environment,
        ),
        path::absolute(search::search_root_of(None, environment)),
        path::names(search::search_root_of(None, environment)) == path::resolved(
            path::names(environment.cwd),
        ),
{
    value_laws::what_normalizing_keeps(environment.cwd);
}

/// A line of the list that can be used: a path that begins at the root.
pub open spec fn usable_line(line: Seq<char>) -> bool {
    line.len() > 0 && path::absolute(utf8::encode_utf8(line))
}

/// A list of ignored paths can be used exactly where it is of the first version and each line is a
/// path that begins at the root. It ignores the paths of its lines, and no others.
pub proof fn what_a_list_ignores(
    environment: EnvironmentView,
    file: IgnoreFileView,
    p: Seq<u8>,
)
    ensures
        ({
            let loaded = discovery_ignore::loaded(environment, FileReadView::Parsed(file));
            &&& loaded is Ok <==> file.version == 1 && forall|i: int|
                0 <= i < file.paths.len() ==> usable_line(#[trigger] file.paths[i])
            &&& loaded matches Ok(paths) ==> (discovery_ignore::listed(paths, p) <==> exists|
                i: int,
            |
                0 <= i < file.paths.len() && path::components(
                    path::normalized(utf8::encode_utf8(#[trigger] file.paths[i])),
                ) == path::components(p))
        }),
{
    let reader = discovery_ignore::path_reader();
    reading_laws::collected_if_all(file.paths, reader);
    assert forall|i: int| 0 <= i < file.paths.len() implies (reader(#[trigger] file.paths[i]) is Ok
        <==> usable_line(file.paths[i])) by {}
    if forall|i: int| 0 <= i < file.paths.len() ==> usable_line(#[trigger] file.paths[i]) {
        assert forall|i: int| 0 <= i < file.paths.len() implies reader(#[trigger] file.paths[i])
            is Ok by {
            assert(usable_line(file.paths[i]));
        }
    }
    if views::collected(file.paths, reader) is Ok {
        views::collected_elements(file.paths, reader);
        let read = views::collected(file.paths, reader)->Ok_0;
        discovery_ignore::path_set_members(read, p);
        assert forall|i: int| 0 <= i < read.len() implies #[trigger] read[i] == path::normalized(
            utf8::encode_utf8(file.paths[i]),
        ) by {
            assert(reader(file.paths[i]) == Ok::<Seq<u8>, Seq<char>>(read[i]));
        }
        if discovery_ignore::listed(read, p) {
            let i = choose|i: int|
                0 <= i < read.len() && path::components(#[trigger] read[i]) == path::components(p);
            assert(path::components(path::normalized(utf8::encode_utf8(file.paths[i])))
                == path::components(p));
        }
        if exists|i: int|
            0 <= i < file.paths.len() && path::components(
                path::normalized(utf8::encode_utf8(#[trigger] file.paths[i])),
            ) == path::components(p) {
            let i = choose|i: int|
                0 <= i < file.paths.len() && path::components(
                    path::normalized(utf8::encode_utf8(#[trigger] file.paths[i])),
                ) == path::components(p);
            assert(path::components(read[i]) == path::components(p));
        }
    }
}

/// Without a list nothing is ignored. One that cannot be read or used is reported with its path and
/// the reason: the version that it has, or the first line that is no path from the root.
pub proof fn why_a_list_cannot_be_used(
    environment: EnvironmentView,
    file: IgnoreFileView,
    source: IoErrorView,
    reason: Seq<char>,
    i: int,
)
    ensures
        ({
            let at = text::lossy_text(discovery_ignore::path_of(environment));
            &&& discovery_ignore::loaded(environment, FileReadView::Missing) == Ok::<
                Seq<Seq<u8>>,
                DiscoveryIgnoreErrorView,
            >(Seq::empty())
            &&& discovery_ignore::loaded(environment, FileReadView::Unreadable(source)) matches Err(
                error,
            ) && error.message() == "could not read discovery ignore file "@ + at + ": "@
                + source.message
            &&& discovery_ignore::loaded(environment, FileReadView::Malformed(reason)) matches Err(
                error,
            ) && error.message() == "invalid discovery ignore file "@ + at + ": "@ + reason
            &&& file.version != 1 ==> (discovery_ignore::loaded(
                environment,
                FileReadView::Parsed(file),
            ) matches Err(error) && error.message() == "invalid discovery ignore file "@ + at
                + ": "@ + ("unsupported discovery ignore version "@ + text::decimal(
                file.version as nat,
            ) + "; expected 1"@))
            &&& file.version == 1 && 0 <= i < file.paths.len() && !usable_line(file.paths[i])
                && (forall|j: int| 0 <= j < i ==> usable_line(#[trigger] file.paths[j])) ==> (
            discovery_ignore::loaded(environment, FileReadView::Parsed(file)) matches Err(error)
                && error.message() == "invalid discovery ignore file "@ + at + ": "@
                + ("ignored path must be a non-empty absolute path: "@ + text::quoted_text(
                file.paths[i],
            )))
        }),
{
    let reader = discovery_ignore::path_reader();
    if file.version == 1 && 0 <= i < file.paths.len() && !usable_line(file.paths[i]) && (forall|
        j: int,
    |
        0 <= j < i ==> usable_line(#[trigger] file.paths[j])) {
        let before = file.paths.take(i);
        reading_laws::collected_if_all(before, reader);
        assert forall|j: int| 0 <= j < before.len() implies reader(#[trigger] before[j]) is Ok by {
            assert(usable_line(file.paths[j]));
        }
        views::collected_step(file.paths, reader, i);
    }
}

/// How ignoring a path fails: each step is reported with what it was about and the reason.
pub proof fn how_ignoring_fails(
    target: Seq<u8>,
    environment: EnvironmentView,
    source: IoErrorView,
    file: IgnoreFileView,
    stage: WriteStage,
    temporary: Seq<u8>,
    sync: ConfigGitErrorView,
)
    ensures
        ({
            let directory = text::lossy_text(registry::registry_directory_of(environment));
            let lock = text::lossy_text(discovery_ignore::lock_path_of(environment));
            let list = text::lossy_text(discovery_ignore::path_of(environment));
            let done = IgnoreEventView::Done(Err(source));
            let made = discovery_ignore::add_advances(
                IgnorePhaseView::CreatingDirectory,
                done,
                target,
                environment,
            );
            let locked = discovery_ignore::add_advances(
                IgnorePhaseView::Locking,
                done,
                target,
                environment,
            );
            let written = discovery_ignore::add_advances(
                IgnorePhaseView::Writing(file),
                IgnoreEventView::Written(Err(WriteFailureView { stage, source }), temporary),
                target,
                environment,
            );
            let synchronized = discovery_ignore::add_advances(
                IgnorePhaseView::Synchronizing,
                IgnoreEventView::Synchronized(Err(sync)),
                target,
                environment,
            );
            &&& says(
                made,
                "could not create discovery ignore directory "@ + directory + ": "@
                    + source.message,
            )
            &&& says(
                locked,
                "could not lock discovery ignore file "@ + lock + ": "@ + source.message,
            )
            &&& says(
                written,
                match stage {
                    WriteStage::Write | WriteStage::Sync => "could not write discovery ignore file "@
                        + text::lossy_text(temporary) + ": "@ + source.message,
                    WriteStage::Replace => "could not replace discovery ignore file "@ + list
                        + ": "@ + source.message,
                    WriteStage::Directory => "could not write discovery ignore file "@ + list
                        + ": "@ + source.message,
                },
            )
            &&& says(
                synchronized,
                "discovery ignore file was replaced but its Git synchronization failed: "@
                    + sync.message(),
            )
        }),
{
}

/// The addition of a path has failed with this message.
pub open spec fn says(phase: IgnorePhaseView, message: Seq<char>) -> bool {
    phase matches IgnorePhaseView::Finished(Err(error)) && error.message() == message
}

/// Ignoring a path that goes well makes the directory, takes the lock, reads the list, writes it and
/// hands it to Git, in this order.
pub proof fn how_ignoring_goes(
    target: Seq<u8>,
    environment: EnvironmentView,
    read: FileReadView<IgnoreFileView>,
    file: IgnoreFileView,
    temporary: Seq<u8>,
)
    requires
        discovery_ignore::loaded(environment, read) is Ok,
        path::absolute(target),
        utf8::valid_utf8(path::normalized(target)),
    ensures
        ({
            let done = IgnoreEventView::Done(Ok(()));
            let next = |phase: IgnorePhaseView, event: IgnoreEventView|
                discovery_ignore::add_advances(phase, event, target, environment);
            &&& discovery_ignore::add_begins(target, environment) is CreatingDirectory
            &&& next(IgnorePhaseView::CreatingDirectory, done) is Locking
            &&& next(IgnorePhaseView::Locking, done) is Reading
            &&& next(IgnorePhaseView::Reading, IgnoreEventView::Read(read)) is Writing
            &&& next(
                IgnorePhaseView::Writing(file),
                IgnoreEventView::Written(Ok(()), temporary),
            ) is Synchronizing
            &&& next(
                IgnorePhaseView::Synchronizing,
                IgnoreEventView::Synchronized(Ok(())),
            ) == IgnorePhaseView::Finished(Ok(()))
        }),
{
    value_laws::what_normalizing_keeps(target);
    discovery_ignore::ignoring_adds_exactly_the_path(environment, read, target, target);
}

/// What is reported of a path that was ignored, or could not be.
pub proof fn what_ignoring_reports(error: DiscoveryIgnoreErrorView)
    ensures
        application::ignored(Ok(())) == Ok::<Seq<char>, ApplicationErrorView>("target-ignored"@),
        application::ignored(Err(error)) matches Err(reported) && {
            &&& reported.identifier() == "ignore-failed"@
            &&& reported.message() == error.message()
            &&& reported.resulting_registration() is None
        },
{
}

proof fn flattened_with_one_more(parts: Seq<Seq<Seq<char>>>, more: Seq<Seq<char>>)
    ensures
        parts.push(more).flatten() == parts.flatten() + more,
    decreases parts.len(),
{
    if parts.len() == 0 {
        assert(parts.push(more).drop_first() =~= Seq::<Seq<Seq<char>>>::empty());
        assert(parts.push(more).first() == more);
        assert(parts.flatten() =~= Seq::<Seq<char>>::empty());
        assert(Seq::<Seq<Seq<char>>>::empty().flatten() =~= Seq::<Seq<char>>::empty());
        assert(more + Seq::<Seq<char>>::empty() =~= Seq::<Seq<char>>::empty() + more);
    } else {
        assert(parts.push(more).drop_first() =~= parts.drop_first().push(more));
        flattened_with_one_more(parts.drop_first(), more);
        assert(parts.first() + (parts.drop_first().flatten() + more) =~= parts.first()
            + parts.drop_first().flatten() + more);
    }
}

/// The patterns of a configuration count in their order, each as the line that it stands for: those
/// that were there before and one more make what they made, and behind it what the one makes. A line
/// that cannot be used is the reason why none of them can.
pub proof fn what_patterns_make(before: Seq<Seq<char>>, pattern: Seq<char>)
    ensures
        ({
            let line = patterns::line_globs(configuration::gitignore_line(pattern));
            let after = discovery::matcher_for(before.push(pattern));
            discovery::matcher_for(before) matches Ok(globs) ==> match line {
                Err(reason) => after == Err::<Seq<Seq<char>>, Seq<char>>(reason),
                Ok(more) => match patterns::build_failure(globs + more) {
                    Some(reason) => after == Err::<Seq<Seq<char>>, Seq<char>>(reason),
                    None => after == Ok::<Seq<Seq<char>>, Seq<char>>(globs + more),
                },
            }
        }),
        patterns::build_failure(Seq::empty()) is None ==> discovery::matcher_for(Seq::empty())
            == Ok::<Seq<Seq<char>>, Seq<char>>(Seq::empty()),
{
    assert(before.push(pattern).drop_last() =~= before);
    if let Ok(parts) = views::collected(before, discovery::pattern_globs()) {
        if let Ok(more) = patterns::line_globs(configuration::gitignore_line(pattern)) {
            flattened_with_one_more(parts, more);
        }
    }
    let none = Seq::<Seq<Seq<char>>>::empty();
    assert(none.flatten() =~= Seq::<Seq<char>>::empty());
}

/// The patterns are asked about a directory by its path and that of the root of the search, as a
/// directory; without patterns none is ignored.
pub proof fn which_directories_patterns_ignore(
    walk: WalkView,
    child: Seq<u8>,
    globs: Seq<Seq<char>>,
)
    requires
        discovery::matcher_for(walk.ignored_patterns) == Ok::<Seq<Seq<char>>, Seq<char>>(globs),
    ensures
        globs.len() == 0 ==> !walk.ignores(child),
        ({
            let root = utf8::decode_utf8(walk.root);
            globs.len() > 0 && path::absolute(walk.root) && utf8::valid_utf8(walk.root) ==> (
            walk.ignores(child) <==> patterns::ignores(
                globs,
                root,
                utf8::decode_utf8(child),
                true,
            ))
        }),
{
    if path::absolute(walk.root) && utf8::valid_utf8(walk.root) {
        let root = utf8::decode_utf8(walk.root);
        utf8::decode_utf8_encode_utf8(walk.root);
        if root.len() > 0 && root[0] == '.' {
            let rest = root.skip(1);
            assert(root =~= seq!['.'] + rest);
            text::encoding_of_ascii('.', rest);
        }
    }
}

/// What the root of a search must be: a directory. Anything else ends the search before it begins,
/// and so do patterns that cannot be used.
pub proof fn what_a_root_must_be(walk: WalkView, facts: FileFacts, source: IoErrorView)
    requires
        walk.phase is CheckingRoot,
    ensures
        walk.advance(WalkEventView::Root(Err(source))).phase == WalkPhaseView::Finished(
            Err(source),
        ),
        !facts.is_dir ==> (walk.advance(WalkEventView::Root(Ok(facts))).phase
            matches WalkPhaseView::Finished(Err(error)) && error.kind == IoErrorKind::InvalidInput
            && error.message == "search root is not a directory: "@ + text::lossy_text(walk.root)),
        facts.is_dir ==> match discovery::matcher_for(walk.ignored_patterns) {
            Ok(_) => walk.advance(WalkEventView::Root(Ok(facts))).phase == WalkPhaseView::Listing(
                walk.root,
            ),
            Err(reason) => walk.advance(WalkEventView::Root(Ok(facts))).phase
                matches WalkPhaseView::Finished(Err(error)) && error.kind
                == IoErrorKind::InvalidInput && error.message == reason,
        },
{
}

} // verus!
