//! Gitignore patterns, matched by the `ignore` crate.

use ignore::gitignore::{Gitignore, GitignoreBuilder};
use vstd::prelude::*;

verus! {

#[verifier::external_type_specification]
#[verifier::external_body]
pub struct ExGitignoreBuilder(ignore::gitignore::GitignoreBuilder);

#[verifier::external_type_specification]
#[verifier::external_body]
pub struct ExGitignore(ignore::gitignore::Gitignore);

/// The patterns that a builder holds, in the order in which they were added.
pub uninterp spec fn builder_globs(builder: GitignoreBuilder) -> Seq<Seq<char>>;

/// The directory that a builder's patterns are relative to.
pub uninterp spec fn builder_root(builder: GitignoreBuilder) -> Seq<char>;

/// A builder still has the settings that it was made with: letter case counts, and an unclosed
/// character class stands for itself.
pub uninterp spec fn plain_builder(builder: GitignoreBuilder) -> bool;

/// The patterns of a matcher, in order.
pub uninterp spec fn matcher_globs(matcher: Gitignore) -> Seq<Seq<char>>;

/// The directory that a matcher's patterns are relative to.
pub uninterp spec fn matcher_root(matcher: Gitignore) -> Seq<char>;

/// A matcher came from a plain builder.
pub uninterp spec fn plain_matcher(matcher: Gitignore) -> bool;

/// What `GitignoreBuilder::add_line` makes of a line: the pattern that it adds, none for a blank
/// line or a comment, or the message of the error.
pub uninterp spec fn line_globs(line: Seq<char>) -> Result<Seq<Seq<char>>, Seq<char>>;

/// The message with which `GitignoreBuilder::build` refuses some patterns, if it does.
pub uninterp spec fn build_failure(globs: Seq<Seq<char>>) -> Option<Seq<char>>;

/// Whether `Gitignore::matched` says that patterns relative to `root` ignore a path.
pub uninterp spec fn ignores(
    globs: Seq<Seq<char>>,
    root: Seq<char>,
    path: Seq<char>,
    is_dir: bool,
) -> bool;

/// A root without the leading `./` that the builder drops.
pub open spec fn kept_root(root: Seq<char>) -> Seq<char> {
    if root.len() >= 2 && root[0] == '.' && root[1] == '/' {
        root.skip(2)
    } else {
        root
    }
}

/// `GitignoreBuilder::new` makes a builder without patterns, relative to `root` without a leading
/// `./`, and with the plain settings.
#[verifier::external_body]
pub(crate) fn new_builder(root: &str) -> (r: GitignoreBuilder)
    ensures
        builder_globs(r) == Seq::<Seq<char>>::empty(),
        builder_root(r) == kept_root(root@),
        plain_builder(r),
{
    GitignoreBuilder::new(root)
}

/// `GitignoreBuilder::add_line` parses a line and appends the pattern that it holds. What it
/// makes of the line depends on the line and the settings alone; on an error nothing is added.
#[verifier::external_body]
pub(crate) fn add_line(builder: &mut GitignoreBuilder, line: &str) -> (r: Result<(), String>)
    requires
        plain_builder(*old(builder)),
    ensures
        plain_builder(*final(builder)),
        builder_root(*final(builder)) == builder_root(*old(builder)),
        match line_globs(line@) {
            Ok(globs) => r is Ok && builder_globs(*final(builder)) == builder_globs(*old(builder))
                + globs,
            Err(message) => r is Err && r->Err_0@ == message && builder_globs(*final(builder))
                == builder_globs(*old(builder)),
        },
{
    builder.add_line(None, line).map(|_| ()).map_err(|error| error.to_string())
}

/// `GitignoreBuilder::build` makes a matcher of the builder's patterns, or reports why it cannot.
/// Without patterns it always succeeds, and the matcher forgets the root.
#[verifier::external_body]
pub(crate) fn build(builder: &GitignoreBuilder) -> (r: Result<Gitignore, String>)
    requires
        plain_builder(*builder),
    ensures
        match build_failure(builder_globs(*builder)) {
            None => r is Ok,
            Some(message) => r is Err && r->Err_0@ == message,
        },
        r is Ok ==> {
            &&& plain_matcher(r->Ok_0)
            &&& matcher_globs(r->Ok_0) == builder_globs(*builder)
            &&& builder_globs(*builder).len() > 0 ==> matcher_root(r->Ok_0) == builder_root(
                *builder,
            )
        },
        builder_globs(*builder).len() == 0 ==> r is Ok,
{
    builder.build().map_err(|error| error.to_string())
}

/// `Gitignore::matched` decides by the last pattern that matches the path, taken relative to the
/// matcher's root. Without patterns it ignores nothing.
#[verifier::external_body]
pub(crate) fn is_ignored(matcher: &Gitignore, path: &str, is_dir: bool) -> (r: bool)
    requires
        plain_matcher(*matcher),
    ensures
        r == ignores(matcher_globs(*matcher), matcher_root(*matcher), path@, is_dir),
        matcher_globs(*matcher).len() == 0 ==> !r,
{
    matcher.matched(path, is_dir).is_ignore()
}

} // verus!
