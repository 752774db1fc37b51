//! Discovery of executables below a search root. The host lists directories and looks at entries;
//! this machine decides what to look at next and what counts.

use ignore::gitignore::Gitignore;
use vstd::prelude::*;
use vstd::utf8;

use crate::configuration;
use crate::discovery_ignore;
use crate::host::{
    EntryKind,
    FileFacts,
    IoError,
    IoErrorKind,
    IoErrorView,
    Observation,
    ObservationView,
};
use crate::model::{SearchWarning, SearchWarningView, WarningKind};
use crate::order;
use crate::path;
use crate::path::PathBuf;
use crate::patterns;
use crate::text;
use crate::views;

verus! {

/// What was found: Targets in the order of their paths, and what could not be read.
#[derive(Debug)]
pub struct Discovery {
    pub targets: Vec<PathBuf>,
    pub warnings: Vec<SearchWarning>,
}

#[verifier::ext_equal]
pub struct DiscoveryView {
    pub targets: Seq<Seq<u8>>,
    pub warnings: Seq<SearchWarningView>,
}

impl View for Discovery {
    type V = DiscoveryView;

    open spec fn view(&self) -> DiscoveryView {
        DiscoveryView {
            targets: views::views(self.targets@),
            warnings: views::views(self.warnings@),
        }
    }
}

/// An entry of a directory that has been listed, or why it could not be read.
#[derive(Debug)]
pub struct Pending {
    pub directory: PathBuf,
    pub entry: Result<PathBuf, IoError>,
}

#[verifier::ext_equal]
pub struct PendingView {
    pub directory: Seq<u8>,
    pub entry: Result<Seq<u8>, IoErrorView>,
}

pub open spec fn entry_view(entry: Result<PathBuf, IoError>) -> Result<Seq<u8>, IoErrorView> {
    match entry {
        Ok(path) => Ok(path@),
        Err(source) => Err(source@),
    }
}

impl View for Pending {
    type V = PendingView;

    open spec fn view(&self) -> PendingView {
        PendingView { directory: self.directory@, entry: entry_view(self.entry) }
    }
}

/// Where a walk stands.
#[derive(Debug)]
pub enum WalkPhase {
    /// Is the root a directory?
    CheckingRoot,
    /// What does this directory hold?
    Listing(PathBuf),
    /// What is this entry?
    Inspecting(PathBuf),
    /// Do the patterns ignore this directory, whose path is not text?
    Matching(PathBuf),
    Finished(Result<(), IoError>),
}

#[verifier::ext_equal]
pub enum WalkPhaseView {
    CheckingRoot,
    Listing(Seq<u8>),
    Inspecting(Seq<u8>),
    Matching(Seq<u8>),
    Finished(Result<(), IoErrorView>),
}

impl View for WalkPhase {
    type V = WalkPhaseView;

    open spec fn view(&self) -> WalkPhaseView {
        match *self {
            WalkPhase::CheckingRoot => WalkPhaseView::CheckingRoot,
            WalkPhase::Listing(path) => WalkPhaseView::Listing(path@),
            WalkPhase::Inspecting(path) => WalkPhaseView::Inspecting(path@),
            WalkPhase::Matching(path) => WalkPhaseView::Matching(path@),
            WalkPhase::Finished(outcome) => WalkPhaseView::Finished(
                match outcome {
                    Ok(_) => Ok(()),
                    Err(source) => Err(source@),
                },
            ),
        }
    }
}

/// What the host reports.
#[derive(Debug)]
pub enum WalkEvent {
    Root(Result<FileFacts, IoError>),
    Listed(Result<Vec<Result<PathBuf, IoError>>, IoError>),
    Inspected(Observation),
    Matched(bool),
}

#[verifier::ext_equal]
pub enum WalkEventView {
    Root(Result<FileFacts, IoErrorView>),
    Listed(Result<Seq<Result<Seq<u8>, IoErrorView>>, IoErrorView>),
    Inspected(ObservationView),
    Matched(bool),
}

pub open spec fn listing_view(entries: Seq<Result<PathBuf, IoError>>) -> Seq<
    Result<Seq<u8>, IoErrorView>,
> {
    Seq::new(entries.len(), |i: int| entry_view(entries[i]))
}

impl View for WalkEvent {
    type V = WalkEventView;

    open spec fn view(&self) -> WalkEventView {
        match *self {
            WalkEvent::Root(outcome) => WalkEventView::Root(
                match outcome {
                    Ok(facts) => Ok(facts),
                    Err(source) => Err(source@),
                },
            ),
            WalkEvent::Listed(outcome) => WalkEventView::Listed(
                match outcome {
                    Ok(entries) => Ok(listing_view(entries@)),
                    Err(source) => Err(source@),
                },
            ),
            WalkEvent::Inspected(observation) => WalkEventView::Inspected(observation@),
            WalkEvent::Matched(ignored) => WalkEventView::Matched(ignored),
        }
    }
}

/// A walk under way.
pub struct Walk {
    root: PathBuf,
    bin_dir: PathBuf,
    ignored_patterns: Vec<String>,
    ignored_paths: Vec<PathBuf>,
    matcher: Option<Gitignore>,
    targets: Vec<PathBuf>,
    warnings: Vec<SearchWarning>,
    pending: Vec<Pending>,
    phase: WalkPhase,
}

#[verifier::ext_equal]
pub struct WalkView {
    pub root: Seq<u8>,
    pub bin_dir: Seq<u8>,
    pub ignored_patterns: Seq<Seq<char>>,
    pub ignored_paths: Seq<Seq<u8>>,
    pub targets: Seq<Seq<u8>>,
    pub warnings: Seq<SearchWarningView>,
    /// The last one comes first.
    pub pending: Seq<PendingView>,
    pub phase: WalkPhaseView,
}

impl View for Walk {
    type V = WalkView;

    closed spec fn view(&self) -> WalkView {
        WalkView {
            root: self.root@,
            bin_dir: self.bin_dir@,
            ignored_patterns: views::views(self.ignored_patterns@),
            ignored_paths: views::views(self.ignored_paths@),
            targets: views::views(self.targets@),
            warnings: views::views(self.warnings@),
            pending: views::views(self.pending@),
            phase: self.phase@,
        }
    }
}

/// What one pattern adds to a matcher.
pub open spec fn pattern_globs() -> spec_fn(Seq<char>) -> Result<Seq<Seq<char>>, Seq<char>> {
    |pattern: Seq<char>| patterns::line_globs(configuration::gitignore_line(pattern))
}

/// The globs of some patterns in order, or why they cannot be used.
pub open spec fn matcher_for(ignored_patterns: Seq<Seq<char>>) -> Result<
    Seq<Seq<char>>,
    Seq<char>,
> {
    match views::collected(ignored_patterns, pattern_globs()) {
        Err(message) => Err(message),
        Ok(parts) => match patterns::build_failure(parts.flatten()) {
            Some(message) => Err(message),
            None => Ok(parts.flatten()),
        },
    }
}

impl WalkView {
    pub open spec fn at(self, phase: WalkPhaseView) -> Self {
        WalkView { phase, ..self }
    }

    pub open spec fn warn(self, kind: WarningKind, path: Seq<u8>, message: Seq<char>) -> Self {
        WalkView {
            warnings: self.warnings.push(SearchWarningView { kind, path, message }),
            ..self
        }
    }

    pub open spec fn find(self, target: Seq<u8>) -> Self {
        WalkView { targets: self.targets.push(target), ..self }
    }

    /// On to the next entry that has to be looked at; without one, the walk is over.
    pub open spec fn settle(self) -> Self
        decreases self.pending.len(),
    {
        if self.pending.len() == 0 {
            WalkView {
                targets: order::stably_sorted(self.targets, target_order()),
                phase: WalkPhaseView::Finished(Ok(())),
                ..self
            }
        } else {
            let next = self.pending.last();
            let rest = WalkView { pending: self.pending.drop_last(), ..self };
            match next.entry {
                Err(source) => rest.warn(
                    WarningKind::UnreadablePath,
                    next.directory,
                    source.message,
                ).settle(),
                Ok(entry) => {
                    let child = path::normalized(entry);
                    if discovery_ignore::listed(self.ignored_paths, child) {
                        rest.settle()
                    } else {
                        rest.at(WalkPhaseView::Inspecting(child))
                    }
                },
            }
        }
    }

    /// A directory is entered unless it is ignored or holds the Managed Links.
    pub open spec fn enter(self, child: Seq<u8>, ignored: bool) -> Self {
        if !ignored && path::components(child) != path::components(self.bin_dir) {
            self.at(WalkPhaseView::Listing(child))
        } else {
            self.settle()
        }
    }

    /// The patterns ignore a directory whose path is text.
    pub open spec fn ignores(self, child: Seq<u8>) -> bool {
        matcher_for(self.ignored_patterns) matches Ok(globs) && globs.len() > 0
            && patterns::ignores(
            globs,
            patterns::kept_root(utf8::decode_utf8(self.root)),
            utf8::decode_utf8(child),
            true,
        )
    }

    pub open spec fn inspected(self, child: Seq<u8>, seen: ObservationView) -> Self {
        match seen.entry {
            Err(source) => self.warn(
                WarningKind::UnreadablePath,
                child,
                source.message,
            ).settle(),
            Ok(EntryKind::Directory) => if utf8::valid_utf8(self.root) && utf8::valid_utf8(child) {
                self.enter(child, self.ignores(child))
            } else {
                self.at(WalkPhaseView::Matching(child))
            },
            Ok(EntryKind::Other) => self.settle(),
            Ok(_) => if seen.followed matches Ok(facts) && facts.is_executable_file() {
                self.find(child).settle()
            } else {
                self.settle()
            },
        }
    }

    pub open spec fn listed(
        self,
        directory: Seq<u8>,
        outcome: Result<Seq<Result<Seq<u8>, IoErrorView>>, IoErrorView>,
    ) -> Self {
        match outcome {
            Err(source) => self.warn(
                WarningKind::UnreadableDirectory,
                directory,
                source.message,
            ).settle(),
            Ok(entries) => (WalkView {
                pending: self.pending + Seq::new(
                    entries.len(),
                    |i: int| PendingView { directory, entry: entries[entries.len() - 1 - i] },
                ),
                ..self
            }).settle(),
        }
    }

    pub open spec fn root_checked(self, outcome: Result<FileFacts, IoErrorView>) -> Self {
        match outcome {
            Err(source) => self.at(WalkPhaseView::Finished(Err(source))),
            Ok(facts) => if !facts.is_dir {
                self.at(
                    WalkPhaseView::Finished(
                        Err(
                            IoErrorView {
                                kind: IoErrorKind::InvalidInput,
                                message: "search root is not a directory: "@ + text::lossy_text(
                                    self.root,
                                ),
                            },
                        ),
                    ),
                )
            } else {
                match matcher_for(self.ignored_patterns) {
                    Err(message) => self.at(
                        WalkPhaseView::Finished(
                            Err(IoErrorView { kind: IoErrorKind::InvalidInput, message }),
                        ),
                    ),
                    Ok(_) => self.at(WalkPhaseView::Listing(self.root)),
                }
            },
        }
    }

    /// The state once the host has reported; a report that was not asked for changes nothing.
    pub open spec fn advance(self, event: WalkEventView) -> Self {
        match (self.phase, event) {
            (WalkPhaseView::CheckingRoot, WalkEventView::Root(outcome)) => self.root_checked(
                outcome,
            ),
            (WalkPhaseView::Listing(directory), WalkEventView::Listed(outcome)) => self.listed(
                directory,
                outcome,
            ),
            (WalkPhaseView::Inspecting(child), WalkEventView::Inspected(seen)) => self.inspected(
                child,
                seen,
            ),
            (WalkPhaseView::Matching(child), WalkEventView::Matched(ignored)) => self.enter(
                child,
                ignored,
            ),
            _ => self,
        }
    }
}

/// Targets are ordered by their paths.
pub open spec fn target_order() -> spec_fn(Seq<u8>, Seq<u8>) -> bool {
    |a: Seq<u8>, b: Seq<u8>| path::path_order()(path::components(a), path::components(b))
}

/// Begins a walk below `root`.
pub fn discover(
    root: PathBuf,
    bin_dir: PathBuf,
    ignored_patterns: Vec<String>,
    ignored_paths: Vec<PathBuf>,
) -> (r: Walk)
    ensures
        r.wf(),
        r@ == (WalkView {
            root: root@,
            bin_dir: bin_dir@,
            ignored_patterns: views::views(ignored_patterns@),
            ignored_paths: views::views(ignored_paths@),
            targets: Seq::empty(),
            warnings: Seq::empty(),
            pending: Seq::empty(),
            phase: WalkPhaseView::CheckingRoot,
        }),
{
    let r = Walk {
        root,
        bin_dir,
        ignored_patterns,
        ignored_paths,
        matcher: None,
        targets: Vec::new(),
        warnings: Vec::new(),
        pending: Vec::new(),
        phase: WalkPhase::CheckingRoot,
    };
    assert(r@.targets =~= Seq::empty());
    assert(r@.warnings =~= Seq::empty());
    assert(r@.pending =~= Seq::empty());
    r
}

/// A matcher for patterns relative to `root`, or why they cannot be used.
fn ignore_matcher(root: &str, ignored_patterns: &Vec<String>) -> (r: Result<Gitignore, String>)
    ensures
        match matcher_for(views::views(ignored_patterns@)) {
            Ok(globs) => {
                &&& r is Ok
                &&& patterns::plain_matcher(r->Ok_0)
                &&& patterns::matcher_globs(r->Ok_0) == globs
                &&& globs.len() > 0 ==> patterns::matcher_root(r->Ok_0) == patterns::kept_root(
                    root@,
                )
            },
            Err(message) => r is Err && r->Err_0@ == message,
        },
{
    let ghost all = views::views(ignored_patterns@);
    let ghost f = pattern_globs();
    let ghost mut parts: Seq<Seq<Seq<char>>> = Seq::empty();
    let mut builder = patterns::new_builder(root);
    let mut i: usize = 0;
    proof {
        views::collected_of_none(all, f);
        assert(parts.flatten() =~= Seq::empty());
    }
    while i < ignored_patterns.len()
        invariant
            i <= ignored_patterns@.len(),
            all == views::views(ignored_patterns@),
            f == pattern_globs(),
            patterns::plain_builder(builder),
            patterns::builder_root(builder) == patterns::kept_root(root@),
            patterns::builder_globs(builder) == parts.flatten(),
            views::collected(all.take(i as int), f) == Ok::<Seq<Seq<Seq<char>>>, Seq<char>>(parts),
        decreases ignored_patterns.len() - i,
    {
        proof {
            views::collected_step(all, f, i as int);
        }
        let line = configuration::gitignore_pattern(&ignored_patterns[i]);
        if let Err(message) = patterns::add_line(&mut builder, &line) {
            return Err(message);
        }
        proof {
            let globs = patterns::line_globs(line@)->Ok_0;
            parts.lemma_flatten_push(globs);
            parts = parts.push(globs);
        }
        i = i + 1;
    }
    assert(all.take(i as int) =~= all);
    patterns::build(&builder)
}

fn reversed(directory: &PathBuf, entries: Vec<Result<PathBuf, IoError>>) -> (r: Vec<Pending>)
    ensures
        views::views(r@) == Seq::new(
            entries@.len(),
            |i: int|
                PendingView {
                    directory: directory@,
                    entry: entry_view(entries@[entries@.len() - 1 - i]),
                },
        ),
{
    let ghost all = entries@;
    let mut rest = entries;
    let mut r: Vec<Pending> = Vec::new();
    while rest.len() > 0
        invariant
            rest@ == all.take(rest@.len() as int),
            rest@.len() + r@.len() == all.len(),
            forall|i: int|
                0 <= i < r@.len() ==> (#[trigger] r@[i])@ == (PendingView {
                    directory: directory@,
                    entry: entry_view(all[all.len() - 1 - i]),
                }),
        decreases rest.len(),
    {
        let ghost n = rest@.len() as int;
        let entry = rest.pop().unwrap();
        assert(rest@ =~= all.take(n - 1));
        r.push(Pending { directory: directory.clone(), entry });
    }
    assert(views::views(r@) =~= Seq::new(
        all.len(),
        |i: int|
            PendingView {
                directory: directory@,
                entry: entry_view(all[all.len() - 1 - i]),
            },
    ));
    r
}

impl Walk {
    /// The matcher is the one that the patterns make, where the root is text.
    pub closed spec fn wf(self) -> bool {
        let patterns = views::views(self.ignored_patterns@);
        match self.matcher {
            Some(matcher) => {
                &&& utf8::valid_utf8(self.root@)
                &&& matcher_for(patterns) is Ok
                &&& patterns::plain_matcher(matcher)
                &&& patterns::matcher_globs(matcher) == matcher_for(patterns)->Ok_0
                &&& patterns::matcher_globs(matcher).len() > 0 ==> patterns::matcher_root(matcher)
                    == patterns::kept_root(utf8::decode_utf8(self.root@))
            },
            None => self.phase is CheckingRoot || self.phase is Finished || !utf8::valid_utf8(
                self.root@,
            ),
        }
    }

    /// Where the walk stands.
    pub fn phase(&self) -> (r: &WalkPhase)
        ensures
            r@ == self@.phase,
    {
        &self.phase
    }

    /// The root of the walk.
    pub fn root(&self) -> (r: &PathBuf)
        ensures
            r@ == self@.root,
    {
        &self.root
    }

    /// The patterns as gitignore lines, for a matcher of the host's own.
    pub fn gitignore_lines(&self) -> (r: Vec<String>)
        ensures
            r@.len() == self@.ignored_patterns.len(),
            forall|i: int|
                0 <= i < r@.len() ==> (#[trigger] r@[i])@ == configuration::gitignore_line(
                    self@.ignored_patterns[i],
                ),
    {
        let mut r: Vec<String> = Vec::new();
        let mut i: usize = 0;
        while i < self.ignored_patterns.len()
            invariant
                i <= self.ignored_patterns@.len(),
                r@.len() == i,
                forall|j: int|
                    0 <= j < i ==> (#[trigger] r@[j])@ == configuration::gitignore_line(
                        self@.ignored_patterns[j],
                    ),
            decreases self.ignored_patterns.len() - i,
        {
            r.push(configuration::gitignore_pattern(&self.ignored_patterns[i]));
            i = i + 1;
        }
        r
    }

    fn warn(&mut self, kind: WarningKind, path: PathBuf, message: String)
        ensures
            final(self)@ == old(self)@.warn(kind, path@, message@),
            final(self).wf() == old(self).wf(),
    {
        let ghost before = self.warnings@;
        let warning = SearchWarning { kind, path, message };
        let ghost value = warning@;
        self.warnings.push(warning);
        assert(views::views(self.warnings@) =~= views::views(before).push(value));
    }

    fn settle(&mut self)
        requires
            old(self).wf(),
            old(self).phase !is CheckingRoot,
            old(self).phase !is Finished,
        ensures
            final(self)@ == old(self)@.settle(),
            final(self).wf(),
    {
        let ghost start = self@;
        while self.pending.len() > 0
            invariant
                start == old(self)@,
                self@.settle() == start.settle(),
                self.wf(),
                self.phase !is CheckingRoot,
                self.phase !is Finished,
            decreases self.pending.len(),
        {
            let ghost before = self@;
            let ghost all = self.pending@;
            let next = self.pending.pop().unwrap();
            assert(views::views(self.pending@) =~= views::views(all).drop_last());
            assert(next@ == views::views(all).last());
            match next.entry {
                Err(source) => {
                    self.warn(WarningKind::UnreadablePath, next.directory, source.message);
                },
                Ok(entry) => {
                    let child = entry.normalize();
                    if !discovery_ignore::contains(&self.ignored_paths, &child) {
                        self.phase = WalkPhase::Inspecting(child);
                        return;
                    }
                },
            }
        }
        let mut found: Vec<PathBuf> = Vec::new();
        found.append(&mut self.targets);
        proof {
            views::views_of_sorted(found@, target_order());
        }
        self.targets = order::stable_sort(found);
        self.phase = WalkPhase::Finished(Ok(()));
    }

    fn enter(&mut self, child: PathBuf, ignored: bool)
        requires
            old(self).wf(),
            old(self).phase !is CheckingRoot,
            old(self).phase !is Finished,
        ensures
            final(self)@ == old(self)@.enter(child@, ignored),
            final(self).wf(),
    {
        if !ignored && !child.same(&self.bin_dir) {
            self.phase = WalkPhase::Listing(child);
        } else {
            self.settle();
        }
    }

    fn inspected(&mut self, child: PathBuf, seen: Observation)
        requires
            old(self).wf(),
            old(self).phase is Inspecting,
        ensures
            final(self)@ == old(self)@.inspected(child@, seen@),
            final(self).wf(),
    {
        match seen.entry {
            Err(source) => {
                self.warn(WarningKind::UnreadablePath, child, source.message);
                self.settle();
            },
            Ok(EntryKind::Directory) => {
                let name = child.to_text();
                match (&self.matcher, name) {
                    (Some(matcher), Some(name)) => {
                        let ignored = patterns::is_ignored(matcher, &name, true);
                        self.enter(child, ignored);
                    },
                    _ => {
                        self.phase = WalkPhase::Matching(child);
                    },
                }
            },
            Ok(EntryKind::Other) => {
                self.settle();
            },
            Ok(_) => {
                let executable = match &seen.followed {
                    Ok(facts) => facts.executable_file(),
                    Err(_) => false,
                };
                if executable {
                    let ghost before = self.targets@;
                    let ghost value = child@;
                    self.targets.push(child);
                    assert(views::views(self.targets@) =~= views::views(before).push(value));
                }
                self.settle();
            },
        }
    }

    fn listed(
        &mut self,
        directory: PathBuf,
        outcome: Result<Vec<Result<PathBuf, IoError>>, IoError>,
    )
        requires
            old(self).wf(),
            old(self).phase is Listing,
        ensures
            final(self)@ == old(self)@.listed(
                directory@,
                match outcome {
                    Ok(entries) => Ok(listing_view(entries@)),
                    Err(source) => Err(source@),
                },
            ),
            final(self).wf(),
    {
        match outcome {
            Err(source) => {
                self.warn(WarningKind::UnreadableDirectory, directory, source.message);
                self.settle();
            },
            Ok(entries) => {
                let ghost before = self.pending@;
                let mut more = reversed(&directory, entries);
                let ghost added = views::views(more@);
                self.pending.append(&mut more);
                assert(views::views(self.pending@) =~= views::views(before) + added);
                proof {
                    let listing = listing_view(entries@);
                    assert(added =~= Seq::new(
                        listing.len(),
                        |i: int|
                            PendingView {
                                directory: directory@,
                                entry: listing[listing.len() - 1 - i],
                            },
                    ));
                }
                self.settle();
            },
        }
    }

    fn root_checked(&mut self, outcome: Result<FileFacts, IoError>)
        requires
            old(self).wf(),
            old(self).phase is CheckingRoot,
        ensures
            final(self)@ == old(self)@.root_checked(
                match outcome {
                    Ok(facts) => Ok(facts),
                    Err(source) => Err(source@),
                },
            ),
            final(self).wf(),
    {
        match outcome {
            Err(source) => {
                self.phase = WalkPhase::Finished(Err(source));
            },
            Ok(facts) => {
                if !facts.is_dir {
                    let message = text::joined(
                        "search root is not a directory: ",
                        &self.root.display(),
                    );
                    self.phase = WalkPhase::Finished(
                        Err(IoError { kind: IoErrorKind::InvalidInput, message }),
                    );
                    return;
                }
                let root_text = self.root.to_text();
                let (textual, root) = match root_text {
                    Some(root) => (true, root),
                    None => (false, String::new()),
                };
                match ignore_matcher(&root, &self.ignored_patterns) {
                    Err(message) => {
                        self.phase = WalkPhase::Finished(
                            Err(IoError { kind: IoErrorKind::InvalidInput, message }),
                        );
                    },
                    Ok(matcher) => {
                        self.matcher = if textual {
                            Some(matcher)
                        } else {
                            None
                        };
                        self.phase = WalkPhase::Listing(self.root.clone());
                    },
                }
            },
        }
    }

    /// The state once the host has reported; a report that was not asked for changes nothing.
    pub fn advance(self, event: WalkEvent) -> (r: Self)
        requires
            self.wf(),
        ensures
            r@ == self@.advance(event@),
            r.wf(),
    {
        let mut walk = self;
        let asked = match &walk.phase {
            WalkPhase::CheckingRoot => None,
            WalkPhase::Listing(path) => Some(path.clone()),
            WalkPhase::Inspecting(path) => Some(path.clone()),
            WalkPhase::Matching(path) => Some(path.clone()),
            WalkPhase::Finished(_) => None,
        };
        match (&walk.phase, event, asked) {
            (WalkPhase::CheckingRoot, WalkEvent::Root(outcome), _) => {
                walk.root_checked(outcome);
            },
            (WalkPhase::Listing(_), WalkEvent::Listed(outcome), Some(directory)) => {
                walk.listed(directory, outcome);
            },
            (WalkPhase::Inspecting(_), WalkEvent::Inspected(seen), Some(child)) => {
                walk.inspected(child, seen);
            },
            (WalkPhase::Matching(_), WalkEvent::Matched(ignored), Some(child)) => {
                walk.enter(child, ignored);
            },
            _ => {},
        }
        walk
    }

    /// The outcome of a walk that is over.
    pub fn outcome(self) -> (r: Option<Result<Discovery, IoError>>)
        ensures
            match self@.phase {
                WalkPhaseView::Finished(Ok(_)) => r is Some && r->0 is Ok && r->0->Ok_0@ == (
                DiscoveryView { targets: self@.targets, warnings: self@.warnings }),
                WalkPhaseView::Finished(Err(source)) => r is Some && r->0 is Err && r->0->Err_0@
                    == source,
                _ => r is None,
            },
    {
        match self.phase {
            WalkPhase::Finished(Ok(_)) => Some(
                Ok(Discovery { targets: self.targets, warnings: self.warnings }),
            ),
            WalkPhase::Finished(Err(source)) => Some(Err(source)),
            _ => None,
        }
    }
}

} // verus!
