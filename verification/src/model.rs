//! The vocabulary of the registry: Registrations, their health, search results and diagnostics.

use vstd::prelude::*;

use crate::configuration::{NamedRoot, NamedRootView};
use crate::host::IoError;
use crate::order;
use crate::path;
use crate::path::PathBuf;
use crate::text;
use crate::views;

verus! {

/// The places in a mutation at which the host can fail.
#[derive(Clone, Copy, Debug, PartialEq, Eq, Structural)]
pub enum MutationBoundary {
    ManagedLinkCreation,
    ManagedLinkRemoval,
    LockAcquisition,
    TemporaryRegistryWrite,
    RegistrySync,
    AtomicRegistryReplacement,
    RegistryDirectorySync,
}

/// Decides whether a mutation may pass a boundary.
pub trait MutationFaultInjector: Send + Sync {
    fn check(&self, boundary: MutationBoundary) -> Result<(), IoError>;
}

/// Lets every mutation pass.
pub struct NoMutationFaults;

impl MutationFaultInjector for NoMutationFaults {
    fn check(&self, _boundary: MutationBoundary) -> (r: Result<(), IoError>)
        ensures
            r is Ok,
    {
        Ok(())
    }
}

/// A Command Name, the Target that it stands for, and whether it is to be published.
#[derive(Debug, PartialEq, Eq)]
pub struct Registration {
    pub name: String,
    pub target: PathBuf,
    pub enabled: bool,
}

#[verifier::ext_equal]
pub struct RegistrationView {
    pub name: Seq<char>,
    pub target: Seq<u8>,
    pub enabled: bool,
}

impl View for Registration {
    type V = RegistrationView;

    open spec fn view(&self) -> RegistrationView {
        RegistrationView { name: self.name@, target: self.target@, enabled: self.enabled }
    }
}

impl Clone for Registration {
    fn clone(&self) -> (r: Self)
        ensures
            r@ == self@,
    {
        Registration {
            name: self.name.clone(),
            target: self.target.clone(),
            enabled: self.enabled,
        }
    }
}

impl order::Ranked for Registration {
    open spec fn ranks_before(self, other: Self) -> bool {
        text::text_order()(self.name@, other.name@)
    }

    fn before(&self, other: &Self) -> (r: bool) {
        text::less(&self.name, &other.name)
    }
}

/// Registrations are ordered by Command Name.
pub open spec fn name_order() -> spec_fn(RegistrationView, RegistrationView) -> bool {
    |a: RegistrationView, b: RegistrationView| text::text_order()(a.name, b.name)
}

#[derive(Clone, Copy, Debug, PartialEq, Eq, Structural)]
pub enum RegistrationDefectKind {
    TargetMissing,
    TargetNotExecutable,
    LinkMissing,
    LinkBroken,
    LinkIncorrect,
    Conflict,
}

impl RegistrationDefectKind {
    pub open spec fn identifier_text(self) -> Seq<char> {
        match self {
            RegistrationDefectKind::TargetMissing => "target-missing"@,
            RegistrationDefectKind::TargetNotExecutable => "target-not-executable"@,
            RegistrationDefectKind::LinkMissing => "link-missing"@,
            RegistrationDefectKind::LinkBroken => "link-broken"@,
            RegistrationDefectKind::LinkIncorrect => "link-incorrect"@,
            RegistrationDefectKind::Conflict => "conflict"@,
        }
    }

    pub fn identifier(&self) -> (r: &'static str)
        ensures
            r@ == self.identifier_text(),
    {
        match self {
            RegistrationDefectKind::TargetMissing => "target-missing",
            RegistrationDefectKind::TargetNotExecutable => "target-not-executable",
            RegistrationDefectKind::LinkMissing => "link-missing",
            RegistrationDefectKind::LinkBroken => "link-broken",
            RegistrationDefectKind::LinkIncorrect => "link-incorrect",
            RegistrationDefectKind::Conflict => "conflict",
        }
    }
}

#[derive(Debug, PartialEq, Eq)]
pub struct RegistrationDefect {
    pub kind: RegistrationDefectKind,
    pub message: String,
}

#[verifier::ext_equal]
pub struct RegistrationDefectView {
    pub kind: RegistrationDefectKind,
    pub message: Seq<char>,
}

impl View for RegistrationDefect {
    type V = RegistrationDefectView;

    open spec fn view(&self) -> RegistrationDefectView {
        RegistrationDefectView { kind: self.kind, message: self.message@ }
    }
}

impl Clone for RegistrationDefect {
    fn clone(&self) -> (r: Self)
        ensures
            r@ == self@,
    {
        RegistrationDefect { kind: self.kind, message: self.message.clone() }
    }
}

/// What lies at the managed path of a Registration.
#[derive(Clone, Copy, Debug, PartialEq, Eq, Structural)]
pub enum ManagedPathKind {
    Missing,
    OwnedLink,
    SymbolicLink,
    File,
    Directory,
    Other,
}

impl ManagedPathKind {
    pub open spec fn identifier_text(self) -> Seq<char> {
        match self {
            ManagedPathKind::Missing => "missing"@,
            ManagedPathKind::OwnedLink => "owned-link"@,
            ManagedPathKind::SymbolicLink => "symbolic-link"@,
            ManagedPathKind::File => "file"@,
            ManagedPathKind::Directory => "directory"@,
            ManagedPathKind::Other => "other"@,
        }
    }

    pub fn identifier(&self) -> (r: &'static str)
        ensures
            r@ == self.identifier_text(),
    {
        match self {
            ManagedPathKind::Missing => "missing",
            ManagedPathKind::OwnedLink => "owned-link",
            ManagedPathKind::SymbolicLink => "symbolic-link",
            ManagedPathKind::File => "file",
            ManagedPathKind::Directory => "directory",
            ManagedPathKind::Other => "other",
        }
    }
}

/// A Registration beside what was observed of it.
#[derive(Debug, PartialEq, Eq)]
pub struct RegistrationState {
    pub registration: Registration,
    pub managed_link: PathBuf,
    pub actual: ManagedPathKind,
    pub observed_link_target: Option<PathBuf>,
    pub defect: Option<RegistrationDefect>,
}

#[verifier::ext_equal]
pub struct RegistrationStateView {
    pub registration: RegistrationView,
    pub managed_link: Seq<u8>,
    pub actual: ManagedPathKind,
    pub observed_link_target: Option<Seq<u8>>,
    pub defect: Option<RegistrationDefectView>,
}

impl View for RegistrationState {
    type V = RegistrationStateView;

    open spec fn view(&self) -> RegistrationStateView {
        RegistrationStateView {
            registration: self.registration@,
            managed_link: self.managed_link@,
            actual: self.actual,
            observed_link_target: views::view_of(self.observed_link_target),
            defect: views::view_of(self.defect),
        }
    }
}

impl Clone for RegistrationState {
    fn clone(&self) -> (r: Self)
        ensures
            r@ == self@,
    {
        RegistrationState {
            registration: self.registration.clone(),
            managed_link: self.managed_link.clone(),
            actual: self.actual,
            observed_link_target: match &self.observed_link_target {
                Some(target) => Some(target.clone()),
                None => None,
            },
            defect: match &self.defect {
                Some(defect) => Some(defect.clone()),
                None => None,
            },
        }
    }
}

#[derive(Clone, Copy, Debug, PartialEq, Eq, Structural)]
pub enum LifecycleStatus {
    Healthy,
    Blocked,
}

#[derive(Debug, PartialEq, Eq)]
pub struct LifecycleResult {
    pub status: LifecycleStatus,
    pub identifier: String,
    pub registration: Option<RegistrationState>,
    pub conflict: Option<String>,
}

#[verifier::ext_equal]
pub struct LifecycleResultView {
    pub status: LifecycleStatus,
    pub identifier: Seq<char>,
    pub registration: Option<RegistrationStateView>,
    pub conflict: Option<Seq<char>>,
}

impl View for LifecycleResult {
    type V = LifecycleResultView;

    open spec fn view(&self) -> LifecycleResultView {
        LifecycleResultView {
            status: self.status,
            identifier: self.identifier@,
            registration: views::view_of(self.registration),
            conflict: views::view_of(self.conflict),
        }
    }
}

#[derive(Debug, PartialEq, Eq)]
pub struct ListResult {
    pub status: LifecycleStatus,
    pub identifier: String,
    pub registrations: Vec<RegistrationState>,
}

#[verifier::ext_equal]
pub struct ListResultView {
    pub status: LifecycleStatus,
    pub identifier: Seq<char>,
    pub registrations: Seq<RegistrationStateView>,
}

impl View for ListResult {
    type V = ListResultView;

    open spec fn view(&self) -> ListResultView {
        ListResultView {
            status: self.status,
            identifier: self.identifier@,
            registrations: views::views(self.registrations@),
        }
    }
}

#[derive(Clone, Copy, Debug, PartialEq, Eq, Structural)]
pub enum ConflictKind {
    CommandNameRegistered,
    DuplicateProposedName,
    ManagedPathOccupied,
}

impl ConflictKind {
    pub open spec fn identifier_text(self) -> Seq<char> {
        match self {
            ConflictKind::CommandNameRegistered => "command-name-registered"@,
            ConflictKind::DuplicateProposedName => "duplicate-proposed-name"@,
            ConflictKind::ManagedPathOccupied => "managed-path-occupied"@,
        }
    }

    pub fn identifier(&self) -> (r: &'static str)
        ensures
            r@ == self.identifier_text(),
    {
        match self {
            ConflictKind::CommandNameRegistered => "command-name-registered",
            ConflictKind::DuplicateProposedName => "duplicate-proposed-name",
            ConflictKind::ManagedPathOccupied => "managed-path-occupied",
        }
    }
}

#[derive(Debug, PartialEq, Eq)]
pub struct NameConflict {
    pub kind: ConflictKind,
    pub conflicting_target: PathBuf,
}

#[verifier::ext_equal]
pub struct NameConflictView {
    pub kind: ConflictKind,
    pub conflicting_target: Seq<u8>,
}

impl View for NameConflict {
    type V = NameConflictView;

    open spec fn view(&self) -> NameConflictView {
        NameConflictView { kind: self.kind, conflicting_target: self.conflicting_target@ }
    }
}

impl Clone for NameConflict {
    fn clone(&self) -> (r: Self)
        ensures
            r@ == self@,
    {
        NameConflict { kind: self.kind, conflicting_target: self.conflicting_target.clone() }
    }
}

/// A discovered Target and the Command Name that it proposes.
#[derive(Debug, PartialEq, Eq)]
pub struct Candidate {
    pub proposed_name: String,
    pub target: PathBuf,
    pub registration: Option<RegistrationState>,
    pub conflict: Option<NameConflict>,
}

#[verifier::ext_equal]
pub struct CandidateView {
    pub proposed_name: Seq<char>,
    pub target: Seq<u8>,
    pub registration: Option<RegistrationStateView>,
    pub conflict: Option<NameConflictView>,
}

impl View for Candidate {
    type V = CandidateView;

    open spec fn view(&self) -> CandidateView {
        CandidateView {
            proposed_name: self.proposed_name@,
            target: self.target@,
            registration: views::view_of(self.registration),
            conflict: views::view_of(self.conflict),
        }
    }
}

impl Clone for Candidate {
    fn clone(&self) -> (r: Self)
        ensures
            r@ == self@,
    {
        Candidate {
            proposed_name: self.proposed_name.clone(),
            target: self.target.clone(),
            registration: match &self.registration {
                Some(state) => Some(state.clone()),
                None => None,
            },
            conflict: match &self.conflict {
                Some(conflict) => Some(conflict.clone()),
                None => None,
            },
        }
    }
}

#[derive(Clone, Copy, Debug, PartialEq, Eq, Structural)]
pub enum WarningKind {
    UnreadableDirectory,
    UnreadablePath,
}

impl WarningKind {
    pub open spec fn identifier_text(self) -> Seq<char> {
        match self {
            WarningKind::UnreadableDirectory => "unreadable-directory"@,
            WarningKind::UnreadablePath => "unreadable-path"@,
        }
    }

    pub fn identifier(&self) -> (r: &'static str)
        ensures
            r@ == self.identifier_text(),
    {
        match self {
            WarningKind::UnreadableDirectory => "unreadable-directory",
            WarningKind::UnreadablePath => "unreadable-path",
        }
    }
}

#[derive(Debug, PartialEq, Eq)]
pub struct SearchWarning {
    pub kind: WarningKind,
    pub path: PathBuf,
    pub message: String,
}

#[verifier::ext_equal]
pub struct SearchWarningView {
    pub kind: WarningKind,
    pub path: Seq<u8>,
    pub message: Seq<char>,
}

impl View for SearchWarning {
    type V = SearchWarningView;

    open spec fn view(&self) -> SearchWarningView {
        SearchWarningView { kind: self.kind, path: self.path@, message: self.message@ }
    }
}

#[derive(Clone, Copy, Debug, PartialEq, Eq, Structural)]
pub enum SearchStatus {
    Healthy,
    Blocked,
}

#[derive(Debug, PartialEq, Eq)]
pub struct SearchResult {
    pub status: SearchStatus,
    pub search_root: PathBuf,
    pub candidates: Vec<Candidate>,
    pub warnings: Vec<SearchWarning>,
}

#[verifier::ext_equal]
pub struct SearchResultView {
    pub status: SearchStatus,
    pub search_root: Seq<u8>,
    pub candidates: Seq<CandidateView>,
    pub warnings: Seq<SearchWarningView>,
}

impl View for SearchResult {
    type V = SearchResultView;

    open spec fn view(&self) -> SearchResultView {
        SearchResultView {
            status: self.status,
            search_root: self.search_root@,
            candidates: views::views(self.candidates@),
            warnings: views::views(self.warnings@),
        }
    }
}

#[derive(Clone, Copy, Debug, PartialEq, Eq, Structural)]
pub enum PathStatus {
    Present,
    Missing,
}

#[derive(Debug, PartialEq, Eq)]
pub struct PathDiagnostic {
    pub status: PathStatus,
    pub identifier: String,
    pub bin_dir: PathBuf,
    pub matches: usize,
    pub guidance: String,
}

#[verifier::ext_equal]
pub struct PathDiagnosticView {
    pub status: PathStatus,
    pub identifier: Seq<char>,
    pub bin_dir: Seq<u8>,
    pub matches: usize,
    pub guidance: Seq<char>,
}

impl View for PathDiagnostic {
    type V = PathDiagnosticView;

    open spec fn view(&self) -> PathDiagnosticView {
        PathDiagnosticView {
            status: self.status,
            identifier: self.identifier@,
            bin_dir: self.bin_dir@,
            matches: self.matches,
            guidance: self.guidance@,
        }
    }
}

/// A display root beside the directory that it resolves to.
#[derive(Debug)]
pub struct DisplayRoot {
    pub named: NamedRoot,
    pub canonical: PathBuf,
}

#[verifier::ext_equal]
pub struct DisplayRootView {
    pub named: NamedRootView,
    pub canonical: Seq<u8>,
}

impl View for DisplayRoot {
    type V = DisplayRootView;

    open spec fn view(&self) -> DisplayRootView {
        DisplayRootView { named: self.named@, canonical: self.canonical@ }
    }
}

/// A path beside what it resolves to.
#[derive(Debug)]
pub struct CanonicalPath {
    pub path: PathBuf,
    pub canonical: PathBuf,
}

#[verifier::ext_equal]
pub struct CanonicalPathView {
    pub path: Seq<u8>,
    pub canonical: Seq<u8>,
}

impl View for CanonicalPath {
    type V = CanonicalPathView;

    open spec fn view(&self) -> CanonicalPathView {
        CanonicalPathView { path: self.path@, canonical: self.canonical@ }
    }
}

/// What a path is known to resolve to; otherwise itself.
pub open spec fn canonical_for(known: Seq<CanonicalPathView>, p: Seq<u8>) -> Seq<u8>
    decreases known.len(),
{
    if known.len() == 0 {
        p
    } else if path::components(known.last().path) == path::components(p) {
        known.last().canonical
    } else {
        canonical_for(known.drop_last(), p)
    }
}

/// What a path is known to resolve to; otherwise itself.
pub fn find_canonical(known: &Vec<CanonicalPath>, p: &PathBuf) -> (r: PathBuf)
    ensures
        r@ == canonical_for(views::views(known@), p@),
{
    let ghost all = views::views(known@);
    let mut i: usize = known.len();
    assert(all.take(i as int) =~= all);
    while i > 0
        invariant
            i <= known@.len(),
            all == views::views(known@),
            canonical_for(all, p@) == canonical_for(all.take(i as int), p@),
        decreases i,
    {
        assert(all.take(i as int).drop_last() =~= all.take(i - 1));
        assert(all.take(i as int).last() == known@[i - 1]@);
        if known[i - 1].path.same(p) {
            return known[i - 1].canonical.clone();
        }
        i = i - 1;
    }
    p.clone()
}

/// A path below a display root: the root's name, the path and the directory that it lies below.
#[verifier::ext_equal]
pub struct RootMatch {
    pub name: Seq<char>,
    pub path: Seq<u8>,
    pub root: Seq<u8>,
}

/// How a path lies below a display root: as it is spelled, or else once both are resolved.
pub open spec fn root_match(
    path: Seq<u8>,
    canonical: Seq<u8>,
    root: DisplayRootView,
) -> Option<RootMatch> {
    if path::starts_with(path, root.named.root) {
        Some(RootMatch { name: root.named.name, path, root: root.named.root })
    } else if path::starts_with(canonical, root.canonical) {
        Some(RootMatch { name: root.named.name, path: canonical, root: root.canonical })
    } else {
        None
    }
}

/// The deepest display root that a path lies below; the first one, where several are as deep.
pub open spec fn best_root(
    path: Seq<u8>,
    canonical: Seq<u8>,
    roots: Seq<DisplayRootView>,
) -> Option<RootMatch>
    decreases roots.len(),
{
    if roots.len() == 0 {
        None
    } else {
        let before = best_root(path, canonical, roots.drop_last());
        match (before, root_match(path, canonical, roots.last())) {
            (Some(best), Some(found)) => if path::components(found.root).len() > path::components(
                best.root,
            ).len() {
                Some(found)
            } else {
                before
            },
            (None, found) => found,
            (_, None) => before,
        }
    }
}

/// A path as the user reads it.
pub open spec fn displayed(
    path: Seq<u8>,
    canonical: Seq<u8>,
    home: Seq<u8>,
    roots: Seq<DisplayRootView>,
) -> Seq<char> {
    match best_root(path, canonical, roots) {
        Some(found) => {
            let relative = path::stripped(found.path, found.root);
            if relative.len() == 0 {
                "["@ + found.name + "]"@
            } else {
                "["@ + found.name + "]/"@ + text::lossy_text(relative)
            }
        },
        None => if home.len() > 0 && path::components(path) == path::components(home) {
            "~"@
        } else if home.len() > 0 && path::starts_with(path, home) {
            "~/"@ + text::lossy_text(path::stripped(path, home))
        } else {
            text::lossy_text(path)
        },
    }
}

/// A path as the user reads it, without display roots.
pub fn display_path(path: &PathBuf, home: &PathBuf) -> (r: String)
    ensures
        r@ == displayed(path@, path@, home@, Seq::empty()),
{
    let roots: Vec<DisplayRoot> = Vec::new();
    assert(views::views(roots@) =~= Seq::empty());
    display_path_with_roots(path, path, home, &roots)
}

/// A path as the user reads it: below the deepest display root that it lies in, else below the
/// home directory, else as it is. `canonical` is what the path resolves to.
pub fn display_path_with_roots(
    path: &PathBuf,
    canonical: &PathBuf,
    home: &PathBuf,
    roots: &Vec<DisplayRoot>,
) -> (r: String)
    ensures
        r@ == displayed(path@, canonical@, home@, views::views(roots@)),
{
    let ghost rs = views::views(roots@);
    let mut best: Option<(usize, bool, usize)> = None;
    let mut i: usize = 0;
    assert(rs.take(0).len() == 0);
    while i < roots.len()
        invariant
            i <= roots@.len(),
            rs == views::views(roots@),
            match best {
                None => best_root(path@, canonical@, rs.take(i as int)) is None,
                Some((at, spelled, depth)) => {
                    &&& at < roots@.len()
                    &&& best_root(path@, canonical@, rs.take(i as int)) == Some(
                        RootMatch {
                            name: rs[at as int].named.name,
                            path: if spelled {
                                path@
                            } else {
                                canonical@
                            },
                            root: if spelled {
                                rs[at as int].named.root
                            } else {
                                rs[at as int].canonical
                            },
                        },
                    )
                    &&& spelled ==> path::starts_with(path@, rs[at as int].named.root)
                    &&& !spelled ==> path::starts_with(canonical@, rs[at as int].canonical)
                    &&& depth == path::components(
                        best_root(path@, canonical@, rs.take(i as int))->0.root,
                    ).len()
                },
            },
        decreases roots.len() - i,
    {
        assert(rs.take(i + 1).drop_last() =~= rs.take(i as int));
        assert(rs.take(i + 1).last() == roots@[i as int]@);
        let spelled = path.starts_with(&roots[i].named.root);
        if spelled || canonical.starts_with(&roots[i].canonical) {
            let parts = if spelled {
                roots[i].named.root.components()
            } else {
                roots[i].canonical.components()
            };
            let depth: usize = parts.len();
            assert(views::views(parts@).len() == depth);
            let better = match best {
                None => true,
                Some((_, _, best_depth)) => depth > best_depth,
            };
            if better {
                best = Some((i, spelled, depth));
            }
        }
        i = i + 1;
    }
    assert(rs.take(i as int) =~= rs);
    match best {
        Some((at, spelled, _)) => {
            let relative = if spelled {
                path.strip_prefix(&roots[at].named.root)
            } else {
                canonical.strip_prefix(&roots[at].canonical)
            };
            let relative = relative.unwrap();
            if relative.is_empty() {
                text::joined3("[", &roots[at].named.name, "]")
            } else {
                let mut m = text::joined3("[", &roots[at].named.name, "]/");
                m.append(&relative.display());
                m
            }
        },
        None => {
            if home.is_empty() {
                return path.display();
            }
            if path.same(home) {
                return "~".to_owned();
            }
            match path.strip_prefix(home) {
                Some(relative) => text::joined("~/", &relative.display()),
                None => path.display(),
            }
        },
    }
}

/// No display root that a path lies below is deeper than the one that is shown.
pub proof fn deepest_root_is_shown(
    path: Seq<u8>,
    canonical: Seq<u8>,
    roots: Seq<DisplayRootView>,
    i: int,
)
    requires
        0 <= i < roots.len(),
        root_match(path, canonical, roots[i]) is Some,
    ensures
        best_root(path, canonical, roots) is Some,
        path::components(best_root(path, canonical, roots)->0.root).len() >= path::components(
            root_match(path, canonical, roots[i])->0.root,
        ).len(),
    decreases roots.len(),
{
    if i < roots.len() - 1 {
        assert(roots.drop_last()[i] == roots[i]);
        deepest_root_is_shown(path, canonical, roots.drop_last(), i);
    }
}

/// A path without its last `dropped` names.
pub open spec fn without_names(s: Seq<u8>, dropped: int) -> Seq<u8> {
    let ns = path::names(s).take(path::names(s).len() - dropped);
    if dropped == 0 {
        s
    } else if path::from_here(s) {
        seq![path::DOT, path::SLASH] + path::rendered_names(ns)
    } else {
        path::rendered(path::absolute(s), ns)
    }
}

/// A path with more names.
pub open spec fn with_names(s: Seq<u8>, ns: Seq<Seq<u8>>) -> Seq<u8>
    decreases ns.len(),
{
    if ns.len() == 0 {
        s
    } else {
        path::joined(with_names(s, ns.drop_last()), ns.last())
    }
}

/// The number of ordinary names that a path ends in.
pub open spec fn ordinary_tail(ns: Seq<Seq<u8>>) -> nat
    decreases ns.len(),
{
    if ns.len() == 0 || ns.last() == path::parent_name() {
        0
    } else {
        1 + ordinary_tail(ns.drop_last())
    }
}

fn ordinary_tail_of(all: &Vec<Vec<u8>>) -> (r: usize)
    ensures
        r == ordinary_tail(views::views(all@)),
        r <= all@.len(),
{
    let ghost ns = views::views(all@);
    let mut k: usize = all.len();
    assert(ns.take(ns.len() as int) =~= ns);
    while k > 0
        invariant
            k <= all@.len(),
            ns == views::views(all@),
            ordinary_tail(ns) == all@.len() - k + ordinary_tail(ns.take(k as int)),
        decreases k,
    {
        assert(ns.take(k as int).last() == all@[k - 1]@);
        assert(ns.take(k as int).drop_last() =~= ns.take(k - 1));
        if path::is_parent(&all[k - 1]) {
            return all.len() - k;
        }
        k = k - 1;
    }
    all.len()
}

/// What to try to resolve once the attempts before it have failed: a path without its last
/// `dropped` names, as long as those are ordinary names.
pub fn display_attempt(path: &PathBuf, dropped: usize) -> (r: Option<PathBuf>)
    ensures
        r is Some <==> dropped <= ordinary_tail(path::names(path@)),
        r is Some ==> r->0@ == without_names(path@, dropped as int),
{
    let mut all = path.names();
    let ghost ns = path::names(path@);
    if dropped > ordinary_tail_of(&all) {
        return None;
    }
    if dropped == 0 {
        return Some(path.clone());
    }
    let kept: usize = all.len() - dropped;
    all.truncate(kept);
    assert(views::views(all@) =~= ns.take(ns.len() - dropped));
    let relative = PathBuf::from_names(path.is_absolute(), &all);
    if path::starts_here(path.as_bytes()) {
        let mut bytes: Vec<u8> = vec![path::DOT, path::SLASH];
        let mut rest = relative.as_bytes().clone();
        assert(rest@ =~= relative@);
        bytes.append(&mut rest);
        assert(bytes@ =~= seq![path::DOT, path::SLASH] + path::rendered_names(
            ns.take(ns.len() - dropped),
        ));
        Some(PathBuf::from_bytes(bytes))
    } else {
        Some(relative)
    }
}

/// What a path resolves to for display, given the first attempt that was resolved: the number of
/// names that it dropped, and the outcome. Dropped names come back behind the outcome.
pub open spec fn canonical_of(s: Seq<u8>, resolved: Option<(int, Seq<u8>)>) -> Seq<u8> {
    match resolved {
        Some((dropped, canonical)) => if 0 <= dropped <= path::names(s).len() {
            with_names(canonical, path::names(s).skip(path::names(s).len() - dropped))
        } else {
            s
        },
        None => s,
    }
}

/// What a path resolves to for display, given the first attempt that was resolved.
pub fn canonicalize_for_display(path: &PathBuf, resolved: Option<(usize, PathBuf)>) -> (r: PathBuf)
    ensures
        r@ == canonical_of(
            path@,
            match resolved {
                Some((dropped, canonical)) => Some((dropped as int, canonical@)),
                None => None,
            },
        ),
{
    match resolved {
        None => path.clone(),
        Some((dropped, canonical)) => {
            let all = path.names();
            let ghost ns = path::names(path@);
            if dropped > all.len() {
                return path.clone();
            }
            let first: usize = all.len() - dropped;
            let ghost tail = ns.skip(first as int);
            let mut out = canonical;
            let mut i: usize = first;
            assert(tail.take(0).len() == 0);
            while i < all.len()
                invariant
                    first <= i <= all@.len(),
                    ns == views::views(all@),
                    tail == ns.skip(first as int),
                    out@ == with_names(canonical@, tail.take(i - first)),
                decreases all.len() - i,
            {
                assert(tail.take(i - first + 1).drop_last() =~= tail.take(i - first));
                assert(tail.take(i - first + 1).last() == all@[i as int]@);
                let name = all[i].clone();
                assert(name@ =~= all@[i as int]@);
                out = out.join(&PathBuf::from_bytes(name));
                i = i + 1;
            }
            assert(tail.take(i - first) =~= tail);
            out
        },
    }
}

} // verus!
