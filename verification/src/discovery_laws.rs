//! What a walk finds in a tree of files, and what holds of every walk.

use vstd::prelude::*;
use vstd::utf8;

use crate::discovery;
use crate::discovery::{PendingView, WalkEventView, WalkPhaseView, WalkView};
use crate::discovery_ignore;
use crate::host::{EntryKind, FileFacts, IoErrorView, ObservationView};
use crate::model::{SearchWarningView, WarningKind};
use crate::order;
use crate::path;

verus! {

/// A tree of files, as a host reports it.
pub enum Node {
    /// A place in a directory that cannot be read.
    Broken { source: IoErrorView },
    /// An entry of a directory: its path, what is seen there, whether the host says that patterns
    /// match it, and, where it is a directory, what it holds or why it cannot be listed.
    Entry {
        path: Seq<u8>,
        seen: ObservationView,
        matched: bool,
        unreadable: Option<IoErrorView>,
        children: Seq<Node>,
    },
}

/// How a directory lists a node.
pub open spec fn entry_of(node: Node) -> Result<Seq<u8>, IoErrorView> {
    match node {
        Node::Broken { source } => Err(source),
        Node::Entry { path, .. } => Ok(path),
    }
}

/// How a directory lists its nodes.
pub open spec fn entries_of(nodes: Seq<Node>) -> Seq<Result<Seq<u8>, IoErrorView>> {
    Seq::new(nodes.len(), |i: int| entry_of(nodes[i]))
}

/// Two walks look for the same things.
pub open spec fn same_scope(a: WalkView, b: WalkView) -> bool {
    &&& a.root == b.root
    &&& a.bin_dir == b.bin_dir
    &&& a.ignored_patterns == b.ignored_patterns
    &&& a.ignored_paths == b.ignored_paths
}

/// The patterns keep a walk out of a directory.
pub open spec fn shut_out(scope: WalkView, child: Seq<u8>, matched: bool) -> bool {
    if utf8::valid_utf8(scope.root) && utf8::valid_utf8(child) {
        scope.ignores(child)
    } else {
        matched
    }
}

/// A walk enters a directory.
pub open spec fn entered(scope: WalkView, child: Seq<u8>, matched: bool) -> bool {
    !shut_out(scope, child, matched) && path::components(child) != path::components(scope.bin_dir)
}

/// What is seen is an executable file, or a link to one.
pub open spec fn runs(seen: ObservationView) -> bool {
    &&& seen.entry matches Ok(kind) && kind != EntryKind::Directory && kind != EntryKind::Other
    &&& seen.followed matches Ok(facts) && facts.is_executable_file()
}

/// The executables at and below a node, in the order of the tree: whatever is ignored is left out,
/// and so is what lies in ignored directories and in the one of the Managed Links.
pub open spec fn found_at(scope: WalkView, node: Node) -> Seq<Seq<u8>>
    decreases node,
{
    match node {
        Node::Broken { .. } => Seq::empty(),
        Node::Entry { path, seen, matched, unreadable, children } => {
            let child = path::normalized(path);
            if discovery_ignore::listed(scope.ignored_paths, child) {
                Seq::empty()
            } else if seen.entry == Ok::<EntryKind, IoErrorView>(EntryKind::Directory) {
                if entered(scope, child, matched) && unreadable is None {
                    found_in(scope, children)
                } else {
                    Seq::empty()
                }
            } else if runs(seen) {
                seq![child]
            } else {
                Seq::empty()
            }
        },
    }
}

/// The executables at and below nodes.
pub open spec fn found_in(scope: WalkView, nodes: Seq<Node>) -> Seq<Seq<u8>>
    decreases nodes,
{
    if nodes.len() == 0 {
        Seq::empty()
    } else {
        found_at(scope, nodes[0]) + found_in(scope, nodes.drop_first())
    }
}

pub open spec fn warning(kind: WarningKind, path: Seq<u8>, source: IoErrorView) -> SearchWarningView {
    SearchWarningView { kind, path, message: source.message }
}

/// What is said of a node in a directory: each place that could not be read is named.
pub open spec fn warned_at(scope: WalkView, directory: Seq<u8>, node: Node) -> Seq<
    SearchWarningView,
>
    decreases node,
{
    match node {
        Node::Broken { source } => seq![warning(WarningKind::UnreadablePath, directory, source)],
        Node::Entry { path, seen, matched, unreadable, children } => {
            let child = path::normalized(path);
            if discovery_ignore::listed(scope.ignored_paths, child) {
                Seq::empty()
            } else {
                match seen.entry {
                    Err(source) => seq![warning(WarningKind::UnreadablePath, child, source)],
                    Ok(EntryKind::Directory) => if entered(scope, child, matched) {
                        match unreadable {
                            Some(source) => seq![
                                warning(WarningKind::UnreadableDirectory, child, source),
                            ],
                            None => warned_in(scope, child, children),
                        }
                    } else {
                        Seq::empty()
                    },
                    Ok(_) => Seq::empty(),
                }
            }
        },
    }
}

/// What is said of the nodes of a directory.
pub open spec fn warned_in(scope: WalkView, directory: Seq<u8>, nodes: Seq<Node>) -> Seq<
    SearchWarningView,
>
    decreases nodes,
{
    if nodes.len() == 0 {
        Seq::empty()
    } else {
        warned_at(scope, directory, nodes[0]) + warned_in(scope, directory, nodes.drop_first())
    }
}

/// What a host reports while a walk goes through a node.
pub open spec fn events_at(scope: WalkView, node: Node) -> Seq<WalkEventView>
    decreases node,
{
    match node {
        Node::Broken { .. } => Seq::empty(),
        Node::Entry { path, seen, matched, unreadable, children } => {
            let child = path::normalized(path);
            if discovery_ignore::listed(scope.ignored_paths, child) {
                Seq::empty()
            } else if seen.entry == Ok::<EntryKind, IoErrorView>(EntryKind::Directory) {
                let asked = if utf8::valid_utf8(scope.root) && utf8::valid_utf8(child) {
                    seq![WalkEventView::Inspected(seen)]
                } else {
                    seq![WalkEventView::Inspected(seen), WalkEventView::Matched(matched)]
                };
                if entered(scope, child, matched) {
                    match unreadable {
                        Some(source) => asked + seq![WalkEventView::Listed(Err(source))],
                        None => asked + seq![WalkEventView::Listed(Ok(entries_of(children)))]
                            + events_in(scope, children),
                    }
                } else {
                    asked
                }
            } else {
                seq![WalkEventView::Inspected(seen)]
            }
        },
    }
}

/// What a host reports while a walk goes through nodes.
pub open spec fn events_in(scope: WalkView, nodes: Seq<Node>) -> Seq<WalkEventView>
    decreases nodes,
{
    if nodes.len() == 0 {
        Seq::empty()
    } else {
        events_at(scope, nodes[0]) + events_in(scope, nodes.drop_first())
    }
}

/// A walk after a host has reported these events.
pub open spec fn replayed(walk: WalkView, events: Seq<WalkEventView>) -> WalkView
    decreases events.len(),
{
    if events.len() == 0 {
        walk
    } else {
        replayed(walk.advance(events[0]), events.drop_first())
    }
}

proof fn replayed_in_parts(walk: WalkView, a: Seq<WalkEventView>, b: Seq<WalkEventView>)
    ensures
        replayed(walk, a + b) == replayed(replayed(walk, a), b),
    decreases a.len(),
{
    if a.len() == 0 {
        assert(a + b =~= b);
    } else {
        assert((a + b).drop_first() =~= a.drop_first() + b);
        replayed_in_parts(walk.advance(a[0]), a.drop_first(), b);
    }
}

proof fn replayed_once(walk: WalkView, event: WalkEventView)
    ensures
        replayed(walk, seq![event]) == walk.advance(event),
{
    assert(seq![event].drop_first() =~= Seq::empty());
    assert(replayed(walk.advance(event), seq![event].drop_first()) == walk.advance(event));
}

/// Where a walk stands does not matter for where it settles next.
proof fn settling_forgets_the_phase(walk: WalkView, phase: WalkPhaseView)
    ensures
        walk.at(phase).settle() == walk.settle(),
    decreases walk.pending.len(),
{
    if walk.pending.len() > 0 {
        let next = walk.pending.last();
        let rest = WalkView { pending: walk.pending.drop_last(), ..walk };
        match next.entry {
            Err(source) => {
                settling_forgets_the_phase(
                    rest.warn(WarningKind::UnreadablePath, next.directory, source.message),
                    phase,
                );
                assert(rest.at(phase).warn(
                    WarningKind::UnreadablePath,
                    next.directory,
                    source.message,
                ) == rest.warn(
                    WarningKind::UnreadablePath,
                    next.directory,
                    source.message,
                ).at(phase));
            },
            Ok(entry) => {
                settling_forgets_the_phase(rest, phase);
            },
        }
    }
}

/// The entries of a directory that wait to be looked at, the first one last.
pub open spec fn waiting(directory: Seq<u8>, nodes: Seq<Node>) -> Seq<PendingView> {
    Seq::new(
        nodes.len(),
        |i: int| PendingView { directory, entry: entry_of(nodes[nodes.len() - 1 - i]) },
    )
}

/// A walk that went through nodes: what was found and said is added, and it goes on as before.
pub open spec fn walked(walk: WalkView, scope: WalkView, directory: Seq<u8>, nodes: Seq<Node>) -> WalkView {
    WalkView {
        targets: walk.targets + found_in(scope, nodes),
        warnings: walk.warnings + warned_in(scope, directory, nodes),
        ..walk
    }
}

/// A walk that has nodes before it goes through them and then on to what waited before.
proof fn walks_through_nodes(
    walk: WalkView,
    scope: WalkView,
    directory: Seq<u8>,
    nodes: Seq<Node>,
)
    requires
        same_scope(walk, scope),
    ensures
        replayed(
            (WalkView { pending: walk.pending + waiting(directory, nodes), ..walk }).settle(),
            events_in(scope, nodes),
        ) == walked(walk, scope, directory, nodes).settle(),
    decreases nodes, 0int,
{
    let before = WalkView { pending: walk.pending + waiting(directory, nodes), ..walk };
    if nodes.len() == 0 {
        assert(before.pending =~= walk.pending);
        assert(walked(walk, scope, directory, nodes) =~= walk);
    } else {
        let node = nodes[0];
        let others = nodes.drop_first();
        let rest = WalkView { pending: walk.pending + waiting(directory, others), ..walk };
        assert(waiting(directory, nodes).drop_last() =~= waiting(directory, others)) by {
            assert forall|i: int| 0 <= i < others.len() implies waiting(
                directory,
                nodes,
            ).drop_last()[i] == waiting(directory, others)[i] by {
                assert(nodes[nodes.len() - 1 - i] == others[others.len() - 1 - i]);
            }
        }
        assert(before.pending.drop_last() =~= rest.pending);
        assert(before.pending.last() == PendingView { directory, entry: entry_of(node) });
        let passed = WalkView {
            targets: walk.targets + found_at(scope, node),
            warnings: walk.warnings + warned_at(scope, directory, node),
            ..walk
        };
        let onward = WalkView { pending: walk.pending + waiting(directory, others), ..passed };
        assert(replayed(before.settle(), events_at(scope, node)) == onward.settle()) by {
            walks_through_a_node(walk, scope, directory, node, rest, before);
        }
        replayed_in_parts(before.settle(), events_at(scope, node), events_in(scope, others));
        walks_through_nodes(passed, scope, directory, others);
        assert(walked(passed, scope, directory, others) =~= walked(walk, scope, directory, nodes));
    }
}

/// A walk that has a node before it goes through it and then on to the rest.
proof fn walks_through_a_node(
    walk: WalkView,
    scope: WalkView,
    directory: Seq<u8>,
    node: Node,
    rest: WalkView,
    before: WalkView,
)
    requires
        same_scope(walk, scope),
        same_scope(rest, scope),
        rest.targets == walk.targets,
        rest.warnings == walk.warnings,
        before.pending.len() > 0,
        before.pending.drop_last() == rest.pending,
        before.pending.last() == (PendingView { directory, entry: entry_of(node) }),
        before == (WalkView { pending: before.pending, ..rest }),
    ensures
        replayed(before.settle(), events_at(scope, node)) == (WalkView {
            targets: walk.targets + found_at(scope, node),
            warnings: walk.warnings + warned_at(scope, directory, node),
            ..rest
        }).settle(),
    decreases node, 1int,
{
    let onward = WalkView {
        targets: walk.targets + found_at(scope, node),
        warnings: walk.warnings + warned_at(scope, directory, node),
        ..rest
    };
    assert(WalkView { pending: before.pending.drop_last(), ..before } == rest);
    match node {
        Node::Broken { source } => {
            assert(onward =~= rest.warn(WarningKind::UnreadablePath, directory, source.message));
        },
        Node::Entry { path, seen, matched, unreadable, children } => {
            let child = path::normalized(path);
            if discovery_ignore::listed(scope.ignored_paths, child) {
                assert(onward =~= rest);
            } else {
                let looking = rest.at(WalkPhaseView::Inspecting(child));
                assert(before.settle() == looking);
                if seen.entry == Ok::<EntryKind, IoErrorView>(EntryKind::Directory) {
                    walks_through_a_directory(walk, scope, directory, node, rest);
                } else {
                    replayed_once(looking, WalkEventView::Inspected(seen));
                    match seen.entry {
                        Err(source) => {
                            let after = looking.warn(
                                WarningKind::UnreadablePath,
                                child,
                                source.message,
                            );
                            assert(onward.at(looking.phase) =~= after);
                            settling_forgets_the_phase(onward, looking.phase);
                        },
                        Ok(EntryKind::Directory) => {},
                        Ok(EntryKind::Other) => {
                            assert(onward.at(looking.phase) =~= looking);
                            settling_forgets_the_phase(onward, looking.phase);
                        },
                        Ok(_) => {
                            if runs(seen) {
                                assert(onward.at(looking.phase) =~= looking.find(child));
                            } else {
                                assert(onward.at(looking.phase) =~= looking);
                            }
                            settling_forgets_the_phase(onward, looking.phase);
                        },
                    }
                }
            }
        },
    }
}

/// A walk that looks at a directory goes through it, if it may, and then on to the rest.
proof fn walks_through_a_directory(
    walk: WalkView,
    scope: WalkView,
    directory: Seq<u8>,
    node: Node,
    rest: WalkView,
)
    requires
        same_scope(walk, scope),
        same_scope(rest, scope),
        rest.targets == walk.targets,
        rest.warnings == walk.warnings,
        node is Entry,
        node->seen.entry == Ok::<EntryKind, IoErrorView>(EntryKind::Directory),
        !discovery_ignore::listed(scope.ignored_paths, path::normalized(node->path)),
    ensures
        replayed(
            rest.at(WalkPhaseView::Inspecting(path::normalized(node->path))),
            events_at(scope, node),
        ) == (WalkView {
            targets: walk.targets + found_at(scope, node),
            warnings: walk.warnings + warned_at(scope, directory, node),
            ..rest
        }).settle(),
    decreases node, 0int,
{
    let onward = WalkView {
        targets: walk.targets + found_at(scope, node),
        warnings: walk.warnings + warned_at(scope, directory, node),
        ..rest
    };
    if let Node::Entry { path, seen, matched, unreadable, children } = node {
        let child = path::normalized(path);
        let looking = rest.at(WalkPhaseView::Inspecting(child));
        let plain = utf8::valid_utf8(scope.root) && utf8::valid_utf8(child);
        let asked = if plain {
            seq![WalkEventView::Inspected(seen)]
        } else {
            seq![WalkEventView::Inspected(seen), WalkEventView::Matched(matched)]
        };
        let asking = if plain {
            looking
        } else {
            looking.at(WalkPhaseView::Matching(child))
        };
        let decided = asking.enter(child, shut_out(scope, child, matched));
        assert(replayed(looking, asked) == decided) by {
            if plain {
                replayed_once(looking, WalkEventView::Inspected(seen));
                assert(looking.ignores(child) == scope.ignores(child));
            } else {
                replayed_once(looking, WalkEventView::Inspected(seen));
                replayed_once(asking, WalkEventView::Matched(matched));
                assert(asked =~= seq![WalkEventView::Inspected(seen)] + seq![
                    WalkEventView::Matched(matched),
                ]);
                replayed_in_parts(
                    looking,
                    seq![WalkEventView::Inspected(seen)],
                    seq![WalkEventView::Matched(matched)],
                );
            }
        }
        if !entered(scope, child, matched) {
            assert(onward =~= rest);
            settling_forgets_the_phase(rest, asking.phase);
            assert(asking == rest.at(asking.phase));
            assert(decided == asking.settle());
        } else {
            let inside = asking.at(WalkPhaseView::Listing(child));
            assert(decided == inside);
            match unreadable {
                Some(source) => {
                    let listed = WalkEventView::Listed(Err(source));
                    replayed_in_parts(looking, asked, seq![listed]);
                    replayed_once(inside, listed);
                    let after = inside.warn(
                        WarningKind::UnreadableDirectory,
                        child,
                        source.message,
                    );
                    assert(onward.at(inside.phase) =~= after);
                    settling_forgets_the_phase(onward, inside.phase);
                },
                None => {
                    let listed = WalkEventView::Listed(Ok(entries_of(children)));
                    let opened = WalkView {
                        pending: inside.pending + waiting(child, children),
                        ..inside
                    };
                    replayed_in_parts(looking, asked + seq![listed], events_in(scope, children));
                    replayed_in_parts(looking, asked, seq![listed]);
                    replayed_once(inside, listed);
                    let entries = entries_of(children);
                    assert(Seq::new(
                        entries.len(),
                        |i: int|
                            PendingView {
                                directory: child,
                                entry: entries[entries.len() - 1 - i],
                            },
                    ) =~= waiting(child, children));
                    assert(inside.advance(listed) == opened.settle());
                    walks_through_nodes(inside, scope, child, children);
                    assert(walked(inside, scope, child, children) =~= onward.at(inside.phase));
                    settling_forgets_the_phase(onward, inside.phase);
                },
            }
        }
    }
}

/// A walk below a root that can be listed finds the executables of the tree and nothing else, in
/// the order of their paths, and names every place that could not be read.
pub proof fn a_walk_finds_the_executables(
    walk: WalkView,
    facts: FileFacts,
    nodes: Seq<Node>,
)
    requires
        walk.phase is CheckingRoot,
        walk.pending.len() == 0,
        walk.targets.len() == 0,
        walk.warnings.len() == 0,
        facts.is_dir,
        discovery::matcher_for(walk.ignored_patterns) is Ok,
    ensures
        ({
            let reports = seq![
                WalkEventView::Root(Ok(facts)),
                WalkEventView::Listed(Ok(entries_of(nodes))),
            ] + events_in(walk, nodes);
            let done = replayed(walk, reports);
            &&& done.phase == WalkPhaseView::Finished(Ok(()))
            &&& done.targets == order::stably_sorted(
                found_in(walk, nodes),
                discovery::target_order(),
            )
            &&& done.warnings == warned_in(walk, walk.root, nodes)
        }),
{
    let root = WalkEventView::Root(Ok(facts));
    let listed = WalkEventView::Listed(Ok(entries_of(nodes)));
    let inside = walk.at(WalkPhaseView::Listing(walk.root));
    let first = seq![root, listed];
    replayed_in_parts(walk, first, events_in(walk, nodes));
    assert(first =~= seq![root] + seq![listed]);
    replayed_in_parts(walk, seq![root], seq![listed]);
    replayed_once(walk, root);
    replayed_once(inside, listed);
    let entries = entries_of(nodes);
    assert(Seq::new(
        entries.len(),
        |i: int| PendingView { directory: walk.root, entry: entries[entries.len() - 1 - i] },
    ) =~= waiting(walk.root, nodes));
    walks_through_nodes(inside, walk, walk.root, nodes);
    assert(walked(inside, walk, walk.root, nodes).targets =~= found_in(walk, nodes));
    assert(walked(inside, walk, walk.root, nodes).warnings =~= warned_in(walk, walk.root, nodes));
}

/// Nothing that is found is on the list of ignored paths.
pub proof fn nothing_ignored_is_found(scope: WalkView, nodes: Seq<Node>, target: Seq<u8>)
    requires
        found_in(scope, nodes).contains(target),
    ensures
        !discovery_ignore::listed(scope.ignored_paths, target),
    decreases nodes,
{
    let here = found_at(scope, nodes[0]);
    let there = found_in(scope, nodes.drop_first());
    let i = found_in(scope, nodes).index_of(target);
    if i < here.len() {
        assert(here[i] == target);
        match nodes[0] {
            Node::Broken { .. } => {},
            Node::Entry { path, seen, matched, unreadable, children } => {
                if seen.entry == Ok::<EntryKind, IoErrorView>(EntryKind::Directory) {
                    nothing_ignored_is_found(scope, children, target);
                }
            },
        }
    } else {
        assert(there[i - here.len()] == target);
        nothing_ignored_is_found(scope, nodes.drop_first(), target);
    }
}

/// The order of Targets is the strict order of their paths.
proof fn target_order_is_weak()
    ensures
        order::weak_order(discovery::target_order()),
{
    path::path_order_is_strict();
    order::strict_order_is_weak(path::path_order());
    let by_path = path::path_order();
    let ranks = discovery::target_order();
    assert forall|a: Seq<u8>| !#[trigger] ranks(a, a) by {
        assert(!by_path(path::components(a), path::components(a)));
    }
    assert forall|a: Seq<u8>, b: Seq<u8>, c: Seq<u8>| #[trigger] ranks(a, b) && #[trigger] ranks(
        b,
        c,
    ) implies ranks(a, c) by {
        assert(by_path(path::components(a), path::components(b)) && by_path(
            path::components(b),
            path::components(c),
        ));
    }
    assert forall|a: Seq<u8>, b: Seq<u8>, c: Seq<u8>| #[trigger] ranks(a, c) implies ranks(a, b)
        || #[trigger] ranks(b, c) by {
        assert(by_path(path::components(a), path::components(c)));
        assert(by_path(path::components(a), path::components(b)) || by_path(
            path::components(b),
            path::components(c),
        ));
    }
}

/// What a walk reports is in the order of the paths.
pub proof fn found_targets_are_in_order(found: Seq<Seq<u8>>)
    ensures
        order::sorted(
            order::stably_sorted(found, discovery::target_order()),
            discovery::target_order(),
        ),
        order::stably_sorted(found, discovery::target_order()).to_multiset()
            == found.to_multiset(),
{
    target_order_is_weak();
    order::stable_sort_sorts(found, discovery::target_order());
    order::stable_sort_is_a_permutation(found, discovery::target_order());
}

/// Of two Targets that a walk reports, the one whose path comes first is reported first.
pub proof fn found_targets_come_by_path(found: Seq<Seq<u8>>, i: int, j: int)
    requires
        0 <= i < j < found.len(),
    ensures
        ({
            let reported = order::stably_sorted(found, discovery::target_order());
            !path::path_order()(path::components(reported[j]), path::components(reported[i]))
        }),
{
    found_targets_are_in_order(found);
    let reported = order::stably_sorted(found, discovery::target_order());
    order::stable_sort_is_a_permutation(found, discovery::target_order());
    assert(!discovery::target_order()(reported[j], reported[i]));
}

/// A walk never lists the directory of the Managed Links, unless that is where it begins, and
/// never looks at what is on the list of ignored paths.
pub open spec fn keeps_out(walk: WalkView) -> bool {
    match walk.phase {
        WalkPhaseView::Listing(directory) => directory == walk.root || path::components(directory)
            != path::components(walk.bin_dir),
        WalkPhaseView::Inspecting(child) => !discovery_ignore::listed(walk.ignored_paths, child),
        WalkPhaseView::Matching(child) => !discovery_ignore::listed(walk.ignored_paths, child),
        _ => true,
    }
}

proof fn settling_keeps_out(walk: WalkView)
    ensures
        keeps_out(walk.settle()),
        same_scope(walk, walk.settle()),
    decreases walk.pending.len(),
{
    if walk.pending.len() > 0 {
        let next = walk.pending.last();
        let rest = WalkView { pending: walk.pending.drop_last(), ..walk };
        match next.entry {
            Err(source) => {
                settling_keeps_out(
                    rest.warn(WarningKind::UnreadablePath, next.directory, source.message),
                );
            },
            Ok(_) => {
                settling_keeps_out(rest);
            },
        }
    }
}

/// Whatever the host reports, a walk stays out of where it must not go.
pub proof fn every_walk_keeps_out(walk: WalkView, event: WalkEventView)
    requires
        keeps_out(walk),
    ensures
        keeps_out(walk.advance(event)),
        same_scope(walk, walk.advance(event)),
{
    settling_keeps_out(walk);
    match (walk.phase, event) {
        (WalkPhaseView::Listing(directory), WalkEventView::Listed(outcome)) => {
            match outcome {
                Err(source) => {
                    settling_keeps_out(
                        walk.warn(WarningKind::UnreadableDirectory, directory, source.message),
                    );
                },
                Ok(entries) => {
                    settling_keeps_out(
                        WalkView {
                            pending: walk.pending + Seq::new(
                                entries.len(),
                                |i: int|
                                    PendingView {
                                        directory,
                                        entry: entries[entries.len() - 1 - i],
                                    },
                            ),
                            ..walk
                        },
                    );
                },
            }
        },
        (WalkPhaseView::Inspecting(child), WalkEventView::Inspected(seen)) => {
            settling_keeps_out(walk.find(child));
            if let Err(source) = seen.entry {
                settling_keeps_out(
                    walk.warn(WarningKind::UnreadablePath, child, source.message),
                );
            }
        },
        _ => {},
    }
}

} // verus!
