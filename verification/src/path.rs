//! Unix paths as byte strings, read component by component.

use vstd::prelude::*;
use vstd::utf8;

use crate::order;
use crate::text;
use crate::views;

verus! {

pub const SLASH: u8 = 47;

pub const DOT: u8 = 46;

/// The number of bytes before the first separator.
pub open spec fn segment_len(s: Seq<u8>) -> nat
    decreases s.len(),
{
    if s.len() == 0 || s[0] == SLASH {
        0
    } else {
        1 + segment_len(s.skip(1))
    }
}

/// The names that a path passes through: its segments, but for empty ones and `.`.
pub open spec fn names(s: Seq<u8>) -> Seq<Seq<u8>>
    decreases s.len(),
{
    if s.len() == 0 {
        Seq::empty()
    } else if s[0] == SLASH {
        names(s.skip(1))
    } else {
        proof {
            segment_len_bounds(s);
        }
        let first = s.take(segment_len(s) as int);
        let rest = names(s.skip(segment_len(s) as int));
        if first == seq![DOT] {
            rest
        } else {
            seq![first] + rest
        }
    }
}

pub proof fn segment_len_bounds(s: Seq<u8>)
    ensures
        segment_len(s) <= s.len(),
        s.len() > 0 && s[0] != SLASH ==> segment_len(s) > 0,
    decreases s.len(),
{
    if s.len() > 0 && s[0] != SLASH {
        segment_len_bounds(s.skip(1));
    }
}

proof fn segment_len_at(s: Seq<u8>, n: int)
    requires
        0 <= n <= s.len(),
        forall|i: int| 0 <= i < n ==> s[i] != SLASH,
        n == s.len() || s[n] == SLASH,
    ensures
        segment_len(s) == n,
    decreases s.len(),
{
    if n > 0 {
        assert forall|i: int| 0 <= i < n - 1 implies s.skip(1)[i] != SLASH by {
            assert(s.skip(1)[i] == s[i + 1]);
        }
        segment_len_at(s.skip(1), n - 1);
    }
}

proof fn segment_has_no_separator(s: Seq<u8>)
    ensures
        segment_len(s) <= s.len(),
        forall|i: int| 0 <= i < segment_len(s) ==> s[i] != SLASH,
        segment_len(s) < s.len() ==> s[segment_len(s) as int] == SLASH,
    decreases s.len(),
{
    if s.len() > 0 && s[0] != SLASH {
        let t = s.skip(1);
        segment_has_no_separator(t);
        assert forall|i: int| 0 <= i < segment_len(s) implies s[i] != SLASH by {
            if i > 0 {
                assert(t[i - 1] == s[i]);
            }
        }
    }
}

/// A path begins at the root directory.
pub open spec fn absolute(s: Seq<u8>) -> bool {
    s.len() > 0 && s[0] == SLASH
}

/// A relative path whose first segment is `.`.
pub open spec fn from_here(s: Seq<u8>) -> bool {
    s.len() > 0 && s[0] == DOT && segment_len(s) == 1
}

/// The bytes that hold the leading `/` or `.`.
pub open spec fn lead_len(s: Seq<u8>) -> int {
    if absolute(s) || from_here(s) {
        1
    } else {
        0
    }
}

/// The leading `/` or `.` of a path, as a component.
pub open spec fn lead(s: Seq<u8>) -> Seq<Seq<u8>> {
    if absolute(s) {
        seq![seq![SLASH]]
    } else if from_here(s) {
        seq![seq![DOT]]
    } else {
        Seq::empty()
    }
}

/// The components of a path. Two paths with the same components are the same path.
pub open spec fn components(s: Seq<u8>) -> Seq<Seq<u8>> {
    lead(s) + names(s)
}

/// A byte string that can stand as a name within a path.
pub open spec fn clean_name(n: Seq<u8>) -> bool {
    n.len() > 0 && n != seq![DOT] && forall|i: int| 0 <= i < n.len() ==> n[i] != SLASH
}

/// Names with a separator between neighbours.
pub open spec fn rendered_names(ns: Seq<Seq<u8>>) -> Seq<u8>
    decreases ns.len(),
{
    if ns.len() == 0 {
        Seq::empty()
    } else if ns.len() == 1 {
        ns[0]
    } else {
        ns[0] + seq![SLASH] + rendered_names(ns.skip(1))
    }
}

/// The shortest path with these names, from the root directory or not.
pub open spec fn rendered(rooted: bool, ns: Seq<Seq<u8>>) -> Seq<u8> {
    if rooted {
        seq![SLASH] + rendered_names(ns)
    } else {
        rendered_names(ns)
    }
}

/// The name of the parent directory.
pub open spec fn parent_name() -> Seq<u8> {
    seq![DOT, DOT]
}

/// Names with every `..` resolved against the name before it.
pub open spec fn resolved(ns: Seq<Seq<u8>>) -> Seq<Seq<u8>>
    decreases ns.len(),
{
    if ns.len() == 0 {
        ns
    } else {
        let before = resolved(ns.drop_last());
        if ns.last() == parent_name() {
            if before.len() > 0 {
                before.drop_last()
            } else {
                before
            }
        } else {
            before.push(ns.last())
        }
    }
}

/// A path without `.`, `..`, repeated and trailing separators.
pub open spec fn normalized(s: Seq<u8>) -> Seq<u8> {
    rendered(absolute(s), resolved(names(s)))
}

/// `b` taken relative to `a`; an absolute `b` stands alone.
pub open spec fn joined(a: Seq<u8>, b: Seq<u8>) -> Seq<u8> {
    if absolute(b) {
        b
    } else if a.len() > 0 && a.last() != SLASH {
        a + seq![SLASH] + b
    } else {
        a + b
    }
}

/// The last component, where it is an ordinary name.
pub open spec fn file_name_of(s: Seq<u8>) -> Option<Seq<u8>> {
    if names(s).len() > 0 && names(s).last() != parent_name() {
        Some(names(s).last())
    } else {
        None
    }
}

/// What is left once separators and `.` segments are skipped.
pub open spec fn skip_blank(s: Seq<u8>) -> Seq<u8>
    decreases s.len(),
{
    if s.len() == 0 {
        s
    } else if s[0] == SLASH || from_here(s) {
        skip_blank(s.skip(1))
    } else {
        s
    }
}

/// What follows the first `k` names, from the next name on.
pub open spec fn after_names(s: Seq<u8>, k: nat) -> Seq<u8>
    decreases k,
{
    let b = skip_blank(s);
    if k == 0 {
        b
    } else {
        after_names(b.skip(segment_len(b) as int), (k - 1) as nat)
    }
}

/// What is left once trailing separators and `.` segments are dropped.
pub open spec fn without_trailing_blank(s: Seq<u8>) -> Seq<u8>
    decreases s.len(),
{
    if s.len() == 0 {
        s
    } else if s.last() == SLASH || (s.last() == DOT && (s.len() == 1 || s[s.len() - 2] == SLASH)) {
        without_trailing_blank(s.drop_last())
    } else {
        s
    }
}

/// `p` is an ancestor of `s`, or `s` itself.
pub open spec fn starts_with(s: Seq<u8>, p: Seq<u8>) -> bool {
    components(p).is_prefix_of(components(s))
}

/// What `s` adds to its ancestor `p`.
pub open spec fn stripped(s: Seq<u8>, p: Seq<u8>) -> Seq<u8> {
    let body = s.skip(lead_len(s));
    if components(p).len() == 0 {
        s.take(lead_len(s)) + without_trailing_blank(body)
    } else {
        without_trailing_blank(after_names(body, names(p).len()))
    }
}

/// Where a component stands in the order of components.
pub open spec fn component_rank(c: Seq<u8>) -> int {
    if c == seq![SLASH] {
        0
    } else if c == seq![DOT] {
        1
    } else if c == parent_name() {
        2
    } else {
        3
    }
}

pub open spec fn byte_order() -> spec_fn(u8, u8) -> bool {
    |a: u8, b: u8| a < b
}

/// Components are ordered by rank, ordinary names among themselves by their bytes.
pub open spec fn component_order() -> spec_fn(Seq<u8>, Seq<u8>) -> bool {
    |a: Seq<u8>, b: Seq<u8>|
        component_rank(a) < component_rank(b) || (component_rank(a) == 3 && component_rank(b) == 3
            && order::lex_less(byte_order(), a, b))
}

/// Paths are ordered component by component.
pub open spec fn path_order() -> spec_fn(Seq<Seq<u8>>, Seq<Seq<u8>>) -> bool {
    order::lexicographic(component_order())
}

/// The order of paths is strict and total over their components.
pub proof fn path_order_is_strict()
    ensures
        order::strict_order(path_order()),
{
    order::lexicographic_order_is_strict(byte_order());
    let names_less = order::lexicographic(byte_order());
    let less = component_order();
    assert(forall|a: Seq<u8>, b: Seq<u8>| #[trigger]
        names_less(a, b) == order::lex_less(byte_order(), a, b));
    assert forall|a: Seq<u8>, b: Seq<u8>, c: Seq<u8>| #[trigger] less(a, b) && #[trigger] less(b, c)
        implies less(a, c) by {
        if component_rank(a) == 3 && component_rank(c) == 3 {
            assert(names_less(a, b) && names_less(b, c));
            assert(names_less(a, c));
        }
    }
    assert forall|a: Seq<u8>| !#[trigger] less(a, a) by {
        assert(!names_less(a, a));
    }
    assert forall|a: Seq<u8>, b: Seq<u8>| a != b implies #[trigger] less(a, b) || less(b, a) by {
        if component_rank(a) == component_rank(b) {
            assert(component_rank(a) == 3);
            assert(names_less(a, b) || names_less(b, a));
        }
    }
    order::lexicographic_order_is_strict(component_order());
}

proof fn segment_of_appended(a: Seq<u8>, t: Seq<u8>)
    requires
        t.len() == 0 || t[0] == SLASH || segment_len(a) < a.len(),
    ensures
        segment_len(a + t) == segment_len(a),
{
    segment_has_no_separator(a);
    let n = segment_len(a) as int;
    assert forall|i: int| 0 <= i < n implies (a + t)[i] != SLASH by {
        assert((a + t)[i] == a[i]);
    }
    segment_len_at(a + t, n);
}

/// Appending at a separator appends the names.
pub proof fn names_of_appended(a: Seq<u8>, t: Seq<u8>)
    requires
        t.len() == 0 || t[0] == SLASH || a.len() == 0 || a.last() == SLASH,
    ensures
        names(a + t) == names(a) + names(t),
    decreases a.len(),
{
    if a.len() == 0 {
        assert(a + t =~= t);
        assert(names(a) + names(t) =~= names(t));
    } else if a[0] == SLASH {
        assert((a + t).skip(1) =~= a.skip(1) + t);
        names_of_appended(a.skip(1), t);
    } else {
        segment_has_no_separator(a);
        segment_len_bounds(a);
        segment_of_appended(a, t);
        let n = segment_len(a) as int;
        assert((a + t).take(n) =~= a.take(n));
        assert((a + t).skip(n) =~= a.skip(n) + t);
        names_of_appended(a.skip(n), t);
        assert(names(a + t) =~= names(a) + names(t));
    }
}

/// Joining a relative path appends its names.
pub proof fn names_of_joined(a: Seq<u8>, b: Seq<u8>)
    requires
        !absolute(b),
    ensures
        names(joined(a, b)) == names(a) + names(b),
{
    if a.len() > 0 && a.last() != SLASH {
        let t = seq![SLASH] + b;
        assert(a + seq![SLASH] + b =~= a + t);
        names_of_appended(a, t);
        assert(t.skip(1) =~= b);
    } else {
        names_of_appended(a, b);
    }
}

/// What a relative path is joined to decides where the joined path starts.
pub proof fn lead_of_joined(a: Seq<u8>, b: Seq<u8>)
    requires
        !absolute(b),
        a.len() > 0,
    ensures
        lead(joined(a, b)) == lead(a),
        absolute(joined(a, b)) == absolute(a),
        joined(a, b).len() > 0,
{
    let j = joined(a, b);
    assert(j[0] == a[0]);
    segment_has_no_separator(a);
    if a.last() != SLASH {
        let t = seq![SLASH] + b;
        assert(j =~= a + t);
        segment_of_appended(a, t);
    } else {
        assert(segment_len(a) < a.len()) by {
            if segment_len(a) == a.len() {
                assert(a[a.len() - 1] != SLASH);
            }
        }
        segment_of_appended(a, b);
    }
}

/// Every name of a path is clean.
pub proof fn names_are_clean(s: Seq<u8>)
    ensures
        forall|i: int| 0 <= i < names(s).len() ==> clean_name(#[trigger] names(s)[i]),
    decreases s.len(),
{
    if s.len() == 0 {
        assert(names(s).len() == 0);
    } else if s[0] == SLASH {
        names_are_clean(s.skip(1));
        assert(names(s) == names(s.skip(1)));
    } else {
        segment_has_no_separator(s);
        segment_len_bounds(s);
        let n = segment_len(s) as int;
        names_are_clean(s.skip(n));
        let first = s.take(n);
        let rest = names(s.skip(n));
        assert forall|i: int| 0 <= i < names(s).len() implies clean_name(
            #[trigger] names(s)[i],
        ) by {
            if first == seq![DOT] {
                assert(names(s)[i] == rest[i]);
            } else {
                if i == 0 {
                    assert(names(s)[0] == first);
                    assert forall|j: int| 0 <= j < first.len() implies first[j] != SLASH by {
                        assert(first[j] == s[j]);
                    }
                } else {
                    assert(names(s)[i] == rest[i - 1]);
                }
            }
        }
    }
}

/// A clean name is the one name of the path that it makes.
pub proof fn names_of_clean_name(n: Seq<u8>)
    requires
        clean_name(n),
    ensures
        names(n) == seq![n],
{
    segment_len_at(n, n.len() as int);
    assert(n.take(n.len() as int) =~= n);
    assert(names(n.skip(n.len() as int)).len() == 0);
    assert(names(n) =~= seq![n]);
}

/// Rendering loses no name.
pub proof fn names_of_rendered(rooted: bool, ns: Seq<Seq<u8>>)
    requires
        forall|i: int| 0 <= i < ns.len() ==> clean_name(#[trigger] ns[i]),
    ensures
        names(rendered(rooted, ns)) == ns,
        absolute(rendered(rooted, ns)) == rooted,
        names(rendered_names(ns)) == ns,
    decreases ns.len(),
{
    if ns.len() > 0 {
        let rest = ns.skip(1);
        assert(clean_name(ns[0]));
        assert forall|i: int| 0 <= i < rest.len() implies clean_name(#[trigger] rest[i]) by {
            assert(rest[i] == ns[i + 1]);
        }
        names_of_rendered(rooted, rest);
        names_of_clean_name(ns[0]);
        if ns.len() == 1 {
            assert(ns =~= seq![ns[0]]);
        } else {
            let t = seq![SLASH] + rendered_names(rest);
            assert(ns[0] + seq![SLASH] + rendered_names(rest) =~= ns[0] + t);
            names_of_appended(ns[0], t);
            assert(t.skip(1) =~= rendered_names(rest));
            assert(seq![ns[0]] + rest =~= ns);
        }
    } else {
        assert(ns =~= Seq::<Seq<u8>>::empty());
    }
    let r = seq![SLASH] + rendered_names(ns);
    assert(r.skip(1) =~= rendered_names(ns));
    assert(names(r) == names(r.skip(1)));
    if ns.len() > 0 {
        assert(rendered_names(ns)[0] == ns[0][0]);
    }
}

/// Resolving leaves only names, and none that it was not given.
pub proof fn resolved_names(ns: Seq<Seq<u8>>)
    requires
        forall|i: int| 0 <= i < ns.len() ==> clean_name(#[trigger] ns[i]),
    ensures
        forall|i: int|
            0 <= i < resolved(ns).len() ==> clean_name(#[trigger] resolved(ns)[i]) && resolved(
                ns,
            )[i] != parent_name(),
    decreases ns.len(),
{
    if ns.len() > 0 {
        let before = resolved(ns.drop_last());
        assert forall|i: int| 0 <= i < ns.drop_last().len() implies clean_name(
            #[trigger] ns.drop_last()[i],
        ) by {
            assert(ns.drop_last()[i] == ns[i]);
        }
        resolved_names(ns.drop_last());
        assert(clean_name(ns[ns.len() - 1]));
        assert forall|i: int| 0 <= i < resolved(ns).len() implies clean_name(
            #[trigger] resolved(ns)[i],
        ) && resolved(ns)[i] != parent_name() by {
            if i < before.len() {
                assert(resolved(ns)[i] == before[i]);
            }
        }
    }
}

/// Names without `..` resolve to themselves.
pub proof fn resolved_without_parents(ns: Seq<Seq<u8>>)
    requires
        forall|i: int| 0 <= i < ns.len() ==> #[trigger] ns[i] != parent_name(),
    ensures
        resolved(ns) == ns,
    decreases ns.len(),
{
    if ns.len() > 0 {
        resolved_without_parents(ns.drop_last());
        assert(ns.drop_last().push(ns.last()) =~= ns);
    }
}

/// What a normalized path holds.
pub proof fn names_of_normalized(s: Seq<u8>)
    ensures
        names(normalized(s)) == resolved(names(s)),
        absolute(normalized(s)) == absolute(s),
        forall|i: int|
            0 <= i < names(normalized(s)).len() ==> #[trigger] names(normalized(s))[i]
                != parent_name(),
{
    names_are_clean(s);
    resolved_names(names(s));
    names_of_rendered(absolute(s), resolved(names(s)));
}

/// Normalizing a normalized path changes nothing.
pub proof fn normalizing_is_idempotent(s: Seq<u8>)
    ensures
        normalized(normalized(s)) == normalized(s),
{
    names_of_normalized(s);
    resolved_without_parents(names(normalized(s)));
}

/// Normalizing depends only on the components.
pub proof fn normalized_of_same_components(a: Seq<u8>, b: Seq<u8>)
    requires
        components(a) == components(b),
    ensures
        normalized(a) == normalized(b),
{
    names_are_clean(a);
    names_are_clean(b);
    same_components(a, b);
}

/// Equal components have equal parts.
pub proof fn same_components(a: Seq<u8>, b: Seq<u8>)
    requires
        components(a) == components(b),
    ensures
        absolute(a) == absolute(b),
        lead(a) == lead(b),
        names(a) == names(b),
{
    lead_is_no_name(a);
    lead_is_no_name(b);
    let c = components(a);
    if lead(a).len() == 1 {
        assert(c[0] == lead(a)[0]);
        assert(lead(b).len() == 1) by {
            if lead(b).len() == 0 {
                assert(c[0] == names(b)[0]);
            }
        }
        assert(c[0] == lead(b)[0]);
        assert(seq![SLASH][0] != seq![DOT][0]);
        assert(lead(a) =~= lead(b));
    } else if lead(b).len() == 1 {
        assert(c[0] == lead(b)[0]);
        assert(c[0] == names(a)[0]);
    }
    assert(names(a) =~= c.skip(lead(a).len() as int));
    assert(names(b) =~= c.skip(lead(b).len() as int));
}

proof fn lead_is_no_name(s: Seq<u8>)
    ensures
        lead(s).len() <= 1,
        lead(s).len() == 1 ==> !clean_name(lead(s)[0]),
        forall|i: int| 0 <= i < names(s).len() ==> clean_name(#[trigger] names(s)[i]),
{
    names_are_clean(s);
    if absolute(s) {
        assert(lead(s)[0][0] == SLASH);
    }
}

proof fn names_of_skip_blank(s: Seq<u8>)
    ensures
        names(skip_blank(s)) == names(s),
        skip_blank(s).len() > 0 ==> !absolute(skip_blank(s)) && !from_here(skip_blank(s)),
    decreases s.len(),
{
    if s.len() > 0 && (s[0] == SLASH || from_here(s)) {
        names_of_skip_blank(s.skip(1));
        if s[0] != SLASH {
            assert(s.take(1) =~= seq![DOT]);
        }
    }
}

proof fn names_of_after_names(s: Seq<u8>, k: nat)
    requires
        k <= names(s).len(),
    ensures
        names(after_names(s, k)) == names(s).skip(k as int),
        after_names(s, k).len() > 0 ==> !absolute(after_names(s, k)),
    decreases k,
{
    names_of_skip_blank(s);
    let b = skip_blank(s);
    if k == 0 {
        assert(names(s).skip(0) =~= names(s));
    } else {
        assert(b.len() > 0);
        segment_len_bounds(b);
        let n = segment_len(b) as int;
        assert(b.take(n) != seq![DOT]) by {
            if b.take(n) == seq![DOT] {
                assert(b.take(n).len() == 1);
                assert(b.take(n)[0] == DOT);
                assert(from_here(b));
            }
        }
        let rest = names(b.skip(n));
        assert(names(b) == seq![b.take(n)] + rest);
        names_of_after_names(b.skip(n), (k - 1) as nat);
        assert(rest.skip(k - 1) =~= names(s).skip(k as int));
    }
}

proof fn names_without_trailing_blank(s: Seq<u8>)
    ensures
        names(without_trailing_blank(s)) == names(s),
        without_trailing_blank(s).is_prefix_of(s),
    decreases s.len(),
{
    if s.len() > 0 {
        let d = s.drop_last();
        assert(s =~= d.push(s.last()));
        if s.last() == SLASH {
            names_without_trailing_blank(d);
            assert(s =~= d + seq![SLASH]);
            names_of_appended(d, seq![SLASH]);
            assert(names(seq![SLASH].skip(1)).len() == 0);
            assert(names(seq![SLASH]).len() == 0);
            assert(names(d) + names(seq![SLASH]) =~= names(d));
        } else if s.last() == DOT && (s.len() == 1 || s[s.len() - 2] == SLASH) {
            names_without_trailing_blank(d);
            assert(s =~= d + seq![DOT]);
            names_of_appended(d, seq![DOT]);
            segment_len_at(seq![DOT], 1);
            assert(seq![DOT].take(1) =~= seq![DOT]);
            assert(names(seq![DOT].skip(1)).len() == 0);
            assert(names(seq![DOT]).len() == 0);
            assert(names(d) + names(seq![DOT]) =~= names(d));
        }
    }
}

proof fn names_of_body(s: Seq<u8>)
    ensures
        names(s.skip(lead_len(s))) == names(s),
{
    if absolute(s) {
    } else if from_here(s) {
        assert(s.take(1) =~= seq![DOT]);
    } else {
        assert(s.skip(0) =~= s);
    }
}

/// Stripping an ancestor leaves the names that follow it, as a relative path.
pub proof fn names_of_stripped(s: Seq<u8>, p: Seq<u8>)
    requires
        starts_with(s, p),
        components(p).len() > 0,
    ensures
        names(stripped(s, p)) == names(s).skip(names(p).len() as int),
        !absolute(stripped(s, p)),
        lead(s) == lead(p) || lead(p).len() == 0,
        p.len() > 0 && names(p).len() <= names(s).len(),
        names(p).is_prefix_of(names(s)),
        lead(s) == lead(p),
{
    lead_is_no_name(s);
    lead_is_no_name(p);
    let cs = components(s);
    let cp = components(p);
    assert(cp =~= cs.take(cp.len() as int));
    assert(cp[0] == cs[0]);
    if lead(p).len() == 1 {
        assert(cp[0] == lead(p)[0]);
        if lead(s).len() == 0 {
            assert(cs[0] == names(s)[0]);
        }
        assert(cs[0] == lead(s)[0]);
        assert(seq![SLASH][0] != seq![DOT][0]);
        assert(lead(s) =~= lead(p));
    } else {
        assert(cp[0] == names(p)[0]);
        if lead(s).len() == 1 {
            assert(cs[0] == lead(s)[0]);
        }
        assert(lead(s) =~= lead(p));
    }
    let l = lead(s).len() as int;
    assert forall|i: int| 0 <= i < names(p).len() implies names(p)[i] == names(s)[i] by {
        assert(cp[i + l] == names(p)[i]);
        assert(cs[i + l] == names(s)[i]);
    }
    assert(names(p) =~= names(s).take(names(p).len() as int));
    names_of_body(s);
    let body = s.skip(lead_len(s));
    names_of_after_names(body, names(p).len());
    names_without_trailing_blank(after_names(body, names(p).len()));
    let a = after_names(body, names(p).len());
    let w = without_trailing_blank(a);
    if w.len() > 0 {
        assert(w[0] == a[0]);
    }
}

proof fn after_names_is_a_suffix(s: Seq<u8>, k: nat) -> (n: int)
    ensures
        0 <= n <= s.len(),
        after_names(s, k) == s.skip(n),
    decreases k,
{
    let b = skip_blank_is_a_suffix(s);
    if k == 0 {
        b
    } else {
        let t = skip_blank(s);
        segment_len_bounds(t);
        let m = after_names_is_a_suffix(t.skip(segment_len(t) as int), (k - 1) as nat);
        let n = b + segment_len(t) + m;
        assert(s.skip(n) =~= t.skip(segment_len(t) as int).skip(m));
        n
    }
}

proof fn skip_blank_is_a_suffix(s: Seq<u8>) -> (n: int)
    ensures
        0 <= n <= s.len(),
        skip_blank(s) == s.skip(n),
    decreases s.len(),
{
    if s.len() > 0 && (s[0] == SLASH || from_here(s)) {
        let m = skip_blank_is_a_suffix(s.skip(1));
        assert(s.skip(1).skip(m) =~= s.skip(m + 1));
        m + 1
    } else {
        assert(s.skip(0) =~= s);
        0
    }
}

/// What is stripped off a path holds no byte that the path does not hold.
pub proof fn stripped_is_part(s: Seq<u8>, p: Seq<u8>)
    requires
        components(p).len() > 0,
    ensures
        forall|b: u8| stripped(s, p).contains(b) ==> s.contains(b),
{
    let body = s.skip(lead_len(s));
    let n = after_names_is_a_suffix(body, names(p).len());
    let a = after_names(body, names(p).len());
    names_without_trailing_blank(a);
    let w = without_trailing_blank(a);
    assert forall|b: u8| stripped(s, p).contains(b) implies s.contains(b) by {
        let i = choose|i: int| 0 <= i < w.len() && w[i] == b;
        assert(w[i] == a[i]);
        assert(a[i] == body[n + i]);
        assert(body[n + i] == s[lead_len(s) + n + i]);
    }
}

/// Text splits before an ASCII byte.
proof fn text_before_ascii(s: Seq<u8>, n: int)
    requires
        utf8::valid_utf8(s),
        0 <= n < s.len(),
        s[n] < 0x80,
    ensures
        utf8::valid_utf8(s.take(n)),
        utf8::valid_utf8(s.skip(n)),
        utf8::valid_utf8(s.skip(n + 1)),
{
    utf8::is_char_boundary_iff_not_is_continuation_byte(s, n);
    utf8::valid_utf8_split(s, n);
    assert(s.subrange(0, n) =~= s.take(n));
    let rest = s.skip(n);
    assert(s.subrange(n, s.len() as int) =~= rest);
    assert(rest[0] < 0x80);
    assert(utf8::pop_first_scalar(rest) =~= s.skip(n + 1));
}

proof fn skipping_keeps_text(s: Seq<u8>)
    requires
        utf8::valid_utf8(s),
    ensures
        utf8::valid_utf8(skip_blank(s)),
    decreases s.len(),
{
    if s.len() > 0 && (s[0] == SLASH || from_here(s)) {
        text_before_ascii(s, 0);
        skipping_keeps_text(s.skip(1));
    }
}

proof fn passing_names_keeps_text(s: Seq<u8>, k: nat)
    requires
        utf8::valid_utf8(s),
    ensures
        utf8::valid_utf8(after_names(s, k)),
    decreases k,
{
    skipping_keeps_text(s);
    if k > 0 {
        let b = skip_blank(s);
        segment_has_no_separator(b);
        let n = segment_len(b) as int;
        if n < b.len() {
            text_before_ascii(b, n);
        } else {
            assert(b.skip(n).len() == 0);
        }
        passing_names_keeps_text(b.skip(n), (k - 1) as nat);
    }
}

proof fn trimming_keeps_text(s: Seq<u8>)
    requires
        utf8::valid_utf8(s),
    ensures
        utf8::valid_utf8(without_trailing_blank(s)),
    decreases s.len(),
{
    if s.len() > 0 && (s.last() == SLASH || s.last() == DOT) {
        text_before_ascii(s, s.len() - 1);
        assert(s.take(s.len() - 1) =~= s.drop_last());
        trimming_keeps_text(s.drop_last());
    }
}

/// What is stripped off a path that is text is text.
pub proof fn stripped_text_is_text(s: Seq<u8>, p: Seq<u8>)
    requires
        utf8::valid_utf8(s),
        components(p).len() > 0,
    ensures
        utf8::valid_utf8(stripped(s, p)),
{
    let body = s.skip(lead_len(s));
    if lead_len(s) == 1 {
        text_before_ascii(s, 0);
    } else {
        assert(body =~= s);
    }
    passing_names_keeps_text(body, names(p).len());
    trimming_keeps_text(after_names(body, names(p).len()));
}

/// Every name of a path that is text is text.
pub proof fn names_of_text_are_text(s: Seq<u8>)
    requires
        utf8::valid_utf8(s),
    ensures
        forall|i: int| 0 <= i < names(s).len() ==> utf8::valid_utf8(#[trigger] names(s)[i]),
    decreases s.len(),
{
    if s.len() > 0 {
        if s[0] == SLASH {
            text_before_ascii(s, 0);
            names_of_text_are_text(s.skip(1));
            assert(names(s) == names(s.skip(1)));
        } else {
            segment_has_no_separator(s);
            segment_len_bounds(s);
            let n = segment_len(s) as int;
            if n < s.len() {
                text_before_ascii(s, n);
            } else {
                assert(s.take(n) =~= s);
                assert(s.skip(n).len() == 0);
            }
            names_of_text_are_text(s.skip(n));
            let rest = names(s.skip(n));
            assert forall|i: int| 0 <= i < names(s).len() implies utf8::valid_utf8(
                #[trigger] names(s)[i],
            ) by {
                if s.take(n) != seq![DOT] {
                    if i > 0 {
                        assert(names(s)[i] == rest[i - 1]);
                    }
                } else {
                    assert(names(s)[i] == rest[i]);
                }
            }
        }
    } else {
        assert(names(s).len() == 0);
    }
}

proof fn resolved_text_is_text(ns: Seq<Seq<u8>>)
    requires
        forall|i: int| 0 <= i < ns.len() ==> utf8::valid_utf8(#[trigger] ns[i]),
    ensures
        forall|i: int|
            0 <= i < resolved(ns).len() ==> utf8::valid_utf8(#[trigger] resolved(ns)[i]),
    decreases ns.len(),
{
    if ns.len() > 0 {
        let d = ns.drop_last();
        assert forall|i: int| 0 <= i < d.len() implies utf8::valid_utf8(#[trigger] d[i]) by {
            assert(d[i] == ns[i]);
        }
        resolved_text_is_text(d);
        assert(utf8::valid_utf8(ns[ns.len() - 1]));
        assert forall|i: int| 0 <= i < resolved(ns).len() implies utf8::valid_utf8(
            #[trigger] resolved(ns)[i],
        ) by {
            if i < resolved(d).len() {
                assert(resolved(ns)[i] == resolved(d)[i]);
            }
        }
    }
}

/// A separator is text.
proof fn a_separator_is_text()
    ensures
        utf8::valid_utf8(seq![SLASH]),
{
    let c = seq!['/'];
    text::encoding_of_ascii('/', Seq::<char>::empty());
    assert(c + Seq::<char>::empty() =~= c);
    assert(utf8::encode_utf8(Seq::<char>::empty()).len() == 0);
    assert(utf8::encode_utf8(c) =~= seq![SLASH]);
    utf8::encode_utf8_valid_utf8(c);
}

proof fn rendered_text_is_text(ns: Seq<Seq<u8>>)
    requires
        forall|i: int| 0 <= i < ns.len() ==> utf8::valid_utf8(#[trigger] ns[i]),
    ensures
        utf8::valid_utf8(rendered_names(ns)),
    decreases ns.len(),
{
    if ns.len() > 0 {
        assert(utf8::valid_utf8(ns[0]));
        if ns.len() > 1 {
            let rest = ns.skip(1);
            assert forall|i: int| 0 <= i < rest.len() implies utf8::valid_utf8(
                #[trigger] rest[i],
            ) by {
                assert(rest[i] == ns[i + 1]);
            }
            rendered_text_is_text(rest);
            a_separator_is_text();
            utf8::valid_utf8_concat(ns[0], seq![SLASH]);
            utf8::valid_utf8_concat(ns[0] + seq![SLASH], rendered_names(rest));
        }
    }
}

/// Normalizing a path that is text gives text.
pub proof fn normalized_text_is_text(s: Seq<u8>)
    requires
        utf8::valid_utf8(s),
    ensures
        utf8::valid_utf8(normalized(s)),
{
    names_of_text_are_text(s);
    resolved_text_is_text(names(s));
    rendered_text_is_text(resolved(names(s)));
    a_separator_is_text();
    utf8::valid_utf8_concat(seq![SLASH], rendered_names(resolved(names(s))));
}

proof fn nothing_without_names(s: Seq<u8>)
    requires
        names(s).len() == 0,
    ensures
        skip_blank(s).len() == 0,
    decreases s.len(),
{
    if s.len() > 0 {
        segment_has_no_separator(s);
        segment_len_bounds(s);
        if s[0] == SLASH {
            nothing_without_names(s.skip(1));
        } else {
            let first = s.take(segment_len(s) as int);
            assert(first == seq![DOT]);
            assert(first.len() == segment_len(s));
            assert(first[0] == s[0]);
            nothing_without_names(s.skip(1));
        }
    }
}

proof fn nothing_after_all_names(s: Seq<u8>, k: nat)
    requires
        names(s).len() == k,
    ensures
        after_names(s, k).len() == 0,
    decreases k,
{
    if k == 0 {
        nothing_without_names(s);
    } else {
        let b = skip_blank(s);
        names_of_after_names(s, 1);
        names_of_after_names(s, 0);
        assert(names(s).skip(0) =~= names(s));
        let rest = b.skip(segment_len(b) as int);
        names_of_after_names(rest, 0);
        assert(names(rest).skip(0) =~= names(rest));
        nothing_after_all_names(rest, (k - 1) as nat);
    }
}

/// Clean names begin and end with no separator.
proof fn rendered_names_are_bare(ns: Seq<Seq<u8>>)
    requires
        ns.len() > 0,
        forall|i: int| 0 <= i < ns.len() ==> clean_name(#[trigger] ns[i]),
    ensures
        rendered_names(ns).len() > 0,
        skip_blank(rendered_names(ns)) == rendered_names(ns),
        without_trailing_blank(rendered_names(ns)) == rendered_names(ns),
        segment_len(rendered_names(ns)) == ns[0].len(),
        rendered_names(ns).skip(ns[0].len() as int) == if ns.len() == 1 {
            Seq::empty()
        } else {
            seq![SLASH] + rendered_names(ns.skip(1))
        },
    decreases ns.len(),
{
    let s = rendered_names(ns);
    let first = ns[0];
    assert(clean_name(first));
    let n = first.len() as int;
    assert forall|i: int| 0 <= i < n implies s[i] != SLASH by {
        assert(s[i] == first[i]);
    }
    segment_len_at(s, n);
    if from_here(s) {
        assert(first =~= seq![DOT]);
    }
    if ns.len() == 1 {
        assert(s.skip(n) =~= Seq::empty());
        if s.last() == DOT && s.len() == 1 {
            assert(first =~= seq![DOT]);
        }
    } else {
        let rest = ns.skip(1);
        assert forall|i: int| 0 <= i < rest.len() implies clean_name(#[trigger] rest[i]) by {
            assert(rest[i] == ns[i + 1]);
        }
        rendered_names_are_bare(rest);
        let t = rendered_names(rest);
        assert(s.skip(n) =~= seq![SLASH] + t);
        assert(s.last() == t.last());
        if t.len() > 1 {
            assert(s[s.len() - 2] == t[t.len() - 2]);
        }
        assert(t.last() != SLASH && !(t.last() == DOT && (t.len() == 1 || t[t.len() - 2]
            == SLASH))) by {
            if t.last() == SLASH || (t.last() == DOT && (t.len() == 1 || t[t.len() - 2] == SLASH)) {
                names_without_trailing_blank(t.drop_last());
                assert(without_trailing_blank(t).len() <= t.drop_last().len());
            }
        }
    }
}

proof fn after_names_of_rendered(ns: Seq<Seq<u8>>, k: nat)
    requires
        k <= ns.len(),
        forall|i: int| 0 <= i < ns.len() ==> clean_name(#[trigger] ns[i]),
    ensures
        after_names(rendered_names(ns), k) == rendered_names(ns.skip(k as int)),
    decreases k,
{
    if ns.len() > 0 {
        rendered_names_are_bare(ns);
    }
    if k == 0 {
        assert(ns.skip(0) =~= ns);
    } else {
        let rest = ns.skip(1);
        assert forall|i: int| 0 <= i < rest.len() implies clean_name(#[trigger] rest[i]) by {
            assert(rest[i] == ns[i + 1]);
        }
        after_names_of_rendered(rest, (k - 1) as nat);
        assert(ns.skip(k as int) =~= rest.skip(k - 1));
        let t = rendered_names(rest);
        let left = rendered_names(ns).skip(ns[0].len() as int);
        if ns.len() == 1 {
            assert(left =~= t);
        } else {
            assert(left.skip(1) =~= t);
            assert(skip_blank(left) == skip_blank(t));
            assert(after_names(left, (k - 1) as nat) == after_names(t, (k - 1) as nat));
        }
    }
}

/// Names are spelled without a separator at the end.
pub proof fn rendered_names_end_with_a_name(ns: Seq<Seq<u8>>)
    requires
        ns.len() > 0,
        forall|i: int| 0 <= i < ns.len() ==> clean_name(#[trigger] ns[i]),
    ensures
        rendered_names(ns).len() > 0,
        rendered_names(ns).last() != SLASH,
    decreases ns.len(),
{
    assert(clean_name(ns[0]));
    if ns.len() > 1 {
        let rest = ns.skip(1);
        assert forall|i: int| 0 <= i < rest.len() implies clean_name(#[trigger] rest[i]) by {
            assert(rest[i] == ns[i + 1]);
        }
        rendered_names_end_with_a_name(rest);
    }
}

/// Names one after the other are spelled one after the other, with a separator between them.
pub proof fn rendered_names_of_appended(a: Seq<Seq<u8>>, b: Seq<Seq<u8>>)
    requires
        a.len() > 0,
        b.len() > 0,
    ensures
        rendered_names(a + b) == rendered_names(a) + seq![SLASH] + rendered_names(b),
    decreases a.len(),
{
    let rest = a.skip(1);
    assert((a + b).skip(1) =~= rest + b);
    if a.len() == 1 {
        assert(rest + b =~= b);
    } else {
        rendered_names_of_appended(rest, b);
        assert(rendered_names(a + b) =~= rendered_names(a) + seq![SLASH] + rendered_names(b));
    }
}

/// Joining what was stripped off a normalized path gives that path back, byte for byte, where the
/// ancestor is normalized too.
pub proof fn stripping_undone_exactly(s: Seq<u8>, p: Seq<u8>)
    requires
        absolute(s),
        normalized(s) == s,
        absolute(p),
        normalized(p) == p,
        starts_with(s, p),
        stripped(s, p).len() > 0,
    ensures
        joined(p, stripped(s, p)) == s,
{
    let ns = names(s);
    let ps = names(p);
    let k = ps.len() as int;
    names_of_normalized(s);
    names_of_normalized(p);
    names_are_clean(s);
    names_are_clean(p);
    assert(s == rendered(true, ns));
    assert(p == rendered(true, ps));
    assert(components(p).len() > 0);
    names_of_stripped(s, p);
    let rest = ns.skip(k);
    assert forall|i: int| 0 <= i < rest.len() implies clean_name(#[trigger] rest[i]) by {
        assert(rest[i] == ns[k + i]);
    }
    let body = s.skip(lead_len(s));
    assert(body =~= rendered_names(ns));
    after_names_of_rendered(ns, ps.len());
    if rest.len() > 0 {
        rendered_names_are_bare(rest);
    }
    let relative = stripped(s, p);
    assert(relative == without_trailing_blank(rendered_names(rest)));
    assert(rest.len() > 0);
    assert(ps + rest =~= ns) by {
        assert(ps =~= ns.take(k));
    }
    if ps.len() > 0 {
        rendered_names_of_appended(ps, rest);
        rendered_names_are_bare(ps);
        let spelled = rendered_names(ps);
        assert(p.last() == spelled.last());
        assert(spelled.last() != SLASH) by {
            if spelled.last() == SLASH {
                names_without_trailing_blank(spelled.drop_last());
                assert(without_trailing_blank(spelled).len() <= spelled.drop_last().len());
            }
        }
        assert(joined(p, relative) =~= s);
    } else {
        assert(ps =~= Seq::empty());
        assert(p =~= seq![SLASH]);
        assert(joined(p, relative) =~= s);
    }
}

/// A path stripped off itself leaves nothing.
pub proof fn nothing_is_stripped_off_itself(s: Seq<u8>, p: Seq<u8>)
    requires
        components(s) == components(p),
        components(p).len() > 0,
    ensures
        starts_with(s, p),
        stripped(s, p).len() == 0,
{
    assert(components(p) =~= components(s).take(components(s).len() as int));
    names_of_stripped(s, p);
    assert(names(p).len() == names(s).len());
    names_of_body(s);
    nothing_after_all_names(s.skip(lead_len(s)), names(p).len());
}

/// Joining what was stripped gives the path back.
pub proof fn stripping_undone_by_joining(s: Seq<u8>, p: Seq<u8>)
    requires
        starts_with(s, p),
        components(p).len() > 0,
    ensures
        components(joined(p, stripped(s, p))) == components(s),
{
    let r = stripped(s, p);
    names_of_stripped(s, p);
    names_of_joined(p, r);
    lead_of_joined(p, r);
    assert(names(p) + names(s).skip(names(p).len() as int) =~= names(s)) by {
        assert(names(p) =~= names(s).take(names(p).len() as int));
    }
}

/// The bytes from `start` up to `end`.
fn slice(bytes: &Vec<u8>, start: usize, end: usize) -> (r: Vec<u8>)
    requires
        start <= end <= bytes@.len(),
    ensures
        r@ == bytes@.subrange(start as int, end as int),
{
    let mut r: Vec<u8> = Vec::new();
    let mut i: usize = start;
    assert(r@ =~= bytes@.subrange(start as int, start as int));
    while i < end
        invariant
            start <= i <= end <= bytes@.len(),
            r@ == bytes@.subrange(start as int, i as int),
        decreases end - i,
    {
        r.push(bytes[i]);
        i = i + 1;
        assert(r@ =~= bytes@.subrange(start as int, i as int));
    }
    r
}

/// Whether two byte strings are equal.
pub fn same_bytes(a: &Vec<u8>, b: &Vec<u8>) -> (r: bool)
    ensures
        r == (a@ == b@),
{
    if a.len() != b.len() {
        return false;
    }
    let mut i: usize = 0;
    while i < a.len()
        invariant
            i <= a@.len(),
            a@.len() == b@.len(),
            forall|j: int| 0 <= j < i ==> a@[j] == b@[j],
        decreases a.len() - i,
    {
        if a[i] != b[i] {
            return false;
        }
        i = i + 1;
    }
    assert(a@ =~= b@);
    true
}

fn bytes_less(a: &Vec<u8>, b: &Vec<u8>) -> (r: bool)
    ensures
        r == order::lex_less(byte_order(), a@, b@),
{
    let mut i: usize = 0;
    while i < a.len() && i < b.len() && a[i] == b[i]
        invariant
            i <= a@.len(),
            i <= b@.len(),
            forall|j: int| 0 <= j < i ==> a@[j] == b@[j],
        decreases a.len() - i,
    {
        i = i + 1;
    }
    let r = i < b.len() && (i == a.len() || a[i] < b[i]);
    proof {
        if r {
            assert(order::falls_below_at(byte_order(), a@, b@, i as int));
        } else {
            assert forall|k: int| !order::falls_below_at(byte_order(), a@, b@, k) by {
                if order::falls_below_at(byte_order(), a@, b@, k) {
                    if k < i {
                        assert(a@[k] == b@[k]);
                    } else if k > i {
                        assert(a@[i as int] == b@[i as int]);
                    }
                }
            }
        }
    }
    r
}

fn rank_of(c: &Vec<u8>) -> (r: u8)
    ensures
        r == component_rank(c@),
{
    assert(c@.len() == 1 ==> c@ =~= seq![c@[0]]);
    assert(c@.len() == 2 ==> c@ =~= seq![c@[0], c@[1]]);
    assert(seq![SLASH].len() == 1 && seq![DOT].len() == 1 && parent_name().len() == 2);
    assert(seq![SLASH][0] == SLASH && seq![DOT][0] == DOT);
    assert(parent_name()[0] == DOT && parent_name()[1] == DOT);
    if c.len() == 1 && c[0] == SLASH {
        0
    } else if c.len() == 1 && c[0] == DOT {
        1
    } else if c.len() == 2 && c[0] == DOT && c[1] == DOT {
        2
    } else {
        3
    }
}

fn component_less(a: &Vec<u8>, b: &Vec<u8>) -> (r: bool)
    ensures
        r == component_order()(a@, b@),
{
    let x = rank_of(a);
    let y = rank_of(b);
    x < y || (x == 3 && y == 3 && bytes_less(a, b))
}

/// The end of the segment that starts at `i`.
fn segment_end(bytes: &Vec<u8>, i: usize) -> (r: usize)
    requires
        i <= bytes@.len(),
    ensures
        i <= r <= bytes@.len(),
        r - i == segment_len(bytes@.skip(i as int)),
{
    let mut e: usize = i;
    while e < bytes.len() && bytes[e] != SLASH
        invariant
            i <= e <= bytes@.len(),
            forall|j: int| i <= j < e ==> bytes@[j] != SLASH,
        decreases bytes.len() - e,
    {
        e = e + 1;
    }
    proof {
        let t = bytes@.skip(i as int);
        assert forall|j: int| 0 <= j < e - i implies t[j] != SLASH by {
            assert(t[j] == bytes@[j + i]);
        }
        segment_len_at(t, e - i);
    }
    e
}

fn names_of(bytes: &Vec<u8>) -> (r: Vec<Vec<u8>>)
    ensures
        views::views(r@) == names(bytes@),
{
    let mut r: Vec<Vec<u8>> = Vec::new();
    let mut i: usize = 0;
    assert(bytes@.skip(0) =~= bytes@);
    assert(views::views(r@) + names(bytes@) =~= names(bytes@));
    while i < bytes.len()
        invariant
            i <= bytes@.len(),
            views::views(r@) + names(bytes@.skip(i as int)) == names(bytes@),
        decreases bytes.len() - i,
    {
        let ghost t = bytes@.skip(i as int);
        let ghost before = r@;
        if bytes[i] == SLASH {
            assert(t.skip(1) =~= bytes@.skip(i + 1));
            i = i + 1;
        } else {
            let e = segment_end(bytes, i);
            proof {
                segment_len_bounds(t);
                assert(t.take(e - i) =~= bytes@.subrange(i as int, e as int));
                assert(t.skip(e - i) =~= bytes@.skip(e as int));
            }
            if e == i + 1 && bytes[i] == DOT {
                assert(t.take(e - i) =~= seq![DOT]);
            } else {
                let name = slice(bytes, i, e);
                assert(name@ != seq![DOT]) by {
                    if name@ == seq![DOT] {
                        assert(name@.len() == 1 && name@[0] == DOT);
                    }
                }
                r.push(name);
                assert(views::views(r@) =~= views::views(before).push(name@));
                assert(views::views(r@) + names(bytes@.skip(e as int)) =~= views::views(before) + (
                seq![name@] + names(bytes@.skip(e as int))));
            }
            i = e;
        }
    }
    assert(names(bytes@.skip(i as int)).len() == 0);
    assert(views::views(r@) + names(bytes@.skip(i as int)) =~= views::views(r@));
    r
}

pub fn starts_here(bytes: &Vec<u8>) -> (r: bool)
    ensures
        r == from_here(bytes@),
{
    assert(bytes@.skip(0) =~= bytes@);
    bytes.len() > 0 && bytes[0] == DOT && segment_end(bytes, 0) == 1
}

pub fn is_parent(name: &Vec<u8>) -> (r: bool)
    ensures
        r == (name@ == parent_name()),
{
    assert(name@.len() == 2 ==> name@ =~= seq![name@[0], name@[1]]);
    assert(parent_name().len() == 2 && parent_name()[0] == DOT && parent_name()[1] == DOT);
    name.len() == 2 && name[0] == DOT && name[1] == DOT
}

/// The first index from `i` on that holds no blank.
fn skip_blank_from(bytes: &Vec<u8>, i: usize) -> (r: usize)
    requires
        i <= bytes@.len(),
    ensures
        i <= r <= bytes@.len(),
        bytes@.skip(r as int) == skip_blank(bytes@.skip(i as int)),
{
    let mut at: usize = i;
    while at < bytes.len()
        invariant
            i <= at <= bytes@.len(),
            skip_blank(bytes@.skip(at as int)) == skip_blank(bytes@.skip(i as int)),
        decreases bytes.len() - at,
    {
        let ghost t = bytes@.skip(at as int);
        assert(t[0] == bytes@[at as int]);
        let blank = bytes[at] == SLASH || (bytes[at] == DOT && segment_end(bytes, at) == at + 1);
        if !blank {
            return at;
        }
        assert(t.skip(1) =~= bytes@.skip(at + 1));
        at = at + 1;
    }
    assert(bytes@.skip(at as int).len() == 0);
    at
}

fn after_names_from(bytes: &Vec<u8>, i: usize, k: usize) -> (r: usize)
    requires
        i <= bytes@.len(),
    ensures
        i <= r <= bytes@.len(),
        bytes@.skip(r as int) == after_names(bytes@.skip(i as int), k as nat),
    decreases k,
{
    let at = skip_blank_from(bytes, i);
    if k == 0 {
        at
    } else {
        let e = segment_end(bytes, at);
        assert(bytes@.skip(at as int).skip(e - at) =~= bytes@.skip(e as int));
        after_names_from(bytes, e, k - 1)
    }
}

/// The end of what starts at `start`, without trailing blanks.
fn end_without_blank(bytes: &Vec<u8>, start: usize) -> (r: usize)
    requires
        start <= bytes@.len(),
    ensures
        start <= r <= bytes@.len(),
        bytes@.subrange(start as int, r as int) == without_trailing_blank(
            bytes@.skip(start as int),
        ),
{
    let mut end: usize = bytes.len();
    assert(bytes@.subrange(start as int, end as int) =~= bytes@.skip(start as int));
    while end > start
        invariant
            start <= end <= bytes@.len(),
            without_trailing_blank(bytes@.subrange(start as int, end as int))
                == without_trailing_blank(bytes@.skip(start as int)),
        decreases end,
    {
        let ghost t = bytes@.subrange(start as int, end as int);
        let blank = bytes[end - 1] == SLASH || (bytes[end - 1] == DOT && (end - 1 == start
            || bytes[end - 2] == SLASH));
        if !blank {
            return end;
        }
        assert(t.drop_last() =~= bytes@.subrange(start as int, end - 1));
        end = end - 1;
    }
    end
}

fn render_names(all: &Vec<Vec<u8>>) -> (r: Vec<u8>)
    ensures
        r@ == rendered_names(views::views(all@)),
{
    let ghost ns = views::views(all@);
    let mut tail: Vec<u8> = Vec::new();
    let mut k: usize = all.len();
    assert(ns.skip(ns.len() as int).len() == 0);
    while k > 0
        invariant
            k <= all@.len(),
            ns == views::views(all@),
            tail@ == rendered_names(ns.skip(k as int)),
        decreases k,
    {
        let ghost t = ns.skip(k - 1);
        assert(t[0] == all@[k - 1]@);
        assert(t.skip(1) =~= ns.skip(k as int));
        let mut next = slice(&all[k - 1], 0, all[k - 1].len());
        assert(next@ =~= all@[k - 1]@);
        if k < all.len() {
            next.push(SLASH);
            next.append(&mut tail);
            assert(next@ =~= t[0] + seq![SLASH] + rendered_names(t.skip(1)));
        }
        tail = next;
        k = k - 1;
    }
    assert(ns.skip(0) =~= ns);
    tail
}

/// A path of a Unix file system. Any bytes can stand in it.
#[derive(Debug)]
pub struct PathBuf {
    bytes: Vec<u8>,
}

impl View for PathBuf {
    type V = Seq<u8>;

    closed spec fn view(&self) -> Seq<u8> {
        self.bytes@
    }
}

impl Clone for PathBuf {
    fn clone(&self) -> (r: Self)
        ensures
            r@ == self@,
    {
        PathBuf { bytes: slice(&self.bytes, 0, self.bytes.len()) }
    }
}

impl PartialEq for PathBuf {
    /// Two paths are equal when their components are.
    fn eq(&self, other: &Self) -> (r: bool) {
        self.same(other)
    }
}

impl vstd::std_specs::cmp::PartialEqSpecImpl for PathBuf {
    open spec fn obeys_eq_spec() -> bool {
        true
    }

    open spec fn eq_spec(&self, other: &Self) -> bool {
        components(self@) == components(other@)
    }
}

impl Eq for PathBuf {

}

impl order::Ranked for PathBuf {
    open spec fn ranks_before(self, other: Self) -> bool {
        path_order()(components(self@), components(other@))
    }

    fn before(&self, other: &Self) -> (r: bool) {
        self.less(other)
    }
}

impl PathBuf {
    /// The path with these bytes.
    pub fn from_bytes(bytes: Vec<u8>) -> (r: Self)
        ensures
            r@ == bytes@,
    {
        PathBuf { bytes }
    }

    /// The path with the UTF-8 bytes of a text.
    pub fn from_text(value: &str) -> (r: Self)
        ensures
            r@ == utf8::encode_utf8(value@),
    {
        PathBuf { bytes: text::bytes_of(value) }
    }

    pub fn as_bytes(&self) -> (r: &Vec<u8>)
        ensures
            r@ == self@,
    {
        &self.bytes
    }

    pub fn is_empty(&self) -> (r: bool)
        ensures
            r == (self@.len() == 0),
    {
        self.bytes.len() == 0
    }

    pub fn is_absolute(&self) -> (r: bool)
        ensures
            r == absolute(self@),
    {
        self.bytes.len() > 0 && self.bytes[0] == SLASH
    }

    /// The components, in order.
    pub fn components(&self) -> (r: Vec<Vec<u8>>)
        ensures
            views::views(r@) == components(self@),
    {
        let mut r: Vec<Vec<u8>> = Vec::new();
        if self.is_absolute() {
            r.push(vec![SLASH]);
            assert(r@[0]@ =~= seq![SLASH]);
            assert(views::views(r@) =~= lead(self@));
        } else if starts_here(&self.bytes) {
            r.push(vec![DOT]);
            assert(r@[0]@ =~= seq![DOT]);
            assert(views::views(r@) =~= lead(self@));
        } else {
            assert(views::views(r@) =~= lead(self@));
        }
        let mut rest = names_of(&self.bytes);
        let ghost first = r@;
        let ghost second = rest@;
        r.append(&mut rest);
        assert(views::views(r@) =~= views::views(first) + views::views(second));
        r
    }

    /// Whether two paths have the same components.
    pub fn same(&self, other: &PathBuf) -> (r: bool)
        ensures
            r == (components(self@) == components(other@)),
    {
        let a = self.components();
        let b = other.components();
        if a.len() != b.len() {
            assert(components(self@).len() != components(other@).len());
            return false;
        }
        let mut i: usize = 0;
        while i < a.len()
            invariant
                i <= a@.len(),
                a@.len() == b@.len(),
                views::views(a@) == components(self@),
                views::views(b@) == components(other@),
                forall|j: int| 0 <= j < i ==> a@[j]@ == b@[j]@,
            decreases a.len() - i,
        {
            if !same_bytes(&a[i], &b[i]) {
                assert(components(self@)[i as int] != components(other@)[i as int]);
                return false;
            }
            i = i + 1;
        }
        assert(components(self@) =~= components(other@));
        true
    }

    /// Whether a path comes before another, component by component.
    pub fn less(&self, other: &PathBuf) -> (r: bool)
        ensures
            r == path_order()(components(self@), components(other@)),
    {
        let a = self.components();
        let b = other.components();
        let ghost x = components(self@);
        let ghost y = components(other@);
        let mut i: usize = 0;
        while i < a.len() && i < b.len() && same_bytes(&a[i], &b[i])
            invariant
                i <= a@.len(),
                i <= b@.len(),
                views::views(a@) == x,
                views::views(b@) == y,
                forall|j: int| 0 <= j < i ==> x[j] == y[j],
            decreases a.len() - i,
        {
            i = i + 1;
        }
        let r = i < b.len() && (i == a.len() || component_less(&a[i], &b[i]));
        proof {
            let less = component_order();
            if r {
                assert(order::falls_below_at(less, x, y, i as int));
            } else {
                assert forall|k: int| !order::falls_below_at(less, x, y, k) by {
                    if order::falls_below_at(less, x, y, k) {
                        if k < i {
                            assert(x[k] == y[k]);
                            path_order_is_strict();
                            component_is_not_below_itself(x[k]);
                        } else if k > i {
                            assert(x[i as int] == y[i as int]);
                        }
                    }
                }
            }
        }
        r
    }

    /// Whether `base` is this path or an ancestor of it.
    pub fn starts_with(&self, base: &PathBuf) -> (r: bool)
        ensures
            r == starts_with(self@, base@),
    {
        let a = self.components();
        let b = base.components();
        if b.len() > a.len() {
            return false;
        }
        let mut i: usize = 0;
        while i < b.len()
            invariant
                i <= b@.len() <= a@.len(),
                views::views(a@) == components(self@),
                views::views(b@) == components(base@),
                forall|j: int| 0 <= j < i ==> a@[j]@ == b@[j]@,
            decreases b.len() - i,
        {
            if !same_bytes(&a[i], &b[i]) {
                assert(components(self@)[i as int] != components(base@)[i as int]);
                return false;
            }
            i = i + 1;
        }
        assert(components(base@) =~= components(self@).subrange(0, b@.len() as int));
        true
    }

    /// Whether the parent of this path is `base`.
    pub fn is_directly_below(&self, base: &PathBuf) -> (r: bool)
        ensures
            r == (names(self@).len() > 0 && components(self@).drop_last() == components(base@)),
    {
        let all = self.names();
        assert(views::views(all@).len() == all@.len());
        if all.len() == 0 {
            return false;
        }
        let a = self.components();
        let b = base.components();
        let ghost x = components(self@);
        let ghost y = components(base@);
        assert(x.len() == a@.len() && y.len() == b@.len());
        if a.len() - 1 != b.len() {
            assert(x.drop_last().len() != y.len());
            return false;
        }
        let mut i: usize = 0;
        while i < b.len()
            invariant
                i <= b@.len(),
                x == components(self@),
                y == components(base@),
                a@.len() == b@.len() + 1,
                views::views(a@) == x,
                views::views(b@) == y,
                forall|j: int| 0 <= j < i ==> a@[j]@ == b@[j]@,
            decreases b.len() - i,
        {
            if !same_bytes(&a[i], &b[i]) {
                assert(x.drop_last()[i as int] != y[i as int]);
                return false;
            }
            i = i + 1;
        }
        assert(x.drop_last() =~= y);
        true
    }

    /// What this path adds to `base`, where `base` is an ancestor of it.
    pub fn strip_prefix(&self, base: &PathBuf) -> (r: Option<PathBuf>)
        ensures
            r is Some <==> starts_with(self@, base@),
            r is Some ==> r->0@ == stripped(self@, base@),
    {
        if !self.starts_with(base) {
            return None;
        }
        let prefix = base.components();
        let start: usize = if self.is_absolute() || starts_here(&self.bytes) {
            1
        } else {
            0
        };
        if prefix.len() == 0 {
            let end = end_without_blank(&self.bytes, start);
            let bytes = slice(&self.bytes, 0, end);
            assert(bytes@ =~= self@.take(start as int) + self@.subrange(start as int, end as int));
            Some(PathBuf { bytes })
        } else {
            let skipped = names_of(&base.bytes);
            let at = after_names_from(&self.bytes, start, skipped.len());
            let end = end_without_blank(&self.bytes, at);
            let bytes = slice(&self.bytes, at, end);
            Some(PathBuf { bytes })
        }
    }

    /// The last component, where it is an ordinary name.
    pub fn file_name(&self) -> (r: Option<Vec<u8>>)
        ensures
            views::view_of(r) == file_name_of(self@),
    {
        let mut all = names_of(&self.bytes);
        match all.pop() {
            Some(name) => {
                assert(name@ == names(self@).last());
                if is_parent(&name) {
                    None
                } else {
                    Some(name)
                }
            },
            None => None,
        }
    }

    /// `other` taken relative to this path.
    pub fn join(&self, other: &PathBuf) -> (r: PathBuf)
        ensures
            r@ == joined(self@, other@),
    {
        if other.is_absolute() {
            return other.clone();
        }
        let mut bytes = slice(&self.bytes, 0, self.bytes.len());
        let mut rest = slice(&other.bytes, 0, other.bytes.len());
        assert(bytes@ =~= self@);
        assert(rest@ =~= other@);
        if bytes.len() > 0 && bytes[bytes.len() - 1] != SLASH {
            bytes.push(SLASH);
            bytes.append(&mut rest);
            assert(bytes@ =~= self@ + seq![SLASH] + other@);
        } else {
            bytes.append(&mut rest);
        }
        PathBuf { bytes }
    }

    /// A text taken relative to this path.
    pub fn join_text(&self, other: &str) -> (r: PathBuf)
        ensures
            r@ == joined(self@, utf8::encode_utf8(other@)),
    {
        self.join(&PathBuf::from_text(other))
    }

    /// This path without `.`, `..`, repeated and trailing separators.
    pub fn normalize(&self) -> (r: PathBuf)
        ensures
            r@ == normalized(self@),
    {
        let all = names_of(&self.bytes);
        let ghost ns = names(self@);
        let mut kept: Vec<Vec<u8>> = Vec::new();
        let mut i: usize = 0;
        assert(views::views(kept@) =~= resolved(ns.take(0)));
        while i < all.len()
            invariant
                i <= all@.len(),
                ns == views::views(all@),
                views::views(kept@) == resolved(ns.take(i as int)),
            decreases all.len() - i,
        {
            let ghost before = kept@;
            assert(ns.take(i + 1).drop_last() =~= ns.take(i as int));
            assert(ns.take(i + 1).last() == all@[i as int]@);
            if is_parent(&all[i]) {
                let _ = kept.pop();
                assert(views::views(kept@) =~= if before.len() > 0 {
                    views::views(before).drop_last()
                } else {
                    views::views(before)
                });
            } else {
                let name = slice(&all[i], 0, all[i].len());
                assert(name@ =~= all@[i as int]@);
                kept.push(name);
                assert(views::views(kept@) =~= views::views(before).push(name@));
            }
            i = i + 1;
        }
        assert(ns.take(ns.len() as int) =~= ns);
        PathBuf::from_names(self.is_absolute(), &kept)
    }

    /// The shortest path with these names.
    pub fn from_names(rooted: bool, all: &Vec<Vec<u8>>) -> (r: PathBuf)
        ensures
            r@ == rendered(rooted, views::views(all@)),
    {
        let mut tail = render_names(all);
        if rooted {
            let mut bytes: Vec<u8> = vec![SLASH];
            bytes.append(&mut tail);
            assert(bytes@ =~= seq![SLASH] + rendered_names(views::views(all@)));
            PathBuf { bytes }
        } else {
            PathBuf { bytes: tail }
        }
    }

    /// The names that the path passes through.
    pub fn names(&self) -> (r: Vec<Vec<u8>>)
        ensures
            views::views(r@) == names(self@),
    {
        names_of(&self.bytes)
    }

    /// The path as text, with a stand-in for what is not UTF-8.
    pub fn display(&self) -> (r: String)
        ensures
            r@ == text::lossy_text(self@),
    {
        text::lossy(&self.bytes)
    }

    /// The path as text, where it is UTF-8.
    pub fn to_text(&self) -> (r: Option<String>)
        ensures
            r is Some <==> utf8::valid_utf8(self@),
            r is Some ==> r->0@ == utf8::decode_utf8(self@),
    {
        let bytes = slice(&self.bytes, 0, self.bytes.len());
        assert(bytes@ =~= self@);
        text::decoded(bytes)
    }
}

proof fn component_is_not_below_itself(c: Seq<u8>)
    ensures
        !component_order()(c, c),
{
    order::lexicographic_order_is_strict(byte_order());
    assert(!order::lexicographic(byte_order())(c, c));
}

} // verus!
