//! Strict orders, the lexicographic order over sequences, and a stable sort.

use vstd::prelude::*;

verus! {

/// `less` is a strict total order: irreflexive, transitive, and any two distinct values are related.
pub open spec fn strict_order<A>(less: spec_fn(A, A) -> bool) -> bool {
    &&& forall|a: A| !#[trigger] less(a, a)
    &&& forall|a: A, b: A, c: A| #[trigger] less(a, b) && #[trigger] less(b, c) ==> less(a, c)
    &&& forall|a: A, b: A| a != b ==> #[trigger] less(a, b) || less(b, a)
}

/// Two sequences agree before index `i`, where the first one ends or holds the lesser element.
pub open spec fn falls_below_at<A>(
    less: spec_fn(A, A) -> bool,
    a: Seq<A>,
    b: Seq<A>,
    i: int,
) -> bool {
    &&& 0 <= i <= a.len()
    &&& i < b.len()
    &&& forall|j: int| 0 <= j < i ==> a[j] == b[j]
    &&& i == a.len() || less(a[i], b[i])
}

/// The lexicographic order over sequences: a proper prefix comes first.
pub open spec fn lex_less<A>(less: spec_fn(A, A) -> bool, a: Seq<A>, b: Seq<A>) -> bool {
    exists|i: int| falls_below_at(less, a, b, i)
}

/// The lexicographic order as a function value.
pub open spec fn lexicographic<A>(less: spec_fn(A, A) -> bool) -> spec_fn(Seq<A>, Seq<A>) -> bool {
    |a: Seq<A>, b: Seq<A>| lex_less(less, a, b)
}

/// The first index from `i` on at which two different sequences differ or one of them ends.
proof fn first_difference<A>(a: Seq<A>, b: Seq<A>, i: int) -> (r: int)
    requires
        a != b,
        0 <= i <= a.len(),
        i <= b.len(),
        forall|j: int| 0 <= j < i ==> a[j] == b[j],
    ensures
        i <= r <= a.len(),
        r <= b.len(),
        forall|j: int| 0 <= j < r ==> a[j] == b[j],
        r == a.len() || r == b.len() || a[r] != b[r],
        r == a.len() ==> r < b.len(),
    decreases a.len() - i,
{
    if i == a.len() {
        if i == b.len() {
            assert(a =~= b);
        }
        i
    } else if i == b.len() || a[i] != b[i] {
        i
    } else {
        first_difference(a, b, i + 1)
    }
}

/// The lexicographic order over sequences of totally ordered elements is itself strict and total.
pub proof fn lexicographic_order_is_strict<A>(less: spec_fn(A, A) -> bool)
    requires
        strict_order(less),
    ensures
        strict_order(lexicographic(less)),
{
    let lex = lexicographic(less);
    assert forall|a: Seq<A>| !#[trigger] lex(a, a) by {
        if lex_less(less, a, a) {
            let i = choose|i: int| falls_below_at(less, a, a, i);
            assert(less(a[i], a[i]));
        }
    }
    assert forall|a: Seq<A>, b: Seq<A>, c: Seq<A>| #[trigger] lex(a, b) && #[trigger] lex(b, c)
        implies lex(a, c) by {
        let i = choose|i: int| falls_below_at(less, a, b, i);
        let j = choose|j: int| falls_below_at(less, b, c, j);
        let k = if i < j { i } else { j };
        if i == j && i < a.len() {
            assert(less(a[i], b[i]) && less(b[i], c[i]));
        }
        assert(falls_below_at(less, a, c, k));
    }
    assert forall|a: Seq<A>, b: Seq<A>| a != b implies #[trigger] lex(a, b) || lex(b, a) by {
        let i = first_difference(a, b, 0);
        if i == a.len() {
            assert(falls_below_at(less, a, b, i));
        } else if i == b.len() {
            assert(falls_below_at(less, b, a, i));
        } else {
            assert(less(a[i], b[i]) || less(b[i], a[i]));
            assert(falls_below_at(less, a, b, i) || falls_below_at(less, b, a, i));
        }
    }
}

/// No element comes after one that it should precede.
pub open spec fn sorted<A>(s: Seq<A>, less: spec_fn(A, A) -> bool) -> bool {
    forall|i: int, j: int| 0 <= i < j < s.len() ==> !less(#[trigger] s[j], #[trigger] s[i])
}

/// `x` placed into `s` before the first element that does not precede it.
pub open spec fn placed<A>(s: Seq<A>, x: A, less: spec_fn(A, A) -> bool) -> Seq<A>
    decreases s.len(),
{
    if s.len() == 0 {
        seq![x]
    } else if less(s[0], x) {
        seq![s[0]] + placed(s.drop_first(), x, less)
    } else {
        seq![x] + s
    }
}

/// The elements of `s` in order, with equal ones in the order in which `s` has them.
pub open spec fn stably_sorted<A>(s: Seq<A>, less: spec_fn(A, A) -> bool) -> Seq<A>
    decreases s.len(),
{
    if s.len() == 0 {
        s
    } else {
        placed(stably_sorted(s.drop_first(), less), s[0], less)
    }
}

pub proof fn placed_at<A>(s: Seq<A>, x: A, less: spec_fn(A, A) -> bool, i: int)
    requires
        0 <= i <= s.len(),
        forall|j: int| 0 <= j < i ==> less(#[trigger] s[j], x),
        i == s.len() || !less(s[i], x),
    ensures
        placed(s, x, less) == s.insert(i, x),
    decreases s.len(),
{
    if s.len() == 0 {
        assert(s.insert(i, x) =~= seq![x]);
    } else if i == 0 {
        assert(s.insert(0, x) =~= seq![x] + s);
    } else {
        assert(less(s[0], x));
        let rest = s.drop_first();
        assert forall|j: int| 0 <= j < i - 1 implies less(#[trigger] rest[j], x) by {
            assert(rest[j] == s[j + 1]);
        }
        placed_at(rest, x, less, i - 1);
        assert(seq![s[0]] + rest.insert(i - 1, x) =~= s.insert(i, x));
    }
}

/// Placing an element adds it and nothing else.
pub proof fn placed_is_a_permutation<A>(s: Seq<A>, x: A, less: spec_fn(A, A) -> bool)
    ensures
        placed(s, x, less).to_multiset() == s.to_multiset().insert(x),
        placed(s, x, less).len() == s.len() + 1,
    decreases s.len(),
{
    broadcast use vstd::seq_lib::group_to_multiset_ensures;
    if s.len() == 0 {
        assert(seq![x] =~= s.push(x));
    } else if less(s[0], x) {
        placed_is_a_permutation(s.drop_first(), x, less);
        assert(s =~= seq![s[0]] + s.drop_first());
        vstd::seq_lib::lemma_multiset_commutative(seq![s[0]], s.drop_first());
        vstd::seq_lib::lemma_multiset_commutative(
            seq![s[0]],
            placed(s.drop_first(), x, less),
        );
        assert(placed(s, x, less).to_multiset() =~= s.to_multiset().insert(x));
    } else {
        vstd::seq_lib::lemma_multiset_commutative(seq![x], s);
        assert(seq![x] =~= Seq::<A>::empty().push(x));
        assert((seq![x] + s).to_multiset() =~= s.to_multiset().insert(x));
    }
}

proof fn placed_keeps_order<A>(s: Seq<A>, x: A, less: spec_fn(A, A) -> bool)
    requires
        sorted(s, less),
        weak_order(less),
    ensures
        sorted(placed(s, x, less), less),
    decreases s.len(),
{
    if s.len() == 0 {
    } else if less(s[0], x) {
        let rest = s.drop_first();
        assert(sorted(rest, less)) by {
            assert forall|i: int, j: int| 0 <= i < j < rest.len() implies !less(
                #[trigger] rest[j],
                #[trigger] rest[i],
            ) by {
                assert(rest[j] == s[j + 1] && rest[i] == s[i + 1]);
            }
        }
        placed_keeps_order(rest, x, less);
        placed_is_a_permutation(rest, x, less);
        let tail = placed(rest, x, less);
        let all = seq![s[0]] + tail;
        assert forall|i: int, j: int| 0 <= i < j < all.len() implies !less(
            #[trigger] all[j],
            #[trigger] all[i],
        ) by {
            assert(all[j] == tail[j - 1]);
            if i == 0 {
                broadcast use vstd::seq_lib::group_to_multiset_ensures;
                assert(tail.to_multiset().contains(tail[j - 1]));
                if tail[j - 1] == x {
                    if less(x, s[0]) {
                        assert(less(x, x));
                    }
                } else {
                    assert(rest.to_multiset().contains(tail[j - 1]));
                    let k = choose|k: int| 0 <= k < rest.len() && rest[k] == tail[j - 1];
                    assert(rest[k] == s[k + 1]);
                }
            } else {
                assert(all[i] == tail[i - 1]);
            }
        }
    } else {
        let all = seq![x] + s;
        assert forall|i: int, j: int| 0 <= i < j < all.len() implies !less(
            #[trigger] all[j],
            #[trigger] all[i],
        ) by {
            assert(all[j] == s[j - 1]);
            if i == 0 {
                if less(s[j - 1], x) {
                    assert(less(s[j - 1], s[0]) || less(s[0], x));
                }
            } else {
                assert(all[i] == s[i - 1]);
            }
        }
    }
}

/// A weak order: irreflexive, transitive, and incomparability carries over.
pub open spec fn weak_order<A>(less: spec_fn(A, A) -> bool) -> bool {
    &&& forall|a: A| !#[trigger] less(a, a)
    &&& forall|a: A, b: A, c: A| #[trigger] less(a, b) && #[trigger] less(b, c) ==> less(a, c)
    &&& forall|a: A, b: A, c: A|
        #[trigger] less(a, c) ==> less(a, b) || #[trigger] less(b, c)
}

/// Every strict total order is a weak order.
pub proof fn strict_order_is_weak<A>(less: spec_fn(A, A) -> bool)
    requires
        strict_order(less),
    ensures
        weak_order(less),
{
    assert forall|a: A, b: A, c: A| #[trigger] less(a, c) implies less(a, b) || #[trigger] less(
        b,
        c,
    ) by {
        if a != b {
            assert(less(a, b) || less(b, a));
        }
    }
}

/// Sorting rearranges: it neither adds nor drops an element.
pub proof fn stable_sort_is_a_permutation<A>(s: Seq<A>, less: spec_fn(A, A) -> bool)
    ensures
        stably_sorted(s, less).to_multiset() == s.to_multiset(),
        stably_sorted(s, less).len() == s.len(),
    decreases s.len(),
{
    if s.len() > 0 {
        broadcast use vstd::seq_lib::group_to_multiset_ensures;
        stable_sort_is_a_permutation(s.drop_first(), less);
        placed_is_a_permutation(stably_sorted(s.drop_first(), less), s[0], less);
        assert(s =~= seq![s[0]] + s.drop_first());
        vstd::seq_lib::lemma_multiset_commutative(seq![s[0]], s.drop_first());
        assert(seq![s[0]] =~= Seq::<A>::empty().push(s[0]));
        assert(s.to_multiset() =~= s.drop_first().to_multiset().insert(s[0]));
    }
}

/// The outcome of sorting by a weak order is sorted.
pub proof fn stable_sort_sorts<A>(s: Seq<A>, less: spec_fn(A, A) -> bool)
    requires
        weak_order(less),
    ensures
        sorted(stably_sorted(s, less), less),
    decreases s.len(),
{
    if s.len() > 0 {
        stable_sort_sorts(s.drop_first(), less);
        placed_keeps_order(stably_sorted(s.drop_first(), less), s[0], less);
    }
}

/// Sorting commutes with a mapping that carries one order to the other.
pub proof fn stable_sort_of_mapped<A, B>(
    s: Seq<A>,
    less: spec_fn(A, A) -> bool,
    f: spec_fn(A) -> B,
    mapped_less: spec_fn(B, B) -> bool,
)
    requires
        forall|a: A, b: A| #[trigger] less(a, b) == mapped_less(f(a), f(b)),
    ensures
        stably_sorted(s, less).map_values(f) == stably_sorted(s.map_values(f), mapped_less),
    decreases s.len(),
{
    if s.len() > 0 {
        let rest = s.drop_first();
        stable_sort_of_mapped(rest, less, f, mapped_less);
        placed_in_mapped(stably_sorted(rest, less), s[0], less, f, mapped_less);
        assert(s.map_values(f).drop_first() =~= rest.map_values(f));
    } else {
        assert(stably_sorted(s, less).map_values(f) =~= stably_sorted(
            s.map_values(f),
            mapped_less,
        ));
    }
}

proof fn placed_in_mapped<A, B>(
    s: Seq<A>,
    x: A,
    less: spec_fn(A, A) -> bool,
    f: spec_fn(A) -> B,
    mapped_less: spec_fn(B, B) -> bool,
)
    requires
        forall|a: A, b: A| #[trigger] less(a, b) == mapped_less(f(a), f(b)),
    ensures
        placed(s, x, less).map_values(f) == placed(s.map_values(f), f(x), mapped_less),
    decreases s.len(),
{
    let m = s.map_values(f);
    if s.len() == 0 {
        assert(seq![x].map_values(f) =~= seq![f(x)]);
        assert(m.len() == 0);
    } else if less(s[0], x) {
        placed_in_mapped(s.drop_first(), x, less, f, mapped_less);
        assert(m.drop_first() =~= s.drop_first().map_values(f));
        assert((seq![s[0]] + placed(s.drop_first(), x, less)).map_values(f) =~= seq![m[0]]
            + placed(s.drop_first(), x, less).map_values(f));
    } else {
        assert((seq![x] + s).map_values(f) =~= seq![f(x)] + m);
    }
}

/// A type whose values can be put in order.
pub trait Ranked: Sized {
    spec fn ranks_before(self, other: Self) -> bool;

    fn before(&self, other: &Self) -> (r: bool)
        ensures
            r == self.ranks_before(*other),
    ;
}

/// The order of a ranked type as a function value.
pub open spec fn rank_order<T: Ranked>() -> spec_fn(T, T) -> bool {
    |a: T, b: T| a.ranks_before(b)
}

/// Sorts without reordering elements of equal rank.
pub fn stable_sort<T: Ranked>(items: Vec<T>) -> (r: Vec<T>)
    ensures
        r@ == stably_sorted(items@, rank_order::<T>()),
{
    let mut rest = items;
    let mut result: Vec<T> = Vec::new();
    let ghost less = rank_order::<T>();
    assert(items@.skip(items@.len() as int) =~= Seq::<T>::empty());
    assert(rest@ =~= items@.take(rest@.len() as int));
    while rest.len() > 0
        invariant
            less == rank_order::<T>(),
            rest@.len() <= items@.len(),
            rest@ == items@.take(rest@.len() as int),
            result@ == stably_sorted(items@.skip(rest@.len() as int), less),
        decreases rest.len(),
    {
        let ghost n = rest@.len() as int;
        let item = rest.pop().unwrap();
        let mut at: usize = 0;
        while at < result.len() && result[at].before(&item)
            invariant
                at <= result.len(),
                less == rank_order::<T>(),
                forall|j: int| 0 <= j < at ==> less(#[trigger] result@[j], item),
            decreases result.len() - at,
        {
            at = at + 1;
        }
        proof {
            placed_at(result@, item, less, at as int);
            let tail = items@.skip(n - 1);
            assert(tail[0] == item);
            assert(tail.drop_first() =~= items@.skip(n));
            assert(rest@ =~= items@.take(n - 1));
        }
        result.insert(at, item);
    }
    assert(items@.skip(0) =~= items@);
    result
}

} // verus!
