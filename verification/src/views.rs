//! Views of collections, element by element.

use vstd::prelude::*;

use crate::order;
use crate::order::Ranked;

verus! {

/// The views of the elements of a sequence.
pub open spec fn views<T: View>(s: Seq<T>) -> Seq<T::V> {
    Seq::new(s.len(), |i: int| s[i]@)
}

/// The view of what an option holds.
pub open spec fn view_of<T: View>(o: Option<T>) -> Option<T::V> {
    match o {
        Some(x) => Some(x@),
        None => None,
    }
}

/// Sorting values sorts their views.
pub proof fn views_of_sorted<T: Ranked + View>(s: Seq<T>, less: spec_fn(T::V, T::V) -> bool)
    requires
        forall|a: T, b: T| #[trigger] a.ranks_before(b) == less(a@, b@),
    ensures
        views(order::stably_sorted(s, order::rank_order::<T>())) == order::stably_sorted(
            views(s),
            less,
        ),
{
    let f = |x: T| x@;
    order::stable_sort_of_mapped(s, order::rank_order::<T>(), f, less);
    assert(s.map_values(f) =~= views(s));
    let t = order::stably_sorted(s, order::rank_order::<T>());
    assert(t.map_values(f) =~= views(t));
}

/// The outcomes of `f` over a sequence, up to the first failure.
pub open spec fn collected<A, B, E>(s: Seq<A>, f: spec_fn(A) -> Result<B, E>) -> Result<Seq<B>, E>
    decreases s.len(),
{
    if s.len() == 0 {
        Ok(Seq::empty())
    } else {
        match collected(s.drop_last(), f) {
            Err(e) => Err(e),
            Ok(before) => match f(s.last()) {
                Ok(x) => Ok(before.push(x)),
                Err(e) => Err(e),
            },
        }
    }
}

/// Nothing is collected from an empty sequence.
pub proof fn collected_of_none<A, B, E>(s: Seq<A>, f: spec_fn(A) -> Result<B, E>)
    ensures
        collected(s.take(0), f) == Ok::<Seq<B>, E>(Seq::empty()),
{
    assert(s.take(0).len() == 0);
}

/// One more element is collected, or its failure ends the collection.
pub proof fn collected_step<A, B, E>(s: Seq<A>, f: spec_fn(A) -> Result<B, E>, i: int)
    requires
        0 <= i < s.len(),
        collected(s.take(i), f) is Ok,
    ensures
        f(s[i]) matches Ok(x) ==> collected(s.take(i + 1), f) == Ok::<Seq<B>, E>(
            collected(s.take(i), f)->Ok_0.push(x),
        ),
        f(s[i]) matches Err(e) ==> collected(s, f) == Err::<Seq<B>, E>(e),
{
    assert(s.take(i + 1).drop_last() =~= s.take(i));
    if f(s[i]) is Err {
        collected_failure_stays(s, f, i + 1);
    }
}

proof fn collected_failure_stays<A, B, E>(s: Seq<A>, f: spec_fn(A) -> Result<B, E>, n: int)
    requires
        0 <= n <= s.len(),
        collected(s.take(n), f) is Err,
    ensures
        collected(s, f) == collected(s.take(n), f),
    decreases s.len() - n,
{
    if n == s.len() {
        assert(s.take(n) =~= s);
    } else {
        assert(s.take(n + 1).drop_last() =~= s.take(n));
        collected_failure_stays(s, f, n + 1);
    }
}

/// A failure among the first elements is the failure of all.
pub proof fn collected_of_prefix<A, B, E>(s: Seq<A>, f: spec_fn(A) -> Result<B, E>, n: int)
    requires
        0 <= n <= s.len(),
    ensures
        collected(s.take(n), f) is Err ==> collected(s, f) == collected(s.take(n), f),
{
    if collected(s.take(n), f) is Err {
        collected_failure_stays(s, f, n);
    }
}

/// What a complete collection holds.
pub proof fn collected_elements<A, B, E>(s: Seq<A>, f: spec_fn(A) -> Result<B, E>)
    requires
        collected(s, f) is Ok,
    ensures
        collected(s, f)->Ok_0.len() == s.len(),
        forall|i: int|
            0 <= i < s.len() ==> f(#[trigger] s[i]) == Ok::<B, E>(collected(s, f)->Ok_0[i]),
    decreases s.len(),
{
    if s.len() > 0 {
        let d = s.drop_last();
        collected_elements(d, f);
        assert forall|i: int| 0 <= i < s.len() implies f(#[trigger] s[i]) == Ok::<B, E>(
            collected(s, f)->Ok_0[i],
        ) by {
            if i < d.len() {
                assert(d[i] == s[i]);
            }
        }
    }
}

/// Where `f` succeeds on every element, all are collected.
pub proof fn all_collected<A, B, E>(s: Seq<A>, f: spec_fn(A) -> Result<B, E>, out: Seq<B>)
    requires
        out.len() == s.len(),
        forall|i: int| 0 <= i < s.len() ==> f(#[trigger] s[i]) == Ok::<B, E>(out[i]),
    ensures
        collected(s, f) == Ok::<Seq<B>, E>(out),
    decreases s.len(),
{
    if s.len() > 0 {
        let d = s.drop_last();
        assert forall|i: int| 0 <= i < d.len() implies f(#[trigger] d[i]) == Ok::<B, E>(
            out.drop_last()[i],
        ) by {
            assert(d[i] == s[i]);
        }
        all_collected(d, f, out.drop_last());
        assert(f(s[s.len() - 1]) == Ok::<B, E>(out.last()));
        assert(out.drop_last().push(out.last()) =~= out);
    } else {
        assert(out =~= Seq::empty());
    }
}

/// Functions that agree on every element collect the same.
pub proof fn collected_alike<A, B, E>(
    s: Seq<A>,
    f: spec_fn(A) -> Result<B, E>,
    g: spec_fn(A) -> Result<B, E>,
)
    requires
        forall|i: int| 0 <= i < s.len() ==> f(#[trigger] s[i]) == g(s[i]),
    ensures
        collected(s, f) == collected(s, g),
    decreases s.len(),
{
    if s.len() > 0 {
        let d = s.drop_last();
        assert forall|i: int| 0 <= i < d.len() implies f(#[trigger] d[i]) == g(d[i]) by {
            assert(d[i] == s[i]);
        }
        collected_alike(d, f, g);
        assert(f(s[s.len() - 1]) == g(s[s.len() - 1]));
    }
}

} // verus!
