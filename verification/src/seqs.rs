//! Searches and folds over sequences, used to state what the extractor's
//! loops compute.
use vstd::prelude::*;

verus! {

/// The first `f(s[j])` with `j >= i` that is `Some`, in index order.
pub open spec fn first_some_from<A, B>(s: Seq<A>, f: spec_fn(A) -> Option<B>, i: int) -> Option<B>
    decreases s.len() - i,
{
    if i < 0 || i >= s.len() {
        None
    } else {
        match f(s[i]) {
            Some(b) => Some(b),
            None => first_some_from(s, f, i + 1),
        }
    }
}

/// The first `f(x)` over the elements `x` of `s`, in order, that is `Some`.
pub open spec fn first_some<A, B>(s: Seq<A>, f: spec_fn(A) -> Option<B>) -> Option<B> {
    first_some_from(s, f, 0)
}

/// An optional reference, read as an optional value.
pub open spec fn deref_opt<T>(o: Option<&T>) -> Option<T> {
    match o {
        Some(x) => Some(*x),
        None => None,
    }
}

/// One step of a loop that collects `f(s[j])` for `j < i`: the collection up
/// to `i + 1` is the collection up to `i`, extended by `f(s[i])` when that is
/// `Some`.
pub proof fn lemma_filter_map_take_step<A, B>(s: Seq<A>, f: spec_fn(A) -> Option<B>, i: int)
    requires
        0 <= i < s.len(),
    ensures
        s.take(i + 1).filter_map(f) == (match f(s[i]) {
            Some(b) => s.take(i).filter_map(f).push(b),
            None => s.take(i).filter_map(f),
        }),
{
    assert(s.take(i + 1).drop_last() =~= s.take(i));
    assert(s.take(i + 1).last() == s[i]);
    match f(s[i]) {
        Some(b) => {
            assert(s.take(i).filter_map(f) + seq![b] =~= s.take(i).filter_map(f).push(b));
        },
        None => {},
    }
}

/// A search that finds something finds it at some position.
pub proof fn lemma_first_some_witness<A, B>(s: Seq<A>, f: spec_fn(A) -> Option<B>, i: int)
    requires
        first_some_from(s, f, i) is Some,
    ensures
        exists|k: int| 0 <= i <= k < s.len() && f(s[k]) == first_some_from(s, f, i),
    decreases s.len() - i,
{
    match f(s[i]) {
        Some(_) => {},
        None => {
            lemma_first_some_witness(s, f, i + 1);
        },
    }
}

/// Taking one more element of a finite set `u` into `t` shrinks `u - t`.
pub proof fn lemma_difference_shrinks<A>(u: Set<A>, t: Set<A>, a: A)
    requires
        u.finite(),
        u.contains(a),
        !t.contains(a),
    ensures
        u.difference(t.insert(a)).len() < u.difference(t).len(),
{
    broadcast use vstd::set::group_set_axioms;

    assert(u.difference(t.insert(a)) =~= u.difference(t).remove(a));
}

/// A search over `a + b` finds what the search over `a` finds, and where
/// that finds nothing, what the search over `b` finds.
pub proof fn lemma_first_some_concat<A, B>(a: Seq<A>, b: Seq<A>, f: spec_fn(A) -> Option<B>, i: int)
    requires
        0 <= i <= a.len(),
    ensures
        first_some_from(a + b, f, i) == match first_some_from(a, f, i) {
            Some(x) => Some(x),
            None => first_some(b, f),
        },
    decreases a.len() + b.len() - i,
{
    if i < a.len() {
        assert((a + b)[i] == a[i]);
        lemma_first_some_concat(a, b, f, i + 1);
    } else {
        lemma_first_some_shift(a, b, f, 0);
    }
}

proof fn lemma_first_some_shift<A, B>(a: Seq<A>, b: Seq<A>, f: spec_fn(A) -> Option<B>, j: int)
    requires
        0 <= j <= b.len(),
    ensures
        first_some_from(a + b, f, a.len() + j) == first_some_from(b, f, j),
    decreases b.len() - j,
{
    if j < b.len() {
        assert((a + b)[a.len() + j] == b[j]);
        lemma_first_some_shift(a, b, f, j + 1);
    }
}

/// A search from `k` that finds nothing before position `i` and something
/// at `i` finds that.
pub proof fn lemma_first_some_at<A, B>(s: Seq<A>, f: spec_fn(A) -> Option<B>, k: int, i: int)
    requires
        0 <= k <= i < s.len(),
        forall|x: int| k <= x < i ==> (#[trigger] f(s[x])) is None,
        f(s[i]) is Some,
    ensures
        first_some_from(s, f, k) == f(s[i]),
    decreases i - k,
{
    if k < i {
        lemma_first_some_at(s, f, k + 1, i);
    }
}

/// A search over elements that all give nothing finds nothing.
pub proof fn lemma_first_some_none<A, B>(s: Seq<A>, f: spec_fn(A) -> Option<B>, k: int)
    requires
        0 <= k,
        forall|x: int| k <= x < s.len() ==> (#[trigger] f(s[x])) is None,
    ensures
        first_some_from(s, f, k) is None,
    decreases s.len() - k,
{
    if k < s.len() {
        lemma_first_some_none(s, f, k + 1);
    }
}

} // verus!
