use vstd::prelude::*;

verus! {

/// The index of the first element of `s` that satisfies `p`, if any.
pub open spec fn first_match<T>(s: Seq<T>, p: spec_fn(T) -> bool) -> Option<int>
    decreases s.len(),
{
    if s.len() == 0 {
        None
    } else {
        match first_match(s.drop_last(), p) {
            Some(i) => Some(i),
            None => if p(s.last()) {
                Some(s.len() - 1)
            } else {
                None
            },
        }
    }
}

/// The index of the last element of `s` that satisfies `p`, if any.
pub open spec fn last_match<T>(s: Seq<T>, p: spec_fn(T) -> bool) -> Option<int>
    decreases s.len(),
{
    if s.len() == 0 {
        None
    } else if p(s.last()) {
        Some(s.len() - 1)
    } else {
        last_match(s.drop_last(), p)
    }
}

/// `last_match` finds an index of `s` whose element satisfies `p`, and
/// none after it does.
pub proof fn lemma_last_match<T>(s: Seq<T>, p: spec_fn(T) -> bool)
    ensures
        match last_match(s, p) {
            Some(i) => 0 <= i < s.len() && p(s[i]) && forall|j: int| i < j < s.len() ==> !p(#[trigger] s[j]),
            None => forall|j: int| 0 <= j < s.len() ==> !p(#[trigger] s[j]),
        },
    decreases s.len(),
{
    if s.len() > 0 {
        lemma_last_match(s.drop_last(), p);
        assert forall|j: int| 0 <= j < s.len() - 1 implies s.drop_last()[j] == s[j] by {}
    }
}

/// `first_match` finds the earliest element that satisfies `p`, and finds
/// none exactly when no element does.
pub proof fn lemma_first_match<T>(s: Seq<T>, p: spec_fn(T) -> bool)
    ensures
        match first_match(s, p) {
            Some(i) => 0 <= i < s.len() && p(s[i]) && forall|j: int| 0 <= j < i ==> !p(#[trigger] s[j]),
            None => forall|j: int| 0 <= j < s.len() ==> !p(#[trigger] s[j]),
        },
    decreases s.len(),
{
    if s.len() > 0 {
        lemma_first_match(s.drop_last(), p);
        assert forall|j: int| 0 <= j < s.len() - 1 implies s.drop_last()[j] == s[j] by {}
    }
}

/// An index whose element satisfies `p`, with none before it that does,
/// is the one that `first_match` finds.
pub proof fn lemma_first_match_at<T>(s: Seq<T>, p: spec_fn(T) -> bool, k: int)
    requires
        0 <= k < s.len(),
        p(s[k]),
        forall|j: int| 0 <= j < k ==> !p(#[trigger] s[j]),
    ensures
        first_match(s, p) == Some(k),
{
    lemma_first_match(s, p);
}

/// Where no element satisfies `p`, `first_match` finds none.
pub proof fn lemma_first_match_none<T>(s: Seq<T>, p: spec_fn(T) -> bool)
    requires
        forall|j: int| 0 <= j < s.len() ==> !p(#[trigger] s[j]),
    ensures
        first_match(s, p) is None,
{
    lemma_first_match(s, p);
}

/// Appending an element keeps an earlier match, and the new element is the
/// match where there was none before and it satisfies `p`.
pub proof fn lemma_first_match_push<T>(s: Seq<T>, x: T, p: spec_fn(T) -> bool)
    ensures
        first_match(s.push(x), p) == match first_match(s, p) {
            Some(i) => Some(i),
            None => if p(x) {
                Some(s.len() as int)
            } else {
                None
            },
        },
{
    assert(s.push(x).drop_last() =~= s);
}

/// Replacing an element with one that satisfies `p` exactly when the old
/// one did leaves `first_match` where it was.
pub proof fn lemma_first_match_update<T>(s: Seq<T>, i: int, x: T, p: spec_fn(T) -> bool)
    requires
        0 <= i < s.len(),
        p(x) == p(s[i]),
    ensures
        first_match(s.update(i, x), p) == first_match(s, p),
{
    lemma_first_match(s, p);
    let t = s.update(i, x);
    assert forall|j: int| 0 <= j < s.len() implies p(#[trigger] t[j]) == p(s[j]) by {}
    match first_match(s, p) {
        Some(k) => {
            assert(p(t[k]));
            assert forall|j: int| 0 <= j < k implies !p(#[trigger] t[j]) by {
                assert(!p(s[j]));
            }
            lemma_first_match_at(t, p, k);
        },
        None => {
            assert forall|j: int| 0 <= j < t.len() implies !p(#[trigger] t[j]) by {
                assert(!p(s[j]));
            }
            lemma_first_match_none(t, p);
        },
    }
}

/// Every element that the filter keeps satisfies `p`, and every element
/// that satisfies `p` is kept: `filter` on a prefix grows by one step.
pub proof fn lemma_filter_take_step<T>(s: Seq<T>, p: spec_fn(T) -> bool, i: int)
    requires
        0 <= i < s.len(),
    ensures
        s.take(i + 1).filter(p) == if p(s[i]) {
            s.take(i).filter(p).push(s[i])
        } else {
            s.take(i).filter(p)
        },
{
    assert(s.take(i + 1) =~= s.take(i).push(s[i]));
    s.take(i).lemma_filter_push(s[i], p);
}

/// The sum of `f` over the elements of `s`.
pub open spec fn sum_of<T>(s: Seq<T>, f: spec_fn(T) -> int) -> int
    decreases s.len(),
{
    if s.len() == 0 {
        0
    } else {
        sum_of(s.drop_last(), f) + f(s.last())
    }
}

/// Appending an element adds its term to the sum.
pub proof fn lemma_sum_of_push<T>(s: Seq<T>, x: T, f: spec_fn(T) -> int)
    ensures
        sum_of(s.push(x), f) == sum_of(s, f) + f(x),
{
    assert(s.push(x).drop_last() =~= s);
}

/// The sum over a prefix grows by the next element's term.
pub proof fn lemma_sum_of_take_step<T>(s: Seq<T>, f: spec_fn(T) -> int, i: int)
    requires
        0 <= i < s.len(),
    ensures
        sum_of(s.take(i + 1), f) == sum_of(s.take(i), f) + f(s[i]),
{
    assert(s.take(i + 1) =~= s.take(i).push(s[i]));
    lemma_sum_of_push(s.take(i), s[i], f);
}

/// Replacing one element changes the sum by the difference of its terms.
pub proof fn lemma_sum_of_update<T>(s: Seq<T>, i: int, x: T, f: spec_fn(T) -> int)
    requires
        0 <= i < s.len(),
    ensures
        sum_of(s.update(i, x), f) == sum_of(s, f) - f(s[i]) + f(x),
    decreases s.len(),
{
    let t = s.update(i, x);
    if i == s.len() - 1 {
        assert(t.drop_last() =~= s.drop_last());
    } else {
        lemma_sum_of_update(s.drop_last(), i, x, f);
        assert(t.drop_last() =~= s.drop_last().update(i, x));
    }
}

/// With no negative term, a prefix never sums to more than the whole.
pub proof fn lemma_sum_of_prefix<T>(s: Seq<T>, f: spec_fn(T) -> int, k: int)
    requires
        0 <= k <= s.len(),
        forall|j: int| 0 <= j < s.len() ==> f(#[trigger] s[j]) >= 0,
    ensures
        0 <= sum_of(s.take(k), f) <= sum_of(s, f),
    decreases s.len() - k,
{
    if k < s.len() {
        lemma_sum_of_prefix(s, f, k + 1);
        lemma_sum_of_take_step(s, f, k);
        let t = s.take(k);
        assert forall|j: int| 0 <= j < t.len() implies f(#[trigger] t[j]) >= 0 by {
            assert(t[j] == s[j]);
        }
        lemma_sum_of_nonnegative(t, f);
    } else {
        assert(s.take(k) =~= s);
        lemma_sum_of_nonnegative(s, f);
    }
}

/// With no negative term, the sum is not negative.
pub proof fn lemma_sum_of_nonnegative<T>(s: Seq<T>, f: spec_fn(T) -> int)
    requires
        forall|j: int| 0 <= j < s.len() ==> f(#[trigger] s[j]) >= 0,
    ensures
        sum_of(s, f) >= 0,
    decreases s.len(),
{
    if s.len() > 0 {
        let d = s.drop_last();
        assert forall|j: int| 0 <= j < d.len() implies f(#[trigger] d[j]) >= 0 by {
            assert(d[j] == s[j]);
        }
        lemma_sum_of_nonnegative(d, f);
        assert(f(s[s.len() - 1]) >= 0);
    }
}

/// A filter keeps exactly the elements that satisfy `p`, each taken from
/// the sequence, and what it keeps and what the complementary filter keeps
/// add up to the whole.
pub proof fn lemma_filter_exact<T>(s: Seq<T>, p: spec_fn(T) -> bool, q: spec_fn(T) -> bool)
    requires
        forall|x: T| #[trigger] q(x) == !p(x),
    ensures
        forall|k: int| 0 <= k < s.len() && p(#[trigger] s[k]) ==> s.filter(p).contains(s[k]),
        forall|k: int|
            0 <= k < s.filter(p).len() ==> p(#[trigger] s.filter(p)[k]) && s.contains(
                s.filter(p)[k],
            ),
        s.filter(p).len() + s.filter(q).len() == s.len(),
    decreases s.len(),
{
    assert forall|k: int| 0 <= k < s.len() && p(#[trigger] s[k]) implies s.filter(p).contains(
        s[k],
    ) by {
        s.lemma_filter_contains(p, k);
    }
    assert forall|k: int| 0 <= k < s.filter(p).len() implies p(#[trigger] s.filter(p)[k])
        && s.contains(s.filter(p)[k]) by {
        s.lemma_filter_pred(p, k);
        assert(s.filter(p).contains(s.filter(p)[k]));
        s.lemma_filter_contains_rev(p, s.filter(p)[k]);
    }
    if s.len() == 0 {
        reveal(Seq::filter);
    } else {
        let d = s.drop_last();
        assert(s =~= d.push(s.last()));
        lemma_filter_exact(d, p, q);
        d.lemma_filter_len_push(p, s.last());
        d.lemma_filter_len_push(q, s.last());
    }
}

} // verus!
