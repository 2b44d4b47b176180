//! Counting, selecting and summing over sequences.
use vstd::prelude::*;

verus! {

/// Number of elements of `s` that satisfy `p`.
pub open spec fn count_where<A>(s: Seq<A>, p: spec_fn(A) -> bool) -> nat
    decreases s.len(),
{
    if s.len() == 0 {
        0
    } else {
        count_where(s.drop_last(), p) + if p(s.last()) {
            1nat
        } else {
            0nat
        }
    }
}

/// The values `f` picks out of `s`, in order.
pub open spec fn gather<A, B>(s: Seq<A>, f: spec_fn(A) -> Option<B>) -> Seq<B>
    decreases s.len(),
{
    if s.len() == 0 {
        Seq::empty()
    } else {
        let rest = gather(s.drop_last(), f);
        match f(s.last()) {
            Some(v) => rest.push(v),
            None => rest,
        }
    }
}

/// Sum of the elements of `s`.
pub open spec fn total(s: Seq<i64>) -> int
    decreases s.len(),
{
    if s.len() == 0 {
        0
    } else {
        total(s.drop_last()) + s.last()
    }
}

pub proof fn lemma_count_where_step<A>(s: Seq<A>, p: spec_fn(A) -> bool, i: int)
    requires
        0 <= i < s.len(),
    ensures
        count_where(s.take(i + 1), p) == count_where(s.take(i), p) + if p(s[i]) {
            1nat
        } else {
            0nat
        },
{
    assert(s.take(i + 1).drop_last() =~= s.take(i));
}

pub proof fn lemma_count_where_le<A>(s: Seq<A>, p: spec_fn(A) -> bool)
    ensures
        count_where(s, p) <= s.len(),
    decreases s.len(),
{
    if s.len() > 0 {
        lemma_count_where_le(s.drop_last(), p);
    }
}

/// A stronger predicate holds of no more elements.
pub proof fn lemma_count_where_mono<A>(s: Seq<A>, p: spec_fn(A) -> bool, q: spec_fn(A) -> bool)
    requires
        forall|a: A| #[trigger] p(a) ==> q(a),
    ensures
        count_where(s, p) <= count_where(s, q),
    decreases s.len(),
{
    if s.len() > 0 {
        lemma_count_where_mono(s.drop_last(), p, q);
        assert(p(s.last()) ==> q(s.last()));
    }
}

/// Elements satisfying one of two exclusive predicates are at most all elements.
pub proof fn lemma_count_where_disjoint<A>(s: Seq<A>, p: spec_fn(A) -> bool, q: spec_fn(A) -> bool)
    requires
        forall|a: A| !(#[trigger] p(a) && q(a)),
    ensures
        count_where(s, p) + count_where(s, q) <= s.len(),
    decreases s.len(),
{
    if s.len() > 0 {
        lemma_count_where_disjoint(s.drop_last(), p, q);
        assert(!(p(s.last()) && q(s.last())));
    }
}

pub proof fn lemma_gather_step<A, B>(s: Seq<A>, f: spec_fn(A) -> Option<B>, i: int)
    requires
        0 <= i < s.len(),
    ensures
        gather(s.take(i + 1), f) == match f(s[i]) {
            Some(v) => gather(s.take(i), f).push(v),
            None => gather(s.take(i), f),
        },
{
    assert(s.take(i + 1).drop_last() =~= s.take(i));
}

/// Gathering the second components of what `f` picks is gathering with `h`,
/// when `h` picks exactly those second components.
pub proof fn lemma_gather_seconds<A>(
    s: Seq<A>,
    f: spec_fn(A) -> Option<(i64, i64)>,
    h: spec_fn(A) -> Option<i64>,
)
    requires
        forall|a: A|
            #[trigger] h(a) == match f(a) {
                Some(e) => Some(e.1),
                None => None::<i64>,
            },
    ensures
        gather(s, h) == gather(s, f).map_values(|e: (i64, i64)| e.1),
    decreases s.len(),
{
    if s.len() > 0 {
        lemma_gather_seconds(s.drop_last(), f, h);
        let x = s.last();
        assert(h(x) == match f(x) {
            Some(e) => Some(e.1),
            None => None::<i64>,
        });
        let g = gather(s.drop_last(), f);
        match f(x) {
            Some(e) => {
                assert(g.push(e).map_values(|e: (i64, i64)| e.1) =~= g.map_values(
                    |e: (i64, i64)| e.1,
                ).push(e.1));
            },
            None => {},
        }
    } else {
        assert(gather(s, f).map_values(|e: (i64, i64)| e.1) =~= Seq::<i64>::empty());
    }
}

/// Appending elements that `f` does not pick changes nothing gathered.
pub proof fn lemma_gather_append_none<A, B>(s: Seq<A>, t: Seq<A>, f: spec_fn(A) -> Option<B>)
    requires
        forall|i: int| 0 <= i < t.len() ==> f(#[trigger] t[i]) is None,
    ensures
        gather(s + t, f) == gather(s, f),
    decreases t.len(),
{
    if t.len() > 0 {
        assert((s + t).drop_last() =~= s + t.drop_last());
        assert((s + t).last() == t[t.len() - 1]);
        lemma_gather_append_none(s, t.drop_last(), f);
    } else {
        assert(s + t =~= s);
    }
}

/// Appending elements that fail `p` changes no count.
pub proof fn lemma_count_where_append_false<A>(s: Seq<A>, t: Seq<A>, p: spec_fn(A) -> bool)
    requires
        forall|i: int| 0 <= i < t.len() ==> !p(#[trigger] t[i]),
    ensures
        count_where(s + t, p) == count_where(s, p),
    decreases t.len(),
{
    if t.len() > 0 {
        assert((s + t).drop_last() =~= s + t.drop_last());
        assert((s + t).last() == t[t.len() - 1]);
        lemma_count_where_append_false(s, t.drop_last(), p);
    } else {
        assert(s + t =~= s);
    }
}

/// Predicates that agree everywhere count the same elements.
pub proof fn lemma_count_where_ext<A>(s: Seq<A>, p: spec_fn(A) -> bool, q: spec_fn(A) -> bool)
    requires
        forall|a: A| #[trigger] p(a) == q(a),
    ensures
        count_where(s, p) == count_where(s, q),
    decreases s.len(),
{
    if s.len() > 0 {
        lemma_count_where_ext(s.drop_last(), p, q);
        assert(p(s.last()) == q(s.last()));
    }
}

/// `f` picks as many values as there are elements it picks one from.
pub proof fn lemma_gather_len_count<A, B>(s: Seq<A>, f: spec_fn(A) -> Option<B>, p: spec_fn(A) -> bool)
    requires
        forall|a: A| #[trigger] p(a) == f(a) is Some,
    ensures
        gather(s, f).len() == count_where(s, p),
    decreases s.len(),
{
    if s.len() > 0 {
        lemma_gather_len_count(s.drop_last(), f, p);
        assert(p(s.last()) == f(s.last()) is Some);
    }
}

/// No element satisfies `p`: none is counted.
pub proof fn lemma_count_where_none<A>(s: Seq<A>, p: spec_fn(A) -> bool)
    requires
        forall|i: int| 0 <= i < s.len() ==> !p(#[trigger] s[i]),
    ensures
        count_where(s, p) == 0,
    decreases s.len(),
{
    if s.len() > 0 {
        assert(!p(s[s.len() - 1]));
        lemma_count_where_none(s.drop_last(), p);
    }
}

/// Elements satisfying either of two exclusive predicates are counted by each.
pub proof fn lemma_count_where_or<A>(
    s: Seq<A>,
    p: spec_fn(A) -> bool,
    q: spec_fn(A) -> bool,
    r: spec_fn(A) -> bool,
)
    requires
        forall|a: A| #[trigger] r(a) == (p(a) || q(a)),
        forall|a: A| !(#[trigger] p(a) && q(a)),
    ensures
        count_where(s, r) == count_where(s, p) + count_where(s, q),
    decreases s.len(),
{
    if s.len() > 0 {
        lemma_count_where_or(s.drop_last(), p, q, r);
        let x = s.last();
        assert(r(x) == (p(x) || q(x)));
        assert(!(p(x) && q(x)));
    }
}

/// Removing the element at `j` takes it out of every count.
pub proof fn lemma_count_where_remove<A>(s: Seq<A>, j: int, p: spec_fn(A) -> bool)
    requires
        0 <= j < s.len(),
    ensures
        count_where(s, p) == count_where(s.remove(j), p) + if p(s[j]) {
            1nat
        } else {
            0nat
        },
    decreases s.len(),
{
    if j == s.len() - 1 {
        assert(s.remove(j) =~= s.drop_last());
    } else {
        lemma_count_where_remove(s.drop_last(), j, p);
        assert(s.remove(j).drop_last() =~= s.drop_last().remove(j));
        assert(s.remove(j).last() == s.last());
    }
}

/// Sequences holding the same elements count the same elements.
pub proof fn lemma_count_where_same_multiset<A>(s: Seq<A>, t: Seq<A>, p: spec_fn(A) -> bool)
    requires
        s.to_multiset() == t.to_multiset(),
    ensures
        count_where(s, p) == count_where(t, p),
    decreases s.len(),
{
    broadcast use vstd::multiset::group_multiset_axioms;

    vstd::seq_lib::to_multiset_len(s);
    vstd::seq_lib::to_multiset_len(t);
    if s.len() > 0 {
        let x = s.last();
        let d = s.drop_last();
        assert(s == d.push(x));
        vstd::seq_lib::to_multiset_build(d, x);
        vstd::seq_lib::to_multiset_contains(t, x);
        assert(t.to_multiset().count(x) > 0);
        assert(t.contains(x));
        let j = choose|j: int| 0 <= j < t.len() && t[j] == x;
        vstd::seq_lib::to_multiset_remove(t, j);
        assert(d.to_multiset() =~= t.remove(j).to_multiset());
        lemma_count_where_same_multiset(d, t.remove(j), p);
        lemma_count_where_remove(t, j, p);
    }
}

/// When no element before position `k` satisfies `p`, at most the rest do.
pub proof fn lemma_count_where_not_before<A>(s: Seq<A>, p: spec_fn(A) -> bool, k: int)
    requires
        0 <= k <= s.len(),
        forall|i: int| 0 <= i < k ==> !p(#[trigger] s[i]),
    ensures
        count_where(s, p) <= s.len() - k,
    decreases s.len(),
{
    if s.len() == k {
        lemma_count_where_none(s, p);
    } else {
        lemma_count_where_not_before(s.drop_last(), p, k);
    }
}

/// When no element from position `k` on satisfies `p`, at most `k` do.
pub proof fn lemma_count_where_not_from<A>(s: Seq<A>, p: spec_fn(A) -> bool, k: int)
    requires
        0 <= k <= s.len(),
        forall|i: int| k <= i < s.len() ==> !p(#[trigger] s[i]),
    ensures
        count_where(s, p) <= k,
    decreases s.len(),
{
    if s.len() == k {
        lemma_count_where_le(s, p);
    } else {
        assert(!p(s[s.len() - 1]));
        lemma_count_where_not_from(s.drop_last(), p, k);
    }
}

pub proof fn lemma_total_push(s: Seq<i64>, x: i64)
    ensures
        total(s.push(x)) == total(s) + x,
{
    assert(s.push(x).drop_last() =~= s);
}

/// Sum of a sequence of integers.
pub open spec fn sum_ints(s: Seq<int>) -> int
    decreases s.len(),
{
    if s.len() == 0 {
        0
    } else {
        sum_ints(s.drop_last()) + s.last()
    }
}

/// Removing an element takes it out of the sum.
pub proof fn lemma_sum_remove(s: Seq<int>, j: int)
    requires
        0 <= j < s.len(),
    ensures
        sum_ints(s) == sum_ints(s.remove(j)) + s[j],
    decreases s.len(),
{
    if j < s.len() - 1 {
        let d = s.drop_last();
        lemma_sum_remove(d, j);
        assert(s.remove(j).drop_last() =~= d.remove(j));
        assert(s.remove(j).last() == s.last());
    } else {
        assert(s.remove(j) =~= s.drop_last());
    }
}

/// `p` lists each of `0..n` exactly once.
pub open spec fn is_permutation(p: Seq<int>, n: int) -> bool {
    &&& p.len() == n
    &&& forall|i: int| 0 <= i < p.len() ==> 0 <= #[trigger] p[i] < n
    &&& forall|i: int, j: int| 0 <= i < j < p.len() ==> #[trigger] p[i] != #[trigger] p[j]
}

/// Removing the entry at `j` from a permutation of `0..n` whose entry there is
/// `n - 1` leaves a permutation of `0..n-1`.
proof fn lemma_permutation_remove_top(p: Seq<int>, n: int, j: int)
    requires
        is_permutation(p, n),
        0 <= j < p.len(),
        p[j] == n - 1,
    ensures
        is_permutation(p.remove(j), n - 1),
{
    let q = p.remove(j);
    assert forall|i: int| 0 <= i < q.len() implies 0 <= #[trigger] q[i] < n - 1 by {
        if i < j {
            assert(q[i] == p[i]);
        } else {
            assert(q[i] == p[i + 1]);
        }
    }
    assert forall|a: int, b: int| 0 <= a < b < q.len() implies #[trigger] q[a] != #[trigger] q[b] by {
        let pa = if a < j {
            a
        } else {
            a + 1
        };
        let pb = if b < j {
            b
        } else {
            b + 1
        };
        assert(q[a] == p[pa]);
        assert(q[b] == p[pb]);
    }
}

/// A permutation of `0..n` contains every one of them.
pub proof fn lemma_permutation_covers(p: Seq<int>, n: int, x: int)
    requires
        is_permutation(p, n),
        0 <= x < n,
    ensures
        p.contains(x),
    decreases n,
{
    if !p.contains(x) {
        if p.contains(n - 1) {
            let j = choose|j: int| 0 <= j < p.len() && p[j] == n - 1;
            lemma_permutation_remove_top(p, n, j);
            let q = p.remove(j);
            if x < n - 1 {
                lemma_permutation_covers(q, n - 1, x);
                let i = choose|i: int| 0 <= i < q.len() && q[i] == x;
                if i < j {
                    assert(p[i] == x);
                } else {
                    assert(p[i + 1] == x);
                }
            }
            assert(false);
        } else {
            // n distinct entries below n - 1: the last one repeats an earlier one
            let q = p.drop_last();
            let y = p[n - 1];
            assert(is_permutation(q, n - 1)) by {
                assert forall|i: int| 0 <= i < q.len() implies 0 <= #[trigger] q[i] < n - 1 by {
                    assert(q[i] == p[i]);
                    assert(p[i] != n - 1);
                }
                assert forall|a: int, b: int| 0 <= a < b < q.len() implies #[trigger] q[a]
                    != #[trigger] q[b] by {
                    assert(q[a] == p[a]);
                    assert(q[b] == p[b]);
                }
            }
            assert(p[n - 1] != n - 1);
            lemma_permutation_covers(q, n - 1, y);
            let i = choose|i: int| 0 <= i < q.len() && q[i] == y;
            assert(p[i] == p[n - 1]);
            assert(false);
        }
    }
}

/// Summing values in the order of a permutation gives their sum.
pub proof fn lemma_sum_permuted(f: Seq<int>, p: Seq<int>)
    requires
        is_permutation(p, f.len() as int),
    ensures
        sum_ints(p.map_values(|x: int| f[x])) == sum_ints(f),
    decreases f.len(),
{
    let n = f.len() as int;
    if n == 0 {
        assert(p.map_values(|x: int| f[x]) =~= Seq::<int>::empty());
    } else {
        lemma_permutation_covers(p, n, n - 1);
        let j = choose|j: int| 0 <= j < p.len() && p[j] == n - 1;
        let q = p.remove(j);
        let g = f.drop_last();
        lemma_permutation_remove_top(p, n, j);
        lemma_sum_permuted(g, q);
        let m = p.map_values(|x: int| f[x]);
        lemma_sum_remove(m, j);
        assert(m.remove(j) =~= q.map_values(|x: int| g[x])) by {
            assert forall|i: int| 0 <= i < q.len() implies #[trigger] m.remove(j)[i] == q.map_values(
                |x: int| g[x],
            )[i] by {
                if i < j {
                    assert(m.remove(j)[i] == m[i]);
                } else {
                    assert(m.remove(j)[i] == m[i + 1]);
                }
            }
        }
    }
}

} // verus!
