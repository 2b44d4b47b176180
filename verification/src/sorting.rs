//! Sorting: ascending order of integers, and ranking of positions by a key.
use vstd::prelude::*;
use vstd::relations::{sorted_by, total_ordering};
use vstd::seq_lib::lemma_sorted_unique;

verus! {

broadcast use vstd::seq_lib::group_to_multiset_ensures;

/// The usual order on `i64`.
pub open spec fn leq_i64() -> spec_fn(i64, i64) -> bool {
    |a: i64, b: i64| a <= b
}

/// `s` in ascending order.
pub open spec fn ascending(s: Seq<i64>) -> Seq<i64> {
    s.sort_by(leq_i64())
}

pub proof fn lemma_le_i64_total()
    ensures
        total_ordering(leq_i64()),
{
}

/// In an ascending sequence an earlier element is not larger than a later one.
pub proof fn lemma_sorted_le(s: Seq<i64>, i: int, j: int)
    requires
        sorted_by(s, leq_i64()),
        0 <= i <= j < s.len(),
    ensures
        s[i] <= s[j],
{
    if i < j {
        assert(leq_i64()(s[i], s[j]));
    }
}

/// Facts about `ascending(s)`: it is sorted and holds the same elements.
pub proof fn lemma_ascending(s: Seq<i64>)
    ensures
        sorted_by(ascending(s), leq_i64()),
        ascending(s).to_multiset() == s.to_multiset(),
        ascending(s).len() == s.len(),
{
    lemma_le_i64_total();
    s.lemma_sort_by_ensures(leq_i64());
    s.to_multiset_ensures();
    ascending(s).to_multiset_ensures();
}

/// Any ascending arrangement of the elements of `s` is `ascending(s)`.
pub proof fn lemma_ascending_unique(s: Seq<i64>, t: Seq<i64>)
    requires
        sorted_by(t, leq_i64()),
        t.to_multiset() == s.to_multiset(),
    ensures
        t == ascending(s),
{
    lemma_ascending(s);
    lemma_le_i64_total();
    lemma_sorted_unique(t, ascending(s), leq_i64());
}

/// Returns the values of `v` in ascending order.
pub fn sort_ascending(v: &Vec<i64>) -> (out: Vec<i64>)
    ensures
        out@ == ascending(v@),
{
    let mut out: Vec<i64> = Vec::new();
    let n = v.len();
    let mut i: usize = 0;
    while i < n
        invariant
            n == v@.len(),
            i <= n,
            forall|a: int, b: int| 0 <= a < b < out@.len() ==> out@[a] <= out@[b],
            out@.to_multiset() == v@.take(i as int).to_multiset(),
        decreases n - i,
    {
        let x = v[i];
        let mut pos: usize = 0;
        while pos < out.len() && out[pos] <= x
            invariant
                pos <= out@.len(),
                forall|k: int| 0 <= k < pos ==> out@[k] <= x,
            decreases out@.len() - pos,
        {
            pos = pos + 1;
        }
        let ghost before = out@;
        proof {
            // every element at or after `pos` exceeds `x`
            assert forall|k: int| pos <= k < before.len() implies before[k] > x by {
                if k > pos {
                    assert(before[pos as int] <= before[k]);
                }
            }
        }
        out.insert(pos, x);
        proof {
            before.insert_ensures(pos as int, x);
            vstd::seq_lib::to_multiset_insert(before, pos as int, x);
            assert(v@.take(i + 1) =~= v@.take(i as int).push(x));
            v@.take(i as int).to_multiset_ensures();
            assert forall|a: int, b: int| 0 <= a < b < out@.len() implies out@[a] <= out@[b] by {
                if a < pos && b < pos {
                    assert(before[a] <= before[b]);
                } else if a < pos && b == pos {
                } else if a < pos && b > pos {
                    assert(before[b - 1] > x);
                } else if a == pos {
                    assert(before[b - 1] > x);
                } else {
                    assert(before[a - 1] <= before[b - 1]);
                }
            }
        }
        i = i + 1;
    }
    proof {
        assert(v@.take(n as int) =~= v@);
        assert forall|a: int, b: int| 0 <= a < b < out@.len() implies #[trigger] leq_i64()(
            out@[a],
            out@[b],
        ) by {}
        lemma_ascending_unique(v@, out@);
    }
    out
}

/// Ranking order on positions `a`, `b` of `keys`: larger key first, and the
/// earlier position first among equal keys.
pub open spec fn rank_le(keys: Seq<i128>, a: usize, b: usize) -> bool {
    keys[a as int] > keys[b as int] || (keys[a as int] == keys[b as int] && a <= b)
}

/// The positions `0..n` of `keys`, by descending key; equal keys keep their
/// input order (a stable descending sort).
pub open spec fn ranked(keys: Seq<i128>) -> Seq<usize> {
    Seq::new(keys.len(), |i: int| i as usize).sort_by(|a: usize, b: usize| rank_le(keys, a, b))
}

pub proof fn lemma_rank_le_total(keys: Seq<i128>)
    ensures
        total_ordering(|a: usize, b: usize| rank_le(keys, a, b)),
{
}

/// Facts about `ranked(keys)`: a permutation of `0..n` sorted by `rank_le`.
pub proof fn lemma_ranked(keys: Seq<i128>)
    requires
        keys.len() <= usize::MAX,
    ensures
        ranked(keys).len() == keys.len(),
        sorted_by(ranked(keys), |a: usize, b: usize| rank_le(keys, a, b)),
        forall|i: int, j: int|
            0 <= i < j < keys.len() ==> rank_le(keys, #[trigger] ranked(keys)[i], #[trigger] ranked(keys)[j]),
        forall|i: int| 0 <= i < keys.len() ==> (#[trigger] ranked(keys)[i]) < keys.len(),
        forall|i: int, j: int|
            0 <= i < j < keys.len() ==> (#[trigger] ranked(keys)[i]) != #[trigger] ranked(
                keys,
            )[j],
        forall|x: int| 0 <= x < keys.len() ==> #[trigger] ranked(keys).contains(x as usize),
{
    let ids = Seq::new(keys.len(), |i: int| i as usize);
    let leq = |a: usize, b: usize| rank_le(keys, a, b);
    lemma_rank_le_total(keys);
    ids.lemma_sort_by_ensures(leq);
    ids.to_multiset_ensures();
    ranked(keys).to_multiset_ensures();
    assert forall|i: int| 0 <= i < keys.len() implies (#[trigger] ranked(keys)[i]) < keys.len() by {
        assert(ranked(keys).contains(ranked(keys)[i]));
        assert(ids.contains(ranked(keys)[i]));
    }
    assert forall|x: int| 0 <= x < keys.len() implies #[trigger] ranked(keys).contains(x as usize) by {
        assert(ids[x] == x as usize);
        assert(ids.contains(x as usize));
        assert(ids.to_multiset().count(x as usize) > 0);
        assert(ranked(keys).to_multiset().count(x as usize) > 0);
    }
    assert forall|i: int, j: int| 0 <= i < j < keys.len() implies rank_le(
        keys,
        #[trigger] ranked(keys)[i],
        #[trigger] ranked(keys)[j],
    ) by {
        assert(leq(ranked(keys)[i], ranked(keys)[j]));
    }
    assert forall|i: int, j: int| 0 <= i < j < keys.len() implies (#[trigger] ranked(keys)[i])
        != #[trigger] ranked(keys)[j] by {
        assert(leq(ranked(keys)[i], ranked(keys)[j]));
        if ranked(keys)[i] == ranked(keys)[j] {
            // two equal entries would make some index occur twice
            let r = ranked(keys);
            let x = r[i];
            assert(r.to_multiset().count(x) >= 2) by {
                lemma_count_two(r, i, j);
            }
            lemma_ids_count_one(keys.len() as int, x);
        }
    }
}

proof fn lemma_count_two(s: Seq<usize>, i: int, j: int)
    requires
        0 <= i < j < s.len(),
        s[i] == s[j],
    ensures
        s.to_multiset().count(s[i]) >= 2,
    decreases s.len(),
{
    broadcast use vstd::multiset::group_multiset_axioms;

    let x = s[i];
    let d = s.drop_last();
    assert(s =~= d.push(s.last()));
    vstd::seq_lib::to_multiset_build(d, s.last());
    if j == s.len() - 1 {
        d.to_multiset_ensures();
        assert(d.contains(x)) by {
            assert(d[i] == x);
        }
    } else {
        lemma_count_two(d, i, j);
    }
}

proof fn lemma_ids_count_one(n: int, x: usize)
    requires
        0 <= n <= usize::MAX + 1,
    ensures
        Seq::new(n as nat, |i: int| i as usize).to_multiset().count(x) <= 1,
    decreases n,
{
    broadcast use vstd::multiset::group_multiset_axioms;

    let ids = Seq::new(n as nat, |i: int| i as usize);
    if n > 0 {
        let prev = Seq::new((n - 1) as nat, |i: int| i as usize);
        assert(ids =~= prev.push((n - 1) as usize));
        vstd::seq_lib::to_multiset_build(prev, (n - 1) as usize);
        lemma_ids_count_one(n - 1, x);
        if x == (n - 1) as usize {
            prev.to_multiset_ensures();
            if prev.contains(x) {
                let k = choose|k: int| 0 <= k < prev.len() && prev[k] == x;
                assert(prev[k] == k as usize);
            }
        }
    } else {
        assert(ids =~= Seq::<usize>::empty());
    }
}

/// The positions of `keys` by descending key, ties in input order.
pub fn rank_desc(keys: &Vec<i128>) -> (out: Vec<usize>)
    ensures
        out@ == ranked(keys@),
{
    let n = keys.len();
    let ghost leq = |a: usize, b: usize| rank_le(keys@, a, b);
    let ghost ids = Seq::new(n as nat, |i: int| i as usize);
    let mut out: Vec<usize> = Vec::new();
    let mut i: usize = 0;
    while i < n
        invariant
            n == keys@.len(),
            i <= n,
            ids == Seq::new(n as nat, |i: int| i as usize),
            leq == (|a: usize, b: usize| rank_le(keys@, a, b)),
            forall|a: int, b: int| 0 <= a < b < out@.len() ==> rank_le(keys@, out@[a], out@[b]),
            out@.to_multiset() == ids.take(i as int).to_multiset(),
            forall|k: int| 0 <= k < out@.len() ==> (#[trigger] out@[k]) < i,
        decreases n - i,
    {
        let key = keys[i];
        let mut pos: usize = 0;
        while pos < out.len() && keys[out[pos]] >= key
            invariant
                n == keys@.len(),
                pos <= out@.len(),
                forall|k: int| 0 <= k < out@.len() ==> (#[trigger] out@[k]) < i,
                i < n,
                forall|k: int| 0 <= k < pos ==> keys@[out@[k] as int] >= key,
            decreases out@.len() - pos,
        {
            pos = pos + 1;
        }
        let ghost before = out@;
        proof {
            assert forall|k: int| pos <= k < before.len() implies keys@[before[k] as int] < key by {
                if k > pos {
                    assert(rank_le(keys@, before[pos as int], before[k]));
                }
            }
        }
        out.insert(pos, i);
        proof {
            before.insert_ensures(pos as int, i);
            vstd::seq_lib::to_multiset_insert(before, pos as int, i);
            assert(ids.take(i + 1) =~= ids.take(i as int).push(i));
            ids.take(i as int).to_multiset_ensures();
            assert forall|a: int, b: int| 0 <= a < b < out@.len() implies rank_le(
                keys@,
                out@[a],
                out@[b],
            ) by {
                if a < pos && b < pos {
                    assert(rank_le(keys@, before[a], before[b]));
                } else if a < pos && b == pos {
                    assert(before[a] < i);
                } else if a < pos && b > pos {
                    assert(keys@[before[b - 1] as int] < key);
                } else if a == pos {
                    assert(keys@[before[b - 1] as int] < key);
                } else {
                    assert(rank_le(keys@, before[a - 1], before[b - 1]));
                }
            }
        }
        i = i + 1;
    }
    proof {
        assert(ids.take(n as int) =~= ids);
        assert forall|a: int, b: int| 0 <= a < b < out@.len() implies #[trigger] leq(
            out@[a],
            out@[b],
        ) by {}
        lemma_ranked(keys@);
        lemma_rank_le_total(keys@);
        ids.lemma_sort_by_ensures(leq);
        lemma_sorted_unique(out@, ranked(keys@), leq);
    }
    out
}

} // verus!
