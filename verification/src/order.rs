//! Stable ordering of results by distance, then by a rank.

use vstd::prelude::*;

verus! {

/// The place of a result in an ordering: its distance key first (see
/// `geo::distance_key`), then its rank.
#[derive(Clone, Copy, Debug, PartialEq, Eq)]
pub struct SortKey {
    /// Where the result's distance falls.
    pub distance: i128,
    /// A tie-breaker among equal distances; lower comes first.
    pub rank: usize,
}

/// Whether a result with key `a` goes strictly before one with key `b`.
pub open spec fn key_before(a: SortKey, b: SortKey) -> bool {
    a.distance < b.distance || (a.distance == b.distance && a.rank < b.rank)
}

/// Tests whether key `a` goes strictly before key `b`.
pub fn before(a: SortKey, b: SortKey) -> (r: bool)
    ensures
        r == key_before(a, b),
{
    a.distance < b.distance || (a.distance == b.distance && a.rank < b.rank)
}

/// Where a result with key `k` goes in `s`: before the first entry that goes
/// strictly after it.
pub open spec fn insert_index<T>(s: Seq<(SortKey, T)>, k: SortKey) -> int
    decreases s.len(),
{
    if s.len() == 0 {
        0
    } else if key_before(k, s[0].0) {
        0
    } else {
        1 + insert_index(s.drop_first(), k)
    }
}

/// `s` sorted stably by key: each entry, in turn, goes after every entry before
/// it whose key is not after its own.
pub open spec fn sorted_by_key<T>(s: Seq<(SortKey, T)>) -> Seq<(SortKey, T)>
    decreases s.len(),
{
    if s.len() == 0 {
        s
    } else {
        let r = sorted_by_key(s.drop_last());
        r.insert(insert_index(r, s.last().0), s.last())
    }
}

/// Whether no entry of `s` goes strictly before an entry ahead of it.
pub open spec fn is_ordered<T>(s: Seq<(SortKey, T)>) -> bool {
    forall|i: int, j: int| 0 <= i < j < s.len() ==> !key_before(#[trigger] s[j].0, #[trigger] s[i].0)
}

proof fn lemma_insert_index<T>(s: Seq<(SortKey, T)>, k: SortKey)
    ensures
        0 <= insert_index(s, k) <= s.len(),
        forall|i: int| 0 <= i < insert_index(s, k) ==> !key_before(k, #[trigger] s[i].0),
        insert_index(s, k) < s.len() ==> key_before(k, s[insert_index(s, k)].0),
    decreases s.len(),
{
    if s.len() > 0 && !key_before(k, s[0].0) {
        lemma_insert_index(s.drop_first(), k);
        assert forall|i: int| 0 <= i < insert_index(s, k) implies !key_before(k, #[trigger] s[i].0) by {
            if i > 0 {
                assert(s[i] == s.drop_first()[i - 1]);
            }
        }
    }
}

/// Sorting keeps the number of entries.
pub proof fn lemma_sorted_len<T>(s: Seq<(SortKey, T)>)
    ensures
        sorted_by_key(s).len() == s.len(),
    decreases s.len(),
{
    if s.len() > 0 {
        let r = sorted_by_key(s.drop_last());
        lemma_sorted_len(s.drop_last());
        lemma_insert_index(r, s.last().0);
    }
}

/// Sorting orders the entries: no entry goes strictly before an entry ahead of it.
pub proof fn lemma_sorted_is_ordered<T>(s: Seq<(SortKey, T)>)
    ensures
        is_ordered(sorted_by_key(s)),
    decreases s.len(),
{
    if s.len() > 0 {
        let r = sorted_by_key(s.drop_last());
        let x = s.last();
        lemma_sorted_is_ordered(s.drop_last());
        lemma_insert_index(r, x.0);
        let p = insert_index(r, x.0);
        let t = r.insert(p, x);
        assert forall|i: int, j: int| 0 <= i < j < t.len() implies !key_before(
            #[trigger] t[j].0,
            #[trigger] t[i].0,
        ) by {
            if j < p {
                assert(t[i] == r[i] && t[j] == r[j]);
            } else if j == p {
                assert(t[i] == r[i]);
            } else if i == p {
                assert(t[j] == r[j - 1]);
                if j - 1 > p {
                    assert(!key_before(r[j - 1].0, r[p].0));
                }
            } else if i < p {
                assert(t[i] == r[i] && t[j] == r[j - 1]);
            } else {
                assert(t[i] == r[i - 1] && t[j] == r[j - 1]);
            }
        }
    }
}

/// Sorting moves entries without changing them: it permutes `s`.
pub proof fn lemma_sorted_is_permutation<T>(s: Seq<(SortKey, T)>)
    ensures
        sorted_by_key(s).to_multiset() == s.to_multiset(),
    decreases s.len(),
{
    broadcast use vstd::seq_lib::group_to_multiset_ensures;

    if s.len() > 0 {
        let r = sorted_by_key(s.drop_last());
        let x = s.last();
        lemma_sorted_is_permutation(s.drop_last());
        lemma_insert_index(r, x.0);
        let p = insert_index(r, x.0);
        let t = r.insert(p, x);
        assert(t =~= r.subrange(0, p).push(x) + r.subrange(p, r.len() as int));
        vstd::seq_lib::lemma_multiset_commutative(r.subrange(0, p).push(x), r.subrange(p, r.len() as int));
        vstd::seq_lib::lemma_multiset_commutative(r.subrange(0, p), r.subrange(p, r.len() as int));
        assert(r =~= r.subrange(0, p) + r.subrange(p, r.len() as int));
        assert(s =~= s.drop_last().push(x));
    }
}

/// Whether an entry has key `k`.
pub open spec fn has_key<T>(k: SortKey) -> spec_fn((SortKey, T)) -> bool {
    |e: (SortKey, T)| e.0 == k
}

/// The entries of `s` with key `k`, in their order in `s`.
pub open spec fn with_key<T>(s: Seq<(SortKey, T)>, k: SortKey) -> Seq<(SortKey, T)> {
    s.filter(has_key(k))
}

/// Filtering keeps nothing of a sequence none of whose entries passes.
proof fn lemma_filter_none<T>(s: Seq<(SortKey, T)>, k: SortKey)
    requires
        forall|i: int| 0 <= i < s.len() ==> (#[trigger] s[i]).0 != k,
    ensures
        with_key(s, k) == Seq::<(SortKey, T)>::empty(),
    decreases s.len(),
{
    reveal(Seq::filter);
    if s.len() > 0 {
        lemma_filter_none(s.drop_last(), k);
    }
}

/// Sorting is stable: the entries with any one key keep the order they came in.
pub proof fn law_sort_keeps_ties_in_order<T>(s: Seq<(SortKey, T)>, k: SortKey)
    ensures
        with_key(sorted_by_key(s), k) == with_key(s, k),
    decreases s.len(),
{
    reveal(Seq::filter);
    if s.len() > 0 {
        let d = s.drop_last();
        let x = s.last();
        let r = sorted_by_key(d);
        law_sort_keeps_ties_in_order(d, k);
        lemma_sorted_is_ordered(d);
        lemma_insert_index(r, x.0);
        let p = insert_index(r, x.0);
        let pred = has_key::<T>(k);
        let front = r.take(p);
        let back = r.skip(p);
        let one = seq![x];
        assert(sorted_by_key(s) == r.insert(p, x));
        assert(r.insert(p, x) =~= front + (one + back));
        assert(r =~= front + back);
        Seq::filter_distributes_over_add(front, one + back, pred);
        Seq::filter_distributes_over_add(one, back, pred);
        Seq::filter_distributes_over_add(front, back, pred);
        assert(one.drop_last() =~= Seq::<(SortKey, T)>::empty());
        assert(one.last() == x);
        assert(with_key(r, k) == with_key(front, k) + with_key(back, k));
        assert(with_key(sorted_by_key(s), k) == with_key(front, k) + (with_key(one, k)
            + with_key(back, k)));
        if x.0 == k {
            assert forall|j: int| 0 <= j < back.len() implies (#[trigger] back[j]).0 != k by {
                assert(back[j] == r[p + j]);
                if j > 0 {
                    assert(!key_before(r[p + j].0, r[p].0));
                }
            }
            lemma_filter_none(back, k);
            assert(with_key(one, k) =~= seq![x]);
            assert(with_key(s, k) == with_key(d, k).push(x));
            assert(with_key(front, k) + (seq![x] + Seq::<(SortKey, T)>::empty())
                =~= (with_key(front, k) + Seq::<(SortKey, T)>::empty()).push(x));
        } else {
            assert(!pred(x));
            assert(one.drop_last().filter(pred) == one.drop_last());
            assert(with_key(one, k) =~= Seq::<(SortKey, T)>::empty());
            assert(with_key(s, k) == with_key(d, k));
            assert(with_key(front, k) + (Seq::<(SortKey, T)>::empty() + with_key(back, k))
                =~= with_key(front, k) + with_key(back, k));
        }
    }
}

/// Sorting keeps every property that all entries have.
pub proof fn lemma_sorted_all<T>(s: Seq<(SortKey, T)>, p: spec_fn((SortKey, T)) -> bool)
    requires
        forall|i: int| 0 <= i < s.len() ==> p(#[trigger] s[i]),
    ensures
        forall|i: int| 0 <= i < sorted_by_key(s).len() ==> p(#[trigger] sorted_by_key(s)[i]),
    decreases s.len(),
{
    if s.len() > 0 {
        let r = sorted_by_key(s.drop_last());
        assert forall|i: int| 0 <= i < s.drop_last().len() implies p(#[trigger] s.drop_last()[i]) by {
            assert(s.drop_last()[i] == s[i]);
        }
        lemma_sorted_all(s.drop_last(), p);
        lemma_insert_index(r, s.last().0);
        let k = insert_index(r, s.last().0);
        let t = r.insert(k, s.last());
        assert(p(s[s.len() - 1]));
        assert forall|i: int| 0 <= i < t.len() implies p(#[trigger] t[i]) by {
            if i < k {
                assert(t[i] == r[i]);
            } else if i > k {
                assert(t[i] == r[i - 1]);
            }
        }
    }
}

/// Sorting depends on the keys only: sorting entries whose payload was mapped
/// gives the sorted entries with their payload mapped.
pub proof fn lemma_sorted_map<T, U>(s: Seq<(SortKey, T)>, f: spec_fn(T) -> U)
    ensures
        sorted_by_key(s.map_values(|p: (SortKey, T)| (p.0, f(p.1)))) == sorted_by_key(s).map_values(
            |p: (SortKey, T)| (p.0, f(p.1)),
        ),
    decreases s.len(),
{
    let g = |p: (SortKey, T)| (p.0, f(p.1));
    let m = s.map_values(g);
    if s.len() > 0 {
        lemma_sorted_map(s.drop_last(), f);
        assert(m.drop_last() =~= s.drop_last().map_values(g));
        let r = sorted_by_key(s.drop_last());
        let rm = r.map_values(g);
        assert(sorted_by_key(m.drop_last()) == rm);
        lemma_insert_index_map(r, s.last().0, f);
        let p = insert_index(r, s.last().0);
        lemma_insert_index(r, s.last().0);
        assert(rm.insert(p, g(s.last())) =~= r.insert(p, s.last()).map_values(g));
        assert(m.last() == g(s.last()));
    } else {
        assert(m =~= s.map_values(g));
    }
}

proof fn lemma_insert_index_map<T, U>(s: Seq<(SortKey, T)>, k: SortKey, f: spec_fn(T) -> U)
    ensures
        insert_index(s.map_values(|p: (SortKey, T)| (p.0, f(p.1))), k) == insert_index(s, k),
    decreases s.len(),
{
    let g = |p: (SortKey, T)| (p.0, f(p.1));
    if s.len() > 0 {
        lemma_insert_index_map(s.drop_first(), k, f);
        assert(s.map_values(g).drop_first() =~= s.drop_first().map_values(g));
    }
}

/// Sorts entries stably by key (insertion sort).
pub fn sort_by_key<T>(v: Vec<(SortKey, T)>) -> (r: Vec<(SortKey, T)>)
    ensures
        r@ == sorted_by_key(v@),
{
    let ghost all = v@;
    let mut rest = v;
    let mut sorted: Vec<(SortKey, T)> = Vec::new();
    let n = rest.len();
    let mut i: usize = 0;
    assert(all.take(0) =~= Seq::<(SortKey, T)>::empty());
    assert(all.skip(0) =~= all);
    while i < n
        invariant
            i <= n,
            n == all.len(),
            rest@ == all.skip(i as int),
            sorted@ == sorted_by_key(all.take(i as int)),
        decreases n - i,
    {
        let entry = rest.remove(0);
        assert(entry == all[i as int]);
        assert(rest@ =~= all.skip(i + 1));
        let ghost prefix = all.take(i as int);
        assert(all.take(i + 1).drop_last() =~= prefix);
        assert(all.take(i + 1).last() == entry);
        proof {
            lemma_sorted_len(prefix);
            lemma_insert_index(sorted@, entry.0);
        }
        let mut p: usize = 0;
        assert(sorted@.skip(0) =~= sorted@);
        while p < sorted.len() && !before(entry.0, sorted[p].0)
            invariant
                p <= sorted@.len(),
                insert_index(sorted@, entry.0) == p + insert_index(sorted@.skip(p as int), entry.0),
            decreases sorted@.len() - p,
        {
            assert(sorted@.skip(p as int).drop_first() =~= sorted@.skip(p + 1));
            p = p + 1;
        }
        proof {
            if p == sorted@.len() {
                assert(sorted@.skip(p as int).len() == 0);
            }
        }
        assert(p == insert_index(sorted@, entry.0));
        sorted.insert(p, entry);
        i = i + 1;
    }
    assert(all.take(n as int) =~= all);
    sorted
}

/// The payloads of keyed entries, in order.
pub open spec fn payloads<T>(s: Seq<(SortKey, T)>) -> Seq<T> {
    s.map_values(|p: (SortKey, T)| p.1)
}

/// Drops the keys of sorted entries.
pub fn strip_keys<T>(v: Vec<(SortKey, T)>) -> (r: Vec<T>)
    ensures
        r@ == payloads(v@),
{
    let ghost all = v@;
    let mut rest = v;
    let mut out: Vec<T> = Vec::new();
    let n = rest.len();
    let mut i: usize = 0;
    assert(all.skip(0) =~= all);
    while i < n
        invariant
            i <= n,
            n == all.len(),
            rest@ == all.skip(i as int),
            out@ == payloads(all.take(i as int)),
        decreases n - i,
    {
        let entry = rest.remove(0);
        assert(entry == all[i as int]);
        assert(rest@ =~= all.skip(i + 1));
        out.push(entry.1);
        assert(out@ =~= payloads(all.take(i + 1)));
        i = i + 1;
    }
    assert(all.take(n as int) =~= all);
    out
}

/// `s` cut to its first `n` entries, or all of `s` when it has no more than `n`.
pub open spec fn truncated<T>(s: Seq<T>, n: nat) -> Seq<T> {
    if n < s.len() {
        s.take(n as int)
    } else {
        s
    }
}

/// Whether the payloads of `s`, placed by `key`, are in order.
pub open spec fn ordered_by<T>(s: Seq<T>, key: spec_fn(T) -> SortKey) -> bool {
    forall|i: int, j: int| 0 <= i < j < s.len() ==> !key_before(key(#[trigger] s[j]), key(#[trigger] s[i]))
}

/// When every entry is keyed by `key` of its payload, the first `n` payloads of
/// the sorted entries are in order by `key`, and there are at most `n` of them.
pub proof fn lemma_sorted_payloads_ordered<T>(s: Seq<(SortKey, T)>, key: spec_fn(T) -> SortKey, n: nat)
    requires
        forall|i: int| 0 <= i < s.len() ==> (#[trigger] s[i]).0 == key(s[i].1),
    ensures
        ordered_by(truncated(payloads(sorted_by_key(s)), n), key),
        truncated(payloads(sorted_by_key(s)), n).len() <= n,
        truncated(payloads(sorted_by_key(s)), n).len() <= s.len(),
{
    let sorted = sorted_by_key(s);
    lemma_sorted_len(s);
    lemma_sorted_is_ordered(s);
    let p = |e: (SortKey, T)| e.0 == key(e.1);
    assert forall|i: int| 0 <= i < s.len() implies p(#[trigger] s[i]) by {}
    lemma_sorted_all(s, p);
    let t = truncated(payloads(sorted), n);
    assert forall|i: int, j: int| 0 <= i < j < t.len() implies !key_before(key(#[trigger] t[j]), key(#[trigger] t[i])) by {
        assert(t[i] == sorted[i].1 && t[j] == sorted[j].1);
        assert(p(sorted[i]) && p(sorted[j]));
    }
}

/// Whether no two entries of `s` share an `id`.
pub open spec fn distinct_by<T, U>(s: Seq<T>, id: spec_fn(T) -> U) -> bool {
    forall|i: int, j: int| 0 <= i < j < s.len() ==> id(#[trigger] s[i]) != id(#[trigger] s[j])
}

/// Sorting keeps entries with distinct payload ids distinct.
pub proof fn lemma_sorted_distinct<T, U>(s: Seq<(SortKey, T)>, id: spec_fn(T) -> U)
    requires
        distinct_by(payloads(s), id),
    ensures
        distinct_by(payloads(sorted_by_key(s)), id),
    decreases s.len(),
{
    if s.len() > 0 {
        let d = s.drop_last();
        let x = s.last();
        assert(payloads(d) =~= payloads(s).drop_last());
        assert forall|i: int, j: int| 0 <= i < j < payloads(d).len() implies id(
            #[trigger] payloads(d)[i],
        ) != id(#[trigger] payloads(d)[j]) by {
            assert(payloads(d)[i] == payloads(s)[i] && payloads(d)[j] == payloads(s)[j]);
        }
        lemma_sorted_distinct(d, id);
        let r = sorted_by_key(d);
        let member = |e: (SortKey, T)| exists|m: int| 0 <= m < d.len() && d[m] == e;
        assert forall|i: int| 0 <= i < d.len() implies member(#[trigger] d[i]) by {}
        lemma_sorted_all(d, member);
        lemma_sorted_len(d);
        lemma_insert_index(r, x.0);
        let k = insert_index(r, x.0);
        let t = r.insert(k, x);
        assert forall|i: int| 0 <= i < r.len() implies id(#[trigger] r[i].1) != id(x.1) by {
            assert(member(r[i]));
            let m = choose|m: int| 0 <= m < d.len() && d[m] == r[i];
            assert(payloads(s)[m] == r[i].1);
            assert(payloads(s)[s.len() - 1] == x.1);
        }
        assert forall|i: int, j: int| 0 <= i < j < payloads(t).len() implies id(
            #[trigger] payloads(t)[i],
        ) != id(#[trigger] payloads(t)[j]) by {
            assert(payloads(r)[0] == r[0].1 || r.len() == 0);
            if i < k && j < k {
                assert(t[i] == r[i] && t[j] == r[j]);
                assert(payloads(r)[i] == r[i].1 && payloads(r)[j] == r[j].1);
            } else if i < k && j == k {
                assert(t[i] == r[i]);
            } else if i < k {
                assert(t[i] == r[i] && t[j] == r[j - 1]);
                assert(payloads(r)[i] == r[i].1 && payloads(r)[j - 1] == r[j - 1].1);
            } else if i == k {
                assert(t[j] == r[j - 1]);
            } else {
                assert(t[i] == r[i - 1] && t[j] == r[j - 1]);
                assert(payloads(r)[i - 1] == r[i - 1].1 && payloads(r)[j - 1] == r[j - 1].1);
            }
        }
    }
}

/// Cutting a sequence keeps its entries distinct and in order.
pub proof fn lemma_truncated_keeps<T, U>(s: Seq<T>, n: nat, id: spec_fn(T) -> U, key: spec_fn(T) -> SortKey)
    ensures
        distinct_by(s, id) ==> distinct_by(truncated(s, n), id),
        ordered_by(s, key) ==> ordered_by(truncated(s, n), key),
        truncated(s, n).len() <= n,
{
    let t = truncated(s, n);
    assert forall|i: int| 0 <= i < t.len() implies #[trigger] t[i] == s[i] by {}
}

} // verus!
