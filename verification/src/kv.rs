//! Ordered key/value pair lists over strings: first-match lookup and
//! update-or-append insertion. Headers, cookies and message bodies all use
//! this shape.

use vstd::prelude::*;

use crate::text::str_eq;

verus! {

/// A pair list viewed at the character level.
pub type PairsView = Seq<(Seq<char>, Seq<char>)>;

/// The value at the first occurrence of `k`, if any.
pub open spec fn spec_lookup(ps: PairsView, k: Seq<char>) -> Option<Seq<char>>
    decreases ps.len(),
{
    if ps.len() == 0 {
        None
    } else if ps[0].0 == k {
        Some(ps[0].1)
    } else {
        spec_lookup(ps.drop_first(), k)
    }
}

/// Replaces the value at the first occurrence of `k`, or appends the pair
/// when `k` is absent.
pub open spec fn spec_set_pair(ps: PairsView, k: Seq<char>, v: Seq<char>) -> PairsView
    decreases ps.len(),
{
    if ps.len() == 0 {
        seq![(k, v)]
    } else if ps[0].0 == k {
        seq![(k, v)] + ps.drop_first()
    } else {
        seq![ps[0]] + spec_set_pair(ps.drop_first(), k, v)
    }
}

/// Inserts every pair of `ms` into `acc` in order, each by `spec_set_pair`.
pub open spec fn spec_fold_set(acc: PairsView, ms: PairsView) -> PairsView
    decreases ms.len(),
{
    if ms.len() == 0 {
        acc
    } else {
        spec_fold_set(spec_set_pair(acc, ms[0].0, ms[0].1), ms.drop_first())
    }
}

/// No two pairs share a key.
pub open spec fn spec_keys_unique(ps: PairsView) -> bool {
    forall|i: int, j: int| 0 <= i < j < ps.len() ==> ps[i].0 != ps[j].0
}

/// A key that occurs nowhere in the list is not found.
pub proof fn lemma_lookup_absent(ps: PairsView, k: Seq<char>)
    requires
        forall|i: int| 0 <= i < ps.len() ==> ps[i].0 != k,
    ensures
        spec_lookup(ps, k) is None,
    decreases ps.len(),
{
    if ps.len() > 0 {
        lemma_lookup_absent(ps.drop_first(), k);
    }
}

/// Setting an absent key appends the pair.
pub proof fn lemma_set_pair_absent(ps: PairsView, k: Seq<char>, v: Seq<char>)
    requires
        spec_lookup(ps, k) is None,
    ensures
        spec_set_pair(ps, k, v) == ps + seq![(k, v)],
    decreases ps.len(),
{
    if ps.len() == 0 {
        assert(spec_set_pair(ps, k, v) =~= ps + seq![(k, v)]);
    } else {
        lemma_set_pair_absent(ps.drop_first(), k, v);
        assert(spec_set_pair(ps, k, v) =~= ps + seq![(k, v)]);
    }
}

/// Looking up any key only sees the keys that occur in the list.
pub proof fn lemma_lookup_some_key(ps: PairsView, k: Seq<char>)
    requires
        spec_lookup(ps, k) is Some,
    ensures
        exists|i: int| 0 <= i < ps.len() && ps[i].0 == k,
    decreases ps.len(),
{
    if ps.len() > 0 && ps[0].0 != k {
        lemma_lookup_some_key(ps.drop_first(), k);
        let i = choose|i: int| 0 <= i < ps.drop_first().len() && ps.drop_first()[i].0 == k;
        assert(ps[i + 1].0 == k);
    }
}

/// A key that occurs in the list is found by lookup.
pub proof fn lemma_lookup_finds_key(ps: PairsView, i: int)
    requires
        0 <= i < ps.len(),
    ensures
        spec_lookup(ps, ps[i].0) is Some,
    decreases i,
{
    if ps[0].0 != ps[i].0 {
        lemma_lookup_finds_key(ps.drop_first(), i - 1);
    }
}

/// Folding a list with pairwise-distinct keys, none of which occur in the
/// accumulator, appends the list as it stands.
pub proof fn lemma_fold_set_unique(acc: PairsView, ms: PairsView)
    requires
        spec_keys_unique(ms),
        forall|i: int| 0 <= i < ms.len() ==> spec_lookup(acc, #[trigger] ms[i].0) is None,
    ensures
        spec_fold_set(acc, ms) == acc + ms,
    decreases ms.len(),
{
    if ms.len() == 0 {
        assert(spec_fold_set(acc, ms) =~= acc + ms);
    } else {
        let k = ms[0].0;
        let v = ms[0].1;
        lemma_set_pair_absent(acc, k, v);
        let acc2 = acc + seq![(k, v)];
        let rest = ms.drop_first();
        assert forall|i: int| 0 <= i < rest.len() implies spec_lookup(
            acc2,
            #[trigger] rest[i].0,
        ) is None by {
            assert(rest[i] == ms[i + 1]);
            assert(ms[i + 1].0 != k);
            if spec_lookup(acc2, rest[i].0) is Some {
                lemma_lookup_some_key(acc2, rest[i].0);
                let j = choose|j: int| 0 <= j < acc2.len() && acc2[j].0 == rest[i].0;
                if j < acc.len() {
                    assert(acc[j] == acc2[j]);
                    lemma_lookup_finds_key(acc, j);
                }
            }
        }
        lemma_fold_set_unique(acc2, rest);
        assert(acc2 + rest =~= acc + ms);
    }
}

/// Looks up `k` in a pair vector, first occurrence.
pub fn kv_get(ps: &Vec<(String, String)>, k: &str) -> (r: Option<String>)
    ensures
        r matches Some(v) ==> spec_lookup(ps.deep_view(), k@) == Some(v@),
        r is None ==> spec_lookup(ps.deep_view(), k@) is None,
{
    let mut i: usize = 0;
    proof {
        assert(ps.deep_view().subrange(0, ps@.len() as int) =~= ps.deep_view());
    }
    while i < ps.len()
        invariant
            i <= ps@.len(),
            spec_lookup(ps.deep_view(), k@) == spec_lookup(
                ps.deep_view().subrange(i as int, ps@.len() as int),
                k@,
            ),
        decreases ps@.len() - i,
    {
        let ghost seg = ps.deep_view().subrange(i as int, ps@.len() as int);
        if str_eq(ps[i].0.as_str(), k) {
            proof {
                assert(seg[0] == ps.deep_view()[i as int]);
            }
            return Some(ps[i].1.clone());
        }
        proof {
            assert(seg[0] == ps.deep_view()[i as int]);
            assert(seg.drop_first() =~= ps.deep_view().subrange(
                i as int + 1,
                ps@.len() as int,
            ));
        }
        i += 1;
    }
    proof {
        assert(ps.deep_view().subrange(ps@.len() as int, ps@.len() as int).len() == 0);
    }
    None
}

/// Copies a pair vector entry by entry.
pub fn copy_pairs(ps: &Vec<(String, String)>) -> (r: Vec<(String, String)>)
    ensures
        r.deep_view() == ps.deep_view(),
{
    let mut out: Vec<(String, String)> = Vec::new();
    let mut i: usize = 0;
    proof {
        assert(out.deep_view() =~= ps.deep_view().subrange(0, 0));
    }
    while i < ps.len()
        invariant
            i <= ps@.len(),
            out@.len() == i,
            out.deep_view() == ps.deep_view().subrange(0, i as int),
        decreases ps@.len() - i,
    {
        let k = ps[i].0.clone();
        let v = ps[i].1.clone();
        let ghost prevv = out@;
        let ghost prevdv = out.deep_view();
        out.push((k, v));
        proof {
            assert forall|j: int| 0 <= j < out@.len() implies out.deep_view()[j]
                == ps.deep_view().subrange(0, i as int + 1)[j] by {
                assert(out.deep_view()[j] == (out@[j].0@, out@[j].1@));
                if j < i {
                    assert(out@[j] == prevv[j]);
                    assert(prevdv[j] == (prevv[j].0@, prevv[j].1@));
                    assert(prevdv[j] == ps.deep_view().subrange(0, i as int)[j]);
                } else {
                    assert(out@[j] == (k, v));
                    assert(ps.deep_view()[j] == (ps@[j].0@, ps@[j].1@));
                }
            }
            assert(out.deep_view() =~= ps.deep_view().subrange(0, i as int + 1));
        }
        i += 1;
    }
    proof {
        assert(ps.deep_view().subrange(0, ps@.len() as int) =~= ps.deep_view());
    }
    out
}

/// Where the first `i` keys differ from `k`, setting skips over them.
proof fn lemma_set_pair_skip(ps: PairsView, k: Seq<char>, v: Seq<char>, i: int)
    requires
        0 <= i <= ps.len(),
        forall|j: int| 0 <= j < i ==> ps[j].0 != k,
    ensures
        spec_set_pair(ps, k, v) == ps.subrange(0, i) + spec_set_pair(
            ps.subrange(i, ps.len() as int),
            k,
            v,
        ),
    decreases i,
{
    if i == 0 {
        assert(ps.subrange(0, ps.len() as int) =~= ps);
        assert(spec_set_pair(ps, k, v) =~= ps.subrange(0, 0) + spec_set_pair(
            ps.subrange(0, ps.len() as int),
            k,
            v,
        ));
    } else {
        lemma_set_pair_skip(ps.drop_first(), k, v, i - 1);
        assert(ps.drop_first().subrange(0, i - 1) =~= ps.subrange(1, i));
        assert(ps.drop_first().subrange(i - 1, ps.drop_first().len() as int) =~= ps.subrange(
            i,
            ps.len() as int,
        ));
        assert(spec_set_pair(ps, k, v) == seq![ps[0]] + spec_set_pair(ps.drop_first(), k, v));
        assert(seq![ps[0]] + (ps.subrange(1, i) + spec_set_pair(
            ps.subrange(i, ps.len() as int),
            k,
            v,
        )) =~= ps.subrange(0, i) + spec_set_pair(ps.subrange(i, ps.len() as int), k, v));
    }
}

/// Sets `k` to `v` in a pair vector: replaces the first occurrence in
/// place, or appends when absent.
pub fn kv_set(ps: &mut Vec<(String, String)>, k: String, v: String)
    ensures
        final(ps).deep_view() == spec_set_pair(old(ps).deep_view(), k@, v@),
{
    let mut i: usize = 0;
    while i < ps.len()
        invariant
            i <= ps@.len(),
            ps@ == old(ps)@,
            forall|j: int| 0 <= j < i ==> ps.deep_view()[j].0 != k@,
        decreases ps@.len() - i,
    {
        if str_eq(ps[i].0.as_str(), k.as_str()) {
            let ghost prev = ps.deep_view();
            let ghost n = prev.len();
            proof {
                assert(prev[i as int] == (ps@[i as int].0@, ps@[i as int].1@));
                assert(prev[i as int].0 == k@);
            }
            ps.set(i, (k, v));
            proof {
                lemma_set_pair_skip(prev, k@, v@, i as int);
                let seg = prev.subrange(i as int, n as int);
                assert(seg[0] == prev[i as int]);
                assert(spec_set_pair(seg, k@, v@) == seq![(k@, v@)] + seg.drop_first());
                assert(seg.drop_first() =~= prev.subrange(i as int + 1, n as int));
                let target = prev.subrange(0, i as int) + (seq![(k@, v@)] + prev.subrange(
                    i as int + 1,
                    n as int,
                ));
                assert(spec_set_pair(prev, k@, v@) == target);
                assert forall|j: int| 0 <= j < n implies ps.deep_view()[j] == target[j] by {
                    assert(ps.deep_view()[j] == (ps@[j].0@, ps@[j].1@));
                    if j != i {
                        assert(prev[j] == (old(ps)@[j].0@, old(ps)@[j].1@));
                    }
                }
                assert(ps.deep_view() =~= target);
            }
            return ;
        }
        proof {
            assert(ps.deep_view()[i as int] == (ps@[i as int].0@, ps@[i as int].1@));
        }
        i += 1;
    }
    let ghost prev = ps.deep_view();
    let ghost n = prev.len();
    ps.push((k, v));
    proof {
        lemma_set_pair_skip(prev, k@, v@, n as int);
        let seg = prev.subrange(n as int, n as int);
        assert(seg.len() == 0);
        assert(spec_set_pair(seg, k@, v@) == seq![(k@, v@)]);
        let target = prev.subrange(0, n as int) + seq![(k@, v@)];
        assert(spec_set_pair(prev, k@, v@) == target);
        assert forall|j: int| 0 <= j < n + 1 implies ps.deep_view()[j] == target[j] by {
            assert(ps.deep_view()[j] == (ps@[j].0@, ps@[j].1@));
            if j < n {
                assert(prev[j] == (old(ps)@[j].0@, old(ps)@[j].1@));
                assert(prev.subrange(0, n as int)[j] == prev[j]);
            }
        }
        assert(ps.deep_view() =~= target);
    }
}

} // verus!
