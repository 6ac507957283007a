use vstd::prelude::*;
use vstd::multiset::Multiset;
use crate::order::{lemma_name_lt_asymmetric, lemma_name_lt_irreflexive, name_less, name_lt};
use crate::pod::{pods_view, NamedPod, PodModel, ProofKind};

verus! {

broadcast use vstd::seq_lib::group_to_multiset_ensures;

/// A named attestation, as the laws see it.
pub type PodEntry = (Seq<char>, PodModel);

/// Each name is no greater than the next one.
pub open spec fn sorted_by_name(s: Seq<PodEntry>) -> bool {
    forall|i: int| 0 <= i < s.len() - 1 ==> !#[trigger] name_lt(s[i + 1].0, s[i].0)
}

/// Whether an attestation is filed under `n`.
pub open spec fn name_is(n: Seq<char>) -> spec_fn(PodEntry) -> bool {
    |x: PodEntry| x.0 == n
}

/// The attestations filed under `n`, in their order in `s`.
pub open spec fn named_as(s: Seq<PodEntry>, n: Seq<char>) -> Seq<PodEntry> {
    s.filter(name_is(n))
}

/// Inserting `x` before elements that all carry other names appends it to
/// the attestations under its own name and leaves the others alone.
pub proof fn lemma_named_as_insert(s: Seq<PodEntry>, p: int, x: PodEntry, n: Seq<char>)
    requires
        0 <= p <= s.len(),
        forall|q: int| p <= q < s.len() ==> (#[trigger] s[q]).0 != x.0,
    ensures
        named_as(s.insert(p, x), n) == (if x.0 == n { named_as(s, n).push(x) } else { named_as(s, n) }),
{
    let f = name_is(n);
    let head = s.take(p);
    let tail = s.skip(p);
    assert(s.insert(p, x) =~= head.push(x) + tail);
    assert(s =~= head + tail);
    Seq::filter_distributes_over_add(head.push(x), tail, f);
    Seq::filter_distributes_over_add(head, tail, f);
    head.lemma_filter_push(x, f);
    if x.0 == n {
        assert(tail.all(|y: PodEntry| !f(y))) by {
            assert forall|i: int| 0 <= i < tail.len() implies !f(#[trigger] tail[i]) by {
                assert(tail[i] == s[p + i]);
            }
        }
        tail.lemma_all_neg_filter_empty(f);
        assert(tail.filter(f) =~= Seq::<PodEntry>::empty());
        assert(head.filter(f).push(x) + tail.filter(f) =~= head.filter(f).push(x));
        assert(head.filter(f) + tail.filter(f) =~= head.filter(f));
    }
}

/// The attestations of kind `k` among `m`.
pub open spec fn of_kind(m: Multiset<PodEntry>, k: ProofKind) -> Multiset<PodEntry> {
    m.filter(|p: PodEntry| p.1.kind == k)
}

/// How many attestations of kind `k` the list holds.
pub open spec fn kind_count(s: Seq<PodEntry>, k: ProofKind) -> nat {
    of_kind(s.to_multiset(), k).len()
}

/// Inserting an element into a sequence inserts it into its multiset.
pub proof fn lemma_insert_to_multiset<A>(s: Seq<A>, p: int, x: A)
    requires
        0 <= p <= s.len(),
    ensures
        s.insert(p, x).to_multiset() =~= s.to_multiset().insert(x),
{
    let t = s.insert(p, x);
    s.insert_ensures(p, x);
    assert(t.remove(p) =~= s);
    t.to_multiset_ensures();
    assert(t.contains(x)) by {
        assert(t[p] == x);
    }
}

/// Filtering by kind commutes with inserting an element of that kind, and
/// ignores an element of another.
pub proof fn lemma_of_kind_insert(m: Multiset<PodEntry>, x: PodEntry, k: ProofKind)
    ensures
        of_kind(m.insert(x), k) =~= (if x.1.kind == k { of_kind(m, k).insert(x) } else { of_kind(m, k) }),
{
}

/// The two kinds together make up the whole multiset.
pub proof fn lemma_of_kind_split(m: Multiset<PodEntry>)
    ensures
        of_kind(m, ProofKind::Signature).add(of_kind(m, ProofKind::Recursive)) =~= m,
{
    assert forall|v: PodEntry| #[trigger] of_kind(m, ProofKind::Signature).add(of_kind(m, ProofKind::Recursive)).count(v) == m.count(v) by {
        if v.1.kind == ProofKind::Signature {
        } else {
        }
    }
}

/// The attestations of `pods`, each under its name, reordered so that names
/// never decrease. The sort is stable: attestations under one name keep
/// their order.
pub fn sort_by_name(pods: &Vec<NamedPod>) -> (r: Vec<NamedPod>)
    ensures
        sorted_by_name(pods_view(r@)),
        forall|n: Seq<char>| #[trigger] named_as(pods_view(r@), n) == named_as(pods_view(pods@), n),
        pods_view(r@).to_multiset() == pods_view(pods@).to_multiset(),
        r@.len() == pods@.len(),
{
    let mut r: Vec<NamedPod> = Vec::new();
    let mut i: usize = 0;
    while i < pods.len()
        invariant
            i <= pods@.len(),
            r@.len() == i,
            sorted_by_name(pods_view(r@)),
            pods_view(r@).to_multiset() == pods_view(pods@.take(i as int)).to_multiset(),
            forall|n: Seq<char>| #[trigger] named_as(pods_view(r@), n) == named_as(pods_view(pods@.take(i as int)), n),
        decreases pods@.len() - i,
    {
        let x = (pods[i].0.clone(), pods[i].1.duplicate());
        let mut p: usize = r.len();
        while p > 0 && name_less(&x.0, &r[p - 1].0)
            invariant
                p <= r@.len(),
                forall|q: int| p <= q < r@.len() ==> #[trigger] name_lt(x.0@, r@[q].0@),
            decreases p,
        {
            p = p - 1;
        }
        let ghost xv: PodEntry = (x.0@, x.1@);
        let ghost before = pods_view(r@);
        r.insert(p, x);
        proof {
            assert(pods_view(r@) =~= before.insert(p as int, xv));
            before.insert_ensures(p as int, xv);
            let after = pods_view(r@);
            assert forall|j: int| 0 <= j < after.len() - 1 implies !#[trigger] name_lt(after[j + 1].0, after[j].0) by {
                if j + 1 < p {
                    assert(after[j] == before[j] && after[j + 1] == before[j + 1]);
                } else if j + 1 == p {
                    assert(after[j] == before[j]);
                } else if j == p {
                    assert(after[j + 1] == before[j]);
                    lemma_name_lt_asymmetric(xv.0, before[j].0);
                } else {
                    assert(after[j] == before[j - 1] && after[j + 1] == before[j]);
                }
            }
            lemma_insert_to_multiset(before, p as int, xv);
            assert(pods@.take(i as int + 1) =~= pods@.take(i as int).push(pods@[i as int]));
            assert(pods_view(pods@.take(i as int + 1)) =~= pods_view(pods@.take(i as int)).push(xv));
            assert forall|q: int| p <= q < before.len() implies (#[trigger] before[q]).0 != xv.0 by {
                lemma_name_lt_irreflexive(xv.0);
            }
            assert forall|n: Seq<char>| #[trigger] named_as(pods_view(r@), n) == named_as(pods_view(pods@.take(i as int + 1)), n) by {
                lemma_named_as_insert(before, p as int, xv, n);
                pods_view(pods@.take(i as int)).lemma_filter_push(xv, name_is(n));
            }
        }
        i = i + 1;
    }
    proof {
        assert(pods@.take(i as int) =~= pods@);
    }
    r
}

} // verus!
