use vstd::prelude::*;
use crate::arrange::{kind_count, PodEntry};
use crate::combine::{combine, over_capacity, proof_backed, shapes_ok, unique_names};
use crate::error::PodError;
use crate::eval::{apply_op, eval_ops, evaluate, resolve};
use crate::operation::{OperationModel, RefModel};
use crate::pod::{PodModel, ProofKind};
use crate::statement::{find_named, StatementModel};

verus! {

broadcast use vstd::seq_lib::group_to_multiset_ensures;

/// A successful find names an element of the sequence, and a name that some
/// element carries is always found.
pub proof fn lemma_find_named_contains<T>(s: Seq<(Seq<char>, T)>, name: Seq<char>)
    ensures
        find_named(s, name) is Some ==> s.contains((name, find_named(s, name)->0)),
        (exists|t: T| s.contains((name, t))) ==> find_named(s, name) is Some,
    decreases s.len(),
{
    if s.len() > 0 {
        let d = s.drop_last();
        lemma_find_named_contains(d, name);
        if find_named(d, name) is Some {
            let t = find_named(d, name)->0;
            assert(d.contains((name, t)));
            let k = choose|k: int| 0 <= k < d.len() && d[k] == (name, t);
            assert(s[k] == (name, t));
            assert(s.contains((name, t)));
        }
        if exists|t: T| s.contains((name, t)) {
            let t = choose|t: T| s.contains((name, t));
            assert(s.contains((name, t)));
            let k = choose|k: int| 0 <= k < s.len() && s[k] == (name, t);
            if k < s.len() - 1 {
                assert(d[k] == (name, t));
                assert(d.contains((name, t)));
            } else {
                assert(s.last() == (name, t));
            }
        }
    }
}

/// Two sequences with the same elements, where no two different elements share
/// a name, find the same element under every name.
pub proof fn lemma_find_named_same_elements<T>(s1: Seq<(Seq<char>, T)>, s2: Seq<(Seq<char>, T)>, name: Seq<char>)
    requires
        forall|x: (Seq<char>, T)| s1.contains(x) <==> s2.contains(x),
        forall|x: (Seq<char>, T), y: (Seq<char>, T)| s1.contains(x) && s1.contains(y) && x.0 == y.0 ==> x == y,
    ensures
        find_named(s1, name) == find_named(s2, name),
{
    lemma_find_named_contains(s1, name);
    lemma_find_named_contains(s2, name);
    if find_named(s1, name) is Some {
        assert(s2.contains((name, find_named(s1, name)->0)));
    }
    if find_named(s2, name) is Some {
        assert(s1.contains((name, find_named(s2, name)->0)));
    }
}

/// Evaluation sees its inputs only through the references it resolves.
pub proof fn lemma_eval_ops_same_resolution(
    g1: Seq<PodEntry>,
    g2: Seq<PodEntry>,
    ops: Seq<(OperationModel, Seq<char>)>,
)
    requires
        forall|prev: Seq<(Seq<char>, StatementModel)>, r: RefModel| #[trigger] resolve(g1, prev, r) == resolve(g2, prev, r),
    ensures
        eval_ops(g1, ops) == eval_ops(g2, ops),
    decreases ops.len(),
{
    if ops.len() > 0 {
        lemma_eval_ops_same_resolution(g1, g2, ops.drop_last());
        match eval_ops(g1, ops.drop_last()) {
            Ok(prev) => {
                match ops.last().0 {
                    OperationModel::CopyStatement(r) => {
                        assert(resolve(g1, prev, r) == resolve(g2, prev, r));
                    },
                    OperationModel::EqualityFromEntries(a, b) | OperationModel::NonequalityFromEntries(a, b) => {
                        assert(resolve(g1, prev, a) == resolve(g2, prev, a));
                        assert(resolve(g1, prev, b) == resolve(g2, prev, b));
                    },
                    _ => {},
                }
                assert(apply_op(g1, prev, ops.last().0) == apply_op(g2, prev, ops.last().0));
            },
            Err(_) => {},
        }
    }
}

/// Two arrangements of the same uniquely named inputs evaluate a program to
/// the same result.
pub proof fn lemma_arrangement_irrelevant(
    g1: Seq<PodEntry>,
    g2: Seq<PodEntry>,
    ops: Seq<(OperationModel, Seq<char>)>,
    ns: nat,
)
    requires
        g1.to_multiset() == g2.to_multiset(),
        unique_names(g1),
    ensures
        evaluate(g1, ops, ns) == evaluate(g2, ops, ns),
{
    g1.to_multiset_ensures();
    g2.to_multiset_ensures();
    assert forall|x: PodEntry| g1.contains(x) <==> g2.contains(x) by {
        assert(g1.to_multiset().count(x) == g2.to_multiset().count(x));
        assert(g1.contains(x) <==> g1.to_multiset().count(x) > 0);
        assert(g2.contains(x) <==> g2.to_multiset().count(x) > 0);
    }
    assert forall|prev: Seq<(Seq<char>, StatementModel)>, r: RefModel| #[trigger] resolve(g1, prev, r) == resolve(g2, prev, r) by {
        lemma_find_named_same_elements(g1, g2, r.pod);
    }
    lemma_eval_ops_same_resolution(g1, g2, ops);
}


/// Padding is transparent: as long as the inputs fit, the capacities of the
/// node do not change the outcome.
pub proof fn lemma_padding_transparent(
    inputs: Seq<PodEntry>,
    ops: Seq<(OperationModel, Seq<char>)>,
    m1: nat,
    n1: nat,
    m2: nat,
    n2: nat,
    ns: nat,
)
    requires
        !over_capacity(inputs, m1, n1),
        !over_capacity(inputs, m2, n2),
    ensures
        combine(inputs, ops, m1, n1, ns) == combine(inputs, ops, m2, n2, ns),
{
}

/// The order in which the caller lists uniquely named inputs does not change
/// the outcome.
pub proof fn lemma_order_independent(
    a: Seq<PodEntry>,
    b: Seq<PodEntry>,
    ops: Seq<(OperationModel, Seq<char>)>,
    m: nat,
    n: nat,
    ns: nat,
)
    requires
        a.to_multiset() == b.to_multiset(),
        unique_names(a),
    ensures
        combine(a, ops, m, n, ns) == combine(b, ops, m, n, ns),
{
    a.to_multiset_ensures();
    b.to_multiset_ensures();
    assert forall|x: PodEntry| a.contains(x) <==> b.contains(x) by {
        assert(a.contains(x) <==> a.to_multiset().count(x) > 0);
        assert(b.contains(x) <==> b.to_multiset().count(x) > 0);
    }
    assert(shapes_ok(a, ns) == shapes_ok(b, ns));
    lemma_arrangement_irrelevant(a, b, ops, ns);
}

/// One signature-backed input more than the node's signature capacity is
/// rejected as a capacity violation, whatever else holds.
pub proof fn lemma_capacity_rejected(
    inputs: Seq<PodEntry>,
    ops: Seq<(OperationModel, Seq<char>)>,
    m: nat,
    n: nat,
    ns: nat,
)
    requires
        kind_count(inputs, ProofKind::Signature) == m + 1,
    ensures
        combine(inputs, ops, m, n, ns) == Err::<Seq<(Seq<char>, StatementModel)>, PodError>(PodError::CapacityExceeded),
{
}

/// Within capacity, an input whose statement count is not the node's is
/// rejected as a shape violation.
pub proof fn lemma_shape_rejected(
    inputs: Seq<PodEntry>,
    ops: Seq<(OperationModel, Seq<char>)>,
    m: nat,
    n: nat,
    ns: nat,
    x: PodEntry,
)
    requires
        !over_capacity(inputs, m, n),
        inputs.contains(x),
        x.1.statements.len() != ns,
    ensures
        combine(inputs, ops, m, n, ns) == Err::<Seq<(Seq<char>, StatementModel)>, PodError>(PodError::ShapeMismatch),
{
}

/// An attestation produced by one step is a well-shaped proof-backed input
/// of the next: put beside well-shaped inputs that leave a proof slot free,
/// it passes both checks, and the next step evaluates its program over it.
pub proof fn lemma_output_composes(
    inputs: Seq<PodEntry>,
    ops: Seq<(OperationModel, Seq<char>)>,
    m: nat,
    n: nat,
    ns: nat,
    proof: Seq<u8>,
    name: Seq<char>,
    others: Seq<PodEntry>,
    next_ops: Seq<(OperationModel, Seq<char>)>,
)
    requires
        combine(inputs, ops, m, n, ns) is Ok,
        shapes_ok(others, ns),
        !over_capacity(others.push((name, proof_backed(combine(inputs, ops, m, n, ns)->Ok_0, proof))), m, n),
    ensures
        ({
            let next = others.push((name, proof_backed(combine(inputs, ops, m, n, ns)->Ok_0, proof)));
            combine(next, next_ops, m, n, ns) == evaluate(next, next_ops, ns)
        }),
{
    let out = combine(inputs, ops, m, n, ns)->Ok_0;
    let p = (name, proof_backed(out, proof));
    let next = others.push(p);
    assert(out.len() == ns);
    assert forall|x: PodEntry| next.contains(x) implies x.1.statements.len() == ns by {
        let k = choose|k: int| 0 <= k < next.len() && next[k] == x;
        if k < others.len() {
            assert(others[k] == x);
            assert(others.contains(x));
        }
    }
}

} // verus!
