use vstd::prelude::*;
use vstd::multiset::Multiset;
use crate::arrange::{
    kind_count, lemma_of_kind_insert, lemma_of_kind_split, of_kind, sort_by_name, sorted_by_name, PodEntry,
};
use crate::error::PodError;
use crate::eval::{evaluate, GpgInput};
use crate::operation::{OpList, OperationModel};
use crate::pod::{pods_view, NamedPod, Pod, PodModel, ProofKind};
use crate::statement::{named_view, NamedStatement, Statement, StatementModel};
use crate::text::numbered;
use crate::laws::lemma_arrangement_irrelevant;

verus! {

broadcast use vstd::seq_lib::group_to_multiset_ensures;

/// Every attestation in the list holds exactly `ns` statements.
pub open spec fn shapes_ok(s: Seq<PodEntry>, ns: nat) -> bool {
    forall|x: PodEntry| s.contains(x) ==> x.1.statements.len() == ns
}

/// No two different attestations of the list share a name.
pub open spec fn unique_names(s: Seq<PodEntry>) -> bool {
    forall|x: PodEntry, y: PodEntry| s.contains(x) && s.contains(y) && x.0 == y.0 ==> x == y
}

/// More signature-backed inputs than `m`, or more proof-backed ones than `n`.
pub open spec fn over_capacity(s: Seq<PodEntry>, m: nat, n: nat) -> bool {
    kind_count(s, ProofKind::Signature) > m || kind_count(s, ProofKind::Recursive) > n
}

/// The outcome of one composition step over named inputs: capacity first,
/// then shape, then the plaintext evaluation of the program.
pub open spec fn combine(
    inputs: Seq<PodEntry>,
    ops: Seq<(OperationModel, Seq<char>)>,
    m: nat,
    n: nat,
    ns: nat,
) -> Result<Seq<(Seq<char>, StatementModel)>, PodError> {
    if over_capacity(inputs, m, n) {
        Err(PodError::CapacityExceeded)
    } else if !shapes_ok(inputs, ns) {
        Err(PodError::ShapeMismatch)
    } else {
        evaluate(inputs, ops, ns)
    }
}

/// The wiring of one recursion node and the statements it claims.
pub struct Execution {
    /// The real inputs: signature-backed ones by name, then proof-backed ones by name.
    pub gpg_input: GpgInput,
    /// One attestation per slot: the signature slots, then the proof slots.
    pub slots: Vec<NamedPod>,
    /// Whether each slot holds a real input.
    pub selectors: Vec<bool>,
    /// The statements the new attestation carries.
    pub output: Vec<NamedStatement>,
}

/// A padding attestation for an unused slot.
pub open spec fn is_dummy(p: PodModel, k: ProofKind, ns: nat) -> bool {
    p.kind == k && p.statements.len() == ns
}

/// The facts that tie an execution's wiring to its inputs.
pub open spec fn wired(e_gpg: Seq<PodEntry>, slots: Seq<PodEntry>, selectors: Seq<bool>, inputs: Seq<PodEntry>, m: nat, n: nat, ns: nat) -> bool {
    let cs = kind_count(inputs, ProofKind::Signature);
    let cr = kind_count(inputs, ProofKind::Recursive);
    &&& e_gpg.to_multiset() == inputs.to_multiset()
    &&& e_gpg.len() == cs + cr
    &&& sorted_by_name(e_gpg.subrange(0, cs as int))
    &&& sorted_by_name(e_gpg.subrange(cs as int, e_gpg.len() as int))
    &&& forall|i: int| 0 <= i < cs ==> (#[trigger] e_gpg[i]).1.kind == ProofKind::Signature
    &&& forall|i: int| cs <= i < e_gpg.len() ==> (#[trigger] e_gpg[i]).1.kind == ProofKind::Recursive
    &&& slots.len() == m + n
    &&& selectors.len() == m + n
    &&& forall|i: int| 0 <= i < m ==> #[trigger] selectors[i] == (i < cs)
    &&& forall|i: int| m <= i < m + n ==> #[trigger] selectors[i] == (i - m < cr)
    &&& forall|i: int| 0 <= i < cs ==> #[trigger] slots[i] == e_gpg[i]
    &&& forall|j: int| 0 <= j < cr ==> #[trigger] slots[m + j] == e_gpg[cs + j]
    &&& forall|i: int| cs <= i < m ==> is_dummy(#[trigger] slots[i].1, ProofKind::Signature, ns)
    &&& forall|j: int| cr <= j < n ==> is_dummy(#[trigger] slots[m + j].1, ProofKind::Recursive, ns)
}

/// The composition step for nodes with `M` signature slots, `N` proof slots
/// and `NS` statements per attestation.
pub struct PlonkyButNotPlonkyGadget<const M: usize, const N: usize, const NS: usize>;

fn dummy_statements(ns: usize, with_values: bool) -> (r: Vec<NamedStatement>)
    ensures
        r@.len() == ns,
{
    let mut r: Vec<NamedStatement> = Vec::new();
    let mut i: usize = 0;
    while i < ns
        invariant
            i <= ns,
            r@.len() == i,
        decreases ns - i,
    {
        if with_values {
            let key = numbered("Dummy entry ", i);
            let name = numbered("VALUEOF:Dummy entry ", i);
            r.push((name, Statement::ValueOf { key, value: 0 }));
        } else {
            r.push((numbered("Dummy statement ", i), Statement::NoOp));
        }
        i = i + 1;
    }
    r
}

/// Splits `pods` by proof kind, keeping their order within each kind.
fn partition(pods: &Vec<NamedPod>) -> (r: (Vec<NamedPod>, Vec<NamedPod>))
    ensures
        pods_view(r.0@).to_multiset() == of_kind(pods_view(pods@).to_multiset(), ProofKind::Signature),
        pods_view(r.1@).to_multiset() == of_kind(pods_view(pods@).to_multiset(), ProofKind::Recursive),
{
    let mut sig: Vec<NamedPod> = Vec::new();
    let mut rec: Vec<NamedPod> = Vec::new();
    let mut i: usize = 0;
    proof {
        assert(pods_view(pods@.take(0)) =~= Seq::<PodEntry>::empty());
        assert(pods_view(sig@) =~= Seq::<PodEntry>::empty());
        assert(pods_view(rec@) =~= Seq::<PodEntry>::empty());
        assert(of_kind(Multiset::empty(), ProofKind::Signature) =~= Multiset::empty());
        assert(of_kind(Multiset::empty(), ProofKind::Recursive) =~= Multiset::empty());
    }
    while i < pods.len()
        invariant
            i <= pods@.len(),
            pods_view(sig@).to_multiset() == of_kind(pods_view(pods@.take(i as int)).to_multiset(), ProofKind::Signature),
            pods_view(rec@).to_multiset() == of_kind(pods_view(pods@.take(i as int)).to_multiset(), ProofKind::Recursive),
        decreases pods@.len() - i,
    {
        let x = (pods[i].0.clone(), pods[i].1.duplicate());
        let ghost xv: PodEntry = (x.0@, x.1@);
        let ghost prefix = pods_view(pods@.take(i as int));
        proof {
            assert(pods@.take(i as int + 1) =~= pods@.take(i as int).push(pods@[i as int]));
            assert(pods_view(pods@.take(i as int + 1)) =~= prefix.push(xv));
            lemma_of_kind_insert(prefix.to_multiset(), xv, ProofKind::Signature);
            lemma_of_kind_insert(prefix.to_multiset(), xv, ProofKind::Recursive);
        }
        if x.1.kind == ProofKind::Signature {
            let ghost before = sig@;
            sig.push(x);
            proof {
                assert(pods_view(sig@) =~= pods_view(before).push(xv));
            }
        } else {
            let ghost before = rec@;
            rec.push(x);
            proof {
                assert(pods_view(rec@) =~= pods_view(before).push(xv));
            }
        }
        i = i + 1;
    }
    proof {
        assert(pods@.take(i as int) =~= pods@);
    }
    (sig, rec)
}

/// Whether every attestation in `pods` holds exactly `ns` statements.
fn all_shapes(pods: &Vec<NamedPod>, ns: usize) -> (r: bool)
    ensures
        r == shapes_ok(pods_view(pods@), ns as nat),
{
    let mut i: usize = 0;
    while i < pods.len()
        invariant
            i <= pods@.len(),
            forall|j: int| 0 <= j < i ==> (#[trigger] pods_view(pods@)[j]).1.statements.len() == ns,
        decreases pods@.len() - i,
    {
        if pods[i].1.statements.len() != ns {
            proof {
                assert(pods_view(pods@).contains(pods_view(pods@)[i as int]));
            }
            return false;
        }
        i = i + 1;
    }
    true
}


/// Appends a copy of each attestation of `from` to `to`.
fn extend_copies(to: &mut Vec<NamedPod>, from: &Vec<NamedPod>)
    ensures
        pods_view(final(to)@) == pods_view(old(to)@) + pods_view(from@),
{
    let ghost start = pods_view(to@);
    let mut j: usize = 0;
    proof {
        assert(pods_view(from@.take(0)) =~= Seq::<PodEntry>::empty());
        assert(start + pods_view(from@.take(0)) =~= start);
    }
    while j < from.len()
        invariant
            j <= from@.len(),
            pods_view(to@) == start + pods_view(from@.take(j as int)),
        decreases from@.len() - j,
    {
        let ghost before = to@;
        to.push((from[j].0.clone(), from[j].1.duplicate()));
        proof {
            assert(pods_view(to@) =~= pods_view(before).push(pods_view(from@)[j as int]));
            assert(from@.take(j as int + 1) =~= from@.take(j as int).push(from@[j as int]));
            assert(pods_view(from@.take(j as int + 1)) =~= pods_view(from@.take(j as int)).push(pods_view(from@)[j as int]));
            assert(start + pods_view(from@.take(j as int + 1)) =~= (start + pods_view(from@.take(j as int))).push(pods_view(from@)[j as int]));
        }
        j = j + 1;
    }
    proof {
        assert(from@.take(j as int) =~= from@);
    }
}

impl<const M: usize, const N: usize, const NS: usize> PlonkyButNotPlonkyGadget<M, N, NS> {
    /// Validates the named inputs, orders them by kind and name, pads each
    /// kind to its capacity with placeholder attestations whose selector is
    /// off, and evaluates the program on the real inputs. Proof slots that
    /// hold padding carry `dummy_proof`.
    pub fn execute(dummy_proof: &Vec<u8>, input_pods: &Vec<NamedPod>, op_list: &OpList) -> (r: Result<Execution, PodError>)
        requires
            M + N <= usize::MAX,
        ensures
            over_capacity(pods_view(input_pods@), M as nat, N as nat) ==> r == Err::<Execution, PodError>(PodError::CapacityExceeded),
            !over_capacity(pods_view(input_pods@), M as nat, N as nat) && !shapes_ok(pods_view(input_pods@), NS as nat)
                ==> r == Err::<Execution, PodError>(PodError::ShapeMismatch),
            r is Ok ==> wired(r->Ok_0.gpg_input@, pods_view(r->Ok_0.slots@), r->Ok_0.selectors@, pods_view(input_pods@), M as nat, N as nat, NS as nat),
            r is Ok ==> evaluate(r->Ok_0.gpg_input@, op_list@, NS as nat) == Ok::<Seq<(Seq<char>, StatementModel)>, PodError>(named_view(r->Ok_0.output@)),
            unique_names(pods_view(input_pods@)) ==> match r {
                Ok(e) => combine(pods_view(input_pods@), op_list@, M as nat, N as nat, NS as nat) == Ok::<Seq<(Seq<char>, StatementModel)>, PodError>(named_view(e.output@)),
                Err(x) => combine(pods_view(input_pods@), op_list@, M as nat, N as nat, NS as nat) == Err::<Seq<(Seq<char>, StatementModel)>, PodError>(x),
            },
    {
        let ghost inputs = pods_view(input_pods@);
        let (sig, rec) = partition(input_pods);
        let cs = sig.len();
        let cr = rec.len();
        proof {
            assert(cs == kind_count(inputs, ProofKind::Signature));
            assert(cr == kind_count(inputs, ProofKind::Recursive));
        }
        if cs > M || cr > N {
            return Err(PodError::CapacityExceeded);
        }
        if !all_shapes(input_pods, NS) {
            return Err(PodError::ShapeMismatch);
        }
        let sig_sorted = sort_by_name(&sig);
        let rec_sorted = sort_by_name(&rec);
        let mut gpg_list: Vec<NamedPod> = Vec::new();
        extend_copies(&mut gpg_list, &sig_sorted);
        extend_copies(&mut gpg_list, &rec_sorted);
        let ghost sv = pods_view(sig_sorted@);
        let ghost rv = pods_view(rec_sorted@);
        let ghost gv = pods_view(gpg_list@);
        proof {
            assert(Seq::<PodEntry>::empty() + sv =~= sv);
            assert(gv == sv + rv);
            vstd::seq_lib::lemma_multiset_commutative(sv, rv);
            lemma_of_kind_split(inputs.to_multiset());
            assert(gv.subrange(0, cs as int) =~= sv);
            assert(gv.subrange(cs as int, gv.len() as int) =~= rv);
            assert forall|i: int| 0 <= i < cs implies (#[trigger] gv[i]).1.kind == ProofKind::Signature by {
                assert(sv.to_multiset().count(sv[i]) > 0);
            }
            assert forall|i: int| cs <= i < gv.len() implies (#[trigger] gv[i]).1.kind == ProofKind::Recursive by {
                assert(gv[i] == rv[i - cs]);
                assert(rv.to_multiset().count(rv[i - cs]) > 0);
            }
        }
        let mut slots: Vec<NamedPod> = Vec::new();
        let mut selectors: Vec<bool> = Vec::new();
        let mut i: usize = 0;
        while i < M + N
            invariant
                i <= M + N,
                M + N <= usize::MAX,
                cs <= M,
                cr <= N,
                sv.len() == cs,
                rv.len() == cr,
                sv == pods_view(sig_sorted@),
                rv == pods_view(rec_sorted@),
                gv == sv + rv,
                slots@.len() == i,
                selectors@.len() == i,
                forall|k: int| 0 <= k < i && k < M ==> #[trigger] selectors@[k] == (k < cs),
                forall|k: int| M <= k < i ==> #[trigger] selectors@[k] == (k - M < cr),
                forall|k: int| 0 <= k < i && k < cs ==> #[trigger] pods_view(slots@)[k] == gv[k],
                forall|k: int| M <= k < i && k - M < cr ==> #[trigger] pods_view(slots@)[k] == gv[cs + k - M],
                forall|k: int| cs <= k < i && k < M ==> is_dummy(#[trigger] pods_view(slots@)[k].1, ProofKind::Signature, NS as nat),
                forall|k: int| M <= k < i && k - M >= cr ==> is_dummy(#[trigger] pods_view(slots@)[k].1, ProofKind::Recursive, NS as nat),
            decreases M + N - i,
        {
            let ghost before = slots@;
            if i < M {
                if i < cs {
                    slots.push((sig_sorted[i].0.clone(), sig_sorted[i].1.duplicate()));
                    selectors.push(true);
                } else {
                    let dummy = Pod { statements: dummy_statements(NS, true), kind: ProofKind::Signature, proof: Vec::new() };
                    slots.push((numbered("_DUMMYSCHNORR", i), dummy));
                    selectors.push(false);
                }
            } else {
                if i - M < cr {
                    slots.push((rec_sorted[i - M].0.clone(), rec_sorted[i - M].1.duplicate()));
                    selectors.push(true);
                } else {
                    let dummy = Pod { statements: dummy_statements(NS, false), kind: ProofKind::Recursive, proof: dummy_proof.clone() };
                    slots.push((numbered("_DUMMYPLONKY", i - M), dummy));
                    selectors.push(false);
                }
            }
            proof {
                assert(pods_view(slots@) =~= pods_view(before).push(pods_view(slots@)[i as int]));
            }
            i = i + 1;
        }
        let gpg_input = GpgInput { pods_list: gpg_list };
        let output = match gpg_input.execute_oracle(op_list, NS) {
            Ok(out) => out,
            Err(e) => {
                proof {
                    if unique_names(inputs) {
                        lemma_arrangement_irrelevant(inputs, gv, op_list@, NS as nat);
                    }
                }
                return Err(e);
            },
        };
        proof {
            if unique_names(inputs) {
                lemma_arrangement_irrelevant(inputs, gv, op_list@, NS as nat);
            }
        }
        Ok(Execution { gpg_input, slots, selectors, output })
    }
}


/// The proof-backed attestation that carries `statements`.
pub open spec fn proof_backed(statements: Seq<(Seq<char>, StatementModel)>, proof: Seq<u8>) -> PodModel {
    PodModel { statements, kind: ProofKind::Recursive, proof }
}

impl Execution {
    /// Wraps the proof produced for this execution into the new attestation,
    /// whose payload is the claimed output statements.
    pub fn into_pod(self, proof: Vec<u8>) -> (r: Pod)
        ensures
            r@ == proof_backed(named_view(self.output@), proof@),
    {
        Pod { statements: self.output, kind: ProofKind::Recursive, proof }
    }
}

/// The leaf verification gadget of a signature slot: when the slot's selector
/// is on, the signature check must succeed; when it is off, nothing is asked.
pub struct SchnorrPODGadget<const NS: usize>;

impl<const NS: usize> SchnorrPODGadget<NS> {
    /// Assigns the outcome of each slot's signature check against its
    /// selector: the counts must agree, and every enabled slot must verify.
    pub fn set_targets(selectors: &Vec<bool>, verified: &Vec<bool>) -> (r: Result<(), PodError>)
        ensures
            selectors@.len() != verified@.len() ==> r == Err::<(), PodError>(PodError::WitnessAssignmentFailure),
            selectors@.len() == verified@.len() ==> (r is Ok <==> forall|i: int|
                0 <= i < selectors@.len() && #[trigger] selectors@[i] ==> verified@[i]),
            selectors@.len() == verified@.len() && r is Err ==> r == Err::<(), PodError>(PodError::ProofVerificationFailure),
    {
        if selectors.len() != verified.len() {
            return Err(PodError::WitnessAssignmentFailure);
        }
        let mut i: usize = 0;
        while i < selectors.len()
            invariant
                i <= selectors@.len(),
                selectors@.len() == verified@.len(),
                forall|k: int| 0 <= k < i && #[trigger] selectors@[k] ==> verified@[k],
            decreases selectors@.len() - i,
        {
            if selectors[i] && !verified[i] {
                return Err(PodError::ProofVerificationFailure);
            }
            i = i + 1;
        }
        Ok(())
    }
}

} // verus!
