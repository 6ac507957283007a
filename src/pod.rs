use vstd::prelude::*;
use crate::field::GOLDILOCKS_ORDER;
use crate::statement::{name_statement, named_view, statement_name, Entry, NamedStatement, Statement, StatementModel};

verus! {

/// How an attestation is secured.
#[derive(PartialEq, Eq, Structural, Clone, Copy, Debug)]
pub enum ProofKind {
    /// Signed over its payload commitment.
    Signature,
    /// Backed by a recursive proof.
    Recursive,
}

/// An immutable bundle of named statements with the bytes that secure it.
pub struct Pod {
    pub statements: Vec<NamedStatement>,
    pub kind: ProofKind,
    pub proof: Vec<u8>,
}

pub ghost struct PodModel {
    pub statements: Seq<(Seq<char>, StatementModel)>,
    pub kind: ProofKind,
    pub proof: Seq<u8>,
}

impl View for Pod {
    type V = PodModel;

    open spec fn view(&self) -> PodModel {
        PodModel { statements: named_view(self.statements@), kind: self.kind, proof: self.proof@ }
    }
}

/// Duplicates a list of named statements.
pub fn copy_statements(s: &Vec<NamedStatement>) -> (r: Vec<NamedStatement>)
    ensures
        named_view(r@) == named_view(s@),
{
    let mut r: Vec<NamedStatement> = Vec::new();
    let mut i: usize = 0;
    while i < s.len()
        invariant
            i <= s@.len(),
            named_view(r@) =~= named_view(s@.take(i as int)),
        decreases s@.len() - i,
    {
        let ghost old_r = r@;
        r.push((s[i].0.clone(), s[i].1.copy()));
        proof {
            assert(r@ =~= old_r.push(r@.last()));
            assert(s@.take(i as int + 1) =~= s@.take(i as int).push(s@[i as int]));
            assert(named_view(r@) =~= named_view(old_r).push((s@[i as int].0@, s@[i as int].1@)));
        }
        i = i + 1;
    }
    proof {
        assert(s@.take(i as int) =~= s@);
    }
    r
}

impl Pod {
    /// Duplicates the attestation.
    pub fn duplicate(&self) -> (r: Pod)
        ensures
            r@ == self@,
    {
        Pod { statements: copy_statements(&self.statements), kind: self.kind, proof: self.proof.clone() }
    }
}

/// A named attestation.
pub type NamedPod = (String, Pod);

pub open spec fn pods_view(s: Seq<NamedPod>) -> Seq<(Seq<char>, PodModel)> {
    s.map_values(|p: NamedPod| (p.0@, p.1@))
}


/// The value statement of an entry under its name.
pub open spec fn entry_statement(key: Seq<char>, value: u64) -> (Seq<char>, StatementModel) {
    (statement_name(StatementModel::ValueOf { key, value }, key), StatementModel::ValueOf { key, value })
}

/// The key under which a signed attestation records its signer's public key.
pub open spec fn signer_key() -> Seq<char> {
    "_signer"@
}

/// The statements of a signed attestation: the signer's key, then one value
/// statement per entry, in order.
pub open spec fn signed_statements(entries: Seq<Entry>, signer: u64) -> Seq<(Seq<char>, StatementModel)> {
    seq![entry_statement(signer_key(), (signer as int % GOLDILOCKS_ORDER as int) as u64)]
        + entries.map_values(|e: Entry| entry_statement(e.name@, e.value))
}

impl Pod {
    /// A signature-backed attestation of `entries` by the holder of the public
    /// key `signer`; `signature` covers its payload commitment.
    pub fn signature_backed(entries: &Vec<Entry>, signer: u64, signature: Vec<u8>) -> (r: Pod)
        ensures
            r@ == (PodModel { statements: signed_statements(entries@, signer), kind: ProofKind::Signature, proof: signature@ }),
    {
        let signer_entry = Entry::new_from_scalar("_signer", signer);
        let mut statements: Vec<NamedStatement> = Vec::new();
        let first = Statement::from_entry(&signer_entry);
        let first_name = name_statement(&first, signer_entry.name.as_str());
        statements.push((first_name, first));
        let mut i: usize = 0;
        proof {
            assert(entries@.take(0).map_values(|e: Entry| entry_statement(e.name@, e.value)) =~= Seq::<(Seq<char>, StatementModel)>::empty());
        }
        while i < entries.len()
            invariant
                i <= entries@.len(),
                named_view(statements@) =~= signed_statements(entries@.take(i as int), signer),
            decreases entries@.len() - i,
        {
            let st = Statement::from_entry(&entries[i]);
            let name = name_statement(&st, entries[i].name.as_str());
            let ghost before = statements@;
            statements.push((name, st));
            proof {
                assert(named_view(statements@) =~= named_view(before).push((statements@.last().0@, statements@.last().1@)));
                assert(entries@.take(i as int + 1) =~= entries@.take(i as int).push(entries@[i as int]));
            }
            i = i + 1;
        }
        proof {
            assert(entries@.take(i as int) =~= entries@);
        }
        Pod { statements, kind: ProofKind::Signature, proof: signature }
    }
}

} // verus!
