use vstd::prelude::*;
use crate::error::PodError;
use crate::eval::{apply_op, eval_ops, field_eq, resolve, GpgInput};
use crate::field::{canonical, field_sub, lemma_sub_zero_iff_equal, sub_spec, GOLDILOCKS_ORDER};
use crate::operation::{OpList, Operation, OperationModel};
use crate::pod::PodModel;
use crate::statement::{name_statement, named_view, statement_name, NamedStatement, Statement, StatementModel};

verus! {

/// The canonical representative of `v`, as the circuit's targets hold it.
pub open spec fn reduced(v: u64) -> u64 {
    (v as int % GOLDILOCKS_ORDER as int) as u64
}

/// The constraints that the operator circuit places on one output slot,
/// given the operation wired to it. Equality and inequality are decided by
/// whether the difference of the two field elements vanishes.
pub open spec fn op_constraint(
    g: Seq<(Seq<char>, PodModel)>,
    prev: Seq<(Seq<char>, StatementModel)>,
    cmd: (OperationModel, Seq<char>),
    out: (Seq<char>, StatementModel),
) -> bool {
    &&& out.0 == statement_name(out.1, cmd.1)
    &&& match cmd.0 {
        OperationModel::NoOp => out.1 == StatementModel::NoOp,
        OperationModel::NewEntry { key, value } => out.1 == (StatementModel::ValueOf { key, value: reduced(value) }),
        OperationModel::CopyStatement(r) => resolve(g, prev, r) == Some(out.1),
        OperationModel::EqualityFromEntries(a, b) => match (resolve(g, prev, a), resolve(g, prev, b), out.1) {
            (Some(StatementModel::ValueOf { key: ka, value: va }), Some(StatementModel::ValueOf { key: kb, value: vb }), StatementModel::Equal { left, right }) =>
                left == ka && right == kb && sub_spec(reduced(va), reduced(vb)) == 0,
            _ => false,
        },
        OperationModel::NonequalityFromEntries(a, b) => match (resolve(g, prev, a), resolve(g, prev, b), out.1) {
            (Some(StatementModel::ValueOf { key: ka, value: va }), Some(StatementModel::ValueOf { key: kb, value: vb }), StatementModel::NotEqual { left, right }) =>
                left == ka && right == kb && sub_spec(reduced(va), reduced(vb)) != 0,
            _ => false,
        },
    }
}

/// The circuit accepts `claimed` as the outputs of `ops`: one slot per
/// operation, each meeting its operation's constraints over the inputs and
/// the slots before it.
pub open spec fn constraints_hold(
    g: Seq<(Seq<char>, PodModel)>,
    ops: Seq<(OperationModel, Seq<char>)>,
    claimed: Seq<(Seq<char>, StatementModel)>,
) -> bool {
    &&& claimed.len() == ops.len()
    &&& forall|i: int| 0 <= i < ops.len() ==> #[trigger] op_constraint(g, claimed.take(i), ops[i], claimed[i])
}

/// One slot's constraints hold exactly when the plaintext rule yields the
/// claimed statement under the claimed name.
pub proof fn lemma_slot_matches_rule(
    g: Seq<(Seq<char>, PodModel)>,
    prev: Seq<(Seq<char>, StatementModel)>,
    cmd: (OperationModel, Seq<char>),
    out: (Seq<char>, StatementModel),
)
    ensures
        op_constraint(g, prev, cmd, out) <==> (apply_op(g, prev, cmd.0) == Ok::<StatementModel, PodError>(out.1)
            && out.0 == statement_name(out.1, cmd.1)),
{
    match cmd.0 {
        OperationModel::EqualityFromEntries(a, b) | OperationModel::NonequalityFromEntries(a, b) => {
            match (resolve(g, prev, a), resolve(g, prev, b)) {
                (Some(StatementModel::ValueOf { key: ka, value: va }), Some(StatementModel::ValueOf { key: kb, value: vb })) => {
                    lemma_sub_zero_iff_equal(reduced(va), reduced(vb));
                    assert(field_eq(va, vb) <==> reduced(va) == reduced(vb));
                },
                _ => {},
            }
        },
        _ => {},
    }
}

/// The operator circuit and the plaintext evaluator agree: the circuit
/// accepts claimed outputs exactly when they are what the plaintext
/// evaluation of the same program on the same inputs yields.
pub proof fn lemma_circuit_agrees_with_oracle(
    g: Seq<(Seq<char>, PodModel)>,
    ops: Seq<(OperationModel, Seq<char>)>,
    claimed: Seq<(Seq<char>, StatementModel)>,
)
    ensures
        constraints_hold(g, ops, claimed) <==> eval_ops(g, ops) == Ok::<Seq<(Seq<char>, StatementModel)>, PodError>(claimed),
    decreases ops.len(),
{
    if ops.len() == 0 {
        if claimed.len() == 0 {
            assert(claimed =~= Seq::<(Seq<char>, StatementModel)>::empty());
        }
    } else {
        let n = ops.len() - 1;
        if claimed.len() == ops.len() {
            lemma_slot_matches_rule(g, claimed.take(n), ops[n], claimed[n]);
            assert(claimed.take(n) =~= claimed.drop_last());
            lemma_circuit_agrees_with_oracle(g, ops.drop_last(), claimed.drop_last());
            if constraints_hold(g, ops, claimed) {
                assert forall|i: int| 0 <= i < ops.drop_last().len() implies #[trigger] op_constraint(
                    g,
                    claimed.drop_last().take(i),
                    ops.drop_last()[i],
                    claimed.drop_last()[i],
                ) by {
                    assert(op_constraint(g, claimed.take(i), ops[i], claimed[i]));
                    assert(claimed.drop_last().take(i) =~= claimed.take(i));
                }
                assert(claimed.drop_last().push(claimed[n]) =~= claimed);
            }
            if eval_ops(g, ops) == Ok::<Seq<(Seq<char>, StatementModel)>, PodError>(claimed) {
                match eval_ops(g, ops.drop_last()) {
                    Ok(prev) => {
                        assert(claimed.drop_last() =~= prev);
                    },
                    Err(_) => {},
                }
                assert forall|i: int| 0 <= i < ops.len() implies #[trigger] op_constraint(g, claimed.take(i), ops[i], claimed[i]) by {
                    if i < n {
                        assert(op_constraint(g, claimed.drop_last().take(i), ops.drop_last()[i], claimed.drop_last()[i]));
                        assert(claimed.drop_last().take(i) =~= claimed.take(i));
                    }
                }
            }
        } else {
            match eval_ops(g, ops.drop_last()) {
                Ok(prev) => {
                    lemma_eval_ops_len(g, ops.drop_last());
                },
                Err(_) => {},
            }
        }
    }
}

/// A successful evaluation yields one statement per operation.
pub proof fn lemma_eval_ops_len(g: Seq<(Seq<char>, PodModel)>, ops: Seq<(OperationModel, Seq<char>)>)
    ensures
        match eval_ops(g, ops) {
            Ok(out) => out.len() == ops.len(),
            Err(_) => true,
        },
    decreases ops.len(),
{
    if ops.len() > 0 {
        lemma_eval_ops_len(g, ops.drop_last());
    }
}

/// The in-circuit counterpart of the plaintext evaluator: it checks claimed
/// outputs against the inputs rather than deriving them.
pub struct OpExecutorGadget;

impl OpExecutorGadget {
    fn check_slot(g: &GpgInput, prev: &Vec<NamedStatement>, op: &Operation, out_name: &String, out: &NamedStatement) -> (r: bool)
        ensures
            r == op_constraint(g@, named_view(prev@), (op@, out_name@), (out.0@, out.1@)),
    {
        let expected_name = name_statement(&out.1, out_name.as_str());
        if !(out.0 == expected_name) {
            return false;
        }
        match op {
            Operation::NoOp => matches!(out.1, Statement::NoOp),
            Operation::NewEntry(e) => match &out.1 {
                Statement::ValueOf { key, value } => *key == e.name && *value == canonical(e.value),
                _ => false,
            },
            Operation::CopyStatement(r) => match g.resolve(prev, r) {
                Some(s) => Self::same_statement(s, &out.1),
                None => false,
            },
            Operation::EqualityFromEntries(a, b) | Operation::NonequalityFromEntries(a, b) => {
                let eq = matches!(op, Operation::EqualityFromEntries(_, _));
                match (g.resolve(prev, a), g.resolve(prev, b), &out.1) {
                    (Some(Statement::ValueOf { key: ka, value: va }), Some(Statement::ValueOf { key: kb, value: vb }), Statement::Equal { left, right }) =>
                        eq && *left == *ka && *right == *kb && field_sub(canonical(*va), canonical(*vb)) == 0,
                    (Some(Statement::ValueOf { key: ka, value: va }), Some(Statement::ValueOf { key: kb, value: vb }), Statement::NotEqual { left, right }) =>
                        !eq && *left == *ka && *right == *kb && field_sub(canonical(*va), canonical(*vb)) != 0,
                    _ => false,
                }
            },
        }
    }

    fn same_statement(a: &Statement, b: &Statement) -> (r: bool)
        ensures
            r == (a@ == b@),
    {
        match (a, b) {
            (Statement::NoOp, Statement::NoOp) => true,
            (Statement::ValueOf { key: k1, value: v1 }, Statement::ValueOf { key: k2, value: v2 }) => *k1 == *k2 && *v1 == *v2,
            (Statement::Equal { left: l1, right: r1 }, Statement::Equal { left: l2, right: r2 }) => *l1 == *l2 && *r1 == *r2,
            (Statement::NotEqual { left: l1, right: r1 }, Statement::NotEqual { left: l2, right: r2 }) => *l1 == *l2 && *r1 == *r2,
            _ => false,
        }
    }

    /// Whether the circuit's constraints accept `claimed` as the outputs of
    /// `ops` over the inputs `g`.
    pub fn constraints_hold(g: &GpgInput, ops: &OpList, claimed: &Vec<NamedStatement>) -> (r: bool)
        ensures
            r == constraints_hold(g@, ops@, named_view(claimed@)),
    {
        if claimed.len() != ops.0.len() {
            return false;
        }
        let mut i: usize = 0;
        let mut prev: Vec<NamedStatement> = Vec::new();
        proof {
            assert(named_view(prev@) =~= named_view(claimed@).take(0));
        }
        while i < claimed.len()
            invariant
                i <= claimed@.len(),
                claimed@.len() == ops@.len(),
                ops@.len() == ops.0@.len(),
                named_view(prev@) == named_view(claimed@).take(i as int),
                forall|j: int| 0 <= j < i ==> #[trigger] op_constraint(g@, named_view(claimed@).take(j), ops@[j], named_view(claimed@)[j]),
            decreases claimed@.len() - i,
        {
            proof {
                assert(ops@[i as int] == ops.0@[i as int]@);
                assert(named_view(claimed@)[i as int] == (claimed@[i as int].0@, claimed@[i as int].1@));
            }
            if !Self::check_slot(g, &prev, &ops.0[i].0, &ops.0[i].1, &claimed[i]) {
                return false;
            }
            let ghost before = prev@;
            prev.push((claimed[i].0.clone(), claimed[i].1.copy()));
            proof {
                assert(named_view(prev@) =~= named_view(before).push(named_view(claimed@)[i as int]));
                assert(named_view(claimed@).take(i as int + 1) =~= named_view(claimed@).take(i as int).push(named_view(claimed@)[i as int]));
            }
            i = i + 1;
        }
        true
    }

    /// Checks claimed outputs as the prover's circuit would: they are
    /// accepted exactly when they are the plaintext evaluation of `ops`.
    pub fn verify_output(g: &GpgInput, ops: &OpList, claimed: &Vec<NamedStatement>) -> (r: Result<(), PodError>)
        ensures
            r is Ok <==> eval_ops(g@, ops@) == Ok::<Seq<(Seq<char>, StatementModel)>, PodError>(named_view(claimed@)),
            r is Err ==> r == Err::<(), PodError>(PodError::ProofVerificationFailure),
    {
        proof {
            lemma_circuit_agrees_with_oracle(g@, ops@, named_view(claimed@));
        }
        if Self::constraints_hold(g, ops, claimed) {
            Ok(())
        } else {
            Err(PodError::ProofVerificationFailure)
        }
    }
}

} // verus!
