use vstd::prelude::*;
use crate::error::PodError;
use crate::field::{canonical, GOLDILOCKS_ORDER};
use crate::operation::{OpList, Operation, OperationModel, RefModel};
use crate::pod::{pods_view, NamedPod, Pod, PodModel};
use crate::statement::{
    find_named, find_statement, lemma_find_named_prefix, lemma_find_named_push, name_statement,
    named_view, statement_name, NamedStatement, Statement, StatementModel, StatementRef,
};

verus! {

/// Equality of the field elements that two words stand for.
pub open spec fn field_eq(a: u64, b: u64) -> bool {
    a as int % GOLDILOCKS_ORDER as int == b as int % GOLDILOCKS_ORDER as int
}

/// The input name under which a program refers to its own earlier outputs.
pub open spec fn self_name() -> Seq<char> {
    "_SELF"@
}

/// The statement a reference points to: among the outputs derived so far
/// (`prev`) when it names `_SELF`, else among the named inputs.
pub open spec fn resolve(
    g: Seq<(Seq<char>, PodModel)>,
    prev: Seq<(Seq<char>, StatementModel)>,
    r: RefModel,
) -> Option<StatementModel> {
    if r.pod == self_name() {
        find_named(prev, r.statement)
    } else {
        match find_named(g, r.pod) {
            Some(p) => find_named(p.statements, r.statement),
            None => None,
        }
    }
}

/// Relates two referenced value statements: `eq` asks for equal values,
/// otherwise for different ones.
pub open spec fn relate(
    g: Seq<(Seq<char>, PodModel)>,
    prev: Seq<(Seq<char>, StatementModel)>,
    a: RefModel,
    b: RefModel,
    eq: bool,
) -> Result<StatementModel, PodError> {
    match (resolve(g, prev, a), resolve(g, prev, b)) {
        (Some(StatementModel::ValueOf { key: ka, value: va }), Some(StatementModel::ValueOf { key: kb, value: vb })) =>
            if field_eq(va, vb) != eq {
                Err(PodError::InvalidOperation)
            } else if eq {
                Ok(StatementModel::Equal { left: ka, right: kb })
            } else {
                Ok(StatementModel::NotEqual { left: ka, right: kb })
            },
        (Some(_), Some(_)) => Err(PodError::InvalidOperation),
        _ => Err(PodError::UnresolvedReference),
    }
}

/// The statement that one operation produces.
pub open spec fn apply_op(
    g: Seq<(Seq<char>, PodModel)>,
    prev: Seq<(Seq<char>, StatementModel)>,
    op: OperationModel,
) -> Result<StatementModel, PodError> {
    match op {
        OperationModel::NoOp => Ok(StatementModel::NoOp),
        OperationModel::NewEntry { key, value } => Ok(
            StatementModel::ValueOf { key, value: (value as int % GOLDILOCKS_ORDER as int) as u64 },
        ),
        OperationModel::CopyStatement(r) => match resolve(g, prev, r) {
            Some(s) => Ok(s),
            None => Err(PodError::UnresolvedReference),
        },
        OperationModel::EqualityFromEntries(a, b) => relate(g, prev, a, b, true),
        OperationModel::NonequalityFromEntries(a, b) => relate(g, prev, a, b, false),
    }
}

/// The named statements that a program derives, in order; the first failing
/// operation decides the error.
pub open spec fn eval_ops(
    g: Seq<(Seq<char>, PodModel)>,
    ops: Seq<(OperationModel, Seq<char>)>,
) -> Result<Seq<(Seq<char>, StatementModel)>, PodError>
    decreases ops.len(),
{
    if ops.len() == 0 {
        Ok(Seq::empty())
    } else {
        match eval_ops(g, ops.drop_last()) {
            Err(e) => Err(e),
            Ok(prev) => match apply_op(g, prev, ops.last().0) {
                Err(e) => Err(e),
                Ok(s) => Ok(prev.push((statement_name(s, ops.last().1), s))),
            },
        }
    }
}

/// The plaintext evaluation of a program that must yield `ns` statements.
pub open spec fn evaluate(
    g: Seq<(Seq<char>, PodModel)>,
    ops: Seq<(OperationModel, Seq<char>)>,
    ns: nat,
) -> Result<Seq<(Seq<char>, StatementModel)>, PodError> {
    match eval_ops(g, ops) {
        Err(e) => Err(e),
        Ok(out) => if out.len() == ns { Ok(out) } else { Err(PodError::ShapeMismatch) },
    }
}

/// The named attestations that a program is evaluated against. A reference
/// names both the input and the statement within it, so statements that share
/// a name in different inputs never collide: no renaming is needed, and an
/// input name that occurs twice resolves to its first occurrence.
pub struct GpgInput {
    pub pods_list: Vec<NamedPod>,
}

impl View for GpgInput {
    type V = Seq<(Seq<char>, PodModel)>;

    open spec fn view(&self) -> Seq<(Seq<char>, PodModel)> {
        pods_view(self.pods_list@)
    }
}

/// Looks up the attestation named `name`.
pub fn find_pod<'a>(pods: &'a Vec<NamedPod>, name: &String) -> (r: Option<&'a Pod>)
    ensures
        match r {
            Some(p) => find_named(pods_view(pods@), name@) == Some(p@),
            None => find_named(pods_view(pods@), name@).is_none(),
        },
{
    let mut i: usize = 0;
    while i < pods.len()
        invariant
            i <= pods.len(),
            find_named(pods_view(pods@.take(i as int)), name@).is_none(),
        decreases pods.len() - i,
    {
        proof {
            assert(pods@.take(i as int + 1) =~= pods@.take(i as int).push(pods@[i as int]));
            assert(pods_view(pods@.take(i as int + 1)) =~= pods_view(pods@.take(i as int)).push((pods@[i as int].0@, pods@[i as int].1@)));
            lemma_find_named_push(pods_view(pods@.take(i as int)), (pods@[i as int].0@, pods@[i as int].1@), name@);
        }
        if pods[i].0 == *name {
            proof {
                assert(pods_view(pods@).take(i as int + 1) =~= pods_view(pods@.take(i as int + 1)));
                lemma_find_named_prefix(pods_view(pods@), i as int + 1, name@);
            }
            return Some(&pods[i].1);
        }
        i = i + 1;
    }
    proof {
        assert(pods@.take(i as int) =~= pods@);
    }
    None
}

impl GpgInput {
    /// The statement that `r` points to, with `prev` the outputs derived so far.
    pub fn resolve<'a>(&'a self, prev: &'a Vec<NamedStatement>, r: &StatementRef) -> (s: Option<&'a Statement>)
        ensures
            match s {
                Some(st) => resolve(self@, named_view(prev@), r@) == Some(st@),
                None => resolve(self@, named_view(prev@), r@).is_none(),
            },
    {
        let own = String::from_str("_SELF");
        if r.0 == own {
            find_statement(prev, &r.1)
        } else {
            match find_pod(&self.pods_list, &r.0) {
                Some(p) => find_statement(&p.statements, &r.1),
                None => None,
            }
        }
    }

    fn relate(&self, prev: &Vec<NamedStatement>, a: &StatementRef, b: &StatementRef, eq: bool) -> (r: Result<Statement, PodError>)
        ensures
            match r {
                Ok(s) => relate(self@, named_view(prev@), a@, b@, eq) == Ok::<StatementModel, PodError>(s@),
                Err(e) => relate(self@, named_view(prev@), a@, b@, eq) == Err::<StatementModel, PodError>(e),
            },
    {
        match (self.resolve(prev, a), self.resolve(prev, b)) {
            (Some(Statement::ValueOf { key: ka, value: va }), Some(Statement::ValueOf { key: kb, value: vb })) => {
                let same = canonical(*va) == canonical(*vb);
                if same != eq {
                    Err(PodError::InvalidOperation)
                } else if eq {
                    Ok(Statement::Equal { left: ka.clone(), right: kb.clone() })
                } else {
                    Ok(Statement::NotEqual { left: ka.clone(), right: kb.clone() })
                }
            },
            (Some(_), Some(_)) => Err(PodError::InvalidOperation),
            _ => Err(PodError::UnresolvedReference),
        }
    }

    /// The statement that `op` produces after the outputs `prev`.
    pub fn apply(&self, prev: &Vec<NamedStatement>, op: &Operation) -> (r: Result<Statement, PodError>)
        ensures
            match r {
                Ok(s) => apply_op(self@, named_view(prev@), op@) == Ok::<StatementModel, PodError>(s@),
                Err(e) => apply_op(self@, named_view(prev@), op@) == Err::<StatementModel, PodError>(e),
            },
    {
        match op {
            Operation::NoOp => Ok(Statement::NoOp),
            Operation::NewEntry(e) => Ok(Statement::ValueOf { key: e.name.clone(), value: canonical(e.value) }),
            Operation::CopyStatement(r) => match self.resolve(prev, r) {
                Some(s) => Ok(s.copy()),
                None => Err(PodError::UnresolvedReference),
            },
            Operation::EqualityFromEntries(a, b) => self.relate(prev, a, b, true),
            Operation::NonequalityFromEntries(a, b) => self.relate(prev, a, b, false),
        }
    }

    /// Runs the program in plaintext: the named statements it derives, which
    /// must number `ns`.
    pub fn execute_oracle(&self, ops: &OpList, ns: usize) -> (r: Result<Vec<NamedStatement>, PodError>)
        ensures
            match r {
                Ok(out) => evaluate(self@, ops@, ns as nat) == Ok::<Seq<(Seq<char>, StatementModel)>, PodError>(named_view(out@)),
                Err(e) => evaluate(self@, ops@, ns as nat) == Err::<Seq<(Seq<char>, StatementModel)>, PodError>(e),
            },
    {
        let mut out: Vec<NamedStatement> = Vec::new();
        let mut i: usize = 0;
        proof {
            assert(ops@.take(0) =~= Seq::<(OperationModel, Seq<char>)>::empty());
            assert(named_view(out@) =~= Seq::<(Seq<char>, StatementModel)>::empty());
        }
        while i < ops.0.len()
            invariant
                i <= ops@.len(),
                ops@.len() == ops.0@.len(),
                eval_ops(self@, ops@.take(i as int)) == Ok::<Seq<(Seq<char>, StatementModel)>, PodError>(named_view(out@)),
            decreases ops@.len() - i,
        {
            let cmd = &ops.0[i];
            proof {
                assert(ops@.take(i as int + 1).drop_last() =~= ops@.take(i as int));
                assert(ops@.take(i as int + 1).last() == ops@[i as int]);
            }
            match self.apply(&out, &cmd.0) {
                Err(e) => {
                    proof {
                        lemma_eval_ops_error_persists(self@, ops@, i as int + 1, e);
                    }
                    return Err(e);
                },
                Ok(s) => {
                    let name = name_statement(&s, cmd.1.as_str());
                    let ghost old_out = out@;
                    out.push((name, s));
                    proof {
                        assert(out@ =~= old_out.push(out@.last()));
                        assert(named_view(out@) =~= named_view(old_out).push((out@.last().0@, out@.last().1@)));
                    }
                },
            }
            i = i + 1;
        }
        proof {
            assert(ops@.take(i as int) =~= ops@);
        }
        if out.len() != ns {
            return Err(PodError::ShapeMismatch);
        }
        Ok(out)
    }
}

/// Once a prefix of the program fails, the whole program fails the same way.
pub proof fn lemma_eval_ops_error_persists(
    g: Seq<(Seq<char>, PodModel)>,
    ops: Seq<(OperationModel, Seq<char>)>,
    k: int,
    e: PodError,
)
    requires
        0 <= k <= ops.len(),
        eval_ops(g, ops.take(k)) == Err::<Seq<(Seq<char>, StatementModel)>, PodError>(e),
    ensures
        eval_ops(g, ops) == Err::<Seq<(Seq<char>, StatementModel)>, PodError>(e),
    decreases ops.len() - k,
{
    if k < ops.len() {
        assert(ops.take(k + 1).drop_last() =~= ops.take(k));
        lemma_eval_ops_error_persists(g, ops, k + 1, e);
    } else {
        assert(ops.take(k) =~= ops);
    }
}

} // verus!
