use vstd::prelude::*;
use crate::statement::{Entry, StatementRef};

verus! {

/// A rule that produces one statement.
pub enum Operation {
    NoOp,
    NewEntry(Entry),
    CopyStatement(StatementRef),
    EqualityFromEntries(StatementRef, StatementRef),
    NonequalityFromEntries(StatementRef, StatementRef),
}

/// An operation with the name its output is filed under.
pub struct OperationCmd(pub Operation, pub String);

/// The ordered program that derives an attestation's statements.
pub struct OpList(pub Vec<OperationCmd>);

/// The mathematical value of a [`StatementRef`]: input name, statement name.
pub ghost struct RefModel {
    pub pod: Seq<char>,
    pub statement: Seq<char>,
}

pub ghost enum OperationModel {
    NoOp,
    NewEntry { key: Seq<char>, value: u64 },
    CopyStatement(RefModel),
    EqualityFromEntries(RefModel, RefModel),
    NonequalityFromEntries(RefModel, RefModel),
}

impl View for StatementRef {
    type V = RefModel;

    open spec fn view(&self) -> RefModel {
        RefModel { pod: self.0@, statement: self.1@ }
    }
}

impl View for Operation {
    type V = OperationModel;

    open spec fn view(&self) -> OperationModel {
        match self {
            Operation::NoOp => OperationModel::NoOp,
            Operation::NewEntry(e) => OperationModel::NewEntry { key: e.name@, value: e.value },
            Operation::CopyStatement(r) => OperationModel::CopyStatement(r@),
            Operation::EqualityFromEntries(a, b) => OperationModel::EqualityFromEntries(a@, b@),
            Operation::NonequalityFromEntries(a, b) => OperationModel::NonequalityFromEntries(a@, b@),
        }
    }
}

impl View for OperationCmd {
    type V = (OperationModel, Seq<char>);

    open spec fn view(&self) -> (OperationModel, Seq<char>) {
        (self.0@, self.1@)
    }
}

impl View for OpList {
    type V = Seq<(OperationModel, Seq<char>)>;

    open spec fn view(&self) -> Seq<(OperationModel, Seq<char>)> {
        self.0@.map_values(|c: OperationCmd| c@)
    }
}

} // verus!
