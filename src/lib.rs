//! Provable object data: statements, operations over them, and the
//! fixed-capacity composition step that turns a set of attestations into the
//! inputs of one recursive proof.
pub mod field;
pub mod text;
pub mod statement;
pub mod eddsa;
pub mod podcount;
pub mod error;
pub mod operation;
pub mod pod;
pub mod eval;
pub mod gadget;
pub mod order;
pub mod arrange;
pub mod combine;
pub mod laws;
pub mod tree;
