use vstd::prelude::*;

verus! {

/// The ways in which building a proof-backed attestation fails.
#[derive(PartialEq, Eq, Structural, Clone, Copy, Debug)]
pub enum PodError {
    /// More signature-backed or proof-backed inputs than the node has slots for.
    CapacityExceeded,
    /// An attestation whose statement count differs from the node's.
    ShapeMismatch,
    /// An operation names an input or a statement that does not exist.
    UnresolvedReference,
    /// An operation's premises do not support its conclusion.
    InvalidOperation,
    /// Claimed outputs that the circuit's constraints reject.
    ProofVerificationFailure,
    /// Witness values whose number differs from the targets they are for.
    WitnessAssignmentFailure,
}

} // verus!
