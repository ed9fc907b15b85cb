//! Bridge from an arithmetic-circuit intermediate representation (ACIR) to a
//! rank-1 constraint system (R1CS) of the `ark-relations` proving stack.
//!
//! The pipeline converts field elements between the circuit compiler's
//! encoding and the prover's encoding, binds a partial solved witness into a
//! dense value table, extracts the supported opcodes into normalized gates,
//! and synthesizes one R1CS constraint per gate into a shared constraint
//! system.

use vstd::prelude::*;

pub mod bridge;
pub mod circuit;
pub mod field;
pub mod r1cs;
pub mod sonobe_bridge;

verus! {

/// Errors of the outer artifact-loading layer: a missing or unreadable
/// artifact path, or artifact content that cannot be deserialized.
#[derive(Debug)]
pub enum FilesystemError {
    PathNotValid(String),
    ProgramSerializationError(String),
}

/// Errors of the bridge itself.
#[derive(Debug)]
pub enum BridgeError {
    /// The circuit holds an opcode kind other than assert-zero or directive;
    /// such a circuit is not representable by this bridge.
    UnsupportedOpcode,
    /// An alias-map entry does not resolve to a genuine allocated variable: a
    /// contract violation of the caller that supplied the aliases.
    AliasInconsistency,
    /// The underlying constraint system rejected an allocation or a
    /// constraint; the proving library's error is carried verbatim.
    AllocationFailure(ark_relations::r1cs::SynthesisError),
}

} // verus!
