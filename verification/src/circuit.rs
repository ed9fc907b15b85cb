//! The compiler-side circuit as this bridge reads it: an ordered opcode
//! list, a variable count, and the public-variable partition, with all field
//! constants still in the compiler's encoding.

use vstd::prelude::*;

use crate::field::CompilerField;

verus! {

/// A compiler expression `sum of coeff*l*r + sum of coeff*w + q_c`: ordered
/// multiplication terms, ordered linear terms, and a constant.
pub struct ExpressionData {
    /// `(coefficient, left witness, right witness)` per multiplication term.
    pub mul_terms: Vec<(CompilerField, u32, u32)>,
    /// `(coefficient, witness)` per linear term.
    pub linear_combinations: Vec<(CompilerField, u32)>,
    /// The constant term.
    pub q_c: CompilerField,
}

/// One circuit opcode, reduced to what this bridge distinguishes: an
/// assert-zero constraint, a solver-only directive, or any other kind, which
/// the bridge rejects.
pub enum OpcodeData {
    AssertZero(ExpressionData),
    Directive,
    Unsupported,
}

/// A compiled circuit: its opcodes, the highest witness index in use, and
/// the declared public variables.
pub struct CircuitData {
    /// The highest witness index the circuit uses; the variable count is one
    /// more.
    pub current_witness_index: u32,
    pub opcodes: Vec<OpcodeData>,
    /// Witness indices of the public input parameters.
    pub public_parameters: Vec<u32>,
    /// Witness indices of the public return values.
    pub return_values: Vec<u32>,
}

impl CircuitData {
    /// The number of circuit variables: witness indices run over
    /// `[0, num_vars)`.
    pub open spec fn spec_num_vars(self) -> int {
        self.current_witness_index + 1
    }

    pub fn num_vars(&self) -> (r: u32)
        requires
            self.current_witness_index < u32::MAX,
        ensures
            r == self.spec_num_vars(),
    {
        self.current_witness_index + 1
    }

    /// Whether a witness index is declared public, as an input parameter or
    /// as a return value.
    pub open spec fn spec_is_public(self, w: u32) -> bool {
        self.public_parameters@.contains(w) || self.return_values@.contains(w)
    }

    pub fn is_public(&self, w: u32) -> (r: bool)
        ensures
            r == self.spec_is_public(w),
    {
        contains_index(&self.public_parameters, w) || contains_index(&self.return_values, w)
    }
}

pub(crate) fn contains_index(v: &Vec<u32>, w: u32) -> (r: bool)
    ensures
        r == v@.contains(w),
{
    let n = v.len();
    for i in 0..n
        invariant
            n == v@.len(),
            forall|j: int| 0 <= j < i ==> v@[j] != w,
    {
        if v[i] == w {
            return true;
        }
    }
    false
}

/// Whether an opcode list holds only kinds this bridge supports.
pub open spec fn all_supported(ops: Seq<OpcodeData>) -> bool {
    forall|i: int| 0 <= i < ops.len() ==> !(ops[i] is Unsupported)
}

/// The opcode-count contribution of one opcode: an assert-zero opcode with
/// `k` multiplication terms contributes `k + 1`, a directive contributes
/// nothing.
pub open spec fn opcode_cost(op: OpcodeData) -> nat {
    match op {
        OpcodeData::AssertZero(e) => e.mul_terms@.len() + 1,
        OpcodeData::Directive => 0,
        OpcodeData::Unsupported => 0,
    }
}

/// The opcode-count contribution of a whole opcode list.
pub open spec fn total_opcode_cost(ops: Seq<OpcodeData>) -> nat
    decreases ops.len(),
{
    if ops.len() == 0 {
        0
    } else {
        total_opcode_cost(ops.drop_last()) + opcode_cost(ops.last())
    }
}

/// A prefix of an opcode list never costs more than the whole list.
proof fn lemma_prefix_cost_le(ops: Seq<OpcodeData>, i: int)
    requires
        0 <= i <= ops.len(),
    ensures
        total_opcode_cost(ops.take(i)) <= total_opcode_cost(ops),
    decreases ops.len() - i,
{
    if i == ops.len() {
        assert(ops.take(i) =~= ops);
    } else {
        assert(ops.take(i + 1).drop_last() =~= ops.take(i));
        assert(ops.take(i + 1).last() == ops[i]);
        lemma_prefix_cost_le(ops, i + 1);
    }
}

/// Counts the opcodes of a circuit weighted by their cost: each assert-zero
/// opcode with `k` multiplication terms counts `k + 1`, each directive
/// counts `0`.
pub fn compute_num_opcodes(acir: &CircuitData) -> (r: u32)
    requires
        all_supported(acir.opcodes@),
        total_opcode_cost(acir.opcodes@) <= u32::MAX,
    ensures
        r == total_opcode_cost(acir.opcodes@),
{
    let ops = &acir.opcodes;
    let n = ops.len();
    let mut total: u64 = 0;
    for i in 0..n
        invariant
            n == ops@.len(),
            total == total_opcode_cost(ops@.take(i as int)),
            total_opcode_cost(ops@) <= u32::MAX,
    {
        proof {
            assert(ops@.take(i + 1).drop_last() =~= ops@.take(i as int));
            assert(ops@.take(i + 1).last() == ops@[i as int]);
            lemma_prefix_cost_le(ops@, i + 1);
        }
        match &ops[i] {
            OpcodeData::AssertZero(e) => {
                let k = e.mul_terms.len();
                total = total + (k as u64) + 1;
            },
            OpcodeData::Directive => {},
            OpcodeData::Unsupported => {},
        }
    }
    proof {
        assert(ops@.take(n as int) =~= ops@);
    }
    total as u32
}

} // verus!
