//! Gate extraction and witness binding: the circuit's opcodes become
//! normalized gates with prover-side coefficients, and the sparse solved
//! witness becomes a dense value table.

use vstd::prelude::*;

use crate::circuit::CircuitData;
use crate::circuit::ExpressionData;
use crate::circuit::OpcodeData;
use crate::circuit::all_supported;
use crate::field::CompilerField;
use crate::field::ProverField;
use crate::field::fr_is_zero;
use crate::field::fr_zero;
use crate::field::prover_repr;
use crate::field::to_prover_field;
use crate::BridgeError;

verus! {

/// One normalized arithmetic gate: the shape of a compiler expression with
/// every coefficient already in the prover-side encoding. A gate is
/// satisfied when `sum of coeff*l*r + sum of coeff*w + constant` is zero
/// under the bound values.
pub struct AcirArithGate {
    /// `(coefficient, left witness, right witness)` per multiplication term.
    pub mul_terms: Vec<(ProverField, u32, u32)>,
    /// `(coefficient, witness)` per linear term.
    pub add_terms: Vec<(ProverField, u32)>,
    /// The constant term.
    pub constant_term: ProverField,
}

/// The mathematical content of a gate.
pub ghost struct GateView {
    pub mul_terms: Seq<(ProverField, u32, u32)>,
    pub add_terms: Seq<(ProverField, u32)>,
    pub constant_term: ProverField,
}

impl View for AcirArithGate {
    type V = GateView;

    open spec fn view(&self) -> GateView {
        GateView {
            mul_terms: self.mul_terms@,
            add_terms: self.add_terms@,
            constant_term: self.constant_term,
        }
    }
}

/// The normalized form of a compiler expression: the same terms, with each
/// coefficient carried into the prover-side encoding.
pub open spec fn expr_gate_view(e: ExpressionData) -> GateView {
    GateView {
        mul_terms: e.mul_terms@.map_values(
            |t: (CompilerField, u32, u32)| (prover_repr(t.0), t.1, t.2),
        ),
        add_terms: e.linear_combinations@.map_values(
            |t: (CompilerField, u32)| (prover_repr(t.0), t.1),
        ),
        constant_term: prover_repr(e.q_c),
    }
}

/// The gates an opcode list extracts to: one per assert-zero opcode, in the
/// original order; directives contribute none.
pub open spec fn extracted_gates(ops: Seq<OpcodeData>) -> Seq<GateView>
    decreases ops.len(),
{
    if ops.len() == 0 {
        Seq::empty()
    } else {
        let rest = extracted_gates(ops.drop_last());
        match ops.last() {
            OpcodeData::AssertZero(e) => rest.push(expr_gate_view(e)),
            _ => rest,
        }
    }
}

/// Normalizes one compiler expression into a gate, converting each
/// coefficient and the constant to the prover-side encoding.
pub fn convert_expression(e: &ExpressionData) -> (g: AcirArithGate)
    ensures
        g@ == expr_gate_view(*e),
{
    let mut mul_terms: Vec<(ProverField, u32, u32)> = Vec::new();
    let nm = e.mul_terms.len();
    for i in 0..nm
        invariant
            nm == e.mul_terms@.len(),
            mul_terms@ == e.mul_terms@.take(i as int).map_values(
                |t: (CompilerField, u32, u32)| (prover_repr(t.0), t.1, t.2),
            ),
    {
        let coeff = to_prover_field(&e.mul_terms[i].0);
        mul_terms.push((coeff, e.mul_terms[i].1, e.mul_terms[i].2));
        proof {
            assert(e.mul_terms@.take(i + 1).map_values(
                |t: (CompilerField, u32, u32)| (prover_repr(t.0), t.1, t.2),
            ) =~= e.mul_terms@.take(i as int).map_values(
                |t: (CompilerField, u32, u32)| (prover_repr(t.0), t.1, t.2),
            ).push((prover_repr(e.mul_terms@[i as int].0), e.mul_terms@[i as int].1,
                    e.mul_terms@[i as int].2)));
        }
    }
    let mut add_terms: Vec<(ProverField, u32)> = Vec::new();
    let nl = e.linear_combinations.len();
    for i in 0..nl
        invariant
            nl == e.linear_combinations@.len(),
            add_terms@ == e.linear_combinations@.take(i as int).map_values(
                |t: (CompilerField, u32)| (prover_repr(t.0), t.1),
            ),
    {
        let coeff = to_prover_field(&e.linear_combinations[i].0);
        add_terms.push((coeff, e.linear_combinations[i].1));
        proof {
            assert(e.linear_combinations@.take(i + 1).map_values(
                |t: (CompilerField, u32)| (prover_repr(t.0), t.1),
            ) =~= e.linear_combinations@.take(i as int).map_values(
                |t: (CompilerField, u32)| (prover_repr(t.0), t.1),
            ).push((prover_repr(e.linear_combinations@[i as int].0),
                    e.linear_combinations@[i as int].1)));
        }
    }
    let constant_term = to_prover_field(&e.q_c);
    proof {
        assert(e.mul_terms@.take(nm as int) =~= e.mul_terms@);
        assert(e.linear_combinations@.take(nl as int) =~= e.linear_combinations@);
    }
    AcirArithGate { mul_terms, add_terms, constant_term }
}

/// Extracts the gates of an opcode list: each assert-zero opcode becomes one
/// gate, in the original order; directives are skipped; any other opcode
/// kind makes the whole extraction fail, and it fails only then.
pub fn extract_gates(opcodes: &Vec<OpcodeData>) -> (r: Result<Vec<AcirArithGate>, BridgeError>)
    ensures
        r is Ok <==> all_supported(opcodes@),
        r is Ok ==> (r->Ok_0)@.map_values(|g: AcirArithGate| g@) == extracted_gates(opcodes@),
        r is Err ==> r->Err_0 is UnsupportedOpcode,
{
    let mut gates: Vec<AcirArithGate> = Vec::new();
    let n = opcodes.len();
    for i in 0..n
        invariant
            n == opcodes@.len(),
            all_supported(opcodes@.take(i as int)),
            gates@.map_values(|g: AcirArithGate| g@) == extracted_gates(opcodes@.take(i as int)),
    {
        proof {
            assert(opcodes@.take(i + 1).drop_last() =~= opcodes@.take(i as int));
            assert(opcodes@.take(i + 1).last() == opcodes@[i as int]);
        }
        match &opcodes[i] {
            OpcodeData::AssertZero(e) => {
                let g = convert_expression(e);
                gates.push(g);
                proof {
                    assert(gates@.map_values(|g: AcirArithGate| g@) =~= extracted_gates(
                        opcodes@.take(i + 1),
                    ));
                }
            },
            OpcodeData::Directive => {},
            OpcodeData::Unsupported => {
                return Err(BridgeError::UnsupportedOpcode);
            },
        }
    }
    proof {
        assert(opcodes@.take(n as int) =~= opcodes@);
    }
    Ok(gates)
}

/// The first value a sparse witness mapping binds to an index, if any.
pub open spec fn witness_lookup(witness: Seq<(u32, CompilerField)>, w: u32) -> Option<
    CompilerField,
>
    decreases witness.len(),
{
    if witness.len() == 0 {
        None
    } else if witness.first().0 == w {
        Some(witness.first().1)
    } else {
        witness_lookup(witness.drop_first(), w)
    }
}

/// Looks an index up in a sparse witness mapping, returning its first bound
/// value if any.
pub fn lookup_witness(witness: &Vec<(u32, CompilerField)>, w: u32) -> (r: Option<CompilerField>)
    ensures
        r == witness_lookup(witness@, w),
{
    let n = witness.len();
    proof {
        assert(witness@.skip(0) =~= witness@);
    }
    for i in 0..n
        invariant
            n == witness@.len(),
            witness_lookup(witness@, w) == witness_lookup(witness@.skip(i as int), w),
            i <= n,
    {
        proof {
            assert(witness@.skip(i as int).first() == witness@[i as int]);
            assert(witness@.skip(i as int).drop_first() =~= witness@.skip(i + 1));
        }
        if witness[i].0 == w {
            return Some(witness[i].1.clone());
        }
    }
    proof {
        assert(witness@.skip(n as int) =~= Seq::<(u32, CompilerField)>::empty());
    }
    None
}

/// Binds a possibly-partial solved witness into a total, dense value table:
/// the table has one entry per variable, the solved value converted to the
/// prover-side encoding where one exists, and the field's additive identity
/// everywhere else. Binding never fails; a missing value is expected.
pub fn bind_witness_values(num_vars: u32, witness: &Vec<(u32, CompilerField)>) -> (r: Vec<
    ProverField,
>)
    ensures
        r@.len() == num_vars,
        forall|i: int|
            0 <= i < num_vars && witness_lookup(witness@, i as u32) is Some ==> #[trigger] r@[i]
                == prover_repr(witness_lookup(witness@, i as u32)->0),
        forall|i: int|
            0 <= i < num_vars && witness_lookup(witness@, i as u32) is None ==> fr_is_zero(
                #[trigger] r@[i],
            ),
{
    let mut values: Vec<ProverField> = Vec::new();
    let n = num_vars as usize;
    for i in 0..n
        invariant
            values@.len() == i,
            forall|j: int|
                0 <= j < i && witness_lookup(witness@, j as u32) is Some ==> #[trigger] values@[j]
                    == prover_repr(witness_lookup(witness@, j as u32)->0),
            forall|j: int|
                0 <= j < i && witness_lookup(witness@, j as u32) is None ==> fr_is_zero(
                    #[trigger] values@[j],
                ),
    {
        match lookup_witness(witness, i as u32) {
            Some(fe) => {
                values.push(to_prover_field(&fe));
            },
            None => {
                values.push(fr_zero());
            },
        }
    }
    values
}

/// A circuit made ready for synthesis without aliasing: its normalized
/// gates, the dense prover-side value table, and the public witness indices.
pub struct AcirCircuit {
    pub gates: Vec<AcirArithGate>,
    pub values: Vec<ProverField>,
    pub public_inputs: Vec<u32>,
}

impl AcirCircuit {
    /// Builds the synthesis input from a circuit and a possibly-partial
    /// solved witness: gates extracted in order, values bound densely over
    /// all the circuit's variables, and the declared public indices carried
    /// over. Fails exactly when the circuit holds an unsupported opcode.
    pub fn from_circuit(circuit: &CircuitData, witness: &Vec<(u32, CompilerField)>) -> (r: Result<
        AcirCircuit,
        BridgeError,
    >)
        requires
            circuit.current_witness_index < u32::MAX,
        ensures
            r is Ok <==> all_supported(circuit.opcodes@),
            r is Err ==> r->Err_0 is UnsupportedOpcode,
            r is Ok ==> {
                let c = r->Ok_0;
                &&& c.gates@.map_values(|g: AcirArithGate| g@) == extracted_gates(circuit.opcodes@)
                &&& c.values@.len() == circuit.spec_num_vars()
                &&& forall|i: int|
                    0 <= i < c.values@.len() && witness_lookup(witness@, i as u32) is Some
                        ==> #[trigger] c.values@[i] == prover_repr(
                        witness_lookup(witness@, i as u32)->0,
                    )
                &&& forall|i: int|
                    0 <= i < c.values@.len() && witness_lookup(witness@, i as u32) is None
                        ==> fr_is_zero(#[trigger] c.values@[i])
                &&& c.public_inputs@ == circuit.public_parameters@ + circuit.return_values@
            },
    {
        let gates = match extract_gates(&circuit.opcodes) {
            Ok(gates) => gates,
            Err(e) => {
                return Err(e);
            },
        };
        let values = bind_witness_values(circuit.num_vars(), witness);
        let mut public_inputs: Vec<u32> = Vec::new();
        let np = circuit.public_parameters.len();
        for i in 0..np
            invariant
                np == circuit.public_parameters@.len(),
                public_inputs@ == circuit.public_parameters@.take(i as int),
        {
            public_inputs.push(circuit.public_parameters[i]);
            proof {
                assert(circuit.public_parameters@.take(i + 1) =~= circuit.public_parameters@.take(
                    i as int,
                ).push(circuit.public_parameters@[i as int]));
            }
        }
        let nr = circuit.return_values.len();
        for i in 0..nr
            invariant
                nr == circuit.return_values@.len(),
                public_inputs@ == circuit.public_parameters@.take(
                    circuit.public_parameters@.len() as int,
                ) + circuit.return_values@.take(i as int),
        {
            public_inputs.push(circuit.return_values[i]);
            proof {
                assert(circuit.public_parameters@.take(circuit.public_parameters@.len() as int)
                    + circuit.return_values@.take(i + 1) =~= (circuit.public_parameters@.take(
                    circuit.public_parameters@.len() as int,
                ) + circuit.return_values@.take(i as int)).push(
                    circuit.return_values@[i as int],
                ));
            }
        }
        proof {
            assert(circuit.public_parameters@.take(circuit.public_parameters@.len() as int)
                =~= circuit.public_parameters@);
            assert(circuit.return_values@.take(circuit.return_values@.len() as int)
                =~= circuit.return_values@);
            assert(public_inputs@ =~= circuit.public_parameters@ + circuit.return_values@);
        }
        Ok(AcirCircuit { gates, values, public_inputs })
    }
}

} // verus!
