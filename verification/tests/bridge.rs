use acir_bridge::BridgeError;
use acir_bridge::bridge::AcirArithGate;
use acir_bridge::bridge::bind_witness_values;
use acir_bridge::bridge::extract_gates;
use acir_bridge::circuit::CircuitData;
use acir_bridge::circuit::ExpressionData;
use acir_bridge::circuit::OpcodeData;
use acir_bridge::circuit::compute_num_opcodes;
use acir_bridge::field::CompilerField;
use acir_bridge::field::ProverField;
use acir_bridge::field::compiler_round_trip;
use acir_bridge::field::prover_round_trip;
use acir_bridge::field::to_prover_field;
use acir_bridge::r1cs::AliasVar;
use acir_bridge::r1cs::R1cs;
use acir_bridge::sonobe_bridge::AcirCircuitSonobe;
use acvm::FieldElement;
use ark_bn254::Fr;
use ark_r1cs_std::alloc::AllocVar;
use ark_r1cs_std::fields::fp::FpVar;
use ark_relations::r1cs::ConstraintSystem;
use ark_relations::r1cs::ConstraintSystemRef;
use ark_relations::r1cs::SynthesisError;

fn fe(n: i128) -> CompilerField {
    CompilerField { inner: FieldElement::from(n) }
}

fn pf(n: u64) -> ProverField {
    ProverField { inner: Fr::from(n) }
}

/// The circuit asserting `a == b` through the single gate `a - b = 0`, with
/// `a` a public parameter.
fn eq_circuit() -> CircuitData {
    CircuitData {
        current_witness_index: 2,
        opcodes: vec![OpcodeData::AssertZero(ExpressionData {
            mul_terms: vec![],
            linear_combinations: vec![(fe(1), 1), (fe(-1), 2)],
            q_c: fe(0),
        })],
        public_parameters: vec![1],
        return_values: vec![],
    }
}

fn synthesize(
    circuit: &CircuitData,
    witness: Vec<(u32, CompilerField)>,
) -> (ConstraintSystemRef<Fr>, Result<(), BridgeError>) {
    let sonobe = AcirCircuitSonobe::from_circuit(circuit, &witness).unwrap();
    assert!(sonobe.check_wf());
    let cs_ref = ConstraintSystem::<Fr>::new_ref();
    let mut cs = R1cs { inner: cs_ref.clone() };
    let res = sonobe.generate_constraints(&mut cs);
    (cs_ref, res)
}

#[test]
fn simple_equal() {
    let a: u32 = 1;
    let b: u32 = 2;

    // assert a == b
    let arith = ExpressionData {
        mul_terms: vec![],
        linear_combinations: vec![(fe(1), a), (fe(-1), b)],
        q_c: fe(0),
    };
    let opcode = OpcodeData::AssertZero(arith);
    let _circ = CircuitData {
        current_witness_index: 2,
        opcodes: vec![opcode],
        public_parameters: vec![1],
        return_values: vec![],
    };
    let a_val = fe(6);
    let b_val = fe(6);
    let _values = vec![&a_val, &b_val];
}

#[test]
fn field_round_trip_compiler() {
    let x = fe(123456789);
    let r = compiler_round_trip(&x);
    assert_eq!(r.inner, x.inner);
    let y = fe(-7);
    let r = compiler_round_trip(&y);
    assert_eq!(r.inner, y.inner);
}

#[test]
fn field_round_trip_prover() {
    let x = pf(987654321);
    let r = prover_round_trip(&x);
    assert_eq!(r.inner, x.inner);
}

#[test]
fn to_prover_field_converts_value() {
    let x = fe(5);
    let r = to_prover_field(&x);
    assert_eq!(r.inner, Fr::from(5u64));
}

#[test]
fn compute_num_opcodes_costs() {
    // One assert-zero opcode with two multiplication terms costs 3, one
    // directive costs 0.
    let circ = CircuitData {
        current_witness_index: 1,
        opcodes: vec![
            OpcodeData::AssertZero(ExpressionData {
                mul_terms: vec![(fe(1), 0, 0), (fe(1), 0, 1)],
                linear_combinations: vec![],
                q_c: fe(0),
            }),
            OpcodeData::Directive,
        ],
        public_parameters: vec![],
        return_values: vec![],
    };
    assert_eq!(compute_num_opcodes(&circ), 3);
}

#[test]
fn compute_num_opcodes_empty() {
    let circ = CircuitData {
        current_witness_index: 0,
        opcodes: vec![],
        public_parameters: vec![],
        return_values: vec![],
    };
    assert_eq!(compute_num_opcodes(&circ), 0);
}

#[test]
fn bind_witness_totality() {
    // Five variables, values solved only for indices 1 and 3: the table is
    // total, with the additive identity everywhere else.
    let witness = vec![(1, fe(6)), (3, fe(7))];
    let values = bind_witness_values(5, &witness);
    assert_eq!(values.len(), 5);
    assert_eq!(values[0].inner, Fr::from(0u64));
    assert_eq!(values[1].inner, Fr::from(6u64));
    assert_eq!(values[2].inner, Fr::from(0u64));
    assert_eq!(values[3].inner, Fr::from(7u64));
    assert_eq!(values[4].inner, Fr::from(0u64));
}

#[test]
fn extract_rejects_unsupported() {
    let opcodes = vec![OpcodeData::Unsupported];
    let r = extract_gates(&opcodes);
    assert!(matches!(r, Err(BridgeError::UnsupportedOpcode)));

    let circ = CircuitData {
        current_witness_index: 0,
        opcodes: vec![OpcodeData::Unsupported],
        public_parameters: vec![],
        return_values: vec![],
    };
    let r = AcirCircuitSonobe::from_circuit(&circ, &vec![]);
    assert!(matches!(r, Err(BridgeError::UnsupportedOpcode)));
}

#[test]
fn extract_skips_directives() {
    let opcodes = vec![
        OpcodeData::Directive,
        OpcodeData::AssertZero(ExpressionData {
            mul_terms: vec![],
            linear_combinations: vec![(fe(1), 0)],
            q_c: fe(-2),
        }),
        OpcodeData::Directive,
    ];
    let gates: Vec<AcirArithGate> = extract_gates(&opcodes).unwrap();
    assert_eq!(gates.len(), 1);
    assert_eq!(gates[0].add_terms.len(), 1);
    assert_eq!(gates[0].add_terms[0].0.inner, Fr::from(1u64));
    assert_eq!(gates[0].add_terms[0].1, 0);
    assert_eq!(gates[0].constant_term.inner, -Fr::from(2u64));
}

#[test]
fn public_partition_is_read() {
    let circ = eq_circuit();
    assert!(circ.is_public(1));
    assert!(!circ.is_public(2));
    assert_eq!(circ.num_vars(), 3);
}

#[test]
fn shape_check_without_witness() {
    // A circuit can be synthesized with no solved witness at all: every
    // value defaults to zero and the shape still goes through.
    let circ = eq_circuit();
    let sonobe = AcirCircuitSonobe::from_circuit_no_witness(&circ).unwrap();
    assert!(sonobe.check_wf());
    let cs_ref = ConstraintSystem::<Fr>::new_ref();
    let mut cs = R1cs { inner: cs_ref.clone() };
    assert!(sonobe.generate_constraints(&mut cs).is_ok());
    assert_eq!(cs_ref.num_constraints(), 1);
    assert_eq!(cs_ref.num_witness_variables(), 3);
}

#[test]
fn synthesis_satisfied() {
    let circ = eq_circuit();
    let (cs_ref, res) = synthesize(&circ, vec![(1, fe(6)), (2, fe(6))]);
    assert!(res.is_ok());
    assert_eq!(cs_ref.num_constraints(), 1);
    assert_eq!(cs_ref.is_satisfied(), Ok(true));
}

#[test]
fn synthesis_unsatisfied() {
    // Synthesis still succeeds: the constraints are emitted, and the system
    // then reports itself unsatisfied.
    let circ = eq_circuit();
    let (cs_ref, res) = synthesize(&circ, vec![(1, fe(6)), (2, fe(7))]);
    assert!(res.is_ok());
    assert_eq!(cs_ref.num_constraints(), 1);
    assert_eq!(cs_ref.is_satisfied(), Ok(false));
}

#[test]
fn synthesis_mul_gate() {
    // a * b - 4 = 0 with a = b = 2; the multiplication term allocates one
    // auxiliary variable beyond the two circuit variables.
    let circ = CircuitData {
        current_witness_index: 1,
        opcodes: vec![OpcodeData::AssertZero(ExpressionData {
            mul_terms: vec![(fe(1), 0, 1)],
            linear_combinations: vec![],
            q_c: fe(-4),
        })],
        public_parameters: vec![],
        return_values: vec![],
    };
    let (cs_ref, res) = synthesize(&circ, vec![(0, fe(2)), (1, fe(2))]);
    assert!(res.is_ok());
    assert_eq!(cs_ref.num_constraints(), 1);
    assert_eq!(cs_ref.num_witness_variables(), 3);
    assert_eq!(cs_ref.is_satisfied(), Ok(true));
}

#[test]
fn synthesis_empty_circuit() {
    let circ = CircuitData {
        current_witness_index: 0,
        opcodes: vec![],
        public_parameters: vec![],
        return_values: vec![],
    };
    let (cs_ref, res) = synthesize(&circ, vec![]);
    assert!(res.is_ok());
    assert_eq!(cs_ref.num_constraints(), 0);
}

#[test]
fn synthesis_empty_witness() {
    // A missing witness value binds to zero, so `a - b = 0` holds with both
    // sides defaulted.
    let circ = eq_circuit();
    let (cs_ref, res) = synthesize(&circ, vec![]);
    assert!(res.is_ok());
    assert_eq!(cs_ref.num_constraints(), 1);
    assert_eq!(cs_ref.is_satisfied(), Ok(true));
}

fn two_gate_opcodes() -> (OpcodeData, OpcodeData) {
    let linear = OpcodeData::AssertZero(ExpressionData {
        mul_terms: vec![],
        linear_combinations: vec![(fe(1), 0), (fe(-1), 1)],
        q_c: fe(0),
    });
    let quadratic = OpcodeData::AssertZero(ExpressionData {
        mul_terms: vec![(fe(1), 0, 1)],
        linear_combinations: vec![],
        q_c: fe(-4),
    });
    (linear, quadratic)
}

#[test]
fn synthesis_order_invariance() {
    // Permuting the assert-zero opcodes changes neither satisfiability nor
    // the constraint count, for a satisfying and a refuting witness alike.
    for witness in [vec![(0, fe(2)), (1, fe(2))], vec![(0, fe(2)), (1, fe(3))]] {
        let (linear, quadratic) = two_gate_opcodes();
        let circ_a = CircuitData {
            current_witness_index: 1,
            opcodes: vec![linear, quadratic],
            public_parameters: vec![],
            return_values: vec![],
        };
        let (linear, quadratic) = two_gate_opcodes();
        let circ_b = CircuitData {
            current_witness_index: 1,
            opcodes: vec![quadratic, linear],
            public_parameters: vec![],
            return_values: vec![],
        };
        let (cs_a, res_a) = synthesize(&circ_a, witness.clone());
        let (cs_b, res_b) = synthesize(&circ_b, witness);
        assert!(res_a.is_ok());
        assert!(res_b.is_ok());
        assert_eq!(cs_a.num_constraints(), cs_b.num_constraints());
        assert_eq!(cs_a.is_satisfied(), cs_b.is_satisfied());
    }
}

#[test]
fn alias_reuses_variable() {
    // Witness 1 is aliased to a variable an outer circuit already allocated
    // with value 6; synthesis reuses it instead of allocating afresh.
    let circ = eq_circuit();
    let witness = vec![(2, fe(6))];
    let mut sonobe = AcirCircuitSonobe::from_circuit(&circ, &witness).unwrap();
    let cs_ref = ConstraintSystem::<Fr>::new_ref();
    let outer = FpVar::new_witness(cs_ref.clone(), || Ok(Fr::from(6u64))).unwrap();
    sonobe.already_assigned_witnesses.push((1, AliasVar { inner: outer }));
    assert!(sonobe.check_wf());
    let mut cs = R1cs { inner: cs_ref.clone() };
    let res = sonobe.generate_constraints(&mut cs);
    assert!(res.is_ok());
    // One variable from the outer allocation, two fresh ones for witnesses 0
    // and 2; the aliased index allocates nothing.
    assert_eq!(cs_ref.num_witness_variables(), 3);
    assert_eq!(cs_ref.is_satisfied(), Ok(true));
}

#[test]
fn alias_inconsistency_error() {
    // An alias that resolves to a constant instead of an allocated variable
    // is a fatal contract violation.
    let circ = eq_circuit();
    let witness = vec![(1, fe(6)), (2, fe(6))];
    let mut sonobe = AcirCircuitSonobe::from_circuit(&circ, &witness).unwrap();
    sonobe.already_assigned_witnesses.push((1, AliasVar {
        inner: FpVar::Constant(Fr::from(6u64)),
    }));
    let cs_ref = ConstraintSystem::<Fr>::new_ref();
    let mut cs = R1cs { inner: cs_ref.clone() };
    let res = sonobe.generate_constraints(&mut cs);
    assert!(matches!(res, Err(BridgeError::AliasInconsistency)));
}

#[test]
fn allocation_failure_propagates() {
    // A shared reference that holds no constraint system rejects every
    // allocation; the proving library's error is carried verbatim.
    let circ = eq_circuit();
    let sonobe = AcirCircuitSonobe::from_circuit(&circ, &vec![]).unwrap();
    let mut cs = R1cs { inner: ConstraintSystemRef::None };
    let res = sonobe.generate_constraints(&mut cs);
    assert!(matches!(
        res,
        Err(BridgeError::AllocationFailure(SynthesisError::MissingCS))
    ));
}

#[test]
fn check_wf_detects_bad_gate() {
    // A gate referencing a witness index at or beyond the variable count is
    // rejected by the well-formedness check.
    let sonobe = AcirCircuitSonobe {
        gates: vec![AcirArithGate {
            mul_terms: vec![],
            add_terms: vec![(pf(1), 5)],
            constant_term: pf(0),
        }],
        public_inputs: vec![],
        values: vec![pf(0), pf(0)],
        already_assigned_witnesses: vec![],
    };
    assert!(!sonobe.check_wf());
}
