//! The constraint synthesizer: given normalized gates, a dense value table,
//! the public-variable set, and an optional alias map of pre-allocated
//! variables, it emits exactly one rank-1 constraint per gate into a shared
//! constraint system.

use vstd::prelude::*;

use crate::bridge::AcirArithGate;
use crate::bridge::AcirCircuit;
use crate::bridge::GateView;
use crate::bridge::extracted_gates;
use crate::bridge::witness_lookup;
use crate::circuit::CircuitData;
use crate::circuit::all_supported;
use crate::circuit::contains_index;
use crate::field::CompilerField;
use crate::field::ProverField;
use crate::field::fr_is_zero;
use crate::field::fr_mul;
use crate::field::fr_product;
use crate::field::fr_sum;
use crate::field::prover_repr;
use crate::r1cs::AliasVar;
use crate::r1cs::R1cs;
use crate::r1cs::alias_to_variable;
use crate::r1cs::alias_variable;
use crate::r1cs::alloc_fp_witness;
use crate::r1cs::alloc_witness_var;
use crate::r1cs::LinComb;
use crate::r1cs::enforce_lc_zero;
use crate::r1cs::is_one_variable;
use crate::r1cs::lc_add_term;
use crate::r1cs::lc_coeff;
use crate::r1cs::lc_new;
use crate::r1cs::r1cs_constraint_lcs;
use crate::r1cs::r1cs_constructs_matrices;
use crate::r1cs::r1cs_holds_system;
use crate::r1cs::r1cs_is_setup;
use crate::r1cs::r1cs_num_constraints;
use crate::r1cs::r1cs_witness_values;
use crate::r1cs::variable_one;
use crate::BridgeError;

verus! {

/// How a circuit variable is declared: as a public input or as a private
/// witness. The current synthesis allocates both identically as
/// witness-type variables; the kind is surfaced at the allocation site so a
/// backend that distinguishes the two is a local policy change.
pub enum AllocKind {
    PublicInput,
    PrivateWitness,
}

/// Allocates one fresh circuit variable seeded with the given value. Both
/// allocation kinds are deliberately allocated the same way, as general
/// witness-type variables; the contract states the same effect for either
/// kind.
pub fn alloc_circuit_variable(cs: &mut R1cs, v: &ProverField, kind: AllocKind) -> (r: Result<
    ark_relations::r1cs::Variable,
    ark_relations::r1cs::SynthesisError,
>)
    ensures
        r is Ok <==> r1cs_holds_system(*old(cs)),
        r is Ok && !r1cs_is_setup(*old(cs)) ==> r1cs_witness_values(*final(cs))
            == r1cs_witness_values(*old(cs)).push(*v),
        r is Ok && r1cs_is_setup(*old(cs)) ==> r1cs_witness_values(*final(cs))
            == r1cs_witness_values(*old(cs)),
        r is Ok ==> r1cs_num_constraints(*final(cs)) == r1cs_num_constraints(*old(cs)),
        r is Ok ==> r1cs_is_setup(*final(cs)) == r1cs_is_setup(*old(cs)),
        r is Ok ==> r1cs_holds_system(*final(cs)) == r1cs_holds_system(*old(cs)),
        r is Ok ==> r1cs_constructs_matrices(*final(cs)) == r1cs_constructs_matrices(*old(cs)),
        r is Ok ==> r1cs_constraint_lcs(*final(cs)) == r1cs_constraint_lcs(*old(cs)),
        r is Err ==> *final(cs) == *old(cs),
{
    match kind {
        AllocKind::PublicInput => alloc_witness_var(cs, v),
        AllocKind::PrivateWitness => alloc_witness_var(cs, v),
    }
}

/// The first externally owned variable an alias map binds to a witness
/// index, if any.
pub open spec fn alias_lookup(aliases: Seq<(u32, AliasVar)>, w: u32) -> Option<AliasVar>
    decreases aliases.len(),
{
    if aliases.len() == 0 {
        None
    } else if aliases.first().0 == w {
        Some(aliases.first().1)
    } else {
        alias_lookup(aliases.drop_first(), w)
    }
}

/// Looks a witness index up in the alias map, returning its externally
/// owned variable if one was supplied.
fn lookup_alias(aliases: &Vec<(u32, AliasVar)>, w: u32) -> (r: Option<AliasVar>)
    ensures
        r == alias_lookup(aliases@, w),
{
    let n = aliases.len();
    proof {
        assert(aliases@.skip(0) =~= aliases@);
    }
    for i in 0..n
        invariant
            n == aliases@.len(),
            alias_lookup(aliases@, w) == alias_lookup(aliases@.skip(i as int), w),
    {
        proof {
            assert(aliases@.skip(i as int).first() == aliases@[i as int]);
            assert(aliases@.skip(i as int).drop_first() =~= aliases@.skip(i + 1));
        }
        if aliases[i].0 == w {
            return Some(aliases[i].1.clone());
        }
    }
    proof {
        assert(aliases@.skip(n as int) =~= Seq::<(u32, AliasVar)>::empty());
    }
    None
}

/// The values the variable-allocation pass seeds into fresh variables: the
/// bound value of every witness index below `n` that has no alias, in
/// ascending index order.
pub open spec fn fresh_alloc_values(
    values: Seq<ProverField>,
    aliases: Seq<(u32, AliasVar)>,
    n: int,
) -> Seq<ProverField>
    decreases n,
{
    if n <= 0 {
        Seq::empty()
    } else if alias_lookup(aliases, (n - 1) as u32) is Some {
        fresh_alloc_values(values, aliases, n - 1)
    } else {
        fresh_alloc_values(values, aliases, n - 1).push(values[n - 1])
    }
}

/// The values of the fresh auxiliary variables of one gate: the numeric
/// product of the two bound operand values of each multiplication term, in
/// term order.
pub open spec fn gate_products(g: GateView, values: Seq<ProverField>) -> Seq<ProverField> {
    g.mul_terms.map_values(
        |t: (ProverField, u32, u32)| fr_product(values[t.1 as int], values[t.2 as int]),
    )
}

/// The auxiliary values of a whole gate list, gate by gate in order.
pub open spec fn gates_products(gates: Seq<GateView>, values: Seq<ProverField>) -> Seq<
    ProverField,
>
    decreases gates.len(),
{
    if gates.len() == 0 {
        Seq::empty()
    } else {
        gates_products(gates.drop_last(), values) + gate_products(gates.last(), values)
    }
}

/// The auxiliary values of a concatenation of gate lists are the two
/// lists' auxiliary values, in order.
proof fn lemma_gates_products_concat(
    s1: Seq<GateView>,
    s2: Seq<GateView>,
    values: Seq<ProverField>,
)
    ensures
        gates_products(s1 + s2, values) == gates_products(s1, values) + gates_products(
            s2,
            values,
        ),
    decreases s2.len(),
{
    if s2.len() == 0 {
        assert(s1 + s2 =~= s1);
        assert(gates_products(s1, values) + gates_products(s2, values) =~= gates_products(
            s1,
            values,
        ));
    } else {
        lemma_gates_products_concat(s1, s2.drop_last(), values);
        assert((s1 + s2).drop_last() =~= s1 + s2.drop_last());
        assert((s1 + s2).last() == s2.last());
        assert(gates_products(s1 + s2, values) =~= gates_products(s1, values) + gates_products(
            s2,
            values,
        ));
    }
}

/// Order invariance of the allocation a gate list causes: two gate lists
/// that hold the same gates, in whatever order, make the synthesis seed the
/// same multiset of auxiliary values from the same value table. (Whether
/// the resulting system is satisfied is decided by the proving library,
/// outside this model; the gates themselves are unchanged by reordering.)
pub proof fn lemma_gate_order_products(
    g1: Seq<GateView>,
    g2: Seq<GateView>,
    values: Seq<ProverField>,
)
    requires
        g1.to_multiset() == g2.to_multiset(),
    ensures
        g1.len() == g2.len(),
        gates_products(g1, values).to_multiset() == gates_products(g2, values).to_multiset(),
    decreases g1.len(),
{
    broadcast use vstd::seq_lib::group_to_multiset_ensures;
    broadcast use vstd::multiset::group_multiset_axioms;

    assert(g1.len() == g1.to_multiset().len());
    assert(g2.len() == g2.to_multiset().len());

    if g1.len() == 0 {
        assert(g2.to_multiset().len() == 0);
        assert(g2.len() == 0);
    } else {
        let g = g1.last();
        assert(g1[g1.len() - 1] == g);
        assert(g1.contains(g));
        assert(g2.to_multiset().count(g) > 0);
        assert(g2.contains(g));
        let j = choose|j: int| 0 <= j < g2.len() && g2[j] == g;
        let left = g2.take(j);
        let right = g2.skip(j + 1);
        let rest2 = left + right;
        assert(g2.remove(j) =~= rest2);
        assert(g2.remove(j).to_multiset() =~= g2.to_multiset().remove(g));
        assert(g1.drop_last().push(g) =~= g1);
        assert(g1.drop_last().push(g).to_multiset() =~= g1.drop_last().to_multiset().insert(g));
        assert(rest2.to_multiset() =~= g1.drop_last().to_multiset());
        lemma_gate_order_products(g1.drop_last(), rest2, values);
        assert((left + seq![g]) + right =~= g2);
        lemma_gates_products_concat(left + seq![g], right, values);
        lemma_gates_products_concat(left, seq![g], values);
        lemma_gates_products_concat(left, right, values);
        assert(seq![g].drop_last() =~= Seq::<GateView>::empty());
        assert(seq![g].last() == g);
        assert(gates_products(seq![g], values) == gates_products(
            seq![g].drop_last(),
            values,
        ) + gate_products(g, values));
        assert(gates_products(Seq::<GateView>::empty(), values)
            =~= Seq::<ProverField>::empty());
        assert(gates_products(seq![g], values) =~= gate_products(g, values));
        assert(gates_products(g1, values) =~= gates_products(g1.drop_last(), values)
            + gate_products(g, values));
        vstd::seq_lib::lemma_multiset_commutative(
            gates_products(g1.drop_last(), values),
            gate_products(g, values),
        );
        vstd::seq_lib::lemma_multiset_commutative(
            gates_products(left, values),
            gates_products(right, values),
        );
        vstd::seq_lib::lemma_multiset_commutative(
            gates_products(left + seq![g], values),
            gates_products(right, values),
        );
        vstd::seq_lib::lemma_multiset_commutative(
            gates_products(left, values),
            gate_products(g, values),
        );
        assert(gates_products(g1, values).to_multiset() =~= gates_products(
            g2,
            values,
        ).to_multiset());
    }
}

/// The total coefficient of `v` after the given `(coefficient, variable)`
/// terms are added, in order, to a combination in which `v`'s total was
/// `z`.
pub open spec fn coeff_after(
    terms: Seq<(ProverField, ark_relations::r1cs::Variable)>,
    v: ark_relations::r1cs::Variable,
    z: ProverField,
) -> ProverField
    decreases terms.len(),
{
    if terms.len() == 0 {
        z
    } else {
        let rest = coeff_after(terms.drop_last(), v, z);
        if terms.last().1 == v {
            fr_sum(rest, terms.last().0)
        } else {
            rest
        }
    }
}

/// Adding one more term changes only that term's variable, by the term's
/// coefficient.
proof fn lemma_coeff_after_push(
    terms: Seq<(ProverField, ark_relations::r1cs::Variable)>,
    t: (ProverField, ark_relations::r1cs::Variable),
    v: ark_relations::r1cs::Variable,
    z: ProverField,
)
    ensures
        coeff_after(terms.push(t), v, z) == if t.1 == v {
            fr_sum(coeff_after(terms, v, z), t.0)
        } else {
            coeff_after(terms, v, z)
        },
{
    assert(terms.push(t).drop_last() =~= terms);
    assert(terms.push(t).last() == t);
}

/// The combination terms of a gate's first `k` multiplication terms: each
/// coefficient with its auxiliary handle.
pub open spec fn mul_term_handles(g: GateView, auxs: Seq<ark_relations::r1cs::Variable>, k: int) -> Seq<
    (ProverField, ark_relations::r1cs::Variable),
> {
    Seq::new(k as nat, |i: int| (g.mul_terms[i].0, auxs[i]))
}

/// The combination terms of a gate's first `k` linear terms: each
/// coefficient with the handle its witness index resolves to.
pub open spec fn add_term_handles(g: GateView, table: Seq<ark_relations::r1cs::Variable>, k: int) -> Seq<
    (ProverField, ark_relations::r1cs::Variable),
> {
    Seq::new(k as nat, |i: int| (g.add_terms[i].0, table[g.add_terms[i].1 as int]))
}

/// The whole `(coefficient, handle)` sequence one gate adds to its
/// combination: its multiplication terms over auxiliary handles, its linear
/// terms over the witness-handle table, and its constant over the unit
/// variable.
pub open spec fn gate_term_seq(
    g: GateView,
    auxs: Seq<ark_relations::r1cs::Variable>,
    table: Seq<ark_relations::r1cs::Variable>,
    onev: ark_relations::r1cs::Variable,
) -> Seq<(ProverField, ark_relations::r1cs::Variable)> {
    mul_term_handles(g, auxs, g.mul_terms.len() as int) + add_term_handles(
        g,
        table,
        g.add_terms.len() as int,
    ) + seq![(g.constant_term, onev)]
}

/// One gate's equation, read off an enforced combination: with `auxs` the
/// handles of its multiplication terms, `onev` the unit variable, and
/// `lc0` a fresh combination, the coefficients are what adding all of
/// `g`'s terms to `lc0` yields.
pub open spec fn gate_emitted_with(
    g: GateView,
    table: Seq<ark_relations::r1cs::Variable>,
    lc: LinComb,
    auxs: Seq<ark_relations::r1cs::Variable>,
    onev: ark_relations::r1cs::Variable,
    lc0: LinComb,
) -> bool {
    &&& auxs.len() == g.mul_terms.len()
    &&& is_one_variable(onev)
    &&& forall|v: ark_relations::r1cs::Variable| fr_is_zero(#[trigger] lc_coeff(lc0, v))
    &&& forall|v: ark_relations::r1cs::Variable|
        #[trigger] lc_coeff(lc, v) == coeff_after(
            gate_term_seq(g, auxs, table, onev),
            v,
            lc_coeff(lc0, v),
        )
}

/// Whether some choice of auxiliary handles, unit variable and fresh
/// combination shows the combination to carry exactly this gate's
/// equation.
pub open spec fn gate_emitted(g: GateView, table: Seq<ark_relations::r1cs::Variable>, lc: LinComb) -> bool {
    exists|
        auxs: Seq<ark_relations::r1cs::Variable>,
        onev: ark_relations::r1cs::Variable,
        lc0: LinComb,
    |
        #[trigger] gate_emitted_with(g, table, lc, auxs, onev, lc0)
}

/// The constraints from `start` on carry the gates in order over one shared
/// witness-handle table, in which every aliased index holds the variable
/// its alias resolves to.
pub open spec fn emitted_with_table(
    gates: Seq<GateView>,
    aliases: Seq<(u32, AliasVar)>,
    n: int,
    table: Seq<ark_relations::r1cs::Variable>,
    lcs: Seq<LinComb>,
    start: int,
) -> bool {
    &&& table.len() == n
    &&& forall|w: int|
        0 <= w < n && (#[trigger] alias_lookup(aliases, w as u32)) is Some ==> table[w]
            == alias_variable(alias_lookup(aliases, w as u32)->0)->0
    &&& forall|j: int|
        0 <= j < gates.len() ==> gate_emitted(#[trigger] gates[j], table, lcs[start + j])
}

/// Whether a gate only references witness indices below the variable count.
pub open spec fn gate_wf(g: GateView, n: int) -> bool {
    &&& forall|i: int|
        0 <= i < g.mul_terms.len() ==> (#[trigger] g.mul_terms[i]).1 < n && g.mul_terms[i].2 < n
    &&& forall|i: int| 0 <= i < g.add_terms.len() ==> (#[trigger] g.add_terms[i]).1 < n
}

/// Checks that a gate only references witness indices below `n`.
fn check_gate_wf(gate: &AcirArithGate, n: usize) -> (r: bool)
    ensures
        r == gate_wf(gate@, n as int),
{
    let nm = gate.mul_terms.len();
    for i in 0..nm
        invariant
            nm == gate.mul_terms@.len(),
            forall|j: int|
                0 <= j < i ==> (#[trigger] gate@.mul_terms[j]).1 < n && gate@.mul_terms[j].2 < n,
    {
        let t = &gate.mul_terms[i];
        if t.1 as usize >= n || t.2 as usize >= n {
            proof {
                assert(!((#[trigger] gate@.mul_terms[i as int]).1 < n
                    && gate@.mul_terms[i as int].2 < n));
            }
            return false;
        }
    }
    let na = gate.add_terms.len();
    for i in 0..na
        invariant
            na == gate.add_terms@.len(),
            forall|j: int|
                0 <= j < gate.mul_terms@.len() ==> (#[trigger] gate@.mul_terms[j]).1 < n
                    && gate@.mul_terms[j].2 < n,
            forall|j: int| 0 <= j < i ==> (#[trigger] gate@.add_terms[j]).1 < n,
    {
        let t = &gate.add_terms[i];
        if t.1 as usize >= n {
            proof {
                assert(!((#[trigger] gate@.add_terms[i as int]).1 < n));
            }
            return false;
        }
    }
    true
}

/// The synthesis input: normalized gates, the public witness indices, the
/// total dense value table, and the alias map of externally owned
/// pre-allocated variables. It is built once per circuit-and-witness pair
/// and consumed exactly once by `generate_constraints`.
pub struct AcirCircuitSonobe {
    pub gates: Vec<AcirArithGate>,
    pub public_inputs: Vec<u32>,
    pub values: Vec<ProverField>,
    pub already_assigned_witnesses: Vec<(u32, AliasVar)>,
}

impl AcirCircuitSonobe {
    /// The mathematical content of the gates, in order.
    pub open spec fn gate_views(self) -> Seq<GateView> {
        self.gates@.map_values(|g: AcirArithGate| g@)
    }

    /// The synthesis input is well formed when every gate references only
    /// witness indices below the variable count, and that count fits the
    /// width of a witness index.
    pub open spec fn wf(self) -> bool {
        &&& self.values@.len() <= u32::MAX
        &&& forall|i: int|
            0 <= i < self.gate_views().len() ==> gate_wf(
                #[trigger] self.gate_views()[i],
                self.values@.len() as int,
            )
    }

    /// Builds the synthesis input from a circuit made ready for synthesis,
    /// with an empty alias map.
    pub fn from_acir_circuit(circuit: AcirCircuit) -> (r: AcirCircuitSonobe)
        ensures
            r.gates == circuit.gates,
            r.public_inputs == circuit.public_inputs,
            r.values == circuit.values,
            r.already_assigned_witnesses@ == Seq::<(u32, AliasVar)>::empty(),
    {
        AcirCircuitSonobe {
            gates: circuit.gates,
            public_inputs: circuit.public_inputs,
            values: circuit.values,
            already_assigned_witnesses: Vec::new(),
        }
    }

    /// Builds the synthesis input directly from a circuit and a
    /// possibly-partial solved witness, with an empty alias map: gates
    /// extracted in order, values bound densely over all the circuit's
    /// variables, and the declared public indices carried over. Fails
    /// exactly when the circuit holds an unsupported opcode.
    pub fn from_circuit(circuit: &CircuitData, witness: &Vec<(u32, CompilerField)>) -> (r: Result<
        AcirCircuitSonobe,
        BridgeError,
    >)
        requires
            circuit.current_witness_index < u32::MAX,
        ensures
            r is Ok <==> all_supported(circuit.opcodes@),
            r is Err ==> r->Err_0 is UnsupportedOpcode,
            r is Ok ==> {
                let c = r->Ok_0;
                &&& c.gate_views() == extracted_gates(circuit.opcodes@)
                &&& c.values@.len() == circuit.spec_num_vars()
                &&& forall|i: int|
                    0 <= i < c.values@.len() && witness_lookup(witness@, i as u32) is Some
                        ==> #[trigger] c.values@[i] == prover_repr(
                        witness_lookup(witness@, i as u32)->0,
                    )
                &&& forall|i: int|
                    0 <= i < c.values@.len() && witness_lookup(witness@, i as u32) is None
                        ==> fr_is_zero(#[trigger] c.values@[i])
                &&& c.public_inputs@ == circuit.public_parameters@ + circuit.return_values@
                &&& c.already_assigned_witnesses@ == Seq::<(u32, AliasVar)>::empty()
            },
    {
        let acir = match AcirCircuit::from_circuit(circuit, witness) {
            Ok(acir) => acir,
            Err(e) => {
                return Err(e);
            },
        };
        Ok(Self::from_acir_circuit(acir))
    }

    /// Builds the synthesis input from a circuit alone, with no solved
    /// witness and an empty alias map: every value in the table is the
    /// field's additive identity, so the result can only shape-check the
    /// circuit. Fails exactly when the circuit holds an unsupported opcode.
    pub fn from_circuit_no_witness(circuit: &CircuitData) -> (r: Result<
        AcirCircuitSonobe,
        BridgeError,
    >)
        requires
            circuit.current_witness_index < u32::MAX,
        ensures
            r is Ok <==> all_supported(circuit.opcodes@),
            r is Err ==> r->Err_0 is UnsupportedOpcode,
            r is Ok ==> {
                let c = r->Ok_0;
                &&& c.gate_views() == extracted_gates(circuit.opcodes@)
                &&& c.values@.len() == circuit.spec_num_vars()
                &&& forall|i: int|
                    0 <= i < c.values@.len() ==> fr_is_zero(#[trigger] c.values@[i])
                &&& c.public_inputs@ == circuit.public_parameters@ + circuit.return_values@
                &&& c.already_assigned_witnesses@ == Seq::<(u32, AliasVar)>::empty()
            },
    {
        let witness: Vec<(u32, CompilerField)> = Vec::new();
        let r = Self::from_circuit(circuit, &witness);
        proof {
            if r is Ok {
                let c = r->Ok_0;
                assert(forall|i: int|
                    0 <= i < c.values@.len() ==> (#[trigger] witness_lookup(
                        witness@,
                        i as u32,
                    )) is None);
            }
        }
        r
    }

    /// Checks the well-formedness that `generate_constraints` relies on, so
    /// an unverified caller can establish it before synthesis.
    pub fn check_wf(&self) -> (r: bool)
        ensures
            r == self.wf(),
    {
        if self.values.len() > u32::MAX as usize {
            return false;
        }
        let n = self.values.len();
        let num_gates = self.gates.len();
        for gi in 0..num_gates
            invariant
                n == self.values@.len(),
                num_gates == self.gate_views().len(),
                forall|i: int|
                    0 <= i < gi ==> gate_wf(#[trigger] self.gate_views()[i], n as int),
        {
            let gate = &self.gates[gi];
            proof {
                assert(self.gate_views()[gi as int] == gate@);
            }
            if !check_gate_wf(gate, n) {
                return false;
            }
        }
        true
    }

    /// Emits the circuit into the shared constraint system.
    ///
    /// A variable-allocation pass walks the witness indices in ascending
    /// order: an aliased index resolves to its externally owned variable and
    /// allocates nothing, and any other index allocates a fresh variable
    /// seeded with its bound value. A gate-emission pass then enforces one
    /// constraint per gate in order, allocating one fresh auxiliary
    /// variable per multiplication term, seeded with the numeric product of
    /// the term's bound operand values.
    ///
    /// On success the constraint count rises by exactly the number of
    /// gates, and the witness assignment by exactly the values the two
    /// passes allocate. On a reference that holds a constraint system,
    /// synthesis succeeds exactly when every alias resolves to an allocated
    /// variable, and fails with `AliasInconsistency` otherwise; an
    /// allocation the constraint system rejects is propagated as
    /// `AllocationFailure`, which arises only from a reference holding no
    /// system, and then nothing was changed. An alias fault is found during
    /// the allocation pass, so no constraint has been enforced when it is
    /// reported.
    ///
    /// On a matrix-keeping system, each enforced combination carries its
    /// own gate's equation over one shared witness-handle table, in which
    /// every aliased index holds exactly the variable its alias resolves
    /// to.
    pub fn generate_constraints(self, cs: &mut R1cs) -> (r: Result<(), BridgeError>)
        requires
            self.wf(),
        ensures
            r is Ok ==> r1cs_num_constraints(*final(cs)) == r1cs_num_constraints(*old(cs))
                + self.gate_views().len(),
            r is Ok && !r1cs_is_setup(*old(cs)) ==> r1cs_witness_values(*final(cs))
                == r1cs_witness_values(*old(cs)) + fresh_alloc_values(
                self.values@,
                self.already_assigned_witnesses@,
                self.values@.len() as int,
            ) + gates_products(self.gate_views(), self.values@),
            r is Ok && r1cs_is_setup(*old(cs)) ==> r1cs_witness_values(*final(cs))
                == r1cs_witness_values(*old(cs)),
            r is Ok ==> r1cs_is_setup(*final(cs)) == r1cs_is_setup(*old(cs)),
            r is Ok ==> r1cs_holds_system(*final(cs)) == r1cs_holds_system(*old(cs)),
            r is Ok ==> r1cs_constructs_matrices(*final(cs)) == r1cs_constructs_matrices(
                *old(cs),
            ),
            r is Ok && !r1cs_constructs_matrices(*old(cs)) ==> r1cs_constraint_lcs(*final(cs))
                == r1cs_constraint_lcs(*old(cs)),
            r is Ok && r1cs_constructs_matrices(*old(cs)) ==> r1cs_constraint_lcs(
                *final(cs),
            ).len() == r1cs_constraint_lcs(*old(cs)).len() + self.gate_views().len(),
            r is Ok && r1cs_constructs_matrices(*old(cs)) ==> r1cs_constraint_lcs(
                *final(cs),
            ).take(r1cs_constraint_lcs(*old(cs)).len() as int) == r1cs_constraint_lcs(*old(cs)),
            r is Ok && r1cs_constructs_matrices(*old(cs)) ==> exists|
                table: Seq<ark_relations::r1cs::Variable>,
            |
                emitted_with_table(
                    self.gate_views(),
                    self.already_assigned_witnesses@,
                    self.values@.len() as int,
                    table,
                    r1cs_constraint_lcs(*final(cs)),
                    r1cs_constraint_lcs(*old(cs)).len() as int,
                ),
            r1cs_holds_system(*old(cs)) && (forall|w: int|
                0 <= w < self.values@.len() && (#[trigger] alias_lookup(
                    self.already_assigned_witnesses@,
                    w as u32,
                )) is Some ==> alias_variable(
                    alias_lookup(self.already_assigned_witnesses@, w as u32)->0,
                ) is Some) ==> r is Ok,
            r1cs_holds_system(*old(cs)) && r is Err ==> r->Err_0 is AliasInconsistency,
            r is Err && r->Err_0 is AliasInconsistency ==> r1cs_num_constraints(*final(cs))
                == r1cs_num_constraints(*old(cs)),
            r is Err && r->Err_0 is AllocationFailure ==> !r1cs_holds_system(*old(cs))
                && *final(cs) == *old(cs),
            r is Ok ==> forall|w: int|
                0 <= w < self.values@.len() && (#[trigger] alias_lookup(
                    self.already_assigned_witnesses@,
                    w as u32,
                )) is Some ==> alias_variable(
                    alias_lookup(self.already_assigned_witnesses@, w as u32)->0,
                ) is Some,
            r is Err && r->Err_0 is AliasInconsistency ==> exists|w: int|
                0 <= w < self.values@.len() && (#[trigger] alias_lookup(
                    self.already_assigned_witnesses@,
                    w as u32,
                )) is Some && alias_variable(
                    alias_lookup(self.already_assigned_witnesses@, w as u32)->0,
                ) is None,
            r is Err ==> !(r->Err_0 is UnsupportedOpcode),
    {
        let n = self.values.len();
        let mut variables: Vec<ark_relations::r1cs::Variable> = Vec::new();
        for i in 0..n
            invariant
                n == self.values@.len(),
                n <= u32::MAX,
                variables@.len() == i,
                r1cs_num_constraints(*cs) == r1cs_num_constraints(*old(cs)),
                r1cs_is_setup(*cs) == r1cs_is_setup(*old(cs)),
                r1cs_holds_system(*cs) == r1cs_holds_system(*old(cs)),
                !r1cs_holds_system(*old(cs)) ==> *cs == *old(cs),
                r1cs_constructs_matrices(*cs) == r1cs_constructs_matrices(*old(cs)),
                r1cs_constraint_lcs(*cs) == r1cs_constraint_lcs(*old(cs)),
                forall|w: int|
                    0 <= w < i && (#[trigger] alias_lookup(
                        self.already_assigned_witnesses@,
                        w as u32,
                    )) is Some ==> variables@[w] == alias_variable(
                        alias_lookup(self.already_assigned_witnesses@, w as u32)->0,
                    )->0,
                !r1cs_is_setup(*old(cs)) ==> r1cs_witness_values(*cs) == r1cs_witness_values(
                    *old(cs),
                ) + fresh_alloc_values(
                    self.values@,
                    self.already_assigned_witnesses@,
                    i as int,
                ),
                r1cs_is_setup(*old(cs)) ==> r1cs_witness_values(*cs) == r1cs_witness_values(
                    *old(cs),
                ),
                forall|w: int|
                    0 <= w < i && (#[trigger] alias_lookup(
                        self.already_assigned_witnesses@,
                        w as u32,
                    )) is Some ==> alias_variable(
                        alias_lookup(self.already_assigned_witnesses@, w as u32)->0,
                    ) is Some,
        {
            match lookup_alias(&self.already_assigned_witnesses, i as u32) {
                Some(aliased) => {
                    match alias_to_variable(&aliased) {
                        Some(var) => {
                            variables.push(var);
                        },
                        None => {
                            return Err(BridgeError::AliasInconsistency);
                        },
                    }
                },
                None => {
                    let kind = if contains_index(&self.public_inputs, i as u32) {
                        AllocKind::PublicInput
                    } else {
                        AllocKind::PrivateWitness
                    };
                    let var = match alloc_circuit_variable(cs, &self.values[i], kind) {
                        Ok(var) => var,
                        Err(e) => {
                            return Err(BridgeError::AllocationFailure(e));
                        },
                    };
                    proof {
                        if !r1cs_is_setup(*old(cs)) {
                            assert(r1cs_witness_values(*cs) =~= r1cs_witness_values(*old(cs))
                                + fresh_alloc_values(
                                self.values@,
                                self.already_assigned_witnesses@,
                                i + 1,
                            ));
                        }
                    }
                    variables.push(var);
                },
            }
        }
        let ghost base = r1cs_witness_values(*old(cs)) + fresh_alloc_values(
            self.values@,
            self.already_assigned_witnesses@,
            n as int,
        );
        proof {
            assert(r1cs_constraint_lcs(*cs).take(r1cs_constraint_lcs(*old(cs)).len() as int)
                =~= r1cs_constraint_lcs(*old(cs)));
        }
        let num_gates = self.gates.len();
        for gi in 0..num_gates
            invariant
                n == self.values@.len(),
                num_gates == self.gate_views().len(),
                self.wf(),
                variables@.len() == n,
                base == r1cs_witness_values(*old(cs)) + fresh_alloc_values(
                    self.values@,
                    self.already_assigned_witnesses@,
                    n as int,
                ),
                r1cs_num_constraints(*cs) == r1cs_num_constraints(*old(cs)) + gi,
                r1cs_is_setup(*cs) == r1cs_is_setup(*old(cs)),
                r1cs_holds_system(*cs) == r1cs_holds_system(*old(cs)),
                !r1cs_holds_system(*old(cs)) ==> *cs == *old(cs),
                r1cs_constructs_matrices(*cs) == r1cs_constructs_matrices(*old(cs)),
                !r1cs_constructs_matrices(*old(cs)) ==> r1cs_constraint_lcs(*cs)
                    == r1cs_constraint_lcs(*old(cs)),
                r1cs_constructs_matrices(*old(cs)) ==> r1cs_constraint_lcs(*cs).len()
                    == r1cs_constraint_lcs(*old(cs)).len() + gi,
                r1cs_constructs_matrices(*old(cs)) ==> r1cs_constraint_lcs(*cs).take(
                    r1cs_constraint_lcs(*old(cs)).len() as int,
                ) == r1cs_constraint_lcs(*old(cs)),
                r1cs_constructs_matrices(*old(cs)) ==> forall|j: int|
                    0 <= j < gi ==> gate_emitted(
                        #[trigger] self.gate_views()[j],
                        variables@,
                        r1cs_constraint_lcs(*cs)[r1cs_constraint_lcs(*old(cs)).len() + j],
                    ),
                forall|w: int|
                    0 <= w < n && (#[trigger] alias_lookup(
                        self.already_assigned_witnesses@,
                        w as u32,
                    )) is Some ==> variables@[w] == alias_variable(
                        alias_lookup(self.already_assigned_witnesses@, w as u32)->0,
                    )->0,
                !r1cs_is_setup(*old(cs)) ==> r1cs_witness_values(*cs) == base + gates_products(
                    self.gate_views().take(gi as int),
                    self.values@,
                ),
                r1cs_is_setup(*old(cs)) ==> r1cs_witness_values(*cs) == r1cs_witness_values(
                    *old(cs),
                ),
                forall|w: int|
                    0 <= w < n && (#[trigger] alias_lookup(
                        self.already_assigned_witnesses@,
                        w as u32,
                    )) is Some ==> alias_variable(
                        alias_lookup(self.already_assigned_witnesses@, w as u32)->0,
                    ) is Some,
        {
            let gate = &self.gates[gi];
            proof {
                assert(self.gate_views()[gi as int] == gate@);
                assert(gate_wf(gate@, n as int));
            }
            let mut lc = lc_new();
            let ghost lc_start = lc;
            let ghost mut auxs: Seq<ark_relations::r1cs::Variable> = Seq::empty();
            let ghost lcs_at_gate = r1cs_constraint_lcs(*cs);
            let nm = gate.mul_terms.len();
            for ti in 0..nm
                invariant
                    n == self.values@.len(),
                    nm == gate.mul_terms@.len(),
                    gate_wf(gate@, n as int),
                    r1cs_num_constraints(*cs) == r1cs_num_constraints(*old(cs)) + gi,
                    r1cs_is_setup(*cs) == r1cs_is_setup(*old(cs)),
                    r1cs_holds_system(*cs) == r1cs_holds_system(*old(cs)),
                    !r1cs_holds_system(*old(cs)) ==> *cs == *old(cs),
                    r1cs_constructs_matrices(*cs) == r1cs_constructs_matrices(*old(cs)),
                    r1cs_constraint_lcs(*cs) == lcs_at_gate,
                    auxs.len() == ti,
                    forall|v: ark_relations::r1cs::Variable|
                        fr_is_zero(#[trigger] lc_coeff(lc_start, v)),
                    forall|v: ark_relations::r1cs::Variable|
                        #[trigger] lc_coeff(lc, v) == coeff_after(
                            mul_term_handles(gate@, auxs, ti as int),
                            v,
                            lc_coeff(lc_start, v),
                        ),
                    !r1cs_is_setup(*old(cs)) ==> r1cs_witness_values(*cs) == base
                        + gates_products(
                        self.gate_views().take(gi as int),
                        self.values@,
                    ) + gate_products(gate@, self.values@).take(ti as int),
                    r1cs_is_setup(*old(cs)) ==> r1cs_witness_values(*cs) == r1cs_witness_values(
                        *old(cs),
                    ),
            {
                let t = &gate.mul_terms[ti];
                proof {
                    assert((gate@.mul_terms[ti as int]).1 < n && gate@.mul_terms[ti as int].2
                        < n);
                }
                let prod = fr_mul(&self.values[t.1 as usize], &self.values[t.2 as usize]);
                let fp = match alloc_fp_witness(cs, &prod) {
                    Ok(fp) => fp,
                    Err(e) => {
                        return Err(BridgeError::AllocationFailure(e));
                    },
                };
                match alias_to_variable(&fp) {
                    Some(var) => {
                        lc_add_term(&mut lc, &t.0, var);
                        proof {
                            let ghost prev_auxs = auxs;
                            auxs = auxs.push(var);
                            assert forall|v: ark_relations::r1cs::Variable|
                                #[trigger] lc_coeff(lc, v) == coeff_after(
                                    mul_term_handles(gate@, auxs, ti + 1),
                                    v,
                                    lc_coeff(lc_start, v),
                                ) by {
                                lemma_coeff_after_push(
                                    mul_term_handles(gate@, prev_auxs, ti as int),
                                    (gate@.mul_terms[ti as int].0, var),
                                    v,
                                    lc_coeff(lc_start, v),
                                );
                                assert(mul_term_handles(gate@, auxs, ti + 1)
                                    =~= mul_term_handles(gate@, prev_auxs, ti as int).push(
                                    (gate@.mul_terms[ti as int].0, var),
                                ));
                            };
                        }
                    },
                    None => {
                        // a fresh allocation always resolves to an
                        // allocated variable
                        proof {
                            assert(false);
                        }
                    },
                }
                proof {
                    assert(gate_products(gate@, self.values@).take(ti + 1) =~= gate_products(
                        gate@,
                        self.values@,
                    ).take(ti as int).push(
                        fr_product(
                            self.values@[gate@.mul_terms[ti as int].1 as int],
                            self.values@[gate@.mul_terms[ti as int].2 as int],
                        ),
                    ));
                    if !r1cs_is_setup(*old(cs)) {
                        assert(r1cs_witness_values(*cs) =~= base + gates_products(
                            self.gate_views().take(gi as int),
                            self.values@,
                        ) + gate_products(gate@, self.values@).take(ti + 1));
                    }
                }
            }
            proof {
                assert(mul_term_handles(gate@, auxs, nm as int) + add_term_handles(
                    gate@,
                    variables@,
                    0,
                ) =~= mul_term_handles(gate@, auxs, nm as int));
            }
            let na = gate.add_terms.len();
            for ti in 0..na
                invariant
                    n == self.values@.len(),
                    na == gate.add_terms@.len(),
                    nm == gate.mul_terms@.len(),
                    gate_wf(gate@, n as int),
                    variables@.len() == n,
                    r1cs_num_constraints(*cs) == r1cs_num_constraints(*old(cs)) + gi,
                    r1cs_is_setup(*cs) == r1cs_is_setup(*old(cs)),
                    r1cs_holds_system(*cs) == r1cs_holds_system(*old(cs)),
                    !r1cs_holds_system(*old(cs)) ==> *cs == *old(cs),
                    r1cs_constructs_matrices(*cs) == r1cs_constructs_matrices(*old(cs)),
                    r1cs_constraint_lcs(*cs) == lcs_at_gate,
                    auxs.len() == nm,
                    forall|v: ark_relations::r1cs::Variable|
                        fr_is_zero(#[trigger] lc_coeff(lc_start, v)),
                    forall|v: ark_relations::r1cs::Variable|
                        #[trigger] lc_coeff(lc, v) == coeff_after(
                            mul_term_handles(gate@, auxs, nm as int) + add_term_handles(
                                gate@,
                                variables@,
                                ti as int,
                            ),
                            v,
                            lc_coeff(lc_start, v),
                        ),
                    !r1cs_is_setup(*old(cs)) ==> r1cs_witness_values(*cs) == base
                        + gates_products(
                        self.gate_views().take(gi as int),
                        self.values@,
                    ) + gate_products(gate@, self.values@).take(nm as int),
                    r1cs_is_setup(*old(cs)) ==> r1cs_witness_values(*cs) == r1cs_witness_values(
                        *old(cs),
                    ),
            {
                let t = &gate.add_terms[ti];
                proof {
                    assert(gate@.add_terms[ti as int].1 < n);
                }
                let var = variables[t.1 as usize];
                lc_add_term(&mut lc, &t.0, var);
                proof {
                    assert forall|v: ark_relations::r1cs::Variable|
                        #[trigger] lc_coeff(lc, v) == coeff_after(
                            mul_term_handles(gate@, auxs, nm as int) + add_term_handles(
                                gate@,
                                variables@,
                                ti + 1,
                            ),
                            v,
                            lc_coeff(lc_start, v),
                        ) by {
                        lemma_coeff_after_push(
                            mul_term_handles(gate@, auxs, nm as int) + add_term_handles(
                                gate@,
                                variables@,
                                ti as int,
                            ),
                            (gate@.add_terms[ti as int].0, var),
                            v,
                            lc_coeff(lc_start, v),
                        );
                        assert(mul_term_handles(gate@, auxs, nm as int) + add_term_handles(
                            gate@,
                            variables@,
                            ti + 1,
                        ) =~= (mul_term_handles(gate@, auxs, nm as int) + add_term_handles(
                            gate@,
                            variables@,
                            ti as int,
                        )).push((gate@.add_terms[ti as int].0, var)));
                    };
                }
            }
            let one_var = variable_one();
            lc_add_term(&mut lc, &gate.constant_term, one_var);
            proof {
                assert forall|v: ark_relations::r1cs::Variable|
                    #[trigger] lc_coeff(lc, v) == coeff_after(
                        gate_term_seq(gate@, auxs, variables@, one_var),
                        v,
                        lc_coeff(lc_start, v),
                    ) by {
                    lemma_coeff_after_push(
                        mul_term_handles(gate@, auxs, nm as int) + add_term_handles(
                            gate@,
                            variables@,
                            na as int,
                        ),
                        (gate@.constant_term, one_var),
                        v,
                        lc_coeff(lc_start, v),
                    );
                    assert(gate_term_seq(gate@, auxs, variables@, one_var)
                        =~= (mul_term_handles(gate@, auxs, nm as int) + add_term_handles(
                        gate@,
                        variables@,
                        na as int,
                    )).push((gate@.constant_term, one_var)));
                };
            }
            let ghost lc_done = lc;
            match enforce_lc_zero(cs, lc) {
                Ok(_) => {},
                Err(e) => {
                    return Err(BridgeError::AllocationFailure(e));
                },
            }
            proof {
                assert(gate_products(gate@, self.values@).take(nm as int) =~= gate_products(
                    gate@,
                    self.values@,
                ));
                assert(self.gate_views().take(gi + 1).drop_last() =~= self.gate_views().take(
                    gi as int,
                ));
                assert(self.gate_views().take(gi + 1).last() == gate@);
                if !r1cs_is_setup(*old(cs)) {
                    assert(base + gates_products(self.gate_views().take(gi + 1), self.values@)
                        =~= base + gates_products(self.gate_views().take(gi as int), self.values@)
                        + gate_products(gate@, self.values@));
                }
                if r1cs_constructs_matrices(*old(cs)) {
                    let start = r1cs_constraint_lcs(*old(cs)).len() as int;
                    assert(r1cs_constraint_lcs(*cs) == lcs_at_gate.push(lc_done));
                    assert(gate_emitted_with(
                        gate@,
                        variables@,
                        lc_done,
                        auxs,
                        one_var,
                        lc_start,
                    ));
                    assert(gate_emitted(gate@, variables@, lc_done));
                    assert(r1cs_constraint_lcs(*cs).take(start)
                        =~= lcs_at_gate.take(start));
                    assert forall|j: int| 0 <= j < gi + 1 implies gate_emitted(
                        #[trigger] self.gate_views()[j],
                        variables@,
                        r1cs_constraint_lcs(*cs)[start + j],
                    ) by {
                        if j < gi {
                            assert(r1cs_constraint_lcs(*cs)[start + j]
                                == lcs_at_gate[start + j]);
                        } else {
                            assert(r1cs_constraint_lcs(*cs)[start + j] == lc_done);
                        }
                    };
                }
            }
        }
        proof {
            assert(self.gate_views().take(num_gates as int) =~= self.gate_views());
            if r1cs_constructs_matrices(*old(cs)) {
                assert(emitted_with_table(
                    self.gate_views(),
                    self.already_assigned_witnesses@,
                    self.values@.len() as int,
                    variables@,
                    r1cs_constraint_lcs(*cs),
                    r1cs_constraint_lcs(*old(cs)).len() as int,
                ));
            }
        }
        Ok(())
    }
}

} // verus!
