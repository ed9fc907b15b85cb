//! The boundary to the external rank-1 constraint system.
//!
//! The constraint system itself is owned by the proving library; this module
//! models its observable contents — the sequence of seeded witness-variable
//! values and the number of enforced constraints — and gives each call the
//! synthesis pipeline makes a contract over that model.

use vstd::prelude::*;

use crate::field::ProverField;
use crate::field::fr_is_zero;
use crate::field::fr_sum;

verus! {

#[verifier::external_type_specification]
#[verifier::external_body]
pub struct ExVariable(ark_relations::r1cs::Variable);

#[verifier::external_type_specification]
#[verifier::external_body]
pub struct ExSynthesisError(ark_relations::r1cs::SynthesisError);

/// A handle to the proving library's shared constraint system. The wrapped
/// reference counts as exclusively owned for the whole of a synthesis run.
#[verifier::external_body]
pub struct R1cs {
    pub inner: ark_relations::r1cs::ConstraintSystemRef<ark_bn254::Fr>,
}

/// An externally owned field variable of the constraint system, as handed in
/// by an outer circuit for aliasing. It either wraps a genuine allocated
/// variable or a constant.
#[verifier::external_body]
pub struct AliasVar {
    pub inner: ark_r1cs_std::fields::fp::FpVar<ark_bn254::Fr>,
}

impl Clone for AliasVar {
    /// Copies the wrapped variable handle.
    #[verifier::external_body]
    fn clone(&self) -> (r: Self)
        ensures
            r == *self,
    {
        AliasVar { inner: self.inner.clone() }
    }
}

/// A linear combination of constraint-system variables under construction.
#[verifier::external_body]
pub struct LinComb {
    inner: ark_relations::r1cs::LinearCombination<ark_bn254::Fr>,
}

/// The values of the witness variables a constraint system has allocated so
/// far, in allocation order.
pub uninterp spec fn r1cs_witness_values(cs: R1cs) -> Seq<ProverField>;

/// The number of constraints a constraint system has enforced so far.
pub uninterp spec fn r1cs_num_constraints(cs: R1cs) -> nat;

/// Whether the constraint system is in setup mode. A setup-mode system
/// tracks only the shape of the constraints: variables are allocated and
/// constraints enforced, but no assignment values are kept.
pub uninterp spec fn r1cs_is_setup(cs: R1cs) -> bool;

/// Whether the shared reference holds a constraint system at all. Every
/// allocation and enforcement call below succeeds exactly when it does, and
/// none of them changes it.
pub uninterp spec fn r1cs_holds_system(cs: R1cs) -> bool;

/// Whether the constraint system keeps the constraint matrices. Only a
/// proving-mode system told not to construct matrices drops them; a
/// setup-mode system keeps them.
pub uninterp spec fn r1cs_constructs_matrices(cs: R1cs) -> bool;

/// The middle combination of each constraint a matrix-keeping system has
/// enforced so far, in order. Every constraint this boundary enforces has
/// the form `one * lc = zero`, and this is its `lc`.
pub uninterp spec fn r1cs_constraint_lcs(cs: R1cs) -> Seq<LinComb>;

/// The total coefficient a combination attaches to a variable: the sum of
/// its entries for that variable, the additive identity when it has none.
pub uninterp spec fn lc_coeff(lc: LinComb, v: ark_relations::r1cs::Variable) -> ProverField;

/// Whether a variable is the fixed unit constant of every constraint
/// system.
pub uninterp spec fn is_one_variable(v: ark_relations::r1cs::Variable) -> bool;

/// The allocated variable an externally owned field variable resolves to:
/// the allocated handle if it wraps one, nothing if it wraps a constant.
pub uninterp spec fn alias_variable(v: AliasVar) -> Option<ark_relations::r1cs::Variable>;

/// Relies on `ConstraintSystemRef::new_witness_variable`: it succeeds
/// exactly when the shared reference holds a constraint system, and then
/// appends the seeded value to the witness assignment — except in setup
/// mode, where no assignment is kept — and enforces no constraint; when it
/// fails, with `MissingCS`, nothing changes. Neither the mode nor the
/// reference itself is changed.
#[verifier::external_body]
pub fn alloc_witness_var(cs: &mut R1cs, v: &ProverField) -> (r: Result<
    ark_relations::r1cs::Variable,
    ark_relations::r1cs::SynthesisError,
>)
    ensures
        r is Ok <==> r1cs_holds_system(*old(cs)),
        r is Ok && !r1cs_is_setup(*old(cs)) ==> r1cs_witness_values(*final(cs))
            == r1cs_witness_values(*old(cs)).push(*v),
        r is Ok && r1cs_is_setup(*old(cs)) ==> r1cs_witness_values(*final(cs))
            == r1cs_witness_values(*old(cs)),
        r is Ok ==> r1cs_num_constraints(*final(cs)) == r1cs_num_constraints(*old(cs)),
        r is Ok ==> r1cs_is_setup(*final(cs)) == r1cs_is_setup(*old(cs)),
        r is Ok ==> r1cs_holds_system(*final(cs)) == r1cs_holds_system(*old(cs)),
        r is Ok ==> r1cs_constructs_matrices(*final(cs)) == r1cs_constructs_matrices(*old(cs)),
        r is Ok ==> r1cs_constraint_lcs(*final(cs)) == r1cs_constraint_lcs(*old(cs)),
        r is Err ==> *final(cs) == *old(cs),
{
    cs.inner.new_witness_variable(|| Ok(v.inner))
}

/// Relies on `FpVar::new_witness`: it succeeds exactly when the shared
/// reference holds a constraint system, and then allocates one fresh
/// witness variable seeded with the given value, appending that value to
/// the witness assignment — except in setup mode, where no assignment is
/// kept — and enforcing no constraint, and returns a handle that resolves
/// to the allocated variable; when it fails, with `MissingCS`, nothing
/// changes. Neither the mode nor the reference itself is changed.
#[verifier::external_body]
pub fn alloc_fp_witness(cs: &mut R1cs, v: &ProverField) -> (r: Result<
    AliasVar,
    ark_relations::r1cs::SynthesisError,
>)
    ensures
        r is Ok <==> r1cs_holds_system(*old(cs)),
        r is Ok && !r1cs_is_setup(*old(cs)) ==> r1cs_witness_values(*final(cs))
            == r1cs_witness_values(*old(cs)).push(*v),
        r is Ok && r1cs_is_setup(*old(cs)) ==> r1cs_witness_values(*final(cs))
            == r1cs_witness_values(*old(cs)),
        r is Ok ==> r1cs_num_constraints(*final(cs)) == r1cs_num_constraints(*old(cs)),
        r is Ok ==> r1cs_is_setup(*final(cs)) == r1cs_is_setup(*old(cs)),
        r is Ok ==> r1cs_holds_system(*final(cs)) == r1cs_holds_system(*old(cs)),
        r is Ok ==> r1cs_constructs_matrices(*final(cs)) == r1cs_constructs_matrices(*old(cs)),
        r is Ok ==> r1cs_constraint_lcs(*final(cs)) == r1cs_constraint_lcs(*old(cs)),
        r is Ok ==> alias_variable(r->Ok_0) is Some,
        r is Err ==> *final(cs) == *old(cs),
{
    ark_r1cs_std::alloc::AllocVar::new_witness(cs.inner.clone(), || Ok(v.inner))
        .map(|fp| AliasVar { inner: fp })
}

/// Relies on the variant split of `FpVar`: a handle either wraps an
/// allocated variable or a constant, and which one is part of the value.
#[verifier::external_body]
pub fn alias_to_variable(v: &AliasVar) -> (r: Option<ark_relations::r1cs::Variable>)
    ensures
        r == alias_variable(*v),
{
    match &v.inner {
        ark_r1cs_std::fields::fp::FpVar::Var(allocated) => Some(allocated.variable),
        ark_r1cs_std::fields::fp::FpVar::Constant(_) => None,
    }
}

/// Relies on `LinearCombination::new`: it starts an empty combination, in
/// which every variable's total coefficient is the additive identity.
#[verifier::external_body]
pub fn lc_new() -> (r: LinComb)
    ensures
        forall|v: ark_relations::r1cs::Variable| fr_is_zero(#[trigger] lc_coeff(r, v)),
{
    LinComb { inner: ark_relations::r1cs::LinearCombination::new() }
}

/// Relies on `LinearCombination`'s addition of a `(coefficient, variable)`
/// term: whether it merges the coefficient into an entry the variable
/// already has or inserts a new entry, the variable's total coefficient
/// grows by the added coefficient and every other variable's total is
/// untouched; the constraint system is never touched.
#[verifier::external_body]
pub fn lc_add_term(lc: &mut LinComb, coeff: &ProverField, var: ark_relations::r1cs::Variable)
    ensures
        lc_coeff(*final(lc), var) == fr_sum(lc_coeff(*old(lc), var), *coeff),
        forall|w: ark_relations::r1cs::Variable|
            w != var ==> #[trigger] lc_coeff(*final(lc), w) == lc_coeff(*old(lc), w),
{
    lc.inner += (coeff.inner, var);
}

/// Relies on `ConstraintSystem::one`: it returns the fixed unit-constant
/// variable of every constraint system.
#[verifier::external_body]
pub fn variable_one() -> (r: ark_relations::r1cs::Variable)
    ensures
        is_one_variable(r),
{
    ark_relations::r1cs::ConstraintSystem::<ark_bn254::Fr>::one()
}

/// Relies on `ConstraintSystemRef::enforce_constraint`: it succeeds exactly
/// when the shared reference holds a constraint system, and then adds
/// exactly one constraint, `one * lc = zero`, and allocates no variable;
/// when it fails, with `MissingCS`, nothing changes. Neither the mode nor
/// the reference itself is changed.
#[verifier::external_body]
pub fn enforce_lc_zero(cs: &mut R1cs, lc: LinComb) -> (r: Result<
    (),
    ark_relations::r1cs::SynthesisError,
>)
    ensures
        r is Ok <==> r1cs_holds_system(*old(cs)),
        r is Ok ==> r1cs_num_constraints(*final(cs)) == r1cs_num_constraints(*old(cs)) + 1,
        r is Ok ==> r1cs_witness_values(*final(cs)) == r1cs_witness_values(*old(cs)),
        r is Ok ==> r1cs_is_setup(*final(cs)) == r1cs_is_setup(*old(cs)),
        r is Ok ==> r1cs_holds_system(*final(cs)) == r1cs_holds_system(*old(cs)),
        r is Ok ==> r1cs_constructs_matrices(*final(cs)) == r1cs_constructs_matrices(*old(cs)),
        r is Ok && r1cs_constructs_matrices(*old(cs)) ==> r1cs_constraint_lcs(*final(cs))
            == r1cs_constraint_lcs(*old(cs)).push(lc),
        r is Ok && !r1cs_constructs_matrices(*old(cs)) ==> r1cs_constraint_lcs(*final(cs))
            == r1cs_constraint_lcs(*old(cs)),
        r is Err ==> *final(cs) == *old(cs),
{
    let mut unit = ark_relations::r1cs::LinearCombination::new();
    unit += (
        <ark_bn254::Fr as ark_ff::One>::one(),
        ark_relations::r1cs::Variable::One,
    );
    let zero = ark_relations::r1cs::LinearCombination::new();
    cs.inner.enforce_constraint(unit, lc.inner, zero)
}

} // verus!
