//! Conversion between the circuit compiler's field-element encoding and the
//! prover's field-element encoding, together with the prover-side field
//! operations the synthesis pipeline needs.
//!
//! Both encodings are opaque here: the compiler's element type sits in a
//! private module of its crate, and the prover's element type carries const
//! generics in its trait bounds that cannot be declared to the verifier, so
//! each is held inside an opaque wrapper of this crate.

use vstd::prelude::*;

verus! {

/// A compiler-side field element: the encoding the circuit compiler uses for
/// coefficients and witness values.
#[verifier::external_body]
pub struct CompilerField {
    pub inner: acvm::FieldElement,
}

impl Clone for CompilerField {
    /// Copies the wrapped element.
    #[verifier::external_body]
    fn clone(&self) -> (r: Self)
        ensures
            r == *self,
    {
        CompilerField { inner: self.inner }
    }
}

/// A prover-side field element: the encoding the constraint system and the
/// proving stack work over.
#[verifier::external_body]
pub struct ProverField {
    pub inner: ark_bn254::Fr,
}

/// The prover-side element a compiler-side element carries. The compiler's
/// element type is a transparent wrapper around the prover's; this function
/// names the wrapped element.
pub uninterp spec fn prover_repr(x: CompilerField) -> ProverField;

/// The compiler-side element that carries a given prover-side element.
pub uninterp spec fn compiler_elem(x: ProverField) -> CompilerField;

/// Relies on `acvm::FieldElement::into_repr`: the compiler-side element is a
/// transparent wrapper around the prover-side element, and `into_repr`
/// returns the wrapped element, so wrapping the result again yields the
/// input.
#[verifier::external_body]
pub fn to_prover_field(x: &CompilerField) -> (r: ProverField)
    ensures
        r == prover_repr(*x),
        compiler_elem(r) == *x,
{
    ProverField { inner: x.inner.into_repr() }
}

/// Relies on `acvm::FieldElement::from_repr`: it wraps the prover-side
/// element, so unwrapping the result yields the input.
#[verifier::external_body]
pub fn to_compiler_field(x: &ProverField) -> (r: CompilerField)
    ensures
        r == compiler_elem(*x),
        prover_repr(r) == *x,
{
    CompilerField { inner: acvm::FieldElement::from_repr(x.inner) }
}

/// Round trip through the prover-side encoding: converting a compiler-side
/// element to the prover field and back yields the original element.
pub fn compiler_round_trip(x: &CompilerField) -> (r: CompilerField)
    ensures
        r == *x,
{
    let p = to_prover_field(x);
    to_compiler_field(&p)
}

/// Round trip through the compiler-side encoding: converting a prover-side
/// element to the compiler field and back yields the original element.
pub fn prover_round_trip(x: &ProverField) -> (r: ProverField)
    ensures
        r == *x,
{
    let c = to_compiler_field(x);
    to_prover_field(&c)
}

/// The product of two prover-side field elements.
pub uninterp spec fn fr_product(a: ProverField, b: ProverField) -> ProverField;

/// Whether a prover-side field element is the field's additive identity.
pub uninterp spec fn fr_is_zero(x: ProverField) -> bool;

/// The sum of two prover-side field elements.
pub uninterp spec fn fr_sum(a: ProverField, b: ProverField) -> ProverField;

/// Relies on the field multiplication of `ark_ff`: the product depends on
/// the two factors alone.
#[verifier::external_body]
pub fn fr_mul(a: &ProverField, b: &ProverField) -> (r: ProverField)
    ensures
        r == fr_product(*a, *b),
{
    ProverField { inner: a.inner * b.inner }
}

/// Relies on `ark_ff`'s `Zero::zero`: it returns the field's additive
/// identity.
#[verifier::external_body]
pub fn fr_zero() -> (r: ProverField)
    ensures
        fr_is_zero(r),
{
    ProverField { inner: <ark_bn254::Fr as ark_ff::Zero>::zero() }
}

} // verus!
