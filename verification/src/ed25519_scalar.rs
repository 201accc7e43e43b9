//! The ed25519 scalar field as a scalar algebra: elements are residues
//! modulo the prime group order `l = 2^252 + 27742317777372353535851937790883648493`,
//! and the arithmetic is curve25519-dalek's, behind trusted wrappers whose
//! contracts state exact modular arithmetic over the canonical residue each
//! scalar stands for.

use vstd::prelude::*;
use vstd::arithmetic::div_mod::lemma_mod_bound;
use crate::scalar::ScalarTrait;
use crate::entropy::EntropySource;

verus! {

#[verifier::external_type_specification]
#[verifier::external_body]
pub struct ExDalekScalar(curve25519_dalek::Scalar);

/// The canonical residue a dalek scalar stands for: the value of its
/// little-endian canonical byte representation, always below the group
/// order.
pub uninterp spec fn ed_residue(s: curve25519_dalek::Scalar) -> int;

/// The prime order of the ed25519 group: the modulus of its scalar field.
pub open spec fn ed_order() -> int {
    0x1000000000000000000000000000000014def9dea2f79cd65812631a5cf5d3edint
}

/// The value of a little-endian byte string as an unsigned integer.
pub open spec fn le_bytes_val(s: Seq<u8>) -> int
    decreases s.len(),
{
    if s.len() == 0 {
        0
    } else {
        s[0] + 256 * le_bytes_val(s.drop_first())
    }
}

/// Relies on curve25519-dalek's `Scalar::ZERO`: the scalar of residue zero.
#[verifier::external_body]
fn ed_zero() -> (r: curve25519_dalek::Scalar)
    ensures
        ed_residue(r) == 0,
{
    curve25519_dalek::Scalar::ZERO
}

/// Relies on curve25519-dalek's `Scalar::ONE`: the scalar of residue one.
#[verifier::external_body]
fn ed_one() -> (r: curve25519_dalek::Scalar)
    ensures
        ed_residue(r) == 1,
{
    curve25519_dalek::Scalar::ONE
}

/// Relies on curve25519-dalek's `Add for Scalar`: the sum reduced modulo
/// the group order, canonical.
#[verifier::external_body]
fn ed_add(a: &curve25519_dalek::Scalar, b: &curve25519_dalek::Scalar) -> (r:
    curve25519_dalek::Scalar)
    ensures
        ed_residue(r) == (ed_residue(*a) + ed_residue(*b)) % ed_order(),
{
    a + b
}

/// Relies on curve25519-dalek's `Mul for Scalar`: the product reduced
/// modulo the group order, canonical.
#[verifier::external_body]
fn ed_mul(a: &curve25519_dalek::Scalar, b: &curve25519_dalek::Scalar) -> (r:
    curve25519_dalek::Scalar)
    ensures
        ed_residue(r) == (ed_residue(*a) * ed_residue(*b)) % ed_order(),
{
    a * b
}

/// Relies on curve25519-dalek's `Scalar::from_bytes_mod_order_wide`:
/// reduces a 512-bit little-endian integer modulo the group order (wide
/// reduction, total and canonical).
#[verifier::external_body]
fn ed_from_wide_bytes(bytes: &[u8; 64]) -> (r: curve25519_dalek::Scalar)
    ensures
        ed_residue(r) == le_bytes_val(bytes@) % ed_order(),
{
    curve25519_dalek::Scalar::from_bytes_mod_order_wide(bytes)
}

/// Relies on curve25519-dalek's `AddAssign for Scalar`: adds in place, reduced
/// modulo the group order, canonical.
#[verifier::external_body]
fn ed_add_assign(a: &mut curve25519_dalek::Scalar, b: &curve25519_dalek::Scalar)
    ensures
        ed_residue(*final(a)) == (ed_residue(*old(a)) + ed_residue(*b)) % ed_order(),
{
    *a += b;
}

/// Relies on curve25519-dalek's `MulAssign for Scalar`: multiplies in place,
/// reduced modulo the group order, canonical.
#[verifier::external_body]
fn ed_mul_assign(a: &mut curve25519_dalek::Scalar, b: &curve25519_dalek::Scalar)
    ensures
        ed_residue(*final(a)) == (ed_residue(*old(a)) * ed_residue(*b)) % ed_order(),
{
    *a *= b;
}

impl ScalarTrait for curve25519_dalek::Scalar {
    open spec fn residue(&self) -> int {
        ed_residue(*self)
    }

    open spec fn modulus() -> int {
        ed_order()
    }

    proof fn modulus_exceeds_one() {
    }

    fn zero() -> (r: Self) {
        ed_zero()
    }

    fn one() -> (r: Self) {
        ed_one()
    }

    /// Sampling by wide reduction: a 512-bit random draw reduced by the
    /// group order is always a valid field element, with negligible bias.
    fn rand(source: &mut EntropySource) -> (r: Self) {
        let bytes = source.fill64();
        let r = ed_from_wide_bytes(&bytes);
        proof {
            lemma_mod_bound(le_bytes_val(bytes@), ed_order());
        }
        r
    }

    fn add(&self, other: &Self) -> (r: Self) {
        let r = ed_add(self, other);
        proof {
            lemma_mod_bound(ed_residue(*self) + ed_residue(*other), ed_order());
        }
        r
    }

    fn mul(&self, other: &Self) -> (r: Self) {
        let r = ed_mul(self, other);
        proof {
            lemma_mod_bound(ed_residue(*self) * ed_residue(*other), ed_order());
        }
        r
    }

    fn accumulate_add(&mut self, other: &Self) {
        ed_add_assign(self, other);
        proof {
            lemma_mod_bound(ed_residue(*old(self)) + ed_residue(*other), ed_order());
        }
    }

    fn accumulate_mul(&mut self, other: &Self) {
        ed_mul_assign(self, other);
        proof {
            lemma_mod_bound(ed_residue(*old(self)) * ed_residue(*other), ed_order());
        }
    }
}

} // verus!
