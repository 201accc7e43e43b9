//! The secp256k1 scalar field as a scalar algebra: elements are residues
//! modulo the curve's group order, and the arithmetic is k256's, behind
//! trusted wrappers whose contracts state exact modular arithmetic over the
//! canonical residue each scalar stands for.

use vstd::prelude::*;
use vstd::arithmetic::div_mod::lemma_mod_bound;
use crate::scalar::ScalarTrait;
use crate::entropy::EntropySource;

verus! {

#[verifier::external_type_specification]
#[verifier::external_body]
pub struct ExK256Scalar(k256::Scalar);

/// The canonical residue a k256 scalar stands for: the value of its
/// big-endian canonical byte representation, always below the group order.
pub uninterp spec fn secp_residue(s: k256::Scalar) -> int;

/// The order of the secp256k1 group: the modulus of its scalar field.
pub open spec fn secp_order() -> int {
    0xfffffffffffffffffffffffffffffffebaaedce6af48a03bbfd25e8cd0364141int
}

/// The value of a big-endian byte string as an unsigned integer.
pub open spec fn be_bytes_val(s: Seq<u8>) -> int
    decreases s.len(),
{
    if s.len() == 0 {
        0
    } else {
        be_bytes_val(s.drop_last()) * 256 + s.last()
    }
}

/// Relies on k256's `Scalar::ZERO`: the scalar of residue zero.
#[verifier::external_body]
fn secp_zero() -> (r: k256::Scalar)
    ensures
        secp_residue(r) == 0,
{
    k256::Scalar::ZERO
}

/// Relies on k256's `Scalar::ONE`: the scalar of residue one.
#[verifier::external_body]
fn secp_one() -> (r: k256::Scalar)
    ensures
        secp_residue(r) == 1,
{
    k256::Scalar::ONE
}

/// Relies on k256's `Add for Scalar`: returns `self + rhs` reduced modulo
/// the group order, canonical.
#[verifier::external_body]
fn secp_add(a: &k256::Scalar, b: &k256::Scalar) -> (r: k256::Scalar)
    ensures
        secp_residue(r) == (secp_residue(*a) + secp_residue(*b)) % secp_order(),
{
    a + b
}

/// Relies on k256's `Mul for Scalar`: returns the product reduced modulo
/// the group order, canonical.
#[verifier::external_body]
fn secp_mul(a: &k256::Scalar, b: &k256::Scalar) -> (r: k256::Scalar)
    ensures
        secp_residue(r) == (secp_residue(*a) * secp_residue(*b)) % secp_order(),
{
    a * b
}

/// Relies on k256's `Reduce<U512> for Scalar`: reduces a 512-bit big-endian
/// integer modulo the group order (wide reduction, total and canonical).
#[verifier::external_body]
fn secp_from_wide_bytes(bytes: &[u8; 64]) -> (r: k256::Scalar)
    ensures
        secp_residue(r) == be_bytes_val(bytes@) % secp_order(),
{
    let wide = k256::WideBytes::from_slice(bytes).clone();
    <k256::Scalar as k256::elliptic_curve::ops::Reduce<
        k256::elliptic_curve::bigint::U512,
    >>::reduce_bytes(&wide)
}

/// Relies on k256's `AddAssign for Scalar`: adds in place, reduced
/// modulo the group order, canonical.
#[verifier::external_body]
fn secp_add_assign(a: &mut k256::Scalar, b: &k256::Scalar)
    ensures
        secp_residue(*final(a)) == (secp_residue(*old(a)) + secp_residue(*b)) % secp_order(),
{
    *a += b;
}

/// Relies on k256's `MulAssign for Scalar`: multiplies in place,
/// reduced modulo the group order, canonical.
#[verifier::external_body]
fn secp_mul_assign(a: &mut k256::Scalar, b: &k256::Scalar)
    ensures
        secp_residue(*final(a)) == (secp_residue(*old(a)) * secp_residue(*b)) % secp_order(),
{
    *a *= b;
}

impl ScalarTrait for k256::Scalar {
    open spec fn residue(&self) -> int {
        secp_residue(*self)
    }

    open spec fn modulus() -> int {
        secp_order()
    }

    proof fn modulus_exceeds_one() {
    }

    fn zero() -> (r: Self) {
        secp_zero()
    }

    fn one() -> (r: Self) {
        secp_one()
    }

    /// Sampling by wide reduction: a 512-bit random draw reduced by the
    /// group order is always a valid field element, with negligible bias.
    fn rand(source: &mut EntropySource) -> (r: Self) {
        let bytes = source.fill64();
        let r = secp_from_wide_bytes(&bytes);
        proof {
            lemma_mod_bound(be_bytes_val(bytes@), secp_order());
        }
        r
    }

    fn add(&self, other: &Self) -> (r: Self) {
        let r = secp_add(self, other);
        proof {
            lemma_mod_bound(secp_residue(*self) + secp_residue(*other), secp_order());
        }
        r
    }

    fn mul(&self, other: &Self) -> (r: Self) {
        let r = secp_mul(self, other);
        proof {
            lemma_mod_bound(secp_residue(*self) * secp_residue(*other), secp_order());
        }
        r
    }

    fn accumulate_add(&mut self, other: &Self) {
        secp_add_assign(self, other);
        proof {
            lemma_mod_bound(secp_residue(*old(self)) + secp_residue(*other), secp_order());
        }
    }

    fn accumulate_mul(&mut self, other: &Self) {
        secp_mul_assign(self, other);
        proof {
            lemma_mod_bound(secp_residue(*old(self)) * secp_residue(*other), secp_order());
        }
    }
}

} // verus!
