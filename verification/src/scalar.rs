//! The scalar-algebra capability contract: what a scalar type must provide
//! to be evaluatable by the polynomial engine.
//!
//! Every scalar stands for a residue modulo the algebra's fixed modulus
//! (`2^64` or `2^128` for the wraparound integer rings, a group order for
//! the prime-field scalars), and every operation's contract is stated as
//! exact modular arithmetic over those residues.

use vstd::prelude::*;
use crate::entropy::EntropySource;

verus! {

/// A member of a commutative ring or finite field of residues modulo
/// `Self::modulus()`.
pub trait ScalarTrait: Sized {
    /// The residue this scalar stands for, in `[0, Self::modulus())` for
    /// every scalar the operations below produce.
    spec fn residue(&self) -> int;

    /// The modulus of the algebra: every operation reduces by it.
    spec fn modulus() -> int;

    /// Every algebra has at least the two distinct elements `zero` and
    /// `one`.
    proof fn modulus_exceeds_one()
        ensures
            Self::modulus() > 1,
    ;

    /// The additive identity.
    fn zero() -> (r: Self)
        ensures
            r.residue() == 0,
    ;

    /// The multiplicative identity.
    fn one() -> (r: Self)
        ensures
            r.residue() == 1,
    ;

    /// A scalar sampled from the entropy source. Always returns a valid
    /// member of the algebra; nothing is promised of its value.
    fn rand(source: &mut EntropySource) -> (r: Self)
        ensures
            0 <= r.residue() < Self::modulus(),
    ;

    /// Addition under the algebra's modulus.
    fn add(&self, other: &Self) -> (r: Self)
        requires
            0 <= self.residue() < Self::modulus(),
            0 <= other.residue() < Self::modulus(),
        ensures
            r.residue() == (self.residue() + other.residue()) % Self::modulus(),
            0 <= r.residue() < Self::modulus(),
    ;

    /// Multiplication under the algebra's modulus.
    fn mul(&self, other: &Self) -> (r: Self)
        requires
            0 <= self.residue() < Self::modulus(),
            0 <= other.residue() < Self::modulus(),
        ensures
            r.residue() == (self.residue() * other.residue()) % Self::modulus(),
            0 <= r.residue() < Self::modulus(),
    ;

    /// In-place accumulation form of addition.
    fn accumulate_add(&mut self, other: &Self)
        requires
            0 <= old(self).residue() < Self::modulus(),
            0 <= other.residue() < Self::modulus(),
        ensures
            final(self).residue() == (old(self).residue() + other.residue()) % Self::modulus(),
            0 <= final(self).residue() < Self::modulus(),
    ;

    /// In-place accumulation form of multiplication.
    fn accumulate_mul(&mut self, other: &Self)
        requires
            0 <= old(self).residue() < Self::modulus(),
            0 <= other.residue() < Self::modulus(),
        ensures
            final(self).residue() == (old(self).residue() * other.residue()) % Self::modulus(),
            0 <= final(self).residue() < Self::modulus(),
    ;
}

} // verus!
