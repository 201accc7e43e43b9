//! Fixed-width wraparound integer scalars: the rings of residues modulo
//! `2^64` and `2^128`. All arithmetic wraps silently on overflow, by
//! explicit wrapping operations, and is proved to be exact reduction by the
//! modulus.

use vstd::prelude::*;
use vstd::arithmetic::div_mod::{lemma_small_mod, lemma_fundamental_div_mod_converse_mod};
use vstd::arithmetic::mul::lemma_mul_nonnegative;
use crate::scalar::ScalarTrait;
use crate::entropy::EntropySource;

verus! {

/// A 64-bit integer with wraparound arithmetic: a member of the ring of
/// residues modulo `2^64`.
#[derive(Clone, Copy, Debug, PartialEq, Eq, Structural)]
pub struct WrapU64 {
    pub value: u64,
}

/// A 128-bit integer with wraparound arithmetic: a member of the ring of
/// residues modulo `2^128`.
#[derive(Clone, Copy, Debug, PartialEq, Eq, Structural)]
pub struct WrapU128 {
    pub value: u128,
}

impl ScalarTrait for WrapU64 {
    open spec fn residue(&self) -> int {
        self.value as int
    }

    open spec fn modulus() -> int {
        0x1_0000_0000_0000_0000int
    }

    proof fn modulus_exceeds_one() {
    }

    fn zero() -> (r: Self) {
        WrapU64 { value: 0 }
    }

    fn one() -> (r: Self) {
        WrapU64 { value: 1 }
    }

    fn rand(source: &mut EntropySource) -> (r: Self) {
        WrapU64 { value: source.next_u64() }
    }

    fn add(&self, other: &Self) -> (r: Self) {
        let v = self.value.wrapping_add(other.value);
        proof {
            let s = self.value + other.value;
            let m = 0x1_0000_0000_0000_0000int;
            if s <= u64::MAX {
                lemma_small_mod(s as nat, m as nat);
            } else {
                lemma_fundamental_div_mod_converse_mod(s, m, 1, s - m);
            }
        }
        WrapU64 { value: v }
    }

    fn mul(&self, other: &Self) -> (r: Self) {
        let v = self.value.wrapping_mul(other.value);
        proof {
            let p = self.value * other.value;
            let m = 0x1_0000_0000_0000_0000int;
            assert(v as int == (p as nat % (m as nat)) as int);
            lemma_mul_nonnegative(self.value as int, other.value as int);
            assert((p as nat % (m as nat)) as int == p % m);
        }
        WrapU64 { value: v }
    }

    fn accumulate_add(&mut self, other: &Self) {
        let v = self.value.wrapping_add(other.value);
        proof {
            let s = self.value + other.value;
            let m = 0x1_0000_0000_0000_0000int;
            if s <= u64::MAX {
                lemma_small_mod(s as nat, m as nat);
            } else {
                lemma_fundamental_div_mod_converse_mod(s, m, 1, s - m);
            }
        }
        self.value = v;
    }

    fn accumulate_mul(&mut self, other: &Self) {
        let v = self.value.wrapping_mul(other.value);
        proof {
            let p = self.value * other.value;
            let m = 0x1_0000_0000_0000_0000int;
            assert(v as int == (p as nat % (m as nat)) as int);
            lemma_mul_nonnegative(self.value as int, other.value as int);
            assert((p as nat % (m as nat)) as int == p % m);
        }
        self.value = v;
    }
}

impl ScalarTrait for WrapU128 {
    open spec fn residue(&self) -> int {
        self.value as int
    }

    open spec fn modulus() -> int {
        0x1_0000_0000_0000_0000_0000_0000_0000_0000int
    }

    proof fn modulus_exceeds_one() {
    }

    fn zero() -> (r: Self) {
        WrapU128 { value: 0 }
    }

    fn one() -> (r: Self) {
        WrapU128 { value: 1 }
    }

    fn rand(source: &mut EntropySource) -> (r: Self) {
        let hi = source.next_u64();
        let lo = source.next_u64();
        WrapU128 { value: ((hi as u128) << 64) | (lo as u128) }
    }

    fn add(&self, other: &Self) -> (r: Self) {
        let v = self.value.wrapping_add(other.value);
        proof {
            let s = self.value + other.value;
            let m = 0x1_0000_0000_0000_0000_0000_0000_0000_0000int;
            if s <= u128::MAX {
                lemma_small_mod(s as nat, m as nat);
            } else {
                lemma_fundamental_div_mod_converse_mod(s, m, 1, s - m);
            }
        }
        WrapU128 { value: v }
    }

    fn mul(&self, other: &Self) -> (r: Self) {
        let v = self.value.wrapping_mul(other.value);
        proof {
            let p = self.value * other.value;
            let m = 0x1_0000_0000_0000_0000_0000_0000_0000_0000int;
            assert(v as int == (p as nat % (m as nat)) as int);
            lemma_mul_nonnegative(self.value as int, other.value as int);
            assert((p as nat % (m as nat)) as int == p % m);
        }
        WrapU128 { value: v }
    }

    fn accumulate_add(&mut self, other: &Self) {
        let v = self.value.wrapping_add(other.value);
        proof {
            let s = self.value + other.value;
            let m = 0x1_0000_0000_0000_0000_0000_0000_0000_0000int;
            if s <= u128::MAX {
                lemma_small_mod(s as nat, m as nat);
            } else {
                lemma_fundamental_div_mod_converse_mod(s, m, 1, s - m);
            }
        }
        self.value = v;
    }

    fn accumulate_mul(&mut self, other: &Self) {
        let v = self.value.wrapping_mul(other.value);
        proof {
            let p = self.value * other.value;
            let m = 0x1_0000_0000_0000_0000_0000_0000_0000_0000int;
            assert(v as int == (p as nat % (m as nat)) as int);
            lemma_mul_nonnegative(self.value as int, other.value as int);
            assert((p as nat % (m as nat)) as int == p % m);
        }
        self.value = v;
    }
}

} // verus!
