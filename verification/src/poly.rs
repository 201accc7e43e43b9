//! The polynomial evaluation engine: an immutable coefficient sequence over
//! any scalar algebra, four pure evaluation algorithms, and the reversal
//! operation producing the reciprocal polynomial.
//!
//! `coefficients[i]` is the coefficient of `x^i`; the degree structure is
//! the sequence's order and is preserved exactly. Every evaluation
//! operation's contract pins its result to the polynomial's value reduced
//! by the algebra's modulus (`poly_sum ... % modulus`), so the four
//! algorithms provably agree wherever they must.

use vstd::prelude::*;
use vstd::arithmetic::power::pow;
use vstd::arithmetic::div_mod::lemma_small_mod;
use vstd::arithmetic::mul::lemma_mul_is_commutative;
use vstd::arithmetic::div_mod::lemma_mul_mod_noop_left;
use crate::algebra::{
    poly_sum, eval_naive_spec, eval_horner_spec, lemma_naive_matches_poly_sum,
    lemma_horner_matches_poly_sum, lemma_cross_algorithm_equivalence,
};
use crate::scalar::ScalarTrait;
use crate::entropy::EntropySource;

verus! {

/// A univariate polynomial over the scalar algebra `S`: an ordered,
/// exclusively owned coefficient sequence, never mutated after
/// construction.
#[derive(Clone)]
pub struct Polynomial<S: ScalarTrait> {
    coefficients: Vec<S>,
}

impl<S: ScalarTrait> Polynomial<S> {
    /// The coefficient sequence; `self.coeffs()[i]` is the coefficient of
    /// `x^i`.
    pub closed spec fn coeffs(&self) -> Seq<S> {
        self.coefficients@
    }

    /// The residues the coefficients stand for, in coefficient order.
    pub open spec fn models(&self) -> Seq<int> {
        Seq::new(self.coeffs().len(), |i: int| self.coeffs()[i].residue())
    }

    /// Every coefficient is a valid member of the algebra.
    pub open spec fn wf(&self) -> bool {
        forall|i: int|
            0 <= i < self.models().len() ==> 0 <= #[trigger] self.models()[i] < S::modulus()
    }

    /// A polynomial with the given coefficients; `coefficients[i]` is the
    /// coefficient of `x^i`, and the order is kept exactly.
    pub fn new(coefficients: Vec<S>) -> (r: Self)
        ensures
            r.coeffs() == coefficients@,
    {
        Polynomial { coefficients }
    }

    /// The number of coefficients (the degree structure's length; an empty
    /// sequence is the zero polynomial).
    pub fn len(&self) -> (r: usize)
        ensures
            r == self.coeffs().len(),
    {
        self.coefficients.len()
    }

    /// The coefficient of `x^i`.
    pub fn coefficient(&self, i: usize) -> (r: &S)
        requires
            i < self.coeffs().len(),
        ensures
            *r == self.coeffs()[i as int],
    {
        &self.coefficients[i]
    }

    /// Forward power-accumulation evaluation: `sum coefficients[i] * x^i`
    /// under the algebra's modulus, one coefficient-scaling multiply and one
    /// power-advancing multiply per term.
    pub fn eval(&self, x: &S) -> (r: S)
        requires
            self.wf(),
            0 <= x.residue() < S::modulus(),
        ensures
            0 <= r.residue() < S::modulus(),
            r.residue() == eval_naive_spec(self.models(), x.residue(), S::modulus()),
            r.residue() == poly_sum(self.models(), x.residue()) % S::modulus(),
    {
        proof {
            S::modulus_exceeds_one();
        }
        let ghost xr = x.residue();
        let ghost mm = S::modulus();
        let mut result = S::zero();
        let mut pacc = S::one();
        proof {
            reveal(pow);
            lemma_small_mod(1nat, mm as nat);
        }
        let n = self.coefficients.len();
        for i in 0..n
            invariant
                n == self.coeffs().len(),
                self.wf(),
                xr == x.residue(),
                mm == S::modulus(),
                mm > 1,
                0 <= xr < mm,
                0 <= result.residue() < mm,
                0 <= pacc.residue() < mm,
                result.residue() == eval_naive_spec(self.models().take(i as int), xr, mm),
                pacc.residue() == pow(xr, i as nat) % mm,
        {
            let c = &self.coefficients[i];
            proof {
                assert(self.models()[i as int] == c.residue());
            }
            let term = c.mul(&pacc);
            result.accumulate_add(&term);
            pacc.accumulate_mul(x);
            proof {
                let t = self.models().take(i as int + 1);
                assert(t.drop_last() =~= self.models().take(i as int));
                assert(t.last() == self.models()[i as int]);
                reveal(pow);
                lemma_mul_mod_noop_left(pow(xr, i as nat), xr, mm);
                lemma_mul_is_commutative(xr, pow(xr, i as nat));
                assert(pow(xr, (i + 1) as nat) == xr * pow(xr, i as nat));
            }
        }
        proof {
            assert(self.models().take(n as int) =~= self.models());
            lemma_naive_matches_poly_sum(self.models(), xr, mm);
        }
        result
    }

    /// Horner evaluation of the same polynomial: coefficients processed
    /// highest degree first, one multiply-accumulate step per term.
    pub fn eval_horner(&self, x: &S) -> (r: S)
        requires
            self.wf(),
            0 <= x.residue() < S::modulus(),
        ensures
            0 <= r.residue() < S::modulus(),
            r.residue() == eval_horner_spec(self.models(), x.residue(), S::modulus()),
            r.residue() == poly_sum(self.models(), x.residue()) % S::modulus(),
    {
        proof {
            S::modulus_exceeds_one();
        }
        let ghost xr = x.residue();
        let ghost mm = S::modulus();
        let mut result = S::zero();
        let n = self.coefficients.len();
        let mut i: usize = n;
        while i > 0
            invariant
                i <= n,
                n == self.coeffs().len(),
                self.wf(),
                xr == x.residue(),
                mm == S::modulus(),
                mm > 1,
                0 <= xr < mm,
                0 <= result.residue() < mm,
                result.residue() == eval_horner_spec(self.models().skip(i as int), xr, mm),
            decreases i,
        {
            i = i - 1;
            let c = &self.coefficients[i];
            proof {
                assert(self.models()[i as int] == c.residue());
            }
            result.accumulate_mul(x);
            result.accumulate_add(c);
            proof {
                let t = self.models().skip(i as int);
                assert(t.drop_first() =~= self.models().skip(i as int + 1));
                assert(t[0] == self.models()[i as int]);
            }
        }
        proof {
            assert(self.models().skip(0) =~= self.models());
            lemma_horner_matches_poly_sum(self.models(), xr, mm);
        }
        result
    }

    /// Power-accumulation evaluation of the reciprocal polynomial: the
    /// coefficient sequence is traversed in reverse index order, with no
    /// reversed copy materialized.
    pub fn reverse_eval(&self, x: &S) -> (r: S)
        requires
            self.wf(),
            0 <= x.residue() < S::modulus(),
        ensures
            0 <= r.residue() < S::modulus(),
            r.residue() == eval_naive_spec(self.models().reverse(), x.residue(), S::modulus()),
            r.residue() == poly_sum(self.models().reverse(), x.residue()) % S::modulus(),
    {
        proof {
            S::modulus_exceeds_one();
        }
        let ghost xr = x.residue();
        let ghost mm = S::modulus();
        let mut result = S::zero();
        let mut pacc = S::one();
        proof {
            reveal(pow);
            lemma_small_mod(1nat, mm as nat);
        }
        let n = self.coefficients.len();
        for i in 0..n
            invariant
                n == self.coeffs().len(),
                self.wf(),
                xr == x.residue(),
                mm == S::modulus(),
                mm > 1,
                0 <= xr < mm,
                0 <= result.residue() < mm,
                0 <= pacc.residue() < mm,
                result.residue() == eval_naive_spec(
                    self.models().reverse().take(i as int),
                    xr,
                    mm,
                ),
                pacc.residue() == pow(xr, i as nat) % mm,
        {
            let c = &self.coefficients[n - 1 - i];
            proof {
                assert(self.models()[n - 1 - i] == c.residue());
            }
            let term = c.mul(&pacc);
            result.accumulate_add(&term);
            pacc.accumulate_mul(x);
            proof {
                let rev = self.models().reverse();
                let t = rev.take(i as int + 1);
                assert(t.drop_last() =~= rev.take(i as int));
                assert(t.last() == rev[i as int]);
                assert(rev[i as int] == self.models()[n - 1 - i]);
                reveal(pow);
                lemma_mul_mod_noop_left(pow(xr, i as nat), xr, mm);
                lemma_mul_is_commutative(xr, pow(xr, i as nat));
                assert(pow(xr, (i + 1) as nat) == xr * pow(xr, i as nat));
            }
        }
        proof {
            assert(self.models().reverse().take(n as int) =~= self.models().reverse());
            lemma_naive_matches_poly_sum(self.models().reverse(), xr, mm);
        }
        result
    }

    /// Horner evaluation of the reciprocal polynomial: the coefficient
    /// sequence is traversed in forward index order, with no reversed copy
    /// materialized.
    pub fn reverse_eval_horner(&self, x: &S) -> (r: S)
        requires
            self.wf(),
            0 <= x.residue() < S::modulus(),
        ensures
            0 <= r.residue() < S::modulus(),
            r.residue() == eval_horner_spec(self.models().reverse(), x.residue(), S::modulus()),
            r.residue() == poly_sum(self.models().reverse(), x.residue()) % S::modulus(),
    {
        proof {
            S::modulus_exceeds_one();
        }
        let ghost xr = x.residue();
        let ghost mm = S::modulus();
        let mut result = S::zero();
        let n = self.coefficients.len();
        for i in 0..n
            invariant
                n == self.coeffs().len(),
                self.wf(),
                xr == x.residue(),
                mm == S::modulus(),
                mm > 1,
                0 <= xr < mm,
                0 <= result.residue() < mm,
                result.residue() == eval_horner_spec(
                    self.models().take(i as int).reverse(),
                    xr,
                    mm,
                ),
        {
            let c = &self.coefficients[i];
            proof {
                assert(self.models()[i as int] == c.residue());
            }
            result.accumulate_mul(x);
            result.accumulate_add(c);
            proof {
                let t = self.models().take(i as int + 1).reverse();
                assert(t.drop_first() =~= self.models().take(i as int).reverse());
                assert(t[0] == self.models()[i as int]);
            }
        }
        proof {
            assert(self.models().take(n as int).reverse() =~= self.models().reverse());
            lemma_horner_matches_poly_sum(self.models().reverse(), xr, mm);
        }
        result
    }

    /// The reciprocal polynomial: a new polynomial whose coefficient
    /// sequence is the exact reverse of this one's. Consumes this
    /// polynomial; purely a data transformation.
    pub fn reverse(self) -> (r: Self)
        ensures
            r.coeffs() == self.coeffs().reverse(),
            r.models() == self.models().reverse(),
            self.wf() ==> r.wf(),
    {
        let ghost orig = self.coefficients@;
        let mut rest = self.coefficients;
        let mut flipped: Vec<S> = Vec::new();
        while rest.len() > 0
            invariant
                rest@ == orig.take(rest@.len() as int),
                flipped@.len() + rest@.len() == orig.len(),
                forall|j: int|
                    0 <= j < flipped@.len() ==> #[trigger] flipped@[j] == orig[orig.len() - 1
                        - j],
            decreases rest.len(),
        {
            let s = rest.pop().unwrap();
            flipped.push(s);
            proof {
                assert(rest@ =~= orig.take(rest@.len() as int));
            }
        }
        let r = Polynomial { coefficients: flipped };
        proof {
            assert(r.coeffs() =~= self.coeffs().reverse());
            assert(r.models() =~= self.models().reverse());
            if self.wf() {
                assert forall|j: int|
                    0 <= j < r.models().len() implies 0 <= #[trigger] r.models()[j]
                    < S::modulus() by {
                    assert(r.models()[j] == self.models()[self.models().len() - 1 - j]);
                }
            }
        }
        r
    }

    /// A polynomial of the requested degree count: `degree` scalars drawn
    /// from a fresh entropy source (zero draws yield the empty, zero
    /// polynomial).
    pub fn random(degree: usize) -> (r: Self)
        ensures
            r.coeffs().len() == degree,
            r.wf(),
    {
        let mut source = EntropySource::new();
        let mut coefficients: Vec<S> = Vec::new();
        for i in 0..degree
            invariant
                coefficients@.len() == i,
                forall|j: int|
                    0 <= j < coefficients@.len() ==> 0 <= #[trigger] (coefficients@[j].residue())
                        < S::modulus(),
        {
            let s = S::rand(&mut source);
            coefficients.push(s);
        }
        let r = Polynomial { coefficients };
        proof {
            assert forall|j: int|
                0 <= j < r.models().len() implies 0 <= #[trigger] r.models()[j] < S::modulus() by {
                assert(r.models()[j] == r.coeffs()[j].residue());
            }
        }
        r
    }
}

/// Cross-algorithm equivalence: for every well-formed polynomial and every
/// scalar input, `eval` and `eval_horner` return the same scalar (their
/// contracts pin both results to the sides of this equation).
pub proof fn lemma_eval_algorithms_agree<S: ScalarTrait>(p: Polynomial<S>, x: S)
    requires
        p.wf(),
        0 <= x.residue() < S::modulus(),
    ensures
        eval_naive_spec(p.models(), x.residue(), S::modulus()) == eval_horner_spec(
            p.models(),
            x.residue(),
            S::modulus(),
        ),
{
    S::modulus_exceeds_one();
    lemma_cross_algorithm_equivalence(p.models(), x.residue(), S::modulus());
}

/// Reversed equivalence: `reverse_eval` agrees with `eval_horner` after
/// `reverse`, and `reverse_eval_horner` agrees with `eval` after `reverse`
/// (both contracts pin their results to the sides of this equation, since
/// `reverse` yields the model sequence reversed).
pub proof fn lemma_reversed_evaluation_agrees<S: ScalarTrait>(p: Polynomial<S>, x: S)
    requires
        p.wf(),
        0 <= x.residue() < S::modulus(),
    ensures
        eval_naive_spec(p.models().reverse(), x.residue(), S::modulus()) == eval_horner_spec(
            p.models().reverse(),
            x.residue(),
            S::modulus(),
        ),
{
    S::modulus_exceeds_one();
    lemma_cross_algorithm_equivalence(p.models().reverse(), x.residue(), S::modulus());
}

/// Double-reversal identity: reversing twice restores the coefficient
/// models exactly, so every evaluation of the twice-reversed polynomial
/// equals the original's.
pub proof fn lemma_double_reversal_identity<S: ScalarTrait>(p: Polynomial<S>)
    ensures
        p.models().reverse().reverse() == p.models(),
{
    assert(p.models().reverse().reverse() =~= p.models());
}

} // verus!
