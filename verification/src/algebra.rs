//! The mathematical model of polynomial evaluation over a modular scalar
//! algebra: every scalar stands for a residue modulo some fixed modulus `m`,
//! and a polynomial for the sequence of its coefficients' residues.
//!
//! `poly_sum` is the canonical meaning of evaluation: the unreduced integer
//! value of `sum coeffs[i] * x^i`. The two algorithm mirrors,
//! `eval_naive_spec` (power accumulation) and `eval_horner_spec` (Horner's
//! scheme), reduce modulo `m` at every step exactly as the executable code
//! does; the lemmas below prove that both equal `poly_sum` reduced mod `m`,
//! so the two algorithms always agree.

use vstd::prelude::*;
use vstd::arithmetic::power::pow;
use vstd::arithmetic::div_mod::{
    lemma_add_mod_noop, lemma_add_mod_noop_right, lemma_mul_mod_noop_left,
    lemma_mul_mod_noop_right, lemma_small_mod, lemma_mod_bound,
};
use vstd::arithmetic::mul::{lemma_mul_is_distributive_add, lemma_mul_is_commutative};

verus! {

/// The exact integer value of the polynomial with coefficient residues `c`
/// (where `c[i]` is the coefficient of `x^i`) at the point `x`, with no
/// modular reduction.
pub open spec fn poly_sum(c: Seq<int>, x: int) -> int
    decreases c.len(),
{
    if c.len() == 0 {
        0
    } else {
        c[0] + x * poly_sum(c.drop_first(), x)
    }
}

/// Mirror of the power-accumulation ("naive") algorithm: coefficients are
/// consumed first to last; the running power of `x` and every intermediate
/// sum are reduced mod `m` at each step.
pub open spec fn eval_naive_spec(c: Seq<int>, x: int, m: int) -> int
    decreases c.len(),
{
    if c.len() == 0 {
        0
    } else {
        (eval_naive_spec(c.drop_last(), x, m) + (c.last() * (pow(x, (c.len() - 1) as nat) % m))
            % m) % m
    }
}

/// Mirror of Horner's scheme: coefficients are consumed last to first, each
/// step computing `result * x + coefficient` reduced mod `m`.
pub open spec fn eval_horner_spec(c: Seq<int>, x: int, m: int) -> int
    decreases c.len(),
{
    if c.len() == 0 {
        0
    } else {
        ((eval_horner_spec(c.drop_first(), x, m) * x) % m + c[0]) % m
    }
}

/// Peeling the highest-degree term off `poly_sum`: the value of a polynomial
/// is the value of its low-degree part plus `last * x^(len-1)`.
pub proof fn lemma_poly_sum_last(c: Seq<int>, x: int)
    requires
        c.len() > 0,
    ensures
        poly_sum(c, x) == poly_sum(c.drop_last(), x) + c.last() * pow(x, (c.len() - 1) as nat),
    decreases c.len(),
{
    reveal(pow);
    if c.len() == 1 {
        assert(c.drop_first().len() == 0);
        assert(c.drop_last().len() == 0);
        assert(poly_sum(c.drop_first(), x) == 0);
        assert(poly_sum(c, x) == c[0] + x * 0);
        assert(pow(x, 0) == 1);
        assert(c.last() == c[0]);
    } else {
        let d = c.drop_first();
        lemma_poly_sum_last(d, x);
        assert(d.drop_last() =~= c.drop_last().drop_first());
        assert(d.last() == c.last());
        let k = (c.len() - 2) as nat;
        assert(poly_sum(d, x) == poly_sum(c.drop_last().drop_first(), x) + c.last() * pow(x, k));
        lemma_mul_is_distributive_add(
            x,
            poly_sum(c.drop_last().drop_first(), x),
            c.last() * pow(x, k),
        );
        assert(x * (c.last() * pow(x, k)) == c.last() * (x * pow(x, k)))
            by (nonlinear_arith);
        assert(pow(x, (c.len() - 1) as nat) == x * pow(x, k));
        assert(poly_sum(c, x) == c[0] + x * poly_sum(d, x));
        assert(poly_sum(c.drop_last(), x) == c[0] + x * poly_sum(c.drop_last().drop_first(), x));
    }
}

/// The power-accumulation algorithm computes the polynomial's value reduced
/// modulo `m`.
pub proof fn lemma_naive_matches_poly_sum(c: Seq<int>, x: int, m: int)
    requires
        m > 1,
    ensures
        eval_naive_spec(c, x, m) == poly_sum(c, x) % m,
    decreases c.len(),
{
    if c.len() == 0 {
        lemma_small_mod(0, m as nat);
    } else {
        let d = c.drop_last();
        lemma_naive_matches_poly_sum(d, x, m);
        let p = pow(x, (c.len() - 1) as nat);
        lemma_mul_mod_noop_right(c.last(), p, m);
        assert((c.last() * (p % m)) % m == (c.last() * p) % m);
        lemma_add_mod_noop(poly_sum(d, x), c.last() * p, m);
        lemma_mod_bound(poly_sum(d, x), m);
        lemma_small_mod((poly_sum(d, x) % m) as nat, m as nat);
        assert((poly_sum(d, x) % m + (c.last() * p) % m) % m == (poly_sum(d, x) + c.last() * p)
            % m);
        lemma_poly_sum_last(c, x);
    }
}

/// Horner's scheme computes the polynomial's value reduced modulo `m`.
pub proof fn lemma_horner_matches_poly_sum(c: Seq<int>, x: int, m: int)
    requires
        m > 1,
    ensures
        eval_horner_spec(c, x, m) == poly_sum(c, x) % m,
    decreases c.len(),
{
    if c.len() == 0 {
        lemma_small_mod(0, m as nat);
    } else {
        let d = c.drop_first();
        lemma_horner_matches_poly_sum(d, x, m);
        lemma_mul_mod_noop_left(poly_sum(d, x), x, m);
        assert(((poly_sum(d, x) % m) * x) % m == (poly_sum(d, x) * x) % m);
        lemma_mul_is_commutative(poly_sum(d, x), x);
        lemma_add_mod_noop_right(c[0], x * poly_sum(d, x), m);
        assert((c[0] + (x * poly_sum(d, x)) % m) % m == (c[0] + x * poly_sum(d, x)) % m);
    }
}

/// Cross-algorithm equivalence: on every coefficient sequence and every
/// point, the power-accumulation algorithm and Horner's scheme yield the
/// same scalar.
pub proof fn lemma_cross_algorithm_equivalence(c: Seq<int>, x: int, m: int)
    requires
        m > 1,
    ensures
        eval_naive_spec(c, x, m) == eval_horner_spec(c, x, m),
{
    lemma_naive_matches_poly_sum(c, x, m);
    lemma_horner_matches_poly_sum(c, x, m);
}

/// Reversed equivalence: evaluating the reciprocal polynomial (the
/// coefficient sequence reversed) yields the same scalar whichever of the
/// two algorithms is used.
pub proof fn lemma_reversed_equivalence(c: Seq<int>, x: int, m: int)
    requires
        m > 1,
    ensures
        eval_naive_spec(c.reverse(), x, m) == eval_horner_spec(c.reverse(), x, m),
        eval_naive_spec(c.reverse(), x, m) == poly_sum(c.reverse(), x) % m,
{
    lemma_naive_matches_poly_sum(c.reverse(), x, m);
    lemma_horner_matches_poly_sum(c.reverse(), x, m);
}

/// Double-reversal identity: reversing a coefficient sequence twice yields
/// the original sequence, so both evaluation algorithms yield the same
/// scalar on it as on the original, at every point.
pub proof fn lemma_double_reversal(c: Seq<int>, x: int, m: int)
    requires
        m > 1,
    ensures
        c.reverse().reverse() == c,
        eval_naive_spec(c.reverse().reverse(), x, m) == eval_naive_spec(c, x, m),
        eval_horner_spec(c.reverse().reverse(), x, m) == eval_horner_spec(c, x, m),
{
    assert(c.reverse().reverse() =~= c);
}

/// Zero-polynomial law: the empty coefficient sequence evaluates to the
/// additive identity at every point, under both algorithms.
pub proof fn lemma_zero_polynomial(c: Seq<int>, x: int, m: int)
    requires
        c.len() == 0,
    ensures
        eval_naive_spec(c, x, m) == 0,
        eval_horner_spec(c, x, m) == 0,
{
}

/// Constant-polynomial law: a single-coefficient sequence `[k]` evaluates to
/// `k` at every point, under both algorithms, reversed or not.
pub proof fn lemma_constant_polynomial(k: int, x: int, m: int)
    requires
        m > 1,
        0 <= k < m,
    ensures
        seq![k].reverse() == seq![k],
        eval_naive_spec(seq![k], x, m) == k,
        eval_horner_spec(seq![k], x, m) == k,
{
    reveal(pow);
    let c = seq![k];
    assert(c.reverse() =~= c);
    assert(c.drop_last().len() == 0);
    assert(c.drop_first().len() == 0);
    assert(eval_naive_spec(c.drop_last(), x, m) == 0);
    assert(eval_horner_spec(c.drop_first(), x, m) == 0);
    assert(pow(x, 0) == 1);
    lemma_small_mod(1, m as nat);
    lemma_small_mod(k as nat, m as nat);
    assert(c.last() == k && c[0] == k);
    assert(eval_naive_spec(c, x, m) == (0 + (k * (1int % m)) % m) % m);
    assert(eval_horner_spec(c, x, m) == ((0 * x) % m + k) % m);
    lemma_small_mod(0, m as nat);
}

} // verus!
