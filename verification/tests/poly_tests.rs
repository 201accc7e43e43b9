use polyeval::poly::Polynomial;
use polyeval::wrap_scalars::{WrapU64, WrapU128};
use rand::Rng;

fn w64(value: u64) -> WrapU64 {
    WrapU64 { value }
}

fn w128(value: u128) -> WrapU128 {
    WrapU128 { value }
}

#[test]
fn test_poly_eval() {
    let mut rng = rand::rng();
    for _ in 0..100 {
        let degree: u16 = rng.random();
        let poly = Polynomial::<WrapU64>::random(degree as usize);
        for _ in 0..100 {
            let x = w64(rng.random());
            assert_eq!(poly.eval(&x), poly.eval_horner(&x));
        }
    }
}

#[test]
fn concrete_scenario_wrap_u64() {
    let poly = Polynomial::new(vec![w64(3), w64(5), w64(2)]);
    let x = w64(10);
    assert_eq!(poly.eval(&x).value, 253);
    assert_eq!(poly.eval_horner(&x).value, 253);
    let reversed = poly.clone().reverse();
    assert_eq!(reversed.coefficient(0).value, 2);
    assert_eq!(reversed.coefficient(1).value, 5);
    assert_eq!(reversed.coefficient(2).value, 3);
    assert_eq!(reversed.reverse_eval(&x).value, 253);
    assert_eq!(poly.reverse_eval(&x).value, 2 + 5 * 10 + 3 * 100);
    assert_eq!(poly.reverse_eval_horner(&x).value, 2 + 5 * 10 + 3 * 100);
}

#[test]
fn concrete_scenario_wrap_u128() {
    let poly = Polynomial::new(vec![w128(3), w128(5), w128(2)]);
    let x = w128(10);
    assert_eq!(poly.eval(&x).value, 253);
    assert_eq!(poly.eval_horner(&x).value, 253);
    assert_eq!(poly.reverse_eval(&x).value, 2 + 5 * 10 + 3 * 100);
    assert_eq!(poly.reverse_eval_horner(&x).value, 2 + 5 * 10 + 3 * 100);
}

#[test]
fn zero_polynomial_evaluates_to_zero() {
    let empty = Polynomial::<WrapU64>::new(vec![]);
    for xv in [0u64, 1, 10, u64::MAX] {
        let x = w64(xv);
        assert_eq!(empty.eval(&x).value, 0);
        assert_eq!(empty.eval_horner(&x).value, 0);
        assert_eq!(empty.reverse_eval(&x).value, 0);
        assert_eq!(empty.reverse_eval_horner(&x).value, 0);
    }
    let drawn = Polynomial::<WrapU64>::random(0);
    assert_eq!(drawn.len(), 0);
    assert_eq!(drawn.eval(&w64(42)).value, 0);
}

#[test]
fn constant_polynomial_evaluates_to_constant() {
    let constant = Polynomial::new(vec![w64(7)]);
    for xv in [0u64, 1, 10, u64::MAX] {
        let x = w64(xv);
        assert_eq!(constant.eval(&x).value, 7);
        assert_eq!(constant.eval_horner(&x).value, 7);
        assert_eq!(constant.reverse_eval(&x).value, 7);
        assert_eq!(constant.reverse_eval_horner(&x).value, 7);
    }
}

#[test]
fn double_reversal_restores_coefficients() {
    let mut rng = rand::rng();
    let poly = Polynomial::<WrapU64>::random(17);
    let original: Vec<u64> = (0..poly.len()).map(|i| poly.coefficient(i).value).collect();
    let twice = poly.clone().reverse().reverse();
    let restored: Vec<u64> = (0..twice.len()).map(|i| twice.coefficient(i).value).collect();
    assert_eq!(original, restored);
    for _ in 0..10 {
        let x = w64(rng.random());
        assert_eq!(poly.eval(&x), twice.eval(&x));
    }
}

#[test]
fn reversed_evaluation_matches_eager_reversal() {
    let mut rng = rand::rng();
    for _ in 0..20 {
        let degree: usize = (rng.random::<u16>() % 200) as usize;
        let poly = Polynomial::<WrapU64>::random(degree);
        let reversed = poly.clone().reverse();
        for _ in 0..10 {
            let x = w64(rng.random());
            assert_eq!(poly.reverse_eval(&x), reversed.eval_horner(&x));
            assert_eq!(poly.reverse_eval_horner(&x), reversed.eval(&x));
        }
    }
}

#[test]
fn wraparound_is_exact_and_consistent() {
    let a = u64::MAX - 4;
    let b = u64::MAX / 3;
    let poly = Polynomial::new(vec![w64(a), w64(b), w64(a)]);
    let xv = u64::MAX - 10;
    let x = w64(xv);
    let expected = a
        .wrapping_add(b.wrapping_mul(xv))
        .wrapping_add(a.wrapping_mul(xv.wrapping_mul(xv)));
    assert_eq!(poly.eval(&x).value, expected);
    assert_eq!(poly.eval_horner(&x).value, expected);

    let a = u128::MAX - 6;
    let poly = Polynomial::new(vec![w128(a), w128(a)]);
    let xv = u128::MAX / 5;
    let expected = a.wrapping_add(a.wrapping_mul(xv));
    assert_eq!(poly.eval(&w128(xv)).value, expected);
    assert_eq!(poly.eval_horner(&w128(xv)).value, expected);
}

#[test]
fn random_polynomial_has_requested_length() {
    for degree in [0usize, 1, 2, 55] {
        let poly = Polynomial::<WrapU64>::random(degree);
        assert_eq!(poly.len(), degree);
    }
}
