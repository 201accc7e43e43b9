use polyeval::poly::Polynomial;
use rand::Rng;

fn k(value: u64) -> k256::Scalar {
    k256::Scalar::from(value)
}

fn d(value: u64) -> curve25519_dalek::Scalar {
    curve25519_dalek::Scalar::from(value)
}

#[test]
fn concrete_scenario_secp256k1() {
    let poly = Polynomial::new(vec![k(3), k(5), k(2)]);
    let x = k(10);
    assert_eq!(poly.eval(&x), k(253));
    assert_eq!(poly.eval_horner(&x), k(253));
    let reversed = poly.clone().reverse();
    assert_eq!(*reversed.coefficient(0), k(2));
    assert_eq!(*reversed.coefficient(2), k(3));
    assert_eq!(reversed.reverse_eval(&x), k(253));
    assert_eq!(poly.reverse_eval(&x), k(2 + 5 * 10 + 3 * 100));
}

#[test]
fn concrete_scenario_ed25519() {
    let poly = Polynomial::new(vec![d(3), d(5), d(2)]);
    let x = d(10);
    assert_eq!(poly.eval(&x), d(253));
    assert_eq!(poly.eval_horner(&x), d(253));
    let reversed = poly.clone().reverse();
    assert_eq!(*reversed.coefficient(0), d(2));
    assert_eq!(*reversed.coefficient(2), d(3));
    assert_eq!(reversed.reverse_eval(&x), d(253));
    assert_eq!(poly.reverse_eval(&x), d(2 + 5 * 10 + 3 * 100));
}

#[test]
fn field_addition_and_identities_are_real() {
    let poly = Polynomial::new(vec![k(1), k(1)]);
    assert_eq!(poly.eval(&k(1)), k(2));
    let poly = Polynomial::new(vec![d(1), d(1)]);
    assert_eq!(poly.eval(&d(1)), d(2));
}

#[test]
fn zero_polynomial_over_fields() {
    let empty = Polynomial::<k256::Scalar>::new(vec![]);
    for xv in [0u64, 1, 12345] {
        assert_eq!(empty.eval(&k(xv)), k(0));
        assert_eq!(empty.eval_horner(&k(xv)), k(0));
        assert_eq!(empty.reverse_eval(&k(xv)), k(0));
        assert_eq!(empty.reverse_eval_horner(&k(xv)), k(0));
    }
    let empty = Polynomial::<curve25519_dalek::Scalar>::new(vec![]);
    for xv in [0u64, 1, 12345] {
        assert_eq!(empty.eval(&d(xv)), d(0));
        assert_eq!(empty.eval_horner(&d(xv)), d(0));
        assert_eq!(empty.reverse_eval(&d(xv)), d(0));
        assert_eq!(empty.reverse_eval_horner(&d(xv)), d(0));
    }
}

#[test]
fn constant_polynomial_over_fields() {
    let constant = Polynomial::new(vec![k(77)]);
    for xv in [0u64, 1, 999999] {
        assert_eq!(constant.eval(&k(xv)), k(77));
        assert_eq!(constant.eval_horner(&k(xv)), k(77));
        assert_eq!(constant.reverse_eval(&k(xv)), k(77));
        assert_eq!(constant.reverse_eval_horner(&k(xv)), k(77));
    }
    let constant = Polynomial::new(vec![d(77)]);
    for xv in [0u64, 1, 999999] {
        assert_eq!(constant.eval(&d(xv)), d(77));
        assert_eq!(constant.eval_horner(&d(xv)), d(77));
        assert_eq!(constant.reverse_eval(&d(xv)), d(77));
        assert_eq!(constant.reverse_eval_horner(&d(xv)), d(77));
    }
}

#[test]
fn fuzz_eval_agreement_secp256k1() {
    let mut rng = rand::rng();
    for _ in 0..10 {
        let degree: usize = (rng.random::<u16>() % 48) as usize;
        let poly = Polynomial::<k256::Scalar>::random(degree);
        for _ in 0..5 {
            let x = k(rng.random());
            assert_eq!(poly.eval(&x), poly.eval_horner(&x));
            assert_eq!(poly.reverse_eval(&x), poly.reverse_eval_horner(&x));
        }
    }
}

#[test]
fn fuzz_eval_agreement_ed25519() {
    let mut rng = rand::rng();
    for _ in 0..10 {
        let degree: usize = (rng.random::<u16>() % 48) as usize;
        let poly = Polynomial::<curve25519_dalek::Scalar>::random(degree);
        for _ in 0..5 {
            let x = d(rng.random());
            assert_eq!(poly.eval(&x), poly.eval_horner(&x));
            assert_eq!(poly.reverse_eval(&x), poly.reverse_eval_horner(&x));
        }
    }
}

#[test]
fn random_field_polynomials_evaluate() {
    let poly = Polynomial::<k256::Scalar>::random(8);
    assert_eq!(poly.len(), 8);
    let x = *poly.coefficient(0);
    assert_eq!(poly.eval(&x), poly.eval_horner(&x));
    let poly = Polynomial::<curve25519_dalek::Scalar>::random(8);
    assert_eq!(poly.len(), 8);
    let x = *poly.coefficient(0);
    assert_eq!(poly.eval(&x), poly.eval_horner(&x));
}
