use curv::demo_curve::{DemoScalar, DEMO_ORDER};
use curv::traits::ECScalar;

fn order() -> u128 {
    DemoScalar::curve_order()
}

#[test]
fn field_closure_add_sampled() {
    for _ in 0..32 {
        let a: DemoScalar = ECScalar::random();
        let b: DemoScalar = ECScalar::random();
        assert_eq!(a.add(&b).to_bigint(), (a.to_bigint() + b.to_bigint()) % order());
    }
}

#[test]
fn field_closure_mul_sampled() {
    for _ in 0..32 {
        let a: DemoScalar = ECScalar::random();
        let b: DemoScalar = ECScalar::random();
        assert_eq!(a.mul(&b).to_bigint(), (a.to_bigint() * b.to_bigint()) % order());
    }
}

#[test]
fn field_closure_sub_sampled() {
    for _ in 0..32 {
        let a: DemoScalar = ECScalar::random();
        let b: DemoScalar = ECScalar::random();
        assert_eq!(
            a.sub(&b).to_bigint(),
            (a.to_bigint() + order() - b.to_bigint()) % order()
        );
    }
}

#[test]
fn field_closure_neg_sampled() {
    for _ in 0..32 {
        let a: DemoScalar = ECScalar::random();
        assert_eq!(a.neg().to_bigint(), (order() - a.to_bigint()) % order());
        assert_eq!(a.add(&a.neg()).to_bigint(), 0);
    }
}

#[test]
fn field_closure_exact_values() {
    let a = DemoScalar::from_bigint(70);
    let b = DemoScalar::from_bigint(40);
    assert_eq!(a.add(&b).to_bigint(), 9); // 110 mod 101
    assert_eq!(a.mul(&b).to_bigint(), 2800 % 101);
    assert_eq!(b.sub(&a).to_bigint(), 71); // 40 - 70 mod 101
    assert_eq!(a.neg().to_bigint(), 31);
}

#[test]
fn invert_nonzero_gives_multiplicative_identity() {
    for v in 1..u128::from(DEMO_ORDER) {
        let a = DemoScalar::from_bigint(v);
        let inv = a.invert().expect("nonzero scalar must have an inverse");
        assert_eq!(a.mul(&inv).to_bigint(), 1);
    }
}

#[test]
fn invert_zero_signals_no_inverse() {
    let z = DemoScalar::zero();
    assert!(z.invert().is_none());
}

#[test]
fn zero_and_is_zero() {
    let z = DemoScalar::zero();
    assert!(z.is_zero());
    assert_eq!(z.to_bigint(), 0);
    assert!(!DemoScalar::from_bigint(5).is_zero());
}

#[test]
fn from_bigint_reduces_modulo_order() {
    assert_eq!(DemoScalar::from_bigint(0).to_bigint(), 0);
    assert_eq!(DemoScalar::from_bigint(100).to_bigint(), 100);
    assert_eq!(DemoScalar::from_bigint(101).to_bigint(), 0);
    assert_eq!(DemoScalar::from_bigint(12345).to_bigint(), 12345 % 101);
}

#[test]
fn curve_order_is_fixed_constant() {
    assert_eq!(DemoScalar::curve_order(), 101);
    assert_eq!(u128::from(DEMO_ORDER), DemoScalar::curve_order());
}

#[test]
fn zeroize_wipes_value() {
    let mut a = DemoScalar::from_bigint(77);
    a.zeroize();
    assert_eq!(a.to_bigint(), 0);
    assert!(a.is_zero());
}

#[test]
fn scalar_assign_operations_match_pure_operations() {
    let a = DemoScalar::from_bigint(23);
    let b = DemoScalar::from_bigint(88);

    let mut x = a.clone();
    x.add_assign(&b);
    assert_eq!(x.to_bigint(), a.add(&b).to_bigint());

    let mut x = a.clone();
    x.mul_assign(&b);
    assert_eq!(x.to_bigint(), a.mul(&b).to_bigint());

    let mut x = a.clone();
    x.sub_assign(&b);
    assert_eq!(x.to_bigint(), a.sub(&b).to_bigint());

    let mut x = a.clone();
    x.neg_assign();
    assert_eq!(x.to_bigint(), a.neg().to_bigint());
}

#[test]
fn random_scalars_are_reduced() {
    for _ in 0..64 {
        let a: DemoScalar = ECScalar::random();
        assert!(a.to_bigint() < order());
    }
}
