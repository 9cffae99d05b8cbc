use curv::demo_curve::{DemoPoint, DemoScalar, DEMO_H, DEMO_ORDER};
use curv::traits::{ECPoint, ECScalar};

#[test]
fn round_trip_compressed_and_uncompressed() {
    for v in 1..u128::from(DEMO_ORDER) {
        let p = DemoPoint::generator().scalar_mul(&DemoScalar::from_bigint(v));
        for compressed in [true, false] {
            let bytes = p.serialize(compressed).expect("non-identity point serializes");
            let back = DemoPoint::deserialize(&bytes).expect("round trip must decode");
            assert_eq!(back, p);
        }
    }
}

#[test]
fn identity_has_no_serialization() {
    let z = DemoPoint::zero();
    assert!(z.serialize(true).is_none());
    assert!(z.serialize(false).is_none());
    assert!(z.x_coord().is_none());
    assert!(z.y_coord().is_none());
    assert!(z.coords().is_none());
}

#[test]
fn off_curve_coordinates_are_rejected() {
    let p = DemoPoint::generator();
    let c = p.coords().expect("generator has coordinates");
    // perturb the y coordinate off the curve equation
    assert!(DemoPoint::from_coords(c.x, c.y + 1).is_err());
    // x outside the group is rejected too
    assert!(DemoPoint::from_coords(0, c.y).is_err());
    assert!(DemoPoint::from_coords(u128::from(DEMO_ORDER), 7).is_err());
}

#[test]
fn on_curve_coordinates_are_accepted() {
    for v in 1..u128::from(DEMO_ORDER) {
        let p = DemoPoint::generator().scalar_mul(&DemoScalar::from_bigint(v));
        let c = p.coords().expect("non-identity point has coordinates");
        let q = DemoPoint::from_coords(c.x, c.y).expect("coordinates satisfy the equation");
        assert_eq!(q, p);
        assert_eq!(p.x_coord(), Some(c.x));
        assert_eq!(p.y_coord(), Some(c.y));
    }
}

#[test]
fn deserialize_rejects_malformed_input() {
    assert!(DemoPoint::deserialize(&[]).is_err());
    assert!(DemoPoint::deserialize(&[2u8]).is_err());
    assert!(DemoPoint::deserialize(&[9u8, 5u8]).is_err()); // wrong tag
    assert!(DemoPoint::deserialize(&[2u8, 0u8]).is_err()); // identity has no encoding
    assert!(DemoPoint::deserialize(&[2u8, 200u8]).is_err()); // outside the group
    assert!(DemoPoint::deserialize(&[4u8, 1u8, 9u8]).is_err()); // off-curve y
    assert!(DemoPoint::deserialize(&[2u8, 1u8, 2u8, 3u8]).is_err()); // bad length
}

#[test]
fn group_algebra_matches_log_arithmetic() {
    let g = DemoPoint::generator();
    let s5 = DemoScalar::from_bigint(5);
    let s7 = DemoScalar::from_bigint(7);
    let p5 = g.scalar_mul(&s5);
    let p7 = g.scalar_mul(&s7);
    assert_eq!(p5.add_point(&p7), g.scalar_mul(&DemoScalar::from_bigint(12)));
    assert_eq!(p7.sub_point(&p5), g.scalar_mul(&DemoScalar::from_bigint(2)));
    assert_eq!(
        p5.neg_point(),
        g.scalar_mul(&DemoScalar::from_bigint(u128::from(DEMO_ORDER) - 5))
    );
    assert_eq!(p5.scalar_mul(&s7), g.scalar_mul(&DemoScalar::from_bigint(35)));
}

#[test]
fn identity_is_neutral_element() {
    let z = DemoPoint::zero();
    assert!(z.is_zero());
    let g = DemoPoint::generator();
    assert!(!g.is_zero());
    assert_eq!(g.add_point(&z), g);
    assert_eq!(z.add_point(&g), g);
}

#[test]
fn second_generator_is_fixed_and_independent_constant() {
    let h = DemoPoint::base_point2();
    assert_eq!(h, DemoPoint::base_point2());
    assert!(!h.is_zero());
    assert_ne!(h, DemoPoint::generator());
    assert_eq!(h, DemoPoint::generator().scalar_mul(&DemoScalar::from_bigint(u128::from(DEMO_H))));
}

#[test]
fn eq_point_agrees_with_structural_equality() {
    let g = DemoPoint::generator();
    let h = DemoPoint::base_point2();
    assert!(g.eq_point(&g));
    assert!(!g.eq_point(&h));
}

#[test]
fn point_assign_operations_match_pure_operations() {
    let g = DemoPoint::generator();
    let s3 = DemoScalar::from_bigint(3);
    let p = g.scalar_mul(&DemoScalar::from_bigint(11));
    let r = g.scalar_mul(&DemoScalar::from_bigint(29));

    let mut x = p;
    x.scalar_mul_assign(&s3);
    assert_eq!(x, p.scalar_mul(&s3));

    let mut x = p;
    x.add_point_assign(&r);
    assert_eq!(x, p.add_point(&r));

    let mut x = p;
    x.sub_point_assign(&r);
    assert_eq!(x, p.sub_point(&r));

    let mut x = p;
    x.neg_point_assign();
    assert_eq!(x, p.neg_point());
}

#[test]
fn error_messages() {
    let e = DemoPoint::deserialize(&[]).unwrap_err();
    assert_eq!(e.message(), "failed to deserialize the point");
    let n = DemoPoint::from_coords(1, 2).unwrap_err();
    assert_eq!(n.message(), "point not on the curve");
}
