use curv::demo_curve::{DemoCurve, DemoPoint, DemoScalar};
use curv::pedersen::create_commitment_with_user_defined_randomness;
use curv::sigma_pedersen_blind::{PedersenBlindingProof, ProvePederesenBlind};
use curv::traits::{Curve, ECPoint, ECScalar};

#[test]
fn test_pedersen_blind_proof() {
    let m: DemoScalar = ECScalar::random();
    let r: DemoScalar = ECScalar::random();
    let pedersen_proof = PedersenBlindingProof::<DemoPoint>::prove(&m, &r);
    let _verified =
        PedersenBlindingProof::<DemoPoint>::verify(&pedersen_proof).expect("error pedersen blind");
}

#[test]
fn commitment_binding_end_to_end() {
    let m = DemoScalar::from_bigint(7);
    let r = DemoScalar::from_bigint(13);
    let com = create_commitment_with_user_defined_randomness::<DemoPoint>(&m, &r);
    let proof = PedersenBlindingProof::<DemoPoint>::prove(&m, &r);
    assert_eq!(proof.com, com);
    assert_eq!(proof.m.to_bigint(), 7);
    assert!(PedersenBlindingProof::<DemoPoint>::verify(&proof).is_ok());
}

#[test]
fn blinding_factor_sensitivity() {
    let m = DemoScalar::from_bigint(7);
    let r = DemoScalar::from_bigint(13);
    let proof = PedersenBlindingProof::<DemoPoint>::prove(&m, &r);
    let r2 = DemoScalar::from_bigint(14);
    let com2 = create_commitment_with_user_defined_randomness::<DemoPoint>(&proof.m, &r2);
    let mismatched = PedersenBlindingProof::<DemoPoint>::from_parts(
        proof.challenge().clone(),
        proof.m.clone(),
        proof.aux_point().clone(),
        com2,
        proof.response().clone(),
    );
    assert!(PedersenBlindingProof::<DemoPoint>::verify(&mismatched).is_err());
}

#[test]
fn message_tamper_detection() {
    let m = DemoScalar::from_bigint(7);
    let r = DemoScalar::from_bigint(13);
    let mut proof = PedersenBlindingProof::<DemoPoint>::prove(&m, &r);
    assert!(PedersenBlindingProof::<DemoPoint>::verify(&proof).is_ok());
    proof.m = DemoScalar::from_bigint(8);
    assert!(PedersenBlindingProof::<DemoPoint>::verify(&proof).is_err());
}

#[test]
fn stored_challenge_is_ignored_by_verification() {
    let m = DemoScalar::from_bigint(42);
    let r = DemoScalar::from_bigint(99);
    let proof = PedersenBlindingProof::<DemoPoint>::prove(&m, &r);
    // overwrite the stored challenge with arbitrary values: the verdict must
    // rest solely on the recomputed challenge
    for junk in [0u128, 1, 50, 100] {
        let overwritten = PedersenBlindingProof::<DemoPoint>::from_parts(
            DemoScalar::from_bigint(junk),
            proof.m.clone(),
            proof.aux_point().clone(),
            proof.com.clone(),
            proof.response().clone(),
        );
        assert!(PedersenBlindingProof::<DemoPoint>::verify(&overwritten).is_ok());
    }
}

#[test]
fn tampered_response_is_rejected() {
    let m = DemoScalar::from_bigint(3);
    let r = DemoScalar::from_bigint(5);
    let proof = PedersenBlindingProof::<DemoPoint>::prove(&m, &r);
    let bad_z = proof.response().add(&DemoScalar::from_bigint(1));
    let tampered = PedersenBlindingProof::<DemoPoint>::from_parts(
        proof.challenge().clone(),
        proof.m.clone(),
        proof.aux_point().clone(),
        proof.com.clone(),
        bad_z,
    );
    assert!(PedersenBlindingProof::<DemoPoint>::verify(&tampered).is_err());
}

#[test]
fn from_parts_preserves_components() {
    let m = DemoScalar::from_bigint(11);
    let r = DemoScalar::from_bigint(22);
    let proof = PedersenBlindingProof::<DemoPoint>::prove(&m, &r);
    let rebuilt = PedersenBlindingProof::<DemoPoint>::from_parts(
        proof.challenge().clone(),
        proof.m.clone(),
        proof.aux_point().clone(),
        proof.com.clone(),
        proof.response().clone(),
    );
    assert_eq!(rebuilt.m, proof.m);
    assert_eq!(rebuilt.com, proof.com);
    assert_eq!(rebuilt.challenge(), proof.challenge());
    assert_eq!(rebuilt.aux_point(), proof.aux_point());
    assert_eq!(rebuilt.response(), proof.response());
    assert!(PedersenBlindingProof::<DemoPoint>::verify(&rebuilt).is_ok());
}

#[test]
fn commitment_is_deterministic_in_its_inputs() {
    let m = DemoScalar::from_bigint(7);
    let r = DemoScalar::from_bigint(13);
    let c1 = create_commitment_with_user_defined_randomness::<DemoPoint>(&m, &r);
    let c2 = create_commitment_with_user_defined_randomness::<DemoPoint>(&m, &r);
    assert_eq!(c1, c2);
    // and matches m*G + r*H computed by hand
    let by_hand = DemoPoint::generator()
        .scalar_mul(&m)
        .add_point(&DemoPoint::base_point2().scalar_mul(&r));
    assert_eq!(c1, by_hand);
}

#[test]
fn protocol_runs_through_the_curve_binding() {
    type P = <DemoCurve as Curve>::Point;
    type S = <DemoCurve as Curve>::Scalar;
    let m: S = S::from_bigint(7);
    let r: S = S::from_bigint(13);
    let proof = PedersenBlindingProof::<P>::prove(&m, &r);
    assert!(PedersenBlindingProof::<P>::verify(&proof).is_ok());
}
