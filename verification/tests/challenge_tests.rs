use curv::challenge::derive_challenge;
use sha2::Digest;

const Q: u128 = 101;

#[test]
fn identical_tuples_yield_identical_challenges() {
    let e1 = derive_challenge(1, 37, 10, 20, 7, Q);
    let e2 = derive_challenge(1, 37, 10, 20, 7, Q);
    assert_eq!(e1, e2);
    assert!(e1 < Q);
}

#[test]
fn differing_input_order_yields_a_different_challenge() {
    let e1 = derive_challenge(1, 37, 10, 20, 7, Q);
    let e2 = derive_challenge(37, 1, 10, 20, 7, Q);
    assert_ne!(e1, e2);
}

#[test]
fn differing_message_yields_a_different_challenge() {
    let e1 = derive_challenge(1, 37, 10, 20, 7, Q);
    let e2 = derive_challenge(1, 37, 10, 20, 8, Q);
    assert_ne!(e1, e2);
}

#[test]
fn challenge_matches_independent_sha256_computation() {
    let inputs: [u128; 5] = [1, 37, 10, 20, 7];
    let mut buf: Vec<u8> = Vec::new();
    for v in inputs {
        buf.extend_from_slice(&v.to_le_bytes());
    }
    let digest = sha2::Sha256::digest(&buf);
    let mut acc: u128 = 0;
    for b in digest {
        acc = (acc * 256 + u128::from(b)) % Q;
    }
    assert_eq!(derive_challenge(1, 37, 10, 20, 7, Q), acc);
}
