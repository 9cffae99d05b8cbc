//! A curve-agnostic cryptographic arithmetic layer and a Sigma-protocol proof
//! of correct Pedersen-commitment construction, both verified.
//!
//! [`traits`] defines the scalar-field and point-group abstraction over a
//! mathematical model (values and discrete logarithms modulo the curve
//! order); [`pedersen`] builds commitments `m*G + r*H` on top of it;
//! [`challenge`] derives Fiat–Shamir challenges by hashing the transcript;
//! and [`sigma_pedersen_blind`] is the proof of knowledge of a commitment's
//! blinding factor, generic over any backend that implements the traits.
//! [`demo_curve`] is a small transparent backend that satisfies every
//! contract, used to exercise and test the generic layer.

pub mod challenge;
pub mod demo_curve;
pub mod pedersen;
pub mod sigma_pedersen_blind;
pub mod traits;
