//! Pedersen commitment construction over the curve abstraction.

use vstd::arithmetic::div_mod::lemma_small_mod;
use vstd::prelude::*;

use crate::traits::{ECPoint, ECScalar};

verus! {

/// Discrete logarithm of the Pedersen commitment `m*G + r*H` to message `m`
/// under blinding `r`.
pub open spec fn commitment_log<P: ECPoint>(m: nat, r: nat) -> nat {
    let q = <P::Scalar as ECScalar>::order_spec();
    (m + (P::h_log() * r) % q) % q
}

/// Pedersen commitment `m*G + r*H`, built from the caller-supplied blinding
/// `r` (not freshly sampled): a deterministic function of its two inputs.
pub fn create_commitment_with_user_defined_randomness<P: ECPoint>(
    m: &P::Scalar,
    r: &P::Scalar,
) -> (c: P)
    requires
        m.s_val() < <P::Scalar as ECScalar>::order_spec(),
        r.s_val() < <P::Scalar as ECScalar>::order_spec(),
    ensures
        c.p_log() == commitment_log::<P>(m.s_val(), r.s_val()),
        c.p_log() < <P::Scalar as ECScalar>::order_spec(),
{
    proof {
        <P::Scalar as ECScalar>::lemma_order_bounds();
    }
    let g = P::generator();
    let h = P::base_point2();
    let mg = g.scalar_mul(m);
    let rh = h.scalar_mul(r);
    proof {
        lemma_small_mod(m.s_val(), <P::Scalar as ECScalar>::order_spec());
        assert(mg.p_log() == m.s_val());
    }
    mg.add_point(&rh)
}

} // verus!
