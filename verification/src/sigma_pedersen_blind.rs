//! Sigma protocol for proving that a Pedersen commitment was constructed
//! correctly: a non-interactive proof of knowledge of the blinding factor `r`
//! with `com = m*G + r*H`.
//!
//! The witness is `r`; the statement is `(com, m)`.  The prover chooses
//! `A = s*H` for a fresh random nonce `s`, derives the Fiat–Shamir challenge
//! `e = H(G_x, H_x, com_x, A_x, m)`, and responds with `z = s + e*r`.  The
//! verifier recomputes the challenge from the transcript — the stored `e`
//! field is never trusted — and checks `z*H + e*(m*G) == e*com + A`.

use vstd::arithmetic::div_mod::{
    lemma_add_mod_noop, lemma_mod_equivalence, lemma_mul_mod_noop_left, lemma_mul_mod_noop_right,
    lemma_small_mod,
};
use vstd::arithmetic::mul::{
    lemma_mul_is_associative, lemma_mul_is_commutative, lemma_mul_is_distributive_add,
    lemma_mul_is_distributive_add_other_way, lemma_mul_is_distributive_sub_other_way,
};
use vstd::prelude::*;

use crate::challenge::{challenge_spec, derive_challenge};
use crate::pedersen::{commitment_log, create_commitment_with_user_defined_randomness};
use crate::traits::{ECPoint, ECScalar};

verus! {

/// Verification rejected the proof: the Sigma-protocol equation does not
/// hold.  No further diagnostic is carried, by design.
#[derive(Clone, Copy, Debug)]
pub struct ProofError;

/// The proof artifact.
///
/// `m` and `com` are public by design: the proof intentionally reveals the
/// committed message, and only the blinding factor stays secret.  Neither the
/// blinding `r` nor the prover's nonce `s` appears here.  The stored
/// challenge `e` is kept for wire compatibility but is redundant:
/// verification recomputes the challenge from the transcript and ignores the
/// stored value.
pub struct PedersenBlindingProof<P: ECPoint> {
    e: P::Scalar,
    pub m: P::Scalar,
    a: P,
    pub com: P,
    z: P::Scalar,
}

/// Value of the stored challenge scalar `e`.
pub closed spec fn e_val<P: ECPoint>(p: &PedersenBlindingProof<P>) -> nat {
    p.e.s_val()
}

/// Value of the revealed message scalar `m`.
pub closed spec fn m_val<P: ECPoint>(p: &PedersenBlindingProof<P>) -> nat {
    p.m.s_val()
}

/// Discrete logarithm of the auxiliary point `A`.
pub closed spec fn a_log<P: ECPoint>(p: &PedersenBlindingProof<P>) -> nat {
    p.a.p_log()
}

/// Discrete logarithm of the commitment point `com`.
pub closed spec fn c_log<P: ECPoint>(p: &PedersenBlindingProof<P>) -> nat {
    p.com.p_log()
}

/// Value of the response scalar `z`.
pub closed spec fn z_val<P: ECPoint>(p: &PedersenBlindingProof<P>) -> nat {
    p.z.s_val()
}

/// Every component of the proof is reduced modulo the order.
pub open spec fn proof_wf<P: ECPoint>(p: &PedersenBlindingProof<P>) -> bool {
    let q = <P::Scalar as ECScalar>::order_spec();
    e_val(p) < q && m_val(p) < q && a_log(p) < q && c_log(p) < q && z_val(p) < q
}

/// The `x` coordinate a point contributes to the transcript: its coordinate
/// when it has one, `0` for the identity.
pub open spec fn x_repr<P: ECPoint>(l: nat) -> u128 {
    if l == 0 {
        0
    } else {
        P::x_of(l)
    }
}

/// The challenge the verifier recomputes from the proof's transcript.
pub open spec fn recomputed_challenge<P: ECPoint>(p: &PedersenBlindingProof<P>) -> nat {
    challenge_spec(
        x_repr::<P>(1),
        x_repr::<P>(P::h_log()),
        x_repr::<P>(c_log(p)),
        x_repr::<P>(a_log(p)),
        m_val(p) as u128,
        <P::Scalar as ECScalar>::order_spec(),
    )
}

/// The Sigma verification equation `z*H + e*(m*G) == e*com + A`, over the
/// discrete-log model and the recomputed challenge.
pub open spec fn verify_equation<P: ECPoint>(p: &PedersenBlindingProof<P>) -> bool {
    let q = <P::Scalar as ECScalar>::order_spec();
    let h = P::h_log();
    let e = recomputed_challenge(p);
    (z_val(p) * h + e * m_val(p)) % q == (e * c_log(p) + a_log(p)) % q
}

/// The shape of a proof honestly produced with nonce `s` and blinding `r`.
pub open spec fn honest_with<P: ECPoint>(p: &PedersenBlindingProof<P>, s: nat, r: nat) -> bool {
    let q = <P::Scalar as ECScalar>::order_spec();
    let h = P::h_log();
    let e = recomputed_challenge(p);
    s < q && r < q && a_log(p) == (h * s) % q && c_log(p) == commitment_log::<P>(m_val(p), r)
        && z_val(p) == (s + (e * r) % q) % q
}

/// The proof was honestly produced for blinding `r` with some nonce.
pub open spec fn is_honest<P: ECPoint>(p: &PedersenBlindingProof<P>, r: nat) -> bool {
    exists|s: nat| honest_with(p, s, r)
}


/// The transcript contribution of a point: its `x` coordinate, or `0` for
/// the identity.
fn transcript_x<P: ECPoint>(p: &P) -> (r: u128)
    requires
        p.p_log() < <P::Scalar as ECScalar>::order_spec(),
    ensures
        r == x_repr::<P>(p.p_log()),
{
    match p.x_coord() {
        Some(x) => x,
        None => 0,
    }
}

/// The Sigma protocol over a Pedersen commitment's blinding factor.
pub trait ProvePederesenBlind<P: ECPoint>: Sized {
    /// Produces a proof of knowledge of `r` such that
    /// `com = m*G + r*H`; the commitment is rebuilt from `(m, r)` and
    /// embedded in the proof.
    fn prove(m: &P::Scalar, r: &P::Scalar) -> (p: PedersenBlindingProof<P>)
        requires
            m.s_val() < <P::Scalar as ECScalar>::order_spec(),
            r.s_val() < <P::Scalar as ECScalar>::order_spec(),
        ensures
            proof_wf(&p),
            m_val(&p) == m.s_val(),
            c_log(&p) == commitment_log::<P>(m.s_val(), r.s_val()),
            e_val(&p) == recomputed_challenge(&p),
            is_honest(&p, r.s_val()),
    ;

    /// Checks the Sigma verification equation against the recomputed
    /// challenge; accepts exactly when the equation holds.
    fn verify(proof: &PedersenBlindingProof<P>) -> (r: Result<(), ProofError>)
        requires
            proof_wf(proof),
        ensures
            r is Ok <==> verify_equation(proof),
    ;
}

impl<P: ECPoint> PedersenBlindingProof<P> {
    /// Reassembles a proof from its parts, e.g. after receiving it off the
    /// wire.
    pub fn from_parts(e: P::Scalar, m: P::Scalar, a: P, com: P, z: P::Scalar) -> (p: Self)
        requires
            e.s_val() < <P::Scalar as ECScalar>::order_spec(),
            m.s_val() < <P::Scalar as ECScalar>::order_spec(),
            a.p_log() < <P::Scalar as ECScalar>::order_spec(),
            com.p_log() < <P::Scalar as ECScalar>::order_spec(),
            z.s_val() < <P::Scalar as ECScalar>::order_spec(),
        ensures
            proof_wf(&p),
            e_val(&p) == e.s_val(),
            m_val(&p) == m.s_val(),
            a_log(&p) == a.p_log(),
            c_log(&p) == com.p_log(),
            z_val(&p) == z.s_val(),
    {
        PedersenBlindingProof { e, m, a, com, z }
    }

    /// The stored challenge scalar.
    pub fn challenge(&self) -> (r: &P::Scalar)
        ensures
            r.s_val() == e_val(self),
    {
        &self.e
    }

    /// The auxiliary point `A = s*H`.
    pub fn aux_point(&self) -> (r: &P)
        ensures
            r.p_log() == a_log(self),
    {
        &self.a
    }

    /// The response scalar `z = s + e*r`.
    pub fn response(&self) -> (r: &P::Scalar)
        ensures
            r.s_val() == z_val(self),
    {
        &self.z
    }
}

impl<P: ECPoint> ProvePederesenBlind<P> for PedersenBlindingProof<P> {
    fn prove(m: &P::Scalar, r: &P::Scalar) -> (p: PedersenBlindingProof<P>) {
        proof {
            <P::Scalar as ECScalar>::lemma_order_bounds();
            P::lemma_h_log();
        }
        let h = P::base_point2();
        let mut s = P::Scalar::random();
        let a = h.scalar_mul(&s);
        let com = create_commitment_with_user_defined_randomness::<P>(m, r);
        let g = P::generator();
        let g_x = transcript_x(&g);
        let h_x = transcript_x(&h);
        let c_x = transcript_x(&com);
        let a_x = transcript_x(&a);
        let m_int = m.to_bigint();
        let q = P::Scalar::curve_order();
        let e_int = derive_challenge(g_x, h_x, c_x, a_x, m_int, q);
        let e = P::Scalar::from_bigint(e_int);
        proof {
            lemma_small_mod(e_int as nat, q as nat);
        }
        let er = e.mul(r);
        let z = s.add(&er);
        let ghost s_val = s.s_val();
        s.zeroize();
        let m_copy = P::Scalar::from_bigint(m.to_bigint());
        proof {
            lemma_small_mod(m.s_val(), q as nat);
        }
        let p = PedersenBlindingProof { e, m: m_copy, a, com, z };
        proof {
            assert(m_val(&p) == m.s_val());
            assert(m_val(&p) as u128 == m_int);
            assert(x_repr::<P>(1) == g_x);
            assert(x_repr::<P>(P::h_log()) == h_x);
            assert(x_repr::<P>(c_log(&p)) == c_x);
            assert(x_repr::<P>(a_log(&p)) == a_x);
            assert(recomputed_challenge(&p) == e_int as nat);
            assert(honest_with(&p, s_val, r.s_val()));
        }
        p
    }

    fn verify(proof: &PedersenBlindingProof<P>) -> (res: Result<(), ProofError>) {
        proof {
            <P::Scalar as ECScalar>::lemma_order_bounds();
            P::lemma_h_log();
        }
        let g = P::generator();
        let h = P::base_point2();
        let g_x = transcript_x(&g);
        let h_x = transcript_x(&h);
        let c_x = transcript_x(&proof.com);
        let a_x = transcript_x(&proof.a);
        let m_int = proof.m.to_bigint();
        let q = P::Scalar::curve_order();
        let e_int = derive_challenge(g_x, h_x, c_x, a_x, m_int, q);
        let e = P::Scalar::from_bigint(e_int);
        proof {
            lemma_small_mod(e_int as nat, q as nat);
            assert(e.s_val() == recomputed_challenge(proof));
        }
        let zh = h.scalar_mul(&proof.z);
        let mg = g.scalar_mul(&proof.m);
        let emg = mg.scalar_mul(&e);
        let lhs = zh.add_point(&emg);
        let ecom = proof.com.scalar_mul(&e);
        let rhs = ecom.add_point(&proof.a);
        proof {
            let qn = <P::Scalar as ECScalar>::order_spec();
            let hn = P::h_log();
            let en = recomputed_challenge(proof);
            let mn = m_val(proof);
            let zn = z_val(proof);
            let cn = c_log(proof);
            let an = a_log(proof);
            lemma_small_mod(mn, qn);
            assert(mg.p_log() == mn);
            assert(emg.p_log() == (mn * en) % qn);
            assert(lhs.p_log() == ((hn * zn) % qn + (mn * en) % qn) % qn);
            assert(lhs.p_log() == (zn * hn + en * mn) % qn) by {
                lemma_mul_is_commutative(hn as int, zn as int);
                lemma_mul_is_commutative(mn as int, en as int);
                lemma_add_mod_noop((zn * hn) as int, (en * mn) as int, qn as int);
            }
            assert(rhs.p_log() == ((cn * en) % qn + an) % qn);
            assert(rhs.p_log() == (en * cn + an) % qn) by {
                lemma_mul_is_commutative(cn as int, en as int);
                lemma_small_mod(an, qn);
                lemma_add_mod_noop((en * cn) as int, an as int, qn as int);
            }
        }
        if lhs.eq_point(&rhs) {
            Ok(())
        } else {
            Err(ProofError)
        }
    }
}

/// Reduction of the left side of the verification equation for a response of
/// the honest shape `z = s + e_used*r`.
proof fn lemma_lhs_reduces(z: nat, h: nat, e_used: nat, r: nat, s: nat, e2: nat, m: nat, q: nat)
    requires
        q > 1,
        z == (s + (e_used * r) % q) % q,
    ensures
        (z * h + e2 * m) % q == (s * h + e_used * r * h + e2 * m) % q,
{
    let zr = (e_used * r) % q;
    assert((z * h) % q == (s * h + e_used * r * h) % q) by {
        lemma_mul_mod_noop_left((s + zr) as int, h as int, q as int);
        lemma_mul_is_distributive_add_other_way(h as int, s as int, zr as int);
        lemma_mul_mod_noop_left((e_used * r) as int, h as int, q as int);
        lemma_add_mod_noop((s * h) as int, (zr * h) as int, q as int);
        lemma_add_mod_noop((s * h) as int, (e_used * r * h) as int, q as int);
    }
    lemma_add_mod_noop((z * h) as int, (e2 * m) as int, q as int);
    lemma_add_mod_noop((s * h + e_used * r * h) as int, (e2 * m) as int, q as int);
}

/// Reduction of the right side of the verification equation for a commitment
/// built from blinding `r2` and an auxiliary point built from nonce `s`.
proof fn lemma_rhs_reduces(c: nat, a: nat, h: nat, e2: nat, m: nat, r2: nat, s: nat, q: nat)
    requires
        q > 1,
        c == (m + (h * r2) % q) % q,
        a == (h * s) % q,
    ensures
        (e2 * c + a) % q == (e2 * m + e2 * (h * r2) + h * s) % q,
{
    let hr = (h * r2) % q;
    assert((e2 * c) % q == (e2 * m + e2 * (h * r2)) % q) by {
        lemma_mul_mod_noop_right(e2 as int, (m + hr) as int, q as int);
        lemma_mul_is_distributive_add(e2 as int, m as int, hr as int);
        lemma_mul_mod_noop_right(e2 as int, (h * r2) as int, q as int);
        lemma_add_mod_noop((e2 * m) as int, (e2 * hr) as int, q as int);
        lemma_add_mod_noop((e2 * m) as int, (e2 * (h * r2)) as int, q as int);
    }
    lemma_add_mod_noop((e2 * c) as int, a as int, q as int);
    lemma_small_mod(a, q);
    lemma_add_mod_noop((e2 * m + e2 * (h * r2)) as int, (h * s) as int, q as int);
}

/// Completeness of the protocol: an honestly produced proof always passes
/// verification, for every message, blinding factor and nonce.
pub proof fn lemma_honest_proof_verifies<P: ECPoint>(p: &PedersenBlindingProof<P>, r: nat)
    requires
        proof_wf(p),
        is_honest(p, r),
    ensures
        verify_equation(p),
{
    <P::Scalar as ECScalar>::lemma_order_bounds();
    let q = <P::Scalar as ECScalar>::order_spec();
    let h = P::h_log();
    let e = recomputed_challenge(p);
    let m = m_val(p);
    let s = choose|s: nat| honest_with(p, s, r);
    assert(honest_with(p, s, r));
    lemma_lhs_reduces(z_val(p), h, e, r, s, e, m, q);
    lemma_rhs_reduces(c_log(p), a_log(p), h, e, m, r, s, q);
    assert(s * h + e * r * h + e * m == e * m + e * (h * r) + h * s) by {
        lemma_mul_is_commutative(s as int, h as int);
        lemma_mul_is_commutative(h as int, r as int);
        lemma_mul_is_associative(e as int, r as int, h as int);
    }
}

/// Non-malleability of the stored challenge: verification depends only on
/// the recomputed challenge, never on the stored `e` field, so two proofs
/// that agree on message, auxiliary point, commitment and response verify
/// alike, whatever their stored challenges hold.
pub proof fn lemma_stored_challenge_ignored<P: ECPoint>(
    p1: &PedersenBlindingProof<P>,
    p2: &PedersenBlindingProof<P>,
)
    requires
        m_val(p1) == m_val(p2),
        a_log(p1) == a_log(p2),
        c_log(p1) == c_log(p2),
        z_val(p1) == z_val(p2),
    ensures
        verify_equation(p1) == verify_equation(p2),
{
}

/// Sensitivity to the blinding factor: a proof whose auxiliary point and
/// response were built from challenge `e1`, nonce `s` and blinding `r`, but
/// whose commitment was built from blinding `r2`, fails verification
/// whenever the blinded challenge terms `e1*r` and `e2*r2` differ modulo the
/// order (`e2` being the recomputed challenge).  For challenges derived from
/// a collision-resistant hash this covers all but a vanishing fraction of
/// the cases with `r2 != r`.
pub proof fn lemma_wrong_blinding_fails<P: ECPoint>(
    p: &PedersenBlindingProof<P>,
    s: nat,
    r: nat,
    r2: nat,
    e1: nat,
)
    requires
        proof_wf(p),
        s < <P::Scalar as ECScalar>::order_spec(),
        r < <P::Scalar as ECScalar>::order_spec(),
        r2 < <P::Scalar as ECScalar>::order_spec(),
        a_log(p) == (P::h_log() * s) % <P::Scalar as ECScalar>::order_spec(),
        z_val(p) == (s + (e1 * r) % <P::Scalar as ECScalar>::order_spec())
            % <P::Scalar as ECScalar>::order_spec(),
        c_log(p) == commitment_log::<P>(m_val(p), r2),
        (e1 * r) % <P::Scalar as ECScalar>::order_spec() != (recomputed_challenge(p) * r2)
            % <P::Scalar as ECScalar>::order_spec(),
    ensures
        !verify_equation(p),
{
    <P::Scalar as ECScalar>::lemma_order_bounds();
    P::lemma_h_log();
    let q = <P::Scalar as ECScalar>::order_spec();
    let h = P::h_log();
    let e2 = recomputed_challenge(p);
    let m = m_val(p);
    if verify_equation(p) {
        lemma_lhs_reduces(z_val(p), h, e1, r, s, e2, m, q);
        lemma_rhs_reduces(c_log(p), a_log(p), h, e2, m, r2, s, q);
        // the two reduced sums are congruent, so the blinded terms agree
        let x = e1 * r * h;
        let y = e2 * (h * r2);
        let c0 = s * h + e2 * m;
        assert((x + c0) % q == (y + c0) % q);
        assert(x % q == y % q) by {
            lemma_mod_equivalence((x + c0) as int, (y + c0) as int, q as int);
            lemma_mod_equivalence(x as int, y as int, q as int);
        }
        let u1 = (e1 * r) % q;
        let u2 = (e2 * r2) % q;
        assert((u1 * h) % q == x % q) by {
            lemma_mul_mod_noop_left((e1 * r) as int, h as int, q as int);
        }
        assert((u2 * h) % q == y % q) by {
            lemma_mul_is_commutative(h as int, r2 as int);
            lemma_mul_is_associative(e2 as int, r2 as int, h as int);
            lemma_mul_mod_noop_left((e2 * r2) as int, h as int, q as int);
        }
        assert((u1 * h) % q == (u2 * h) % q);
        if u1 > u2 {
            assert((((u1 - u2) as nat) * h) % q == 0) by {
                lemma_mod_equivalence((u1 * h) as int, (u2 * h) as int, q as int);
                lemma_mul_is_distributive_sub_other_way(h as int, u1 as int, u2 as int);
                lemma_mod_equivalence((u1 * h - u2 * h) as int, 0, q as int);
            }
            <P::Scalar as ECScalar>::lemma_no_zero_divisors((u1 - u2) as nat, h);
        } else {
            assert((((u2 - u1) as nat) * h) % q == 0) by {
                lemma_mod_equivalence((u2 * h) as int, (u1 * h) as int, q as int);
                lemma_mul_is_distributive_sub_other_way(h as int, u2 as int, u1 as int);
                lemma_mod_equivalence((u2 * h - u1 * h) as int, 0, q as int);
            }
            <P::Scalar as ECScalar>::lemma_no_zero_divisors((u2 - u1) as nat, h);
        }
        assert(false);
    }
}

/// Tamper detection for the revealed message: a proof whose auxiliary point
/// and response were honestly built from challenge `e1`, nonce `s` and
/// blinding `r`, and whose commitment opens the original message `m0`, fails
/// verification once its `m` field holds another message — whenever the
/// challenge terms on the two sides of the reduced equation differ modulo
/// the order (`e2` being the challenge recomputed over the tampered
/// transcript; for a collision-resistant hash this covers all but a
/// vanishing fraction of the tampered cases).
pub proof fn lemma_wrong_message_fails<P: ECPoint>(
    p: &PedersenBlindingProof<P>,
    s: nat,
    r: nat,
    m0: nat,
    e1: nat,
)
    requires
        proof_wf(p),
        s < <P::Scalar as ECScalar>::order_spec(),
        r < <P::Scalar as ECScalar>::order_spec(),
        a_log(p) == (P::h_log() * s) % <P::Scalar as ECScalar>::order_spec(),
        z_val(p) == (s + (e1 * r) % <P::Scalar as ECScalar>::order_spec())
            % <P::Scalar as ECScalar>::order_spec(),
        c_log(p) == commitment_log::<P>(m0, r),
        (e1 * r * P::h_log() + recomputed_challenge(p) * m_val(p))
            % <P::Scalar as ECScalar>::order_spec() != (recomputed_challenge(p) * m0
            + recomputed_challenge(p) * (P::h_log() * r)) % <P::Scalar as ECScalar>::order_spec(),
    ensures
        !verify_equation(p),
{
    <P::Scalar as ECScalar>::lemma_order_bounds();
    let q = <P::Scalar as ECScalar>::order_spec();
    let h = P::h_log();
    let e2 = recomputed_challenge(p);
    let m2 = m_val(p);
    if verify_equation(p) {
        lemma_lhs_reduces(z_val(p), h, e1, r, s, e2, m2, q);
        lemma_rhs_reduces(c_log(p), a_log(p), h, e2, m0, r, s, q);
        let x = e1 * r * h + e2 * m2;
        let y = e2 * m0 + e2 * (h * r);
        let c0 = s * h;
        assert((c0 + x) % q == (y + c0) % q) by {
            lemma_mul_is_commutative(s as int, h as int);
        }
        assert(x % q == y % q) by {
            lemma_mod_equivalence((c0 + x) as int, (y + c0) as int, q as int);
            lemma_mod_equivalence(x as int, y as int, q as int);
        }
        assert(false);
    }
}

} // verus!
