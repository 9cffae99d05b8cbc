//! Fiat–Shamir challenge derivation.
//!
//! The challenge scalar is the SHA-256 digest of the ordered transcript
//! tuple, reduced modulo the curve order.  The ordering of the tuple is part
//! of the protocol: transcripts are hashed as the concatenation of the
//! fixed-width renderings of `(G_x, H_x, com_x, A_x, m)`.

use sha2::Digest;
use vstd::prelude::*;

use crate::traits::SCALAR_ORDER_MAX;

verus! {

/// The SHA-256 digest of a byte string, named abstractly: the protocol only
/// relies on the digest being a function of the input.
pub uninterp spec fn sha256_of(input: Seq<u8>) -> Seq<u8>;

/// Relies on sha2::Sha256 (FIPS 180-4): the digest is a pure function of the
/// input bytes, 32 bytes long.
#[verifier::external_body]
fn sha256(input: &Vec<u8>) -> (r: Vec<u8>)
    ensures
        r@ == sha256_of(input@),
        r@.len() == 32,
{
    sha2::Sha256::digest(input.as_slice()).to_vec()
}

/// Little-endian rendering of `x` on `n` bytes.
pub open spec fn le_bytes(x: u128, n: nat) -> Seq<u8>
    decreases n,
{
    if n == 0 {
        Seq::empty()
    } else {
        seq![(x % 256) as u8] + le_bytes(x / 256, (n - 1) as nat)
    }
}

/// Appends the 16-byte little-endian rendering of `x` to `out`.
fn push_le_bytes(out: &mut Vec<u8>, x: u128)
    ensures
        final(out)@ == old(out)@ + le_bytes(x, 16),
{
    let mut v: u128 = x;
    let mut i: usize = 0;
    while i < 16
        invariant
            i <= 16,
            out@ + le_bytes(v, (16 - i) as nat) == old(out)@ + le_bytes(x, 16),
        decreases 16 - i,
    {
        let ghost pre = out@;
        let ghost vpre = v;
        out.push((v % 256) as u8);
        v = v / 256;
        i = i + 1;
        proof {
            assert(le_bytes(vpre, (16 - (i - 1)) as nat) == seq![(vpre % 256) as u8] + le_bytes(
                vpre / 256,
                (16 - i) as nat,
            ));
            assert(out@ + le_bytes(v, (16 - i) as nat) =~= pre + le_bytes(
                vpre,
                (16 - (i - 1)) as nat,
            ));
        }
    }
    proof {
        assert(out@ + le_bytes(v, 0) =~= out@);
    }
}

/// A byte string folded into a residue modulo `q`, first byte most
/// significant.
pub open spec fn digest_mod(bytes: Seq<u8>, q: nat) -> nat
    decreases bytes.len(),
{
    if bytes.len() == 0 {
        0
    } else {
        (digest_mod(bytes.drop_last(), q) * 256 + (bytes.last() as nat)) % q
    }
}

/// Reduces a byte string modulo `q`.
fn digest_to_residue(bytes: &Vec<u8>, q: u128) -> (r: u128)
    requires
        1 < q,
        q <= SCALAR_ORDER_MAX,
    ensures
        r as nat == digest_mod(bytes@, q as nat),
        r < q,
{
    let mut acc: u128 = 0;
    let mut i: usize = 0;
    while i < bytes.len()
        invariant
            i <= bytes@.len(),
            1 < q <= SCALAR_ORDER_MAX,
            acc as nat == digest_mod(bytes@.subrange(0, i as int), q as nat),
            acc < q,
        decreases bytes@.len() - i,
    {
        let b = bytes[i];
        proof {
            assert(bytes@.subrange(0, i + 1 as int).drop_last() =~= bytes@.subrange(0, i as int));
            assert(bytes@.subrange(0, i + 1 as int).last() == bytes@[i as int]);
        }
        acc = (acc * 256 + (b as u128)) % q;
        i = i + 1;
    }
    proof {
        assert(bytes@.subrange(0, bytes@.len() as int) =~= bytes@);
    }
    acc
}

/// The challenge scalar for the ordered transcript tuple
/// `(g_x, h_x, c_x, a_x, m)`, modulo `q`.
pub open spec fn challenge_spec(g_x: u128, h_x: u128, c_x: u128, a_x: u128, m: u128, q: nat) -> nat {
    digest_mod(
        sha256_of(
            le_bytes(g_x, 16) + le_bytes(h_x, 16) + le_bytes(c_x, 16) + le_bytes(a_x, 16)
                + le_bytes(m, 16),
        ),
        q,
    )
}

/// Derives the Fiat–Shamir challenge from the transcript tuple.  The result
/// is a function of the five inputs and the order alone, so derivation is
/// deterministic.
pub fn derive_challenge(g_x: u128, h_x: u128, c_x: u128, a_x: u128, m: u128, q: u128) -> (r: u128)
    requires
        1 < q,
        q <= SCALAR_ORDER_MAX,
    ensures
        r as nat == challenge_spec(g_x, h_x, c_x, a_x, m, q as nat),
        r < q,
{
    let mut buf: Vec<u8> = Vec::new();
    push_le_bytes(&mut buf, g_x);
    push_le_bytes(&mut buf, h_x);
    push_le_bytes(&mut buf, c_x);
    push_le_bytes(&mut buf, a_x);
    push_le_bytes(&mut buf, m);
    proof {
        assert(buf@ =~= le_bytes(g_x, 16) + le_bytes(h_x, 16) + le_bytes(c_x, 16) + le_bytes(
            a_x,
            16,
        ) + le_bytes(m, 16));
    }
    let d = sha256(&buf);
    digest_to_residue(&d, q)
}

/// Determinism of challenge derivation: identical transcript tuples yield
/// identical challenge scalars.
pub proof fn lemma_challenge_deterministic(
    g_x: u128,
    h_x: u128,
    c_x: u128,
    a_x: u128,
    m: u128,
    q: nat,
    g_x2: u128,
    h_x2: u128,
    c_x2: u128,
    a_x2: u128,
    m2: u128,
    q2: nat,
)
    requires
        g_x == g_x2,
        h_x == h_x2,
        c_x == c_x2,
        a_x == a_x2,
        m == m2,
        q == q2,
    ensures
        challenge_spec(g_x, h_x, c_x, a_x, m, q) == challenge_spec(g_x2, h_x2, c_x2, a_x2, m2, q2),
{
}

} // verus!
