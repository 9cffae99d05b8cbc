//! A small, fully transparent backend for the curve abstraction.
//!
//! The group is the additive group of integers modulo the prime
//! [`DEMO_ORDER`], presented through the [`ECPoint`] interface with synthetic
//! affine coordinates.  It offers no cryptographic hardness — its discrete
//! logarithms are plain values — but it satisfies every algebraic contract of
//! the abstraction, so the generic protocol layer can be exercised and tested
//! against it end to end.  Production deployments implement the same traits
//! over a real curve backend.

use vstd::arithmetic::div_mod::{lemma_mul_mod_noop_left, lemma_mul_mod_noop_right, lemma_small_mod};
use vstd::arithmetic::mul::lemma_mul_is_associative;
use vstd::prelude::*;

use crate::traits::{Curve, DeserializationError, ECPoint, ECScalar, NotOnCurve, PointCoords};

verus! {

/// Order of the demo group, a small prime.
pub const DEMO_ORDER: u64 = 101;

/// Discrete logarithm of the demo group's second generator.  A real backend
/// derives its second generator by a publicly verifiable method (such as
/// hash-to-curve); in this transparent group every logarithm is public anyway,
/// so a fixed constant stands in.
pub const DEMO_H: u64 = 37;

/// Relies on rand::random: a uniformly distributed `u64` drawn from the
/// thread-local cryptographically secure generator.  Nothing is promised of
/// the value itself.
#[verifier::external_body]
fn random_u64() -> u64 {
    rand::random()
}

/// Relies on zeroize::Zeroize for `u64`: overwrites the value with zero
/// through a write the compiler will not optimise away.
#[verifier::external_body]
fn wipe_u64(x: &mut u64)
    ensures
        *final(x) == 0,
    opens_invariants none
    no_unwind
{
    zeroize::Zeroize::zeroize(x)
}

/// Bound on a product of two residues, for overflow reasoning.
proof fn lemma_small_product(a: nat, b: nat)
    requires
        a < 101,
        b < 101,
    ensures
        a * b <= 100 * 100,
{
    vstd::arithmetic::mul::lemma_mul_upper_bound(a as int, 100, b as int, 100);
}

/// Witness that `w` inverts `a` in the demo field.
pub open spec fn demo_is_inv(w: nat, a: nat) -> bool {
    w < 101 && (w * a) % 101 == 1
}

/// Existence of a multiplicative inverse for every nonzero residue of the
/// demo field, witnessed residue by residue.
proof fn lemma_demo_inverse_exists(a: nat)
    requires
        1 <= a < 101,
    ensures
        exists|w: nat| demo_is_inv(w, a),
{
    if a == 1 {
        assert(demo_is_inv(1, 1));
    } else if a == 2 {
        assert(demo_is_inv(51, 2));
    } else if a == 3 {
        assert(demo_is_inv(34, 3));
    } else if a == 4 {
        assert(demo_is_inv(76, 4));
    } else if a == 5 {
        assert(demo_is_inv(81, 5));
    } else if a == 6 {
        assert(demo_is_inv(17, 6));
    } else if a == 7 {
        assert(demo_is_inv(29, 7));
    } else if a == 8 {
        assert(demo_is_inv(38, 8));
    } else if a == 9 {
        assert(demo_is_inv(45, 9));
    } else if a == 10 {
        assert(demo_is_inv(91, 10));
    } else if a == 11 {
        assert(demo_is_inv(46, 11));
    } else if a == 12 {
        assert(demo_is_inv(59, 12));
    } else if a == 13 {
        assert(demo_is_inv(70, 13));
    } else if a == 14 {
        assert(demo_is_inv(65, 14));
    } else if a == 15 {
        assert(demo_is_inv(27, 15));
    } else if a == 16 {
        assert(demo_is_inv(19, 16));
    } else if a == 17 {
        assert(demo_is_inv(6, 17));
    } else if a == 18 {
        assert(demo_is_inv(73, 18));
    } else if a == 19 {
        assert(demo_is_inv(16, 19));
    } else if a == 20 {
        assert(demo_is_inv(96, 20));
    } else if a == 21 {
        assert(demo_is_inv(77, 21));
    } else if a == 22 {
        assert(demo_is_inv(23, 22));
    } else if a == 23 {
        assert(demo_is_inv(22, 23));
    } else if a == 24 {
        assert(demo_is_inv(80, 24));
    } else if a == 25 {
        assert(demo_is_inv(97, 25));
    } else if a == 26 {
        assert(demo_is_inv(35, 26));
    } else if a == 27 {
        assert(demo_is_inv(15, 27));
    } else if a == 28 {
        assert(demo_is_inv(83, 28));
    } else if a == 29 {
        assert(demo_is_inv(7, 29));
    } else if a == 30 {
        assert(demo_is_inv(64, 30));
    } else if a == 31 {
        assert(demo_is_inv(88, 31));
    } else if a == 32 {
        assert(demo_is_inv(60, 32));
    } else if a == 33 {
        assert(demo_is_inv(49, 33));
    } else if a == 34 {
        assert(demo_is_inv(3, 34));
    } else if a == 35 {
        assert(demo_is_inv(26, 35));
    } else if a == 36 {
        assert(demo_is_inv(87, 36));
    } else if a == 37 {
        assert(demo_is_inv(71, 37));
    } else if a == 38 {
        assert(demo_is_inv(8, 38));
    } else if a == 39 {
        assert(demo_is_inv(57, 39));
    } else if a == 40 {
        assert(demo_is_inv(48, 40));
    } else if a == 41 {
        assert(demo_is_inv(69, 41));
    } else if a == 42 {
        assert(demo_is_inv(89, 42));
    } else if a == 43 {
        assert(demo_is_inv(47, 43));
    } else if a == 44 {
        assert(demo_is_inv(62, 44));
    } else if a == 45 {
        assert(demo_is_inv(9, 45));
    } else if a == 46 {
        assert(demo_is_inv(11, 46));
    } else if a == 47 {
        assert(demo_is_inv(43, 47));
    } else if a == 48 {
        assert(demo_is_inv(40, 48));
    } else if a == 49 {
        assert(demo_is_inv(33, 49));
    } else if a == 50 {
        assert(demo_is_inv(99, 50));
    } else if a == 51 {
        assert(demo_is_inv(2, 51));
    } else if a == 52 {
        assert(demo_is_inv(68, 52));
    } else if a == 53 {
        assert(demo_is_inv(61, 53));
    } else if a == 54 {
        assert(demo_is_inv(58, 54));
    } else if a == 55 {
        assert(demo_is_inv(90, 55));
    } else if a == 56 {
        assert(demo_is_inv(92, 56));
    } else if a == 57 {
        assert(demo_is_inv(39, 57));
    } else if a == 58 {
        assert(demo_is_inv(54, 58));
    } else if a == 59 {
        assert(demo_is_inv(12, 59));
    } else if a == 60 {
        assert(demo_is_inv(32, 60));
    } else if a == 61 {
        assert(demo_is_inv(53, 61));
    } else if a == 62 {
        assert(demo_is_inv(44, 62));
    } else if a == 63 {
        assert(demo_is_inv(93, 63));
    } else if a == 64 {
        assert(demo_is_inv(30, 64));
    } else if a == 65 {
        assert(demo_is_inv(14, 65));
    } else if a == 66 {
        assert(demo_is_inv(75, 66));
    } else if a == 67 {
        assert(demo_is_inv(98, 67));
    } else if a == 68 {
        assert(demo_is_inv(52, 68));
    } else if a == 69 {
        assert(demo_is_inv(41, 69));
    } else if a == 70 {
        assert(demo_is_inv(13, 70));
    } else if a == 71 {
        assert(demo_is_inv(37, 71));
    } else if a == 72 {
        assert(demo_is_inv(94, 72));
    } else if a == 73 {
        assert(demo_is_inv(18, 73));
    } else if a == 74 {
        assert(demo_is_inv(86, 74));
    } else if a == 75 {
        assert(demo_is_inv(66, 75));
    } else if a == 76 {
        assert(demo_is_inv(4, 76));
    } else if a == 77 {
        assert(demo_is_inv(21, 77));
    } else if a == 78 {
        assert(demo_is_inv(79, 78));
    } else if a == 79 {
        assert(demo_is_inv(78, 79));
    } else if a == 80 {
        assert(demo_is_inv(24, 80));
    } else if a == 81 {
        assert(demo_is_inv(5, 81));
    } else if a == 82 {
        assert(demo_is_inv(85, 82));
    } else if a == 83 {
        assert(demo_is_inv(28, 83));
    } else if a == 84 {
        assert(demo_is_inv(95, 84));
    } else if a == 85 {
        assert(demo_is_inv(82, 85));
    } else if a == 86 {
        assert(demo_is_inv(74, 86));
    } else if a == 87 {
        assert(demo_is_inv(36, 87));
    } else if a == 88 {
        assert(demo_is_inv(31, 88));
    } else if a == 89 {
        assert(demo_is_inv(42, 89));
    } else if a == 90 {
        assert(demo_is_inv(55, 90));
    } else if a == 91 {
        assert(demo_is_inv(10, 91));
    } else if a == 92 {
        assert(demo_is_inv(56, 92));
    } else if a == 93 {
        assert(demo_is_inv(63, 93));
    } else if a == 94 {
        assert(demo_is_inv(72, 94));
    } else if a == 95 {
        assert(demo_is_inv(84, 95));
    } else if a == 96 {
        assert(demo_is_inv(20, 96));
    } else if a == 97 {
        assert(demo_is_inv(25, 97));
    } else if a == 98 {
        assert(demo_is_inv(67, 98));
    } else if a == 99 {
        assert(demo_is_inv(50, 99));
    } else if a == 100 {
        assert(demo_is_inv(100, 100));
    }
}

/// Scalar of the demo field: an integer reduced modulo [`DEMO_ORDER`].
#[derive(Clone, PartialEq, Eq, Structural, Debug)]
pub struct DemoScalar {
    v: u64,
}

impl ECScalar for DemoScalar {
    closed spec fn s_val(&self) -> nat {
        self.v as nat
    }

    open spec fn order_spec() -> nat {
        DEMO_ORDER as nat
    }

    proof fn lemma_order_bounds() {
    }

    proof fn lemma_no_zero_divisors(a: nat, b: nat) {
        lemma_demo_inverse_exists(a);
        let w = choose|w: nat| demo_is_inv(w, a);
        assert((w * a) % 101 == 1);
        if (a * b) % 101 == 0 {
            assert((w * (a * b)) % 101 == 0) by {
                lemma_mul_mod_noop_right(w as int, (a * b) as int, 101);
            }
            assert(((w * a) * b) % 101 == b % 101) by {
                lemma_mul_mod_noop_left((w * a) as int, b as int, 101);
                lemma_small_mod(b, 101);
            }
            assert(false) by {
                lemma_mul_is_associative(w as int, a as int, b as int);
            }
        }
    }

    fn random() -> (r: Self) {
        let x = random_u64();
        DemoScalar { v: x % DEMO_ORDER }
    }

    fn zero() -> (r: Self) {
        DemoScalar { v: 0 }
    }

    fn is_zero(&self) -> (r: bool) {
        self.v == 0
    }

    fn from_bigint(n: u128) -> (r: Self) {
        DemoScalar { v: (n % (DEMO_ORDER as u128)) as u64 }
    }

    fn to_bigint(&self) -> (r: u128) {
        self.v as u128
    }

    fn add(&self, other: &Self) -> (r: Self) {
        DemoScalar { v: (self.v + other.v) % DEMO_ORDER }
    }

    fn mul(&self, other: &Self) -> (r: Self) {
        proof {
            lemma_small_product(self.v as nat, other.v as nat);
        }
        DemoScalar { v: (self.v * other.v) % DEMO_ORDER }
    }

    fn sub(&self, other: &Self) -> (r: Self) {
        DemoScalar { v: (self.v + DEMO_ORDER - other.v) % DEMO_ORDER }
    }

    fn neg(&self) -> (r: Self) {
        DemoScalar { v: (DEMO_ORDER - self.v) % DEMO_ORDER }
    }

    fn invert(&self) -> (r: Option<Self>) {
        if self.v == 0 {
            return None;
        }
        let ghost a = self.v as nat;
        proof {
            lemma_demo_inverse_exists(a);
        }
        let ghost w = choose|w: nat| demo_is_inv(w, a);
        proof {
            assert(demo_is_inv(w, a));
            assert((0 as nat) * a == 0);
            assert(w >= 1);
        }
        let mut r: u64 = 1;
        loop
            invariant
                1 <= r <= w,
                w < 101,
                (w * a) % 101 == 1,
                self.v == a,
                0 < a < 101,
            decreases w - r,
        {
            proof {
                lemma_small_product(r as nat, self.v as nat);
            }
            if (r * self.v) % DEMO_ORDER == 1 {
                return Some(DemoScalar { v: r });
            }
            r = r + 1;
        }
    }

    fn zeroize(&mut self) {
        wipe_u64(&mut self.v);
    }

    fn curve_order() -> (r: u128) {
        DEMO_ORDER as u128
    }
}

impl Drop for DemoScalar {
    /// Secret-bearing scalars are wiped from memory when discarded, on every
    /// exit path.
    fn drop(&mut self)
        opens_invariants none
        no_unwind
    {
        wipe_u64(&mut self.v);
    }
}

/// Point of the demo group, held as its discrete logarithm.
#[derive(Clone, Copy, PartialEq, Eq, Structural, Debug)]
pub struct DemoPoint {
    l: u64,
}

impl ECPoint for DemoPoint {
    type Scalar = DemoScalar;

    closed spec fn p_log(&self) -> nat {
        self.l as nat
    }

    open spec fn h_log() -> nat {
        DEMO_H as nat
    }

    open spec fn x_of(l: nat) -> u128 {
        l as u128
    }

    open spec fn y_of(l: nat) -> u128 {
        ((l * l + 7) % 101) as u128
    }

    open spec fn on_curve(x: u128, y: u128) -> bool {
        0 < x < 101 && y as nat == (x as nat * x as nat + 7) % 101
    }

    open spec fn ser_of(l: nat, compressed: bool) -> Seq<u8> {
        if compressed {
            seq![2u8, l as u8]
        } else {
            seq![4u8, l as u8, Self::y_of(l) as u8]
        }
    }

    open spec fn deser_of(bytes: Seq<u8>) -> Option<nat> {
        if bytes.len() == 2 && bytes[0] == 2u8 && 0 < bytes[1] < 101 {
            Some(bytes[1] as nat)
        } else if bytes.len() == 3 && bytes[0] == 4u8 && 0 < bytes[1] < 101 && bytes[2] == (((
        bytes[1] as nat) * (bytes[1] as nat) + 7) % 101) as u8 {
            Some(bytes[1] as nat)
        } else {
            None
        }
    }

    proof fn lemma_h_log() {
    }

    proof fn lemma_codec_round_trip(l: nat, compressed: bool) {
    }

    fn zero() -> (r: Self) {
        DemoPoint { l: 0 }
    }

    fn is_zero(&self) -> (r: bool) {
        self.l == 0
    }

    fn generator() -> (r: Self) {
        DemoPoint { l: 1 }
    }

    fn base_point2() -> (r: Self) {
        DemoPoint { l: DEMO_H }
    }

    fn from_coords(x: u128, y: u128) -> (r: Result<Self, NotOnCurve>) {
        if 0 < x && x < DEMO_ORDER as u128 {
            proof {
                lemma_small_product(x as nat, x as nat);
            }
            let yy = (x * x + 7) % (DEMO_ORDER as u128);
            if y == yy {
                return Ok(DemoPoint { l: x as u64 });
            }
        }
        Err(NotOnCurve)
    }

    fn x_coord(&self) -> (r: Option<u128>) {
        if self.l == 0 {
            None
        } else {
            Some(self.l as u128)
        }
    }

    fn y_coord(&self) -> (r: Option<u128>) {
        if self.l == 0 {
            None
        } else {
            proof {
                lemma_small_product(self.l as nat, self.l as nat);
            }
            Some(((self.l * self.l + 7) % DEMO_ORDER) as u128)
        }
    }

    fn coords(&self) -> (r: Option<PointCoords>) {
        if self.l == 0 {
            None
        } else {
            proof {
                lemma_small_product(self.l as nat, self.l as nat);
            }
            Some(
                PointCoords {
                    x: self.l as u128,
                    y: ((self.l * self.l + 7) % DEMO_ORDER) as u128,
                },
            )
        }
    }

    fn serialize(&self, compressed: bool) -> (r: Option<Vec<u8>>) {
        if self.l == 0 {
            return None;
        }
        let mut out: Vec<u8> = Vec::new();
        if compressed {
            out.push(2u8);
            out.push(self.l as u8);
            assert(out@ =~= Self::ser_of(self.p_log(), true));
        } else {
            out.push(4u8);
            out.push(self.l as u8);
            proof {
                lemma_small_product(self.l as nat, self.l as nat);
            }
            out.push(((self.l * self.l + 7) % DEMO_ORDER) as u8);
            assert(out@ =~= Self::ser_of(self.p_log(), false));
        }
        Some(out)
    }

    fn deserialize(bytes: &[u8]) -> (r: Result<Self, DeserializationError>) {
        if bytes.len() == 2 {
            let tag = bytes[0];
            let x = bytes[1];
            if tag == 2 && x > 0 && (x as u64) < DEMO_ORDER {
                return Ok(DemoPoint { l: x as u64 });
            }
        } else if bytes.len() == 3 {
            let tag = bytes[0];
            let x = bytes[1];
            let y = bytes[2];
            if tag == 4 && x > 0 && (x as u64) < DEMO_ORDER {
                proof {
                    lemma_small_product(x as nat, x as nat);
                }
                let yy = ((x as u64) * (x as u64) + 7) % DEMO_ORDER;
                if (y as u64) == yy {
                    return Ok(DemoPoint { l: x as u64 });
                }
            }
        }
        Err(DeserializationError)
    }

    fn scalar_mul(&self, scalar: &Self::Scalar) -> (r: Self) {
        proof {
            lemma_small_product(self.l as nat, scalar.v as nat);
        }
        DemoPoint { l: (self.l * scalar.v) % DEMO_ORDER }
    }

    fn add_point(&self, other: &Self) -> (r: Self) {
        DemoPoint { l: (self.l + other.l) % DEMO_ORDER }
    }

    fn sub_point(&self, other: &Self) -> (r: Self) {
        DemoPoint { l: (self.l + DEMO_ORDER - other.l) % DEMO_ORDER }
    }

    fn neg_point(&self) -> (r: Self) {
        DemoPoint { l: (DEMO_ORDER - self.l) % DEMO_ORDER }
    }

    fn eq_point(&self, other: &Self) -> (r: bool) {
        self.l == other.l
    }
}

/// The demo curve: the transparent group together with its scalar field.
pub struct DemoCurve;

impl Curve for DemoCurve {
    type Point = DemoPoint;

    type Scalar = DemoScalar;
}

} // verus!
