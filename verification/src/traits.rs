//! The curve abstraction: scalar-field and point-group algebra, stated over a
//! mathematical model so that protocols built on top can be verified once,
//! independently of any concrete backend.
//!
//! A scalar is modelled by its numeric value in `[0, order)`.  A point of the
//! prime-order group is modelled by its discrete logarithm with respect to the
//! generator, likewise in `[0, order)`; the identity has logarithm `0` and the
//! generator has logarithm `1`.  The second generator's logarithm is an
//! implementation-specific constant `h_log` — contracts never equate it with a
//! known multiple of the generator beyond this abstract name.

use vstd::prelude::*;

verus! {

/// Largest scalar-field order a backend may declare.  Keeping the order below
/// `2^120` leaves room for byte-by-byte modular reduction of hash digests in
/// 128-bit arithmetic.
pub const SCALAR_ORDER_MAX: u128 = 0x0100_0000_0000_0000_0000_0000_0000_0000;

/// Scalar value modulo the curve order.
///
/// Every operation is closed over the field: it returns a well-formed scalar
/// whose value is stated exactly, as arithmetic modulo [`ECScalar::order_spec`].
/// Secret-bearing scalars must be wiped from memory when discarded; backends
/// expose that through [`ECScalar::zeroize`] and their drop glue.
pub trait ECScalar: Sized {
    /// The numeric value this scalar represents.
    spec fn s_val(&self) -> nat;

    /// The order of the scalar field, a fixed prime per curve.
    spec fn order_spec() -> nat;

    /// The order is a nontrivial modulus and fits the machine-level bound.
    proof fn lemma_order_bounds()
        ensures
            1 < Self::order_spec() <= SCALAR_ORDER_MAX as nat,
    ;

    /// The field has no zero divisors: a product of two nonzero residues is
    /// nonzero.  This is where primality of the order enters the abstraction.
    proof fn lemma_no_zero_divisors(a: nat, b: nat)
        requires
            0 < a < Self::order_spec(),
            0 < b < Self::order_spec(),
        ensures
            (a * b) % Self::order_spec() != 0,
    ;

    /// Samples a scalar uniformly at random from a cryptographically secure
    /// source.
    fn random() -> (r: Self)
        ensures
            r.s_val() < Self::order_spec(),
    ;

    /// Constructs the zero scalar.
    fn zero() -> (r: Self)
        ensures
            r.s_val() == 0,
            r.s_val() < Self::order_spec(),
    ;

    /// Checks whether the scalar equals zero.
    fn is_zero(&self) -> (r: bool)
        requires
            self.s_val() < Self::order_spec(),
        ensures
            r <==> self.s_val() == 0,
    ;

    /// Constructs the scalar `n % curve_order`.
    fn from_bigint(n: u128) -> (r: Self)
        ensures
            r.s_val() == n as nat % Self::order_spec(),
            r.s_val() < Self::order_spec(),
    ;

    /// The canonical integer representative in `[0, curve_order)`.
    fn to_bigint(&self) -> (r: u128)
        requires
            self.s_val() < Self::order_spec(),
        ensures
            r as nat == self.s_val(),
    ;

    /// `(self + other) % curve_order`.
    fn add(&self, other: &Self) -> (r: Self)
        requires
            self.s_val() < Self::order_spec(),
            other.s_val() < Self::order_spec(),
        ensures
            r.s_val() == (self.s_val() + other.s_val()) % Self::order_spec(),
            r.s_val() < Self::order_spec(),
    ;

    /// `(self * other) % curve_order`.
    fn mul(&self, other: &Self) -> (r: Self)
        requires
            self.s_val() < Self::order_spec(),
            other.s_val() < Self::order_spec(),
        ensures
            r.s_val() == (self.s_val() * other.s_val()) % Self::order_spec(),
            r.s_val() < Self::order_spec(),
    ;

    /// `(self - other) % curve_order`.
    fn sub(&self, other: &Self) -> (r: Self)
        requires
            self.s_val() < Self::order_spec(),
            other.s_val() < Self::order_spec(),
        ensures
            r.s_val() == ((self.s_val() + Self::order_spec() - other.s_val()) as nat) % Self::order_spec(),
            r.s_val() < Self::order_spec(),
    ;

    /// `-self % curve_order`.
    fn neg(&self) -> (r: Self)
        requires
            self.s_val() < Self::order_spec(),
        ensures
            r.s_val() == ((Self::order_spec() - self.s_val()) as nat) % Self::order_spec(),
            r.s_val() < Self::order_spec(),
    ;

    /// `self^-1 (mod curve_order)`; `None` exactly when `self` is zero.
    fn invert(&self) -> (r: Option<Self>)
        requires
            self.s_val() < Self::order_spec(),
        ensures
            match r {
                Some(inv) => self.s_val() != 0 && inv.s_val() < Self::order_spec() && (inv.s_val()
                    * self.s_val()) % Self::order_spec() == 1,
                None => self.s_val() == 0,
            },
    ;

    /// Overwrites the scalar with zero, wiping any secret it carried.
    fn zeroize(&mut self)
        ensures
            final(self).s_val() == 0,
            final(self).s_val() < Self::order_spec(),
    ;

    /// The field's modulus, a fixed constant per curve.
    fn curve_order() -> (r: u128)
        ensures
            r as nat == Self::order_spec(),
    ;

    /// `(self + other) % curve_order`, assigned in place.
    fn add_assign(&mut self, other: &Self)
        requires
            old(self).s_val() < Self::order_spec(),
            other.s_val() < Self::order_spec(),
        ensures
            final(self).s_val() == (old(self).s_val() + other.s_val()) % Self::order_spec(),
            final(self).s_val() < Self::order_spec(),
    {
        let r = self.add(other);
        *self = r;
    }

    /// `(self * other) % curve_order`, assigned in place.
    fn mul_assign(&mut self, other: &Self)
        requires
            old(self).s_val() < Self::order_spec(),
            other.s_val() < Self::order_spec(),
        ensures
            final(self).s_val() == (old(self).s_val() * other.s_val()) % Self::order_spec(),
            final(self).s_val() < Self::order_spec(),
    {
        let r = self.mul(other);
        *self = r;
    }

    /// `(self - other) % curve_order`, assigned in place.
    fn sub_assign(&mut self, other: &Self)
        requires
            old(self).s_val() < Self::order_spec(),
            other.s_val() < Self::order_spec(),
        ensures
            final(self).s_val() == ((old(self).s_val() + Self::order_spec() - other.s_val()) as nat)
                % Self::order_spec(),
            final(self).s_val() < Self::order_spec(),
    {
        let r = self.sub(other);
        *self = r;
    }

    /// `-self % curve_order`, assigned in place.
    fn neg_assign(&mut self)
        requires
            old(self).s_val() < Self::order_spec(),
        ensures
            final(self).s_val() == ((Self::order_spec() - old(self).s_val()) as nat) % Self::order_spec(),
            final(self).s_val() < Self::order_spec(),
    {
        let r = self.neg();
        *self = r;
    }
}

/// Point on the elliptic curve's prime-order group.
///
/// All group operations are total and stated exactly over the discrete-log
/// model; equality of points coincides with equality of logarithms, so the
/// model is faithful to the representation.
pub trait ECPoint: Sized {
    /// Scalar field acting on the group.
    type Scalar: ECScalar;

    /// Discrete logarithm of this point with respect to the generator, in
    /// `[0, order)`; `0` for the identity.
    spec fn p_log(&self) -> nat;

    /// Discrete logarithm of the second generator [`ECPoint::base_point2`].
    /// Backends derive that point by a publicly verifiable method; its
    /// logarithm is never assumed known beyond this abstract name.
    spec fn h_log() -> nat;

    /// `x` coordinate of the non-identity point with logarithm `l`.
    spec fn x_of(l: nat) -> u128;

    /// `y` coordinate of the non-identity point with logarithm `l`.
    spec fn y_of(l: nat) -> u128;

    /// Whether `(x, y)` are the coordinates of some non-identity group
    /// element, i.e. satisfy the curve equation.
    spec fn on_curve(x: u128, y: u128) -> bool;

    /// Byte encoding of the non-identity point with logarithm `l`, in
    /// compressed or uncompressed form.
    spec fn ser_of(l: nat, compressed: bool) -> Seq<u8>;

    /// The logarithm of the point a byte string encodes, or `None` when the
    /// bytes are malformed or decode to nothing on the curve.
    spec fn deser_of(bytes: Seq<u8>) -> Option<nat>;

    /// The second generator is neither the identity nor outside the group.
    proof fn lemma_h_log()
        ensures
            0 < Self::h_log() < <Self::Scalar as ECScalar>::order_spec(),
    ;

    /// Every point's encoding decodes back to that point, in both modes.
    proof fn lemma_codec_round_trip(l: nat, compressed: bool)
        requires
            0 < l < <Self::Scalar as ECScalar>::order_spec(),
        ensures
            Self::deser_of(Self::ser_of(l, compressed)) == Some(l),
    ;

    /// The identity element (point at infinity).
    fn zero() -> (r: Self)
        ensures
            r.p_log() == 0,
            r.p_log() < <Self::Scalar as ECScalar>::order_spec(),
    ;

    /// Checks whether the point is the identity.
    fn is_zero(&self) -> (r: bool)
        requires
            self.p_log() < <Self::Scalar as ECScalar>::order_spec(),
        ensures
            r <==> self.p_log() == 0,
    ;

    /// The standard generator, a fixed constant.
    fn generator() -> (r: Self)
        ensures
            r.p_log() == 1,
            r.p_log() < <Self::Scalar as ECScalar>::order_spec(),
    ;

    /// The independently derived second generator, a fixed constant.
    fn base_point2() -> (r: Self)
        ensures
            r.p_log() == Self::h_log(),
            r.p_log() < <Self::Scalar as ECScalar>::order_spec(),
    ;

    /// Constructs a point from affine coordinates; fails exactly when the
    /// coordinates do not satisfy the curve equation.
    fn from_coords(x: u128, y: u128) -> (r: Result<Self, NotOnCurve>)
        ensures
            match r {
                Ok(p) => Self::on_curve(x, y) && p.p_log() < <Self::Scalar as ECScalar>::order_spec() && p.p_log() != 0 && Self::x_of(
                    p.p_log(),
                ) == x && Self::y_of(p.p_log()) == y,
                Err(_) => !Self::on_curve(x, y),
            },
    ;

    /// The `x` coordinate, or `None` for the identity.
    fn x_coord(&self) -> (r: Option<u128>)
        requires
            self.p_log() < <Self::Scalar as ECScalar>::order_spec(),
        ensures
            match r {
                Some(x) => self.p_log() != 0 && x == Self::x_of(self.p_log()),
                None => self.p_log() == 0,
            },
    ;

    /// The `y` coordinate, or `None` for the identity.
    fn y_coord(&self) -> (r: Option<u128>)
        requires
            self.p_log() < <Self::Scalar as ECScalar>::order_spec(),
        ensures
            match r {
                Some(y) => self.p_log() != 0 && y == Self::y_of(self.p_log()),
                None => self.p_log() == 0,
            },
    ;

    /// Both coordinates, or `None` for the identity.
    fn coords(&self) -> (r: Option<PointCoords>)
        requires
            self.p_log() < <Self::Scalar as ECScalar>::order_spec(),
        ensures
            match r {
                Some(c) => self.p_log() != 0 && c.x == Self::x_of(self.p_log()) && c.y
                    == Self::y_of(self.p_log()),
                None => self.p_log() == 0,
            },
    ;

    /// Byte encoding of the point; `None` exactly for the identity, which has
    /// no coordinate encoding.
    fn serialize(&self, compressed: bool) -> (r: Option<Vec<u8>>)
        requires
            self.p_log() < <Self::Scalar as ECScalar>::order_spec(),
        ensures
            match r {
                Some(b) => self.p_log() != 0 && b@ == Self::ser_of(self.p_log(), compressed),
                None => self.p_log() == 0,
            },
    ;

    /// Decodes a point; the form (compressed or not) is inferred from the
    /// byte length.  Fails exactly on bytes that encode no valid point.
    fn deserialize(bytes: &[u8]) -> (r: Result<Self, DeserializationError>)
        ensures
            match r {
                Ok(p) => p.p_log() < <Self::Scalar as ECScalar>::order_spec() && p.p_log() != 0 && Self::deser_of(bytes@) == Some(
                    p.p_log(),
                ),
                Err(_) => Self::deser_of(bytes@) is None,
            },
    ;

    /// Multiplies the point by a scalar.
    fn scalar_mul(&self, scalar: &Self::Scalar) -> (r: Self)
        requires
            self.p_log() < <Self::Scalar as ECScalar>::order_spec(),
            scalar.s_val() < <Self::Scalar as ECScalar>::order_spec(),
        ensures
            r.p_log() == (self.p_log() * scalar.s_val()) % <Self::Scalar as ECScalar>::order_spec(),
            r.p_log() < <Self::Scalar as ECScalar>::order_spec(),
    ;

    /// Adds two points.
    fn add_point(&self, other: &Self) -> (r: Self)
        requires
            self.p_log() < <Self::Scalar as ECScalar>::order_spec(),
            other.p_log() < <Self::Scalar as ECScalar>::order_spec(),
        ensures
            r.p_log() == (self.p_log() + other.p_log()) % <Self::Scalar as ECScalar>::order_spec(),
            r.p_log() < <Self::Scalar as ECScalar>::order_spec(),
    ;

    /// Subtracts `other` from `self`.
    fn sub_point(&self, other: &Self) -> (r: Self)
        requires
            self.p_log() < <Self::Scalar as ECScalar>::order_spec(),
            other.p_log() < <Self::Scalar as ECScalar>::order_spec(),
        ensures
            r.p_log() == ((self.p_log() + <Self::Scalar as ECScalar>::order_spec() - other.p_log()) as nat)
                % <Self::Scalar as ECScalar>::order_spec(),
            r.p_log() < <Self::Scalar as ECScalar>::order_spec(),
    ;

    /// Negates the point.
    fn neg_point(&self) -> (r: Self)
        requires
            self.p_log() < <Self::Scalar as ECScalar>::order_spec(),
        ensures
            r.p_log() == ((<Self::Scalar as ECScalar>::order_spec() - self.p_log()) as nat)
                % <Self::Scalar as ECScalar>::order_spec(),
            r.p_log() < <Self::Scalar as ECScalar>::order_spec(),
    ;

    /// Group-element equality; the representation is faithful, so equal
    /// logarithms mean equal points.
    fn eq_point(&self, other: &Self) -> (r: bool)
        requires
            self.p_log() < <Self::Scalar as ECScalar>::order_spec(),
            other.p_log() < <Self::Scalar as ECScalar>::order_spec(),
        ensures
            r <==> self.p_log() == other.p_log(),
    ;

    /// Scalar multiplication, assigned in place.
    fn scalar_mul_assign(&mut self, scalar: &Self::Scalar)
        requires
            old(self).p_log() < <Self::Scalar as ECScalar>::order_spec(),
            scalar.s_val() < <Self::Scalar as ECScalar>::order_spec(),
        ensures
            final(self).p_log() == (old(self).p_log() * scalar.s_val())
                % <Self::Scalar as ECScalar>::order_spec(),
            final(self).p_log() < <Self::Scalar as ECScalar>::order_spec(),
    {
        let r = self.scalar_mul(scalar);
        *self = r;
    }

    /// Point addition, assigned in place.
    fn add_point_assign(&mut self, other: &Self)
        requires
            old(self).p_log() < <Self::Scalar as ECScalar>::order_spec(),
            other.p_log() < <Self::Scalar as ECScalar>::order_spec(),
        ensures
            final(self).p_log() == (old(self).p_log() + other.p_log())
                % <Self::Scalar as ECScalar>::order_spec(),
            final(self).p_log() < <Self::Scalar as ECScalar>::order_spec(),
    {
        let r = self.add_point(other);
        *self = r;
    }

    /// Point subtraction, assigned in place.
    fn sub_point_assign(&mut self, other: &Self)
        requires
            old(self).p_log() < <Self::Scalar as ECScalar>::order_spec(),
            other.p_log() < <Self::Scalar as ECScalar>::order_spec(),
        ensures
            final(self).p_log() == ((old(self).p_log()
                + <Self::Scalar as ECScalar>::order_spec() - other.p_log()) as nat)
                % <Self::Scalar as ECScalar>::order_spec(),
            final(self).p_log() < <Self::Scalar as ECScalar>::order_spec(),
    {
        let r = self.sub_point(other);
        *self = r;
    }

    /// Point negation, assigned in place.
    fn neg_point_assign(&mut self)
        requires
            old(self).p_log() < <Self::Scalar as ECScalar>::order_spec(),
        ensures
            final(self).p_log() == ((<Self::Scalar as ECScalar>::order_spec() - old(self).p_log()) as nat)
                % <Self::Scalar as ECScalar>::order_spec(),
            final(self).p_log() < <Self::Scalar as ECScalar>::order_spec(),
    {
        let r = self.neg_point();
        *self = r;
    }
}

/// A concrete curve: a matched pair of point group and scalar field.
pub trait Curve {
    type Point: ECPoint<Scalar = Self::Scalar>;

    type Scalar: ECScalar;
}

/// Affine coordinates of a non-identity point.
#[derive(Clone, Copy, PartialEq, Eq, Structural, Debug)]
pub struct PointCoords {
    pub x: u128,
    pub y: u128,
}

/// Decoding bytes produced no valid curve point.
#[derive(Clone, Copy, Debug)]
pub struct DeserializationError;

impl DeserializationError {
    /// Human-readable description of the failure.
    pub fn message(&self) -> (s: String)
        ensures
            s@ == "failed to deserialize the point"@,
    {
        String::from_str("failed to deserialize the point")
    }
}

/// The given coordinates do not satisfy the curve equation.
#[derive(Clone, Copy, Debug)]
pub struct NotOnCurve;

impl NotOnCurve {
    /// Human-readable description of the failure.
    pub fn message(&self) -> (s: String)
        ensures
            s@ == "point not on the curve"@,
    {
        String::from_str("point not on the curve")
    }
}

} // verus!
