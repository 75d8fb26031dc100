//! Scalars and points of the prime-order Ristretto group, held together with
//! their canonical 32-byte encodings.
//!
//! The mathematical model is the discrete logarithm with respect to the
//! Ristretto basepoint `B`: the group is cyclic of prime order
//! [`group_order()`](crate::group_order), so every point is `n * B` for exactly
//! one `n` in the canonical range, and its canonical encoding is a function of
//! `n` alone.  The spec function [`point_log`] names that logarithm and
//! [`base_repr`] names the canonical encoding of `n * B`; all contracts about
//! group arithmetic are phrased through them.

use vstd::prelude::*;

use crate::{gmod, group_order};

verus! {

/// The integer a byte string denotes in little-endian base 256.
pub open spec fn le_val(b: Seq<u8>) -> int
    decreases b.len(),
{
    if b.len() == 0 {
        0
    } else {
        b[0] + 256 * le_val(b.drop_first())
    }
}

/// The discrete logarithm, with respect to the Ristretto basepoint, of the
/// point that a canonical 32-byte encoding denotes.  Unconstrained on byte
/// strings that are not canonical encodings.
pub uninterp spec fn point_log(b: Seq<u8>) -> int;

/// The canonical 32-byte encoding of `n * B`, for `B` the Ristretto basepoint.
pub uninterp spec fn base_repr(n: int) -> Seq<u8>;

/// A scalar value is canonically encoded: reduced, in 32 bytes.  True of
/// every scalar the library builds.
pub open spec fn scalar_ok_bytes(b: Seq<u8>) -> bool {
    le_val(b) < group_order() && b.len() == 32
}

/// A byte string is a canonical point encoding: its discrete logarithm is in
/// the canonical range and re-encoding that logarithm gives the bytes back.
pub open spec fn pt_ok(b: Seq<u8>) -> bool {
    &&& 0 <= point_log(b) < group_order()
    &&& b == base_repr(point_log(b))
    &&& b.len() == 32
}

/// Canonical encodings are equal exactly when their logarithms are equal.
pub proof fn lemma_point_bytes_eq(a: Seq<u8>, b: Seq<u8>)
    requires
        pt_ok(a),
        pt_ok(b),
    ensures
        a == b <==> point_log(a) == point_log(b),
{
    if point_log(a) == point_log(b) {
        assert(a == base_repr(point_log(a)));
        assert(b == base_repr(point_log(b)));
    }
}

/// A scalar modulo the group order, together with its canonical little-endian
/// encoding.  The two fields always denote the same value; every constructor
/// goes through `curve25519_dalek`, which keeps scalars reduced.
#[derive(Clone, Copy)]
pub struct GroupScalar {
    pub(crate) bytes: [u8; 32],
    pub(crate) sc: curve25519_dalek::scalar::Scalar,
}

impl View for GroupScalar {
    type V = Seq<u8>;

    closed spec fn view(&self) -> Seq<u8> {
        self.bytes@
    }
}

impl GroupScalar {
    /// The integer value of this scalar, in `[0, group_order())`.
    pub closed spec fn val(self) -> int {
        le_val(self.bytes@)
    }

    #[verifier::type_invariant]
    pub closed spec fn canonical(self) -> bool {
        0 <= self.val() < group_order() && self.bytes@.len() == 32
    }

    /// What the type invariant grants: the value is reduced and the encoding
    /// is 32 bytes of it.
    pub proof fn lemma_canonical(s: GroupScalar)
        requires
            s.canonical(),
        ensures
            0 <= s.val() < group_order(),
            s@.len() == 32,
            s.val() == le_val(s@),
    {
    }

    /// The canonical 32-byte little-endian encoding.
    pub fn to_bytes(&self) -> (r: [u8; 32])
        ensures
            r@ == self@,
    {
        self.bytes
    }

    /// Comparison by canonical encoding, hence by value.
    pub fn equals(&self, other: &GroupScalar) -> (r: bool)
        ensures
            r <==> self.val() == other.val(),
            r <==> self@ == other@,
    {
        proof {
            use_type_invariant(*self);
            use_type_invariant(*other);
            if self.val() == other.val() {
                lemma_le_val_injective(self.bytes@, other.bytes@);
            }
        }
        bytes32_eq(&self.bytes, &other.bytes)
    }
}

/// A Ristretto point, together with its canonical compressed encoding.  The
/// two fields always denote the same group element; every constructor goes
/// through `curve25519_dalek`, whose compression is canonical.
#[derive(Clone, Copy)]
pub struct Point {
    pub(crate) bytes: [u8; 32],
    pub(crate) pt: curve25519_dalek::ristretto::RistrettoPoint,
}

impl View for Point {
    type V = Seq<u8>;

    closed spec fn view(&self) -> Seq<u8> {
        self.bytes@
    }
}

impl Point {
    /// The discrete logarithm of this point with respect to the basepoint.
    pub open spec fn log(self) -> int {
        point_log(self@)
    }

    #[verifier::type_invariant]
    pub closed spec fn canonical(self) -> bool {
        pt_ok(self.bytes@)
    }

    /// What the type invariant grants: the encoding is canonical.
    pub proof fn lemma_canonical(p: Point)
        requires
            p.canonical(),
        ensures
            pt_ok(p@),
            0 <= p.log() < group_order(),
    {
    }

    /// The canonical 32-byte compressed encoding.
    pub fn to_bytes(&self) -> (r: [u8; 32])
        ensures
            r@ == self@,
    {
        self.bytes
    }

    /// Constant-time comparison by canonical encoding, hence by group element.
    pub fn equals(&self, other: &Point) -> (r: bool)
        ensures
            r <==> self@ == other@,
            r <==> self.log() == other.log(),
    {
        proof {
            use_type_invariant(*self);
            use_type_invariant(*other);
            lemma_point_bytes_eq(self@, other@);
        }
        bytes32_eq(&self.bytes, &other.bytes)
    }
}

/// A little-endian value is never negative.
pub proof fn lemma_le_val_nonneg(b: Seq<u8>)
    ensures
        le_val(b) >= 0,
    decreases b.len(),
{
    if b.len() > 0 {
        lemma_le_val_nonneg(b.drop_first());
    }
}

/// Byte strings of equal length with the same little-endian value are equal.
pub proof fn lemma_le_val_injective(a: Seq<u8>, b: Seq<u8>)
    requires
        a.len() == b.len(),
        le_val(a) == le_val(b),
    ensures
        a == b,
    decreases a.len(),
{
    if a.len() == 0 {
        assert(a =~= b);
    } else {
        lemma_le_val_nonneg(a.drop_first());
        lemma_le_val_nonneg(b.drop_first());
        vstd::arithmetic::div_mod::lemma_fundamental_div_mod_converse(
            le_val(a),
            256,
            le_val(a.drop_first()),
            a[0] as int,
        );
        vstd::arithmetic::div_mod::lemma_fundamental_div_mod_converse(
            le_val(b),
            256,
            le_val(b.drop_first()),
            b[0] as int,
        );
        lemma_le_val_injective(a.drop_first(), b.drop_first());
        assert(a =~= b) by {
            assert(forall|i: int|
                1 <= i < a.len() ==> a[i] == a.drop_first()[i - 1] && b[i] == b.drop_first()[i
                    - 1]);
        }
    }
}

/// Equality of two 32-byte arrays.
pub fn bytes32_eq(a: &[u8; 32], b: &[u8; 32]) -> (r: bool)
    ensures
        r <==> a@ == b@,
{
    let mut i: usize = 0;
    while i < 32
        invariant
            0 <= i <= 32,
            forall|j: int| 0 <= j < i ==> a@[j] == b@[j],
        decreases 32 - i,
    {
        if a[i] != b[i] {
            assert(a@[i as int] != b@[i as int]);
            return false;
        }
        i = i + 1;
    }
    assert(a@ =~= b@);
    true
}

/// Relies on `curve25519_dalek::scalar::Scalar::from(u32)`: the scalar takes
/// exactly the given value, which is far below the group order.
#[verifier::external_body]
pub fn scalar_from_u32(v: u32) -> (r: GroupScalar)
    ensures
        r.val() == v as int,
{
    let sc = curve25519_dalek::scalar::Scalar::from(v);
    GroupScalar { bytes: sc.to_bytes(), sc }
}

/// Relies on `curve25519_dalek::scalar::Scalar::from(u64)`: the scalar takes
/// exactly the given value, which is far below the group order.
#[verifier::external_body]
pub fn scalar_from_u64(v: u64) -> (r: GroupScalar)
    ensures
        r.val() == v as int,
{
    let sc = curve25519_dalek::scalar::Scalar::from(v);
    GroupScalar { bytes: sc.to_bytes(), sc }
}

/// Relies on `curve25519_dalek::scalar::Scalar::from_bytes_mod_order`: the
/// little-endian value of the input, reduced modulo the group order.
#[verifier::external_body]
pub fn scalar_from_bytes_mod_order(b: &[u8; 32]) -> (r: GroupScalar)
    ensures
        r.val() == gmod(le_val(b@)),
{
    let sc = curve25519_dalek::scalar::Scalar::from_bytes_mod_order(*b);
    GroupScalar { bytes: sc.to_bytes(), sc }
}

/// Relies on `curve25519_dalek::scalar::Scalar::from_canonical_bytes`: accepts
/// exactly the little-endian encodings of values below the group order, and
/// then denotes that value.
#[verifier::external_body]
pub fn scalar_decode(b: &[u8; 32]) -> (r: Option<GroupScalar>)
    ensures
        r is Some <==> le_val(b@) < group_order(),
        r matches Some(s) ==> s@ == b@ && s.val() == le_val(b@),
{
    let ct = curve25519_dalek::scalar::Scalar::from_canonical_bytes(*b);
    if bool::from(ct.is_some()) {
        let sc = ct.unwrap();
        Some(GroupScalar { bytes: sc.to_bytes(), sc })
    } else {
        None
    }
}

/// Relies on `curve25519_dalek::scalar::Scalar::random`: a scalar sampled
/// below the group order.  Nothing is promised about its value.
#[verifier::external_body]
pub fn scalar_random(rng: &mut rand::rngs::StdRng) -> (r: GroupScalar)
    ensures
        0 <= r.val() < group_order(),
{
    let sc = curve25519_dalek::scalar::Scalar::random(rng);
    GroupScalar { bytes: sc.to_bytes(), sc }
}

/// Relies on `curve25519_dalek::scalar::Scalar::random` driven by a
/// transcript-derived generator.  Nothing is promised about its value.
#[verifier::external_body]
pub fn scalar_random_from_transcript_rng(rng: &mut merlin::TranscriptRng) -> (r: GroupScalar)
    ensures
        0 <= r.val() < group_order(),
{
    let sc = curve25519_dalek::scalar::Scalar::random(rng);
    GroupScalar { bytes: sc.to_bytes(), sc }
}

/// Relies on scalar addition in `curve25519_dalek`, which reduces modulo the
/// group order.
#[verifier::external_body]
pub fn scalar_add(a: &GroupScalar, b: &GroupScalar) -> (r: GroupScalar)
    ensures
        r.val() == gmod(a.val() + b.val()),
{
    let sc = a.sc + b.sc;
    GroupScalar { bytes: sc.to_bytes(), sc }
}

/// Relies on scalar subtraction in `curve25519_dalek`, which reduces modulo
/// the group order.
#[verifier::external_body]
pub fn scalar_sub(a: &GroupScalar, b: &GroupScalar) -> (r: GroupScalar)
    ensures
        r.val() == gmod(a.val() - b.val()),
{
    let sc = a.sc - b.sc;
    GroupScalar { bytes: sc.to_bytes(), sc }
}

/// Relies on scalar multiplication in `curve25519_dalek`, which reduces
/// modulo the group order.
#[verifier::external_body]
pub fn scalar_mul(a: &GroupScalar, b: &GroupScalar) -> (r: GroupScalar)
    ensures
        r.val() == gmod(a.val() * b.val()),
{
    let sc = a.sc * b.sc;
    GroupScalar { bytes: sc.to_bytes(), sc }
}

/// Relies on `curve25519_dalek` basepoint multiplication: the logarithm of
/// `s * B` is the value of `s`.
#[verifier::external_body]
pub fn point_base_mul(s: &GroupScalar) -> (r: Point)
    ensures
        point_log(r@) == s.val(),
{
    let pt = curve25519_dalek::constants::RISTRETTO_BASEPOINT_POINT * s.sc;
    Point { bytes: pt.compress().to_bytes(), pt }
}

/// Relies on `curve25519_dalek` point multiplication: logarithms multiply
/// modulo the group order.
#[verifier::external_body]
pub fn point_mul(s: &GroupScalar, p: &Point) -> (r: Point)
    ensures
        r.log() == gmod(s.val() * p.log()),
{
    let pt = p.pt * s.sc;
    Point { bytes: pt.compress().to_bytes(), pt }
}

/// Relies on `curve25519_dalek` point addition: logarithms add modulo the
/// group order.
#[verifier::external_body]
pub fn point_add(a: &Point, b: &Point) -> (r: Point)
    ensures
        r.log() == gmod(a.log() + b.log()),
{
    let pt = a.pt + b.pt;
    Point { bytes: pt.compress().to_bytes(), pt }
}

/// Relies on `curve25519_dalek` point subtraction: logarithms subtract modulo
/// the group order.
#[verifier::external_body]
pub fn point_sub(a: &Point, b: &Point) -> (r: Point)
    ensures
        r.log() == gmod(a.log() - b.log()),
{
    let pt = a.pt - b.pt;
    Point { bytes: pt.compress().to_bytes(), pt }
}

/// Relies on `curve25519_dalek::traits::Identity` for `RistrettoPoint`: the
/// identity element has logarithm zero, and its encoding is canonical.
#[verifier::external_body]
pub fn point_identity() -> (r: Point)
    ensures
        r.log() == 0,
        r@ == base_repr(0),
{
    let pt = <curve25519_dalek::ristretto::RistrettoPoint as curve25519_dalek::traits::Identity>::identity();
    Point { bytes: pt.compress().to_bytes(), pt }
}

/// Relies on `curve25519_dalek::ristretto::CompressedRistretto::decompress`:
/// it accepts exactly the canonical encodings, and decoding then re-encoding
/// is the identity.
#[verifier::external_body]
pub fn point_decode(b: &[u8; 32]) -> (r: Option<Point>)
    ensures
        r is Some <==> pt_ok(b@),
        r matches Some(p) ==> p@ == b@,
{
    match curve25519_dalek::ristretto::CompressedRistretto(*b).decompress() {
        Some(pt) => Some(Point { bytes: *b, pt }),
        None => None,
    }
}

/// The two Pedersen bases: the Ristretto basepoint for values and an
/// independent base for blindings.  Constructed only by [`pedersen_gens`]; the
/// inner `bulletproofs` generators always denote the same two points.
#[derive(Clone, Copy)]
pub struct PedGens {
    pub(crate) b_blinding: Point,
    pub(crate) inner: bulletproofs::PedersenGens,
}

impl PedGens {
    /// The logarithm of the blinding base; fixed but not known.
    pub closed spec fn blinding_log(self) -> int {
        self.b_blinding.log()
    }

    /// The blinding base as a point of the library.
    pub fn blinding_base(&self) -> (r: &Point)
        ensures
            r.log() == self.blinding_log(),
    {
        &self.b_blinding
    }
}

/// Relies on `bulletproofs::PedersenGens::default`: its value base is the
/// Ristretto basepoint and its blinding base is a fixed independent point.
#[verifier::external_body]
pub fn pedersen_gens() -> (r: PedGens)
    ensures
        0 <= r.blinding_log() < group_order(),
{
    let inner = bulletproofs::PedersenGens::default();
    let pt = inner.B_blinding;
    PedGens { b_blinding: Point { bytes: pt.compress().to_bytes(), pt }, inner }
}

} // verus!
