//! Additively homomorphic ElGamal encryption over the Ristretto group.
//!
//! A ciphertext is a pair of points `(x, y)` with `x = r * B_blinding` and
//! `y = v * B + r * pk`, for `B` the basepoint, `B_blinding` the independent
//! blinding base, `pk = sk * B_blinding` the public key and `r` the blinding
//! of the witness.  In the logarithm model the decryption of `(x, y)` under
//! `sk` is `gmod(log y - sk * log x)`; encrypting `v` makes that exactly `v`.
//!
//! This layout is fixed once and used everywhere: descriptions of such
//! schemes sometimes transpose the pair (putting `r * pk` in the first
//! component), which swaps the roles of the two bases in every verifier
//! equation.  Each proof module states its checks for the layout above, so
//! that decryption, the homomorphism and the proofs all speak of the same
//! pair.

use vstd::prelude::*;

use crate::group::{
    point_add, point_base_mul, point_identity, point_mul, point_sub, scalar_from_u32, GroupScalar,
    PedGens, Point,
};
use crate::math::{lemma_dec_of_enc, lemma_gmod_add_right, lemma_gmod_small};
use crate::{gmod, group_order};

verus! {

/// The value–blinding pair behind one encryption or commitment.
#[derive(Clone, Copy)]
pub struct CommitmentWitness {
    value: GroupScalar,
    blinding: GroupScalar,
}

impl CommitmentWitness {
    /// The committed value.
    pub closed spec fn value_val(self) -> int {
        self.value.val()
    }

    /// The blinding factor.
    pub closed spec fn blinding_val(self) -> int {
        self.blinding.val()
    }

    pub fn new(value: GroupScalar, blinding: GroupScalar) -> (w: Self)
        ensures
            w.value_val() == value.val(),
            w.blinding_val() == blinding.val(),
    {
        CommitmentWitness { value, blinding }
    }

    pub fn from_u32(value: u32, blinding: GroupScalar) -> (w: Self)
        ensures
            w.value_val() == value as int,
            w.blinding_val() == blinding.val(),
    {
        CommitmentWitness { value: scalar_from_u32(value), blinding }
    }

    pub fn value(&self) -> (r: &GroupScalar)
        ensures
            r.val() == self.value_val(),
    {
        &self.value
    }

    pub fn blinding(&self) -> (r: &GroupScalar)
        ensures
            r.val() == self.blinding_val(),
    {
        &self.blinding
    }
}

/// An ElGamal ciphertext; the pair is an additive homomorphism over
/// plaintexts.
#[derive(Clone, Copy)]
pub struct CipherText {
    pub x: Point,
    pub y: Point,
}

/// The decryption of a ciphertext with component logarithms `xlog` and
/// `ylog` under the secret key `sk`.
pub open spec fn dec_val(sk: int, xlog: int, ylog: int) -> int {
    gmod(ylog - sk * xlog)
}

/// The decryption of a ciphertext under the secret key `sk`.
pub open spec fn ct_dec(sk: int, ct: CipherText) -> int {
    dec_val(sk, ct.x.log(), ct.y.log())
}

/// A ciphertext encrypts `v` under the key with logarithm `pk_log`, with
/// blinding `r`; `beta` is the blinding base's logarithm.
pub open spec fn is_enc(beta: int, pk_log: int, v: int, r: int, ct: CipherText) -> bool {
    &&& ct.x.log() == gmod(r * beta)
    &&& ct.y.log() == gmod(v + r * pk_log)
}

impl CipherText {
    /// The identity of the homomorphism: both components are the identity
    /// element, so it encrypts zero with zero blinding under every key.
    pub fn identity() -> (r: Self)
        ensures
            r.x.log() == 0,
            r.y.log() == 0,
            forall|sk: int| ct_dec(sk, r) == 0,
    {
        let ct = CipherText { x: point_identity(), y: point_identity() };
        proof {
            assert forall|sk: int| ct_dec(sk, ct) == 0 by {
                assert(0int - sk * 0 == 0) by (nonlinear_arith);
                lemma_gmod_small(0);
            }
        }
        ct
    }

    /// Componentwise addition: adds the plaintexts and the blindings.
    pub fn hom_add(&self, other: &CipherText) -> (r: CipherText)
        ensures
            r.x.log() == gmod(self.x.log() + other.x.log()),
            r.y.log() == gmod(self.y.log() + other.y.log()),
    {
        CipherText { x: point_add(&self.x, &other.x), y: point_add(&self.y, &other.y) }
    }

    /// Componentwise subtraction: subtracts the plaintexts and the blindings.
    pub fn hom_sub(&self, other: &CipherText) -> (r: CipherText)
        ensures
            r.x.log() == gmod(self.x.log() - other.x.log()),
            r.y.log() == gmod(self.y.log() - other.y.log()),
    {
        CipherText { x: point_sub(&self.x, &other.x), y: point_sub(&self.y, &other.y) }
    }

    /// The two ciphertexts are equal as encodings (hence as point pairs).
    pub fn equals(&self, other: &CipherText) -> (r: bool)
        ensures
            r <==> self.x@ == other.x@ && self.y@ == other.y@,
    {
        self.x.equals(&other.x) && self.y.equals(&other.y)
    }
}

/// The public half of an ElGamal key pair: `pub_key = secret * B_blinding`.
#[derive(Clone, Copy)]
pub struct ElgamalPublicKey {
    pub pub_key: Point,
}

impl ElgamalPublicKey {
    /// Encrypt under this key: `x = r * B_blinding`, `y = v * B + r * pk`.
    pub fn encrypt(&self, witness: &CommitmentWitness, gens: &PedGens) -> (ct: CipherText)
        ensures
            is_enc(
                gens.blinding_log(),
                self.pub_key.log(),
                witness.value_val(),
                witness.blinding_val(),
                ct,
            ),
    {
        let value_scalar = witness.value;
        let x = point_mul(&witness.blinding, gens.blinding_base());
        let v_base = point_base_mul(&value_scalar);
        let r_pk = point_mul(&witness.blinding, &self.pub_key);
        let y = point_add(&v_base, &r_pk);
        proof {
            use_type_invariant(value_scalar);
            GroupScalar::lemma_canonical(value_scalar);
            lemma_gmod_small(witness.value_val());
            lemma_gmod_add_right(
                witness.value_val(),
                witness.blinding_val() * self.pub_key.log(),
            );
        }
        CipherText { x, y }
    }
}

/// The secret half of an ElGamal key pair.
#[derive(Clone, Copy)]
pub struct ElgamalSecretKey {
    secret: GroupScalar,
}

impl ElgamalSecretKey {
    /// The secret exponent.
    pub closed spec fn secret_val(self) -> int {
        self.secret.val()
    }

    pub fn new(secret: GroupScalar) -> (r: Self)
        ensures
            r.secret_val() == secret.val(),
    {
        ElgamalSecretKey { secret }
    }

    /// The matching public key: `secret * B_blinding`.
    pub fn get_public_key(&self, gens: &PedGens) -> (pk: ElgamalPublicKey)
        ensures
            pk.pub_key.log() == gmod(self.secret_val() * gens.blinding_log()),
    {
        ElgamalPublicKey { pub_key: point_mul(&self.secret, gens.blinding_base()) }
    }

    pub fn secret(&self) -> (r: &GroupScalar)
        ensures
            r.val() == self.secret_val(),
    {
        &self.secret
    }
}

/// A Pedersen commitment `v * B + b * B_blinding` to the witness's value.
pub fn pedersen_commit(witness: &CommitmentWitness, gens: &PedGens) -> (r: Point)
    ensures
        r.log() == gmod(witness.value_val() + witness.blinding_val() * gens.blinding_log()),
{
    let value_scalar = witness.value;
    let v_base = point_base_mul(&value_scalar);
    let b_bb = point_mul(&witness.blinding, gens.blinding_base());
    let r = point_add(&v_base, &b_bb);
    proof {
        use_type_invariant(value_scalar);
        GroupScalar::lemma_canonical(value_scalar);
        lemma_gmod_small(witness.value_val());
        lemma_gmod_add_right(witness.value_val(), witness.blinding_val() * gens.blinding_log());
    }
    r
}

/// Encrypting a value and then decrypting it with the matching secret key
/// gives the value back: for any key pair over the blinding base, any value
/// below the group order and any blinding, the decryption of the encryption
/// of `v` is `v`.
pub proof fn lemma_encrypt_then_decrypt(
    beta: int,
    sk: int,
    pk_log: int,
    v: int,
    r: int,
    ct: CipherText,
)
    requires
        pk_log == gmod(sk * beta),
        is_enc(beta, pk_log, v, r, ct),
        0 <= v < group_order(),
    ensures
        ct_dec(sk, ct) == v,
{
    lemma_dec_of_enc(beta, sk, v, r);
    lemma_gmod_small(v);
}

/// Decrypting a homomorphic sum gives the sum of the decryptions, reduced;
/// when the sum of two in-range plaintexts stays below the group order it is
/// recovered exactly.
pub proof fn lemma_decrypt_hom_add(sk: int, a: CipherText, b: CipherText, s: CipherText)
    requires
        s.x.log() == gmod(a.x.log() + b.x.log()),
        s.y.log() == gmod(a.y.log() + b.y.log()),
    ensures
        ct_dec(sk, s) == gmod(ct_dec(sk, a) + ct_dec(sk, b)),
{
    crate::math::lemma_dec_hom_add(sk, a.x.log(), a.y.log(), b.x.log(), b.y.log());
    crate::math::lemma_gmod_add(a.y.log() - sk * a.x.log(), b.y.log() - sk * b.x.log());
}

/// The homomorphism in full: the componentwise sum of an encryption of `v1`
/// and an encryption of `v2` under the same key decrypts to `v1 + v2`, for
/// any blindings, whenever the sum stays below the group order.
pub proof fn lemma_homomorphic_sum_decrypts(
    beta: int,
    sk: int,
    pk_log: int,
    v1: int,
    r1: int,
    ct1: CipherText,
    v2: int,
    r2: int,
    ct2: CipherText,
    s: CipherText,
)
    requires
        pk_log == gmod(sk * beta),
        is_enc(beta, pk_log, v1, r1, ct1),
        is_enc(beta, pk_log, v2, r2, ct2),
        s.x.log() == gmod(ct1.x.log() + ct2.x.log()),
        s.y.log() == gmod(ct1.y.log() + ct2.y.log()),
        0 <= v1,
        0 <= v2,
        v1 + v2 < group_order(),
    ensures
        ct_dec(sk, s) == v1 + v2,
{
    lemma_encrypt_then_decrypt(beta, sk, pk_log, v1, r1, ct1);
    lemma_encrypt_then_decrypt(beta, sk, pk_log, v2, r2, ct2);
    lemma_decrypt_hom_add(sk, ct1, ct2, s);
    lemma_gmod_small(v1 + v2);
}

/// Decrypting a homomorphic difference gives the difference of the
/// decryptions, reduced.
pub proof fn lemma_decrypt_hom_sub(sk: int, a: CipherText, b: CipherText, d: CipherText)
    requires
        d.x.log() == gmod(a.x.log() - b.x.log()),
        d.y.log() == gmod(a.y.log() - b.y.log()),
    ensures
        ct_dec(sk, d) == gmod(ct_dec(sk, a) - ct_dec(sk, b)),
{
    crate::math::lemma_dec_hom_sub(sk, a.x.log(), a.y.log(), b.x.log(), b.y.log());
    crate::math::lemma_gmod_sub(a.y.log() - sk * a.x.log(), b.y.log() - sk * b.x.log());
}

} // verus!
