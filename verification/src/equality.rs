//! The proof that two ElGamal ciphertexts under two different public keys
//! encrypt the same value: the sender encrypts one amount for the receiver
//! and one for the mediator, and these must agree.
//!
//! Witness `(v, r1, r2)` with `x1 = r1 * B_blinding`, `y1 = v * B + r1 * pk1`,
//! `x2 = r2 * B_blinding`, `y2 = v * B + r2 * pk2`.  The commitment scalar
//! for `v` is shared between the two `y` equations, which is what binds the
//! plaintexts together.

use vstd::prelude::*;

use crate::correctness::ZKPChallenge;
use crate::elgamal::{is_enc, CipherText, ElgamalPublicKey};
use crate::errors::MercatError;
use crate::group::{
    point_add, point_base_mul, point_mul, scalar_add, scalar_mul, scalar_random_from_transcript_rng,
    GroupScalar, PedGens, Point,
};
use crate::math::{
    lemma_gmod_add_right, lemma_gmod_idempotent, lemma_schnorr_check, lemma_schnorr_check_two,
};
use crate::transcript::{
    append_domain, append_validated_point, challenge_scalar, challenge_val, transcript_new,
    transcript_rng, ProofTranscript, TrEntry,
};
use crate::gmod;

verus! {

/// The domain label a ciphertext-equality proof's transcript starts from.
pub const CIPHER_EQUALITY_PROOF_LABEL: &'static str = "PolymathCipherEqualityFinalResponse";

/// The domain label under which the equality challenge is drawn.
pub const CIPHER_EQUALITY_PROOF_CHALLENGE_LABEL: &'static str = "PolymathCipherEqualityChallenge";

/// A complete non-interactive ciphertext-equality proof.
pub struct CipherEqualityProof {
    pub init_y1: Point,
    pub init_x1: Point,
    pub init_y2: Point,
    pub init_x2: Point,
    pub z0: GroupScalar,
    pub z1: GroupScalar,
    pub z2: GroupScalar,
}

/// Check for a `y` component: `z0 * B + zr * pk == I_y + c * y`.
pub open spec fn eq_check_y(pk_log: int, y_log: int, iy_log: int, c: int, z0: int, zr: int) -> bool {
    gmod(z0 + zr * pk_log) == gmod(iy_log + c * y_log)
}

/// Check for an `x` component: `zr * B_blinding == I_x + c * x`.
pub open spec fn eq_check_x(beta: int, x_log: int, ix_log: int, c: int, zr: int) -> bool {
    gmod(zr * beta) == gmod(ix_log + c * x_log)
}

/// The transcript history a ciphertext-equality proof is derived from and
/// checked against.
pub open spec fn equality_entries(
    pk1: Seq<u8>,
    x1: Seq<u8>,
    y1: Seq<u8>,
    pk2: Seq<u8>,
    x2: Seq<u8>,
    y2: Seq<u8>,
    iy1: Seq<u8>,
    ix1: Seq<u8>,
    iy2: Seq<u8>,
    ix2: Seq<u8>,
) -> Seq<TrEntry> {
    seq![
        TrEntry::Domain { name: CIPHER_EQUALITY_PROOF_LABEL@ },
        TrEntry::Msg { label: "pk1"@, data: pk1 },
        TrEntry::Msg { label: "x1"@, data: x1 },
        TrEntry::Msg { label: "y1"@, data: y1 },
        TrEntry::Msg { label: "pk2"@, data: pk2 },
        TrEntry::Msg { label: "x2"@, data: x2 },
        TrEntry::Msg { label: "y2"@, data: y2 },
        TrEntry::Domain { name: CIPHER_EQUALITY_PROOF_CHALLENGE_LABEL@ },
        TrEntry::Msg { label: "IY1"@, data: iy1 },
        TrEntry::Msg { label: "IX1"@, data: ix1 },
        TrEntry::Msg { label: "IY2"@, data: iy2 },
        TrEntry::Msg { label: "IX2"@, data: ix2 },
    ]
}

/// The proof convinces: every absorbed point is non-identity and all four
/// verifier checks hold for the transcript-derived challenge.
pub open spec fn equality_valid(
    beta: int,
    pk1: ElgamalPublicKey,
    ct1: CipherText,
    pk2: ElgamalPublicKey,
    ct2: CipherText,
    p: CipherEqualityProof,
) -> bool {
    let c = challenge_val(
        equality_entries(
            pk1.pub_key@,
            ct1.x@,
            ct1.y@,
            pk2.pub_key@,
            ct2.x@,
            ct2.y@,
            p.init_y1@,
            p.init_x1@,
            p.init_y2@,
            p.init_x2@,
        ),
        CIPHER_EQUALITY_PROOF_CHALLENGE_LABEL@,
    );
    &&& pk1.pub_key.log() != 0
    &&& ct1.x.log() != 0
    &&& ct1.y.log() != 0
    &&& pk2.pub_key.log() != 0
    &&& ct2.x.log() != 0
    &&& ct2.y.log() != 0
    &&& p.init_y1.log() != 0
    &&& p.init_x1.log() != 0
    &&& p.init_y2.log() != 0
    &&& p.init_x2.log() != 0
    &&& eq_check_y(pk1.pub_key.log(), ct1.y.log(), p.init_y1.log(), c, p.z0.val(), p.z1.val())
    &&& eq_check_x(beta, ct1.x.log(), p.init_x1.log(), c, p.z1.val())
    &&& eq_check_y(pk2.pub_key.log(), ct2.y.log(), p.init_y2.log(), c, p.z0.val(), p.z2.val())
    &&& eq_check_x(beta, ct2.x.log(), p.init_x2.log(), c, p.z2.val())
}

/// Absorb the statement and the initial message, refusing identity points.
fn equality_transcript(
    pk1: &ElgamalPublicKey,
    ct1: &CipherText,
    pk2: &ElgamalPublicKey,
    ct2: &CipherText,
    iy1: &Point,
    ix1: &Point,
    iy2: &Point,
    ix2: &Point,
) -> (r: Result<ProofTranscript, MercatError>)
    ensures
        r matches Ok(t) ==> t.entries() == equality_entries(
            pk1.pub_key@,
            ct1.x@,
            ct1.y@,
            pk2.pub_key@,
            ct2.x@,
            ct2.y@,
            iy1@,
            ix1@,
            iy2@,
            ix2@,
        ),
        r is Ok <==> pk1.pub_key.log() != 0 && ct1.x.log() != 0 && ct1.y.log() != 0
            && pk2.pub_key.log() != 0 && ct2.x.log() != 0 && ct2.y.log() != 0 && iy1.log() != 0
            && ix1.log() != 0 && iy2.log() != 0 && ix2.log() != 0,
        r matches Err(e) ==> e == MercatError::InvalidPoint,
{
    let mut t = transcript_new(CIPHER_EQUALITY_PROOF_LABEL);
    append_validated_point(&mut t, "pk1", &pk1.pub_key)?;
    append_validated_point(&mut t, "x1", &ct1.x)?;
    append_validated_point(&mut t, "y1", &ct1.y)?;
    append_validated_point(&mut t, "pk2", &pk2.pub_key)?;
    append_validated_point(&mut t, "x2", &ct2.x)?;
    append_validated_point(&mut t, "y2", &ct2.y)?;
    append_domain(&mut t, CIPHER_EQUALITY_PROOF_CHALLENGE_LABEL);
    append_validated_point(&mut t, "IY1", iy1)?;
    append_validated_point(&mut t, "IX1", ix1)?;
    append_validated_point(&mut t, "IY2", iy2)?;
    append_validated_point(&mut t, "IX2", ix2)?;
    proof {
        assert(t.entries() =~= equality_entries(
            pk1.pub_key@,
            ct1.x@,
            ct1.y@,
            pk2.pub_key@,
            ct2.x@,
            ct2.y@,
            iy1@,
            ix1@,
            iy2@,
            ix2@,
        ));
    }
    Ok(t)
}

/// Produce an equality proof for two ciphertexts of the same value this
/// prover encrypted, with blindings `r1` and `r2`.
pub(crate) fn prove_equality(
    value: u32,
    r1: &GroupScalar,
    r2: &GroupScalar,
    pk1: &ElgamalPublicKey,
    ct1: &CipherText,
    pk2: &ElgamalPublicKey,
    ct2: &CipherText,
    gens: &PedGens,
    rng: &mut rand::rngs::StdRng,
) -> (r: Result<CipherEqualityProof, MercatError>)
    requires
        is_enc(gens.blinding_log(), pk1.pub_key.log(), value as int, r1.val(), *ct1),
        is_enc(gens.blinding_log(), pk2.pub_key.log(), value as int, r2.val(), *ct2),
    ensures
        r matches Ok(p) ==> equality_valid(gens.blinding_log(), *pk1, *ct1, *pk2, *ct2, p),
        r matches Err(e) ==> e == MercatError::InvalidPoint,
{
    let ghost beta = gens.blinding_log();
    let mut t = transcript_new(CIPHER_EQUALITY_PROOF_LABEL);
    append_validated_point(&mut t, "pk1", &pk1.pub_key)?;
    append_validated_point(&mut t, "x1", &ct1.x)?;
    append_validated_point(&mut t, "y1", &ct1.y)?;
    append_validated_point(&mut t, "pk2", &pk2.pub_key)?;
    append_validated_point(&mut t, "x2", &ct2.x)?;
    append_validated_point(&mut t, "y2", &ct2.y)?;
    append_domain(&mut t, CIPHER_EQUALITY_PROOF_CHALLENGE_LABEL);
    let mut trng = transcript_rng(&t, rng, r1);
    let u0 = scalar_random_from_transcript_rng(&mut trng);
    let u1 = scalar_random_from_transcript_rng(&mut trng);
    let u2 = scalar_random_from_transcript_rng(&mut trng);
    let init_y1 = point_add(&point_base_mul(&u0), &point_mul(&u1, &pk1.pub_key));
    let init_x1 = point_mul(&u1, gens.blinding_base());
    let init_y2 = point_add(&point_base_mul(&u0), &point_mul(&u2, &pk2.pub_key));
    let init_x2 = point_mul(&u2, gens.blinding_base());
    append_validated_point(&mut t, "IY1", &init_y1)?;
    append_validated_point(&mut t, "IX1", &init_x1)?;
    append_validated_point(&mut t, "IY2", &init_y2)?;
    append_validated_point(&mut t, "IX2", &init_x2)?;
    proof {
        assert(t.entries() =~= equality_entries(
            pk1.pub_key@,
            ct1.x@,
            ct1.y@,
            pk2.pub_key@,
            ct2.x@,
            ct2.y@,
            init_y1@,
            init_x1@,
            init_y2@,
            init_x2@,
        ));
    }
    let c = ZKPChallenge::new(
        challenge_scalar(&mut t, CIPHER_EQUALITY_PROOF_CHALLENGE_LABEL),
    );
    let z0 = scalar_add(&u0, &scalar_mul(c.x(), &crate::group::scalar_from_u32(value)));
    let z1 = scalar_add(&u1, &scalar_mul(c.x(), r1));
    let z2 = scalar_add(&u2, &scalar_mul(c.x(), r2));
    proof {
        let cv = c.val();
        let v = value as int;
        lemma_gmod_add_right(u0.val(), cv * v);
        lemma_gmod_add_right(u1.val(), cv * r1.val());
        lemma_gmod_add_right(u2.val(), cv * r2.val());
        lemma_gmod_add_right(u0.val(), gmod(u1.val() * pk1.pub_key.log()));
        lemma_gmod_add_right(u0.val(), u1.val() * pk1.pub_key.log());
        lemma_gmod_add_right(u0.val(), gmod(u2.val() * pk2.pub_key.log()));
        lemma_gmod_add_right(u0.val(), u2.val() * pk2.pub_key.log());
        lemma_gmod_idempotent(ct1.y.log());
        lemma_schnorr_check_two(
            1,
            pk1.pub_key.log(),
            u0.val(),
            u1.val(),
            cv,
            v,
            r1.val(),
            ct1.y.log(),
        );
        lemma_gmod_idempotent(ct1.x.log());
        lemma_schnorr_check(beta, u1.val(), cv, r1.val(), ct1.x.log());
        lemma_gmod_idempotent(ct2.y.log());
        lemma_schnorr_check_two(
            1,
            pk2.pub_key.log(),
            u0.val(),
            u2.val(),
            cv,
            v,
            r2.val(),
            ct2.y.log(),
        );
        lemma_gmod_idempotent(ct2.x.log());
        lemma_schnorr_check(beta, u2.val(), cv, r2.val(), ct2.x.log());
    }
    Ok(CipherEqualityProof { init_y1, init_x1, init_y2, init_x2, z0, z1, z2 })
}

/// Verify an equality proof against the two keys and ciphertexts.
pub fn verify_equality(
    pk1: &ElgamalPublicKey,
    ct1: &CipherText,
    pk2: &ElgamalPublicKey,
    ct2: &CipherText,
    gens: &PedGens,
    proof: &CipherEqualityProof,
) -> (r: Result<(), MercatError>)
    ensures
        r is Ok <==> equality_valid(gens.blinding_log(), *pk1, *ct1, *pk2, *ct2, *proof),
        r matches Err(e) ==> e == MercatError::InvalidPoint || e
            == (MercatError::CipherEqualityFinalResponseVerificationError { check: 1 }) || e
            == (MercatError::CipherEqualityFinalResponseVerificationError { check: 2 }) || e
            == (MercatError::CipherEqualityFinalResponseVerificationError { check: 3 }) || e
            == (MercatError::CipherEqualityFinalResponseVerificationError { check: 4 }),
{
    let mut t = equality_transcript(
        pk1,
        ct1,
        pk2,
        ct2,
        &proof.init_y1,
        &proof.init_x1,
        &proof.init_y2,
        &proof.init_x2,
    )?;
    let c = ZKPChallenge::new(
        challenge_scalar(&mut t, CIPHER_EQUALITY_PROOF_CHALLENGE_LABEL),
    );
    let ghost cv = c.val();
    let lhs_y1 = point_add(&point_base_mul(&proof.z0), &point_mul(&proof.z1, &pk1.pub_key));
    let rhs_y1 = point_add(&proof.init_y1, &point_mul(c.x(), &ct1.y));
    let lhs_x1 = point_mul(&proof.z1, gens.blinding_base());
    let rhs_x1 = point_add(&proof.init_x1, &point_mul(c.x(), &ct1.x));
    let lhs_y2 = point_add(&point_base_mul(&proof.z0), &point_mul(&proof.z2, &pk2.pub_key));
    let rhs_y2 = point_add(&proof.init_y2, &point_mul(c.x(), &ct2.y));
    let lhs_x2 = point_mul(&proof.z2, gens.blinding_base());
    let rhs_x2 = point_add(&proof.init_x2, &point_mul(c.x(), &ct2.x));
    proof {
        lemma_gmod_add_right(proof.z0.val(), proof.z1.val() * pk1.pub_key.log());
        lemma_gmod_add_right(proof.init_y1.log(), cv * ct1.y.log());
        lemma_gmod_add_right(proof.init_x1.log(), cv * ct1.x.log());
        lemma_gmod_add_right(proof.z0.val(), proof.z2.val() * pk2.pub_key.log());
        lemma_gmod_add_right(proof.init_y2.log(), cv * ct2.y.log());
        lemma_gmod_add_right(proof.init_x2.log(), cv * ct2.x.log());
    }
    if !lhs_y1.equals(&rhs_y1) {
        return Err(MercatError::CipherEqualityFinalResponseVerificationError { check: 1 });
    }
    if !lhs_x1.equals(&rhs_x1) {
        return Err(MercatError::CipherEqualityFinalResponseVerificationError { check: 2 });
    }
    if !lhs_y2.equals(&rhs_y2) {
        return Err(MercatError::CipherEqualityFinalResponseVerificationError { check: 3 });
    }
    if !lhs_x2.equals(&rhs_x2) {
        return Err(MercatError::CipherEqualityFinalResponseVerificationError { check: 4 });
    }
    Ok(())
}

} // verus!
