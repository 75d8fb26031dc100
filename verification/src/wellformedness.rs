//! The proof that a ciphertext pair is well formed under the two bases: the
//! pair `(x, y)` and a Pedersen commitment `V` hide the same value, for some
//! witness `(v, r, b)` with `x = r * B_blinding`, `y = v * B + r * pk` and
//! `V = v * B + b * B_blinding`.  It ties each range-proof commitment to the
//! ciphertext it speaks for, and rules out malformed pairs.

use vstd::prelude::*;

use crate::correctness::ZKPChallenge;
use crate::elgamal::{is_enc, CipherText, CommitmentWitness, ElgamalPublicKey};
use crate::errors::MercatError;
use crate::group::{
    point_add, point_base_mul, point_mul, scalar_add, scalar_mul, scalar_random_from_transcript_rng,
    GroupScalar, PedGens, Point,
};
use crate::math::{
    lemma_gmod_add_right, lemma_gmod_idempotent, lemma_schnorr_check, lemma_schnorr_check_two,
};
use crate::transcript::{
    append_domain, append_validated_point, challenge_scalar, challenge_val, transcript_new,
    transcript_rng, ProofTranscript, TrEntry,
};
use crate::gmod;

verus! {

/// The domain label a well-formedness proof's transcript starts from.
pub const WELLFORMEDNESS_PROOF_LABEL: &'static str = "PolymathWellformednessFinalResponse";

/// The domain label under which the well-formedness challenge is drawn.
pub const WELLFORMEDNESS_PROOF_CHALLENGE_LABEL: &'static str = "PolymathWellformednessChallenge";

/// A complete non-interactive well-formedness proof.
pub struct WellformednessProof {
    pub init_y: Point,
    pub init_x: Point,
    pub init_v: Point,
    pub z1: GroupScalar,
    pub z2: GroupScalar,
    pub z3: GroupScalar,
}

/// Check for the `y` component: `z1 * B + z2 * pk == I_y + c * y`.
pub open spec fn wf_check_y(pk_log: int, y_log: int, iy_log: int, c: int, z1: int, z2: int) -> bool {
    gmod(z1 + z2 * pk_log) == gmod(iy_log + c * y_log)
}

/// Check for the `x` component: `z2 * B_blinding == I_x + c * x`.
pub open spec fn wf_check_x(beta: int, x_log: int, ix_log: int, c: int, z2: int) -> bool {
    gmod(z2 * beta) == gmod(ix_log + c * x_log)
}

/// Check for the commitment: `z1 * B + z3 * B_blinding == I_v + c * V`.
pub open spec fn wf_check_v(beta: int, v_log: int, iv_log: int, c: int, z1: int, z3: int) -> bool {
    gmod(z1 + z3 * beta) == gmod(iv_log + c * v_log)
}

/// The transcript history a well-formedness proof is derived from and
/// checked against.
pub open spec fn wellformedness_entries(
    pk: Seq<u8>,
    x: Seq<u8>,
    y: Seq<u8>,
    v: Seq<u8>,
    iy: Seq<u8>,
    ix: Seq<u8>,
    iv: Seq<u8>,
) -> Seq<TrEntry> {
    seq![
        TrEntry::Domain { name: WELLFORMEDNESS_PROOF_LABEL@ },
        TrEntry::Msg { label: "pk"@, data: pk },
        TrEntry::Msg { label: "x"@, data: x },
        TrEntry::Msg { label: "y"@, data: y },
        TrEntry::Msg { label: "V"@, data: v },
        TrEntry::Domain { name: WELLFORMEDNESS_PROOF_CHALLENGE_LABEL@ },
        TrEntry::Msg { label: "IY"@, data: iy },
        TrEntry::Msg { label: "IX"@, data: ix },
        TrEntry::Msg { label: "IV"@, data: iv },
    ]
}

/// The proof convinces: every absorbed point is non-identity and all three
/// verifier checks hold for the transcript-derived challenge.
pub open spec fn wellformedness_valid(
    beta: int,
    pk: ElgamalPublicKey,
    ct: CipherText,
    commitment: Point,
    p: WellformednessProof,
) -> bool {
    let c = challenge_val(
        wellformedness_entries(
            pk.pub_key@,
            ct.x@,
            ct.y@,
            commitment@,
            p.init_y@,
            p.init_x@,
            p.init_v@,
        ),
        WELLFORMEDNESS_PROOF_CHALLENGE_LABEL@,
    );
    &&& pk.pub_key.log() != 0
    &&& ct.x.log() != 0
    &&& ct.y.log() != 0
    &&& commitment.log() != 0
    &&& p.init_y.log() != 0
    &&& p.init_x.log() != 0
    &&& p.init_v.log() != 0
    &&& wf_check_y(pk.pub_key.log(), ct.y.log(), p.init_y.log(), c, p.z1.val(), p.z2.val())
    &&& wf_check_x(beta, ct.x.log(), p.init_x.log(), c, p.z2.val())
    &&& wf_check_v(beta, commitment.log(), p.init_v.log(), c, p.z1.val(), p.z3.val())
}

/// Absorb the statement and the initial message, refusing identity points.
fn wellformedness_transcript(
    pk: &ElgamalPublicKey,
    ct: &CipherText,
    commitment: &Point,
    init_y: &Point,
    init_x: &Point,
    init_v: &Point,
) -> (r: Result<ProofTranscript, MercatError>)
    ensures
        r matches Ok(t) ==> t.entries() == wellformedness_entries(
            pk.pub_key@,
            ct.x@,
            ct.y@,
            commitment@,
            init_y@,
            init_x@,
            init_v@,
        ),
        r is Ok <==> pk.pub_key.log() != 0 && ct.x.log() != 0 && ct.y.log() != 0
            && commitment.log() != 0 && init_y.log() != 0 && init_x.log() != 0 && init_v.log()
            != 0,
        r matches Err(e) ==> e == MercatError::InvalidPoint,
{
    let mut t = transcript_new(WELLFORMEDNESS_PROOF_LABEL);
    append_validated_point(&mut t, "pk", &pk.pub_key)?;
    append_validated_point(&mut t, "x", &ct.x)?;
    append_validated_point(&mut t, "y", &ct.y)?;
    append_validated_point(&mut t, "V", commitment)?;
    append_domain(&mut t, WELLFORMEDNESS_PROOF_CHALLENGE_LABEL);
    append_validated_point(&mut t, "IY", init_y)?;
    append_validated_point(&mut t, "IX", init_x)?;
    append_validated_point(&mut t, "IV", init_v)?;
    proof {
        assert(t.entries() =~= wellformedness_entries(
            pk.pub_key@,
            ct.x@,
            ct.y@,
            commitment@,
            init_y@,
            init_x@,
            init_v@,
        ));
    }
    Ok(t)
}

/// Produce a well-formedness proof for a ciphertext and commitment this
/// prover built, with witness `(v, r)` for the ciphertext and `b` for the
/// commitment's blinding.
pub(crate) fn prove_wellformedness(
    witness: &CommitmentWitness,
    v_blinding: &GroupScalar,
    pk: &ElgamalPublicKey,
    ct: &CipherText,
    commitment: &Point,
    gens: &PedGens,
    rng: &mut rand::rngs::StdRng,
) -> (r: Result<WellformednessProof, MercatError>)
    requires
        is_enc(
            gens.blinding_log(),
            pk.pub_key.log(),
            witness.value_val(),
            witness.blinding_val(),
            *ct,
        ),
        commitment.log() == gmod(
            witness.value_val() + v_blinding.val() * gens.blinding_log(),
        ),
    ensures
        r matches Ok(p) ==> wellformedness_valid(gens.blinding_log(), *pk, *ct, *commitment, p),
        r matches Err(e) ==> e == MercatError::InvalidPoint,
{
    let ghost beta = gens.blinding_log();
    let ghost v = witness.value_val();
    let mut t = transcript_new(WELLFORMEDNESS_PROOF_LABEL);
    append_validated_point(&mut t, "pk", &pk.pub_key)?;
    append_validated_point(&mut t, "x", &ct.x)?;
    append_validated_point(&mut t, "y", &ct.y)?;
    append_validated_point(&mut t, "V", commitment)?;
    append_domain(&mut t, WELLFORMEDNESS_PROOF_CHALLENGE_LABEL);
    let mut trng = transcript_rng(&t, rng, witness.blinding());
    let u1 = scalar_random_from_transcript_rng(&mut trng);
    let u2 = scalar_random_from_transcript_rng(&mut trng);
    let u3 = scalar_random_from_transcript_rng(&mut trng);
    let init_y = point_add(&point_base_mul(&u1), &point_mul(&u2, &pk.pub_key));
    let init_x = point_mul(&u2, gens.blinding_base());
    let init_v = point_add(&point_base_mul(&u1), &point_mul(&u3, gens.blinding_base()));
    append_validated_point(&mut t, "IY", &init_y)?;
    append_validated_point(&mut t, "IX", &init_x)?;
    append_validated_point(&mut t, "IV", &init_v)?;
    proof {
        assert(t.entries() =~= wellformedness_entries(
            pk.pub_key@,
            ct.x@,
            ct.y@,
            commitment@,
            init_y@,
            init_x@,
            init_v@,
        ));
    }
    let c = ZKPChallenge::new(
        challenge_scalar(&mut t, WELLFORMEDNESS_PROOF_CHALLENGE_LABEL),
    );
    let z1 = scalar_add(&u1, &scalar_mul(c.x(), witness.value()));
    let z2 = scalar_add(&u2, &scalar_mul(c.x(), witness.blinding()));
    let z3 = scalar_add(&u3, &scalar_mul(c.x(), v_blinding));
    proof {
        let cv = c.val();
        let r_ = witness.blinding_val();
        let b_ = v_blinding.val();
        lemma_gmod_add_right(u1.val(), cv * v);
        lemma_gmod_add_right(u2.val(), cv * r_);
        lemma_gmod_add_right(u3.val(), cv * b_);
        lemma_gmod_add_right(u1.val(), gmod(u2.val() * pk.pub_key.log()));
        lemma_gmod_add_right(u1.val(), u2.val() * pk.pub_key.log());
        lemma_gmod_add_right(u1.val(), gmod(u3.val() * beta));
        lemma_gmod_add_right(u1.val(), u3.val() * beta);
        lemma_gmod_idempotent(ct.y.log());
        lemma_schnorr_check_two(
            1,
            pk.pub_key.log(),
            u1.val(),
            u2.val(),
            cv,
            v,
            r_,
            ct.y.log(),
        );
        lemma_gmod_idempotent(ct.x.log());
        lemma_schnorr_check(beta, u2.val(), cv, r_, ct.x.log());
        lemma_gmod_idempotent(commitment.log());
        lemma_schnorr_check_two(1, beta, u1.val(), u3.val(), cv, v, b_, commitment.log());
    }
    Ok(WellformednessProof { init_y, init_x, init_v, z1, z2, z3 })
}

/// Verify a well-formedness proof against the key, ciphertext and
/// commitment.
pub fn verify_wellformedness(
    pk: &ElgamalPublicKey,
    ct: &CipherText,
    commitment: &Point,
    gens: &PedGens,
    proof: &WellformednessProof,
) -> (r: Result<(), MercatError>)
    ensures
        r is Ok <==> wellformedness_valid(gens.blinding_log(), *pk, *ct, *commitment, *proof),
        r matches Err(e) ==> e == MercatError::InvalidPoint || e
            == (MercatError::WellformednessFinalResponseVerificationError { check: 1 }) || e
            == (MercatError::WellformednessFinalResponseVerificationError { check: 2 }) || e
            == (MercatError::WellformednessFinalResponseVerificationError { check: 3 }),
{
    let mut t = wellformedness_transcript(
        pk,
        ct,
        commitment,
        &proof.init_y,
        &proof.init_x,
        &proof.init_v,
    )?;
    let c = ZKPChallenge::new(
        challenge_scalar(&mut t, WELLFORMEDNESS_PROOF_CHALLENGE_LABEL),
    );
    let ghost cv = c.val();
    let lhs_y = point_add(&point_base_mul(&proof.z1), &point_mul(&proof.z2, &pk.pub_key));
    let rhs_y = point_add(&proof.init_y, &point_mul(c.x(), &ct.y));
    let lhs_x = point_mul(&proof.z2, gens.blinding_base());
    let rhs_x = point_add(&proof.init_x, &point_mul(c.x(), &ct.x));
    let lhs_v = point_add(&point_base_mul(&proof.z1), &point_mul(&proof.z3, gens.blinding_base()));
    let rhs_v = point_add(&proof.init_v, &point_mul(c.x(), commitment));
    proof {
        lemma_gmod_add_right(proof.z1.val(), proof.z2.val() * pk.pub_key.log());
        lemma_gmod_add_right(proof.init_y.log(), cv * ct.y.log());
        lemma_gmod_add_right(proof.init_x.log(), cv * ct.x.log());
        lemma_gmod_add_right(proof.z1.val(), proof.z3.val() * gens.blinding_log());
        lemma_gmod_add_right(proof.init_v.log(), cv * commitment.log());
    }
    if !lhs_y.equals(&rhs_y) {
        return Err(MercatError::WellformednessFinalResponseVerificationError { check: 1 });
    }
    if !lhs_x.equals(&rhs_x) {
        return Err(MercatError::WellformednessFinalResponseVerificationError { check: 2 });
    }
    if !lhs_v.equals(&rhs_v) {
        return Err(MercatError::WellformednessFinalResponseVerificationError { check: 3 });
    }
    Ok(())
}

} // verus!
