//! The proof that a ciphertext encrypts zero under a key whose secret the
//! prover holds: for `(x, y)` with `y = sk * x` and `pk = sk * B_blinding`,
//! the prover shows the two discrete logarithms agree.  A sender uses it to
//! tie a freshly blinded balance ciphertext to the pending balance: their
//! homomorphic difference encrypts zero exactly when both hide the same
//! value.

use vstd::prelude::*;

use crate::correctness::ZKPChallenge;
use crate::elgamal::{ct_dec, CipherText, ElgamalPublicKey, ElgamalSecretKey};
use crate::errors::MercatError;
use crate::group::{
    point_add, point_mul, scalar_add, scalar_mul, scalar_random_from_transcript_rng, GroupScalar,
    PedGens, Point,
};
use crate::math::{lemma_gmod_add_right, lemma_gmod_idempotent, lemma_schnorr_check};
use crate::transcript::{
    append_domain, append_validated_point, challenge_scalar, challenge_val, transcript_new,
    transcript_rng, ProofTranscript, TrEntry,
};
use crate::{gmod, group_order};

verus! {

/// The domain label a refreshment proof's transcript starts from.
pub const REFRESHMENT_PROOF_LABEL: &'static str = "PolymathRefreshmentFinalResponse";

/// The domain label under which the refreshment challenge is drawn.
pub const REFRESHMENT_PROOF_CHALLENGE_LABEL: &'static str = "PolymathRefreshmentChallenge";

/// A complete non-interactive refreshment proof.
pub struct RefreshmentProof {
    pub init_a: Point,
    pub init_b: Point,
    pub z: GroupScalar,
}

/// Check against the ciphertext: `z * x == A + c * y`.
pub open spec fn rf_check_a(x_log: int, y_log: int, ia_log: int, c: int, z: int) -> bool {
    gmod(z * x_log) == gmod(ia_log + c * y_log)
}

/// Check against the key: `z * B_blinding == B + c * pk`.
pub open spec fn rf_check_b(beta: int, pk_log: int, ib_log: int, c: int, z: int) -> bool {
    gmod(z * beta) == gmod(ib_log + c * pk_log)
}

/// The transcript history a refreshment proof is derived from and checked
/// against.
pub open spec fn refreshment_entries(
    pk: Seq<u8>,
    x: Seq<u8>,
    y: Seq<u8>,
    ia: Seq<u8>,
    ib: Seq<u8>,
) -> Seq<TrEntry> {
    seq![
        TrEntry::Domain { name: REFRESHMENT_PROOF_LABEL@ },
        TrEntry::Msg { label: "pk"@, data: pk },
        TrEntry::Msg { label: "x"@, data: x },
        TrEntry::Msg { label: "y"@, data: y },
        TrEntry::Domain { name: REFRESHMENT_PROOF_CHALLENGE_LABEL@ },
        TrEntry::Msg { label: "RA"@, data: ia },
        TrEntry::Msg { label: "RB"@, data: ib },
    ]
}

/// The proof convinces: every absorbed point is non-identity and both
/// verifier checks hold for the transcript-derived challenge.
pub open spec fn refreshment_valid(
    beta: int,
    pk: ElgamalPublicKey,
    ct: CipherText,
    p: RefreshmentProof,
) -> bool {
    let c = challenge_val(
        refreshment_entries(pk.pub_key@, ct.x@, ct.y@, p.init_a@, p.init_b@),
        REFRESHMENT_PROOF_CHALLENGE_LABEL@,
    );
    &&& pk.pub_key.log() != 0
    &&& ct.x.log() != 0
    &&& ct.y.log() != 0
    &&& p.init_a.log() != 0
    &&& p.init_b.log() != 0
    &&& rf_check_a(ct.x.log(), ct.y.log(), p.init_a.log(), c, p.z.val())
    &&& rf_check_b(beta, pk.pub_key.log(), p.init_b.log(), c, p.z.val())
}

/// Absorb the statement and the initial message, refusing identity points.
fn refreshment_transcript(
    pk: &ElgamalPublicKey,
    ct: &CipherText,
    init_a: &Point,
    init_b: &Point,
) -> (r: Result<ProofTranscript, MercatError>)
    ensures
        r matches Ok(t) ==> t.entries() == refreshment_entries(
            pk.pub_key@,
            ct.x@,
            ct.y@,
            init_a@,
            init_b@,
        ),
        r is Ok <==> pk.pub_key.log() != 0 && ct.x.log() != 0 && ct.y.log() != 0 && init_a.log()
            != 0 && init_b.log() != 0,
        r matches Err(e) ==> e == MercatError::InvalidPoint,
{
    let mut t = transcript_new(REFRESHMENT_PROOF_LABEL);
    append_validated_point(&mut t, "pk", &pk.pub_key)?;
    append_validated_point(&mut t, "x", &ct.x)?;
    append_validated_point(&mut t, "y", &ct.y)?;
    append_domain(&mut t, REFRESHMENT_PROOF_CHALLENGE_LABEL);
    append_validated_point(&mut t, "RA", init_a)?;
    append_validated_point(&mut t, "RB", init_b)?;
    proof {
        assert(t.entries() =~= refreshment_entries(
            pk.pub_key@,
            ct.x@,
            ct.y@,
            init_a@,
            init_b@,
        ));
    }
    Ok(t)
}

/// Produce a refreshment proof for a ciphertext that decrypts to zero under
/// the prover's secret key.
pub(crate) fn prove_refreshment(
    sk: &ElgamalSecretKey,
    pk: &ElgamalPublicKey,
    ct: &CipherText,
    gens: &PedGens,
    rng: &mut rand::rngs::StdRng,
) -> (r: Result<RefreshmentProof, MercatError>)
    requires
        ct_dec(sk.secret_val(), *ct) == 0,
        pk.pub_key.log() == gmod(sk.secret_val() * gens.blinding_log()),
    ensures
        r matches Ok(p) ==> refreshment_valid(gens.blinding_log(), *pk, *ct, p),
        r matches Err(e) ==> e == MercatError::InvalidPoint,
{
    let ghost beta = gens.blinding_log();
    let ghost skv = sk.secret_val();
    let mut t = transcript_new(REFRESHMENT_PROOF_LABEL);
    append_validated_point(&mut t, "pk", &pk.pub_key)?;
    append_validated_point(&mut t, "x", &ct.x)?;
    append_validated_point(&mut t, "y", &ct.y)?;
    append_domain(&mut t, REFRESHMENT_PROOF_CHALLENGE_LABEL);
    let mut trng = transcript_rng(&t, rng, sk.secret());
    let u = scalar_random_from_transcript_rng(&mut trng);
    let init_a = point_mul(&u, &ct.x);
    let init_b = point_mul(&u, gens.blinding_base());
    append_validated_point(&mut t, "RA", &init_a)?;
    append_validated_point(&mut t, "RB", &init_b)?;
    proof {
        assert(t.entries() =~= refreshment_entries(
            pk.pub_key@,
            ct.x@,
            ct.y@,
            init_a@,
            init_b@,
        ));
    }
    let c = ZKPChallenge::new(challenge_scalar(&mut t, REFRESHMENT_PROOF_CHALLENGE_LABEL));
    let z = scalar_add(&u, &scalar_mul(c.x(), sk.secret()));
    let xp = ct.x;
    let yp = ct.y;
    proof {
        lemma_gmod_add_right(u.val(), c.val() * skv);
        // The ciphertext decrypts to zero, so y is congruent to sk * x.
        use_type_invariant(xp);
        Point::lemma_canonical(xp);
        use_type_invariant(yp);
        Point::lemma_canonical(yp);
        vstd::arithmetic::div_mod::lemma_mod_equivalence(
            ct.y.log(),
            skv * ct.x.log(),
            group_order(),
        );
        crate::math::lemma_gmod_small(ct.y.log());
        lemma_schnorr_check(ct.x.log(), u.val(), c.val(), skv, ct.y.log());
        lemma_gmod_idempotent(skv * beta);
        lemma_schnorr_check(beta, u.val(), c.val(), skv, pk.pub_key.log());
    }
    Ok(RefreshmentProof { init_a, init_b, z })
}

/// Verify a refreshment proof against the key and ciphertext.
pub fn verify_refreshment(
    pk: &ElgamalPublicKey,
    ct: &CipherText,
    gens: &PedGens,
    proof: &RefreshmentProof,
) -> (r: Result<(), MercatError>)
    ensures
        r is Ok <==> refreshment_valid(gens.blinding_log(), *pk, *ct, *proof),
        r matches Err(e) ==> e == MercatError::InvalidPoint || e
            == (MercatError::RefreshmentFinalResponseVerificationError { check: 1 }) || e
            == (MercatError::RefreshmentFinalResponseVerificationError { check: 2 }),
{
    let mut t = refreshment_transcript(pk, ct, &proof.init_a, &proof.init_b)?;
    let c = ZKPChallenge::new(challenge_scalar(&mut t, REFRESHMENT_PROOF_CHALLENGE_LABEL));
    let ghost cv = c.val();
    let lhs_a = point_mul(&proof.z, &ct.x);
    let rhs_a = point_add(&proof.init_a, &point_mul(c.x(), &ct.y));
    let lhs_b = point_mul(&proof.z, gens.blinding_base());
    let rhs_b = point_add(&proof.init_b, &point_mul(c.x(), &pk.pub_key));
    proof {
        lemma_gmod_add_right(proof.init_a.log(), cv * ct.y.log());
        lemma_gmod_add_right(proof.init_b.log(), cv * pk.pub_key.log());
    }
    if !lhs_a.equals(&rhs_a) {
        return Err(MercatError::RefreshmentFinalResponseVerificationError { check: 1 });
    }
    if !lhs_b.equals(&rhs_b) {
        return Err(MercatError::RefreshmentFinalResponseVerificationError { check: 2 });
    }
    Ok(())
}

} // verus!
