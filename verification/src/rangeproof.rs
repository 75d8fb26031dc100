//! Range proofs on transferred amounts, delegated to a Bulletproof prover:
//! the committed value lies in the 32-bit range, so a transfer can neither go
//! negative nor overflow.

use vstd::prelude::*;

use crate::errors::MercatError;
use crate::group::{GroupScalar, PedGens, Point};
use crate::gmod;

verus! {

/// The proof bytes accept: verification of them against the commitment
/// succeeds for every choice of verifier randomness.  Honest proofs satisfy
/// it; for dishonest ones nothing is promised either way.
pub uninterp spec fn range_ok(proof: Seq<u8>, commitment: Seq<u8>) -> bool;

/// A range proof together with the Pedersen commitment it speaks for.
pub struct InRangeProof {
    pub proof: Vec<u8>,
    pub commitment: Point,
}

/// Relies on `bulletproofs::RangeProof::prove_single_with_rng` over 32 bits
/// with a fresh fixed-label transcript: it commits to the value under the
/// given blinding, and the proof it returns verifies for every verifier
/// randomness.
#[verifier::external_body]
pub fn range_prove(
    value: u32,
    blinding: &GroupScalar,
    gens: &PedGens,
    rng: &mut rand::rngs::StdRng,
) -> (r: Result<InRangeProof, MercatError>)
    ensures
        r matches Ok(p) ==> p.commitment.log() == gmod(
            value + blinding.val() * gens.blinding_log(),
        ) && range_ok(p.proof@, p.commitment@),
        r matches Err(e) ==> e == MercatError::RangeProofVerificationError,
{
    let bp_gens = bulletproofs::BulletproofGens::new(32, 1);
    let mut t = merlin::Transcript::new(b"mercat-range-proof");
    let res = bulletproofs::RangeProof::prove_single_with_rng(&bp_gens, &gens.inner, &mut t, value as u64, &blinding.sc, 32, rng);
    match res {
        Ok((proof, commit)) => match commit.decompress() {
            Some(pt) => Ok(InRangeProof { proof: proof.to_bytes(), commitment: Point { bytes: commit.to_bytes(), pt } }),
            None => Err(MercatError::RangeProofVerificationError),
        },
        Err(_) => Err(MercatError::RangeProofVerificationError),
    }
}

/// Relies on `bulletproofs::RangeProof::verify_single_with_rng` over 32 bits
/// with the same fixed-label transcript: a proof that accepts is accepted,
/// whatever the verifier randomness; bytes that decode to no proof are
/// refused.
#[verifier::external_body]
pub fn range_verify(
    proof: &InRangeProof,
    gens: &PedGens,
    rng: &mut rand::rngs::StdRng,
) -> (r: bool)
    ensures
        range_ok(proof.proof@, proof.commitment@) ==> r,
{
    let bp_gens = bulletproofs::BulletproofGens::new(32, 1);
    let mut t = merlin::Transcript::new(b"mercat-range-proof");
    let commit = curve25519_dalek::ristretto::CompressedRistretto(proof.commitment.bytes);
    match bulletproofs::RangeProof::from_bytes(&proof.proof) {
        Ok(rp) => rp.verify_single_with_rng(&bp_gens, &gens.inner, &mut t, &commit, 32, rng).is_ok(),
        Err(_) => false,
    }
}

} // verus!
