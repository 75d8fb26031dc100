//! Declarations of the outside types that the trusted wrappers carry:
//! Verus treats each as opaque.

use vstd::prelude::*;

verus! {

#[verifier::external_type_specification]
#[verifier::external_body]
pub struct ExDalekScalar(curve25519_dalek::scalar::Scalar);

#[verifier::external_type_specification]
#[verifier::external_body]
pub struct ExRistrettoPoint(curve25519_dalek::ristretto::RistrettoPoint);

#[verifier::external_type_specification]
#[verifier::external_body]
pub struct ExPedersenGens(bulletproofs::PedersenGens);

#[verifier::external_type_specification]
#[verifier::external_body]
pub struct ExStdRng(rand::rngs::StdRng);

#[verifier::external_type_specification]
#[verifier::external_body]
pub struct ExMerlinTranscript(merlin::Transcript);

#[verifier::external_type_specification]
#[verifier::external_body]
pub struct ExTranscriptRng(merlin::TranscriptRng);

#[verifier::external_type_specification]
#[verifier::external_body]
pub struct ExSchnorrkelKeypair(schnorrkel::Keypair);

} // verus!
