//! The correctness proof, exercised through its three-move interface.

use mercat_core::correctness::{
    verify_correctness, CorrectnessInitialMessage, CorrectnessProverAwaitingChallenge,
    CorrectnessVerifier, ZKPChallenge, CORRECTNESS_PROOF_CHALLENGE_LABEL,
    CORRECTNESS_PROOF_FINAL_RESPONSE_LABEL,
};
use mercat_core::elgamal::{CommitmentWitness, ElgamalSecretKey};
use mercat_core::errors::MercatError;
use mercat_core::group::{pedersen_gens, scalar_from_u32, scalar_random};
use mercat_core::transcript::{challenge_scalar, transcript_new};
use rand::rngs::StdRng;
use rand::SeedableRng;

const SEED_1: [u8; 32] = [17u8; 32];

#[test]
fn test_correctness_proof() {
    let gens = pedersen_gens();
    let mut rng = StdRng::from_seed(SEED_1);
    let secret_value = 13u32;
    let rand_blind = scalar_random(&mut rng);

    let w = CommitmentWitness::from_u32(secret_value, rand_blind);
    let elg_secret = ElgamalSecretKey::new(scalar_random(&mut rng));
    let elg_pub = elg_secret.get_public_key(&gens);
    let cipher = elg_pub.encrypt(&w, &gens);

    let prover = CorrectnessProverAwaitingChallenge::new(elg_pub, w, &gens);
    let verifier = CorrectnessVerifier::new(secret_value, elg_pub, cipher, &gens);
    let mut transcript = transcript_new(CORRECTNESS_PROOF_FINAL_RESPONSE_LABEL);

    // Positive tests
    let mut transcript_rng = prover.create_transcript_rng(&mut rng, &transcript);
    let (prover, initial_message) = prover.generate_initial_message(&mut transcript_rng);
    initial_message.update_transcript(&mut transcript).unwrap();
    let challenge =
        ZKPChallenge::new(challenge_scalar(&mut transcript, CORRECTNESS_PROOF_CHALLENGE_LABEL));
    let final_response = prover.apply_challenge(&challenge);

    let result = verifier.verify(&challenge, &initial_message, &final_response);
    assert!(result.is_ok());

    // Negative tests
    let bad_initial_message = CorrectnessInitialMessage::default();
    let result = verifier.verify(&challenge, &bad_initial_message, &final_response);
    assert_eq!(
        result,
        Err(MercatError::CorrectnessFinalResponseVerificationError { check: 1 })
    );

    let bad_final_response = scalar_from_u32(0);
    let result = verifier.verify(&challenge, &initial_message, &bad_final_response);
    assert_eq!(
        result,
        Err(MercatError::CorrectnessFinalResponseVerificationError { check: 1 })
    );
}

#[test]
fn correctness_one_shot_round() {
    // A correctness proof produced inside an issuance verifies on its own,
    // and fails against any other declared value.
    let gens = pedersen_gens();
    let mut rng = StdRng::from_seed([3u8; 32]);
    let issuer = mercat_core::account::create_secret_account(&mut rng, b"ACME", &gens).unwrap();
    let mdtr_sk = ElgamalSecretKey::new(scalar_random(&mut rng));
    let mdtr_pk = mdtr_sk.get_public_key(&gens);
    let tx =
        mercat_core::asset::initialize_asset_tx(7, 42, &issuer, &mdtr_pk, &gens, &mut rng).unwrap();
    let pk = issuer.enc_keys.pblc;
    assert!(verify_correctness(42, &pk, &tx.enc_issued_amount, &gens, &tx.amount_correctness)
        .is_ok());
    assert!(verify_correctness(43, &pk, &tx.enc_issued_amount, &gens, &tx.amount_correctness)
        .is_err());
}
