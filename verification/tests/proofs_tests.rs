//! The individual proof families and the transcript, exercised directly.

use mercat_core::account::{create_account, create_secret_account, validate_account};
use mercat_core::correctness::ZKPChallenge;
use mercat_core::group::{pedersen_gens, scalar_from_u32, GroupScalar};
use mercat_core::membership::{asset_id_from_ticker, verify_membership};
use mercat_core::transcript::{append_bytes32, append_u32, challenge_scalar, transcript_new};
use rand::rngs::StdRng;
use rand::SeedableRng;

#[test]
fn transcript_challenges_are_deterministic() {
    // Two transcripts that absorb the same labeled inputs emit the same
    // challenge; changing one absorbed byte changes it.
    let mut t1 = transcript_new("demo");
    let mut t2 = transcript_new("demo");
    let mut t3 = transcript_new("demo");
    let data = [7u8; 32];
    let mut tweaked = data;
    tweaked[0] = 8;
    append_bytes32(&mut t1, "item", &data);
    append_bytes32(&mut t2, "item", &data);
    append_bytes32(&mut t3, "item", &tweaked);
    append_u32(&mut t1, "count", 4);
    append_u32(&mut t2, "count", 4);
    append_u32(&mut t3, "count", 4);
    let c1 = challenge_scalar(&mut t1, "c");
    let c2 = challenge_scalar(&mut t2, "c");
    let c3 = challenge_scalar(&mut t3, "c");
    assert_eq!(c1.to_bytes(), c2.to_bytes());
    assert_ne!(c1.to_bytes(), c3.to_bytes());
}

#[test]
fn challenge_wrapper_returns_the_challenge() {
    // The challenge scalar is reduced, hence a valid scalar encoding.
    let mut t = transcript_new("demo");
    let c = challenge_scalar(&mut t, "c");
    let decoded = mercat_core::group::scalar_decode(&c.to_bytes());
    assert!(decoded.is_some());
    let _ = ZKPChallenge::new(c);
}

#[test]
fn membership_proof_rejects_a_tampered_share() {
    let gens = pedersen_gens();
    let mut rng = StdRng::from_seed([50u8; 32]);
    let mut ids: Vec<GroupScalar> = Vec::new();
    for ticker in [b"AAA" as &[u8], b"BBB", b"CCC"] {
        ids.push(asset_id_from_ticker(ticker).unwrap());
    }
    let scrt = create_secret_account(&mut rng, b"BBB", &gens).unwrap();
    let mut tx = create_account(3, &scrt, &ids, 9, &gens, &mut rng).unwrap();

    let pk = tx.pub_account.memo.owner_enc_pub_key;
    assert!(verify_membership(
        &pk,
        &tx.pub_account.enc_asset_id,
        &ids,
        &gens,
        &tx.proofs.asset_membership,
    )
    .is_ok());

    // The cheat: replace one challenge share.
    tx.proofs.asset_membership.challenges[0] = scalar_from_u32(1);
    assert!(verify_membership(
        &pk,
        &tx.pub_account.enc_asset_id,
        &ids,
        &gens,
        &tx.proofs.asset_membership,
    )
    .is_err());
}

#[test]
fn membership_proof_rejects_a_different_allowlist() {
    let gens = pedersen_gens();
    let mut rng = StdRng::from_seed([51u8; 32]);
    let ids: Vec<GroupScalar> = vec![
        asset_id_from_ticker(b"AAA").unwrap(),
        asset_id_from_ticker(b"BBB").unwrap(),
    ];
    let scrt = create_secret_account(&mut rng, b"AAA", &gens).unwrap();
    let tx = create_account(3, &scrt, &ids, 9, &gens, &mut rng).unwrap();

    // Validating against an allowlist that lacks the committed id fails.
    let other: Vec<GroupScalar> = vec![asset_id_from_ticker(b"CCC").unwrap()];
    assert!(validate_account(&tx, &other, &gens).is_err());
}

#[test]
fn wellformedness_proof_rejects_a_tampered_commitment() {
    let gens = pedersen_gens();
    let mut rng = StdRng::from_seed([52u8; 32]);
    let ids: Vec<GroupScalar> = vec![asset_id_from_ticker(b"AAA").unwrap()];
    let scrt = create_secret_account(&mut rng, b"AAA", &gens).unwrap();
    let mut tx = create_account(3, &scrt, &ids, 9, &gens, &mut rng).unwrap();
    // The cheat: swap the commitment for an unrelated point.
    tx.proofs.balance_commitment = tx.proofs.asset_membership.inits_a[0];
    assert!(validate_account(&tx, &ids, &gens).is_err());
}
