//! Account creation end to end: a fresh account holds an encrypted zero
//! balance, the validator accepts it, and tampering is caught.

use mercat_core::account::{create_account, create_secret_account, validate_account};
use mercat_core::decrypt::Decryptor;
use mercat_core::errors::MercatError;
use mercat_core::group::{pedersen_gens, GroupScalar};
use mercat_core::membership::asset_id_from_ticker;
use mercat_core::signing::Signature;
use rand::rngs::StdRng;
use rand::SeedableRng;

fn asset_ids() -> Vec<GroupScalar> {
    let mut ids = Vec::new();
    for ticker in [b"ACME" as &[u8], b"USD", b"GBP"] {
        ids.push(asset_id_from_ticker(ticker).unwrap());
    }
    ids
}

#[test]
fn fresh_account_validates_and_balance_is_zero() {
    let gens = pedersen_gens();
    let mut rng = StdRng::from_seed([7u8; 32]);
    let ids = asset_ids();
    let scrt = create_secret_account(&mut rng, b"USD", &gens).unwrap();
    let tx = create_account(10, &scrt, &ids, 1, &gens, &mut rng).unwrap();

    let ordered = validate_account(&tx, &ids, &gens).unwrap();
    assert_eq!(ordered.last_processed_tx_counter, Some(10));
    assert_eq!(ordered.pub_account.id, 1);

    let decryptor = Decryptor::new();
    assert_eq!(
        decryptor.decrypt(&scrt.enc_keys.scrt, &ordered.pub_account.enc_balance),
        Ok(0)
    );
}

#[test]
fn unknown_asset_id_is_refused() {
    let gens = pedersen_gens();
    let mut rng = StdRng::from_seed([8u8; 32]);
    let ids = asset_ids();
    let scrt = create_secret_account(&mut rng, b"XYZ", &gens).unwrap();
    assert_eq!(
        create_account(10, &scrt, &ids, 1, &gens, &mut rng).err(),
        Some(MercatError::UnknownAssetId)
    );
}

#[test]
fn ticker_too_long_is_refused() {
    assert_eq!(
        asset_id_from_ticker(b"THIRTEENCHARS").err(),
        Some(MercatError::TickerTooLong)
    );
}

#[test]
fn mutated_account_id_without_resigning_is_rejected() {
    let gens = pedersen_gens();
    let mut rng = StdRng::from_seed([9u8; 32]);
    let ids = asset_ids();
    let scrt = create_secret_account(&mut rng, b"USD", &gens).unwrap();
    let mut tx = create_account(10, &scrt, &ids, 1, &gens, &mut rng).unwrap();
    // The cheat: bump the account id after signing.
    tx.pub_account.id = tx.pub_account.id + 1;
    assert_eq!(
        validate_account(&tx, &ids, &gens).err(),
        Some(MercatError::SignatureVerificationError)
    );
}

#[test]
fn mutated_signature_byte_is_rejected() {
    let gens = pedersen_gens();
    let mut rng = StdRng::from_seed([10u8; 32]);
    let ids = asset_ids();
    let scrt = create_secret_account(&mut rng, b"GBP", &gens).unwrap();
    let mut tx = create_account(11, &scrt, &ids, 2, &gens, &mut rng).unwrap();
    let mut sig = tx.sig.to_bytes();
    sig[5] ^= 0x40;
    tx.sig = Signature::from_bytes(sig);
    assert_eq!(
        validate_account(&tx, &ids, &gens).err(),
        Some(MercatError::SignatureVerificationError)
    );
}

#[test]
fn account_encoding_round_trips() {
    let gens = pedersen_gens();
    let mut rng = StdRng::from_seed([11u8; 32]);
    let ids = asset_ids();
    let scrt = create_secret_account(&mut rng, b"ACME", &gens).unwrap();
    let tx = create_account(12, &scrt, &ids, 3, &gens, &mut rng).unwrap();
    let bytes = tx.pub_account.encode();
    let decoded = mercat_core::account::PubAccount::decode(&bytes).unwrap();
    assert_eq!(decoded.encode(), bytes);
    assert_eq!(decoded.id, tx.pub_account.id);
    assert_eq!(
        decoded.memo.owner_sign_pub_key.to_bytes(),
        tx.pub_account.memo.owner_sign_pub_key.to_bytes()
    );
}
