//! Asset issuance end to end: initialize, justify, validate, and the
//! balance grows by the issued amount.

use mercat_core::account::{
    create_account, create_secret_account, generate_mediator_keys, validate_account,
};
use mercat_core::asset::{initialize_asset_tx, justify_asset_issuance, validate_asset_issuance};
use mercat_core::decrypt::Decryptor;
use mercat_core::errors::MercatError;
use mercat_core::group::{pedersen_gens, GroupScalar};
use mercat_core::membership::asset_id_from_ticker;
use rand::rngs::StdRng;
use rand::SeedableRng;

#[test]
fn issuance_adds_to_the_balance() {
    let gens = pedersen_gens();
    let mut rng = StdRng::from_seed([20u8; 32]);
    let ids: Vec<GroupScalar> = vec![asset_id_from_ticker(b"ACME").unwrap()];
    let decryptor = Decryptor::new();

    // The issuer's account with a zero balance.
    let issuer = create_secret_account(&mut rng, b"ACME", &gens).unwrap();
    let account_tx = create_account(1, &issuer, &ids, 7, &gens, &mut rng).unwrap();
    let issuer_account = validate_account(&account_tx, &ids, &gens).unwrap().pub_account;

    // The mediator.
    let (mdtr_memo, mdtr) = generate_mediator_keys(&mut rng, &gens);

    // Issue 100.
    let itx =
        initialize_asset_tx(7, 100, &issuer, &mdtr_memo.owner_enc_pub_key, &gens, &mut rng)
            .unwrap();
    let jtx = justify_asset_issuance(itx, &issuer_account, &mdtr, &decryptor, &gens).unwrap();
    let updated = validate_asset_issuance(
        &jtx,
        &issuer_account,
        &mdtr_memo.owner_enc_pub_key,
        &mdtr_memo.owner_sign_pub_key,
        &gens,
    )
    .unwrap();

    assert_eq!(decryptor.decrypt(&issuer.enc_keys.scrt, &updated.enc_balance), Ok(100));
}

#[test]
fn justified_issuance_encoding_round_trips() {
    let gens = pedersen_gens();
    let mut rng = StdRng::from_seed([23u8; 32]);
    let ids: Vec<GroupScalar> = vec![asset_id_from_ticker(b"ACME").unwrap()];
    let decryptor = Decryptor::new();

    let issuer = create_secret_account(&mut rng, b"ACME", &gens).unwrap();
    let account_tx = create_account(1, &issuer, &ids, 7, &gens, &mut rng).unwrap();
    let issuer_account = validate_account(&account_tx, &ids, &gens).unwrap().pub_account;
    let (mdtr_memo, mdtr) = generate_mediator_keys(&mut rng, &gens);

    let itx =
        initialize_asset_tx(7, 61, &issuer, &mdtr_memo.owner_enc_pub_key, &gens, &mut rng)
            .unwrap();
    let jtx = justify_asset_issuance(itx, &issuer_account, &mdtr, &decryptor, &gens).unwrap();
    let bytes = jtx.encode();
    let back = mercat_core::asset::JustifiedAssetTx::decode(&bytes).unwrap();
    assert_eq!(back.encode(), bytes);
    // The decoded issuance still validates.
    assert!(validate_asset_issuance(
        &back,
        &issuer_account,
        &mdtr_memo.owner_enc_pub_key,
        &mdtr_memo.owner_sign_pub_key,
        &gens,
    )
    .is_ok());
}

#[test]
fn mediator_refuses_a_mismatched_amount() {
    let gens = pedersen_gens();
    let mut rng = StdRng::from_seed([21u8; 32]);
    let ids: Vec<GroupScalar> = vec![asset_id_from_ticker(b"ACME").unwrap()];
    let decryptor = Decryptor::new();

    let issuer = create_secret_account(&mut rng, b"ACME", &gens).unwrap();
    let account_tx = create_account(1, &issuer, &ids, 7, &gens, &mut rng).unwrap();
    let issuer_account = validate_account(&account_tx, &ids, &gens).unwrap().pub_account;
    let (mdtr_memo, mdtr) = generate_mediator_keys(&mut rng, &gens);

    let mut itx =
        initialize_asset_tx(7, 100, &issuer, &mdtr_memo.owner_enc_pub_key, &gens, &mut rng)
            .unwrap();
    // The cheat: declare a different amount than the one encrypted.
    itx.amount = 101;
    assert_eq!(
        justify_asset_issuance(itx, &issuer_account, &mdtr, &decryptor, &gens).err(),
        Some(MercatError::AmountMismatch)
    );
}

#[test]
fn validator_checks_the_account_id() {
    let gens = pedersen_gens();
    let mut rng = StdRng::from_seed([22u8; 32]);
    let ids: Vec<GroupScalar> = vec![asset_id_from_ticker(b"ACME").unwrap()];
    let decryptor = Decryptor::new();

    let issuer = create_secret_account(&mut rng, b"ACME", &gens).unwrap();
    let account_tx = create_account(1, &issuer, &ids, 7, &gens, &mut rng).unwrap();
    let issuer_account = validate_account(&account_tx, &ids, &gens).unwrap().pub_account;
    let (mdtr_memo, mdtr) = generate_mediator_keys(&mut rng, &gens);

    let itx =
        initialize_asset_tx(8, 50, &issuer, &mdtr_memo.owner_enc_pub_key, &gens, &mut rng)
            .unwrap();
    let jtx = justify_asset_issuance(itx, &issuer_account, &mdtr, &decryptor, &gens);
    // The mediator signs whatever account id the issuer declared; the
    // validator is the one who must match it against the account.
    let jtx = jtx.unwrap();
    assert_eq!(
        validate_asset_issuance(
            &jtx,
            &issuer_account,
            &mdtr_memo.owner_enc_pub_key,
            &mdtr_memo.owner_sign_pub_key,
            &gens,
        )
        .err(),
        Some(MercatError::AccountIdMismatch)
    );
}
