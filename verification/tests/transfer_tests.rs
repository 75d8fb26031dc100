//! Confidential transfer end to end, including the boundary amounts and the
//! overdraft refusal.

use mercat_core::account::{
    create_account, create_secret_account, generate_mediator_keys, validate_account,
    AccountMemo, MediatorAccount, PubAccount, SecAccount,
};
use mercat_core::asset::{initialize_asset_tx, justify_asset_issuance, validate_asset_issuance};
use mercat_core::decrypt::Decryptor;
use mercat_core::errors::MercatError;
use mercat_core::group::{pedersen_gens, GroupScalar, PedGens};
use mercat_core::membership::asset_id_from_ticker;
use mercat_core::transfer::{
    create_transaction, finalize_transaction, justify_asset_transaction, validate_transaction,
};
use rand::rngs::StdRng;
use rand::SeedableRng;

struct World {
    gens: PedGens,
    decryptor: Decryptor,
    alice: SecAccount,
    alice_account: PubAccount,
    bob: SecAccount,
    bob_account: PubAccount,
    mdtr: MediatorAccount,
    mdtr_memo: AccountMemo,
}

/// Two validated accounts of the same asset, the first holding `funded`.
fn setup(rng: &mut StdRng, funded: u32) -> World {
    let gens = pedersen_gens();
    let decryptor = Decryptor::new();
    let ids: Vec<GroupScalar> = vec![asset_id_from_ticker(b"ACME").unwrap()];

    let alice = create_secret_account(rng, b"ACME", &gens).unwrap();
    let alice_tx = create_account(1, &alice, &ids, 1, &gens, rng).unwrap();
    let mut alice_account = validate_account(&alice_tx, &ids, &gens).unwrap().pub_account;

    let bob = create_secret_account(rng, b"ACME", &gens).unwrap();
    let bob_tx = create_account(2, &bob, &ids, 2, &gens, rng).unwrap();
    let bob_account = validate_account(&bob_tx, &ids, &gens).unwrap().pub_account;

    let (mdtr_memo, mdtr) = generate_mediator_keys(rng, &gens);

    if funded > 0 {
        let itx =
            initialize_asset_tx(1, funded, &alice, &mdtr_memo.owner_enc_pub_key, &gens, rng)
                .unwrap();
        let jtx = justify_asset_issuance(itx, &alice_account, &mdtr, &decryptor, &gens).unwrap();
        alice_account = validate_asset_issuance(
            &jtx,
            &alice_account,
            &mdtr_memo.owner_enc_pub_key,
            &mdtr_memo.owner_sign_pub_key,
            &gens,
        )
        .unwrap();
    }

    World { gens, decryptor, alice, alice_account, bob, bob_account, mdtr, mdtr_memo }
}

/// Run a full transfer of `amount` from alice to bob and return the updated
/// accounts.
fn run_transfer(w: &World, rng: &mut StdRng, amount: u32) -> (PubAccount, PubAccount) {
    let pending = w.alice_account.enc_balance;
    let itx = create_transaction(
        &w.alice,
        &w.alice_account,
        &w.bob_account,
        &w.mdtr_memo.owner_enc_pub_key,
        &pending,
        amount,
        &w.decryptor,
        &w.gens,
        rng,
    )
    .unwrap();
    let ftx = finalize_transaction(
        itx,
        &w.alice_account.memo.owner_sign_pub_key,
        &w.bob,
        amount,
        &w.decryptor,
        &w.gens,
    )
    .unwrap();
    let jtx = justify_asset_transaction(
        ftx,
        &w.mdtr,
        &w.alice_account.memo.owner_sign_pub_key,
        &w.bob_account.memo.owner_sign_pub_key,
        &w.decryptor,
        &w.gens,
    )
    .unwrap();
    validate_transaction(
        &jtx,
        &w.alice_account,
        &w.bob_account,
        &w.mdtr_memo.owner_enc_pub_key,
        &w.mdtr_memo.owner_sign_pub_key,
        &pending,
        &w.gens,
        rng,
    )
    .unwrap()
}

#[test]
fn justified_transfer_encoding_round_trips() {
    let mut rng = StdRng::from_seed([35u8; 32]);
    let w = setup(&mut rng, 100);
    let pending = w.alice_account.enc_balance;
    let itx = create_transaction(
        &w.alice,
        &w.alice_account,
        &w.bob_account,
        &w.mdtr_memo.owner_enc_pub_key,
        &pending,
        25,
        &w.decryptor,
        &w.gens,
        &mut rng,
    )
    .unwrap();
    let ftx = finalize_transaction(
        itx,
        &w.alice_account.memo.owner_sign_pub_key,
        &w.bob,
        25,
        &w.decryptor,
        &w.gens,
    )
    .unwrap();
    let jtx = justify_asset_transaction(
        ftx,
        &w.mdtr,
        &w.alice_account.memo.owner_sign_pub_key,
        &w.bob_account.memo.owner_sign_pub_key,
        &w.decryptor,
        &w.gens,
    )
    .unwrap();
    let bytes = jtx.encode();
    let back = mercat_core::transfer::JustifiedTransferTx::decode(&bytes).unwrap();
    assert_eq!(back.encode(), bytes);
    // The decoded transfer still validates.
    assert!(validate_transaction(
        &back,
        &w.alice_account,
        &w.bob_account,
        &w.mdtr_memo.owner_enc_pub_key,
        &w.mdtr_memo.owner_sign_pub_key,
        &pending,
        &w.gens,
        &mut rng,
    )
    .is_ok());
}

#[test]
fn transfer_moves_the_amount() {
    let mut rng = StdRng::from_seed([30u8; 32]);
    let w = setup(&mut rng, 100);
    let (alice2, bob2) = run_transfer(&w, &mut rng, 30);
    assert_eq!(w.decryptor.decrypt(&w.alice.enc_keys.scrt, &alice2.enc_balance), Ok(70));
    assert_eq!(w.decryptor.decrypt(&w.bob.enc_keys.scrt, &bob2.enc_balance), Ok(30));
}

#[test]
fn transfer_of_zero_is_a_no_op_on_balances() {
    let mut rng = StdRng::from_seed([31u8; 32]);
    let w = setup(&mut rng, 100);
    let (alice2, bob2) = run_transfer(&w, &mut rng, 0);
    assert_eq!(w.decryptor.decrypt(&w.alice.enc_keys.scrt, &alice2.enc_balance), Ok(100));
    assert_eq!(w.decryptor.decrypt(&w.bob.enc_keys.scrt, &bob2.enc_balance), Ok(0));
}

#[test]
fn transfer_of_the_whole_balance_empties_it() {
    let mut rng = StdRng::from_seed([32u8; 32]);
    let w = setup(&mut rng, 100);
    let (alice2, bob2) = run_transfer(&w, &mut rng, 100);
    assert_eq!(w.decryptor.decrypt(&w.alice.enc_keys.scrt, &alice2.enc_balance), Ok(0));
    assert_eq!(w.decryptor.decrypt(&w.bob.enc_keys.scrt, &bob2.enc_balance), Ok(100));
}

#[test]
fn overdraft_is_refused_by_the_sender() {
    let mut rng = StdRng::from_seed([33u8; 32]);
    let w = setup(&mut rng, 100);
    let pending = w.alice_account.enc_balance;
    let r = create_transaction(
        &w.alice,
        &w.alice_account,
        &w.bob_account,
        &w.mdtr_memo.owner_enc_pub_key,
        &pending,
        101,
        &w.decryptor,
        &w.gens,
        &mut rng,
    );
    assert_eq!(r.err(), Some(MercatError::NotEnoughBalance));
}

#[test]
fn mutated_sender_account_id_is_rejected() {
    let mut rng = StdRng::from_seed([34u8; 32]);
    let w = setup(&mut rng, 100);
    let pending = w.alice_account.enc_balance;
    let itx = create_transaction(
        &w.alice,
        &w.alice_account,
        &w.bob_account,
        &w.mdtr_memo.owner_enc_pub_key,
        &pending,
        30,
        &w.decryptor,
        &w.gens,
        &mut rng,
    )
    .unwrap();
    let ftx = finalize_transaction(
        itx,
        &w.alice_account.memo.owner_sign_pub_key,
        &w.bob,
        30,
        &w.decryptor,
        &w.gens,
    )
    .unwrap();
    let mut jtx = justify_asset_transaction(
        ftx,
        &w.mdtr,
        &w.alice_account.memo.owner_sign_pub_key,
        &w.bob_account.memo.owner_sign_pub_key,
        &w.decryptor,
        &w.gens,
    )
    .unwrap();
    // The cheat: point the transfer at another sender after all signatures.
    jtx.content.init_data.memo.sndr_account_id += 1;
    let r = validate_transaction(
        &jtx,
        &w.alice_account,
        &w.bob_account,
        &w.mdtr_memo.owner_enc_pub_key,
        &w.mdtr_memo.owner_sign_pub_key,
        &pending,
        &w.gens,
        &mut rng,
    );
    assert!(r.is_err());
}
