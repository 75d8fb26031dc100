//! The batch validator pass over a mix of transactions.

use mercat_core::account::{
    create_account, create_secret_account, generate_mediator_keys, validate_account,
    OrderedPubAccount,
};
use mercat_core::asset::{initialize_asset_tx, justify_asset_issuance};
use mercat_core::decrypt::Decryptor;
use mercat_core::errors::MercatError;
use mercat_core::group::{pedersen_gens, GroupScalar};
use mercat_core::membership::asset_id_from_ticker;
use mercat_core::validate::{validate_all_pending, CoreTransaction};
use rand::rngs::StdRng;
use rand::SeedableRng;

#[test]
fn batch_validates_an_issuance_and_updates_the_balance() {
    let gens = pedersen_gens();
    let mut rng = StdRng::from_seed([40u8; 32]);
    let ids: Vec<GroupScalar> = vec![asset_id_from_ticker(b"ACME").unwrap()];
    let decryptor = Decryptor::new();

    let issuer = create_secret_account(&mut rng, b"ACME", &gens).unwrap();
    let account_tx = create_account(1, &issuer, &ids, 5, &gens, &mut rng).unwrap();
    let issuer_ordered = validate_account(&account_tx, &ids, &gens).unwrap();
    let (mdtr_memo, mdtr) = generate_mediator_keys(&mut rng, &gens);

    let itx =
        initialize_asset_tx(5, 250, &issuer, &mdtr_memo.owner_enc_pub_key, &gens, &mut rng)
            .unwrap();
    let jtx =
        justify_asset_issuance(itx, &issuer_ordered.pub_account, &mdtr, &decryptor, &gens).unwrap();

    let txs = vec![CoreTransaction::IssueJustify {
        issue_tx: jtx,
        mediator: mdtr_memo,
        tx_id: 9,
    }];
    let accounts = vec![issuer_ordered];
    let (updated, last, results) =
        validate_all_pending(txs, accounts, &ids, &gens, &mut rng).unwrap();

    assert_eq!(last, Some(9));
    assert_eq!(results.len(), 1);
    assert_eq!(updated.len(), 1);
    assert_eq!(updated[0].last_processed_tx_counter, Some(9));
    assert_eq!(
        decryptor.decrypt(&issuer.enc_keys.scrt, &updated[0].pub_account.enc_balance),
        Ok(250)
    );
}

#[test]
fn batch_refuses_a_transaction_that_is_not_ready() {
    let gens = pedersen_gens();
    let mut rng = StdRng::from_seed([41u8; 32]);
    let ids: Vec<GroupScalar> = vec![asset_id_from_ticker(b"ACME").unwrap()];

    let issuer = create_secret_account(&mut rng, b"ACME", &gens).unwrap();
    let (mdtr_memo, _) = generate_mediator_keys(&mut rng, &gens);
    let itx =
        initialize_asset_tx(5, 250, &issuer, &mdtr_memo.owner_enc_pub_key, &gens, &mut rng)
            .unwrap();

    let txs = vec![CoreTransaction::IssueInit { issue_tx: itx, tx_id: 4 }];
    let accounts: Vec<OrderedPubAccount> = vec![];
    assert_eq!(
        validate_all_pending(txs, accounts, &ids, &gens, &mut rng).err(),
        Some(MercatError::WrongState)
    );
}

#[test]
fn batch_continues_past_a_failing_transaction() {
    let gens = pedersen_gens();
    let mut rng = StdRng::from_seed([42u8; 32]);
    let ids: Vec<GroupScalar> = vec![asset_id_from_ticker(b"ACME").unwrap()];
    let decryptor = Decryptor::new();

    let issuer = create_secret_account(&mut rng, b"ACME", &gens).unwrap();
    let account_tx = create_account(1, &issuer, &ids, 5, &gens, &mut rng).unwrap();
    let issuer_ordered = validate_account(&account_tx, &ids, &gens).unwrap();
    let (mdtr_memo, mdtr) = generate_mediator_keys(&mut rng, &gens);

    // A bad issuance (account id that matches nothing) followed by a good one.
    let bad =
        initialize_asset_tx(99, 10, &issuer, &mdtr_memo.owner_enc_pub_key, &gens, &mut rng)
            .unwrap();
    let bad = justify_asset_issuance(bad, &issuer_ordered.pub_account, &mdtr, &decryptor, &gens)
        .unwrap();
    let good =
        initialize_asset_tx(5, 40, &issuer, &mdtr_memo.owner_enc_pub_key, &gens, &mut rng)
            .unwrap();
    let good = justify_asset_issuance(good, &issuer_ordered.pub_account, &mdtr, &decryptor, &gens)
        .unwrap();

    let txs = vec![
        CoreTransaction::IssueJustify { issue_tx: bad, mediator: mdtr_memo, tx_id: 2 },
        CoreTransaction::IssueJustify { issue_tx: good, mediator: mdtr_memo, tx_id: 3 },
    ];
    let (updated, last, results) =
        validate_all_pending(txs, vec![issuer_ordered], &ids, &gens, &mut rng).unwrap();

    assert_eq!(last, Some(3));
    assert_eq!(results.len(), 2);
    assert!(results[0].amount.is_none());
    assert!(results[1].amount.is_some());
    assert_eq!(
        decryptor.decrypt(&issuer.enc_keys.scrt, &updated[0].pub_account.enc_balance),
        Ok(40)
    );
}
