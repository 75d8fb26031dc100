//! The wire encoding primitives and the decoding of group elements.

use mercat_core::account::{
    create_account, create_secret_account, validate_account, OrderedPubAccount,
};
use mercat_core::codec::{push_bytes32, push_u32, read_bytes32, read_u32};
use mercat_core::group::{pedersen_gens, point_decode, scalar_decode};
use mercat_core::membership::asset_id_from_ticker;
use rand::SeedableRng;

#[test]
fn u32_encoding_round_trips() {
    for v in [0u32, 1, 0xff, 0x1234, 0xdeadbeef, u32::MAX] {
        let mut out: Vec<u8> = Vec::new();
        push_u32(&mut out, v);
        assert_eq!(out.len(), 4);
        let (back, p) = read_u32(&out, 0).unwrap();
        assert_eq!(back, v);
        assert_eq!(p, 4);
    }
}

#[test]
fn byte_block_round_trips() {
    let mut out: Vec<u8> = Vec::new();
    let block = [0xabu8; 32];
    push_u32(&mut out, 7);
    push_bytes32(&mut out, &block);
    let (v, p1) = read_u32(&out, 0).unwrap();
    let (b, p2) = read_bytes32(&out, p1).unwrap();
    assert_eq!(v, 7);
    assert_eq!(b, block);
    assert_eq!(p2, out.len());
    // Truncated input is refused.
    assert!(read_bytes32(&out, 5).is_none());
}

#[test]
fn scalar_decoding_enforces_canonical_range() {
    // All bits set is far above the group order.
    assert!(scalar_decode(&[0xff; 32]).is_none());
    // Zero is canonical.
    let s = scalar_decode(&[0; 32]).unwrap();
    assert_eq!(s.to_bytes(), [0; 32]);
}

#[test]
fn ordered_account_encoding_round_trips() {
    let gens = pedersen_gens();
    let mut rng = rand::rngs::StdRng::from_seed([60u8; 32]);
    let ids = vec![asset_id_from_ticker(b"ACME").unwrap()];
    let scrt = create_secret_account(&mut rng, b"ACME", &gens).unwrap();
    let tx = create_account(4, &scrt, &ids, 8, &gens, &mut rng).unwrap();
    let ordered = validate_account(&tx, &ids, &gens).unwrap();
    let bytes = ordered.encode();
    let back = OrderedPubAccount::decode(&bytes).unwrap();
    assert_eq!(back.encode(), bytes);
    assert_eq!(back.last_processed_tx_counter, Some(4));
}

#[test]
fn point_decoding_enforces_canonical_encodings() {
    // The identity encodes to zero bytes and is a canonical point.
    let id = point_decode(&[0; 32]).unwrap();
    assert_eq!(id.to_bytes(), [0; 32]);
    // All bits set is no canonical encoding.
    assert!(point_decode(&[0xff; 32]).is_none());
}
