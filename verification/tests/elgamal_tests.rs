//! Encryption, decryption and the additive homomorphism at run time.

use mercat_core::decrypt::Decryptor;
use mercat_core::elgamal::{CipherText, CommitmentWitness, ElgamalSecretKey};
use mercat_core::errors::MercatError;
use mercat_core::group::{pedersen_gens, scalar_random};
use rand::rngs::StdRng;
use rand::SeedableRng;

#[test]
fn encrypt_then_decrypt_is_identity() {
    let gens = pedersen_gens();
    let mut rng = StdRng::from_seed([1u8; 32]);
    let sk = ElgamalSecretKey::new(scalar_random(&mut rng));
    let pk = sk.get_public_key(&gens);
    let decryptor = Decryptor::new();
    for v in [0u32, 1, 13, 255, 65535, 65536, 70000] {
        let w = CommitmentWitness::from_u32(v, scalar_random(&mut rng));
        let ct = pk.encrypt(&w, &gens);
        assert_eq!(decryptor.decrypt(&sk, &ct), Ok(v));
    }
}

#[test]
fn homomorphic_add_and_sub() {
    let gens = pedersen_gens();
    let mut rng = StdRng::from_seed([2u8; 32]);
    let sk = ElgamalSecretKey::new(scalar_random(&mut rng));
    let pk = sk.get_public_key(&gens);
    let decryptor = Decryptor::new();
    let w1 = CommitmentWitness::from_u32(100, scalar_random(&mut rng));
    let w2 = CommitmentWitness::from_u32(30, scalar_random(&mut rng));
    let ct1 = pk.encrypt(&w1, &gens);
    let ct2 = pk.encrypt(&w2, &gens);
    assert_eq!(decryptor.decrypt(&sk, &ct1.hom_add(&ct2)), Ok(130));
    assert_eq!(decryptor.decrypt(&sk, &ct1.hom_sub(&ct2)), Ok(70));
}

#[test]
fn identity_ciphertext_decrypts_to_zero() {
    let mut rng = StdRng::from_seed([4u8; 32]);
    let sk = ElgamalSecretKey::new(scalar_random(&mut rng));
    let decryptor = Decryptor::new();
    let ct = CipherText::identity();
    assert_eq!(decryptor.decrypt(&sk, &ct), Ok(0));
}

#[test]
fn decryption_out_of_range_is_reported() {
    let gens = pedersen_gens();
    let mut rng = StdRng::from_seed([5u8; 32]);
    let sk = ElgamalSecretKey::new(scalar_random(&mut rng));
    let pk = sk.get_public_key(&gens);
    let decryptor = Decryptor::new();
    // The sum of two in-range plaintexts that overflows the searched range.
    let w1 = CommitmentWitness::from_u32(u32::MAX, scalar_random(&mut rng));
    let w2 = CommitmentWitness::from_u32(1, scalar_random(&mut rng));
    let ct = pk.encrypt(&w1, &gens).hom_add(&pk.encrypt(&w2, &gens));
    assert_eq!(decryptor.decrypt(&sk, &ct), Err(MercatError::DecryptionOutOfRange));
}

#[test]
fn decryption_with_wrong_key_misses() {
    let gens = pedersen_gens();
    let mut rng = StdRng::from_seed([6u8; 32]);
    let sk = ElgamalSecretKey::new(scalar_random(&mut rng));
    let pk = sk.get_public_key(&gens);
    let other = ElgamalSecretKey::new(scalar_random(&mut rng));
    let decryptor = Decryptor::new();
    let w = CommitmentWitness::from_u32(99, scalar_random(&mut rng));
    let ct = pk.encrypt(&w, &gens);
    assert_ne!(decryptor.decrypt(&other, &ct), Ok(99));
}
