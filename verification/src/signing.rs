//! Schnorr signatures over Ristretto, with role-scoped signing contexts.
//! Every protocol message is signed over its canonical byte encoding.

use vstd::prelude::*;

verus! {

/// The context label each role signs under when it attests to a message.
pub enum SigContext {
    Account,
    Asset,
    Transaction,
}

/// A signing public key as its 32-byte encoding.
#[derive(Clone, Copy)]
pub struct SigningPubKey {
    pub(crate) bytes: [u8; 32],
}

impl View for SigningPubKey {
    type V = Seq<u8>;

    closed spec fn view(&self) -> Seq<u8> {
        self.bytes@
    }
}

impl SigningPubKey {
    pub fn from_bytes(bytes: [u8; 32]) -> (r: Self)
        ensures
            r@ == bytes@,
    {
        SigningPubKey { bytes }
    }

    pub fn to_bytes(&self) -> (r: [u8; 32])
        ensures
            r@ == self@,
    {
        self.bytes
    }

    pub fn equals(&self, other: &SigningPubKey) -> (r: bool)
        ensures
            r <==> self@ == other@,
    {
        crate::group::bytes32_eq(&self.bytes, &other.bytes)
    }
}

/// A detached signature as its 64-byte encoding.
#[derive(Clone, Copy)]
pub struct Signature {
    pub(crate) bytes: [u8; 64],
}

impl View for Signature {
    type V = Seq<u8>;

    closed spec fn view(&self) -> Seq<u8> {
        self.bytes@
    }
}

impl Signature {
    pub fn from_bytes(bytes: [u8; 64]) -> (r: Self)
        ensures
            r@ == bytes@,
    {
        Signature { bytes }
    }

    pub fn to_bytes(&self) -> (r: [u8; 64])
        ensures
            r@ == self@,
    {
        self.bytes
    }
}

/// A signing key pair; the secret half never leaves this structure.
pub struct SigningKeyPair {
    keys: schnorrkel::Keypair,
    public: SigningPubKey,
}

impl SigningKeyPair {
    /// The encoding of the public half.
    pub closed spec fn public_view(self) -> Seq<u8> {
        self.public@
    }

    /// The public half.
    pub fn public(&self) -> (r: SigningPubKey)
        ensures
            r@ == self.public_view(),
    {
        self.public
    }
}

/// Whether the signature verifies under the given public key, context label
/// and message.  Verification is deterministic, so this is a function of its
/// arguments alone.
pub uninterp spec fn sig_verifies(
    pk: Seq<u8>,
    ctx: Seq<char>,
    msg: Seq<u8>,
    sig: Seq<u8>,
) -> bool;

impl SigContext {
    /// The domain label of this context.
    pub fn label(&self) -> (r: &'static str)
        ensures
            r@ == self.label_view(),
    {
        match self {
            SigContext::Account => "mercat/account",
            SigContext::Asset => "mercat/asset",
            SigContext::Transaction => "mercat/transaction",
        }
    }

    /// The domain label of this context, as a spec value.
    pub open spec fn label_view(self) -> Seq<char> {
        match self {
            SigContext::Account => "mercat/account"@,
            SigContext::Asset => "mercat/asset"@,
            SigContext::Transaction => "mercat/transaction"@,
        }
    }
}

/// Relies on `schnorrkel::MiniSecretKey::generate_with` and
/// `expand_to_keypair` with the Ed25519 expansion: a fresh key pair whose
/// stored public encoding is that of the generated public key.
#[verifier::external_body]
pub fn signing_keypair_generate(rng: &mut rand::rngs::StdRng) -> (kp: SigningKeyPair) {
    let keys = schnorrkel::MiniSecretKey::generate_with(&mut *rng).expand_to_keypair(
        schnorrkel::ExpansionMode::Ed25519,
    );
    let public = SigningPubKey { bytes: keys.public.to_bytes() };
    SigningKeyPair { keys, public }
}

/// Relies on `schnorrkel::Keypair::sign_simple`: what it signs under a
/// context verifies under the same context, message and public key.
#[verifier::external_body]
pub fn sign(kp: &SigningKeyPair, ctx: &str, msg: &[u8]) -> (sig: Signature)
    ensures
        sig_verifies(kp.public_view(), ctx@, msg@, sig@),
{
    let s = kp.keys.sign_simple(ctx.as_bytes(), msg);
    Signature { bytes: s.to_bytes() }
}

/// Relies on `schnorrkel::PublicKey::verify_simple`; bytes that decode to no
/// key or no signature verify nothing.
#[verifier::external_body]
pub fn verify_signature(pk: &SigningPubKey, ctx: &str, msg: &[u8], sig: &Signature) -> (r: bool)
    ensures
        r == sig_verifies(pk@, ctx@, msg@, sig@),
{
    match (
        schnorrkel::PublicKey::from_bytes(&pk.bytes),
        schnorrkel::Signature::from_bytes(&sig.bytes),
    ) {
        (Ok(p), Ok(s)) => p.verify_simple(ctx.as_bytes(), msg, &s).is_ok(),
        _ => false,
    }
}

} // verus!
