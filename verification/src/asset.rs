//! Asset issuance: the issuer encrypts the issued amount under its own key
//! and the mediator's, proves the encryptions correct and equal, and signs;
//! the mediator decrypts, checks the declared amount and counter-signs; the
//! validator checks everything and adds the issued amount to the issuer's
//! encrypted balance.

use vstd::prelude::*;

use crate::account::{ct_enc, MediatorAccount, PubAccount, SecAccount};
use crate::codec::{push_bytes32, push_bytes64, push_u32, u32_le};
use crate::correctness::{
    correctness_valid, prove_correctness, verify_correctness, CorrectnessProof,
};
use crate::decrypt::Decryptor;
use crate::elgamal::{ct_dec, is_enc, CipherText, CommitmentWitness, ElgamalPublicKey};
use crate::equality::{equality_valid, prove_equality, verify_equality, CipherEqualityProof};
use crate::errors::MercatError;
use crate::group::{scalar_random, PedGens};
use crate::signing::{sig_verifies, sign, verify_signature, Signature, SigningPubKey};
use crate::gmod;

verus! {

/// The signing context every issuance message is signed under.
pub const ASSET_SIG_CONTEXT: &'static str = "mercat/asset";

/// The issuer's opening move: the declared amount, its two encryptions, and
/// the proofs that they are correct and agree.
pub struct InitializedAssetTx {
    pub account_id: u32,
    pub amount: u32,
    pub enc_issued_amount: CipherText,
    pub enc_issued_amount_mdtr: CipherText,
    pub amount_correctness: CorrectnessProof,
    pub amount_equality: CipherEqualityProof,
    pub sig: Signature,
}

/// The mediator's justification: the issuer's message counter-signed.
pub struct JustifiedAssetTx {
    pub content: InitializedAssetTx,
    pub sig: Signature,
}

/// The encoding of a correctness proof.
pub open spec fn correctness_proof_enc(p: CorrectnessProof) -> Seq<u8> {
    p.init.a@ + p.init.b@ + p.response@
}

/// The encoding of a ciphertext-equality proof.
pub open spec fn equality_proof_enc(p: CipherEqualityProof) -> Seq<u8> {
    p.init_y1@ + p.init_x1@ + p.init_y2@ + p.init_x2@ + p.z0@ + p.z1@ + p.z2@
}

/// The encoding of the issuer's content, the bytes the issuer signs.
pub open spec fn asset_content_enc(tx: InitializedAssetTx) -> Seq<u8> {
    u32_le(tx.account_id) + u32_le(tx.amount) + ct_enc(tx.enc_issued_amount) + ct_enc(
        tx.enc_issued_amount_mdtr,
    ) + correctness_proof_enc(tx.amount_correctness) + equality_proof_enc(tx.amount_equality)
}

/// The bytes the mediator signs: the issuer's content and signature.
pub open spec fn asset_justification_enc(tx: InitializedAssetTx) -> Seq<u8> {
    asset_content_enc(tx) + tx.sig@
}

impl CorrectnessProof {
    pub fn encode_into(&self, out: &mut Vec<u8>)
        ensures
            final(out)@ == old(out)@ + correctness_proof_enc(*self),
    {
        let a = self.init.a.to_bytes();
        let b = self.init.b.to_bytes();
        let z = self.response.to_bytes();
        push_bytes32(out, &a);
        push_bytes32(out, &b);
        push_bytes32(out, &z);
        proof {
            assert(out@ =~= old(out)@ + correctness_proof_enc(*self));
        }
    }
}

impl CorrectnessProof {
    /// Read a correctness proof at `pos`.
    pub fn decode_from(data: &Vec<u8>, pos: usize) -> (r: Option<(CorrectnessProof, usize)>)
        ensures
            r matches Some((p, p2)) ==> p2 == pos + 96 && p2 <= data@.len() && data@.subrange(
                pos as int,
                p2 as int,
            ) == correctness_proof_enc(p),
            r is None ==> pos + 96 > data@.len() || !crate::group::pt_ok(
                data@.subrange(pos as int, pos + 32),
            ) || !crate::group::pt_ok(data@.subrange(pos + 32, pos + 64))
                || !crate::group::scalar_ok_bytes(data@.subrange(pos + 64, pos + 96)),
    {
        let (ab, p1) = match crate::codec::read_bytes32(data, pos) {
            Some(v) => v,
            None => {
                return None;
            },
        };
        let (bb, p2) = match crate::codec::read_bytes32(data, p1) {
            Some(v) => v,
            None => {
                return None;
            },
        };
        let (zb, p3) = match crate::codec::read_bytes32(data, p2) {
            Some(v) => v,
            None => {
                return None;
            },
        };
        let a = match crate::group::point_decode(&ab) {
            Some(v) => v,
            None => {
                return None;
            },
        };
        let b = match crate::group::point_decode(&bb) {
            Some(v) => v,
            None => {
                return None;
            },
        };
        let z = match crate::group::scalar_decode(&zb) {
            Some(v) => v,
            None => {
                return None;
            },
        };
        let p = CorrectnessProof {
            init: crate::correctness::CorrectnessInitialMessage { a, b },
            response: z,
        };
        proof {
            assert(data@.subrange(pos as int, pos + 96) =~= correctness_proof_enc(p));
        }
        Some((p, p3))
    }
}

impl CipherEqualityProof {
    pub fn encode_into(&self, out: &mut Vec<u8>)
        ensures
            final(out)@ == old(out)@ + equality_proof_enc(*self),
    {
        let iy1 = self.init_y1.to_bytes();
        let ix1 = self.init_x1.to_bytes();
        let iy2 = self.init_y2.to_bytes();
        let ix2 = self.init_x2.to_bytes();
        let z0 = self.z0.to_bytes();
        let z1 = self.z1.to_bytes();
        let z2 = self.z2.to_bytes();
        push_bytes32(out, &iy1);
        push_bytes32(out, &ix1);
        push_bytes32(out, &iy2);
        push_bytes32(out, &ix2);
        push_bytes32(out, &z0);
        push_bytes32(out, &z1);
        push_bytes32(out, &z2);
        proof {
            assert(out@ =~= old(out)@ + equality_proof_enc(*self));
        }
    }
}

impl CipherEqualityProof {
    /// Read a ciphertext-equality proof at `pos`.
    pub fn decode_from(data: &Vec<u8>, pos: usize) -> (r: Option<(CipherEqualityProof, usize)>)
        ensures
            r matches Some((p, p2)) ==> p2 == pos + 224 && p2 <= data@.len() && data@.subrange(
                pos as int,
                p2 as int,
            ) == equality_proof_enc(p),
            r is None ==> pos + 224 > data@.len() || !crate::group::pt_ok(
                data@.subrange(pos as int, pos + 32),
            ) || !crate::group::pt_ok(data@.subrange(pos + 32, pos + 64))
                || !crate::group::pt_ok(data@.subrange(pos + 64, pos + 96))
                || !crate::group::pt_ok(data@.subrange(pos + 96, pos + 128))
                || !crate::group::scalar_ok_bytes(data@.subrange(pos + 128, pos + 160))
                || !crate::group::scalar_ok_bytes(data@.subrange(pos + 160, pos + 192))
                || !crate::group::scalar_ok_bytes(data@.subrange(pos + 192, pos + 224)),
    {
        let (init_y1, p1) = match crate::codec::read_point(data, pos) {
            Some(v) => v,
            None => {
                return None;
            },
        };
        let (init_x1, p2) = match crate::codec::read_point(data, p1) {
            Some(v) => v,
            None => {
                return None;
            },
        };
        let (init_y2, p3) = match crate::codec::read_point(data, p2) {
            Some(v) => v,
            None => {
                return None;
            },
        };
        let (init_x2, p4) = match crate::codec::read_point(data, p3) {
            Some(v) => v,
            None => {
                return None;
            },
        };
        let (z0, p5) = match crate::codec::read_scalar(data, p4) {
            Some(v) => v,
            None => {
                return None;
            },
        };
        let (z1, p6) = match crate::codec::read_scalar(data, p5) {
            Some(v) => v,
            None => {
                return None;
            },
        };
        let (z2, p7) = match crate::codec::read_scalar(data, p6) {
            Some(v) => v,
            None => {
                return None;
            },
        };
        let p = CipherEqualityProof { init_y1, init_x1, init_y2, init_x2, z0, z1, z2 };
        proof {
            assert(data@.subrange(pos as int, pos + 224) =~= equality_proof_enc(p));
        }
        Some((p, p7))
    }
}

impl InitializedAssetTx {
    /// The canonical byte encoding of the signed content.
    pub fn encode_content(&self) -> (r: Vec<u8>)
        ensures
            r@ == asset_content_enc(*self),
    {
        let mut out: Vec<u8> = Vec::new();
        push_u32(&mut out, self.account_id);
        push_u32(&mut out, self.amount);
        self.enc_issued_amount.encode_into(&mut out);
        self.enc_issued_amount_mdtr.encode_into(&mut out);
        self.amount_correctness.encode_into(&mut out);
        self.amount_equality.encode_into(&mut out);
        proof {
            assert(out@ =~= asset_content_enc(*self));
        }
        out
    }

    /// The bytes the mediator signs: content plus the issuer's signature.
    pub fn encode_justification(&self) -> (r: Vec<u8>)
        ensures
            r@ == asset_justification_enc(*self),
    {
        let mut out = self.encode_content();
        let sig = self.sig.to_bytes();
        push_bytes64(&mut out, &sig);
        proof {
            assert(out@ =~= asset_justification_enc(*self));
        }
        out
    }
}

/// Every group element of a correctness proof is canonically encoded.
pub open spec fn corr_proof_ok(p: CorrectnessProof) -> bool {
    &&& crate::group::pt_ok(p.init.a@)
    &&& crate::group::pt_ok(p.init.b@)
    &&& crate::group::scalar_ok_bytes(p.response@)
}

/// Every group element of an equality proof is canonically encoded.
pub open spec fn eq_proof_ok(p: CipherEqualityProof) -> bool {
    &&& crate::group::pt_ok(p.init_y1@)
    &&& crate::group::pt_ok(p.init_x1@)
    &&& crate::group::pt_ok(p.init_y2@)
    &&& crate::group::pt_ok(p.init_x2@)
    &&& crate::group::scalar_ok_bytes(p.z0@)
    &&& crate::group::scalar_ok_bytes(p.z1@)
    &&& crate::group::scalar_ok_bytes(p.z2@)
}

/// Every group element of a justified issuance is canonically encoded and
/// both signatures have their wire width.
pub open spec fn justified_asset_pts_ok(tx: JustifiedAssetTx) -> bool {
    &&& crate::account::ct_pts_ok(tx.content.enc_issued_amount)
    &&& crate::account::ct_pts_ok(tx.content.enc_issued_amount_mdtr)
    &&& corr_proof_ok(tx.content.amount_correctness)
    &&& eq_proof_ok(tx.content.amount_equality)
    &&& tx.content.sig@.len() == 64
    &&& tx.sig@.len() == 64
}

/// The encoding of a whole justified issuance: the content, then both
/// signatures.
pub open spec fn justified_asset_enc(tx: JustifiedAssetTx) -> Seq<u8> {
    asset_justification_enc(tx.content) + tx.sig@
}

impl JustifiedAssetTx {
    /// The canonical byte encoding.
    pub fn encode(&self) -> (r: Vec<u8>)
        ensures
            r@ == justified_asset_enc(*self),
    {
        let mut out = self.content.encode_justification();
        let sig = self.sig.to_bytes();
        push_bytes64(&mut out, &sig);
        proof {
            assert(out@ =~= justified_asset_enc(*self));
        }
        out
    }

    /// Decode a whole buffer holding exactly one justified issuance; on the
    /// encoding of any well-formed issuance it succeeds, so decoding undoes
    /// encoding.
    pub fn decode(data: &Vec<u8>) -> (r: Option<JustifiedAssetTx>)
        ensures
            r matches Some(tx) ==> data@ == justified_asset_enc(tx),
            forall|x: JustifiedAssetTx| data@ == #[trigger] justified_asset_enc(x)
                && justified_asset_pts_ok(x) ==> r is Some,
    {
        proof {
            assert forall|x: JustifiedAssetTx| data@ == #[trigger] justified_asset_enc(x)
                && justified_asset_pts_ok(x) implies data@.len() == 584 && crate::group::pt_ok(
                data@.subrange(8, 40),
            ) && crate::group::pt_ok(data@.subrange(40, 72)) && crate::group::pt_ok(
                data@.subrange(72, 104),
            ) && crate::group::pt_ok(data@.subrange(104, 136)) && crate::group::pt_ok(
                data@.subrange(136, 168),
            ) && crate::group::pt_ok(data@.subrange(168, 200)) && crate::group::scalar_ok_bytes(
                data@.subrange(200, 232),
            ) && crate::group::pt_ok(data@.subrange(232, 264)) && crate::group::pt_ok(
                data@.subrange(264, 296),
            ) && crate::group::pt_ok(data@.subrange(296, 328)) && crate::group::pt_ok(
                data@.subrange(328, 360),
            ) && crate::group::scalar_ok_bytes(data@.subrange(360, 392))
                && crate::group::scalar_ok_bytes(data@.subrange(392, 424))
                && crate::group::scalar_ok_bytes(data@.subrange(424, 456)) by {
                assert(x.content.enc_issued_amount.x@ =~= data@.subrange(8, 40));
                assert(x.content.enc_issued_amount.y@ =~= data@.subrange(40, 72));
                assert(x.content.enc_issued_amount_mdtr.x@ =~= data@.subrange(72, 104));
                assert(x.content.enc_issued_amount_mdtr.y@ =~= data@.subrange(104, 136));
                assert(x.content.amount_correctness.init.a@ =~= data@.subrange(136, 168));
                assert(x.content.amount_correctness.init.b@ =~= data@.subrange(168, 200));
                assert(x.content.amount_correctness.response@ =~= data@.subrange(200, 232));
                assert(x.content.amount_equality.init_y1@ =~= data@.subrange(232, 264));
                assert(x.content.amount_equality.init_x1@ =~= data@.subrange(264, 296));
                assert(x.content.amount_equality.init_y2@ =~= data@.subrange(296, 328));
                assert(x.content.amount_equality.init_x2@ =~= data@.subrange(328, 360));
                assert(x.content.amount_equality.z0@ =~= data@.subrange(360, 392));
                assert(x.content.amount_equality.z1@ =~= data@.subrange(392, 424));
                assert(x.content.amount_equality.z2@ =~= data@.subrange(424, 456));
            }
        }
        let (account_id, p1) = match crate::codec::read_u32(data, 0) {
            Some(v) => v,
            None => {
                return None;
            },
        };
        let (amount, p2) = match crate::codec::read_u32(data, p1) {
            Some(v) => v,
            None => {
                return None;
            },
        };
        let (enc_issued_amount, p3) = match CipherText::decode_from(data, p2) {
            Some(v) => v,
            None => {
                return None;
            },
        };
        let (enc_issued_amount_mdtr, p4) = match CipherText::decode_from(data, p3) {
            Some(v) => v,
            None => {
                return None;
            },
        };
        let (amount_correctness, p5) = match CorrectnessProof::decode_from(data, p4) {
            Some(v) => v,
            None => {
                return None;
            },
        };
        let (amount_equality, p6) = match CipherEqualityProof::decode_from(data, p5) {
            Some(v) => v,
            None => {
                return None;
            },
        };
        let (sig_issuer, p7) = match crate::codec::read_bytes64(data, p6) {
            Some(v) => v,
            None => {
                return None;
            },
        };
        let (sig_mdtr, p8) = match crate::codec::read_bytes64(data, p7) {
            Some(v) => v,
            None => {
                return None;
            },
        };
        if p8 != data.len() {
            return None;
        }
        let tx = JustifiedAssetTx {
            content: InitializedAssetTx {
                account_id,
                amount,
                enc_issued_amount,
                enc_issued_amount_mdtr,
                amount_correctness,
                amount_equality,
                sig: Signature::from_bytes(sig_issuer),
            },
            sig: Signature::from_bytes(sig_mdtr),
        };
        proof {
            assert(data@ =~= justified_asset_enc(tx));
        }
        Some(tx)
    }
}

/// The issuer's message convinces: both proofs hold and the issuer signed
/// the content.
pub open spec fn asset_init_valid(
    beta: int,
    issuer_sign_pk: Seq<u8>,
    issuer_enc_pk: ElgamalPublicKey,
    mdtr_enc_pk: ElgamalPublicKey,
    tx: InitializedAssetTx,
) -> bool {
    &&& correctness_valid(
        beta,
        issuer_enc_pk,
        tx.enc_issued_amount,
        tx.amount_correctness,
        tx.amount as int,
    )
    &&& equality_valid(
        beta,
        issuer_enc_pk,
        tx.enc_issued_amount,
        mdtr_enc_pk,
        tx.enc_issued_amount_mdtr,
        tx.amount_equality,
    )
    &&& sig_verifies(issuer_sign_pk, ASSET_SIG_CONTEXT@, asset_content_enc(tx), tx.sig@)
}

/// The justified message additionally carries the mediator's signature over
/// the issuer's content and signature.
pub open spec fn asset_justified_valid(
    beta: int,
    issuer_sign_pk: Seq<u8>,
    issuer_enc_pk: ElgamalPublicKey,
    mdtr_enc_pk: ElgamalPublicKey,
    mdtr_sign_pk: Seq<u8>,
    tx: JustifiedAssetTx,
) -> bool {
    &&& asset_init_valid(beta, issuer_sign_pk, issuer_enc_pk, mdtr_enc_pk, tx.content)
    &&& sig_verifies(
        mdtr_sign_pk,
        ASSET_SIG_CONTEXT@,
        asset_justification_enc(tx.content),
        tx.sig@,
    )
}

/// Initialize an issuance: encrypt the amount twice, prove correctness and
/// equality, and sign the content.
pub fn initialize_asset_tx(
    account_id: u32,
    amount: u32,
    issuer: &SecAccount,
    mdtr_enc_pk: &ElgamalPublicKey,
    gens: &PedGens,
    rng: &mut rand::rngs::StdRng,
) -> (r: Result<InitializedAssetTx, MercatError>)
    ensures
        r matches Ok(tx) ==> {
            &&& tx.account_id == account_id
            &&& tx.amount == amount
            &&& (issuer.enc_keys.pblc.pub_key.log() == gmod(
                issuer.enc_keys.scrt.secret_val() * gens.blinding_log(),
            ) ==> ct_dec(issuer.enc_keys.scrt.secret_val(), tx.enc_issued_amount)
                == amount as int)
            &&& (exists|rm: int|
                is_enc(
                    gens.blinding_log(),
                    mdtr_enc_pk.pub_key.log(),
                    amount as int,
                    rm,
                    tx.enc_issued_amount_mdtr,
                ))
            &&& asset_init_valid(
                gens.blinding_log(),
                issuer.sign_keys.public_view(),
                issuer.enc_keys.pblc,
                *mdtr_enc_pk,
                tx,
            )
        },
{
    let pk = issuer.enc_keys.pblc;
    let w1 = CommitmentWitness::from_u32(amount, scalar_random(rng));
    let ct1 = pk.encrypt(&w1, gens);
    let w2 = CommitmentWitness::from_u32(amount, scalar_random(rng));
    let ct2 = mdtr_enc_pk.encrypt(&w2, gens);
    let amount_correctness = prove_correctness(amount, &w1, &pk, &ct1, gens, rng)?;
    let amount_equality = prove_equality(
        amount,
        w1.blinding(),
        w2.blinding(),
        &pk,
        &ct1,
        mdtr_enc_pk,
        &ct2,
        gens,
        rng,
    )?;
    let mut tx = InitializedAssetTx {
        account_id,
        amount,
        enc_issued_amount: ct1,
        enc_issued_amount_mdtr: ct2,
        amount_correctness,
        amount_equality,
        sig: Signature::from_bytes([0; 64]),
    };
    let message = tx.encode_content();
    tx.sig = sign(&issuer.sign_keys, ASSET_SIG_CONTEXT, message.as_slice());
    proof {
        if pk.pub_key.log() == gmod(issuer.enc_keys.scrt.secret_val() * gens.blinding_log()) {
            crate::elgamal::lemma_encrypt_then_decrypt(
                gens.blinding_log(),
                issuer.enc_keys.scrt.secret_val(),
                pk.pub_key.log(),
                amount as int,
                w1.blinding_val(),
                ct1,
            );
        }
        assert(exists|rm: int|
            is_enc(
                gens.blinding_log(),
                mdtr_enc_pk.pub_key.log(),
                amount as int,
                rm,
                tx.enc_issued_amount_mdtr,
            )) by {
            assert(is_enc(
                gens.blinding_log(),
                mdtr_enc_pk.pub_key.log(),
                amount as int,
                w2.blinding_val(),
                tx.enc_issued_amount_mdtr,
            ));
        }
    }
    Ok(tx)
}

/// Justify an issuance: decrypt the mediator's copy of the amount, check it
/// against the declared amount and the issuer's signature and proofs, and
/// counter-sign.
pub fn justify_asset_issuance(
    tx: InitializedAssetTx,
    issuer_account: &PubAccount,
    mdtr: &MediatorAccount,
    decryptor: &Decryptor,
    gens: &PedGens,
) -> (r: Result<JustifiedAssetTx, MercatError>)
    ensures
        r is Ok <==> {
            &&& ct_dec(mdtr.encryption_key.scrt.secret_val(), tx.enc_issued_amount_mdtr)
                == tx.amount as int
            &&& asset_init_valid(
                gens.blinding_log(),
                issuer_account.memo.owner_sign_pub_key@,
                issuer_account.memo.owner_enc_pub_key,
                mdtr.encryption_key.pblc,
                tx,
            )
        },
        r matches Ok(jtx) ==> jtx.content == tx && sig_verifies(
            mdtr.signing_key.public_view(),
            ASSET_SIG_CONTEXT@,
            asset_justification_enc(tx),
            jtx.sig@,
        ),
{
    let mdtr_pk = mdtr.encryption_key.pblc;
    match decryptor.decrypt(&mdtr.encryption_key.scrt, &tx.enc_issued_amount_mdtr) {
        Ok(v) => {
            if v != tx.amount {
                return Err(MercatError::AmountMismatch);
            }
        },
        Err(_) => {
            return Err(MercatError::AmountMismatch);
        },
    }
    let message = tx.encode_content();
    if !verify_signature(
        &issuer_account.memo.owner_sign_pub_key,
        ASSET_SIG_CONTEXT,
        message.as_slice(),
        &tx.sig,
    ) {
        return Err(MercatError::SignatureVerificationError);
    }
    verify_correctness(
        tx.amount,
        &issuer_account.memo.owner_enc_pub_key,
        &tx.enc_issued_amount,
        gens,
        &tx.amount_correctness,
    )?;
    verify_equality(
        &issuer_account.memo.owner_enc_pub_key,
        &tx.enc_issued_amount,
        &mdtr_pk,
        &tx.enc_issued_amount_mdtr,
        gens,
        &tx.amount_equality,
    )?;
    let to_sign = tx.encode_justification();
    let sig = sign(&mdtr.signing_key, ASSET_SIG_CONTEXT, to_sign.as_slice());
    Ok(JustifiedAssetTx { content: tx, sig })
}

/// Validate a justified issuance: check both signatures, the account id and
/// both proofs, then add the issued amount to the issuer's encrypted
/// balance.
pub fn validate_asset_issuance(
    jtx: &JustifiedAssetTx,
    issuer_account: &PubAccount,
    mdtr_enc_pk: &ElgamalPublicKey,
    mdtr_sign_pk: &SigningPubKey,
    gens: &PedGens,
) -> (r: Result<PubAccount, MercatError>)
    ensures
        r is Ok <==> jtx.content.account_id == issuer_account.id && asset_justified_valid(
            gens.blinding_log(),
            issuer_account.memo.owner_sign_pub_key@,
            issuer_account.memo.owner_enc_pub_key,
            *mdtr_enc_pk,
            mdtr_sign_pk@,
            *jtx,
        ),
        r matches Ok(acc) ==> {
            &&& acc.id == issuer_account.id
            &&& acc.enc_asset_id == issuer_account.enc_asset_id
            &&& acc.memo == issuer_account.memo
            &&& acc.enc_balance.x.log() == gmod(
                issuer_account.enc_balance.x.log() + jtx.content.enc_issued_amount.x.log(),
            )
            &&& acc.enc_balance.y.log() == gmod(
                issuer_account.enc_balance.y.log() + jtx.content.enc_issued_amount.y.log(),
            )
        },
{
    if jtx.content.account_id != issuer_account.id {
        return Err(MercatError::AccountIdMismatch);
    }
    let message = jtx.content.encode_content();
    if !verify_signature(
        &issuer_account.memo.owner_sign_pub_key,
        ASSET_SIG_CONTEXT,
        message.as_slice(),
        &jtx.content.sig,
    ) {
        return Err(MercatError::SignatureVerificationError);
    }
    let justification = jtx.content.encode_justification();
    if !verify_signature(mdtr_sign_pk, ASSET_SIG_CONTEXT, justification.as_slice(), &jtx.sig) {
        return Err(MercatError::SignatureVerificationError);
    }
    verify_correctness(
        jtx.content.amount,
        &issuer_account.memo.owner_enc_pub_key,
        &jtx.content.enc_issued_amount,
        gens,
        &jtx.content.amount_correctness,
    )?;
    verify_equality(
        &issuer_account.memo.owner_enc_pub_key,
        &jtx.content.enc_issued_amount,
        mdtr_enc_pk,
        &jtx.content.enc_issued_amount_mdtr,
        gens,
        &jtx.content.amount_equality,
    )?;
    let enc_balance = issuer_account.enc_balance.hom_add(&jtx.content.enc_issued_amount);
    Ok(
        PubAccount {
            id: issuer_account.id,
            enc_asset_id: issuer_account.enc_asset_id,
            enc_balance,
            memo: issuer_account.memo,
        },
    )
}

} // verus!
