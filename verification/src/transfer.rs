//! Confidential transfer: the sender encrypts the amount for all three
//! parties, re-blinds its remaining balance, and proves everything in range
//! and consistent; the receiver confirms the amount; the mediator decrypts
//! and counter-signs; the validator checks every proof and signature and
//! moves the encrypted amount between the two accounts.

use vstd::prelude::*;

use crate::account::{ct_enc, PubAccount, SecAccount, MediatorAccount};
use crate::asset::equality_proof_enc;
use crate::codec::{bytes_enc, push_bytes, push_bytes32, push_bytes64, push_u32, u32_le};
use crate::decrypt::Decryptor;
use crate::elgamal::{ct_dec, is_enc, CipherText, CommitmentWitness, ElgamalPublicKey};
use crate::equality::{equality_valid, prove_equality, verify_equality, CipherEqualityProof};
use crate::errors::MercatError;
use crate::group::{base_repr, pt_ok, scalar_random, PedGens, Point};
use crate::math::lemma_gmod_small;
use crate::rangeproof::{range_ok, range_prove, range_verify, InRangeProof};
use crate::refresh::{
    prove_refreshment, refreshment_valid, verify_refreshment, RefreshmentProof,
};
use crate::signing::{sig_verifies, sign, verify_signature, Signature, SigningPubKey};
use crate::wellformedness::{
    prove_wellformedness, verify_wellformedness, wellformedness_valid, WellformednessProof,
};
use crate::{gmod, group_order};

verus! {

/// The signing context every transfer message is signed under.
pub const TX_SIG_CONTEXT: &'static str = "mercat/transaction";

/// The public content of a transfer: the two account ids and the four
/// ciphertexts the protocol moves.
pub struct TransferTxMemo {
    pub sndr_account_id: u32,
    pub rcvr_account_id: u32,
    pub enc_amount_using_sndr: CipherText,
    pub enc_amount_using_rcvr: CipherText,
    pub enc_amount_using_mdtr: CipherText,
    pub enc_refreshed_balance: CipherText,
}

/// The sender's opening move: the memo and the full proof bundle.
pub struct InitializedTransferTx {
    pub memo: TransferTxMemo,
    pub amount_range: InRangeProof,
    pub amount_wellformedness: WellformednessProof,
    pub refreshed_range: InRangeProof,
    pub refreshed_wellformedness: WellformednessProof,
    pub amount_eq_rcvr: CipherEqualityProof,
    pub amount_eq_mdtr: CipherEqualityProof,
    pub balance_refresh: RefreshmentProof,
    pub sig: Signature,
}

/// The receiver's confirmation: the sender's message counter-signed.
pub struct FinalizedTransferTx {
    pub init_data: InitializedTransferTx,
    pub sig: Signature,
}

/// The mediator's justification: the finalized message counter-signed.
pub struct JustifiedTransferTx {
    pub content: FinalizedTransferTx,
    pub sig: Signature,
}

/// The encoding of a transfer memo.
pub open spec fn transfer_memo_enc(m: TransferTxMemo) -> Seq<u8> {
    u32_le(m.sndr_account_id) + u32_le(m.rcvr_account_id) + ct_enc(m.enc_amount_using_sndr)
        + ct_enc(m.enc_amount_using_rcvr) + ct_enc(m.enc_amount_using_mdtr) + ct_enc(
        m.enc_refreshed_balance,
    )
}

/// The encoding of a well-formedness proof.
pub open spec fn wf_proof_enc(p: WellformednessProof) -> Seq<u8> {
    p.init_y@ + p.init_x@ + p.init_v@ + p.z1@ + p.z2@ + p.z3@
}

/// The encoding of a refreshment proof.
pub open spec fn refresh_proof_enc(p: RefreshmentProof) -> Seq<u8> {
    p.init_a@ + p.init_b@ + p.z@
}

/// The encoding of a range proof: its commitment, then its bytes.
pub open spec fn range_proof_enc(p: InRangeProof) -> Seq<u8> {
    p.commitment@ + bytes_enc(p.proof@)
}

/// The encoding of the sender's content, the bytes the sender signs.
pub open spec fn transfer_content_enc(tx: InitializedTransferTx) -> Seq<u8> {
    transfer_memo_enc(tx.memo) + range_proof_enc(tx.amount_range) + wf_proof_enc(
        tx.amount_wellformedness,
    ) + range_proof_enc(tx.refreshed_range) + wf_proof_enc(tx.refreshed_wellformedness)
        + equality_proof_enc(tx.amount_eq_rcvr) + equality_proof_enc(tx.amount_eq_mdtr)
        + refresh_proof_enc(tx.balance_refresh)
}

/// The bytes the receiver signs: the sender's content and signature.
pub open spec fn transfer_finalization_enc(tx: InitializedTransferTx) -> Seq<u8> {
    transfer_content_enc(tx) + tx.sig@
}

/// The bytes the mediator signs: the finalized content and both signatures.
pub open spec fn transfer_justification_enc(ftx: FinalizedTransferTx) -> Seq<u8> {
    transfer_finalization_enc(ftx.init_data) + ftx.sig@
}

impl WellformednessProof {
    pub fn encode_into(&self, out: &mut Vec<u8>)
        ensures
            final(out)@ == old(out)@ + wf_proof_enc(*self),
    {
        let iy = self.init_y.to_bytes();
        let ix = self.init_x.to_bytes();
        let iv = self.init_v.to_bytes();
        let z1 = self.z1.to_bytes();
        let z2 = self.z2.to_bytes();
        let z3 = self.z3.to_bytes();
        push_bytes32(out, &iy);
        push_bytes32(out, &ix);
        push_bytes32(out, &iv);
        push_bytes32(out, &z1);
        push_bytes32(out, &z2);
        push_bytes32(out, &z3);
        proof {
            assert(out@ =~= old(out)@ + wf_proof_enc(*self));
        }
    }
}

impl RefreshmentProof {
    pub fn encode_into(&self, out: &mut Vec<u8>)
        ensures
            final(out)@ == old(out)@ + refresh_proof_enc(*self),
    {
        let ia = self.init_a.to_bytes();
        let ib = self.init_b.to_bytes();
        let z = self.z.to_bytes();
        push_bytes32(out, &ia);
        push_bytes32(out, &ib);
        push_bytes32(out, &z);
        proof {
            assert(out@ =~= old(out)@ + refresh_proof_enc(*self));
        }
    }
}

impl InRangeProof {
    pub fn encode_into(&self, out: &mut Vec<u8>)
        requires
            self.proof@.len() <= u32::MAX,
        ensures
            final(out)@ == old(out)@ + range_proof_enc(*self),
    {
        let cb = self.commitment.to_bytes();
        push_bytes32(out, &cb);
        push_bytes(out, &self.proof);
        proof {
            assert(out@ =~= old(out)@ + range_proof_enc(*self));
        }
    }
}

impl TransferTxMemo {
    pub fn encode_into(&self, out: &mut Vec<u8>)
        ensures
            final(out)@ == old(out)@ + transfer_memo_enc(*self),
    {
        push_u32(out, self.sndr_account_id);
        push_u32(out, self.rcvr_account_id);
        self.enc_amount_using_sndr.encode_into(out);
        self.enc_amount_using_rcvr.encode_into(out);
        self.enc_amount_using_mdtr.encode_into(out);
        self.enc_refreshed_balance.encode_into(out);
        proof {
            assert(out@ =~= old(out)@ + transfer_memo_enc(*self));
        }
    }
}

impl WellformednessProof {
    /// Read a well-formedness proof at `pos`.
    pub fn decode_from(data: &Vec<u8>, pos: usize) -> (r: Option<(WellformednessProof, usize)>)
        ensures
            r matches Some((p, p2)) ==> p2 == pos + 192 && p2 <= data@.len() && data@.subrange(
                pos as int,
                p2 as int,
            ) == wf_proof_enc(p),
    {
        let (init_y, p1) = match crate::codec::read_point(data, pos) {
            Some(v) => v,
            None => {
                return None;
            },
        };
        let (init_x, p2) = match crate::codec::read_point(data, p1) {
            Some(v) => v,
            None => {
                return None;
            },
        };
        let (init_v, p3) = match crate::codec::read_point(data, p2) {
            Some(v) => v,
            None => {
                return None;
            },
        };
        let (z1, p4) = match crate::codec::read_scalar(data, p3) {
            Some(v) => v,
            None => {
                return None;
            },
        };
        let (z2, p5) = match crate::codec::read_scalar(data, p4) {
            Some(v) => v,
            None => {
                return None;
            },
        };
        let (z3, p6) = match crate::codec::read_scalar(data, p5) {
            Some(v) => v,
            None => {
                return None;
            },
        };
        let p = WellformednessProof { init_y, init_x, init_v, z1, z2, z3 };
        proof {
            assert(data@.subrange(pos as int, pos + 192) =~= wf_proof_enc(p));
        }
        Some((p, p6))
    }
}

impl RefreshmentProof {
    /// Read a refreshment proof at `pos`.
    pub fn decode_from(data: &Vec<u8>, pos: usize) -> (r: Option<(RefreshmentProof, usize)>)
        ensures
            r matches Some((p, p2)) ==> p2 == pos + 96 && p2 <= data@.len() && data@.subrange(
                pos as int,
                p2 as int,
            ) == refresh_proof_enc(p),
    {
        let (init_a, p1) = match crate::codec::read_point(data, pos) {
            Some(v) => v,
            None => {
                return None;
            },
        };
        let (init_b, p2) = match crate::codec::read_point(data, p1) {
            Some(v) => v,
            None => {
                return None;
            },
        };
        let (z, p3) = match crate::codec::read_scalar(data, p2) {
            Some(v) => v,
            None => {
                return None;
            },
        };
        let p = RefreshmentProof { init_a, init_b, z };
        proof {
            assert(data@.subrange(pos as int, pos + 96) =~= refresh_proof_enc(p));
        }
        Some((p, p3))
    }
}

impl InRangeProof {
    /// Read a range proof at `pos`.
    pub fn decode_from(data: &Vec<u8>, pos: usize) -> (r: Option<(InRangeProof, usize)>)
        ensures
            r matches Some((p, p2)) ==> pos <= p2 <= data@.len() && data@.subrange(
                pos as int,
                p2 as int,
            ) == range_proof_enc(p) && p.proof@.len() <= u32::MAX,
    {
        let (commitment, p1) = match crate::codec::read_point(data, pos) {
            Some(v) => v,
            None => {
                return None;
            },
        };
        let (proof, p2) = match crate::codec::read_bytes(data, p1) {
            Some(v) => v,
            None => {
                return None;
            },
        };
        let p = InRangeProof { proof, commitment };
        proof {
            assert(data@.subrange(pos as int, p2 as int) =~= range_proof_enc(p));
        }
        Some((p, p2))
    }
}

impl TransferTxMemo {
    /// Read a transfer memo at `pos`.
    pub fn decode_from(data: &Vec<u8>, pos: usize) -> (r: Option<(TransferTxMemo, usize)>)
        ensures
            r matches Some((m, p2)) ==> p2 == pos + 264 && p2 <= data@.len() && data@.subrange(
                pos as int,
                p2 as int,
            ) == transfer_memo_enc(m),
    {
        let (sndr_account_id, p1) = match crate::codec::read_u32(data, pos) {
            Some(v) => v,
            None => {
                return None;
            },
        };
        let (rcvr_account_id, p2) = match crate::codec::read_u32(data, p1) {
            Some(v) => v,
            None => {
                return None;
            },
        };
        let (enc_amount_using_sndr, p3) = match CipherText::decode_from(data, p2) {
            Some(v) => v,
            None => {
                return None;
            },
        };
        let (enc_amount_using_rcvr, p4) = match CipherText::decode_from(data, p3) {
            Some(v) => v,
            None => {
                return None;
            },
        };
        let (enc_amount_using_mdtr, p5) = match CipherText::decode_from(data, p4) {
            Some(v) => v,
            None => {
                return None;
            },
        };
        let (enc_refreshed_balance, p6) = match CipherText::decode_from(data, p5) {
            Some(v) => v,
            None => {
                return None;
            },
        };
        let m = TransferTxMemo {
            sndr_account_id,
            rcvr_account_id,
            enc_amount_using_sndr,
            enc_amount_using_rcvr,
            enc_amount_using_mdtr,
            enc_refreshed_balance,
        };
        proof {
            assert(data@.subrange(pos as int, pos + 264) =~= transfer_memo_enc(m));
        }
        Some((m, p6))
    }
}

impl InitializedTransferTx {
    /// The canonical byte encoding of the signed content.
    pub fn encode_content(&self) -> (r: Vec<u8>)
        requires
            self.amount_range.proof@.len() <= u32::MAX,
            self.refreshed_range.proof@.len() <= u32::MAX,
        ensures
            r@ == transfer_content_enc(*self),
    {
        let mut out: Vec<u8> = Vec::new();
        self.memo.encode_into(&mut out);
        self.amount_range.encode_into(&mut out);
        self.amount_wellformedness.encode_into(&mut out);
        self.refreshed_range.encode_into(&mut out);
        self.refreshed_wellformedness.encode_into(&mut out);
        self.amount_eq_rcvr.encode_into(&mut out);
        self.amount_eq_mdtr.encode_into(&mut out);
        self.balance_refresh.encode_into(&mut out);
        proof {
            assert(out@ =~= transfer_content_enc(*self));
        }
        out
    }

    /// The bytes the receiver signs: content plus the sender's signature.
    pub fn encode_finalization(&self) -> (r: Vec<u8>)
        requires
            self.amount_range.proof@.len() <= u32::MAX,
            self.refreshed_range.proof@.len() <= u32::MAX,
        ensures
            r@ == transfer_finalization_enc(*self),
    {
        let mut out = self.encode_content();
        let sig = self.sig.to_bytes();
        push_bytes64(&mut out, &sig);
        proof {
            assert(out@ =~= transfer_finalization_enc(*self));
        }
        out
    }
}

impl FinalizedTransferTx {
    /// The bytes the mediator signs: finalization plus the receiver's
    /// signature.
    pub fn encode_justification(&self) -> (r: Vec<u8>)
        requires
            self.init_data.amount_range.proof@.len() <= u32::MAX,
            self.init_data.refreshed_range.proof@.len() <= u32::MAX,
        ensures
            r@ == transfer_justification_enc(*self),
    {
        let mut out = self.init_data.encode_finalization();
        let sig = self.sig.to_bytes();
        push_bytes64(&mut out, &sig);
        proof {
            assert(out@ =~= transfer_justification_enc(*self));
        }
        out
    }
}

/// The encoding of a whole justified transfer: the justification, then the
/// mediator's signature.
pub open spec fn justified_transfer_enc(jtx: JustifiedTransferTx) -> Seq<u8> {
    transfer_justification_enc(jtx.content) + jtx.sig@
}

impl JustifiedTransferTx {
    /// The canonical byte encoding.
    pub fn encode(&self) -> (r: Vec<u8>)
        requires
            self.content.init_data.amount_range.proof@.len() <= u32::MAX,
            self.content.init_data.refreshed_range.proof@.len() <= u32::MAX,
        ensures
            r@ == justified_transfer_enc(*self),
    {
        let mut out = self.content.encode_justification();
        let sig = self.sig.to_bytes();
        push_bytes64(&mut out, &sig);
        proof {
            assert(out@ =~= justified_transfer_enc(*self));
        }
        out
    }

    /// Decode a whole buffer holding exactly one justified transfer.
    pub fn decode(data: &Vec<u8>) -> (r: Option<JustifiedTransferTx>)
        ensures
            r matches Some(jtx) ==> data@ == justified_transfer_enc(jtx),
    {
        let (memo, p1) = match TransferTxMemo::decode_from(data, 0) {
            Some(v) => v,
            None => {
                return None;
            },
        };
        let (amount_range, p2) = match InRangeProof::decode_from(data, p1) {
            Some(v) => v,
            None => {
                return None;
            },
        };
        let (amount_wellformedness, p3) = match WellformednessProof::decode_from(data, p2) {
            Some(v) => v,
            None => {
                return None;
            },
        };
        let (refreshed_range, p4) = match InRangeProof::decode_from(data, p3) {
            Some(v) => v,
            None => {
                return None;
            },
        };
        let (refreshed_wellformedness, p5) = match WellformednessProof::decode_from(data, p4) {
            Some(v) => v,
            None => {
                return None;
            },
        };
        let (amount_eq_rcvr, p6) = match CipherEqualityProof::decode_from(data, p5) {
            Some(v) => v,
            None => {
                return None;
            },
        };
        let (amount_eq_mdtr, p7) = match CipherEqualityProof::decode_from(data, p6) {
            Some(v) => v,
            None => {
                return None;
            },
        };
        let (balance_refresh, p8) = match RefreshmentProof::decode_from(data, p7) {
            Some(v) => v,
            None => {
                return None;
            },
        };
        let (sig_sndr, p9) = match crate::codec::read_bytes64(data, p8) {
            Some(v) => v,
            None => {
                return None;
            },
        };
        let (sig_rcvr, p10) = match crate::codec::read_bytes64(data, p9) {
            Some(v) => v,
            None => {
                return None;
            },
        };
        let (sig_mdtr, p11) = match crate::codec::read_bytes64(data, p10) {
            Some(v) => v,
            None => {
                return None;
            },
        };
        if p11 != data.len() {
            return None;
        }
        let jtx = JustifiedTransferTx {
            content: FinalizedTransferTx {
                init_data: InitializedTransferTx {
                    memo,
                    amount_range,
                    amount_wellformedness,
                    refreshed_range,
                    refreshed_wellformedness,
                    amount_eq_rcvr,
                    amount_eq_mdtr,
                    balance_refresh,
                    sig: Signature::from_bytes(sig_sndr),
                },
                sig: Signature::from_bytes(sig_rcvr),
            },
            sig: Signature::from_bytes(sig_mdtr),
        };
        proof {
            assert(data@ =~= justified_transfer_enc(jtx));
        }
        Some(jtx)
    }
}

/// The logarithm of the `x` component of the difference ciphertext
/// `pending - amount - refreshed`, the ciphertext whose refreshment proof
/// ties the fresh balance to the pending balance; `px` is the pending
/// balance's `x` logarithm.
pub open spec fn diff_x_log(px: int, m: TransferTxMemo) -> int {
    gmod(gmod(px - m.enc_amount_using_sndr.x.log()) - m.enc_refreshed_balance.x.log())
}

/// The logarithm of the `y` component of the difference ciphertext.
pub open spec fn diff_y_log(py: int, m: TransferTxMemo) -> int {
    gmod(gmod(py - m.enc_amount_using_sndr.y.log()) - m.enc_refreshed_balance.y.log())
}

/// The refreshment proof of a transfer convinces, stated over the pending
/// balance and the memo alone: the difference ciphertext is determined by
/// their logarithms, since canonical encodings are.
pub open spec fn balance_refresh_valid(
    beta: int,
    pk: ElgamalPublicKey,
    px: int,
    py: int,
    m: TransferTxMemo,
    p: RefreshmentProof,
) -> bool {
    let c = crate::transcript::challenge_val(
        crate::refresh::refreshment_entries(
            pk.pub_key@,
            base_repr(diff_x_log(px, m)),
            base_repr(diff_y_log(py, m)),
            p.init_a@,
            p.init_b@,
        ),
        crate::refresh::REFRESHMENT_PROOF_CHALLENGE_LABEL@,
    );
    &&& pk.pub_key.log() != 0
    &&& diff_x_log(px, m) != 0
    &&& diff_y_log(py, m) != 0
    &&& p.init_a.log() != 0
    &&& p.init_b.log() != 0
    &&& crate::refresh::rf_check_a(
        diff_x_log(px, m),
        diff_y_log(py, m),
        p.init_a.log(),
        c,
        p.z.val(),
    )
    &&& crate::refresh::rf_check_b(beta, pk.pub_key.log(), p.init_b.log(), c, p.z.val())
}

/// For the concrete difference ciphertext the two validity statements
/// agree.
proof fn lemma_balance_refresh_bridge(
    beta: int,
    pk: ElgamalPublicKey,
    px: int,
    py: int,
    m: TransferTxMemo,
    diff: CipherText,
    p: RefreshmentProof,
)
    requires
        pt_ok(diff.x@),
        pt_ok(diff.y@),
        diff.x.log() == diff_x_log(px, m),
        diff.y.log() == diff_y_log(py, m),
    ensures
        refreshment_valid(beta, pk, diff, p) == balance_refresh_valid(beta, pk, px, py, m, p),
{
    assert(diff.x@ == base_repr(diff_x_log(px, m)));
    assert(diff.y@ == base_repr(diff_y_log(py, m)));
}

/// The deterministic part of what a sender's message must satisfy: both
/// well-formedness proofs, both equality proofs, the balance refreshment
/// and the sender's signature.
pub open spec fn transfer_init_checks(
    beta: int,
    sndr_sign_pk: Seq<u8>,
    sndr_pk: ElgamalPublicKey,
    rcvr_pk: ElgamalPublicKey,
    mdtr_pk: ElgamalPublicKey,
    px: int,
    py: int,
    tx: InitializedTransferTx,
) -> bool {
    &&& wellformedness_valid(
        beta,
        sndr_pk,
        tx.memo.enc_amount_using_sndr,
        tx.amount_range.commitment,
        tx.amount_wellformedness,
    )
    &&& wellformedness_valid(
        beta,
        sndr_pk,
        tx.memo.enc_refreshed_balance,
        tx.refreshed_range.commitment,
        tx.refreshed_wellformedness,
    )
    &&& equality_valid(
        beta,
        sndr_pk,
        tx.memo.enc_amount_using_sndr,
        rcvr_pk,
        tx.memo.enc_amount_using_rcvr,
        tx.amount_eq_rcvr,
    )
    &&& equality_valid(
        beta,
        sndr_pk,
        tx.memo.enc_amount_using_sndr,
        mdtr_pk,
        tx.memo.enc_amount_using_mdtr,
        tx.amount_eq_mdtr,
    )
    &&& balance_refresh_valid(beta, sndr_pk, px, py, tx.memo, tx.balance_refresh)
    &&& sig_verifies(sndr_sign_pk, TX_SIG_CONTEXT@, transfer_content_enc(tx), tx.sig@)
}

/// The sender's message convinces: the deterministic checks and both range
/// proofs hold.
pub open spec fn transfer_init_valid(
    beta: int,
    sndr_sign_pk: Seq<u8>,
    sndr_pk: ElgamalPublicKey,
    rcvr_pk: ElgamalPublicKey,
    mdtr_pk: ElgamalPublicKey,
    px: int,
    py: int,
    tx: InitializedTransferTx,
) -> bool {
    &&& transfer_init_checks(beta, sndr_sign_pk, sndr_pk, rcvr_pk, mdtr_pk, px, py, tx)
    &&& range_ok(tx.amount_range.proof@, tx.amount_range.commitment@)
    &&& range_ok(tx.refreshed_range.proof@, tx.refreshed_range.commitment@)
}

/// The deterministic part of what the validator checks of a justified
/// transfer: the sender-side checks and the receiver's and mediator's
/// signatures.
pub open spec fn transfer_justified_checks(
    beta: int,
    sndr_sign_pk: Seq<u8>,
    rcvr_sign_pk: Seq<u8>,
    mdtr_sign_pk: Seq<u8>,
    sndr_pk: ElgamalPublicKey,
    rcvr_pk: ElgamalPublicKey,
    mdtr_pk: ElgamalPublicKey,
    px: int,
    py: int,
    jtx: JustifiedTransferTx,
) -> bool {
    &&& transfer_init_checks(
        beta,
        sndr_sign_pk,
        sndr_pk,
        rcvr_pk,
        mdtr_pk,
        px,
        py,
        jtx.content.init_data,
    )
    &&& jtx.content.init_data.amount_range.proof@.len() <= u32::MAX
    &&& jtx.content.init_data.refreshed_range.proof@.len() <= u32::MAX
    &&& sig_verifies(
        rcvr_sign_pk,
        TX_SIG_CONTEXT@,
        transfer_finalization_enc(jtx.content.init_data),
        jtx.content.sig@,
    )
    &&& sig_verifies(
        mdtr_sign_pk,
        TX_SIG_CONTEXT@,
        transfer_justification_enc(jtx.content),
        jtx.sig@,
    )
}

/// A justified transfer convinces outright: the deterministic checks and
/// both range proofs hold.
pub open spec fn transfer_justified_valid(
    beta: int,
    sndr_sign_pk: Seq<u8>,
    rcvr_sign_pk: Seq<u8>,
    mdtr_sign_pk: Seq<u8>,
    sndr_pk: ElgamalPublicKey,
    rcvr_pk: ElgamalPublicKey,
    mdtr_pk: ElgamalPublicKey,
    px: int,
    py: int,
    jtx: JustifiedTransferTx,
) -> bool {
    &&& transfer_justified_checks(
        beta,
        sndr_sign_pk,
        rcvr_sign_pk,
        mdtr_sign_pk,
        sndr_pk,
        rcvr_pk,
        mdtr_pk,
        px,
        py,
        jtx,
    )
    &&& range_ok(
        jtx.content.init_data.amount_range.proof@,
        jtx.content.init_data.amount_range.commitment@,
    )
    &&& range_ok(
        jtx.content.init_data.refreshed_range.proof@,
        jtx.content.init_data.refreshed_range.commitment@,
    )
}

/// Initiate a transfer: decrypt the pending balance, refuse an overdraft,
/// encrypt the amount for all three parties, re-blind the remaining
/// balance, prove everything and sign.
pub fn create_transaction(
    sndr: &SecAccount,
    sndr_account: &PubAccount,
    rcvr_account: &PubAccount,
    mdtr_enc_pk: &ElgamalPublicKey,
    pending_balance: &CipherText,
    amount: u32,
    decryptor: &Decryptor,
    gens: &PedGens,
    rng: &mut rand::rngs::StdRng,
) -> (r: Result<InitializedTransferTx, MercatError>)
    ensures
        r matches Ok(tx) ==> {
            &&& tx.memo.sndr_account_id == sndr_account.id
            &&& tx.memo.rcvr_account_id == rcvr_account.id
            &&& ct_dec(sndr.enc_keys.scrt.secret_val(), *pending_balance) < 0x100000000
            &&& amount <= ct_dec(sndr.enc_keys.scrt.secret_val(), *pending_balance)
            &&& ct_dec(sndr.enc_keys.scrt.secret_val(), tx.memo.enc_amount_using_sndr)
                == amount as int
            &&& ct_dec(sndr.enc_keys.scrt.secret_val(), tx.memo.enc_refreshed_balance)
                == ct_dec(sndr.enc_keys.scrt.secret_val(), *pending_balance) - amount as int
            &&& (exists|rr: int|
                is_enc(
                    gens.blinding_log(),
                    rcvr_account.memo.owner_enc_pub_key.pub_key.log(),
                    amount as int,
                    rr,
                    tx.memo.enc_amount_using_rcvr,
                ))
            &&& (exists|rm: int|
                is_enc(
                    gens.blinding_log(),
                    mdtr_enc_pk.pub_key.log(),
                    amount as int,
                    rm,
                    tx.memo.enc_amount_using_mdtr,
                ))
            &&& transfer_init_valid(
                gens.blinding_log(),
                sndr.sign_keys.public_view(),
                sndr.enc_keys.pblc,
                rcvr_account.memo.owner_enc_pub_key,
                *mdtr_enc_pk,
                pending_balance.x.log(),
                pending_balance.y.log(),
                tx,
            )
        },
        r == Err::<InitializedTransferTx, MercatError>(MercatError::KeyMismatch)
            <==> sndr.enc_keys.pblc.pub_key.log() != gmod(
            sndr.enc_keys.scrt.secret_val() * gens.blinding_log(),
        ),
        sndr.enc_keys.pblc.pub_key.log() == gmod(
            sndr.enc_keys.scrt.secret_val() * gens.blinding_log(),
        ) ==> (r == Err::<InitializedTransferTx, MercatError>(MercatError::DecryptionOutOfRange)
            <==> ct_dec(sndr.enc_keys.scrt.secret_val(), *pending_balance) >= 0x100000000),
        (sndr.enc_keys.pblc.pub_key.log() == gmod(
            sndr.enc_keys.scrt.secret_val() * gens.blinding_log(),
        ) && ct_dec(sndr.enc_keys.scrt.secret_val(), *pending_balance) < 0x100000000) ==> (r
            == Err::<InitializedTransferTx, MercatError>(MercatError::NotEnoughBalance) <==> amount
            > ct_dec(sndr.enc_keys.scrt.secret_val(), *pending_balance)),
{
    let sk = &sndr.enc_keys.scrt;
    let pk = sndr.enc_keys.pblc;
    // The published key must be the one the secret derives, or nothing
    // below about decryption would hold.
    let derived = sk.get_public_key(gens);
    if !derived.pub_key.equals(&pk.pub_key) {
        return Err(MercatError::KeyMismatch);
    }
    let balance = match decryptor.decrypt(sk, pending_balance) {
        Ok(b) => b,
        Err(e) => {
            return Err(e);
        },
    };
    if amount > balance {
        return Err(MercatError::NotEnoughBalance);
    }
    let rcvr_pk = rcvr_account.memo.owner_enc_pub_key;
    // Encrypt the amount for each party.
    let w_sndr = CommitmentWitness::from_u32(amount, scalar_random(rng));
    let enc_amount_using_sndr = pk.encrypt(&w_sndr, gens);
    let w_rcvr = CommitmentWitness::from_u32(amount, scalar_random(rng));
    let enc_amount_using_rcvr = rcvr_pk.encrypt(&w_rcvr, gens);
    let w_mdtr = CommitmentWitness::from_u32(amount, scalar_random(rng));
    let enc_amount_using_mdtr = mdtr_enc_pk.encrypt(&w_mdtr, gens);
    // Re-blind the remaining balance.
    let w_fresh = CommitmentWitness::from_u32(balance - amount, scalar_random(rng));
    let enc_refreshed_balance = pk.encrypt(&w_fresh, gens);
    let memo = TransferTxMemo {
        sndr_account_id: sndr_account.id,
        rcvr_account_id: rcvr_account.id,
        enc_amount_using_sndr,
        enc_amount_using_rcvr,
        enc_amount_using_mdtr,
        enc_refreshed_balance,
    };
    // Range proofs and the well-formedness proofs tying them down.
    let b_amount = scalar_random(rng);
    let amount_range = range_prove(amount, &b_amount, gens, rng)?;
    let amount_wellformedness = prove_wellformedness(
        &w_sndr,
        &b_amount,
        &pk,
        &enc_amount_using_sndr,
        &amount_range.commitment,
        gens,
        rng,
    )?;
    let b_fresh = scalar_random(rng);
    let refreshed_range = range_prove(balance - amount, &b_fresh, gens, rng)?;
    let refreshed_wellformedness = prove_wellformedness(
        &w_fresh,
        &b_fresh,
        &pk,
        &enc_refreshed_balance,
        &refreshed_range.commitment,
        gens,
        rng,
    )?;
    // The three encryptions of the amount agree.
    let amount_eq_rcvr = prove_equality(
        amount,
        w_sndr.blinding(),
        w_rcvr.blinding(),
        &pk,
        &enc_amount_using_sndr,
        &rcvr_pk,
        &enc_amount_using_rcvr,
        gens,
        rng,
    )?;
    let amount_eq_mdtr = prove_equality(
        amount,
        w_sndr.blinding(),
        w_mdtr.blinding(),
        &pk,
        &enc_amount_using_sndr,
        mdtr_enc_pk,
        &enc_amount_using_mdtr,
        gens,
        rng,
    )?;
    // The fresh balance agrees with the pending balance less the amount.
    let diff1 = pending_balance.hom_sub(&enc_amount_using_sndr);
    let diff = diff1.hom_sub(&enc_refreshed_balance);
    proof {
        crate::elgamal::lemma_encrypt_then_decrypt(
            gens.blinding_log(),
            sk.secret_val(),
            pk.pub_key.log(),
            amount as int,
            w_sndr.blinding_val(),
            enc_amount_using_sndr,
        );
        crate::elgamal::lemma_encrypt_then_decrypt(
            gens.blinding_log(),
            sk.secret_val(),
            pk.pub_key.log(),
            (balance - amount) as int,
            w_fresh.blinding_val(),
            enc_refreshed_balance,
        );
        crate::elgamal::lemma_decrypt_hom_sub(
            sk.secret_val(),
            *pending_balance,
            enc_amount_using_sndr,
            diff1,
        );
        lemma_gmod_small(balance - amount);
        crate::elgamal::lemma_decrypt_hom_sub(sk.secret_val(), diff1, enc_refreshed_balance, diff);
        lemma_gmod_small(0);
    }
    let balance_refresh = prove_refreshment(sk, &pk, &diff, gens, rng)?;
    let mut tx = InitializedTransferTx {
        memo,
        amount_range,
        amount_wellformedness,
        refreshed_range,
        refreshed_wellformedness,
        amount_eq_rcvr,
        amount_eq_mdtr,
        balance_refresh,
        sig: Signature::from_bytes([0; 64]),
    };
    if tx.amount_range.proof.len() > 0xffffffff || tx.refreshed_range.proof.len() > 0xffffffff {
        return Err(MercatError::RangeProofVerificationError);
    }
    let message = tx.encode_content();
    tx.sig = sign(&sndr.sign_keys, TX_SIG_CONTEXT, message.as_slice());
    let dxp = diff.x;
    let dyp = diff.y;
    proof {
        use_type_invariant(dxp);
        Point::lemma_canonical(dxp);
        use_type_invariant(dyp);
        Point::lemma_canonical(dyp);
        lemma_balance_refresh_bridge(
            gens.blinding_log(),
            pk,
            pending_balance.x.log(),
            pending_balance.y.log(),
            tx.memo,
            diff,
            tx.balance_refresh,
        );
        assert(exists|rr: int|
            is_enc(
                gens.blinding_log(),
                rcvr_account.memo.owner_enc_pub_key.pub_key.log(),
                amount as int,
                rr,
                tx.memo.enc_amount_using_rcvr,
            )) by {
            assert(is_enc(
                gens.blinding_log(),
                rcvr_account.memo.owner_enc_pub_key.pub_key.log(),
                amount as int,
                w_rcvr.blinding_val(),
                tx.memo.enc_amount_using_rcvr,
            ));
        }
        assert(exists|rm: int|
            is_enc(
                gens.blinding_log(),
                mdtr_enc_pk.pub_key.log(),
                amount as int,
                rm,
                tx.memo.enc_amount_using_mdtr,
            )) by {
            assert(is_enc(
                gens.blinding_log(),
                mdtr_enc_pk.pub_key.log(),
                amount as int,
                w_mdtr.blinding_val(),
                tx.memo.enc_amount_using_mdtr,
            ));
        }
    }
    Ok(tx)
}

/// Finalize a transfer: check the sender's signature, confirm the amount
/// this receiver expects, and counter-sign.
pub fn finalize_transaction(
    tx: InitializedTransferTx,
    sndr_sign_pk: &SigningPubKey,
    rcvr: &SecAccount,
    amount: u32,
    decryptor: &Decryptor,
    gens: &PedGens,
) -> (r: Result<FinalizedTransferTx, MercatError>)
    ensures
        r is Ok <==> tx.amount_range.proof@.len() <= u32::MAX && tx.refreshed_range.proof@.len()
            <= u32::MAX && ct_dec(rcvr.enc_keys.scrt.secret_val(), tx.memo.enc_amount_using_rcvr)
            == amount as int && sig_verifies(
            sndr_sign_pk@,
            TX_SIG_CONTEXT@,
            transfer_content_enc(tx),
            tx.sig@,
        ),
        r matches Ok(ftx) ==> ftx.init_data == tx && sig_verifies(
            rcvr.sign_keys.public_view(),
            TX_SIG_CONTEXT@,
            transfer_finalization_enc(tx),
            ftx.sig@,
        ),
{
    if tx.amount_range.proof.len() > 0xffffffff || tx.refreshed_range.proof.len() > 0xffffffff {
        return Err(MercatError::RangeProofVerificationError);
    }
    match decryptor.decrypt(&rcvr.enc_keys.scrt, &tx.memo.enc_amount_using_rcvr) {
        Ok(v) => {
            if v != amount {
                return Err(MercatError::AmountMismatch);
            }
        },
        Err(_) => {
            return Err(MercatError::AmountMismatch);
        },
    }
    let message = tx.encode_content();
    if !verify_signature(sndr_sign_pk, TX_SIG_CONTEXT, message.as_slice(), &tx.sig) {
        return Err(MercatError::SignatureVerificationError);
    }
    let to_sign = tx.encode_finalization();
    let sig = sign(&rcvr.sign_keys, TX_SIG_CONTEXT, to_sign.as_slice());
    Ok(FinalizedTransferTx { init_data: tx, sig })
}

/// Justify a transfer: check both earlier signatures, decrypt the
/// mediator's copy of the amount, and counter-sign.
pub fn justify_asset_transaction(
    ftx: FinalizedTransferTx,
    mdtr: &MediatorAccount,
    sndr_sign_pk: &SigningPubKey,
    rcvr_sign_pk: &SigningPubKey,
    decryptor: &Decryptor,
    gens: &PedGens,
) -> (r: Result<JustifiedTransferTx, MercatError>)
    ensures
        r is Ok <==> ftx.init_data.amount_range.proof@.len() <= u32::MAX
            && ftx.init_data.refreshed_range.proof@.len() <= u32::MAX && ct_dec(
            mdtr.encryption_key.scrt.secret_val(),
            ftx.init_data.memo.enc_amount_using_mdtr,
        ) < 0x100000000 && sig_verifies(
            sndr_sign_pk@,
            TX_SIG_CONTEXT@,
            transfer_content_enc(ftx.init_data),
            ftx.init_data.sig@,
        ) && sig_verifies(
            rcvr_sign_pk@,
            TX_SIG_CONTEXT@,
            transfer_finalization_enc(ftx.init_data),
            ftx.sig@,
        ),
        r matches Ok(jtx) ==> jtx.content == ftx && sig_verifies(
            mdtr.signing_key.public_view(),
            TX_SIG_CONTEXT@,
            transfer_justification_enc(ftx),
            jtx.sig@,
        ),
{
    if ftx.init_data.amount_range.proof.len() > 0xffffffff
        || ftx.init_data.refreshed_range.proof.len() > 0xffffffff {
        return Err(MercatError::RangeProofVerificationError);
    }
    match decryptor.decrypt(&mdtr.encryption_key.scrt, &ftx.init_data.memo.enc_amount_using_mdtr) {
        Ok(_) => (),
        Err(e) => {
            return Err(e);
        },
    }
    let message = ftx.init_data.encode_content();
    if !verify_signature(sndr_sign_pk, TX_SIG_CONTEXT, message.as_slice(), &ftx.init_data.sig) {
        return Err(MercatError::SignatureVerificationError);
    }
    let finalization = ftx.init_data.encode_finalization();
    if !verify_signature(rcvr_sign_pk, TX_SIG_CONTEXT, finalization.as_slice(), &ftx.sig) {
        return Err(MercatError::SignatureVerificationError);
    }
    let to_sign = ftx.encode_justification();
    let sig = sign(&mdtr.signing_key, TX_SIG_CONTEXT, to_sign.as_slice());
    Ok(JustifiedTransferTx { content: ftx, sig })
}

/// Validate a justified transfer against the two accounts, the mediator's
/// signing key and the validator-computed pending balance.  On success the
/// amount moves: it leaves the sender's encrypted balance and joins the
/// receiver's.
pub fn validate_transaction(
    jtx: &JustifiedTransferTx,
    sndr_account: &PubAccount,
    rcvr_account: &PubAccount,
    mdtr_enc_pk: &ElgamalPublicKey,
    mdtr_sign_pk: &SigningPubKey,
    pending_balance: &CipherText,
    gens: &PedGens,
    rng: &mut rand::rngs::StdRng,
) -> (r: Result<(PubAccount, PubAccount), MercatError>)
    ensures
        r is Ok ==> jtx.content.init_data.memo.sndr_account_id == sndr_account.id
            && jtx.content.init_data.memo.rcvr_account_id == rcvr_account.id
            && transfer_justified_checks(
            gens.blinding_log(),
            sndr_account.memo.owner_sign_pub_key@,
            rcvr_account.memo.owner_sign_pub_key@,
            mdtr_sign_pk@,
            sndr_account.memo.owner_enc_pub_key,
            rcvr_account.memo.owner_enc_pub_key,
            *mdtr_enc_pk,
            pending_balance.x.log(),
            pending_balance.y.log(),
            *jtx,
        ),
        (jtx.content.init_data.memo.sndr_account_id == sndr_account.id
            && jtx.content.init_data.memo.rcvr_account_id == rcvr_account.id
            && transfer_justified_valid(
            gens.blinding_log(),
            sndr_account.memo.owner_sign_pub_key@,
            rcvr_account.memo.owner_sign_pub_key@,
            mdtr_sign_pk@,
            sndr_account.memo.owner_enc_pub_key,
            rcvr_account.memo.owner_enc_pub_key,
            *mdtr_enc_pk,
            pending_balance.x.log(),
            pending_balance.y.log(),
            *jtx,
        )) ==> r is Ok,
        r matches Ok((s, v)) ==> {
            &&& s.id == sndr_account.id
            &&& s.enc_asset_id == sndr_account.enc_asset_id
            &&& s.memo == sndr_account.memo
            &&& s.enc_balance.x.log() == gmod(
                sndr_account.enc_balance.x.log()
                    - jtx.content.init_data.memo.enc_amount_using_sndr.x.log(),
            )
            &&& s.enc_balance.y.log() == gmod(
                sndr_account.enc_balance.y.log()
                    - jtx.content.init_data.memo.enc_amount_using_sndr.y.log(),
            )
            &&& v.id == rcvr_account.id
            &&& v.enc_asset_id == rcvr_account.enc_asset_id
            &&& v.memo == rcvr_account.memo
            &&& v.enc_balance.x.log() == gmod(
                rcvr_account.enc_balance.x.log()
                    + jtx.content.init_data.memo.enc_amount_using_rcvr.x.log(),
            )
            &&& v.enc_balance.y.log() == gmod(
                rcvr_account.enc_balance.y.log()
                    + jtx.content.init_data.memo.enc_amount_using_rcvr.y.log(),
            )
        },
{
    let tx = &jtx.content.init_data;
    if tx.memo.sndr_account_id != sndr_account.id || tx.memo.rcvr_account_id != rcvr_account.id {
        return Err(MercatError::AccountIdMismatch);
    }
    if tx.amount_range.proof.len() > 0xffffffff || tx.refreshed_range.proof.len() > 0xffffffff {
        return Err(MercatError::RangeProofVerificationError);
    }
    let sndr_pk = sndr_account.memo.owner_enc_pub_key;
    let rcvr_pk = rcvr_account.memo.owner_enc_pub_key;
    let message = tx.encode_content();
    if !verify_signature(
        &sndr_account.memo.owner_sign_pub_key,
        TX_SIG_CONTEXT,
        message.as_slice(),
        &tx.sig,
    ) {
        return Err(MercatError::SignatureVerificationError);
    }
    let finalization = tx.encode_finalization();
    if !verify_signature(
        &rcvr_account.memo.owner_sign_pub_key,
        TX_SIG_CONTEXT,
        finalization.as_slice(),
        &jtx.content.sig,
    ) {
        return Err(MercatError::SignatureVerificationError);
    }
    let justification = jtx.content.encode_justification();
    if !verify_signature(mdtr_sign_pk, TX_SIG_CONTEXT, justification.as_slice(), &jtx.sig) {
        return Err(MercatError::SignatureVerificationError);
    }
    verify_wellformedness(
        &sndr_pk,
        &tx.memo.enc_amount_using_sndr,
        &tx.amount_range.commitment,
        gens,
        &tx.amount_wellformedness,
    )?;
    if !range_verify(&tx.amount_range, gens, rng) {
        return Err(MercatError::RangeProofVerificationError);
    }
    verify_wellformedness(
        &sndr_pk,
        &tx.memo.enc_refreshed_balance,
        &tx.refreshed_range.commitment,
        gens,
        &tx.refreshed_wellformedness,
    )?;
    if !range_verify(&tx.refreshed_range, gens, rng) {
        return Err(MercatError::RangeProofVerificationError);
    }
    verify_equality(
        &sndr_pk,
        &tx.memo.enc_amount_using_sndr,
        &rcvr_pk,
        &tx.memo.enc_amount_using_rcvr,
        gens,
        &tx.amount_eq_rcvr,
    )?;
    verify_equality(
        &sndr_pk,
        &tx.memo.enc_amount_using_sndr,
        mdtr_enc_pk,
        &tx.memo.enc_amount_using_mdtr,
        gens,
        &tx.amount_eq_mdtr,
    )?;
    let diff1 = pending_balance.hom_sub(&tx.memo.enc_amount_using_sndr);
    let diff = diff1.hom_sub(&tx.memo.enc_refreshed_balance);
    let dxp = diff.x;
    let dyp = diff.y;
    proof {
        use_type_invariant(dxp);
        Point::lemma_canonical(dxp);
        use_type_invariant(dyp);
        Point::lemma_canonical(dyp);
        lemma_balance_refresh_bridge(
            gens.blinding_log(),
            sndr_pk,
            pending_balance.x.log(),
            pending_balance.y.log(),
            tx.memo,
            diff,
            tx.balance_refresh,
        );
    }
    verify_refreshment(&sndr_pk, &diff, gens, &tx.balance_refresh)?;
    let new_sndr_balance = sndr_account.enc_balance.hom_sub(&tx.memo.enc_amount_using_sndr);
    let new_rcvr_balance = rcvr_account.enc_balance.hom_add(&tx.memo.enc_amount_using_rcvr);
    Ok(
        (
            PubAccount {
                id: sndr_account.id,
                enc_asset_id: sndr_account.enc_asset_id,
                enc_balance: new_sndr_balance,
                memo: sndr_account.memo,
            },
            PubAccount {
                id: rcvr_account.id,
                enc_asset_id: rcvr_account.enc_asset_id,
                enc_balance: new_rcvr_balance,
                memo: rcvr_account.memo,
            },
        ),
    )
}

/// Balances move exactly: after a validated transfer, the sender's balance
/// decrypts to what it held less the amount, and the receiver's to what it
/// held plus the amount, whenever those stay in the group's range.
pub proof fn lemma_transfer_balance_movement(
    sk_s: int,
    sk_r: int,
    sndr_bal: CipherText,
    rcvr_bal: CipherText,
    amt_s: CipherText,
    amt_r: CipherText,
    new_s: CipherText,
    new_r: CipherText,
)
    requires
        new_s.x.log() == gmod(sndr_bal.x.log() - amt_s.x.log()),
        new_s.y.log() == gmod(sndr_bal.y.log() - amt_s.y.log()),
        new_r.x.log() == gmod(rcvr_bal.x.log() + amt_r.x.log()),
        new_r.y.log() == gmod(rcvr_bal.y.log() + amt_r.y.log()),
        0 <= ct_dec(sk_s, amt_s) <= ct_dec(sk_s, sndr_bal) < group_order(),
        0 <= ct_dec(sk_r, rcvr_bal) + ct_dec(sk_r, amt_r) < group_order(),
    ensures
        ct_dec(sk_s, new_s) == ct_dec(sk_s, sndr_bal) - ct_dec(sk_s, amt_s),
        ct_dec(sk_r, new_r) == ct_dec(sk_r, rcvr_bal) + ct_dec(sk_r, amt_r),
{
    crate::elgamal::lemma_decrypt_hom_sub(sk_s, sndr_bal, amt_s, new_s);
    lemma_gmod_small(ct_dec(sk_s, sndr_bal) - ct_dec(sk_s, amt_s));
    crate::elgamal::lemma_decrypt_hom_add(sk_r, rcvr_bal, amt_r, new_r);
    lemma_gmod_small(ct_dec(sk_r, rcvr_bal) + ct_dec(sk_r, amt_r));
}

} // verus!
