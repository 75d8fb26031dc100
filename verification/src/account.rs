//! Account creation: the account holder builds a public account whose
//! encrypted balance starts at zero and whose encrypted asset id lies in the
//! allowed set, proves both, and signs; the validator checks every proof and
//! the signature before publishing the account.

use vstd::prelude::*;

use crate::codec::{push_bytes32, push_u32, read_bytes32, read_u32, u32_le};
use crate::correctness::{prove_correctness, verify_correctness, CorrectnessProof};
use crate::elgamal::{
    ct_dec, CipherText, CommitmentWitness, ElgamalPublicKey, ElgamalSecretKey, pedersen_commit,
};
use crate::errors::MercatError;
use crate::group::{
    point_decode, scalar_random, GroupScalar, PedGens, Point,
};
use crate::membership::{
    membership_valid, prove_membership, verify_membership, MembershipProof,
};
use crate::signing::{
    sign, verify_signature, Signature, SigningKeyPair, SigningPubKey, sig_verifies,
};
use crate::wellformedness::{
    prove_wellformedness, verify_wellformedness, wellformedness_valid, WellformednessProof,
};
use crate::gmod;

verus! {

/// The signing context every account-creation message is signed under.
pub const ACCOUNT_SIG_CONTEXT: &'static str = "mercat/account";

/// The ElGamal key pair of an account holder.
pub struct EncryptionKeys {
    pub pblc: ElgamalPublicKey,
    pub scrt: ElgamalSecretKey,
}

/// Everything only the account holder knows.  Secret material is confined
/// to this structure and the key types it holds; scrubbing that memory on
/// drop is beyond what the verifier can see and is not modelled here.
pub struct SecAccount {
    pub enc_keys: EncryptionKeys,
    pub sign_keys: SigningKeyPair,
    pub asset_id_witness: CommitmentWitness,
}

/// A mediator's private material.
pub struct MediatorAccount {
    pub encryption_key: EncryptionKeys,
    pub signing_key: SigningKeyPair,
}

/// The public metadata of an account.
#[derive(Clone, Copy)]
pub struct AccountMemo {
    pub owner_enc_pub_key: ElgamalPublicKey,
    pub owner_sign_pub_key: SigningPubKey,
    pub last_processed_tx_counter: u32,
}

/// A public account: encrypted asset id, encrypted balance, metadata.
#[derive(Clone, Copy)]
pub struct PubAccount {
    pub id: u32,
    pub enc_asset_id: CipherText,
    pub enc_balance: CipherText,
    pub memo: AccountMemo,
}

/// A public account together with the ordering counter the validator keeps.
#[derive(Clone, Copy)]
pub struct OrderedPubAccount {
    pub pub_account: PubAccount,
    pub last_processed_tx_counter: Option<u32>,
}

/// The proof bundle of an account-creation message.
pub struct AccountProofs {
    pub asset_membership: MembershipProof,
    pub balance_commitment: Point,
    pub balance_wellformedness: WellformednessProof,
    pub balance_correctness: CorrectnessProof,
}

/// The account-creation message: the account, its proofs and the owner's
/// signature over the account's encoding.
pub struct PubAccountTx {
    pub tx_id: u32,
    pub pub_account: PubAccount,
    pub proofs: AccountProofs,
    pub sig: Signature,
}

/// The encoding of a ciphertext: both compressed points.
pub open spec fn ct_enc(ct: CipherText) -> Seq<u8> {
    ct.x@ + ct.y@
}

/// The encoding of an account memo.
pub open spec fn memo_enc(m: AccountMemo) -> Seq<u8> {
    m.owner_enc_pub_key.pub_key@ + m.owner_sign_pub_key@ + u32_le(m.last_processed_tx_counter)
}

/// The encoding of a public account.
pub open spec fn pub_account_enc(a: PubAccount) -> Seq<u8> {
    u32_le(a.id) + ct_enc(a.enc_asset_id) + ct_enc(a.enc_balance) + memo_enc(a.memo)
}

/// Two ciphertexts denote the same pair of group elements.
pub open spec fn ct_eqv(a: CipherText, b: CipherText) -> bool {
    a.x@ == b.x@ && a.y@ == b.y@
}

/// Two public accounts denote the same values.
pub open spec fn pub_account_eqv(a: PubAccount, b: PubAccount) -> bool {
    &&& a.id == b.id
    &&& ct_eqv(a.enc_asset_id, b.enc_asset_id)
    &&& ct_eqv(a.enc_balance, b.enc_balance)
    &&& a.memo.owner_enc_pub_key.pub_key@ == b.memo.owner_enc_pub_key.pub_key@
    &&& a.memo.owner_sign_pub_key@ == b.memo.owner_sign_pub_key@
    &&& a.memo.last_processed_tx_counter == b.memo.last_processed_tx_counter
}

/// Both points of the ciphertext are canonically encoded; true of every
/// ciphertext the library builds.
pub open spec fn ct_pts_ok(ct: CipherText) -> bool {
    crate::group::pt_ok(ct.x@) && crate::group::pt_ok(ct.y@)
}

/// The memo's encodings have their canonical shapes.
pub open spec fn memo_pts_ok(m: AccountMemo) -> bool {
    crate::group::pt_ok(m.owner_enc_pub_key.pub_key@) && m.owner_sign_pub_key@.len() == 32
}

/// Every group element of the account is canonically encoded.
pub open spec fn pub_account_pts_ok(a: PubAccount) -> bool {
    ct_pts_ok(a.enc_asset_id) && ct_pts_ok(a.enc_balance) && memo_pts_ok(a.memo)
}

impl CipherText {
    /// Append the canonical encoding.
    pub fn encode_into(&self, out: &mut Vec<u8>)
        ensures
            final(out)@ == old(out)@ + ct_enc(*self),
    {
        let xb = self.x.to_bytes();
        let yb = self.y.to_bytes();
        push_bytes32(out, &xb);
        push_bytes32(out, &yb);
        proof {
            assert(out@ =~= old(out)@ + ct_enc(*self));
        }
    }

    /// Read a ciphertext at `pos`; fails on truncated input or bytes that
    /// are no canonical point encoding.
    pub fn decode_from(data: &Vec<u8>, pos: usize) -> (r: Option<(CipherText, usize)>)
        ensures
            r matches Some((ct, p2)) ==> p2 == pos + 64 && p2 <= data@.len() && data@.subrange(
                pos as int,
                p2 as int,
            ) == ct_enc(ct),
            r is None ==> pos + 64 > data@.len() || !crate::group::pt_ok(
                data@.subrange(pos as int, pos + 32),
            ) || !crate::group::pt_ok(data@.subrange(pos + 32, pos + 64)),
    {
        let (xb, p1) = match read_bytes32(data, pos) {
            Some(v) => v,
            None => {
                return None;
            },
        };
        let (yb, p2) = match read_bytes32(data, p1) {
            Some(v) => v,
            None => {
                return None;
            },
        };
        let x = match point_decode(&xb) {
            Some(p) => p,
            None => {
                return None;
            },
        };
        let y = match point_decode(&yb) {
            Some(p) => p,
            None => {
                return None;
            },
        };
        let ct = CipherText { x, y };
        proof {
            assert(data@.subrange(pos as int, pos + 64) =~= ct_enc(ct));
        }
        Some((ct, p2))
    }
}

impl AccountMemo {
    pub fn new(enc_pk: ElgamalPublicKey, sign_pk: SigningPubKey, counter: u32) -> (r: Self)
        ensures
            r.owner_enc_pub_key == enc_pk,
            r.owner_sign_pub_key == sign_pk,
            r.last_processed_tx_counter == counter,
    {
        AccountMemo {
            owner_enc_pub_key: enc_pk,
            owner_sign_pub_key: sign_pk,
            last_processed_tx_counter: counter,
        }
    }

    pub fn encode_into(&self, out: &mut Vec<u8>)
        ensures
            final(out)@ == old(out)@ + memo_enc(*self),
    {
        let ek = self.owner_enc_pub_key.pub_key.to_bytes();
        let sk = self.owner_sign_pub_key.to_bytes();
        push_bytes32(out, &ek);
        push_bytes32(out, &sk);
        push_u32(out, self.last_processed_tx_counter);
        proof {
            assert(out@ =~= old(out)@ + memo_enc(*self));
        }
    }

    pub fn decode_from(data: &Vec<u8>, pos: usize) -> (r: Option<(AccountMemo, usize)>)
        ensures
            r matches Some((m, p2)) ==> p2 == pos + 68 && p2 <= data@.len() && data@.subrange(
                pos as int,
                p2 as int,
            ) == memo_enc(m),
            r is None ==> pos + 68 > data@.len() || !crate::group::pt_ok(
                data@.subrange(pos as int, pos + 32),
            ),
    {
        let (ek, p1) = match read_bytes32(data, pos) {
            Some(v) => v,
            None => {
                return None;
            },
        };
        let (sk, p2) = match read_bytes32(data, p1) {
            Some(v) => v,
            None => {
                return None;
            },
        };
        let (counter, p3) = match read_u32(data, p2) {
            Some(v) => v,
            None => {
                return None;
            },
        };
        let ek_pt = match point_decode(&ek) {
            Some(p) => p,
            None => {
                return None;
            },
        };
        let m = AccountMemo {
            owner_enc_pub_key: ElgamalPublicKey { pub_key: ek_pt },
            owner_sign_pub_key: SigningPubKey::from_bytes(sk),
            last_processed_tx_counter: counter,
        };
        proof {
            assert(data@.subrange(pos as int, pos + 68) =~= memo_enc(m));
        }
        Some((m, p3))
    }
}

impl PubAccount {
    /// The canonical byte encoding, the content every signature covers.
    pub fn encode(&self) -> (r: Vec<u8>)
        ensures
            r@ == pub_account_enc(*self),
    {
        let mut out: Vec<u8> = Vec::new();
        push_u32(&mut out, self.id);
        self.enc_asset_id.encode_into(&mut out);
        self.enc_balance.encode_into(&mut out);
        self.memo.encode_into(&mut out);
        proof {
            assert(out@ =~= pub_account_enc(*self));
        }
        out
    }

    pub fn decode_from(data: &Vec<u8>, pos: usize) -> (r: Option<(PubAccount, usize)>)
        ensures
            r matches Some((a, p2)) ==> p2 == pos + 200 && p2 <= data@.len() && data@.subrange(
                pos as int,
                p2 as int,
            ) == pub_account_enc(a),
            r is None ==> pos + 200 > data@.len() || !crate::group::pt_ok(
                data@.subrange(pos + 4, pos + 36),
            ) || !crate::group::pt_ok(data@.subrange(pos + 36, pos + 68))
                || !crate::group::pt_ok(data@.subrange(pos + 68, pos + 100))
                || !crate::group::pt_ok(data@.subrange(pos + 100, pos + 132))
                || !crate::group::pt_ok(data@.subrange(pos + 132, pos + 164)),
    {
        let (id, p1) = match read_u32(data, pos) {
            Some(v) => v,
            None => {
                return None;
            },
        };
        let (enc_asset_id, p2) = match CipherText::decode_from(data, p1) {
            Some(v) => v,
            None => {
                return None;
            },
        };
        let (enc_balance, p3) = match CipherText::decode_from(data, p2) {
            Some(v) => v,
            None => {
                return None;
            },
        };
        let (memo, p4) = match AccountMemo::decode_from(data, p3) {
            Some(v) => v,
            None => {
                return None;
            },
        };
        let a = PubAccount { id, enc_asset_id, enc_balance, memo };
        proof {
            assert(data@.subrange(pos as int, pos + 200) =~= pub_account_enc(a));
        }
        Some((a, p4))
    }

    /// Decode a whole buffer holding exactly one account; on the encoding
    /// of any well-formed account it succeeds, so decoding undoes encoding.
    pub fn decode(data: &Vec<u8>) -> (r: Option<PubAccount>)
        ensures
            r matches Some(a) ==> data@ == pub_account_enc(a),
            forall|x: PubAccount| data@ == #[trigger] pub_account_enc(x) && pub_account_pts_ok(x)
                ==> r is Some,
    {
        proof {
            assert forall|x: PubAccount| data@ == #[trigger] pub_account_enc(x)
                && pub_account_pts_ok(x) implies data@.len() == 200 && crate::group::pt_ok(
                data@.subrange(4, 36),
            ) && crate::group::pt_ok(data@.subrange(36, 68)) && crate::group::pt_ok(
                data@.subrange(68, 100),
            ) && crate::group::pt_ok(data@.subrange(100, 132)) && crate::group::pt_ok(
                data@.subrange(132, 164),
            ) by {
                assert(x.enc_asset_id.x@ =~= data@.subrange(4, 36));
                assert(x.enc_asset_id.y@ =~= data@.subrange(36, 68));
                assert(x.enc_balance.x@ =~= data@.subrange(68, 100));
                assert(x.enc_balance.y@ =~= data@.subrange(100, 132));
                assert(x.memo.owner_enc_pub_key.pub_key@ =~= data@.subrange(132, 164));
            }
        }
        match PubAccount::decode_from(data, 0) {
            Some((a, p)) => {
                if p == data.len() {
                    proof {
                        assert(data@.subrange(0, data@.len() as int) =~= data@);
                    }
                    Some(a)
                } else {
                    None
                }
            },
            None => None,
        }
    }
}

/// The counter flag an ordered account encodes: one when a counter is
/// present, zero otherwise.
pub open spec fn ordered_flag(a: OrderedPubAccount) -> u32 {
    match a.last_processed_tx_counter {
        Some(_) => 1u32,
        None => 0u32,
    }
}

/// The counter value an ordered account encodes.
pub open spec fn ordered_counter(a: OrderedPubAccount) -> u32 {
    match a.last_processed_tx_counter {
        Some(c) => c,
        None => 0u32,
    }
}

/// The encoding of an ordered account: a presence flag and the counter,
/// then the account.
pub open spec fn ordered_account_enc(a: OrderedPubAccount) -> Seq<u8> {
    u32_le(ordered_flag(a)) + u32_le(ordered_counter(a)) + pub_account_enc(a.pub_account)
}

impl OrderedPubAccount {
    /// The canonical byte encoding.
    pub fn encode(&self) -> (r: Vec<u8>)
        ensures
            r@ == ordered_account_enc(*self),
    {
        let mut out: Vec<u8> = Vec::new();
        match self.last_processed_tx_counter {
            Some(c) => {
                push_u32(&mut out, 1);
                push_u32(&mut out, c);
            },
            None => {
                push_u32(&mut out, 0);
                push_u32(&mut out, 0);
            },
        }
        let account = self.pub_account.encode();
        let ghost mid = out@;
        let mut i: usize = 0;
        while i < account.len()
            invariant
                0 <= i <= account@.len(),
                out@ == mid + account@.subrange(0, i as int),
            decreases account@.len() - i,
        {
            out.push(account[i]);
            proof {
                assert(account@.subrange(0, i + 1) =~= account@.subrange(0, i as int).push(
                    account@[i as int],
                ));
            }
            i = i + 1;
        }
        proof {
            assert(account@.subrange(0, account@.len() as int) =~= account@);
            assert(out@ =~= ordered_account_enc(*self));
        }
        out
    }

    /// Decode a whole buffer holding exactly one ordered account; on the
    /// encoding of any well-formed account it succeeds, so decoding undoes
    /// encoding.
    pub fn decode(data: &Vec<u8>) -> (r: Option<OrderedPubAccount>)
        ensures
            r matches Some(a) ==> data@ == ordered_account_enc(a),
            forall|x: OrderedPubAccount| data@ == #[trigger] ordered_account_enc(x)
                && pub_account_pts_ok(x.pub_account) ==> r is Some,
    {
        proof {
            assert forall|x: OrderedPubAccount| data@ == #[trigger] ordered_account_enc(x)
                && pub_account_pts_ok(x.pub_account) implies data@.len() == 208
                && data@.subrange(0, 4) == u32_le(ordered_flag(x)) && data@.subrange(4, 8)
                == u32_le(ordered_counter(x)) && ordered_flag(x) <= 1 && (ordered_flag(x) == 0
                ==> ordered_counter(x) == 0) && crate::group::pt_ok(data@.subrange(12, 44))
                && crate::group::pt_ok(data@.subrange(44, 76)) && crate::group::pt_ok(
                data@.subrange(76, 108),
            ) && crate::group::pt_ok(data@.subrange(108, 140)) && crate::group::pt_ok(
                data@.subrange(140, 172),
            ) by {
                assert(u32_le(ordered_flag(x)) =~= data@.subrange(0, 4));
                assert(u32_le(ordered_counter(x)) =~= data@.subrange(4, 8));
                assert(x.pub_account.enc_asset_id.x@ =~= data@.subrange(12, 44));
                assert(x.pub_account.enc_asset_id.y@ =~= data@.subrange(44, 76));
                assert(x.pub_account.enc_balance.x@ =~= data@.subrange(76, 108));
                assert(x.pub_account.enc_balance.y@ =~= data@.subrange(108, 140));
                assert(x.pub_account.memo.owner_enc_pub_key.pub_key@ =~= data@.subrange(
                    140,
                    172,
                ));
            }
        }
        let (flag, p1) = match crate::codec::read_u32(data, 0) {
            Some(v) => v,
            None => {
                return None;
            },
        };
        let (counter, p2) = match crate::codec::read_u32(data, p1) {
            Some(v) => v,
            None => {
                return None;
            },
        };
        if flag > 1 || (flag == 0 && counter != 0) {
            proof {
                assert forall|x: OrderedPubAccount| data@ == #[trigger] ordered_account_enc(x)
                    && pub_account_pts_ok(x.pub_account) implies false by {
                    crate::codec::lemma_u32_le_injective(flag, ordered_flag(x));
                    crate::codec::lemma_u32_le_injective(counter, ordered_counter(x));
                }
            }
            return None;
        }
        let (pub_account, p3) = match PubAccount::decode_from(data, p2) {
            Some(v) => v,
            None => {
                return None;
            },
        };
        if p3 != data.len() {
            return None;
        }
        let a = OrderedPubAccount {
            pub_account,
            last_processed_tx_counter: if flag == 1 {
                Some(counter)
            } else {
                None
            },
        };
        proof {
            assert(data@ =~= ordered_account_enc(a));
        }
        Some(a)
    }
}

/// The point encodings of an account all have their canonical length; holds
/// of every account the library builds or decodes.
pub open spec fn pub_account_wf(a: PubAccount) -> bool {
    &&& a.enc_asset_id.x@.len() == 32
    &&& a.enc_asset_id.y@.len() == 32
    &&& a.enc_balance.x@.len() == 32
    &&& a.enc_balance.y@.len() == 32
    &&& a.memo.owner_enc_pub_key.pub_key@.len() == 32
    &&& a.memo.owner_sign_pub_key@.len() == 32
}

/// Two accounts with the same encoding are the same: the encoding is
/// injective, so decoding undoes encoding.
pub proof fn lemma_pub_account_round_trip(a: PubAccount, b: PubAccount)
    requires
        pub_account_enc(a) == pub_account_enc(b),
        pub_account_wf(a),
        pub_account_wf(b),
    ensures
        pub_account_eqv(a, b),
{
    let ea = pub_account_enc(a);
    let eb = pub_account_enc(b);
    assert(ea.subrange(0, 4) =~= u32_le(a.id));
    assert(eb.subrange(0, 4) =~= u32_le(b.id));
    crate::codec::lemma_u32_le_injective(a.id, b.id);
    assert(a.enc_asset_id.x@ =~= ea.subrange(4, 36));
    assert(b.enc_asset_id.x@ =~= eb.subrange(4, 36));
    assert(a.enc_asset_id.y@ =~= ea.subrange(36, 68));
    assert(b.enc_asset_id.y@ =~= eb.subrange(36, 68));
    assert(a.enc_balance.x@ =~= ea.subrange(68, 100));
    assert(b.enc_balance.x@ =~= eb.subrange(68, 100));
    assert(a.enc_balance.y@ =~= ea.subrange(100, 132));
    assert(b.enc_balance.y@ =~= eb.subrange(100, 132));
    assert(a.memo.owner_enc_pub_key.pub_key@ =~= ea.subrange(132, 164));
    assert(b.memo.owner_enc_pub_key.pub_key@ =~= eb.subrange(132, 164));
    assert(a.memo.owner_sign_pub_key@ =~= ea.subrange(164, 196));
    assert(b.memo.owner_sign_pub_key@ =~= eb.subrange(164, 196));
    assert(u32_le(a.memo.last_processed_tx_counter) =~= ea.subrange(196, 200));
    assert(u32_le(b.memo.last_processed_tx_counter) =~= eb.subrange(196, 200));
    crate::codec::lemma_u32_le_injective(
        a.memo.last_processed_tx_counter,
        b.memo.last_processed_tx_counter,
    );
}

/// An account-creation message convinces the validator: the membership,
/// well-formedness and correctness-of-zero proofs all hold, and the owner's
/// signature covers the account's encoding.
pub open spec fn account_tx_valid(beta: int, ids: Seq<GroupScalar>, tx: PubAccountTx) -> bool {
    let pk = tx.pub_account.memo.owner_enc_pub_key;
    &&& membership_valid(beta, pk, tx.pub_account.enc_asset_id, ids, tx.proofs.asset_membership)
    &&& wellformedness_valid(
        beta,
        pk,
        tx.pub_account.enc_balance,
        tx.proofs.balance_commitment,
        tx.proofs.balance_wellformedness,
    )
    &&& correctness_valid(
        beta,
        pk,
        tx.pub_account.enc_balance,
        tx.proofs.balance_correctness,
        0,
    )
    &&& sig_verifies(
        tx.pub_account.memo.owner_sign_pub_key@,
        ACCOUNT_SIG_CONTEXT@,
        pub_account_enc(tx.pub_account),
        tx.sig@,
    )
}

use crate::correctness::correctness_valid;

/// Create an account: encrypt the asset id and a zero balance, prove
/// membership, well-formedness and correctness of zero, and sign.
pub fn create_account(
    tx_id: u32,
    scrt: &SecAccount,
    valid_asset_ids: &Vec<GroupScalar>,
    account_id: u32,
    gens: &PedGens,
    rng: &mut rand::rngs::StdRng,
) -> (r: Result<PubAccountTx, MercatError>)
    ensures
        r matches Ok(tx) ==> {
            &&& tx.tx_id == tx_id
            &&& tx.pub_account.id == account_id
            &&& tx.pub_account.memo.last_processed_tx_counter == 0
            &&& tx.pub_account.memo.owner_enc_pub_key.pub_key.log() == gmod(
                scrt.enc_keys.scrt.secret_val() * gens.blinding_log(),
            )
            &&& ct_dec(scrt.enc_keys.scrt.secret_val(), tx.pub_account.enc_balance) == 0
            &&& ct_dec(scrt.enc_keys.scrt.secret_val(), tx.pub_account.enc_asset_id)
                == scrt.asset_id_witness.value_val()
            &&& account_tx_valid(gens.blinding_log(), valid_asset_ids@, tx)
        },
        r == Err::<PubAccountTx, MercatError>(MercatError::UnknownAssetId) <==> forall|j: int|
            0 <= j < valid_asset_ids@.len() ==> (#[trigger] valid_asset_ids@[j]).val()
                != scrt.asset_id_witness.value_val(),
{
    // The published key is derived from the secret, so the two halves match.
    let pk = scrt.enc_keys.scrt.get_public_key(gens);
    // Find which allowed id this account's witness commits to.
    let mut k: usize = 0;
    let n = valid_asset_ids.len();
    let witness_value = *scrt.asset_id_witness.value();
    loop
        invariant
            0 <= k <= n == valid_asset_ids@.len(),
            forall|j: int|
                0 <= j < k ==> (#[trigger] valid_asset_ids@[j]).val()
                    != scrt.asset_id_witness.value_val(),
            witness_value.val() == scrt.asset_id_witness.value_val(),
        ensures
            k < n,
            valid_asset_ids@[k as int].val() == scrt.asset_id_witness.value_val(),
        decreases n - k,
    {
        if k >= n {
            return Err(MercatError::UnknownAssetId);
        }
        if valid_asset_ids[k].equals(&witness_value) {
            break;
        }
        k = k + 1;
    }
    // Encrypt the asset id and prove it is one of the allowed ones.
    let enc_asset_id = pk.encrypt(&scrt.asset_id_witness, gens);
    let asset_membership = prove_membership(
        scrt.asset_id_witness.blinding(),
        k,
        valid_asset_ids,
        &pk,
        &enc_asset_id,
        gens,
        rng,
    )?;
    // Encrypt a zero balance and prove it well formed and zero.
    let balance_witness = CommitmentWitness::from_u32(0, scalar_random(rng));
    let enc_balance = pk.encrypt(&balance_witness, gens);
    let commit_blinding = scalar_random(rng);
    let balance_commitment = pedersen_commit(
        &CommitmentWitness::from_u32(0, commit_blinding),
        gens,
    );
    let balance_wellformedness = prove_wellformedness(
        &balance_witness,
        &commit_blinding,
        &pk,
        &enc_balance,
        &balance_commitment,
        gens,
        rng,
    )?;
    let balance_correctness = prove_correctness(
        0,
        &balance_witness,
        &pk,
        &enc_balance,
        gens,
        rng,
    )?;
    let memo = AccountMemo::new(pk, scrt.sign_keys.public(), 0);
    let pub_account = PubAccount { id: account_id, enc_asset_id, enc_balance, memo };
    let message = pub_account.encode();
    let sig = sign(&scrt.sign_keys, ACCOUNT_SIG_CONTEXT, message.as_slice());
    let asset_value_scalar = *scrt.asset_id_witness.value();
    proof {
        crate::elgamal::lemma_encrypt_then_decrypt(
            gens.blinding_log(),
            scrt.enc_keys.scrt.secret_val(),
            pk.pub_key.log(),
            0,
            balance_witness.blinding_val(),
            enc_balance,
        );
        use_type_invariant(asset_value_scalar);
        crate::group::GroupScalar::lemma_canonical(asset_value_scalar);
        crate::elgamal::lemma_encrypt_then_decrypt(
            gens.blinding_log(),
            scrt.enc_keys.scrt.secret_val(),
            pk.pub_key.log(),
            scrt.asset_id_witness.value_val(),
            scrt.asset_id_witness.blinding_val(),
            enc_asset_id,
        );
    }
    Ok(
        PubAccountTx {
            tx_id,
            pub_account,
            proofs: AccountProofs {
                asset_membership,
                balance_commitment,
                balance_wellformedness,
                balance_correctness,
            },
            sig,
        },
    )
}

/// Validate an account-creation message: check every proof and the owner's
/// signature; on success publish the account with its ordering counter set
/// to this transaction.
pub fn validate_account(
    tx: &PubAccountTx,
    valid_asset_ids: &Vec<GroupScalar>,
    gens: &PedGens,
) -> (r: Result<OrderedPubAccount, MercatError>)
    ensures
        r is Ok <==> account_tx_valid(gens.blinding_log(), valid_asset_ids@, *tx),
        r matches Ok(acc) ==> acc.pub_account == tx.pub_account
            && acc.last_processed_tx_counter == Some(tx.tx_id),
{
    let pk = tx.pub_account.memo.owner_enc_pub_key;
    let message = tx.pub_account.encode();
    if !verify_signature(
        &tx.pub_account.memo.owner_sign_pub_key,
        ACCOUNT_SIG_CONTEXT,
        message.as_slice(),
        &tx.sig,
    ) {
        return Err(MercatError::SignatureVerificationError);
    }
    verify_membership(
        &pk,
        &tx.pub_account.enc_asset_id,
        valid_asset_ids,
        gens,
        &tx.proofs.asset_membership,
    )?;
    verify_wellformedness(
        &pk,
        &tx.pub_account.enc_balance,
        &tx.proofs.balance_commitment,
        gens,
        &tx.proofs.balance_wellformedness,
    )?;
    verify_correctness(
        0,
        &pk,
        &tx.pub_account.enc_balance,
        gens,
        &tx.proofs.balance_correctness,
    )?;
    Ok(
        OrderedPubAccount {
            pub_account: tx.pub_account,
            last_processed_tx_counter: Some(tx.tx_id),
        },
    )
}

/// Generate a holder's secret account for a ticker: fresh encryption and
/// signing keys, and a fresh witness committing to the ticker's asset id.
pub fn create_secret_account(
    rng: &mut rand::rngs::StdRng,
    ticker: &[u8],
    gens: &PedGens,
) -> (r: Result<SecAccount, MercatError>)
    ensures
        r is Ok <==> ticker@.len() <= crate::membership::TICKER_LEN,
        r matches Ok(acc) ==> {
            &&& acc.enc_keys.pblc.pub_key.log() == gmod(
                acc.enc_keys.scrt.secret_val() * gens.blinding_log(),
            )
            &&& acc.asset_id_witness.value_val() == gmod(
                crate::group::le_val(
                    ticker@ + Seq::<u8>::new((32 - ticker@.len()) as nat, |i: int| 0u8),
                ),
            )
        },
        r matches Err(e) ==> e == MercatError::TickerTooLong,
{
    let asset_id = crate::membership::asset_id_from_ticker(ticker)?;
    let elg_secret = ElgamalSecretKey::new(scalar_random(rng));
    let elg_pub = elg_secret.get_public_key(gens);
    let sign_keys = crate::signing::signing_keypair_generate(rng);
    let asset_id_witness = CommitmentWitness::new(asset_id, scalar_random(rng));
    Ok(
        SecAccount {
            enc_keys: EncryptionKeys { pblc: elg_pub, scrt: elg_secret },
            sign_keys,
            asset_id_witness,
        },
    )
}

/// Generate a mediator's key material: its public memo and its private
/// account.
pub fn generate_mediator_keys(rng: &mut rand::rngs::StdRng, gens: &PedGens) -> (r: (
    AccountMemo,
    MediatorAccount,
))
    ensures
        r.0.owner_enc_pub_key.pub_key.log() == gmod(
            r.1.encryption_key.scrt.secret_val() * gens.blinding_log(),
        ),
        r.0.owner_sign_pub_key@ == r.1.signing_key.public_view(),
        r.0.last_processed_tx_counter == 0,
{
    let mediator_elg_secret = ElgamalSecretKey::new(scalar_random(rng));
    let mediator_enc_pub = mediator_elg_secret.get_public_key(gens);
    let signing_key = crate::signing::signing_keypair_generate(rng);
    let memo = AccountMemo::new(mediator_enc_pub, signing_key.public(), 0);
    (
        memo,
        MediatorAccount {
            encryption_key: EncryptionKeys { pblc: mediator_enc_pub, scrt: mediator_elg_secret },
            signing_key,
        },
    )
}

} // verus!
