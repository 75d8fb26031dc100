//! The validator pass: states, ordering, pending balances, and the batch
//! that validates every ready transaction and then applies the encrypted
//! balance updates account by account.  One bad transaction never corrupts
//! the others: balances move only for results that validated.

use vstd::prelude::*;

use crate::account::{
    account_tx_valid, validate_account, AccountMemo, OrderedPubAccount, PubAccount, PubAccountTx,
};
use crate::asset::{
    asset_justified_valid, validate_asset_issuance, InitializedAssetTx, JustifiedAssetTx,
};
use crate::elgamal::{ct_dec, dec_val, CipherText};
use crate::errors::MercatError;
use crate::group::{GroupScalar, PedGens};
use crate::transfer::{
    transfer_justified_checks, transfer_justified_valid, validate_transaction,
    FinalizedTransferTx, InitializedTransferTx, JustifiedTransferTx,
};
use crate::gmod;

verus! {

/// The footsteps of a transaction through the protocol.
#[derive(Clone, Copy, Debug, PartialEq, Eq, Structural)]
pub enum TxSubstate {
    Started,
    Validated,
    Rejected,
}

/// The state of an issuance.
#[derive(Clone, Copy, Debug, PartialEq, Eq, Structural)]
pub enum AssetTxState {
    Initialization(TxSubstate),
    Justification(TxSubstate),
}

/// The state of a transfer.
#[derive(Clone, Copy, Debug, PartialEq, Eq, Structural)]
pub enum TransferTxState {
    Initialization(TxSubstate),
    Finalization(TxSubstate),
    Justification(TxSubstate),
}

/// The ordering state the validator keeps per sender: the pending counter
/// never lags the processed one.
#[derive(Clone, Copy, Debug, PartialEq, Eq, Structural)]
pub struct OrderingState {
    pub last_processed_tx_counter: u32,
    pub last_pending_tx_counter: u32,
    pub tx_id: u32,
}

/// The ordering invariant: what is pending is at least what was processed.
pub open spec fn ordering_state_valid(s: OrderingState) -> bool {
    s.last_pending_tx_counter >= s.last_processed_tx_counter
}

/// A transaction as the validator meets it, together with what it needs to
/// check it.
pub enum CoreTransaction {
    Account { account_tx: PubAccountTx, tx_id: u32 },
    IssueInit { issue_tx: InitializedAssetTx, tx_id: u32 },
    IssueJustify { issue_tx: JustifiedAssetTx, mediator: AccountMemo, tx_id: u32 },
    TransferInit { tx: InitializedTransferTx, tx_id: u32 },
    TransferFinalize { tx: FinalizedTransferTx, tx_id: u32 },
    TransferJustify { tx: JustifiedTransferTx, mediator: AccountMemo, tx_id: u32 },
}

impl CoreTransaction {
    /// Only fully justified transactions and account creations are ready
    /// for the validator.
    pub open spec fn is_ready(self) -> bool {
        match self {
            CoreTransaction::Account { .. } => true,
            CoreTransaction::IssueJustify { .. } => true,
            CoreTransaction::TransferJustify { .. } => true,
            _ => false,
        }
    }

    pub fn is_ready_for_validation(&self) -> (r: bool)
        ensures
            r == self.is_ready(),
    {
        match self {
            CoreTransaction::Account { .. } => true,
            CoreTransaction::IssueJustify { .. } => true,
            CoreTransaction::TransferJustify { .. } => true,
            _ => false,
        }
    }

    /// The ledger's ordering identifier of this transaction.
    pub open spec fn spec_tx_id(self) -> u32 {
        match self {
            CoreTransaction::Account { tx_id, .. } => tx_id,
            CoreTransaction::IssueInit { tx_id, .. } => tx_id,
            CoreTransaction::IssueJustify { tx_id, .. } => tx_id,
            CoreTransaction::TransferInit { tx_id, .. } => tx_id,
            CoreTransaction::TransferFinalize { tx_id, .. } => tx_id,
            CoreTransaction::TransferJustify { tx_id, .. } => tx_id,
        }
    }

    pub fn tx_id(&self) -> (r: u32)
        ensures
            r == self.spec_tx_id(),
    {
        match self {
            CoreTransaction::Account { tx_id, .. } => *tx_id,
            CoreTransaction::IssueInit { tx_id, .. } => *tx_id,
            CoreTransaction::IssueJustify { tx_id, .. } => *tx_id,
            CoreTransaction::TransferInit { tx_id, .. } => *tx_id,
            CoreTransaction::TransferFinalize { tx_id, .. } => *tx_id,
            CoreTransaction::TransferJustify { tx_id, .. } => *tx_id,
        }
    }
}

/// Which way a validated amount moves for one account.
#[derive(Clone, Copy, Debug, PartialEq, Eq, Structural)]
pub enum Direction {
    Incoming,
    Outgoing,
}

/// One validated (or failed) leg of a transaction: the account it concerns
/// and the encrypted amount to apply, if validation succeeded.
pub struct ValidationResult {
    pub account_id: Option<u32>,
    pub direction: Direction,
    pub amount: Option<CipherText>,
}

impl ValidationResult {
    /// A failed leg: no account, nothing to apply.
    pub fn error() -> (r: ValidationResult)
        ensures
            r.account_id is None,
            r.amount is None,
    {
        ValidationResult { account_id: None, direction: Direction::Incoming, amount: None }
    }
}

/// The `x` logarithm of an account's balance after applying every result
/// that concerns it, in order.
pub open spec fn net_x_log(results: Seq<ValidationResult>, id: u32, x0: int) -> int
    decreases results.len(),
{
    if results.len() == 0 {
        x0
    } else {
        let prev = net_x_log(results.drop_last(), id, x0);
        let r = results.last();
        if r.account_id == Some(id) && r.amount is Some {
            match r.direction {
                Direction::Incoming => gmod(prev + r.amount->0.x.log()),
                Direction::Outgoing => gmod(prev - r.amount->0.x.log()),
            }
        } else {
            prev
        }
    }
}

/// The `y` logarithm of an account's balance after applying every result
/// that concerns it, in order.
pub open spec fn net_y_log(results: Seq<ValidationResult>, id: u32, y0: int) -> int
    decreases results.len(),
{
    if results.len() == 0 {
        y0
    } else {
        let prev = net_y_log(results.drop_last(), id, y0);
        let r = results.last();
        if r.account_id == Some(id) && r.amount is Some {
            match r.direction {
                Direction::Incoming => gmod(prev + r.amount->0.y.log()),
                Direction::Outgoing => gmod(prev - r.amount->0.y.log()),
            }
        } else {
            prev
        }
    }
}

/// The `x` logarithm of a sender's pending balance: the stored balance less
/// every outgoing amount already granted in this pass.
pub open spec fn pending_x_log(results: Seq<ValidationResult>, id: u32, x0: int) -> int
    decreases results.len(),
{
    if results.len() == 0 {
        x0
    } else {
        let prev = pending_x_log(results.drop_last(), id, x0);
        let r = results.last();
        if r.account_id == Some(id) && r.amount is Some && r.direction == Direction::Outgoing {
            gmod(prev - r.amount->0.x.log())
        } else {
            prev
        }
    }
}

/// The `y` counterpart of [`pending_x_log`].
pub open spec fn pending_y_log(results: Seq<ValidationResult>, id: u32, y0: int) -> int
    decreases results.len(),
{
    if results.len() == 0 {
        y0
    } else {
        let prev = pending_y_log(results.drop_last(), id, y0);
        let r = results.last();
        if r.account_id == Some(id) && r.amount is Some && r.direction == Direction::Outgoing {
            gmod(prev - r.amount->0.y.log())
        } else {
            prev
        }
    }
}

/// The sender's pending balance for the next transfer: its stored balance
/// less the outgoing amounts this pass has already granted.
pub fn compute_enc_pending_balance(
    balance: &CipherText,
    results: &Vec<ValidationResult>,
    id: u32,
) -> (r: CipherText)
    ensures
        r.x.log() == pending_x_log(results@, id, balance.x.log()),
        r.y.log() == pending_y_log(results@, id, balance.y.log()),
{
    let mut pending = *balance;
    let mut i: usize = 0;
    while i < results.len()
        invariant
            0 <= i <= results@.len(),
            pending.x.log() == pending_x_log(results@.subrange(0, i as int), id, balance.x.log()),
            pending.y.log() == pending_y_log(results@.subrange(0, i as int), id, balance.y.log()),
        decreases results@.len() - i,
    {
        let res = &results[i];
        let is_mine = match res.account_id {
            Some(a) => a == id,
            None => false,
        };
        if is_mine && res.direction == Direction::Outgoing {
            match &res.amount {
                Some(amt) => {
                    pending = pending.hom_sub(amt);
                },
                None => (),
            }
        }
        proof {
            let pre = results@.subrange(0, i as int);
            let now = results@.subrange(0, i + 1);
            assert(now.drop_last() =~= pre);
            assert(now.last() == results@[i as int]);
        }
        i = i + 1;
    }
    proof {
        assert(results@.subrange(0, results@.len() as int) =~= results@);
    }
    pending
}

/// The public account a lookup by id finds: the first stored match.
pub open spec fn account_for(accounts: Seq<OrderedPubAccount>, id: u32) -> Option<PubAccount>
    decreases accounts.len(),
{
    if accounts.len() == 0 {
        None
    } else if accounts.first().pub_account.id == id {
        Some(accounts.first().pub_account)
    } else {
        account_for(accounts.drop_first(), id)
    }
}

proof fn lemma_account_for_found(accounts: Seq<OrderedPubAccount>, id: u32, i: int)
    requires
        0 <= i < accounts.len(),
        accounts[i].pub_account.id == id,
        forall|j: int| 0 <= j < i ==> (#[trigger] accounts[j]).pub_account.id != id,
    ensures
        account_for(accounts, id) == Some(accounts[i].pub_account),
    decreases i,
{
    if accounts.first().pub_account.id == id {
        assert(i == 0);
    } else {
        assert forall|j: int|
            0 <= j < i - 1 implies (#[trigger] accounts.drop_first()[j]).pub_account.id != id by {
            assert(accounts.drop_first()[j] == accounts[j + 1]);
        }
        assert(accounts.drop_first()[i - 1] == accounts[i]);
        lemma_account_for_found(accounts.drop_first(), id, i - 1);
    }
}

proof fn lemma_account_for_missing(accounts: Seq<OrderedPubAccount>, id: u32)
    requires
        forall|j: int| 0 <= j < accounts.len() ==> (#[trigger] accounts[j]).pub_account.id != id,
    ensures
        account_for(accounts, id) is None,
    decreases accounts.len(),
{
    if accounts.len() > 0 {
        assert forall|j: int|
            0 <= j < accounts.drop_first().len() implies (#[trigger] accounts.drop_first()[j]).pub_account.id
            != id by {
            assert(accounts.drop_first()[j] == accounts[j + 1]);
        }
        lemma_account_for_missing(accounts.drop_first(), id);
    }
}

/// Find the account with the given id: exactly the account
/// [`account_for`] names.
fn find_account(accounts: &Vec<OrderedPubAccount>, id: u32) -> (r: Option<usize>)
    ensures
        r matches Some(i) ==> i < accounts@.len() && accounts@[i as int].pub_account.id == id
            && account_for(accounts@, id) == Some(accounts@[i as int].pub_account),
        r is None ==> account_for(accounts@, id) is None,
{
    let mut i: usize = 0;
    while i < accounts.len()
        invariant
            0 <= i <= accounts@.len(),
            forall|j: int| 0 <= j < i ==> (#[trigger] accounts@[j]).pub_account.id != id,
        decreases accounts@.len() - i,
    {
        if accounts[i].pub_account.id == id {
            proof {
                lemma_account_for_found(accounts@, id, i as int);
            }
            return Some(i);
        }
        i = i + 1;
    }
    proof {
        lemma_account_for_missing(accounts@, id);
    }
    None
}

/// The account an accepted creation publishes.
pub open spec fn published_account(tx: PubAccountTx) -> OrderedPubAccount {
    OrderedPubAccount { pub_account: tx.pub_account, last_processed_tx_counter: Some(tx.tx_id) }
}

/// The accounts visible after the first `n` transactions of a pass: the
/// stored ones, plus each validly created account, in order.
pub open spec fn pass_accounts(
    beta: int,
    ids: Seq<GroupScalar>,
    accounts0: Seq<OrderedPubAccount>,
    txs: Seq<CoreTransaction>,
    n: int,
) -> Seq<OrderedPubAccount>
    decreases n,
{
    if n <= 0 {
        accounts0
    } else {
        let prev = pass_accounts(beta, ids, accounts0, txs, n - 1);
        match txs[n - 1] {
            CoreTransaction::Account { account_tx, .. } => if account_tx_valid(
                beta,
                ids,
                account_tx,
            ) {
                prev.push(published_account(account_tx))
            } else {
                prev
            },
            _ => prev,
        }
    }
}

/// The stored accounts stay at their slots while the pass publishes new
/// ones behind them.
proof fn lemma_pass_accounts_prefix(
    beta: int,
    ids: Seq<GroupScalar>,
    accounts0: Seq<OrderedPubAccount>,
    txs: Seq<CoreTransaction>,
    n: int,
)
    requires
        n >= 0,
    ensures
        pass_accounts(beta, ids, accounts0, txs, n).len() >= accounts0.len(),
        forall|j: int|
            0 <= j < accounts0.len() ==> pass_accounts(beta, ids, accounts0, txs, n)[j]
                == #[trigger] accounts0[j],
    decreases n,
{
    if n > 0 {
        lemma_pass_accounts_prefix(beta, ids, accounts0, txs, n - 1);
    }
}

/// How many result legs a transaction contributes.
pub open spec fn legs_of(tx: CoreTransaction) -> int {
    match tx {
        CoreTransaction::IssueJustify { .. } => 1,
        CoreTransaction::TransferJustify { .. } => 2,
        _ => 0,
    }
}

/// Where a transaction's result legs start.
pub open spec fn result_start(txs: Seq<CoreTransaction>, n: int) -> int
    decreases n,
{
    if n <= 0 {
        0
    } else {
        result_start(txs, n - 1) + legs_of(txs[n - 1])
    }
}

proof fn lemma_result_start_nonneg(txs: Seq<CoreTransaction>, n: int)
    requires
        n >= 0,
    ensures
        result_start(txs, n) >= 0,
    decreases n,
{
    if n > 0 {
        lemma_result_start_nonneg(txs, n - 1);
    }
}

proof fn lemma_result_start_monotone(txs: Seq<CoreTransaction>, a: int, b: int)
    requires
        0 <= a <= b,
    ensures
        result_start(txs, a) <= result_start(txs, b),
    decreases b,
{
    if a < b {
        lemma_result_start_monotone(txs, a, b - 1);
    }
}

/// A failed leg: no account and no amount.
pub open spec fn error_leg(r: ValidationResult) -> bool {
    r.account_id is None && r.amount is None
}

/// The issuer's incoming leg of a validated issuance.
pub open spec fn issue_leg(jtx: JustifiedAssetTx, issuer: PubAccount, r: ValidationResult) -> bool {
    &&& r.account_id == Some(issuer.id)
    &&& r.direction == Direction::Incoming
    &&& r.amount == Some(jtx.content.enc_issued_amount)
}

/// The sender's and receiver's legs of a validated transfer.
pub open spec fn transfer_legs(
    jtx: JustifiedTransferTx,
    sndr: PubAccount,
    rcvr: PubAccount,
    r1: ValidationResult,
    r2: ValidationResult,
) -> bool {
    &&& r1.account_id == Some(sndr.id)
    &&& r1.direction == Direction::Outgoing
    &&& r1.amount == Some(jtx.content.init_data.memo.enc_amount_using_sndr)
    &&& r2.account_id == Some(rcvr.id)
    &&& r2.direction == Direction::Incoming
    &&& r2.amount == Some(jtx.content.init_data.memo.enc_amount_using_rcvr)
}

/// What the pass records for its `i`-th transaction.  An issuance's leg is
/// the incoming amount leg exactly when the issuance validates against the
/// account the lookup finds, and the error leg otherwise.  A transfer
/// contributes its two amount legs when fully valid against the
/// pass-computed pending balance, its two error legs when a lookup or a
/// deterministic check fails, and one of the two pairs in every case — the
/// range proofs alone may still turn a deterministically sound transfer
/// away.  Account creations contribute no leg.
pub open spec fn tx_legs_ok(
    beta: int,
    ids: Seq<GroupScalar>,
    accounts0: Seq<OrderedPubAccount>,
    txs: Seq<CoreTransaction>,
    i: int,
    results: Seq<ValidationResult>,
) -> bool {
    let start = result_start(txs, i);
    let ctx = pass_accounts(beta, ids, accounts0, txs, i);
    match txs[i] {
        CoreTransaction::IssueJustify { issue_tx, mediator, .. } => {
            match account_for(ctx, issue_tx.content.account_id) {
                Some(issuer) => {
                    if asset_justified_valid(
                        beta,
                        issuer.memo.owner_sign_pub_key@,
                        issuer.memo.owner_enc_pub_key,
                        mediator.owner_enc_pub_key,
                        mediator.owner_sign_pub_key@,
                        issue_tx,
                    ) {
                        issue_leg(issue_tx, issuer, results[start])
                    } else {
                        error_leg(results[start])
                    }
                },
                None => error_leg(results[start]),
            }
        },
        CoreTransaction::TransferJustify { tx, mediator, .. } => {
            let m = tx.content.init_data.memo;
            match (account_for(ctx, m.sndr_account_id), account_for(ctx, m.rcvr_account_id)) {
                (Some(sndr), Some(rcvr)) => {
                    let px = pending_x_log(
                        results.subrange(0, start),
                        sndr.id,
                        sndr.enc_balance.x.log(),
                    );
                    let py = pending_y_log(
                        results.subrange(0, start),
                        sndr.id,
                        sndr.enc_balance.y.log(),
                    );
                    &&& (transfer_justified_valid(
                        beta,
                        sndr.memo.owner_sign_pub_key@,
                        rcvr.memo.owner_sign_pub_key@,
                        mediator.owner_sign_pub_key@,
                        sndr.memo.owner_enc_pub_key,
                        rcvr.memo.owner_enc_pub_key,
                        mediator.owner_enc_pub_key,
                        px,
                        py,
                        tx,
                    ) ==> transfer_legs(tx, sndr, rcvr, results[start], results[start + 1]))
                    &&& (!transfer_justified_checks(
                        beta,
                        sndr.memo.owner_sign_pub_key@,
                        rcvr.memo.owner_sign_pub_key@,
                        mediator.owner_sign_pub_key@,
                        sndr.memo.owner_enc_pub_key,
                        rcvr.memo.owner_enc_pub_key,
                        mediator.owner_enc_pub_key,
                        px,
                        py,
                        tx,
                    ) ==> error_leg(results[start]) && error_leg(results[start + 1]))
                    &&& (transfer_legs(tx, sndr, rcvr, results[start], results[start + 1]) || (
                    error_leg(results[start]) && error_leg(results[start + 1])))
                },
                _ => error_leg(results[start]) && error_leg(results[start + 1]),
            }
        },
        _ => true,
    }
}

/// Results already recorded keep their meaning as later legs arrive.
proof fn lemma_tx_legs_ok_extend(
    beta: int,
    ids: Seq<GroupScalar>,
    accounts0: Seq<OrderedPubAccount>,
    txs: Seq<CoreTransaction>,
    i: int,
    r1: Seq<ValidationResult>,
    r2: Seq<ValidationResult>,
)
    requires
        0 <= i < txs.len(),
        tx_legs_ok(beta, ids, accounts0, txs, i, r1),
        result_start(txs, i + 1) <= r1.len(),
        r1.len() <= r2.len(),
        forall|k: int| 0 <= k < r1.len() ==> r1[k] == r2[k],
    ensures
        tx_legs_ok(beta, ids, accounts0, txs, i, r2),
{
    lemma_result_start_nonneg(txs, i);
    let start = result_start(txs, i);
    assert(r1.subrange(0, start) =~= r2.subrange(0, start));
    if start < r1.len() {
        assert(r1[start] == r2[start]);
    }
    if start + 1 < r1.len() {
        assert(r1[start + 1] == r2[start + 1]);
    }
}

/// The account's counter does not exceed `t`.
pub open spec fn counter_le(acc: OrderedPubAccount, t: u32) -> bool {
    match acc.last_processed_tx_counter {
        Some(c) => c <= t,
        None => true,
    }
}

/// A single validated transfer in a pass moves exactly its amount: folding
/// its two legs over the stored balances leaves the sender's balance
/// decrypting to what it held less the amount, and the receiver's to what
/// it held plus the amount, whenever both stay in the group's range.
pub proof fn lemma_single_transfer_pass(
    results: Seq<ValidationResult>,
    sndr_id: u32,
    rcvr_id: u32,
    sk_s: int,
    sk_r: int,
    sndr_bal: CipherText,
    rcvr_bal: CipherText,
    amt_s: CipherText,
    amt_r: CipherText,
)
    requires
        results.len() == 2,
        results[0].account_id == Some(sndr_id),
        results[0].direction == Direction::Outgoing,
        results[0].amount == Some(amt_s),
        results[1].account_id == Some(rcvr_id),
        results[1].direction == Direction::Incoming,
        results[1].amount == Some(amt_r),
        sndr_id != rcvr_id,
        0 <= ct_dec(sk_s, amt_s) <= ct_dec(sk_s, sndr_bal) < crate::group_order(),
        0 <= ct_dec(sk_r, rcvr_bal) + ct_dec(sk_r, amt_r) < crate::group_order(),
    ensures
        dec_val(
            sk_s,
            net_x_log(results, sndr_id, sndr_bal.x.log()),
            net_y_log(results, sndr_id, sndr_bal.y.log()),
        ) == ct_dec(sk_s, sndr_bal) - ct_dec(sk_s, amt_s),
        dec_val(
            sk_r,
            net_x_log(results, rcvr_id, rcvr_bal.x.log()),
            net_y_log(results, rcvr_id, rcvr_bal.y.log()),
        ) == ct_dec(sk_r, rcvr_bal) + ct_dec(sk_r, amt_r),
{
    assert(results.drop_last() =~= seq![results[0]]);
    assert(results.drop_last().drop_last() =~= Seq::<ValidationResult>::empty());
    let x0s = sndr_bal.x.log();
    let y0s = sndr_bal.y.log();
    let x0r = rcvr_bal.x.log();
    let y0r = rcvr_bal.y.log();
    assert(net_x_log(results.drop_last().drop_last(), sndr_id, x0s) == x0s);
    assert(net_x_log(results.drop_last(), sndr_id, x0s) == gmod(x0s - amt_s.x.log()));
    assert(net_x_log(results, sndr_id, x0s) == gmod(x0s - amt_s.x.log()));
    assert(net_y_log(results.drop_last().drop_last(), sndr_id, y0s) == y0s);
    assert(net_y_log(results.drop_last(), sndr_id, y0s) == gmod(y0s - amt_s.y.log()));
    assert(net_y_log(results, sndr_id, y0s) == gmod(y0s - amt_s.y.log()));
    assert(net_x_log(results.drop_last().drop_last(), rcvr_id, x0r) == x0r);
    assert(net_x_log(results.drop_last(), rcvr_id, x0r) == x0r);
    assert(net_x_log(results, rcvr_id, x0r) == gmod(x0r + amt_r.x.log()));
    assert(net_y_log(results.drop_last().drop_last(), rcvr_id, y0r) == y0r);
    assert(net_y_log(results.drop_last(), rcvr_id, y0r) == y0r);
    assert(net_y_log(results, rcvr_id, y0r) == gmod(y0r + amt_r.y.log()));
    let s_raw = sndr_bal.y.log() - sk_s * sndr_bal.x.log();
    let as_raw = amt_s.y.log() - sk_s * amt_s.x.log();
    crate::math::lemma_dec_hom_sub(
        sk_s,
        sndr_bal.x.log(),
        sndr_bal.y.log(),
        amt_s.x.log(),
        amt_s.y.log(),
    );
    crate::math::lemma_gmod_sub(s_raw, as_raw);
    crate::math::lemma_gmod_small(ct_dec(sk_s, sndr_bal) - ct_dec(sk_s, amt_s));
    let r_raw = rcvr_bal.y.log() - sk_r * rcvr_bal.x.log();
    let ar_raw = amt_r.y.log() - sk_r * amt_r.x.log();
    crate::math::lemma_dec_hom_add(
        sk_r,
        rcvr_bal.x.log(),
        rcvr_bal.y.log(),
        amt_r.x.log(),
        amt_r.y.log(),
    );
    crate::math::lemma_gmod_add(r_raw, ar_raw);
    crate::math::lemma_gmod_small(ct_dec(sk_r, rcvr_bal) + ct_dec(sk_r, amt_r));
}

/// The ordering counter only advances.
pub open spec fn counter_advanced(old_acc: OrderedPubAccount, new_acc: OrderedPubAccount) -> bool {
    match (old_acc.last_processed_tx_counter, new_acc.last_processed_tx_counter) {
        (Some(c1), Some(c2)) => c1 <= c2,
        (None, _) => true,
        (Some(_), None) => false,
    }
}

/// Validate every ready transaction and then apply the encrypted balance
/// updates: account creations publish accounts, issuances add to the
/// issuer's balance, transfers move the amount from sender to receiver.
/// Transactions must arrive in ascending `tx_id` order; one failed
/// transaction is recorded as error legs and skipped without touching any
/// balance.
#[verifier::rlimit(60)]
pub fn validate_all_pending(
    txs: Vec<CoreTransaction>,
    accounts: Vec<OrderedPubAccount>,
    valid_asset_ids: &Vec<GroupScalar>,
    gens: &PedGens,
    rng: &mut rand::rngs::StdRng,
) -> (r: Result<(Vec<OrderedPubAccount>, Option<u32>, Vec<ValidationResult>), MercatError>)
    requires
        forall|i: int, j: int|
            0 <= i < j < txs@.len() ==> (#[trigger] txs@[i]).spec_tx_id()
                <= (#[trigger] txs@[j]).spec_tx_id(),
    ensures
        r is Err <==> exists|i: int| 0 <= i < txs@.len() && !(#[trigger] txs@[i]).is_ready(),
        r matches Ok((updated, last, results)) ==> {
            let beta = gens.blinding_log();
            let all = pass_accounts(beta, valid_asset_ids@, accounts@, txs@, txs@.len() as int);
            &&& results@.len() == result_start(txs@, txs@.len() as int)
            &&& (txs@.len() > 0 ==> last == Some(txs@.last().spec_tx_id()))
            &&& (txs@.len() == 0 ==> last is None)
            &&& (forall|i: int|
                0 <= i < txs@.len() ==> #[trigger] tx_legs_ok(
                    beta,
                    valid_asset_ids@,
                    accounts@,
                    txs@,
                    i,
                    results@,
                ))
            &&& updated@.len() == all.len()
            &&& (forall|i: int|
                0 <= i < all.len() ==> {
                    let u = #[trigger] updated@[i];
                    let a = all[i];
                    &&& u.pub_account.id == a.pub_account.id
                    &&& u.pub_account.enc_asset_id == a.pub_account.enc_asset_id
                    &&& u.pub_account.memo == a.pub_account.memo
                    &&& u.pub_account.enc_balance.x.log() == net_x_log(
                        results@,
                        a.pub_account.id,
                        a.pub_account.enc_balance.x.log(),
                    )
                    &&& u.pub_account.enc_balance.y.log() == net_y_log(
                        results@,
                        a.pub_account.id,
                        a.pub_account.enc_balance.y.log(),
                    )
                    &&& (txs@.len() > 0 ==> u.last_processed_tx_counter == last)
                    &&& (txs@.len() == 0 ==> u.last_processed_tx_counter
                        == a.last_processed_tx_counter)
                })
            &&& ((txs@.len() > 0 && (forall|a: int, b: int|
                0 <= a < txs@.len() && 0 <= b < accounts@.len() ==> #[trigger] counter_le(
                    accounts@[b],
                    txs@[a].spec_tx_id(),
                ))) ==> (forall|i: int|
                0 <= i < accounts@.len() ==> #[trigger] counter_advanced(
                    accounts@[i],
                    updated@[i],
                )))
        },
{
    let ghost beta = gens.blinding_log();
    let mut accounts = accounts;
    let ghost accounts0 = accounts@;
    let mut results: Vec<ValidationResult> = Vec::new();
    let mut last_tx_id: Option<u32> = None;
    let mut t: usize = 0;
    let n_txs = txs.len();
    while t < n_txs
        invariant
            0 <= t <= n_txs == txs@.len(),
            beta == gens.blinding_log(),
            forall|i: int| 0 <= i < t ==> (#[trigger] txs@[i]).is_ready(),
            accounts@ == pass_accounts(beta, valid_asset_ids@, accounts0, txs@, t as int),
            results@.len() == result_start(txs@, t as int),
            forall|i: int|
                0 <= i < t ==> #[trigger] tx_legs_ok(
                    beta,
                    valid_asset_ids@,
                    accounts0,
                    txs@,
                    i,
                    results@,
                ),
            t > 0 ==> last_tx_id == Some(txs@[t - 1].spec_tx_id()),
            t == 0 ==> last_tx_id is None,
        decreases n_txs - t,
    {
        let ghost results0 = results@;
        proof {
            lemma_result_start_nonneg(txs@, t as int);
        }
        match &txs[t] {
            CoreTransaction::Account { account_tx, tx_id } => {
                match validate_account(account_tx, valid_asset_ids, gens) {
                    Ok(acc) => {
                        proof {
                            assert(acc == published_account(*account_tx));
                        }
                        accounts.push(acc);
                    },
                    Err(_) => (),
                }
                last_tx_id = Some(*tx_id);
            },
            CoreTransaction::IssueJustify { issue_tx, mediator, tx_id } => {
                match find_account(&accounts, issue_tx.content.account_id) {
                    Some(idx) => {
                        let issuer = accounts[idx].pub_account;
                        match validate_asset_issuance(
                            issue_tx,
                            &issuer,
                            &mediator.owner_enc_pub_key,
                            &mediator.owner_sign_pub_key,
                            gens,
                        ) {
                            Ok(_) => {
                                results.push(
                                    ValidationResult {
                                        account_id: Some(issuer.id),
                                        direction: Direction::Incoming,
                                        amount: Some(issue_tx.content.enc_issued_amount),
                                    },
                                );
                            },
                            Err(_) => {
                                results.push(ValidationResult::error());
                            },
                        }
                    },
                    None => {
                        results.push(ValidationResult::error());
                    },
                }
                last_tx_id = Some(*tx_id);
                proof {
                    assert(tx_legs_ok(beta, valid_asset_ids@, accounts0, txs@, t as int, results@));
                }
            },
            CoreTransaction::TransferJustify { tx, mediator, tx_id } => {
                let sndr_id = tx.content.init_data.memo.sndr_account_id;
                let rcvr_id = tx.content.init_data.memo.rcvr_account_id;
                let sndr_idx = find_account(&accounts, sndr_id);
                let rcvr_idx = find_account(&accounts, rcvr_id);
                match (sndr_idx, rcvr_idx) {
                    (Some(si), Some(ri)) => {
                        let sndr = accounts[si].pub_account;
                        let rcvr = accounts[ri].pub_account;
                        let pending = compute_enc_pending_balance(
                            &sndr.enc_balance,
                            &results,
                            sndr_id,
                        );
                        proof {
                            assert(results@.subrange(0, results@.len() as int) =~= results@);
                        }
                        match validate_transaction(
                            tx,
                            &sndr,
                            &rcvr,
                            &mediator.owner_enc_pub_key,
                            &mediator.owner_sign_pub_key,
                            &pending,
                            gens,
                            rng,
                        ) {
                            Ok(_) => {
                                results.push(
                                    ValidationResult {
                                        account_id: Some(sndr.id),
                                        direction: Direction::Outgoing,
                                        amount: Some(
                                            tx.content.init_data.memo.enc_amount_using_sndr,
                                        ),
                                    },
                                );
                                results.push(
                                    ValidationResult {
                                        account_id: Some(rcvr.id),
                                        direction: Direction::Incoming,
                                        amount: Some(
                                            tx.content.init_data.memo.enc_amount_using_rcvr,
                                        ),
                                    },
                                );
                            },
                            Err(_) => {
                                results.push(ValidationResult::error());
                                results.push(ValidationResult::error());
                            },
                        }
                        proof {
                            assert(results@.subrange(0, results0.len() as int) =~= results0);
                            assert(tx_legs_ok(
                                beta,
                                valid_asset_ids@,
                                accounts0,
                                txs@,
                                t as int,
                                results@,
                            ));
                        }
                    },
                    _ => {
                        results.push(ValidationResult::error());
                        results.push(ValidationResult::error());
                        proof {
                            assert(tx_legs_ok(
                                beta,
                                valid_asset_ids@,
                                accounts0,
                                txs@,
                                t as int,
                                results@,
                            ));
                        }
                    },
                }
                last_tx_id = Some(*tx_id);
            },
            _ => {
                return Err(MercatError::WrongState);
            },
        }
        proof {
            assert forall|i: int|
                0 <= i < t + 1 implies #[trigger] tx_legs_ok(
                beta,
                valid_asset_ids@,
                accounts0,
                txs@,
                i,
                results@,
            ) by {
                if i < t {
                    lemma_result_start_monotone(txs@, i + 1, t as int);
                    lemma_tx_legs_ok_extend(
                        beta,
                        valid_asset_ids@,
                        accounts0,
                        txs@,
                        i,
                        results0,
                        results@,
                    );
                }
            }
        }
        t = t + 1;
    }
    // Apply the validated amounts, account by account.
    let mut updated: Vec<OrderedPubAccount> = Vec::new();
    let mut a: usize = 0;
    let n_acc = accounts.len();
    while a < n_acc
        invariant
            0 <= a <= n_acc == accounts@.len(),
            n_txs == txs@.len(),
            accounts@ == pass_accounts(beta, valid_asset_ids@, accounts0, txs@, n_txs as int),
            beta == gens.blinding_log(),
            n_txs > 0 ==> last_tx_id == Some(txs@[n_txs - 1].spec_tx_id()),
            n_txs == 0 ==> last_tx_id is None,
            updated@.len() == a,
            forall|i: int|
                0 <= i < a ==> {
                    let u = #[trigger] updated@[i];
                    let acc = accounts@[i];
                    &&& u.pub_account.id == acc.pub_account.id
                    &&& u.pub_account.enc_asset_id == acc.pub_account.enc_asset_id
                    &&& u.pub_account.memo == acc.pub_account.memo
                    &&& u.pub_account.enc_balance.x.log() == net_x_log(
                        results@,
                        acc.pub_account.id,
                        acc.pub_account.enc_balance.x.log(),
                    )
                    &&& u.pub_account.enc_balance.y.log() == net_y_log(
                        results@,
                        acc.pub_account.id,
                        acc.pub_account.enc_balance.y.log(),
                    )
                    &&& (n_txs > 0 ==> u.last_processed_tx_counter == last_tx_id)
                    &&& (n_txs == 0 ==> u.last_processed_tx_counter
                        == acc.last_processed_tx_counter)
                },
        decreases n_acc - a,
    {
        let acc = &accounts[a];
        let id = acc.pub_account.id;
        let mut balance = acc.pub_account.enc_balance;
        let mut i: usize = 0;
        while i < results.len()
            invariant
                0 <= i <= results@.len(),
                balance.x.log() == net_x_log(
                    results@.subrange(0, i as int),
                    id,
                    acc.pub_account.enc_balance.x.log(),
                ),
                balance.y.log() == net_y_log(
                    results@.subrange(0, i as int),
                    id,
                    acc.pub_account.enc_balance.y.log(),
                ),
            decreases results@.len() - i,
        {
            let res = &results[i];
            let is_mine = match res.account_id {
                Some(aid) => aid == id,
                None => false,
            };
            if is_mine {
                match &res.amount {
                    Some(amt) => {
                        if res.direction == Direction::Incoming {
                            balance = balance.hom_add(amt);
                        } else {
                            balance = balance.hom_sub(amt);
                        }
                    },
                    None => (),
                }
            }
            proof {
                let pre = results@.subrange(0, i as int);
                let now = results@.subrange(0, i + 1);
                assert(now.drop_last() =~= pre);
                assert(now.last() == results@[i as int]);
            }
            i = i + 1;
        }
        proof {
            assert(results@.subrange(0, results@.len() as int) =~= results@);
        }
        let counter = if txs.len() > 0 {
            last_tx_id
        } else {
            acc.last_processed_tx_counter
        };
        updated.push(
            OrderedPubAccount {
                pub_account: PubAccount {
                    id,
                    enc_asset_id: acc.pub_account.enc_asset_id,
                    enc_balance: balance,
                    memo: acc.pub_account.memo,
                },
                last_processed_tx_counter: counter,
            },
        );
        a = a + 1;
    }
    proof {
        if n_txs > 0 && (forall|x: int, b: int|
            0 <= x < txs@.len() && 0 <= b < accounts0.len() ==> #[trigger] counter_le(
                accounts0[b],
                txs@[x].spec_tx_id(),
            )) {
            lemma_pass_accounts_prefix(beta, valid_asset_ids@, accounts0, txs@, n_txs as int);
            assert forall|i: int|
                0 <= i < accounts0.len() implies #[trigger] counter_advanced(
                accounts0[i],
                updated@[i],
            ) by {
                assert(counter_le(accounts0[i], txs@[n_txs - 1].spec_tx_id()));
                assert(updated@[i].last_processed_tx_counter == Some(
                    txs@[n_txs - 1].spec_tx_id(),
                ));
            }
        }
    }
    Ok((updated, last_tx_id, results))
}

} // verus!
