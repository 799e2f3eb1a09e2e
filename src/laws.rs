//! Properties of the ledger that hold across transactions.
use vstd::prelude::*;

use crate::ledger::{
    apply, balances_in_range, empty_ledger, in_range, with_account, LedgerError, LedgerState,
};
use crate::transaction::{Transaction, TransactionType};

verus! {

/// The ledger after applying `ts` in order to `s`, rejected ones included.
pub open spec fn replay(s: LedgerState, ts: Seq<Transaction>) -> LedgerState
    decreases ts.len(),
{
    if ts.len() == 0 {
        s
    } else {
        apply(replay(s, ts.drop_last()), ts.last()).0
    }
}

/// How an accepted transaction changes its client's total.
pub open spec fn total_delta(t: Transaction) -> int {
    match t.tx_type {
        TransactionType::Deposit => t.amount as int,
        TransactionType::Withdrawal => -t.amount,
        TransactionType::Dispute => 0,
        TransactionType::Resolve => 0,
        TransactionType::Chargeback => -t.amount,
    }
}

/// The sum of `total_delta` over the transactions of `ts` for `client` that
/// the ledger accepted when `ts` was replayed from `s`.
pub open spec fn effective_total(s: LedgerState, ts: Seq<Transaction>, client: u16) -> int
    decreases ts.len(),
{
    if ts.len() == 0 {
        0
    } else {
        let t = ts.last();
        let accepted = apply(replay(s, ts.drop_last()), t).1 is Ok;
        effective_total(s, ts.drop_last(), client) + if t.client_id == client && accepted {
            total_delta(t)
        } else {
            0
        }
    }
}

/// `available + held` of a client, zero for one without an account.
pub open spec fn account_total(s: LedgerState, client: u16) -> int {
    if s.accounts.contains_key(client) {
        s.accounts[client].available + s.accounts[client].held
    } else {
        0
    }
}

/// One transaction changes a client's total by its `total_delta` if it is
/// accepted and is that client's, and by nothing otherwise.
pub proof fn lemma_total_step(s: LedgerState, t: Transaction, client: u16)
    ensures
        account_total(apply(s, t).0, client) == account_total(s, client) + if t.client_id
            == client && apply(s, t).1 is Ok {
            total_delta(t)
        } else {
            0
        },
{
}

/// A client's total after any sequence of transactions from the empty ledger
/// equals the sum of the effects of the accepted ones: the total is always
/// the replay of the effective mutations.
pub proof fn lemma_total_reconstructable(ts: Seq<Transaction>, client: u16)
    ensures
        account_total(replay(empty_ledger(), ts), client) == effective_total(
            empty_ledger(),
            ts,
            client,
        ),
    decreases ts.len(),
{
    if ts.len() > 0 {
        lemma_total_reconstructable(ts.drop_last(), client);
        lemma_total_step(replay(empty_ledger(), ts.drop_last()), ts.last(), client);
    }
}

/// Once a deposit or withdrawal is accepted, any later deposit or withdrawal
/// with the same id is rejected as a duplicate, and the ledger stays as the
/// first left it (but for a zero account opened for a new client).
pub proof fn lemma_duplicate_movement_rejected(s: LedgerState, t1: Transaction, t2: Transaction)
    requires
        t1.tx_type.is_movement(),
        t2.tx_type.is_movement(),
        t1.tx_id == t2.tx_id,
        apply(s, t1).1 is Ok,
    ensures
        ({
            let s1 = apply(s, t1).0;
            let (s2, r2) = apply(s1, t2);
            &&& r2 == Err::<(), LedgerError>(LedgerError::DuplicateTransaction)
            &&& s2 == with_account(s1, t2.client_id)
            &&& s2.history == s1.history
            &&& forall|c: u16| #[trigger]
                s1.accounts.contains_key(c) ==> s2.accounts[c] == s1.accounts[c]
        }),
{
}

/// A deposit of `A`, then a dispute and a resolve of it for `A`, put the
/// client's available and held back where the deposit left them, and leave an
/// unlocked account unlocked. The dispute is only turned down where the held
/// balance would overflow.
pub proof fn lemma_dispute_round_trip(
    s: LedgerState,
    deposit: Transaction,
    dispute: Transaction,
    resolve: Transaction,
)
    requires
        deposit.tx_type is Deposit,
        dispute.tx_type is Dispute,
        resolve.tx_type is Resolve,
        dispute.client_id == deposit.client_id && dispute.tx_id == deposit.tx_id && dispute.amount
            == deposit.amount,
        resolve.client_id == deposit.client_id && resolve.tx_id == deposit.tx_id && resolve.amount
            == deposit.amount,
        apply(s, deposit).1 is Ok,
        balances_in_range(s),
        !(s.accounts.contains_key(deposit.client_id) && s.accounts[deposit.client_id].locked),
        in_range(apply(s, deposit).0.accounts[deposit.client_id].held + deposit.amount),
    ensures
        ({
            let c = deposit.client_id;
            let s1 = apply(s, deposit).0;
            let (s2, r2) = apply(s1, dispute);
            let (s3, r3) = apply(s2, resolve);
            &&& r2 is Ok
            &&& r3 is Ok
            &&& s3.accounts[c].available == s1.accounts[c].available
            &&& s3.accounts[c].held == s1.accounts[c].held
            &&& !s3.accounts[c].locked
        }),
{
    let c = deposit.client_id;
    let s0 = with_account(s, c);
    assert(s0.accounts.contains_key(c));
    assert(in_range(s0.accounts[c].available as int));
    let s1 = apply(s, deposit).0;
    assert(s1.history.contains_key(deposit.tx_id));
    assert(s1.accounts[c].available == s0.accounts[c].available + deposit.amount);
    let s2 = apply(s1, dispute).0;
    assert(apply(s1, dispute).1 is Ok);
    assert(s2.accounts[c].available == s0.accounts[c].available);
}

/// No transaction unlocks an account.
pub proof fn lemma_lock_kept(s: LedgerState, t: Transaction, client: u16)
    requires
        s.accounts.contains_key(client),
        s.accounts[client].locked,
    ensures
        apply(s, t).0.accounts.contains_key(client),
        apply(s, t).0.accounts[client].locked,
{
}

/// An accepted chargeback locks its client's account, and the account stays
/// locked through every later sequence of transactions.
pub proof fn lemma_chargeback_lock_is_terminal(s: LedgerState, t: Transaction, ts: Seq<Transaction>)
    requires
        t.tx_type is Chargeback,
        apply(s, t).1 is Ok,
    ensures
        replay(apply(s, t).0, ts).accounts.contains_key(t.client_id),
        replay(apply(s, t).0, ts).accounts[t.client_id].locked,
    decreases ts.len(),
{
    if ts.len() > 0 {
        lemma_chargeback_lock_is_terminal(s, t, ts.drop_last());
        lemma_lock_kept(replay(apply(s, t).0, ts.drop_last()), ts.last(), t.client_id);
    }
}

/// A withdrawal of more than is available is rejected for insufficient funds
/// and changes no balance; a withdrawal of exactly what is available is
/// accepted and leaves nothing available.
pub proof fn lemma_withdrawal_boundary(s: LedgerState, t: Transaction)
    requires
        t.tx_type is Withdrawal,
        !s.history.contains_key(t.tx_id),
    ensures
        ({
            let c = t.client_id;
            let before = with_account(s, c);
            let (s1, r) = apply(s, t);
            &&& t.amount > before.accounts[c].available ==> r == Err::<(), LedgerError>(
                LedgerError::InsufficientFunds,
            ) && s1 == before
            &&& t.amount == before.accounts[c].available ==> r is Ok && s1.accounts[c].available
                == 0
        }),
{
}

/// Applying a transaction to a ledger whose balances are all in range keeps
/// them in range, whatever it does.
pub proof fn lemma_balances_stay_in_range(s: LedgerState, t: Transaction)
    requires
        balances_in_range(s),
    ensures
        balances_in_range(apply(s, t).0),
{
    let s1 = apply(s, t).0;
    assert forall|c: u16| #[trigger] s1.accounts.contains_key(c) implies in_range(
        s1.accounts[c].available as int,
    ) && in_range(s1.accounts[c].held as int) by {
        if c != t.client_id {
            assert(s.accounts.contains_key(c));
        }
    }
}

} // verus!
