//! The ledger state machine: accounts by client, movement history by
//! transaction id, and the dispute lifecycle of each history entry.
use std::collections::HashMap;
use vstd::prelude::*;

use crate::account::{zero_account, AccountStatus};
use crate::transaction::{Transaction, TransactionType, MAX_UNITS};

verus! {

broadcast use vstd::std_specs::hash::group_hash_axioms;

/// Where a movement stands in its dispute lifecycle.
#[derive(Clone, Copy, Debug, PartialEq, Eq, Structural)]
pub enum DisputeState {
    Settled,
    Disputed,
    Chargebacked,
}

/// The stored record of an accepted deposit or withdrawal.
#[derive(Clone, Copy, Debug, PartialEq, Eq, Structural)]
pub struct HistoryEntry {
    pub transaction: Transaction,
    pub state: DisputeState,
}

/// Why the ledger rejected a transaction.
#[derive(Clone, Copy, Debug, PartialEq, Eq, Structural)]
pub enum LedgerError {
    /// A deposit or withdrawal reuses the id of a recorded movement.
    DuplicateTransaction,
    /// A withdrawal asks for more than is available.
    InsufficientFunds,
    /// A dispute, resolve or chargeback names no recorded movement.
    ReferencedTransactionNotFound,
    /// The referenced movement belongs to another client.
    ClientMismatch,
    /// The referenced movement carries another amount.
    AmountMismatch,
    /// A dispute names a movement that is not settled.
    AlreadyDisputed,
    /// A resolve or chargeback names a movement that is not under dispute.
    NotDisputed,
    /// A balance would leave the range of [`MAX_UNITS`].
    BalanceOverflow,
}

/// All ledger state.
pub struct Ledger {
    pub by_client_id: HashMap<u16, AccountStatus>,
    pub by_transaction_id: HashMap<u32, HistoryEntry>,
}

/// The ledger as maps.
pub ghost struct LedgerState {
    pub accounts: Map<u16, AccountStatus>,
    pub history: Map<u32, HistoryEntry>,
}

impl View for Ledger {
    type V = LedgerState;

    open spec fn view(&self) -> LedgerState {
        LedgerState { accounts: self.by_client_id@, history: self.by_transaction_id@ }
    }
}

/// The ledger before any transaction.
pub open spec fn empty_ledger() -> LedgerState {
    LedgerState { accounts: Map::empty(), history: Map::empty() }
}

/// A balance the ledger can hold.
pub open spec fn in_range(x: int) -> bool {
    -MAX_UNITS <= x <= MAX_UNITS
}

/// Every balance of the ledger is one it can hold.
pub open spec fn balances_in_range(s: LedgerState) -> bool {
    forall|c: u16| #[trigger]
        s.accounts.contains_key(c) ==> in_range(s.accounts[c].available as int) && in_range(
            s.accounts[c].held as int,
        )
}

/// `s` with an account for `client`, created at zero if it had none.
pub open spec fn with_account(s: LedgerState, client: u16) -> LedgerState {
    if s.accounts.contains_key(client) {
        s
    } else {
        LedgerState { accounts: s.accounts.insert(client, zero_account(client)), history: s.history }
    }
}

/// `s` with the account of `client` set to the given balances and lock.
pub open spec fn set_account(
    s: LedgerState,
    client: u16,
    available: int,
    held: int,
    locked: bool,
) -> LedgerState {
    LedgerState {
        accounts: s.accounts.insert(
            client,
            AccountStatus { client, available: available as i128, held: held as i128, locked },
        ),
        history: s.history,
    }
}

/// `s` with the history entry of `tx_id` set to `entry`.
pub open spec fn set_entry(s: LedgerState, tx_id: u32, entry: HistoryEntry) -> LedgerState {
    LedgerState { accounts: s.accounts, history: s.history.insert(tx_id, entry) }
}

/// The movement that a dispute, resolve or chargeback refers to, after the
/// checks that all three share.
pub open spec fn referenced_entry(s: LedgerState, t: Transaction) -> Result<
    HistoryEntry,
    LedgerError,
> {
    if !s.history.contains_key(t.tx_id) {
        Err(LedgerError::ReferencedTransactionNotFound)
    } else {
        let e = s.history[t.tx_id];
        if e.transaction.client_id != t.client_id {
            Err(LedgerError::ClientMismatch)
        } else if e.transaction.amount != t.amount {
            Err(LedgerError::AmountMismatch)
        } else {
            Ok(e)
        }
    }
}

/// A deposit on a ledger that has the client's account and not the id.
pub open spec fn deposit_spec(s: LedgerState, t: Transaction) -> (LedgerState, Result<(), LedgerError>) {
    let a = s.accounts[t.client_id];
    let v = a.available + t.amount;
    if !in_range(v) {
        (s, Err(LedgerError::BalanceOverflow))
    } else {
        (
            set_entry(
                set_account(s, t.client_id, v, a.held as int, a.locked),
                t.tx_id,
                HistoryEntry { transaction: t, state: DisputeState::Settled },
            ),
            Ok(()),
        )
    }
}

/// A withdrawal on a ledger that has the client's account and not the id.
pub open spec fn withdrawal_spec(s: LedgerState, t: Transaction) -> (
    LedgerState,
    Result<(), LedgerError>,
) {
    let a = s.accounts[t.client_id];
    let v = a.available - t.amount;
    if a.available < t.amount {
        (s, Err(LedgerError::InsufficientFunds))
    } else if !in_range(v) {
        (s, Err(LedgerError::BalanceOverflow))
    } else {
        (
            set_entry(
                set_account(s, t.client_id, v, a.held as int, a.locked),
                t.tx_id,
                HistoryEntry { transaction: t, state: DisputeState::Settled },
            ),
            Ok(()),
        )
    }
}

/// A dispute on a ledger that has the client's account.
pub open spec fn dispute_spec(s: LedgerState, t: Transaction) -> (LedgerState, Result<(), LedgerError>) {
    let a = s.accounts[t.client_id];
    match referenced_entry(s, t) {
        Err(e) => (s, Err(e)),
        Ok(entry) => if entry.state != DisputeState::Settled {
            (s, Err(LedgerError::AlreadyDisputed))
        } else if !in_range(a.available - t.amount) || !in_range(a.held + t.amount) {
            (s, Err(LedgerError::BalanceOverflow))
        } else {
            (
                set_entry(
                    set_account(
                        s,
                        t.client_id,
                        a.available - t.amount,
                        a.held + t.amount,
                        a.locked,
                    ),
                    t.tx_id,
                    HistoryEntry { transaction: entry.transaction, state: DisputeState::Disputed },
                ),
                Ok(()),
            )
        },
    }
}

/// A resolve on a ledger that has the client's account.
pub open spec fn resolve_spec(s: LedgerState, t: Transaction) -> (LedgerState, Result<(), LedgerError>) {
    let a = s.accounts[t.client_id];
    match referenced_entry(s, t) {
        Err(e) => (s, Err(e)),
        Ok(entry) => if entry.state != DisputeState::Disputed {
            (s, Err(LedgerError::NotDisputed))
        } else if !in_range(a.available + t.amount) || !in_range(a.held - t.amount) {
            (s, Err(LedgerError::BalanceOverflow))
        } else {
            (
                set_entry(
                    set_account(
                        s,
                        t.client_id,
                        a.available + t.amount,
                        a.held - t.amount,
                        a.locked,
                    ),
                    t.tx_id,
                    HistoryEntry { transaction: entry.transaction, state: DisputeState::Settled },
                ),
                Ok(()),
            )
        },
    }
}

/// A chargeback on a ledger that has the client's account: it also locks
/// the account.
pub open spec fn chargeback_spec(s: LedgerState, t: Transaction) -> (
    LedgerState,
    Result<(), LedgerError>,
) {
    let a = s.accounts[t.client_id];
    match referenced_entry(s, t) {
        Err(e) => (s, Err(e)),
        Ok(entry) => if entry.state != DisputeState::Disputed {
            (s, Err(LedgerError::NotDisputed))
        } else if !in_range(a.held - t.amount) {
            (s, Err(LedgerError::BalanceOverflow))
        } else {
            (
                set_entry(
                    set_account(s, t.client_id, a.available as int, a.held - t.amount, true),
                    t.tx_id,
                    HistoryEntry {
                        transaction: entry.transaction,
                        state: DisputeState::Chargebacked,
                    },
                ),
                Ok(()),
            )
        },
    }
}

/// One transaction applied to the ledger: the client's account is created
/// first if missing; a deposit or withdrawal whose id is recorded is a
/// duplicate; then each kind has its own effect. A rejected transaction
/// changes nothing else.
pub open spec fn apply(s0: LedgerState, t: Transaction) -> (LedgerState, Result<(), LedgerError>) {
    let s = with_account(s0, t.client_id);
    if t.tx_type.is_movement() && s.history.contains_key(t.tx_id) {
        (s, Err(LedgerError::DuplicateTransaction))
    } else {
        match t.tx_type {
            TransactionType::Deposit => deposit_spec(s, t),
            TransactionType::Withdrawal => withdrawal_spec(s, t),
            TransactionType::Dispute => dispute_spec(s, t),
            TransactionType::Resolve => resolve_spec(s, t),
            TransactionType::Chargeback => chargeback_spec(s, t),
        }
    }
}

/// `a + b` when it is a balance the ledger can hold.
fn add_in_range(a: i128, b: i128) -> (r: Option<i128>)
    ensures
        r is Some <==> in_range(a + b),
        r matches Some(v) ==> v == a + b,
{
    match a.checked_add(b) {
        Some(v) => if -MAX_UNITS <= v && v <= MAX_UNITS {
            Some(v)
        } else {
            None
        },
        None => None,
    }
}

/// `a - b` when it is a balance the ledger can hold.
fn sub_in_range(a: i128, b: i128) -> (r: Option<i128>)
    ensures
        r is Some <==> in_range(a - b),
        r matches Some(v) ==> v == a - b,
{
    match a.checked_sub(b) {
        Some(v) => if -MAX_UNITS <= v && v <= MAX_UNITS {
            Some(v)
        } else {
            None
        },
        None => None,
    }
}

impl Ledger {
    pub fn new() -> (r: Self)
        ensures
            r@ == empty_ledger(),
            balances_in_range(r@),
    {
        Ledger { by_client_id: HashMap::new(), by_transaction_id: HashMap::new() }
    }

    /// Whether the ledger has an account for `client_id`.
    pub fn is_existing_client(&self, client_id: u16) -> (r: bool)
        ensures
            r == self@.accounts.contains_key(client_id),
    {
        self.by_client_id.contains_key(&client_id)
    }

    /// Whether a movement with id `trans_id` is recorded.
    pub fn is_existing_transaction(&self, trans_id: u32) -> (r: bool)
        ensures
            r == self@.history.contains_key(trans_id),
    {
        self.by_transaction_id.contains_key(&trans_id)
    }

    /// The account of `client_id`, if it has one.
    pub fn account(&self, client_id: u16) -> (r: Option<AccountStatus>)
        ensures
            r == (if self@.accounts.contains_key(client_id) {
                Some(self@.accounts[client_id])
            } else {
                None
            }),
    {
        match self.by_client_id.get(&client_id) {
            Some(a) => Some(*a),
            None => None,
        }
    }

    /// Applies one transaction; see [`apply`].
    pub fn process_transaction(&mut self, transaction: &Transaction) -> (r: Result<(), LedgerError>)
        ensures
            (final(self)@, r) == apply(old(self)@, *transaction),
            balances_in_range(old(self)@) ==> balances_in_range(final(self)@),
    {
        proof {
            if balances_in_range(self@) {
                crate::laws::lemma_balances_stay_in_range(self@, *transaction);
            }
        }
        if !self.is_existing_client(transaction.client_id) {
            self.add_client(transaction.client_id);
        }
        if self.is_existing_transaction(transaction.tx_id) && (matches!(
            transaction.tx_type,
            TransactionType::Deposit | TransactionType::Withdrawal
        )) {
            return Err(LedgerError::DuplicateTransaction);
        }
        match transaction.tx_type {
            TransactionType::Chargeback => self.process_chargeback(transaction),
            TransactionType::Deposit => self.process_deposit(transaction),
            TransactionType::Dispute => self.process_dispute(transaction),
            TransactionType::Resolve => self.process_resolve(transaction),
            TransactionType::Withdrawal => self.process_withdrawl(transaction),
        }
    }

    /// Opens a zero account for a client that has none.
    fn add_client(&mut self, client_id: u16)
        requires
            !old(self)@.accounts.contains_key(client_id),
        ensures
            final(self)@ == with_account(old(self)@, client_id),
    {
        let client_account = AccountStatus::new(client_id);
        self.by_client_id.insert(client_id, client_account);
    }

    /// Sets the balances and lock of an existing account.
    fn store_account(&mut self, client: u16, available: i128, held: i128, locked: bool)
        ensures
            final(self)@ == set_account(old(self)@, client, available as int, held as int, locked),
    {
        self.by_client_id.insert(client, AccountStatus { client, available, held, locked });
    }

    /// The account of a client known to have one.
    fn account_of(&self, client_id: u16) -> (r: AccountStatus)
        requires
            self@.accounts.contains_key(client_id),
        ensures
            r == self@.accounts[client_id],
    {
        *self.by_client_id.get(&client_id).unwrap()
    }

    /// The movement a dispute-class transaction refers to.
    fn referenced(&self, t: &Transaction) -> (r: Result<HistoryEntry, LedgerError>)
        ensures
            r == referenced_entry(self@, *t),
    {
        match self.by_transaction_id.get(&t.tx_id) {
            None => Err(LedgerError::ReferencedTransactionNotFound),
            Some(e) => if e.transaction.client_id != t.client_id {
                Err(LedgerError::ClientMismatch)
            } else if e.transaction.amount != t.amount {
                Err(LedgerError::AmountMismatch)
            } else {
                Ok(*e)
            },
        }
    }

    fn process_chargeback(&mut self, transaction: &Transaction) -> (r: Result<(), LedgerError>)
        requires
            old(self)@.accounts.contains_key(transaction.client_id),
        ensures
            (final(self)@, r) == chargeback_spec(old(self)@, *transaction),
    {
        let account = self.account_of(transaction.client_id);
        let entry = self.referenced(transaction)?;
        if entry.state != DisputeState::Disputed {
            return Err(LedgerError::NotDisputed);
        }
        let held = match sub_in_range(account.held, transaction.amount) {
            Some(v) => v,
            None => return Err(LedgerError::BalanceOverflow),
        };
        self.store_account(transaction.client_id, account.available, held, true);
        self.by_transaction_id.insert(
            transaction.tx_id,
            HistoryEntry { transaction: entry.transaction, state: DisputeState::Chargebacked },
        );
        Ok(())
    }

    fn process_deposit(&mut self, transaction: &Transaction) -> (r: Result<(), LedgerError>)
        requires
            old(self)@.accounts.contains_key(transaction.client_id),
        ensures
            (final(self)@, r) == deposit_spec(old(self)@, *transaction),
    {
        let account = self.account_of(transaction.client_id);
        let available = match add_in_range(account.available, transaction.amount) {
            Some(v) => v,
            None => return Err(LedgerError::BalanceOverflow),
        };
        self.store_account(transaction.client_id, available, account.held, account.locked);
        self.by_transaction_id.insert(
            transaction.tx_id,
            HistoryEntry { transaction: *transaction, state: DisputeState::Settled },
        );
        Ok(())
    }

    fn process_dispute(&mut self, transaction: &Transaction) -> (r: Result<(), LedgerError>)
        requires
            old(self)@.accounts.contains_key(transaction.client_id),
        ensures
            (final(self)@, r) == dispute_spec(old(self)@, *transaction),
    {
        let account = self.account_of(transaction.client_id);
        let entry = self.referenced(transaction)?;
        if entry.state != DisputeState::Settled {
            return Err(LedgerError::AlreadyDisputed);
        }
        let available = sub_in_range(account.available, transaction.amount);
        let held = add_in_range(account.held, transaction.amount);
        let (available, held) = match (available, held) {
            (Some(a), Some(h)) => (a, h),
            _ => return Err(LedgerError::BalanceOverflow),
        };
        self.store_account(transaction.client_id, available, held, account.locked);
        self.by_transaction_id.insert(
            transaction.tx_id,
            HistoryEntry { transaction: entry.transaction, state: DisputeState::Disputed },
        );
        Ok(())
    }

    fn process_resolve(&mut self, transaction: &Transaction) -> (r: Result<(), LedgerError>)
        requires
            old(self)@.accounts.contains_key(transaction.client_id),
        ensures
            (final(self)@, r) == resolve_spec(old(self)@, *transaction),
    {
        let account = self.account_of(transaction.client_id);
        let entry = self.referenced(transaction)?;
        if entry.state != DisputeState::Disputed {
            return Err(LedgerError::NotDisputed);
        }
        let available = add_in_range(account.available, transaction.amount);
        let held = sub_in_range(account.held, transaction.amount);
        let (available, held) = match (available, held) {
            (Some(a), Some(h)) => (a, h),
            _ => return Err(LedgerError::BalanceOverflow),
        };
        self.store_account(transaction.client_id, available, held, account.locked);
        self.by_transaction_id.insert(
            transaction.tx_id,
            HistoryEntry { transaction: entry.transaction, state: DisputeState::Settled },
        );
        Ok(())
    }

    fn process_withdrawl(&mut self, transaction: &Transaction) -> (r: Result<(), LedgerError>)
        requires
            old(self)@.accounts.contains_key(transaction.client_id),
        ensures
            (final(self)@, r) == withdrawal_spec(old(self)@, *transaction),
    {
        let account = self.account_of(transaction.client_id);
        if account.available < transaction.amount {
            return Err(LedgerError::InsufficientFunds);
        }
        let available = match sub_in_range(account.available, transaction.amount) {
            Some(v) => v,
            None => return Err(LedgerError::BalanceOverflow),
        };
        self.store_account(transaction.client_id, available, account.held, account.locked);
        self.by_transaction_id.insert(
            transaction.tx_id,
            HistoryEntry { transaction: *transaction, state: DisputeState::Settled },
        );
        Ok(())
    }
}

} // verus!
