//! Per-client account state and its reportable projection.
use vstd::prelude::*;

verus! {

/// The stored state of one client's account. Balances are in ten-thousandths;
/// the total is never stored.
#[derive(Clone, Copy, Debug, PartialEq, Eq, Structural)]
pub struct AccountStatus {
    pub client: u16,
    pub available: i128,
    pub held: i128,
    pub locked: bool,
}

/// The account a client starts with: nothing available, nothing held, unlocked.
pub open spec fn zero_account(client: u16) -> AccountStatus {
    AccountStatus { client, available: 0, held: 0, locked: false }
}

impl AccountStatus {
    pub fn new(id: u16) -> (r: Self)
        ensures
            r == zero_account(id),
    {
        AccountStatus { client: id, available: 0, held: 0, locked: false }
    }
}

/// The reportable row of an account, with its total.
#[derive(Clone, Copy, Debug, PartialEq, Eq, Structural)]
pub struct AccountStatusTotal {
    pub client: u16,
    pub available: i128,
    pub held: i128,
    pub total: i128,
    pub locked: bool,
}

impl AccountStatusTotal {
    /// Projects an account: the same fields, and `total = available + held`.
    pub fn new(source: &AccountStatus) -> (r: Self)
        requires
            i128::MIN <= source.available + source.held <= i128::MAX,
        ensures
            r.client == source.client,
            r.available == source.available,
            r.held == source.held,
            r.total == source.available + source.held,
            r.locked == source.locked,
    {
        AccountStatusTotal {
            client: source.client,
            available: source.available,
            held: source.held,
            total: source.available + source.held,
            locked: source.locked,
        }
    }
}

} // verus!
