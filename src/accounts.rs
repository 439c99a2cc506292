use vstd::prelude::*;

verus! {

/// The balances of one client, in ten-thousandths of a unit.
#[derive(Clone, Copy, Debug, PartialEq, Eq, Structural)]
pub struct AccountBalance {
    pub client: u16,
    pub available: i64,
    pub held: i64,
    pub locked: bool,
}

impl AccountBalance {
    /// A fresh account: nothing available, nothing held, not locked.
    pub open spec fn fresh(client: u16) -> AccountBalance {
        AccountBalance { client, available: 0, held: 0, locked: false }
    }

    /// The total funds of the account: available plus held.
    pub open spec fn total(self) -> int {
        self.available + self.held
    }

    pub fn new(client: u16) -> (r: AccountBalance)
        ensures
            r == AccountBalance::fresh(client),
    {
        AccountBalance { client, available: 0, held: 0, locked: false }
    }

    /// The total is computed, never stored: it is always `available + held`.
    pub fn get_total(&self) -> (r: i128)
        ensures
            r == self.total(),
    {
        self.available as i128 + self.held as i128
    }
}

} // verus!
