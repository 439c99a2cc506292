use crate::accounts::AccountBalance;
use crate::custom_errors::{TransactionErrorType, TransactionRecordError};
use crate::transactions::{Transaction, TransactionType};
use std::collections::{HashMap, HashSet};
use vstd::prelude::*;

verus! {

broadcast use vstd::std_specs::hash::group_hash_axioms;

/// The number of client identifiers: clients are `u16`.
pub const CLIENT_COUNT: u32 = 65536;

/// The abstract state of the engine.
pub struct LedgerState {
    /// One account per client seen so far.
    pub accounts: Map<u16, AccountBalance>,
    /// The amount of every successful deposit, by transaction id.
    pub deposits: Map<u32, i64>,
    /// The transaction ids that have been disputed.
    pub disputed: Set<u32>,
}

/// Every account is stored under its own client identifier.
pub open spec fn state_wf(s: LedgerState) -> bool {
    forall|c: u16| #[trigger] s.accounts.contains_key(c) ==> s.accounts[c].client == c
}

pub open spec fn empty_state() -> LedgerState {
    LedgerState { accounts: Map::empty(), deposits: Map::empty(), disputed: Set::empty() }
}

/// A balance representable by the engine.
pub open spec fn fits(x: int) -> bool {
    i64::MIN <= x <= i64::MAX
}

/// The account of client `c`; a fresh one when `c` has not been seen.
pub open spec fn account_of(s: LedgerState, c: u16) -> AccountBalance {
    if s.accounts.contains_key(c) {
        s.accounts[c]
    } else {
        AccountBalance::fresh(c)
    }
}

/// `s` with the account `a` stored under client `c`.
pub open spec fn with_account(s: LedgerState, c: u16, a: AccountBalance) -> LedgerState {
    LedgerState { accounts: s.accounts.insert(c, a), deposits: s.deposits, disputed: s.disputed }
}

/// The effect of one record on the state.
///
/// A record for a locked account changes nothing. Otherwise the client's
/// account exists afterwards, and the kind decides:
/// - a deposit adds its amount to `available` and records the amount under
///   its transaction id;
/// - a withdrawal subtracts its amount when `available` stays non-negative;
/// - a dispute of a recorded deposit moves its amount from `available` to
///   `held` and marks the id disputed;
/// - a resolve of a disputed, recorded deposit moves its amount back;
/// - a chargeback of a disputed, recorded deposit removes its amount from
///   `held` and locks the account.
/// A deposit or withdrawal without an amount is an error and changes
/// nothing. Any other record that does not apply, or whose result would not
/// fit in an `i64` balance, only creates the account.
pub open spec fn step(s: LedgerState, t: Transaction) -> Result<LedgerState, TransactionErrorType> {
    let a = account_of(s, t.client_id);
    let touched = with_account(s, t.client_id, a);
    if a.locked {
        Ok(s)
    } else {
        match t.tx_type {
            TransactionType::Deposit => match t.amount {
                None => Err(TransactionErrorType::NoDepositAmount),
                Some(x) => if fits(a.available + x) {
                    Ok(LedgerState {
                        accounts: s.accounts.insert(
                            t.client_id,
                            AccountBalance { available: (a.available + x) as i64, ..a },
                        ),
                        deposits: s.deposits.insert(t.tx_id, x),
                        disputed: s.disputed,
                    })
                } else {
                    Ok(touched)
                },
            },
            TransactionType::Withdrawal => match t.amount {
                None => Err(TransactionErrorType::NoWithdrawalAmount),
                Some(x) => if 0 <= a.available - x <= i64::MAX {
                    Ok(with_account(s, t.client_id, AccountBalance { available: (a.available - x) as i64, ..a }))
                } else {
                    Ok(touched)
                },
            },
            TransactionType::Dispute => if s.deposits.contains_key(t.tx_id) {
                let x = s.deposits[t.tx_id];
                if fits(a.available - x) && fits(a.held + x) {
                    Ok(LedgerState {
                        accounts: s.accounts.insert(
                            t.client_id,
                            AccountBalance {
                                available: (a.available - x) as i64,
                                held: (a.held + x) as i64,
                                ..a
                            },
                        ),
                        deposits: s.deposits,
                        disputed: s.disputed.insert(t.tx_id),
                    })
                } else {
                    Ok(touched)
                }
            } else {
                Ok(touched)
            },
            TransactionType::Resolve => if s.disputed.contains(t.tx_id) && s.deposits.contains_key(
                t.tx_id,
            ) {
                let x = s.deposits[t.tx_id];
                if fits(a.available + x) && fits(a.held - x) {
                    Ok(with_account(
                        s,
                        t.client_id,
                        AccountBalance {
                            available: (a.available + x) as i64,
                            held: (a.held - x) as i64,
                            ..a
                        },
                    ))
                } else {
                    Ok(touched)
                }
            } else {
                Ok(touched)
            },
            TransactionType::Chargeback => if s.disputed.contains(t.tx_id)
                && s.deposits.contains_key(t.tx_id) {
                let x = s.deposits[t.tx_id];
                if fits(a.held - x) {
                    Ok(with_account(s, t.client_id, AccountBalance { held: (a.held - x) as i64, locked: true, ..a }))
                } else {
                    Ok(touched)
                }
            } else {
                Ok(touched)
            },
        }
    }
}

/// The state after applying `txs` in order from `s`, or the first error.
pub open spec fn run(s: LedgerState, txs: Seq<Transaction>) -> Result<LedgerState, TransactionErrorType>
    decreases txs.len(),
{
    if txs.len() == 0 {
        Ok(s)
    } else {
        match run(s, txs.drop_last()) {
            Ok(s1) => step(s1, txs.last()),
            Err(e) => Err(e),
        }
    }
}

/// The accounts of `m` whose client is below `n`, in ascending client order.
pub open spec fn listing(m: Map<u16, AccountBalance>, n: int) -> Seq<AccountBalance>
    decreases n,
{
    if n <= 0 {
        Seq::empty()
    } else if m.contains_key((n - 1) as u16) {
        listing(m, n - 1).push(m[(n - 1) as u16])
    } else {
        listing(m, n - 1)
    }
}

/// All accounts of `m`, in ascending client order.
pub open spec fn sorted_accounts(m: Map<u16, AccountBalance>) -> Seq<AccountBalance> {
    listing(m, CLIENT_COUNT as int)
}

/// The engine: the account table, the deposit index and the disputed set.
pub struct Ledger {
    accounts: HashMap<u16, AccountBalance>,
    deposits: HashMap<u32, i64>,
    disputed: HashSet<u32>,
}

impl View for Ledger {
    type V = LedgerState;

    closed spec fn view(&self) -> LedgerState {
        LedgerState { accounts: self.accounts@, deposits: self.deposits@, disputed: self.disputed@ }
    }
}

impl Ledger {
    pub fn new() -> (r: Ledger)
        ensures
            r@ == empty_state(),
    {
        let r = Ledger { accounts: HashMap::new(), deposits: HashMap::new(), disputed: HashSet::new() };
        assert(r@.accounts =~= empty_state().accounts);
        r
    }

    /// Applies one record; see `step`.
    pub fn apply(&mut self, t: &Transaction) -> (r: Result<(), TransactionRecordError>)
        requires
            state_wf(old(self)@),
        ensures
            state_wf(final(self)@),
            match step(old(self)@, *t) {
                Ok(s) => r is Ok && final(self)@ == s,
                Err(e) => r == Err::<(), TransactionRecordError>(TransactionRecordError { error_type: e })
                    && final(self)@ == old(self)@,
            },
    {
        let c = t.client_id;
        let a: AccountBalance = match self.accounts.get(&c) {
            Some(found) => *found,
            None => AccountBalance::new(c),
        };
        assert(a == account_of(old(self)@, c));
        if a.locked {
            return Ok(());
        }
        match t.tx_type {
            TransactionType::Deposit => match t.amount {
                None => {
                    return Err(TransactionRecordError { error_type: TransactionErrorType::NoDepositAmount });
                },
                Some(x) => {
                    let n = a.available as i128 + x as i128;
                    if i64::MIN as i128 <= n && n <= i64::MAX as i128 {
                        self.accounts.insert(c, AccountBalance { available: n as i64, ..a });
                        self.deposits.insert(t.tx_id, x);
                    } else {
                        self.accounts.insert(c, a);
                    }
                },
            },
            TransactionType::Withdrawal => match t.amount {
                None => {
                    return Err(
                        TransactionRecordError { error_type: TransactionErrorType::NoWithdrawalAmount },
                    );
                },
                Some(x) => {
                    let n = a.available as i128 - x as i128;
                    if 0 <= n && n <= i64::MAX as i128 {
                        self.accounts.insert(c, AccountBalance { available: n as i64, ..a });
                    } else {
                        self.accounts.insert(c, a);
                    }
                },
            },
            TransactionType::Dispute => match self.deposits.get(&t.tx_id) {
                Some(found) => {
                    let x = *found;
                    let na = a.available as i128 - x as i128;
                    let nh = a.held as i128 + x as i128;
                    if i64::MIN as i128 <= na && na <= i64::MAX as i128 && i64::MIN as i128 <= nh && nh
                        <= i64::MAX as i128 {
                        self.accounts.insert(c, AccountBalance { available: na as i64, held: nh as i64, ..a });
                        self.disputed.insert(t.tx_id);
                    } else {
                        self.accounts.insert(c, a);
                    }
                },
                None => {
                    self.accounts.insert(c, a);
                },
            },
            TransactionType::Resolve => {
                let found = if self.disputed.contains(&t.tx_id) {
                    self.deposits.get(&t.tx_id)
                } else {
                    None
                };
                match found {
                    Some(found) => {
                        let x = *found;
                        let na = a.available as i128 + x as i128;
                        let nh = a.held as i128 - x as i128;
                        if i64::MIN as i128 <= na && na <= i64::MAX as i128 && i64::MIN as i128 <= nh
                            && nh <= i64::MAX as i128 {
                            self.accounts.insert(
                                c,
                                AccountBalance { available: na as i64, held: nh as i64, ..a },
                            );
                        } else {
                            self.accounts.insert(c, a);
                        }
                    },
                    None => {
                        self.accounts.insert(c, a);
                    },
                }
            },
            TransactionType::Chargeback => {
                let found = if self.disputed.contains(&t.tx_id) {
                    self.deposits.get(&t.tx_id)
                } else {
                    None
                };
                match found {
                    Some(found) => {
                        let x = *found;
                        let nh = a.held as i128 - x as i128;
                        if i64::MIN as i128 <= nh && nh <= i64::MAX as i128 {
                            self.accounts.insert(c, AccountBalance { held: nh as i64, locked: true, ..a });
                        } else {
                            self.accounts.insert(c, a);
                        }
                    },
                    None => {
                        self.accounts.insert(c, a);
                    },
                }
            },
        }
        Ok(())
    }

    /// The accounts, ascending by client identifier. Changes nothing.
    pub fn snapshot(&self) -> (r: Vec<AccountBalance>)
        ensures
            r@ == sorted_accounts(self@.accounts),
    {
        let mut r: Vec<AccountBalance> = Vec::new();
        let mut c: u32 = 0;
        while c < CLIENT_COUNT
            invariant
                c <= CLIENT_COUNT,
                r@ == listing(self@.accounts, c as int),
            decreases CLIENT_COUNT - c,
        {
            let key = c as u16;
            match self.accounts.get(&key) {
                Some(found) => {
                    r.push(*found);
                },
                None => {},
            }
            c = c + 1;
        }
        r
    }
}

/// Applies `txs` in order to a fresh engine and lists the final accounts,
/// ascending by client; stops at the first fatal error.
pub fn process(txs: &Vec<Transaction>) -> (r: Result<Vec<AccountBalance>, TransactionRecordError>)
    ensures
        match run(empty_state(), txs@) {
            Ok(s) => r is Ok && r->Ok_0@ == sorted_accounts(s.accounts),
            Err(e) => r == Err::<Vec<AccountBalance>, TransactionRecordError>(
                TransactionRecordError { error_type: e },
            ),
        },
{
    let mut ledger = Ledger::new();
    let mut i: usize = 0;
    while i < txs.len()
        invariant
            0 <= i <= txs@.len(),
            state_wf(ledger@),
            run(empty_state(), txs@.take(i as int)) == Ok::<LedgerState, TransactionErrorType>(ledger@),
        decreases txs@.len() - i,
    {
        assert(txs@.take(i + 1).drop_last() =~= txs@.take(i as int));
        let res = ledger.apply(&txs[i]);
        match res {
            Ok(()) => {},
            Err(e) => {
                proof {
                    lemma_run_stops(empty_state(), txs@, i + 1);
                }
                return Err(e);
            },
        }
        i = i + 1;
    }
    assert(txs@.take(i as int) =~= txs@);
    Ok(ledger.snapshot())
}

/// Once a prefix of a run fails, the whole run fails with that error.
pub proof fn lemma_run_stops(s: LedgerState, txs: Seq<Transaction>, n: int)
    requires
        0 <= n <= txs.len(),
        run(s, txs.take(n)) is Err,
    ensures
        run(s, txs) == run(s, txs.take(n)),
    decreases txs.len() - n,
{
    if n < txs.len() {
        assert(txs.take(n + 1).drop_last() =~= txs.take(n));
        lemma_run_stops(s, txs, n + 1);
    } else {
        assert(txs.take(n) =~= txs);
    }
}

} // verus!
