use crate::accounts::AccountBalance;
use crate::custom_errors::TransactionErrorType;
use crate::ledger::{
    account_of, empty_state, lemma_run_stops, listing, run, sorted_accounts, state_wf, step,
    LedgerState, CLIENT_COUNT,
};
use crate::transactions::{Transaction, TransactionType};
use vstd::prelude::*;

verus! {

/// A single deposit of `a` into a fresh engine leaves exactly one account:
/// `a` available, nothing held, not locked.
pub proof fn deposit_alone(c: u16, tx: u32, a: i64)
    ensures
        ({
            let t = Transaction { tx_type: TransactionType::Deposit, client_id: c, tx_id: tx, amount: Some(a) };
            &&& run(empty_state(), seq![t]) is Ok
            &&& run(empty_state(), seq![t])->Ok_0.accounts == map![c => AccountBalance {
                client: c,
                available: a,
                held: 0,
                locked: false,
            }]
        }),
{
    let t = Transaction { tx_type: TransactionType::Deposit, client_id: c, tx_id: tx, amount: Some(a) };
    assert(seq![t].drop_last() =~= Seq::<Transaction>::empty());
    assert(run(empty_state(), Seq::<Transaction>::empty()) == Ok::<LedgerState, TransactionErrorType>(empty_state()));
    let s = run(empty_state(), seq![t])->Ok_0;
    assert(s.accounts =~= map![c => AccountBalance { client: c, available: a, held: 0, locked: false }]);
}

/// A deposit of `a` followed by a withdrawal of `b` leaves `a - b`
/// available when `b <= a`, and `a` when `b > a`.
pub proof fn deposit_then_withdrawal(c: u16, tx1: u32, tx2: u32, a: i64, b: i64)
    requires
        a - b <= i64::MAX,
    ensures
        ({
            let d = Transaction { tx_type: TransactionType::Deposit, client_id: c, tx_id: tx1, amount: Some(a) };
            let w = Transaction { tx_type: TransactionType::Withdrawal, client_id: c, tx_id: tx2, amount: Some(b) };
            let r = run(empty_state(), seq![d, w]);
            &&& r is Ok
            &&& b <= a ==> r->Ok_0.accounts[c].available == a - b
            &&& b > a ==> r->Ok_0.accounts[c].available == a
            &&& r->Ok_0.accounts[c].held == 0
            &&& !r->Ok_0.accounts[c].locked
        }),
{
    let d = Transaction { tx_type: TransactionType::Deposit, client_id: c, tx_id: tx1, amount: Some(a) };
    let w = Transaction { tx_type: TransactionType::Withdrawal, client_id: c, tx_id: tx2, amount: Some(b) };
    assert(seq![d, w].drop_last() =~= seq![d]);
    assert(seq![d].drop_last() =~= Seq::<Transaction>::empty());
    assert(run(empty_state(), Seq::<Transaction>::empty()) == Ok::<LedgerState, TransactionErrorType>(empty_state()));
    let s1 = run(empty_state(), seq![d]);
    assert(s1 is Ok && account_of(s1->Ok_0, c) == AccountBalance { client: c, available: a, held: 0, locked: false });
}

/// A dispute, resolve or chargeback of a transaction id with no recorded
/// deposit raises no error and changes no account, nor the deposit index,
/// nor the disputed set.
pub proof fn unknown_reference_changes_nothing(s: LedgerState, t: Transaction)
    requires
        t.tx_type == TransactionType::Dispute || t.tx_type == TransactionType::Resolve
            || t.tx_type == TransactionType::Chargeback,
        !s.deposits.contains_key(t.tx_id),
    ensures
        step(s, t) is Ok,
        forall|c: u16| account_of(step(s, t)->Ok_0, c) == account_of(s, c),
        step(s, t)->Ok_0.deposits == s.deposits,
        step(s, t)->Ok_0.disputed == s.disputed,
{
    let s2 = step(s, t)->Ok_0;
    assert forall|c: u16| account_of(s2, c) == account_of(s, c) by {
        if c != t.client_id {
            assert(s2.accounts.contains_key(c) == s.accounts.contains_key(c));
        }
    }
}

/// A deposit or withdrawal without an amount, for an account that is not
/// locked, ends the whole run with the error of its kind, whatever follows.
pub proof fn missing_amount_aborts(
    s: LedgerState,
    before: Seq<Transaction>,
    t: Transaction,
    after: Seq<Transaction>,
)
    requires
        run(s, before) is Ok,
        !account_of(run(s, before)->Ok_0, t.client_id).locked,
        t.tx_type == TransactionType::Deposit || t.tx_type == TransactionType::Withdrawal,
        t.amount is None,
    ensures
        t.tx_type == TransactionType::Deposit ==> run(s, before.push(t) + after) == Err::<
            LedgerState,
            TransactionErrorType,
        >(TransactionErrorType::NoDepositAmount),
        t.tx_type == TransactionType::Withdrawal ==> run(s, before.push(t) + after) == Err::<
            LedgerState,
            TransactionErrorType,
        >(TransactionErrorType::NoWithdrawalAmount),
{
    let all = before.push(t) + after;
    let n = before.len() as int + 1;
    assert(all.take(n) =~= before.push(t));
    assert(before.push(t).drop_last() =~= before);
    lemma_run_stops(s, all, n);
}

/// A record for a locked account changes nothing at all.
pub proof fn locked_is_frozen(s: LedgerState, t: Transaction)
    requires
        account_of(s, t.client_id).locked,
    ensures
        step(s, t) == Ok::<LedgerState, TransactionErrorType>(s),
{
}

/// A locked account stays locked, whatever record comes next.
pub proof fn locked_stays_locked(s: LedgerState, t: Transaction, c: u16)
    requires
        account_of(s, c).locked,
        step(s, t) is Ok,
    ensures
        account_of(step(s, t)->Ok_0, c).locked,
{
    let s2 = step(s, t)->Ok_0;
    if c != t.client_id {
        assert(s2.accounts.contains_key(c) == s.accounts.contains_key(c));
        assert(account_of(s2, c) == account_of(s, c));
    }
}

/// Each record keeps every account stored under its own client.
pub proof fn step_keeps_wf(s: LedgerState, t: Transaction)
    requires
        state_wf(s),
        step(s, t) is Ok,
    ensures
        state_wf(step(s, t)->Ok_0),
{
}

proof fn lemma_listing(m: Map<u16, AccountBalance>, n: int)
    requires
        0 <= n <= CLIENT_COUNT,
        forall|k: u16| #[trigger] m.contains_key(k) ==> m[k].client == k,
    ensures
        ({
            let l = listing(m, n);
            &&& forall|i: int| 0 <= i < l.len() ==> (#[trigger] l[i]).client < n
            &&& forall|i: int, j: int| 0 <= i < j < l.len() ==> (#[trigger] l[i]).client < (
            #[trigger] l[j]).client
            &&& forall|i: int|
                0 <= i < l.len() ==> m.contains_key((#[trigger] l[i]).client) && m[l[i].client]
                    == l[i]
            &&& forall|k: u16|
                #[trigger] m.contains_key(k) && k < n ==> exists|i: int|
                    0 <= i < l.len() && (#[trigger] l[i]).client == k
        }),
    decreases n,
{
    if n > 0 {
        lemma_listing(m, n - 1);
        let p = listing(m, n - 1);
        let l = listing(m, n);
        let key = (n - 1) as u16;
        if m.contains_key(key) {
            assert(l == p.push(m[key]));
            assert(l[p.len() as int].client == key);
            assert forall|k: u16| #[trigger] m.contains_key(k) && k < n implies exists|i: int|
                0 <= i < l.len() && (#[trigger] l[i]).client == k by {
                if k < n - 1 {
                    let i = choose|i: int| 0 <= i < p.len() && (#[trigger] p[i]).client == k;
                    assert(l[i] == p[i]);
                } else {
                    assert(l[p.len() as int].client == k);
                }
            }
        } else {
            assert forall|k: u16| #[trigger] m.contains_key(k) && k < n implies exists|i: int|
                0 <= i < l.len() && (#[trigger] l[i]).client == k by {
                assert(k < n - 1);
            }
        }
    }
}

/// The snapshot lists every account exactly once, in strictly ascending
/// client order, whatever order the clients first appeared in.
pub proof fn snapshot_sorted(s: LedgerState)
    requires
        state_wf(s),
    ensures
        ({
            let l = sorted_accounts(s.accounts);
            &&& forall|i: int, j: int| 0 <= i < j < l.len() ==> (#[trigger] l[i]).client < (
            #[trigger] l[j]).client
            &&& forall|i: int|
                0 <= i < l.len() ==> s.accounts.contains_key((#[trigger] l[i]).client)
                    && s.accounts[l[i].client] == l[i]
            &&& forall|c: u16|
                #[trigger] s.accounts.contains_key(c) ==> exists|i: int|
                    0 <= i < l.len() && (#[trigger] l[i]).client == c
        }),
{
    lemma_listing(s.accounts, CLIENT_COUNT as int);
    let l = sorted_accounts(s.accounts);
    assert(l == listing(s.accounts, CLIENT_COUNT as int));
    assert forall|c: u16| #[trigger] s.accounts.contains_key(c) implies exists|i: int|
        0 <= i < l.len() && (#[trigger] l[i]).client == c by {
        assert(c < CLIENT_COUNT);
    }
}

} // verus!
