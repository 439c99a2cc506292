use crate::accounts::AccountBalance;
use vstd::prelude::*;

verus! {

/// The decimal digits of `n`, most significant first, without leading zeros.
pub open spec fn decimal(n: nat) -> Seq<u8>
    decreases n,
{
    if n < 10 {
        seq![(48 + n) as u8]
    } else {
        decimal(n / 10).push((48 + n % 10) as u8)
    }
}

/// `v` ten-thousandths written with exactly four decimal places.
pub open spec fn fixed4(v: int) -> Seq<u8> {
    let m: nat = if v < 0 {
        (-v) as nat
    } else {
        v as nat
    };
    let f = m % 10000;
    let sign: Seq<u8> = if v < 0 {
        seq![45u8]
    } else {
        Seq::empty()
    };
    sign + decimal(m / 10000) + seq![
        46u8,
        (48 + f / 1000) as u8,
        (48 + f / 100 % 10) as u8,
        (48 + f / 10 % 10) as u8,
        (48 + f % 10) as u8,
    ]
}

/// `, `
pub open spec fn separator() -> Seq<u8> {
    seq![44u8, 32u8]
}

/// `true` or `false`.
pub open spec fn flag(b: bool) -> Seq<u8> {
    if b {
        seq![116u8, 114u8, 117u8, 101u8]
    } else {
        seq![102u8, 97u8, 108u8, 115u8, 101u8]
    }
}

/// `<client>, <available>, <held>, <total>, <locked>`
pub open spec fn line(a: AccountBalance) -> Seq<u8> {
    decimal(a.client as nat) + separator() + fixed4(a.available as int) + separator() + fixed4(
        a.held as int,
    ) + separator() + fixed4(a.total()) + separator() + flag(a.locked)
}

/// `client, available, held, total, locked`
pub open spec fn header_line() -> Seq<u8> {
    seq![
        99u8, 108u8, 105u8, 101u8, 110u8, 116u8, 44u8, 32u8, 97u8, 118u8, 97u8, 105u8, 108u8,
        97u8, 98u8, 108u8, 101u8, 44u8, 32u8, 104u8, 101u8, 108u8, 100u8, 44u8, 32u8, 116u8,
        111u8, 116u8, 97u8, 108u8, 44u8, 32u8, 108u8, 111u8, 99u8, 107u8, 101u8, 100u8,
    ]
}

/// The header line, then one line per account, separated by newlines.
pub open spec fn table(l: Seq<AccountBalance>) -> Seq<u8>
    decreases l.len(),
{
    if l.len() == 0 {
        header_line()
    } else {
        table(l.drop_last()) + seq![10u8] + line(l.last())
    }
}

fn push_bytes(out: &mut Vec<u8>, b: &[u8])
    ensures
        final(out)@ == old(out)@ + b@,
{
    let mut i: usize = 0;
    while i < b.len()
        invariant
            0 <= i <= b@.len(),
            out@ == old(out)@ + b@.take(i as int),
        decreases b@.len() - i,
    {
        assert(b@.take(i + 1) =~= b@.take(i as int).push(b@[i as int]));
        out.push(b[i]);
        i = i + 1;
    }
    assert(b@.take(i as int) =~= b@);
}

fn push_decimal(out: &mut Vec<u8>, n: u128)
    ensures
        final(out)@ == old(out)@ + decimal(n as nat),
    decreases n,
{
    if n < 10 {
        out.push((48 + n) as u8);
        assert(decimal(n as nat) =~= seq![(48 + n) as u8]);
    } else {
        push_decimal(out, n / 10);
        out.push((48 + n % 10) as u8);
    }
}

fn push_fixed4(out: &mut Vec<u8>, v: i128)
    requires
        v > i128::MIN,
    ensures
        final(out)@ == old(out)@ + fixed4(v as int),
{
    let m: u128 = if v < 0 {
        (-v) as u128
    } else {
        v as u128
    };
    let f = m % 10000;
    if v < 0 {
        out.push(45u8);
    }
    push_decimal(out, m / 10000);
    out.push(46u8);
    out.push((48 + f / 1000) as u8);
    out.push((48 + f / 100 % 10) as u8);
    out.push((48 + f / 10 % 10) as u8);
    out.push((48 + f % 10) as u8);
    assert(final(out)@ =~= old(out)@ + fixed4(v as int));
}

fn push_line(out: &mut Vec<u8>, a: &AccountBalance)
    ensures
        final(out)@ == old(out)@ + line(*a),
{
    let sep: [u8; 2] = [44u8, 32u8];  // ", "
    assert(sep@ =~= separator());
    push_decimal(out, a.client as u128);
    push_bytes(out, sep.as_slice());
    push_fixed4(out, a.available as i128);
    push_bytes(out, sep.as_slice());
    push_fixed4(out, a.held as i128);
    push_bytes(out, sep.as_slice());
    push_fixed4(out, a.get_total());
    push_bytes(out, sep.as_slice());
    if a.locked {
        let t: [u8; 4] = [116u8, 114u8, 117u8, 101u8];  // true
        assert(t@ =~= flag(true));
        push_bytes(out, t.as_slice());
    } else {
        let f: [u8; 5] = [102u8, 97u8, 108u8, 115u8, 101u8];  // false
        assert(f@ =~= flag(false));
        push_bytes(out, f.as_slice());
    }
    assert(final(out)@ =~= old(out)@ + line(*a));
}

/// Renders the accounts as a table: a header line, then for each account
/// its client, available, held and total funds to four decimal places, and
/// whether it is locked. The total is always `available + held`.
pub fn render(accounts: &Vec<AccountBalance>) -> (r: Vec<u8>)
    ensures
        r@ == table(accounts@),
{
    let head: [u8; 38] = [
        99u8, 108u8, 105u8, 101u8, 110u8, 116u8, 44u8, 32u8, 97u8, 118u8, 97u8, 105u8, 108u8,
        97u8, 98u8, 108u8, 101u8, 44u8, 32u8, 104u8, 101u8, 108u8, 100u8, 44u8, 32u8, 116u8,
        111u8, 116u8, 97u8, 108u8, 44u8, 32u8, 108u8, 111u8, 99u8, 107u8, 101u8, 100u8,
    ];
    assert(head@ =~= header_line());
    let mut out: Vec<u8> = Vec::new();
    push_bytes(&mut out, head.as_slice());
    assert(out@ =~= table(accounts@.take(0)));
    let mut i: usize = 0;
    while i < accounts.len()
        invariant
            0 <= i <= accounts@.len(),
            out@ == table(accounts@.take(i as int)),
        decreases accounts@.len() - i,
    {
        assert(accounts@.take(i + 1).drop_last() =~= accounts@.take(i as int));
        out.push(10u8);
        push_line(&mut out, &accounts[i]);
        i = i + 1;
    }
    assert(accounts@.take(i as int) =~= accounts@);
    out
}

} // verus!
