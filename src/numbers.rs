use vstd::prelude::*;

verus! {

/// An ASCII decimal digit.
pub open spec fn is_digit(b: u8) -> bool {
    48 <= b <= 57
}

pub open spec fn all_digits(s: Seq<u8>) -> bool {
    forall|i: int| 0 <= i < s.len() ==> is_digit(#[trigger] s[i])
}

/// The value of a string of decimal digits, most significant first.
pub open spec fn digits_value(s: Seq<u8>) -> nat
    decreases s.len(),
{
    if s.len() == 0 {
        0
    } else {
        digits_value(s.drop_last()) * 10 + (s.last() as int - 48) as nat
    }
}

pub open spec fn pow10(n: nat) -> nat
    decreases n,
{
    if n == 0 {
        1
    } else {
        10 * pow10((n - 1) as nat)
    }
}

/// The unsigned integer written in `s`: one or more decimal digits whose
/// value is at most `max`.
pub open spec fn unsigned_value(s: Seq<u8>, max: int) -> Option<int> {
    if s.len() > 0 && all_digits(s) && digits_value(s) <= max {
        Some(digits_value(s) as int)
    } else {
        None
    }
}

/// A longer run of digits never has a smaller value.
proof fn lemma_digits_value_grows(s: Seq<u8>, k: int)
    requires
        0 <= k <= s.len(),
        all_digits(s),
    ensures
        digits_value(s.take(k)) <= digits_value(s),
    decreases s.len() - k,
{
    if k < s.len() {
        lemma_digits_value_grows(s, k + 1);
        assert(s.take(k + 1).drop_last() =~= s.take(k));
    } else {
        assert(s.take(k) =~= s);
    }
}

/// `n` digits have a value below `10^n`.
proof fn lemma_digits_value_bound(s: Seq<u8>)
    requires
        all_digits(s),
    ensures
        digits_value(s) < pow10(s.len()),
    decreases s.len(),
{
    if s.len() > 0 {
        let p = s.drop_last();
        assert(all_digits(p));
        lemma_digits_value_bound(p);
        let v = digits_value(p);
        let d = s.last() as int - 48;
        assert(v * 10 + d < 10 * pow10(p.len())) by (nonlinear_arith)
            requires
                v < pow10(p.len()),
                0 <= d <= 9,
        ;
    }
}

proof fn lemma_pow10_monotone(m: nat, n: nat)
    requires
        m <= n,
    ensures
        pow10(m) <= pow10(n),
    decreases n - m,
{
    if m < n {
        lemma_pow10_monotone(m, (n - 1) as nat);
    }
}

/// Reads the digits `s[lo..hi]` as an unsigned integer of at most `max`.
pub fn parse_unsigned(s: &[u8], lo: usize, hi: usize, max: u64) -> (r: Option<u64>)
    requires
        lo <= hi <= s@.len(),
        max <= 1_000_000_000_000_000,
    ensures
        match unsigned_value(s@.subrange(lo as int, hi as int), max as int) {
            Some(v) => r == Some(v as u64),
            None => r is None,
        },
{
    let ghost t = s@.subrange(lo as int, hi as int);
    if lo == hi {
        return None;
    }
    let mut acc: u64 = 0;
    let mut i: usize = lo;
    while i < hi
        invariant
            lo <= i <= hi <= s@.len(),
            t == s@.subrange(lo as int, hi as int),
            max <= 1_000_000_000_000_000,
            all_digits(t.take(i - lo)),
            acc == digits_value(t.take(i - lo)),
            acc <= max,
        decreases hi - i,
    {
        let b = s[i];
        if b < 48 || b > 57 {
            assert(t[i - lo] == b);
            return None;
        }
        assert(t.take(i - lo + 1).drop_last() =~= t.take(i - lo));
        assert(t.take(i - lo + 1).last() == b);
        let next: u64 = acc * 10 + (b - 48) as u64;
        assert(all_digits(t.take(i - lo + 1)));
        if next > max {
            proof {
                if all_digits(t) {
                    lemma_digits_value_grows(t, i - lo + 1);
                }
            }
            return None;
        }
        acc = next;
        i = i + 1;
    }
    assert(t.take(i - lo) =~= t);
    Some(acc)
}

/// The largest integer part whose amount can fit in an `i64`.
pub const AMOUNT_INT_MAX: u64 = 922_337_203_685_477;

/// The part of `s` after an optional leading `-` or `+`.
pub open spec fn unsigned_body(s: Seq<u8>) -> Seq<u8> {
    if s.len() > 0 && (s[0] == 45u8 || s[0] == 43u8) {
        s.drop_first()
    } else {
        s
    }
}

/// The digits before the first `.` of `b` (all of `b` without one).
pub open spec fn int_part(b: Seq<u8>) -> Seq<u8> {
    match b.index_of_first(46u8) {
        Some(k) => b.take(k),
        None => b,
    }
}

/// The digits after the first `.` of `b` (none without one).
pub open spec fn frac_part(b: Seq<u8>) -> Seq<u8> {
    match b.index_of_first(46u8) {
        Some(k) => b.skip(k + 1),
        None => Seq::empty(),
    }
}

/// The amount written in `s`, in ten-thousandths: an optional sign, decimal
/// digits, and optionally a `.` with at most four more digits; at least
/// one digit in all, and a value that fits in an `i64`.
pub open spec fn amount_value(s: Seq<u8>) -> Option<int> {
    let b = unsigned_body(s);
    let ip = int_part(b);
    let fp = frac_part(b);
    let mag: int = (digits_value(ip) * 10000 + digits_value(fp) * pow10((4 - fp.len()) as nat)) as int;
    let v = if s.len() > 0 && s[0] == 45u8 {
        -mag
    } else {
        mag
    };
    if all_digits(ip) && all_digits(fp) && fp.len() <= 4 && ip.len() + fp.len() > 0 && i64::MIN
        <= v <= i64::MAX {
        Some(v)
    } else {
        None
    }
}

/// The index of the first `.` in `s[start..]`, or `s.len()` without one.
fn find_dot(s: &[u8], start: usize) -> (k: usize)
    requires
        start <= s@.len(),
    ensures
        start <= k <= s@.len(),
        ({
            let b = s@.subrange(start as int, s@.len() as int);
            &&& int_part(b) == s@.subrange(start as int, k as int)
            &&& k < s@.len() ==> frac_part(b) == s@.subrange(k + 1, s@.len() as int)
            &&& k == s@.len() ==> frac_part(b) == Seq::<u8>::empty()
        }),
{
    let len = s.len();
    let ghost b = s@.subrange(start as int, len as int);
    let mut k: usize = start;
    while k < len && s[k] != 46u8
        invariant
            start <= k <= len == s@.len(),
            forall|j: int| start <= j < k ==> s@[j] != 46u8,
        decreases len - k,
    {
        k = k + 1;
    }
    proof {
        b.index_of_first_ensures(46u8);
        if k < len {
            assert(b[k - start] == 46u8);
            assert(b.contains(46u8));
            assert(b.take(k - start) =~= s@.subrange(start as int, k as int));
            assert(b.skip(k - start + 1) =~= s@.subrange(k + 1, len as int));
        } else {
            assert(!b.contains(46u8));
            assert(b =~= s@.subrange(start as int, k as int));
        }
    }
    k
}

/// Reads the fraction digits `s[lo..hi]`, at most four, as ten-thousandths.
fn parse_fraction(s: &[u8], lo: usize, hi: usize) -> (r: Option<u64>)
    requires
        lo <= hi <= s@.len(),
        hi - lo <= 4,
    ensures
        ({
            let f = s@.subrange(lo as int, hi as int);
            &&& all_digits(f) ==> r is Some && r->0 == digits_value(f) * pow10((4 - f.len()) as nat)
            &&& !all_digits(f) ==> r is None
            &&& r matches Some(v) ==> v <= 10000
        }),
{
    let ghost f = s@.subrange(lo as int, hi as int);
    proof {
        reveal_with_fuel(pow10, 5);
    }
    if lo == hi {
        assert(f.len() == 0 && digits_value(f) == 0);
        return Some(0);
    }
    match parse_unsigned(s, lo, hi, 9999) {
        Some(v) => {
            let n = hi - lo;
            let scale: u64 = if n == 1 {
                1000
            } else if n == 2 {
                100
            } else if n == 3 {
                10
            } else {
                1
            };
            proof {
                lemma_digits_value_bound(f);
            }
            assert(scale == pow10((4 - f.len()) as nat));
            assert(v * scale <= 10000) by (nonlinear_arith)
                requires
                    v < pow10(f.len()),
                    f.len() == n,
                    (n == 1 && scale == 1000 && pow10(1) == 10) || (n == 2 && scale == 100 && pow10(
                        2,
                    ) == 100) || (n == 3 && scale == 10 && pow10(3) == 1000) || (n == 4 && scale
                        == 1 && pow10(4) == 10000),
            ;
            Some(v * scale)
        },
        None => {
            proof {
                if all_digits(f) {
                    lemma_digits_value_bound(f);
                    lemma_pow10_monotone(f.len(), 4);
                }
            }
            None
        },
    }
}

/// Reads an amount; see `amount_value`.
pub fn parse_amount(s: &[u8]) -> (r: Option<i64>)
    ensures
        match amount_value(s@) {
            Some(v) => r == Some(v as i64),
            None => r is None,
        },
{
    let len = s.len();
    let neg = len > 0 && s[0] == 45u8;
    let start: usize = if len > 0 && (s[0] == 45u8 || s[0] == 43u8) {
        1
    } else {
        0
    };
    let ghost b = unsigned_body(s@);
    assert(b =~= s@.subrange(start as int, len as int));
    let k = find_dot(s, start);
    let frac_lo: usize = if k < len {
        k + 1
    } else {
        len
    };
    let ghost ipart = int_part(b);
    let ghost fpart = frac_part(b);
    assert(fpart =~= s@.subrange(frac_lo as int, len as int));
    if len - frac_lo > 4 || (k == start && frac_lo == len) {
        return None;
    }
    let ip: u64 = if k == start {
        assert(ipart =~= Seq::<u8>::empty());
        0
    } else {
        match parse_unsigned(s, start, k, AMOUNT_INT_MAX) {
            Some(v) => v,
            None => {
                proof {
                    if all_digits(ipart) {
                        assert(digits_value(ipart) * 10000 >= (AMOUNT_INT_MAX + 1) * 10000)
                            by (nonlinear_arith)
                            requires
                                digits_value(ipart) >= AMOUNT_INT_MAX + 1,
                        ;
                    }
                }
                return None;
            },
        }
    };
    let fv: u64 = match parse_fraction(s, frac_lo, len) {
        Some(v) => v,
        None => {
            return None;
        },
    };
    assert(all_digits(ipart) && ip == digits_value(ipart));
    assert(all_digits(fpart) && fv == digits_value(fpart) * pow10((4 - fpart.len()) as nat));
    let mag: i128 = ip as i128 * 10000 + fv as i128;
    let v: i128 = if neg {
        -mag
    } else {
        mag
    };
    if v < i64::MIN as i128 || v > i64::MAX as i128 {
        return None;
    }
    Some(v as i64)
}

} // verus!
