use crate::accounts::AccountBalance;
use crate::custom_errors::TransactionRecordError;
use crate::ledger::{empty_state, sorted_accounts, state_wf, step, Ledger, LedgerState};
use crate::numbers::{amount_value, parse_amount, parse_unsigned, unsigned_value};
use crate::transactions::{bytes_equal, kind_of, Transaction, TransactionType};
use vstd::prelude::*;

verus! {

/// Why a record could not be decoded.
#[derive(Clone, Copy, Debug, PartialEq, Eq, Structural)]
pub enum DecodeError {
    /// The reader could not split the record into fields.
    Malformed,
    /// The record has no `type`, `client` or `tx` field.
    MissingField,
    /// The `type` field names no transaction kind.
    UnknownType,
    /// The `client` field is not a `u16`.
    BadClient,
    /// The `tx` field is not a `u32`.
    BadTx,
    /// The `amount` field is not an amount.
    BadAmount,
}

/// A fatal error that ends a run.
#[derive(Clone, Copy, Debug, PartialEq, Eq, Structural)]
pub enum ProcessError {
    Decode(DecodeError),
    Record(TransactionRecordError),
}

/// `type`
pub open spec fn type_column() -> Seq<u8> {
    seq![116u8, 121u8, 112u8, 101u8]
}

/// `client`
pub open spec fn client_column() -> Seq<u8> {
    seq![99u8, 108u8, 105u8, 101u8, 110u8, 116u8]
}

/// `tx`
pub open spec fn tx_column() -> Seq<u8> {
    seq![116u8, 120u8]
}

/// `amount`
pub open spec fn amount_column() -> Seq<u8> {
    seq![97u8, 109u8, 111u8, 117u8, 110u8, 116u8]
}

/// The field of `row` under the first header named `name`, if the row is
/// long enough to have it.
pub open spec fn field(header: Seq<Seq<u8>>, row: Seq<Seq<u8>>, name: Seq<u8>) -> Option<Seq<u8>> {
    match header.index_of_first(name) {
        Some(j) => if j < row.len() {
            Some(row[j])
        } else {
            None
        },
        None => None,
    }
}

/// The transaction that `row` holds, its columns named by `header`. An
/// absent or empty `amount` field is no amount.
pub open spec fn decoded(header: Seq<Seq<u8>>, row: Seq<Seq<u8>>) -> Result<Transaction, DecodeError> {
    match (
        field(header, row, type_column()),
        field(header, row, client_column()),
        field(header, row, tx_column()),
    ) {
        (Some(tf), Some(cf), Some(xf)) => match (
            kind_of(tf),
            unsigned_value(cf, u16::MAX as int),
            unsigned_value(xf, u32::MAX as int),
        ) {
            (None, _, _) => Err(DecodeError::UnknownType),
            (_, None, _) => Err(DecodeError::BadClient),
            (_, _, None) => Err(DecodeError::BadTx),
            (Some(k), Some(c), Some(x)) => {
                let af = field(header, row, amount_column());
                if af is None || af->0.len() == 0 {
                    Ok(Transaction { tx_type: k, client_id: c as u16, tx_id: x as u32, amount: None })
                } else {
                    match amount_value(af->0) {
                        Some(v) => Ok(
                            Transaction {
                                tx_type: k,
                                client_id: c as u16,
                                tx_id: x as u32,
                                amount: Some(v as i64),
                            },
                        ),
                        None => Err(DecodeError::BadAmount),
                    }
                }
            },
        },
        _ => Err(DecodeError::MissingField),
    }
}

/// The state after the records `rows` (the header left out) are decoded and
/// applied in order from `s`, or the first error.
pub open spec fn run_rows(
    header: Seq<Seq<u8>>,
    s: LedgerState,
    rows: Seq<Option<Seq<Seq<u8>>>>,
) -> Result<LedgerState, ProcessError>
    decreases rows.len(),
{
    if rows.len() == 0 {
        Ok(s)
    } else {
        match run_rows(header, s, rows.drop_last()) {
            Err(e) => Err(e),
            Ok(s1) => match rows.last() {
                None => Err(ProcessError::Decode(DecodeError::Malformed)),
                Some(row) => match decoded(header, row) {
                    Err(d) => Err(ProcessError::Decode(d)),
                    Ok(t) => match step(s1, t) {
                        Ok(s2) => Ok(s2),
                        Err(e) => Err(ProcessError::Record(TransactionRecordError { error_type: e })),
                    },
                },
            },
        }
    }
}

/// The final accounts, ascending by client, for the records `rows` whose
/// first is the header; no records at all give no accounts.
pub open spec fn outcome(rows: Seq<Option<Seq<Seq<u8>>>>) -> Result<Seq<AccountBalance>, ProcessError> {
    if rows.len() == 0 {
        Ok(Seq::empty())
    } else {
        match rows[0] {
            None => Err(ProcessError::Decode(DecodeError::Malformed)),
            Some(header) => match run_rows(header, empty_state(), rows.drop_first()) {
                Ok(s) => Ok(sorted_accounts(s.accounts)),
                Err(e) => Err(e),
            },
        }
    }
}

/// The index of the first header named `name`.
fn find_column(header: &Vec<Vec<u8>>, name: &[u8]) -> (r: Option<usize>)
    ensures
        r is None <==> header.deep_view().index_of_first(name@) is None,
        r matches Some(j) ==> header.deep_view().index_of_first(name@) == Some(j as int),
{
    let ghost h = header.deep_view();
    let mut j: usize = 0;
    while j < header.len()
        invariant
            0 <= j <= header@.len() == h.len(),
            h == header.deep_view(),
            forall|i: int| 0 <= i < j ==> h[i] != name@,
        decreases header@.len() - j,
    {
        assert(h[j as int] =~= header@[j as int]@);
        if bytes_equal(header[j].as_slice(), name) {
            proof {
                h.index_of_first_ensures(name@);
                assert(h.contains(name@));
            }
            return Some(j);
        }
        j = j + 1;
    }
    proof {
        h.index_of_first_ensures(name@);
    }
    None
}

/// The field of `row` under the first header named `name`; see `field`.
fn lookup<'a>(header: &Vec<Vec<u8>>, row: &'a Vec<Vec<u8>>, name: &[u8]) -> (r: Option<&'a Vec<u8>>)
    ensures
        match field(header.deep_view(), row.deep_view(), name@) {
            Some(f) => r is Some && r->0@ == f,
            None => r is None,
        },
{
    assert(row.deep_view().len() == row@.len());
    match find_column(header, name) {
        Some(j) => if j < row.len() {
            assert(row.deep_view()[j as int] =~= row@[j as int]@);
            Some(&row[j])
        } else {
            None
        },
        None => None,
    }
}

/// Decodes one record; see `decoded`.
pub fn decode_row(header: &Vec<Vec<u8>>, row: &Vec<Vec<u8>>) -> (r: Result<Transaction, DecodeError>)
    ensures
        r == decoded(header.deep_view(), row.deep_view()),
{
    let kind_header: [u8; 4] = [116u8, 121u8, 112u8, 101u8];  // type
    let client_header: [u8; 6] = [99u8, 108u8, 105u8, 101u8, 110u8, 116u8];  // client
    let tx_header: [u8; 2] = [116u8, 120u8];  // tx
    let amount_header: [u8; 6] = [97u8, 109u8, 111u8, 117u8, 110u8, 116u8];  // amount
    assert(kind_header@ =~= type_column());
    assert(client_header@ =~= client_column());
    assert(tx_header@ =~= tx_column());
    assert(amount_header@ =~= amount_column());
    let tf = lookup(header, row, kind_header.as_slice());
    let cf = lookup(header, row, client_header.as_slice());
    let xf = lookup(header, row, tx_header.as_slice());
    let af = lookup(header, row, amount_header.as_slice());
    let (tf, cf, xf) = match (tf, cf, xf) {
        (Some(tf), Some(cf), Some(xf)) => (tf, cf, xf),
        _ => {
            return Err(DecodeError::MissingField);
        },
    };
    let kind = match TransactionType::try_from(tf.as_slice()) {
        Ok(k) => k,
        Err(_) => {
            return Err(DecodeError::UnknownType);
        },
    };
    let client = match parse_unsigned(cf.as_slice(), 0, cf.len(), 65535) {
        Some(c) => c,
        None => {
            assert(cf@.subrange(0, cf@.len() as int) =~= cf@);
            return Err(DecodeError::BadClient);
        },
    };
    assert(cf@.subrange(0, cf@.len() as int) =~= cf@);
    let tx = match parse_unsigned(xf.as_slice(), 0, xf.len(), 4294967295) {
        Some(x) => x,
        None => {
            assert(xf@.subrange(0, xf@.len() as int) =~= xf@);
            return Err(DecodeError::BadTx);
        },
    };
    assert(xf@.subrange(0, xf@.len() as int) =~= xf@);
    let amount = match af {
        None => None,
        Some(f) => if f.len() == 0 {
            None
        } else {
            match parse_amount(f.as_slice()) {
                Some(v) => Some(v),
                None => {
                    return Err(DecodeError::BadAmount);
                },
            }
        },
    };
    Ok(Transaction { tx_type: kind, client_id: client as u16, tx_id: tx as u32, amount })
}

/// Decodes and applies `rows`, whose first is the header, to a fresh
/// engine and lists the final accounts; see `outcome`.
pub fn process_records(rows: &Vec<Option<Vec<Vec<u8>>>>) -> (r: Result<Vec<AccountBalance>, ProcessError>)
    ensures
        match outcome(rows.deep_view()) {
            Ok(l) => r is Ok && r->Ok_0@ == l,
            Err(e) => r == Err::<Vec<AccountBalance>, ProcessError>(e),
        },
{
    let ghost all = rows.deep_view();
    if rows.len() == 0 {
        return Ok(Vec::new());
    }
    let header = match &rows[0] {
        Some(h) => h,
        None => {
            return Err(ProcessError::Decode(DecodeError::Malformed));
        },
    };
    let ghost h = header.deep_view();
    let ghost body = all.drop_first();
    let mut ledger = Ledger::new();
    let mut i: usize = 1;
    while i < rows.len()
        invariant
            1 <= i <= rows@.len() == all.len(),
            all == rows.deep_view(),
            body == all.drop_first(),
            all[0] == Some(h),
            h == header.deep_view(),
            state_wf(ledger@),
            run_rows(h, empty_state(), body.take(i - 1)) == Ok::<LedgerState, ProcessError>(ledger@),
        decreases rows@.len() - i,
    {
        assert(body.take(i as int).drop_last() =~= body.take(i - 1));
        assert(body.take(i as int).last() == all[i as int]);
        let res = match &rows[i] {
            None => Err(ProcessError::Decode(DecodeError::Malformed)),
            Some(row) => match decode_row(header, row) {
                Err(d) => Err(ProcessError::Decode(d)),
                Ok(t) => match ledger.apply(&t) {
                    Ok(()) => Ok(()),
                    Err(e) => Err(ProcessError::Record(e)),
                },
            },
        };
        match res {
            Ok(()) => {},
            Err(e) => {
                proof {
                    lemma_run_rows_stops(h, empty_state(), body, i as int);
                }
                return Err(e);
            },
        }
        i = i + 1;
    }
    assert(body.take(i - 1) =~= body);
    Ok(ledger.snapshot())
}

/// Once a prefix of the records fails, all of them fail with that error.
proof fn lemma_run_rows_stops(
    header: Seq<Seq<u8>>,
    s: LedgerState,
    rows: Seq<Option<Seq<Seq<u8>>>>,
    n: int,
)
    requires
        0 <= n <= rows.len(),
        run_rows(header, s, rows.take(n)) is Err,
    ensures
        run_rows(header, s, rows) == run_rows(header, s, rows.take(n)),
    decreases rows.len() - n,
{
    if n < rows.len() {
        assert(rows.take(n + 1).drop_last() =~= rows.take(n));
        lemma_run_rows_stops(header, s, rows, n + 1);
    } else {
        assert(rows.take(n) =~= rows);
    }
}

/// What the csv reader makes of an input: its records in order, each as
/// its fields, or `None` for a record it could not read.
pub uninterp spec fn csv_records(input: Seq<u8>) -> Seq<Option<Seq<Seq<u8>>>>;

/// Relies on csv's `ReaderBuilder` and `Reader::byte_records`: the records
/// of comma-delimited `input`, with every field trimmed and rows of any
/// length, the header row among them.
#[verifier::external_body]
fn read_records(input: &[u8]) -> (r: Vec<Option<Vec<Vec<u8>>>>)
    ensures
        r.deep_view() == csv_records(input@),
{
    let mut reader = csv::ReaderBuilder::new()
        .delimiter(b',')
        .trim(csv::Trim::All)
        .flexible(true)
        .has_headers(false)
        .from_reader(input);
    reader
        .byte_records()
        .map(|rec| rec.ok().map(|fields| fields.iter().map(|f| f.to_vec()).collect()))
        .collect()
}

/// Reads `input` as comma-separated records with the columns `type`,
/// `client`, `tx` and `amount`, applies them in order to a fresh engine and
/// lists the final accounts, ascending by client.
pub fn process_csv(input: &[u8]) -> (r: Result<Vec<AccountBalance>, ProcessError>)
    ensures
        match outcome(csv_records(input@)) {
            Ok(l) => r is Ok && r->Ok_0@ == l,
            Err(e) => r == Err::<Vec<AccountBalance>, ProcessError>(e),
        },
{
    let rows = read_records(input);
    process_records(&rows)
}

} // verus!
