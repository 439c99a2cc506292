//! Text is handled as bytes; byte constants are written as their ASCII codes.

use vstd::prelude::*;

verus! {

/// The closed set of transaction kinds.
#[derive(Clone, Copy, Debug, PartialEq, Eq, Structural)]
pub enum TransactionType {
    Deposit,
    Withdrawal,
    Dispute,
    Resolve,
    Chargeback,
}

/// The `type` field named no known transaction kind.
#[derive(Clone, Copy, Debug, PartialEq, Eq, Structural)]
pub struct TransactionTypeFromStrError;

impl TransactionTypeFromStrError {
    /// The user-facing text of the error.
    pub fn message(&self) -> (r: &'static str)
        ensures
            r@ == "Could not decode CSV type into the transaction type enum"@,
    {
        "Could not decode CSV type into the transaction type enum"
    }
}

/// One decoded record. `amount`, in ten-thousandths of a unit, is required
/// by deposits and withdrawals and ignored by the other kinds.
#[derive(Clone, Copy, Debug, PartialEq, Eq, Structural)]
pub struct Transaction {
    pub tx_type: TransactionType,
    pub client_id: u16,
    pub tx_id: u32,
    pub amount: Option<i64>,
}

/// The textual name of each kind, as it stands in the `type` column.
pub open spec fn kind_name(k: TransactionType) -> Seq<u8> {
    match k {
        TransactionType::Deposit => seq![100u8, 101u8, 112u8, 111u8, 115u8, 105u8, 116u8],  // deposit
        TransactionType::Withdrawal => seq![119u8, 105u8, 116u8, 104u8, 100u8, 114u8, 97u8, 119u8, 97u8, 108u8],  // withdrawal
        TransactionType::Dispute => seq![100u8, 105u8, 115u8, 112u8, 117u8, 116u8, 101u8],  // dispute
        TransactionType::Resolve => seq![114u8, 101u8, 115u8, 111u8, 108u8, 118u8, 101u8],  // resolve
        TransactionType::Chargeback => seq![99u8, 104u8, 97u8, 114u8, 103u8, 101u8, 98u8, 97u8, 99u8, 107u8],  // chargeback
    }
}

/// The kind whose name is `s`, if any.
pub open spec fn kind_of(s: Seq<u8>) -> Option<TransactionType> {
    if s == kind_name(TransactionType::Deposit) {
        Some(TransactionType::Deposit)
    } else if s == kind_name(TransactionType::Withdrawal) {
        Some(TransactionType::Withdrawal)
    } else if s == kind_name(TransactionType::Dispute) {
        Some(TransactionType::Dispute)
    } else if s == kind_name(TransactionType::Resolve) {
        Some(TransactionType::Resolve)
    } else if s == kind_name(TransactionType::Chargeback) {
        Some(TransactionType::Chargeback)
    } else {
        None
    }
}

pub(crate) fn bytes_equal(a: &[u8], b: &[u8]) -> (r: bool)
    ensures
        r == (a@ == b@),
{
    if a.len() != b.len() {
        return false;
    }
    let mut i: usize = 0;
    while i < a.len()
        invariant
            a@.len() == b@.len(),
            0 <= i <= a@.len(),
            forall|j: int| 0 <= j < i ==> a@[j] == b@[j],
        decreases a@.len() - i,
    {
        if a[i] != b[i] {
            return false;
        }
        i = i + 1;
    }
    assert(a@ =~= b@);
    true
}

impl TransactionType {
    /// Decodes the `type` field: exactly one of `deposit`, `withdrawal`,
    /// `dispute`, `resolve`, `chargeback`.
    pub fn try_from(s: &[u8]) -> (r: Result<TransactionType, TransactionTypeFromStrError>)
        ensures
            match kind_of(s@) {
                Some(k) => r == Ok::<TransactionType, TransactionTypeFromStrError>(k),
                None => r is Err,
            },
    {
        let deposit: [u8; 7] = [100u8, 101u8, 112u8, 111u8, 115u8, 105u8, 116u8];  // deposit
        let withdrawal: [u8; 10] = [119u8, 105u8, 116u8, 104u8, 100u8, 114u8, 97u8, 119u8, 97u8, 108u8];  // withdrawal
        let dispute: [u8; 7] = [100u8, 105u8, 115u8, 112u8, 117u8, 116u8, 101u8];  // dispute
        let resolve: [u8; 7] = [114u8, 101u8, 115u8, 111u8, 108u8, 118u8, 101u8];  // resolve
        let chargeback: [u8; 10] = [99u8, 104u8, 97u8, 114u8, 103u8, 101u8, 98u8, 97u8, 99u8, 107u8];  // chargeback
        assert(deposit@ =~= kind_name(TransactionType::Deposit));
        assert(withdrawal@ =~= kind_name(TransactionType::Withdrawal));
        assert(dispute@ =~= kind_name(TransactionType::Dispute));
        assert(resolve@ =~= kind_name(TransactionType::Resolve));
        assert(chargeback@ =~= kind_name(TransactionType::Chargeback));
        if bytes_equal(s, deposit.as_slice()) {
            Ok(TransactionType::Deposit)
        } else if bytes_equal(s, withdrawal.as_slice()) {
            Ok(TransactionType::Withdrawal)
        } else if bytes_equal(s, dispute.as_slice()) {
            Ok(TransactionType::Dispute)
        } else if bytes_equal(s, resolve.as_slice()) {
            Ok(TransactionType::Resolve)
        } else if bytes_equal(s, chargeback.as_slice()) {
            Ok(TransactionType::Chargeback)
        } else {
            Err(TransactionTypeFromStrError)
        }
    }
}

} // verus!
