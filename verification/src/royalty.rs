use vstd::prelude::*;
use crate::models::AccountId;

verus! {

/// A royalty distribution: each account and the amount it is paid.
pub struct Payout {
    pub payout: Vec<(AccountId, u128)>,
}

/// Converts a royalty share, in basis points, of `amount_to_pay` into the
/// amount actually paid out.
pub fn royalty_to_payout(royalty_percentage: u32, amount_to_pay: u128) -> (r: u128)
    requires
        royalty_percentage * amount_to_pay <= u128::MAX,
    ensures
        r == royalty_percentage * amount_to_pay / 10000,
{
    (royalty_percentage as u128) * amount_to_pay / 10000
}

/// The storage footprint of one approved account id: its bytes, a length
/// prefix, and an approval id.
pub fn bytes_for_approved_account_id(account_id: &AccountId) -> (r: u64)
    requires
        account_id@.len() + 12 <= u64::MAX,
    ensures
        r == account_id@.len() + 12,
{
    let n = account_id.as_str().unicode_len();
    n as u64 + 4 + 8
}

} // verus!
