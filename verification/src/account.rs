use vstd::prelude::*;
use crate::kv::KeyedVec;
use crate::models::ClaimedDropData;
use crate::roles::AccountStatus;

verus! {

/// Everything the contract remembers about one participant: role, fungible
/// balance, the monotonic total of tokens ever collected, the drops the
/// account created, and the account's claim progress per drop.
pub struct AccountDetails {
    pub account_status: Option<AccountStatus>,
    pub ft_balance: u128,
    pub tokens_collected: u128,
    pub drops_created: KeyedVec<()>,
    pub drops_claimed: KeyedVec<ClaimedDropData>,
}

impl AccountDetails {
    /// Both per-account stores keep their keys distinct.
    pub open spec fn wf(&self) -> bool {
        self.drops_created.wf() && self.drops_claimed.wf()
    }

    /// A fresh account record: no role, zero balances, nothing created or
    /// claimed.
    pub fn new() -> (r: AccountDetails)
        ensures
            r.account_status is None,
            r.ft_balance == 0,
            r.tokens_collected == 0,
            r.drops_created.entries@.len() == 0,
            r.drops_claimed.entries@.len() == 0,
            r.wf(),
    {
        AccountDetails {
            account_status: None,
            ft_balance: 0,
            tokens_collected: 0,
            drops_created: KeyedVec::new(),
            drops_claimed: KeyedVec::new(),
        }
    }
}

/// The externally visible summary of an account.
pub struct ExtAccountDetails {
    pub account_id: String,
    pub ft_balance: u128,
    pub ft_collected: u128,
    pub account_status: Option<AccountStatus>,
}

} // verus!
