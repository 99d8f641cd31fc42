use vstd::prelude::*;
use vstd::string::StringExecFns;
use crate::account::AccountDetails;
use crate::drop_id::is_wf_drop_id;
use crate::errors::Error;
use crate::events::{EventLog, TransactionType};
use crate::kv::{has_key, value_of, KeyedVec};
use crate::kv;
use crate::models::{AccountId, ClaimedDropData, DropData, PublicKey, SeriesId, TokenMetadata};
use crate::roles::AccountStatus;

verus! {

/// Metadata of the contract's fungible token.
pub struct FungibleTokenMetadata {
    pub spec_version: String,
    pub name: String,
    pub symbol: String,
    pub icon: Option<String>,
    pub reference: Option<String>,
    pub reference_hash: Option<Vec<u8>>,
    pub decimals: u8,
}

/// The whole contract state: account records, the drop registry, the NFT
/// series the registry references, the fungible-token supply counters, the
/// freeze flag, and the append-only event log.
pub struct Contract {
    pub account_details_by_id: KeyedVec<AccountDetails>,
    pub is_contract_frozen: bool,
    pub contract_key: PublicKey,
    pub ft_total_supply: u128,
    pub ft_metadata: FungibleTokenMetadata,
    pub drop_by_id: KeyedVec<DropData>,
    pub series_by_id: Vec<(SeriesId, TokenMetadata)>,
    pub recent_transactions: Vec<TransactionType>,
    pub total_transactions: u64,
    pub total_tokens_transferred: u128,
    pub event_log: Vec<EventLog>,
}

/// The sum of all account balances, in entry order.
pub open spec fn sum_balances(s: Seq<(String, AccountDetails)>) -> int
    decreases s.len(),
{
    if s.len() == 0 {
        0
    } else {
        sum_balances(s.drop_last()) + s.last().1.ft_balance
    }
}

/// Appending an account adds exactly its balance to the sum.
pub proof fn lemma_sum_push(s: Seq<(String, AccountDetails)>, e: (String, AccountDetails))
    ensures
        sum_balances(s.push(e)) == sum_balances(s) + e.1.ft_balance,
{
    assert(s.push(e).drop_last() =~= s);
    assert(s.push(e).last() == e);
}

/// Replacing one account's record moves the sum by exactly the balance
/// difference.
pub proof fn lemma_sum_update(s: Seq<(String, AccountDetails)>, i: int, v: AccountDetails)
    requires
        0 <= i < s.len(),
    ensures
        sum_balances(s.update(i, (s[i].0, v))) == sum_balances(s) - s[i].1.ft_balance
            + v.ft_balance,
    decreases s.len(),
{
    let s2 = s.update(i, (s[i].0, v));
    if i == s.len() - 1 {
        assert(s2.drop_last() =~= s.drop_last());
        assert(s2.last() == (s[i].0, v));
    } else {
        assert(s2.drop_last() =~= s.drop_last().update(i, (s.drop_last()[i].0, v)));
        lemma_sum_update(s.drop_last(), i, v);
        assert(s2.last() == s.last());
    }
}

impl Contract {
    /// The account store's keys are distinct and each record is well formed.
    pub open spec fn accounts_wf(&self) -> bool {
        &&& self.account_details_by_id.wf()
        &&& forall|i: int|
            0 <= i < self.account_details_by_id.entries@.len() ==> (
            #[trigger] self.account_details_by_id.entries@[i]).1.wf()
    }

    /// The contract invariant: distinct keys everywhere, well-formed drop
    /// ids as registry keys, and the total supply equal to the sum of all
    /// balances.
    pub open spec fn wf(&self) -> bool {
        &&& self.accounts_wf()
        &&& self.drop_by_id.wf()
        &&& forall|i: int|
            0 <= i < self.drop_by_id.entries@.len() ==> is_wf_drop_id(
                (#[trigger] self.drop_by_id.entries@[i]).0@,
            )
        &&& forall|i: int, j: int|
            0 <= i < j < self.series_by_id@.len() ==> (#[trigger] self.series_by_id@[i]).0 != (
            #[trigger] self.series_by_id@[j]).0
        &&& self.ft_total_supply as int == sum_balances(self.account_details_by_id.entries@)
    }

    /// An account record exists for `k`.
    pub open spec fn spec_has_account(&self, k: Seq<char>) -> bool {
        has_key(self.account_details_by_id.entries@, k)
    }

    /// The account record of `k` (meaningful when it exists).
    pub open spec fn spec_account(&self, k: Seq<char>) -> AccountDetails {
        value_of(self.account_details_by_id.entries@, k)
    }

    /// The balance of `k`; zero for unknown accounts.
    pub open spec fn spec_balance_of(&self, k: Seq<char>) -> u128 {
        if self.spec_has_account(k) {
            self.spec_account(k).ft_balance
        } else {
            0
        }
    }

    /// The cumulative tokens collected by `k`; zero for unknown accounts.
    pub open spec fn spec_collected_of(&self, k: Seq<char>) -> u128 {
        if self.spec_has_account(k) {
            self.spec_account(k).tokens_collected
        } else {
            0
        }
    }

    /// The role of `k`; `None` for unknown accounts and accounts without a
    /// role.
    pub open spec fn spec_status_of(&self, k: Seq<char>) -> Option<AccountStatus> {
        if self.spec_has_account(k) {
            self.spec_account(k).account_status
        } else {
            None
        }
    }

    /// The drop-ids-created store of `k`; empty for unknown accounts.
    pub open spec fn spec_created_of(&self, k: Seq<char>) -> Seq<(String, ())> {
        if self.spec_has_account(k) {
            self.spec_account(k).drops_created.entries@
        } else {
            Seq::empty()
        }
    }

    /// The claim records of `k`; empty for unknown accounts.
    pub open spec fn spec_claims_of(&self, k: Seq<char>) -> Seq<(String, ClaimedDropData)> {
        if self.spec_has_account(k) {
            self.spec_account(k).drops_claimed.entries@
        } else {
            Seq::empty()
        }
    }

    /// The claim progress of account `a` against drop `d`: `None` when no
    /// record exists, `Some(None)` for a terminal no-scavenger claim,
    /// `Some(Some(keys))` for recorded scavenger pieces.
    pub open spec fn spec_progress_of(&self, a: Seq<char>, d: Seq<char>) -> Option<
        Option<Seq<Seq<u8>>>,
    > {
        if self.spec_has_account(a) && has_key(self.spec_claims_of(a), d) {
            Some(crate::models::progress_view(value_of(self.spec_claims_of(a), d)))
        } else {
            None
        }
    }

    /// A drop is registered under `k`.
    pub open spec fn spec_has_drop(&self, k: Seq<char>) -> bool {
        has_key(self.drop_by_id.entries@, k)
    }

    /// The drop registered under `k` (meaningful when it exists).
    pub open spec fn spec_drop(&self, k: Seq<char>) -> DropData {
        value_of(self.drop_by_id.entries@, k)
    }

    /// An NFT series is registered under `sid`.
    pub open spec fn spec_has_series(&self, sid: SeriesId) -> bool {
        exists|i: int| 0 <= i < self.series_by_id@.len() && (#[trigger] self.series_by_id@[i]).0 == sid
    }

    /// Every drop except `except` keeps exactly its old registration.
    pub open spec fn drops_unchanged_except(&self, post: &Contract, except: Seq<char>) -> bool {
        &&& forall|k: Seq<char>|
            k != except ==> #[trigger] post.spec_has_drop(k) == self.spec_has_drop(k)
        &&& forall|k: Seq<char>|
            k != except && self.spec_has_drop(k) ==> #[trigger] post.spec_drop(k)
                == self.spec_drop(k)
    }

    /// Every account except `except` keeps exactly its old record.
    pub open spec fn accounts_unchanged_except(&self, post: &Contract, except: Seq<char>) -> bool {
        &&& forall|k: Seq<char>|
            k != except ==> #[trigger] post.spec_has_account(k) == self.spec_has_account(k)
        &&& forall|k: Seq<char>|
            k != except && self.spec_has_account(k) ==> #[trigger] post.spec_account(k)
                == self.spec_account(k)
    }

    /// Every account except the two named keeps exactly its old record.
    pub open spec fn accounts_unchanged_except2(
        &self,
        post: &Contract,
        e1: Seq<char>,
        e2: Seq<char>,
    ) -> bool {
        &&& forall|k: Seq<char>|
            k != e1 && k != e2 ==> #[trigger] post.spec_has_account(k) == self.spec_has_account(k)
        &&& forall|k: Seq<char>|
            k != e1 && k != e2 && self.spec_has_account(k) ==> #[trigger] post.spec_account(k)
                == self.spec_account(k)
    }

    /// The freeze flag, contract key, token metadata, drop registry, and
    /// series registry are unchanged.
    pub open spec fn config_and_drops_unchanged(&self, post: &Contract) -> bool {
        &&& post.is_contract_frozen == self.is_contract_frozen
        &&& post.contract_key == self.contract_key
        &&& post.ft_metadata == self.ft_metadata
        &&& post.drop_by_id == self.drop_by_id
        &&& post.series_by_id == self.series_by_id
    }

    /// Everything except the account store, the supply counters, and the
    /// event log is unchanged.
    pub open spec fn non_ledger_state_unchanged(&self, post: &Contract) -> bool {
        &&& self.config_and_drops_unchanged(post)
        &&& post.recent_transactions == self.recent_transactions
        &&& post.total_transactions == self.total_transactions
    }

    /// Initializes the contract: no drops, zero supply, the given accounts
    /// installed as admins with empty records.
    pub fn new(
        token_name: Option<String>,
        symbol: Option<String>,
        icon: Option<String>,
        admin: Vec<AccountId>,
        contract_key: PublicKey,
    ) -> (r: Contract)
        ensures
            r.wf(),
            !r.is_contract_frozen,
            r.ft_total_supply == 0,
            r.total_tokens_transferred == 0,
            r.total_transactions == 0,
            r.drop_by_id.entries@.len() == 0,
            r.series_by_id@.len() == 0,
            r.event_log@.len() == 0,
            r.recent_transactions@.len() == 0,
            forall|i: int|
                0 <= i < admin@.len() ==> r.spec_status_of(#[trigger] admin@[i]@) == Some(
                    AccountStatus::Admin,
                ),
            forall|k: Seq<char>| r.spec_balance_of(k) == 0,
            forall|k: Seq<char>|
                #[trigger] r.spec_has_account(k) ==> exists|i: int|
                    0 <= i < admin@.len() && admin@[i]@ == k,
    {
        let mut account_details_by_id: KeyedVec<AccountDetails> = KeyedVec::new();
        let n = admin.len();
        let mut i: usize = 0;
        while i < n
            invariant
                n == admin@.len(),
                i <= n,
                account_details_by_id.wf(),
                sum_balances(account_details_by_id.entries@) == 0,
                forall|m: int|
                    0 <= m < account_details_by_id.entries@.len() ==> (
                    #[trigger] account_details_by_id.entries@[m]).1.wf(),
                forall|j: int|
                    0 <= j < i ==> has_key(account_details_by_id.entries@, #[trigger] admin@[j]@)
                        && value_of(account_details_by_id.entries@, admin@[j]@).account_status
                        == Some(AccountStatus::Admin),
                forall|k: Seq<char>|
                    #[trigger] has_key(account_details_by_id.entries@, k) ==> exists|j: int|
                        0 <= j < i && admin@[j]@ == k,
                forall|k: Seq<char>|
                    has_key(account_details_by_id.entries@, k) ==> #[trigger] value_of(
                        account_details_by_id.entries@,
                        k,
                    ).ft_balance == 0,
            decreases n - i,
        {
            let ghost pre = account_details_by_id.entries@;
            let mut details = AccountDetails::new();
            details.account_status = Some(AccountStatus::Admin);
            match account_details_by_id.find(&admin[i]) {
                Some(at) => {
                    proof {
                        kv::lemma_key_at(pre, admin@[i as int]@, at as int);
                        kv::lemma_update_effects(pre, at as int, details);
                        lemma_sum_update(pre, at as int, details);
                    }
                    account_details_by_id.set_at(at, details);
                },
                None => {
                    proof {
                        kv::lemma_push_effects(pre, (admin@[i as int], details));
                        lemma_sum_push(pre, (admin@[i as int], details));
                    }
                    account_details_by_id.insert_new(admin[i].clone(), details);
                },
            }
            i = i + 1;
        }
        let name = match token_name {
            Some(s) => s,
            None => String::from_str("Fungible Token"),
        };
        let symbol_str = match symbol {
            Some(s) => s,
            None => String::from_str("SOV3"),
        };
        Contract {
            account_details_by_id,
            is_contract_frozen: false,
            contract_key,
            ft_total_supply: 0,
            ft_metadata: FungibleTokenMetadata {
                spec_version: String::from_str("ft-1.0.0"),
                name,
                symbol: symbol_str,
                icon,
                reference: None,
                reference_hash: None,
                decimals: 24,
            },
            drop_by_id: KeyedVec::new(),
            series_by_id: Vec::new(),
            recent_transactions: Vec::new(),
            total_transactions: 0,
            total_tokens_transferred: 0,
            event_log: Vec::new(),
        }
    }

    /// Whether the contract is frozen (read-only; never fails).
    pub fn is_contract_frozen(&self) -> (r: bool)
        ensures
            r == self.is_contract_frozen,
    {
        self.is_contract_frozen
    }

    /// Sets or clears the freeze flag. Only an admin may do this.
    pub fn toggle_freeze(&mut self, caller: &AccountId, is_freeze: bool) -> (r: Result<(), Error>)
        requires
            old(self).wf(),
        ensures
            final(self).wf(),
            match r {
                Ok(()) => {
                    &&& old(self).spec_status_of(caller@) matches Some(s) && (s is Admin)
                    &&& *final(self) == (Contract { is_contract_frozen: is_freeze, ..*old(self) })
                },
                Err(e) => {
                    &&& e == Error::Unauthorized
                    &&& !(old(self).spec_status_of(caller@) matches Some(s) && s is Admin)
                    &&& *final(self) == *old(self)
                },
            },
    {
        match self.check_role_is_admin(caller) {
            Ok(()) => {
                self.is_contract_frozen = is_freeze;
                Ok(())
            },
            Err(e) => Err(e),
        }
    }

    /// Fails with `Unauthorized` unless `caller` has the admin role.
    pub fn check_role_is_admin(&self, caller: &AccountId) -> (r: Result<(), Error>)
        requires
            self.wf(),
        ensures
            match r {
                Ok(()) => self.spec_status_of(caller@) matches Some(s) && s is Admin,
                Err(e) => e == Error::Unauthorized && !(self.spec_status_of(caller@) matches Some(
                    s,
                ) && s is Admin),
            },
    {
        match self.account_details_by_id.get(caller) {
            Some(details) => match &details.account_status {
                Some(status) => {
                    if status.is_admin() {
                        Ok(())
                    } else {
                        Err(Error::Unauthorized)
                    }
                },
                None => Err(Error::Unauthorized),
            },
            None => Err(Error::Unauthorized),
        }
    }

    /// Fails with `Unauthorized` unless `caller` has sponsor privileges
    /// (sponsor or admin).
    pub fn check_role_is_sponsor(&self, caller: &AccountId) -> (r: Result<(), Error>)
        requires
            self.wf(),
        ensures
            match r {
                Ok(()) => self.spec_status_of(caller@) matches Some(s) && (s is Sponsor
                    || s is Admin),
                Err(e) => e == Error::Unauthorized && !(self.spec_status_of(caller@) matches Some(
                    s,
                ) && (s is Sponsor || s is Admin)),
            },
    {
        match self.account_details_by_id.get(caller) {
            Some(details) => match &details.account_status {
                Some(status) => {
                    if status.is_sponsor() {
                        Ok(())
                    } else {
                        Err(Error::Unauthorized)
                    }
                },
                None => Err(Error::Unauthorized),
            },
            None => Err(Error::Unauthorized),
        }
    }

    /// `k` holds the admin role on this contract.
    pub open spec fn spec_is_admin(&self, k: Seq<char>) -> bool {
        self.spec_status_of(k) matches Some(s) && s is Admin
    }

    /// `k` holds sponsor privileges on this contract (sponsor or admin).
    pub open spec fn spec_is_sponsor(&self, k: Seq<char>) -> bool {
        self.spec_status_of(k) matches Some(s) && (s is Sponsor || s is Admin)
    }

    /// Overwrites the role field of the record at index `at`; everything
    /// else stays.
    fn set_status_at(&mut self, at: usize, status: Option<AccountStatus>)
        requires
            at < old(self).account_details_by_id.entries@.len(),
        ensures
            final(self).account_details_by_id.entries@ == old(
                self,
            ).account_details_by_id.entries@.update(
                at as int,
                (
                    old(self).account_details_by_id.entries@[at as int].0,
                    (AccountDetails {
                        account_status: status,
                        ..old(self).account_details_by_id.entries@[at as int].1
                    }),
                ),
            ),
            *final(self) == (Contract {
                account_details_by_id: final(self).account_details_by_id,
                ..*old(self)
            }),
    {
        self.account_details_by_id.entries[at].1.account_status = status;
        proof {
            assert(self.account_details_by_id.entries@ =~= old(
                self,
            ).account_details_by_id.entries@.update(
                at as int,
                (
                    old(self).account_details_by_id.entries@[at as int].0,
                    AccountDetails {
                        account_status: status,
                        ..old(self).account_details_by_id.entries@[at as int].1
                    },
                ),
            ));
        }
    }

    /// Grants `status` to `account_id`, creating the record if needed. Only
    /// an admin may do this, and only while the contract is not frozen.
    pub fn add_account_status(
        &mut self,
        caller: &AccountId,
        account_id: AccountId,
        status: AccountStatus,
    ) -> (r: Result<(), Error>)
        requires
            old(self).wf(),
        ensures
            final(self).wf(),
            match r {
                Ok(()) => {
                    &&& !old(self).is_contract_frozen
                    &&& old(self).spec_is_admin(caller@)
                    &&& final(self).spec_has_account(account_id@)
                    &&& final(self).spec_status_of(account_id@) == Some(status)
                    &&& final(self).spec_balance_of(account_id@) == old(self).spec_balance_of(
                        account_id@,
                    )
                    &&& final(self).spec_collected_of(account_id@) == old(self).spec_collected_of(
                        account_id@,
                    )
                    &&& final(self).spec_created_of(account_id@) == old(self).spec_created_of(
                        account_id@,
                    )
                    &&& final(self).spec_claims_of(account_id@) == old(self).spec_claims_of(
                        account_id@,
                    )
                    &&& old(self).accounts_unchanged_except(final(self), account_id@)
                    &&& final(self).ft_total_supply == old(self).ft_total_supply
                    &&& old(self).non_ledger_state_unchanged_status_op(final(self))
                },
                Err(e) => {
                    &&& *final(self) == *old(self)
                    &&& !(old(self).spec_is_admin(caller@) && !old(self).is_contract_frozen)
                    &&& e == (if !old(self).spec_is_admin(caller@) {
                        Error::Unauthorized
                    } else {
                        Error::ContractFrozen
                    })
                },
            },
    {
        match self.check_role_is_admin(caller) {
            Ok(()) => (),
            Err(e) => {
                return Err(e);
            },
        }
        if self.is_contract_frozen {
            return Err(Error::ContractFrozen);
        }
        let ghost pre = self.account_details_by_id.entries@;
        match self.account_details_by_id.find(&account_id) {
            Some(at) => {
                proof {
                    kv::lemma_key_at(pre, account_id@, at as int);
                    let nd = AccountDetails {
                        account_status: Some(status),
                        ..pre[at as int].1
                    };
                    kv::lemma_update_effects(pre, at as int, nd);
                    lemma_sum_update(pre, at as int, nd);
                }
                self.set_status_at(at, Some(status));
            },
            None => {
                let mut details = AccountDetails::new();
                details.account_status = Some(status);
                let ghost key = account_id@;
                proof {
                    kv::lemma_push_effects(pre, (account_id, details));
                    lemma_sum_push(pre, (account_id, details));
                }
                self.account_details_by_id.insert_new(account_id, details);
                proof {
                    assert(self.spec_created_of(key) =~= Seq::<(String, ())>::empty());
                    assert(self.spec_claims_of(key) =~= Seq::<(String, ClaimedDropData)>::empty());
                }
            },
        }
        Ok(())
    }

    /// Clears the role of every named account that has a record. Only an
    /// admin may do this, and only while the contract is not frozen.
    pub fn remove_account_status(&mut self, caller: &AccountId, account_ids: Vec<AccountId>) -> (r:
        Result<(), Error>)
        requires
            old(self).wf(),
        ensures
            final(self).wf(),
            match r {
                Ok(()) => {
                    &&& !old(self).is_contract_frozen
                    &&& old(self).spec_status_of(caller@) matches Some(s) && s is Admin
                    &&& forall|i: int|
                        0 <= i < account_ids@.len() ==> final(self).spec_status_of(
                            #[trigger] account_ids@[i]@,
                        ) is None
                    &&& final(self).ft_total_supply == old(self).ft_total_supply
                    &&& forall|k: Seq<char>| #[trigger]
                        final(self).spec_balance_of(k) == old(self).spec_balance_of(k)
                    &&& forall|k: Seq<char>| #[trigger]
                        final(self).spec_has_account(k) == old(self).spec_has_account(k)
                    &&& forall|k: Seq<char>|
                        final(self).spec_has_account(k) ==> (#[trigger] final(self).spec_account(
                            k,
                        )).drops_created == old(self).spec_account(k).drops_created
                            && final(self).spec_account(k).drops_claimed == old(
                            self,
                        ).spec_account(k).drops_claimed && final(self).spec_account(
                            k,
                        ).tokens_collected == old(self).spec_account(k).tokens_collected
                    &&& forall|k: Seq<char>|
                        (forall|j: int|
                            0 <= j < account_ids@.len() ==> (#[trigger] account_ids@[j])@ != k)
                            ==> #[trigger] final(self).spec_status_of(k) == old(
                            self,
                        ).spec_status_of(k)
                    &&& old(self).non_ledger_state_unchanged_status_op(final(self))
                },
                Err(e) => {
                    &&& *final(self) == *old(self)
                    &&& !(old(self).spec_is_admin(caller@) && !old(self).is_contract_frozen)
                    &&& e == (if !old(self).spec_is_admin(caller@) {
                        Error::Unauthorized
                    } else {
                        Error::ContractFrozen
                    })
                },
            },
    {
        match self.check_role_is_admin(caller) {
            Ok(()) => (),
            Err(e) => {
                return Err(e);
            },
        }
        if self.is_contract_frozen {
            return Err(Error::ContractFrozen);
        }
        let n = account_ids.len();
        let mut i: usize = 0;
        while i < n
            invariant
                n == account_ids@.len(),
                i <= n,
                self.wf(),
                forall|j: int|
                    0 <= j < i ==> self.spec_status_of(#[trigger] account_ids@[j]@) is None,
                forall|k: Seq<char>| #[trigger]
                    self.spec_balance_of(k) == old(self).spec_balance_of(k),
                self.ft_total_supply == old(self).ft_total_supply,
                old(self).non_ledger_state_unchanged_status_op(&*self),
                forall|k: Seq<char>| #[trigger]
                    self.spec_has_account(k) == old(self).spec_has_account(k),
                forall|k: Seq<char>|
                    self.spec_has_account(k) ==> (#[trigger] self.spec_account(k)).drops_created
                        == old(self).spec_account(k).drops_created && self.spec_account(
                        k,
                    ).drops_claimed == old(self).spec_account(k).drops_claimed
                        && self.spec_account(k).ft_balance == old(self).spec_account(k).ft_balance
                        && self.spec_account(k).tokens_collected == old(self).spec_account(
                        k,
                    ).tokens_collected,
                forall|k: Seq<char>|
                    (forall|j: int| 0 <= j < i ==> (#[trigger] account_ids@[j])@ != k)
                        ==> #[trigger] self.spec_status_of(k) == old(self).spec_status_of(k),
            decreases n - i,
        {
            let ghost snap = *self;
            let ghost pre = self.account_details_by_id.entries@;
            match self.account_details_by_id.find(&account_ids[i]) {
                Some(at) => {
                    proof {
                        kv::lemma_key_at(pre, account_ids@[i as int]@, at as int);
                        let nd = AccountDetails { account_status: None, ..pre[at as int].1 };
                        kv::lemma_update_effects(pre, at as int, nd);
                        lemma_sum_update(pre, at as int, nd);
                    }
                    self.set_status_at(at, None);
                    proof {
                        let key = pre[at as int].0@;
                        assert forall|k: Seq<char>| #[trigger] self.spec_has_account(k)
                            == snap.spec_has_account(k) by {}
                        assert(self.spec_status_of(account_ids@[i as int]@) is None);
                        assert forall|k: Seq<char>|
                            (forall|j: int|
                                0 <= j < i + 1 ==> (#[trigger] account_ids@[j])@ != k) implies
                            #[trigger] self.spec_status_of(k) == old(self).spec_status_of(k) by {
                            assert(account_ids@[i as int]@ != k);
                            assert(snap.spec_status_of(k) == old(self).spec_status_of(k));
                            assert(self.spec_status_of(k) == snap.spec_status_of(k));
                        }
                        assert forall|k: Seq<char>| #[trigger] self.spec_balance_of(k)
                            == snap.spec_balance_of(k) by {
                            if k == key {
                                assert(self.spec_account(k).ft_balance
                                    == pre[at as int].1.ft_balance);
                            }
                        }
                        assert forall|k: Seq<char>| self.spec_has_account(k) implies (
                        #[trigger] self.spec_account(k)).drops_created == snap.spec_account(
                            k,
                        ).drops_created && self.spec_account(k).drops_claimed == snap.spec_account(
                            k,
                        ).drops_claimed && self.spec_account(k).ft_balance == snap.spec_account(
                            k,
                        ).ft_balance && self.spec_account(k).tokens_collected == snap.spec_account(
                            k,
                        ).tokens_collected by {
                            if k == key {
                                assert(self.spec_account(k) == AccountDetails {
                                    account_status: None,
                                    ..pre[at as int].1
                                });
                            }
                        }
                    }
                },
                None => (),
            }
            i = i + 1;
        }
        Ok(())
    }

    /// Everything except the account store is unchanged (variant used by the
    /// role-management operations, which do not touch the event log either).
    pub open spec fn non_ledger_state_unchanged_status_op(&self, post: &Contract) -> bool {
        &&& self.non_ledger_state_unchanged(post)
        &&& post.ft_total_supply == self.ft_total_supply
        &&& post.total_tokens_transferred == self.total_tokens_transferred
        &&& post.event_log == self.event_log
    }
}

} // verus!
