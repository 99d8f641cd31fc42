use vstd::prelude::*;
use vstd::string::StringExecFns;
use crate::account::AccountDetails;
use crate::contract::{lemma_sum_push, lemma_sum_update, sum_balances, Contract};
use crate::errors::Error;
use crate::events::{
    is_ft_mint_event, is_ft_transfer_event, is_keypom_mint_event, is_keypom_transfer_event,
    EventLog, EventLogVariant, FtMintLog, FtTransferLog, KeypomTokenMintLog,
    KeypomTokenTransferLog, TransactionType, FT_METADATA_SPEC, FT_STANDARD_NAME,
    KEYPOM_CONFERENCE_METADATA_SPEC, KEYPOM_STANDARD_NAME,
};
use crate::kv;
use crate::models::{AccountId, ClaimedDropData, DropId};

verus! {

impl Contract {
    /// Minting `amount` to `k` would overflow a balance or supply counter.
    pub open spec fn mint_overflows(&self, k: Seq<char>, amount: u128, credit: bool) -> bool {
        ||| (credit && self.spec_collected_of(k) + amount > u128::MAX)
        ||| self.spec_balance_of(k) + amount > u128::MAX
        ||| self.ft_total_supply + amount > u128::MAX
        ||| self.total_tokens_transferred + amount > u128::MAX
    }

    /// The account record of `k` changed only in its balance and collected
    /// counters, which now read `bal` and `col`; the record exists either
    /// way, and every other account kept its record.
    pub open spec fn account_counters_set(
        &self,
        post: &Contract,
        k: Seq<char>,
        bal: u128,
        col: u128,
    ) -> bool {
        &&& post.spec_has_account(k)
        &&& post.spec_balance_of(k) == bal
        &&& post.spec_collected_of(k) == col
        &&& post.spec_status_of(k) == self.spec_status_of(k)
        &&& post.spec_created_of(k) == self.spec_created_of(k)
        &&& post.spec_claims_of(k) == self.spec_claims_of(k)
        &&& self.accounts_unchanged_except(post, k)
    }

    /// Deposits freshly minted tokens into `account_id`: the balance, total
    /// supply, and total-transferred counters each grow by `amount`; with
    /// `credit_leaderboard` the account's collected counter grows too. The
    /// record is created if absent. Emits one standard mint event and one
    /// domain mint event. On overflow of any counter nothing changes.
    pub fn internal_deposit_ft_mint(
        &mut self,
        account_id: &AccountId,
        amount: u128,
        drop_id: Option<DropId>,
        credit_leaderboard: bool,
    ) -> (r: Result<(), Error>)
        requires
            old(self).wf(),
        ensures
            final(self).wf(),
            match r {
                Ok(()) => {
                    &&& !old(self).mint_overflows(account_id@, amount, credit_leaderboard)
                    &&& old(self).account_counters_set(
                        final(self),
                        account_id@,
                        (old(self).spec_balance_of(account_id@) + amount) as u128,
                        (old(self).spec_collected_of(account_id@) + (if credit_leaderboard {
                            amount as int
                        } else {
                            0
                        })) as u128,
                    )
                    &&& final(self).ft_total_supply == old(self).ft_total_supply + amount
                    &&& final(self).total_tokens_transferred == old(self).total_tokens_transferred
                        + amount
                    &&& final(self).event_log@.len() == old(self).event_log@.len() + 2
                    &&& final(self).event_log@.take(old(self).event_log@.len() as int) == old(
                        self,
                    ).event_log@
                    &&& is_ft_mint_event(
                        final(self).event_log@[old(self).event_log@.len() as int],
                        account_id@,
                        amount,
                    )
                    &&& is_keypom_mint_event(
                        final(self).event_log@[old(self).event_log@.len() as int + 1],
                        account_id@,
                        amount,
                        final(self).spec_balance_of(account_id@),
                        drop_id,
                    )
                    &&& old(self).non_ledger_state_unchanged(final(self))
                },
                Err(e) => {
                    &&& e == Error::BalanceOverflow
                    &&& old(self).mint_overflows(account_id@, amount, credit_leaderboard)
                    &&& *final(self) == *old(self)
                },
            },
    {
        let ghost pre = self.account_details_by_id.entries@;
        let idx = self.account_details_by_id.find(account_id);
        let cur_bal: u128;
        let cur_col: u128;
        match idx {
            Some(i) => {
                proof {
                    kv::lemma_key_at(pre, account_id@, i as int);
                }
                let e = self.account_details_by_id.at(i);
                cur_bal = e.1.ft_balance;
                cur_col = e.1.tokens_collected;
            },
            None => {
                cur_bal = 0;
                cur_col = 0;
            },
        }
        if credit_leaderboard && amount > u128::MAX - cur_col {
            return Err(Error::BalanceOverflow);
        }
        if amount > u128::MAX - cur_bal {
            return Err(Error::BalanceOverflow);
        }
        if amount > u128::MAX - self.ft_total_supply {
            return Err(Error::BalanceOverflow);
        }
        if amount > u128::MAX - self.total_tokens_transferred {
            return Err(Error::BalanceOverflow);
        }
        let new_bal = cur_bal + amount;
        let new_col = if credit_leaderboard {
            cur_col + amount
        } else {
            cur_col
        };
        match idx {
            Some(i) => {
                self.account_details_by_id.entries[i].1.ft_balance = new_bal;
                self.account_details_by_id.entries[i].1.tokens_collected = new_col;
                proof {
                    let nd = AccountDetails {
                        ft_balance: new_bal,
                        tokens_collected: new_col,
                        ..pre[i as int].1
                    };
                    assert(self.account_details_by_id.entries@ =~= pre.update(
                        i as int,
                        (pre[i as int].0, nd),
                    ));
                    kv::lemma_update_effects(pre, i as int, nd);
                    lemma_sum_update(pre, i as int, nd);
                }
            },
            None => {
                let mut d = AccountDetails::new();
                d.ft_balance = new_bal;
                d.tokens_collected = new_col;
                let key = account_id.clone();
                proof {
                    kv::lemma_push_effects(pre, (key, d));
                    lemma_sum_push(pre, (key, d));
                }
                self.account_details_by_id.insert_new(key, d);
                proof {
                    assert(self.spec_created_of(account_id@) =~= Seq::<(String, ())>::empty());
                    assert(self.spec_claims_of(account_id@) =~= Seq::<
                        (String, ClaimedDropData),
                    >::empty());
                }
            },
        }
        self.ft_total_supply = self.ft_total_supply + amount;
        self.total_tokens_transferred = self.total_tokens_transferred + amount;
        let ghost mid_log = self.event_log@;
        self.event_log.push(
            EventLog {
                standard: String::from_str(FT_STANDARD_NAME),
                version: String::from_str(FT_METADATA_SPEC),
                event: EventLogVariant::FtMint(
                    FtMintLog { owner_id: account_id.clone(), amount, memo: None },
                ),
            },
        );
        self.event_log.push(
            EventLog {
                standard: String::from_str(KEYPOM_STANDARD_NAME),
                version: String::from_str(KEYPOM_CONFERENCE_METADATA_SPEC),
                event: EventLogVariant::KeypomTokenMint(
                    KeypomTokenMintLog {
                        drop_id,
                        receiver_id: account_id.clone(),
                        amount,
                        new_balance: new_bal,
                    },
                ),
            },
        );
        proof {
            assert(self.event_log@.take(mid_log.len() as int) =~= mid_log);
        }
        Ok(())
    }

    /// The first reason a transfer of `amount` from `s` to `r` fails, if
    /// any, in the order the checks run: self-transfer, zero amount, the
    /// sender's balance, then counter overflows on the receiving side.
    pub open spec fn transfer_err(
        &self,
        s: Seq<char>,
        r: Seq<char>,
        amount: u128,
        credit: bool,
    ) -> Option<Error> {
        if s == r {
            Some(Error::SelfTransfer)
        } else if amount == 0 {
            Some(Error::ZeroAmount)
        } else if self.spec_balance_of(s) < amount {
            Some(Error::InsufficientBalance)
        } else if credit && self.spec_collected_of(r) + amount > u128::MAX {
            Some(Error::BalanceOverflow)
        } else if self.spec_balance_of(r) + amount > u128::MAX {
            Some(Error::BalanceOverflow)
        } else if self.total_tokens_transferred + amount > u128::MAX {
            Some(Error::BalanceOverflow)
        } else {
            None
        }
    }

    /// Exactly `amount` moved from `s` to `r`: the sender's balance fell
    /// and the receiver's rose by `amount`, the total supply is untouched,
    /// and no other account changed.
    pub open spec fn transfer_applied(
        &self,
        post: &Contract,
        s: Seq<char>,
        r: Seq<char>,
        amount: u128,
        credit: bool,
    ) -> bool {
        &&& post.spec_has_account(s)
        &&& post.spec_has_account(r)
        &&& post.spec_balance_of(s) == self.spec_balance_of(s) - amount
        &&& post.spec_balance_of(r) == self.spec_balance_of(r) + amount
        &&& post.spec_collected_of(s) == self.spec_collected_of(s)
        &&& post.spec_collected_of(r) == self.spec_collected_of(r) + (if credit {
            amount as int
        } else {
            0
        })
        &&& post.spec_status_of(s) == self.spec_status_of(s)
        &&& post.spec_status_of(r) == self.spec_status_of(r)
        &&& post.spec_created_of(s) == self.spec_created_of(s)
        &&& post.spec_created_of(r) == self.spec_created_of(r)
        &&& post.spec_claims_of(s) == self.spec_claims_of(s)
        &&& post.spec_claims_of(r) == self.spec_claims_of(r)
        &&& self.accounts_unchanged_except2(post, s, r)
        &&& post.ft_total_supply == self.ft_total_supply
        &&& post.total_tokens_transferred == self.total_tokens_transferred + amount
    }

    /// Moves `amount` from `sender_id` to `receiver_id`: withdraw first,
    /// then deposit, so a failure can never create tokens. Fails on
    /// self-transfer, on zero amount, on insufficient sender balance, and on
    /// counter overflow; a failed call changes nothing. Emits one standard
    /// transfer event and one domain transfer event.
    pub fn internal_ft_transfer(
        &mut self,
        sender_id: &AccountId,
        receiver_id: &AccountId,
        amount: u128,
        credit_leaderboard: bool,
    ) -> (r: Result<(), Error>)
        requires
            old(self).wf(),
        ensures
            final(self).wf(),
            match r {
                Ok(()) => {
                    &&& old(self).transfer_err(
                        sender_id@,
                        receiver_id@,
                        amount,
                        credit_leaderboard,
                    ) is None
                    &&& old(self).transfer_applied(
                        final(self),
                        sender_id@,
                        receiver_id@,
                        amount,
                        credit_leaderboard,
                    )
                    &&& final(self).event_log@.len() == old(self).event_log@.len() + 2
                    &&& final(self).event_log@.take(old(self).event_log@.len() as int) == old(
                        self,
                    ).event_log@
                    &&& is_ft_transfer_event(
                        final(self).event_log@[old(self).event_log@.len() as int],
                        sender_id@,
                        receiver_id@,
                        amount,
                    )
                    &&& is_keypom_transfer_event(
                        final(self).event_log@[old(self).event_log@.len() as int + 1],
                        sender_id@,
                        receiver_id@,
                        amount,
                        final(self).spec_balance_of(sender_id@),
                        final(self).spec_balance_of(receiver_id@),
                    )
                    &&& old(self).non_ledger_state_unchanged(final(self))
                },
                Err(e) => {
                    &&& old(self).transfer_err(
                        sender_id@,
                        receiver_id@,
                        amount,
                        credit_leaderboard,
                    ) == Some(e)
                    &&& *final(self) == *old(self)
                },
            },
    {
        if *sender_id == *receiver_id {
            return Err(Error::SelfTransfer);
        }
        if amount == 0 {
            return Err(Error::ZeroAmount);
        }
        let ghost pre = self.account_details_by_id.entries@;
        let s_at: usize;
        let s_bal: u128;
        match self.account_details_by_id.find(sender_id) {
            Some(i) => {
                proof {
                    kv::lemma_key_at(pre, sender_id@, i as int);
                }
                s_at = i;
                s_bal = self.account_details_by_id.at(i).1.ft_balance;
            },
            None => {
                return Err(Error::InsufficientBalance);
            },
        }
        if s_bal < amount {
            return Err(Error::InsufficientBalance);
        }
        let r_idx = self.account_details_by_id.find(receiver_id);
        let r_bal: u128;
        let r_col: u128;
        match r_idx {
            Some(i) => {
                proof {
                    kv::lemma_key_at(pre, receiver_id@, i as int);
                }
                let e = self.account_details_by_id.at(i);
                r_bal = e.1.ft_balance;
                r_col = e.1.tokens_collected;
            },
            None => {
                r_bal = 0;
                r_col = 0;
            },
        }
        if credit_leaderboard && amount > u128::MAX - r_col {
            return Err(Error::BalanceOverflow);
        }
        if amount > u128::MAX - r_bal {
            return Err(Error::BalanceOverflow);
        }
        if amount > u128::MAX - self.total_tokens_transferred {
            return Err(Error::BalanceOverflow);
        }
        let new_r_col = if credit_leaderboard {
            r_col + amount
        } else {
            r_col
        };
        // withdraw from the sender
        self.account_details_by_id.entries[s_at].1.ft_balance = s_bal - amount;
        let ghost mid = self.account_details_by_id.entries@;
        proof {
            let snd = AccountDetails { ft_balance: (s_bal - amount) as u128, ..pre[s_at as int].1 };
            assert(mid =~= pre.update(s_at as int, (pre[s_at as int].0, snd)));
            kv::lemma_update_effects(pre, s_at as int, snd);
            lemma_sum_update(pre, s_at as int, snd);
        }
        // deposit into the receiver
        match r_idx {
            Some(ri) => {
                proof {
                    assert(ri != s_at);
                    assert(mid[ri as int] == pre[ri as int]);
                }
                self.account_details_by_id.entries[ri].1.ft_balance = r_bal + amount;
                self.account_details_by_id.entries[ri].1.tokens_collected = new_r_col;
                proof {
                    let rnd = AccountDetails {
                        ft_balance: (r_bal + amount) as u128,
                        tokens_collected: new_r_col,
                        ..pre[ri as int].1
                    };
                    assert(self.account_details_by_id.entries@ =~= mid.update(
                        ri as int,
                        (mid[ri as int].0, rnd),
                    ));
                    kv::lemma_update_effects(mid, ri as int, rnd);
                    lemma_sum_update(mid, ri as int, rnd);
                    kv::lemma_key_at(mid, sender_id@, s_at as int);
                    kv::lemma_key_at(
                        self.account_details_by_id.entries@,
                        sender_id@,
                        s_at as int,
                    );
                }
            },
            None => {
                let mut d = AccountDetails::new();
                d.ft_balance = amount;
                d.tokens_collected = new_r_col;
                let key = receiver_id.clone();
                proof {
                    kv::lemma_push_effects(mid, (key, d));
                    lemma_sum_push(mid, (key, d));
                }
                self.account_details_by_id.insert_new(key, d);
                proof {
                    assert(self.spec_created_of(receiver_id@) =~= Seq::<(String, ())>::empty());
                    assert(self.spec_claims_of(receiver_id@) =~= Seq::<
                        (String, ClaimedDropData),
                    >::empty());
                }
            },
        }
        self.total_tokens_transferred = self.total_tokens_transferred + amount;
        let new_s_bal = s_bal - amount;
        let new_r_bal = r_bal + amount;
        let ghost mid_log = self.event_log@;
        self.event_log.push(
            EventLog {
                standard: String::from_str(FT_STANDARD_NAME),
                version: String::from_str(FT_METADATA_SPEC),
                event: EventLogVariant::FtTransfer(
                    FtTransferLog {
                        old_owner_id: sender_id.clone(),
                        new_owner_id: receiver_id.clone(),
                        amount,
                        memo: None,
                    },
                ),
            },
        );
        self.event_log.push(
            EventLog {
                standard: String::from_str(KEYPOM_STANDARD_NAME),
                version: String::from_str(KEYPOM_CONFERENCE_METADATA_SPEC),
                event: EventLogVariant::KeypomTokenTransfer(
                    KeypomTokenTransferLog {
                        amount,
                        sender_id: sender_id.clone(),
                        receiver_id: receiver_id.clone(),
                        new_sender_balance: new_s_bal,
                        new_receiver_balance: new_r_bal,
                    },
                ),
            },
        );
        proof {
            assert(self.event_log@.take(mid_log.len() as int) =~= mid_log);
        }
        Ok(())
    }

    /// Bumps the global transaction counter, saturating at the top of the
    /// range.
    pub fn bump_total_transactions(&mut self)
        ensures
            *final(self) == (Contract {
                total_transactions: (if old(self).total_transactions < u64::MAX {
                    (old(self).total_transactions + 1) as u64
                } else {
                    old(self).total_transactions
                }),
                ..*old(self)
            }),
    {
        if self.total_transactions < u64::MAX {
            self.total_transactions = self.total_transactions + 1;
        }
    }

    /// Appends a transaction to the bounded recent-transactions list,
    /// evicting the oldest entry once the list holds ten.
    pub fn add_transaction(&mut self, transaction: TransactionType)
        ensures
            *final(self) == (Contract {
                recent_transactions: final(self).recent_transactions,
                ..*old(self)
            }),
            final(self).recent_transactions@ == (if old(self).recent_transactions@.len() + 1 > 10 {
                old(self).recent_transactions@.push(transaction).subrange(
                    1,
                    old(self).recent_transactions@.len() as int + 1,
                )
            } else {
                old(self).recent_transactions@.push(transaction)
            }),
    {
        self.recent_transactions.push(transaction);
        if self.recent_transactions.len() > 10 {
            self.recent_transactions.remove(0);
            proof {
                assert(self.recent_transactions@ =~= old(self).recent_transactions@.push(
                    transaction,
                ).subrange(1, old(self).recent_transactions@.len() as int + 1));
            }
        }
    }

    /// Mints `amount` to `account_id`. Only an admin may do this, and only
    /// while the contract is not frozen; a failed call changes nothing.
    pub fn ft_mint(&mut self, caller: &AccountId, account_id: &AccountId, amount: u128) -> (r:
        Result<(), Error>)
        requires
            old(self).wf(),
        ensures
            final(self).wf(),
            match r {
                Ok(()) => {
                    &&& !old(self).is_contract_frozen
                    &&& old(self).spec_is_admin(caller@)
                    &&& !old(self).mint_overflows(account_id@, amount, false)
                    &&& old(self).account_counters_set(
                        final(self),
                        account_id@,
                        (old(self).spec_balance_of(account_id@) + amount) as u128,
                        old(self).spec_collected_of(account_id@),
                    )
                    &&& final(self).ft_total_supply == old(self).ft_total_supply + amount
                    &&& final(self).total_tokens_transferred == old(self).total_tokens_transferred
                        + amount
                    &&& final(self).event_log@.len() == old(self).event_log@.len() + 2
                    &&& is_ft_mint_event(
                        final(self).event_log@[old(self).event_log@.len() as int],
                        account_id@,
                        amount,
                    )
                    &&& old(self).config_and_drops_unchanged(final(self))
                    &&& final(self).recent_transactions == old(self).recent_transactions
                    &&& final(self).total_transactions == (if old(self).total_transactions
                        < u64::MAX {
                        (old(self).total_transactions + 1) as u64
                    } else {
                        old(self).total_transactions
                    })
                },
                Err(e) => {
                    &&& *final(self) == *old(self)
                    &&& e == (if old(self).is_contract_frozen {
                        Error::ContractFrozen
                    } else if !old(self).spec_is_admin(caller@) {
                        Error::Unauthorized
                    } else {
                        Error::BalanceOverflow
                    })
                    &&& (old(self).is_contract_frozen || !old(self).spec_is_admin(caller@) || old(
                        self,
                    ).mint_overflows(account_id@, amount, false))
                },
            },
    {
        if self.is_contract_frozen {
            return Err(Error::ContractFrozen);
        }
        match self.check_role_is_admin(caller) {
            Ok(()) => (),
            Err(e) => {
                return Err(e);
            },
        }
        match self.internal_deposit_ft_mint(account_id, amount, None, false) {
            Ok(()) => (),
            Err(e) => {
                return Err(e);
            },
        }
        let ghost mid = *self;
        self.bump_total_transactions();
        proof {
            lemma_accounts_view_eq(mid, *self);
        }
        Ok(())
    }

    /// Transfers `amount` from the resolved caller `sender_id` to
    /// `receiver_id` and returns the amount moved. Fails while the contract
    /// is frozen, on self-transfer, on zero amount, and on insufficient
    /// balance; a failed call changes nothing.
    pub fn ft_transfer(
        &mut self,
        sender_id: &AccountId,
        receiver_id: &AccountId,
        amount: u128,
        timestamp: u64,
    ) -> (r: Result<u128, Error>)
        requires
            old(self).wf(),
        ensures
            final(self).wf(),
            match r {
                Ok(moved) => {
                    &&& moved == amount
                    &&& !old(self).is_contract_frozen
                    &&& old(self).transfer_err(sender_id@, receiver_id@, amount, false) is None
                    &&& old(self).transfer_applied(
                        final(self),
                        sender_id@,
                        receiver_id@,
                        amount,
                        false,
                    )
                    &&& final(self).event_log@.len() == old(self).event_log@.len() + 2
                    &&& is_ft_transfer_event(
                        final(self).event_log@[old(self).event_log@.len() as int],
                        sender_id@,
                        receiver_id@,
                        amount,
                    )
                    &&& old(self).config_and_drops_unchanged(final(self))
                    &&& final(self).recent_transactions@.len() > 0
                    &&& (final(self).recent_transactions@.last() matches TransactionType::Transfer {
                        sender_id: ts,
                        receiver_id: tr,
                        amount: ta,
                        timestamp: tt,
                    } && ts@ == sender_id@ && tr@ == receiver_id@ && ta == amount && tt
                        == timestamp)
                    &&& final(self).total_transactions == (if old(self).total_transactions
                        < u64::MAX {
                        (old(self).total_transactions + 1) as u64
                    } else {
                        old(self).total_transactions
                    })
                },
                Err(e) => {
                    &&& *final(self) == *old(self)
                    &&& e == (if old(self).is_contract_frozen {
                        Error::ContractFrozen
                    } else {
                        old(self).transfer_err(sender_id@, receiver_id@, amount, false)->Some_0
                    })
                    &&& (old(self).is_contract_frozen || old(self).transfer_err(
                        sender_id@,
                        receiver_id@,
                        amount,
                        false,
                    ) is Some)
                },
            },
    {
        if self.is_contract_frozen {
            return Err(Error::ContractFrozen);
        }
        match self.internal_ft_transfer(sender_id, receiver_id, amount, false) {
            Ok(()) => (),
            Err(e) => {
                return Err(e);
            },
        }
        let ghost mid = *self;
        self.add_transaction(
            TransactionType::Transfer {
                sender_id: sender_id.clone(),
                receiver_id: receiver_id.clone(),
                amount,
                timestamp,
            },
        );
        self.bump_total_transactions();
        proof {
            lemma_accounts_view_eq(mid, *self);
        }
        Ok(amount)
    }

    /// The balance of `account_id`; zero for unknown accounts. Read-only,
    /// never fails.
    pub fn ft_balance_of(&self, account_id: &AccountId) -> (r: u128)
        requires
            self.wf(),
        ensures
            r == self.spec_balance_of(account_id@),
    {
        match self.account_details_by_id.get(account_id) {
            Some(details) => details.ft_balance,
            None => 0,
        }
    }

    /// The total token supply. Read-only, never fails.
    pub fn ft_total_supply(&self) -> (r: u128)
        ensures
            r == self.ft_total_supply,
    {
        self.ft_total_supply
    }
}

/// Two contract states with the same account store agree on every
/// account-level observation.
pub proof fn lemma_accounts_view_eq(a: Contract, b: Contract)
    requires
        a.account_details_by_id == b.account_details_by_id,
    ensures
        forall|k: Seq<char>|
            #![trigger a.spec_has_account(k)]
            #![trigger b.spec_has_account(k)]
            a.spec_has_account(k) == b.spec_has_account(k),
        forall|k: Seq<char>|
            #![trigger a.spec_account(k)]
            #![trigger b.spec_account(k)]
            a.spec_account(k) == b.spec_account(k),
        forall|k: Seq<char>|
            #![trigger a.spec_balance_of(k)]
            #![trigger b.spec_balance_of(k)]
            a.spec_balance_of(k) == b.spec_balance_of(k),
        forall|k: Seq<char>|
            #![trigger a.spec_collected_of(k)]
            #![trigger b.spec_collected_of(k)]
            a.spec_collected_of(k) == b.spec_collected_of(k),
        forall|k: Seq<char>|
            #![trigger a.spec_status_of(k)]
            #![trigger b.spec_status_of(k)]
            a.spec_status_of(k) == b.spec_status_of(k),
        forall|k: Seq<char>|
            #![trigger a.spec_created_of(k)]
            #![trigger b.spec_created_of(k)]
            a.spec_created_of(k) == b.spec_created_of(k),
        forall|k: Seq<char>|
            #![trigger a.spec_claims_of(k)]
            #![trigger b.spec_claims_of(k)]
            a.spec_claims_of(k) == b.spec_claims_of(k),
{
}

/// Conservation: on every well-formed contract state — and every operation
/// of this library takes a well-formed state to a well-formed state — the
/// total supply equals the sum of all account balances.
pub proof fn lemma_conservation(c: &Contract)
    requires
        c.wf(),
    ensures
        c.ft_total_supply as int == sum_balances(c.account_details_by_id.entries@),
{
}

/// A transfer from an account to itself fails whatever the amount and the
/// balances: its first failing check is the self-transfer check.
pub proof fn lemma_self_transfer_always_fails(c: &Contract, a: Seq<char>, amount: u128)
    ensures
        c.transfer_err(a, a, amount, false) == Some(Error::SelfTransfer),
        c.transfer_err(a, a, amount, true) == Some(Error::SelfTransfer),
{
}

} // verus!
