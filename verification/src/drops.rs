use vstd::prelude::*;
use vstd::string::StringExecFns;
use crate::account::AccountDetails;
use crate::contract::{lemma_sum_push, lemma_sum_update, Contract};
use crate::drop_id::{
    drop_id_creator, drop_id_seq, is_valid_account_id, is_wf_drop_id, lemma_drop_id_round_trip,
    make_drop_id, valid_account_id,
};
use crate::errors::Error;
use crate::events::{
    DropClaimReward, EventLog, EventLogVariant, KeypomDropCreationLog, KEYPOM_CONFERENCE_METADATA_SPEC,
    KEYPOM_STANDARD_NAME,
};
use crate::kv::{has_key, KeyedVec};
use crate::kv;
use crate::ledger::lemma_accounts_view_eq;
use crate::models::{
    AccountId, DropData, DropDataV, DropId, MultichainDropData, MultichainMetadata, NFTDropData,
    PublicKey, ScavengerHuntData, SeriesId, TokenDropData, TokenMetadata,
};

verus! {

/// Two contract states with the same drop registry agree on every
/// drop-level observation.
pub proof fn lemma_drops_view_eq(a: Contract, b: Contract)
    requires
        a.drop_by_id == b.drop_by_id,
    ensures
        forall|k: Seq<char>|
            #![trigger a.spec_has_drop(k)]
            #![trigger b.spec_has_drop(k)]
            a.spec_has_drop(k) == b.spec_has_drop(k),
        forall|k: Seq<char>|
            #![trigger a.spec_drop(k)]
            #![trigger b.spec_drop(k)]
            a.spec_drop(k) == b.spec_drop(k),
{
}

/// Two contract states with the same series registry agree on which series
/// exist.
pub proof fn lemma_series_view_eq(a: Contract, b: Contract)
    requires
        a.series_by_id == b.series_by_id,
    ensures
        forall|sid: SeriesId|
            #![trigger a.spec_has_series(sid)]
            #![trigger b.spec_has_series(sid)]
            a.spec_has_series(sid) == b.spec_has_series(sid),
{
}

impl Contract {
    /// A new drop was registered for `creator` under the freshly formed
    /// `id`, the creator's created-set recorded it, and nothing else about
    /// the ledger or the registry changed.
    pub open spec fn drop_creation_applied(
        &self,
        post: &Contract,
        creator: Seq<char>,
        id: Seq<char>,
        data: DropDataV,
    ) -> bool {
        &&& valid_account_id(creator)
        &&& id == drop_id_seq(creator, self.spec_created_of(creator).len())
        &&& is_wf_drop_id(id)
        &&& drop_id_creator(id) == creator
        &&& !self.spec_has_drop(id)
        &&& post.spec_has_drop(id)
        &&& post.spec_drop(id)@ == data.with_id(id)
        &&& self.drops_unchanged_except(post, id)
        &&& post.spec_has_account(creator)
        &&& has_key(post.spec_created_of(creator), id)
        &&& post.spec_balance_of(creator) == self.spec_balance_of(creator)
        &&& post.spec_collected_of(creator) == self.spec_collected_of(creator)
        &&& post.spec_status_of(creator) == self.spec_status_of(creator)
        &&& post.spec_claims_of(creator) == self.spec_claims_of(creator)
        &&& self.accounts_unchanged_except(post, creator)
        &&& post.ft_total_supply == self.ft_total_supply
        &&& post.total_tokens_transferred == self.total_tokens_transferred
        &&& post.is_contract_frozen == self.is_contract_frozen
        &&& post.contract_key == self.contract_key
        &&& post.ft_metadata == self.ft_metadata
        &&& post.recent_transactions == self.recent_transactions
    }

    /// The first reason registering a drop for `creator` fails, if any:
    /// an account id that cannot be embedded in a drop id, then a taken id.
    pub open spec fn drop_creation_err(&self, creator: Seq<char>) -> Option<Error> {
        if !valid_account_id(creator) {
            Some(Error::InvalidAccountId)
        } else if self.spec_has_drop(
            drop_id_seq(creator, self.spec_created_of(creator).len()),
        ) {
            Some(Error::DropIdCollision)
        } else {
            None
        }
    }

    /// Allocates the next drop id for `creator`, stamps it into `data`,
    /// registers the drop, and records the id in the creator's created-set
    /// (creating the account record if needed). The caller has already
    /// checked the freeze flag and the creator's role. A failed call
    /// changes nothing.
    fn internal_create_drop(&mut self, creator: &AccountId, data: DropData) -> (r: Result<
        DropId,
        Error,
    >)
        requires
            old(self).wf(),
        ensures
            final(self).wf(),
            match r {
                Ok(id) => {
                    &&& old(self).drop_creation_err(creator@) is None
                    &&& old(self).drop_creation_applied(final(self), creator@, id@, data@)
                    &&& final(self).series_by_id == old(self).series_by_id
                    &&& final(self).event_log == old(self).event_log
                    &&& final(self).total_transactions == old(self).total_transactions
                },
                Err(e) => {
                    &&& old(self).drop_creation_err(creator@) == Some(e)
                    &&& *final(self) == *old(self)
                },
            },
    {
        if !is_valid_account_id(creator) {
            return Err(Error::InvalidAccountId);
        }
        let ghost pre = self.account_details_by_id.entries@;
        let idx = self.account_details_by_id.find(creator);
        let count: usize;
        match idx {
            Some(i) => {
                proof {
                    kv::lemma_key_at(pre, creator@, i as int);
                }
                count = self.account_details_by_id.at(i).1.drops_created.len();
            },
            None => {
                count = 0;
            },
        }
        proof {
            if idx is None {
                assert(self.spec_created_of(creator@) =~= Seq::<(String, ())>::empty());
            }
        }
        let drop_id = make_drop_id(creator, count as u64);
        if self.drop_by_id.contains(&drop_id) {
            return Err(Error::DropIdCollision);
        }
        proof {
            lemma_drop_id_round_trip(creator@, count as nat);
        }
        // register the drop
        let mut data = data;
        data.set_id(drop_id.clone());
        let ghost pre_drops = self.drop_by_id.entries@;
        let registry_key = drop_id.clone();
        proof {
            kv::lemma_push_effects(pre_drops, (registry_key, data));
        }
        self.drop_by_id.insert_new(registry_key, data);
        proof {
            assert forall|m: int|
                0 <= m < self.drop_by_id.entries@.len() implies is_wf_drop_id(
                (#[trigger] self.drop_by_id.entries@[m]).0@,
            ) by {
                if m < pre_drops.len() {
                    assert(self.drop_by_id.entries@[m] == pre_drops[m]);
                }
            }
        }
        // record the id in the creator's created-set
        match idx {
            Some(i) => {
                let already = self.account_details_by_id.at(i).1.drops_created.contains(&drop_id);
                if !already {
                    let ghost old_details = pre[i as int].1;
                    let created_key = drop_id.clone();
                    proof {
                        kv::lemma_push_effects(
                            old_details.drops_created.entries@,
                            (created_key, ()),
                        );
                    }
                    self.account_details_by_id.entries[i].1.drops_created.insert_new(
                        created_key,
                        (),
                    );
                    proof {
                        let nd = AccountDetails {
                            drops_created: self.account_details_by_id.entries@[i as int].1.drops_created,
                            ..old_details
                        };
                        assert(self.account_details_by_id.entries@ =~= pre.update(
                            i as int,
                            (pre[i as int].0, nd),
                        ));
                        kv::lemma_update_effects(pre, i as int, nd);
                        lemma_sum_update(pre, i as int, nd);
                        kv::lemma_key_at(
                            self.account_details_by_id.entries@,
                            creator@,
                            i as int,
                        );
                    }
                }
            },
            None => {
                let mut details = AccountDetails::new();
                let created_key = drop_id.clone();
                proof {
                    kv::lemma_push_effects(details.drops_created.entries@, (created_key, ()));
                }
                details.drops_created.insert_new(created_key, ());
                let account_key = creator.clone();
                proof {
                    kv::lemma_push_effects(pre, (account_key, details));
                    lemma_sum_push(pre, (account_key, details));
                }
                self.account_details_by_id.insert_new(account_key, details);
                proof {
                    assert(self.spec_claims_of(creator@) =~= Seq::<
                        (String, crate::models::ClaimedDropData),
                    >::empty());
                }
            },
        }
        Ok(drop_id)
    }

    /// The event recording a drop creation.
    fn push_drop_creation_event(
        &mut self,
        creator: &AccountId,
        reward: DropClaimReward,
        num_scavengers: Option<u16>,
    )
        ensures
            final(self).event_log@ == old(self).event_log@.push(
                (EventLog {
                    standard: final(self).event_log@.last().standard,
                    version: final(self).event_log@.last().version,
                    event: EventLogVariant::KeypomDropCreation(
                        (KeypomDropCreationLog {
                            drop_reward: reward,
                            creator_id: final(self).event_log@.last().event->KeypomDropCreation_0.creator_id,
                            num_scavengers: num_scavengers,
                        }),
                    ),
                }),
            ),
            final(self).event_log@.last().event matches EventLogVariant::KeypomDropCreation(l)
                && l.creator_id@ == creator@ && l.drop_reward == reward && l.num_scavengers
                == num_scavengers,
            *final(self) == (Contract { event_log: final(self).event_log, ..*old(self) }),
    {
        self.event_log.push(
            EventLog {
                standard: String::from_str(KEYPOM_STANDARD_NAME),
                version: String::from_str(KEYPOM_CONFERENCE_METADATA_SPEC),
                event: EventLogVariant::KeypomDropCreation(
                    KeypomDropCreationLog {
                        drop_reward: reward,
                        creator_id: creator.clone(),
                        num_scavengers,
                    },
                ),
            },
        );
    }

    /// Creates a token drop paying `token_amount` per claim. The caller
    /// must hold sponsor privileges and the contract must not be frozen; a
    /// failed call changes nothing.
    pub fn create_token_drop(
        &mut self,
        caller: &AccountId,
        image: String,
        name: String,
        scavenger_hunt: Option<Vec<ScavengerHuntData>>,
        key: PublicKey,
        token_amount: u128,
    ) -> (r: Result<DropId, Error>)
        requires
            old(self).wf(),
        ensures
            final(self).wf(),
            match r {
                Ok(id) => {
                    &&& !old(self).is_contract_frozen
                    &&& old(self).spec_is_sponsor(caller@)
                    &&& old(self).drop_creation_applied(
                        final(self),
                        caller@,
                        id@,
                        DropDataV::Token(
                            (crate::models::TokenDropDataV {
                                id: Seq::empty(),
                                key: key@,
                                name: name@,
                                image: image@,
                                scavenger_hunt: scavenger_hunt.deep_view(),
                                num_claimed: 0,
                                token_amount: token_amount,
                            }),
                        ),
                    )
                    &&& final(self).series_by_id == old(self).series_by_id
                    &&& final(self).event_log@.len() == old(self).event_log@.len() + 1
                    &&& (final(self).event_log@.last().event matches
                        EventLogVariant::KeypomDropCreation(l) && l.creator_id@ == caller@
                        && l.drop_reward == DropClaimReward::Token(token_amount)
                        && l.num_scavengers == (match scavenger_hunt {
                            Some(h) => Some((h@.len() as u16)),
                            None => None,
                        }))
                    &&& final(self).total_transactions == (if old(self).total_transactions
                        < u64::MAX {
                        (old(self).total_transactions + 1) as u64
                    } else {
                        old(self).total_transactions
                    })
                },
                Err(e) => {
                    &&& *final(self) == *old(self)
                    &&& e == (if old(self).is_contract_frozen {
                        Error::ContractFrozen
                    } else if !old(self).spec_is_sponsor(caller@) {
                        Error::Unauthorized
                    } else {
                        old(self).drop_creation_err(caller@)->Some_0
                    })
                    &&& (old(self).is_contract_frozen || !old(self).spec_is_sponsor(caller@)
                        || old(self).drop_creation_err(caller@) is Some)
                },
            },
    {
        if self.is_contract_frozen {
            return Err(Error::ContractFrozen);
        }
        match self.check_role_is_sponsor(caller) {
            Ok(()) => (),
            Err(e) => {
                return Err(e);
            },
        }
        let num_scavengers: Option<u16> = match &scavenger_hunt {
            Some(h) => Some(#[verifier::truncate] (h.len() as u16)),
            None => None,
        };
        let data = DropData::Token(
            TokenDropData {
                id: String::new(),
                key,
                name,
                image,
                scavenger_hunt,
                num_claimed: 0,
                token_amount,
            },
        );
        let drop_id = match self.internal_create_drop(caller, data) {
            Ok(id) => id,
            Err(e) => {
                return Err(e);
            },
        };
        let ghost mid = *self;
        self.push_drop_creation_event(
            caller,
            DropClaimReward::Token(token_amount),
            num_scavengers,
        );
        self.bump_total_transactions();
        proof {
            lemma_accounts_view_eq(mid, *self);
            lemma_drops_view_eq(mid, *self);
        }
        Ok(drop_id)
    }

    /// Finds the index of the series registered under `sid`, if any.
    pub(crate) fn find_series(&self, sid: SeriesId) -> (r: Option<usize>)
        ensures
            match r {
                Some(i) => i < self.series_by_id@.len() && self.series_by_id@[i as int].0 == sid,
                None => !self.spec_has_series(sid),
            },
    {
        let n = self.series_by_id.len();
        let mut i: usize = 0;
        while i < n
            invariant
                n == self.series_by_id@.len(),
                i <= n,
                forall|j: int| 0 <= j < i ==> (#[trigger] self.series_by_id@[j]).0 != sid,
            decreases n - i,
        {
            if self.series_by_id[i].0 == sid {
                return Some(i);
            }
            i = i + 1;
        }
        None
    }

    /// Creates an NFT drop minting into a freshly allocated series. The
    /// caller must hold sponsor privileges and the contract must not be
    /// frozen; a failed call changes nothing.
    pub fn create_nft_drop(
        &mut self,
        caller: &AccountId,
        image: String,
        name: String,
        key: PublicKey,
        scavenger_hunt: Option<Vec<ScavengerHuntData>>,
        nft_metadata: TokenMetadata,
    ) -> (r: Result<DropId, Error>)
        requires
            old(self).wf(),
        ensures
            final(self).wf(),
            match r {
                Ok(id) => {
                    &&& !old(self).is_contract_frozen
                    &&& old(self).spec_is_sponsor(caller@)
                    &&& old(self).drop_creation_applied(
                        final(self),
                        caller@,
                        id@,
                        DropDataV::Nft(
                            (crate::models::NFTDropDataV {
                                id: Seq::empty(),
                                key: key@,
                                name: name@,
                                image: image@,
                                scavenger_hunt: scavenger_hunt.deep_view(),
                                num_claimed: 0,
                                nft_metadata: nft_metadata@,
                                nft_series_id: final(self).spec_drop(
                                    id@,
                                )@->Nft_0.nft_series_id,
                            }),
                        ),
                    )
                    &&& final(self).spec_has_series(
                        final(self).spec_drop(id@)@->Nft_0.nft_series_id,
                    )
                    &&& final(self).series_by_id@.len() == old(self).series_by_id@.len() + 1
                    &&& final(self).event_log@.len() == old(self).event_log@.len() + 1
                    &&& (final(self).event_log@.last().event matches
                        EventLogVariant::KeypomDropCreation(l) && l.creator_id@ == caller@
                        && l.drop_reward == DropClaimReward::Nft
                        && l.num_scavengers == (match scavenger_hunt {
                            Some(h) => Some((h@.len() as u16)),
                            None => None,
                        }))
                    &&& final(self).total_transactions == (if old(self).total_transactions
                        < u64::MAX {
                        (old(self).total_transactions + 1) as u64
                    } else {
                        old(self).total_transactions
                    })
                },
                Err(e) => {
                    &&& *final(self) == *old(self)
                    &&& e == (if old(self).is_contract_frozen {
                        Error::ContractFrozen
                    } else if !old(self).spec_is_sponsor(caller@) {
                        Error::Unauthorized
                    } else if old(self).spec_has_series(
                        old(self).series_by_id@.len() as u32,
                    ) {
                        Error::SeriesIdCollision
                    } else {
                        old(self).drop_creation_err(caller@)->Some_0
                    })
                    &&& (old(self).is_contract_frozen || !old(self).spec_is_sponsor(caller@)
                        || old(self).spec_has_series(old(self).series_by_id@.len() as u32) || old(
                        self,
                    ).drop_creation_err(caller@) is Some)
                },
            },
    {
        if self.is_contract_frozen {
            return Err(Error::ContractFrozen);
        }
        match self.check_role_is_sponsor(caller) {
            Ok(()) => (),
            Err(e) => {
                return Err(e);
            },
        }
        let series_id: SeriesId = #[verifier::truncate] (self.series_by_id.len() as u32);
        match self.find_series(series_id) {
            Some(_) => {
                return Err(Error::SeriesIdCollision);
            },
            None => (),
        }
        let num_scavengers: Option<u16> = match &scavenger_hunt {
            Some(h) => Some(#[verifier::truncate] (h.len() as u16)),
            None => None,
        };
        let series_metadata = nft_metadata.duplicate();
        let data = DropData::Nft(
            NFTDropData {
                id: String::new(),
                key,
                name,
                image,
                scavenger_hunt,
                num_claimed: 0,
                nft_metadata,
                nft_series_id: series_id,
            },
        );
        let drop_id = match self.internal_create_drop(caller, data) {
            Ok(id) => id,
            Err(e) => {
                return Err(e);
            },
        };
        let ghost mid = *self;
        self.series_by_id.push((series_id, series_metadata));
        proof {
            assert forall|m: int, n2: int|
                0 <= m < n2 < self.series_by_id@.len() implies (
            #[trigger] self.series_by_id@[m]).0 != (#[trigger] self.series_by_id@[n2]).0 by {
                if n2 == self.series_by_id@.len() - 1 {
                    assert(self.series_by_id@[m] == mid.series_by_id@[m]);
                    assert(!mid.spec_has_series(series_id));
                }
            }
            assert((self.series_by_id@[self.series_by_id@.len() - 1]).0 == series_id);
            assert(self.spec_has_series(series_id));
        }
        self.push_drop_creation_event(caller, DropClaimReward::Nft, num_scavengers);
        self.bump_total_transactions();
        proof {
            lemma_accounts_view_eq(mid, *self);
            lemma_drops_view_eq(mid, *self);
        }
        Ok(drop_id)
    }

    /// Creates a multichain drop carrying external-chain mint details. Only
    /// an admin may create one, and only while the contract is not frozen; a
    /// failed call changes nothing.
    pub fn create_multichain_drop(
        &mut self,
        caller: &AccountId,
        image: String,
        name: String,
        key: PublicKey,
        scavenger_hunt: Option<Vec<ScavengerHuntData>>,
        multichain_metadata: MultichainMetadata,
        nft_metadata: TokenMetadata,
    ) -> (r: Result<DropId, Error>)
        requires
            old(self).wf(),
        ensures
            final(self).wf(),
            match r {
                Ok(id) => {
                    &&& !old(self).is_contract_frozen
                    &&& old(self).spec_is_admin(caller@)
                    &&& old(self).drop_creation_applied(
                        final(self),
                        caller@,
                        id@,
                        DropDataV::Multichain(
                            (crate::models::MultichainDropDataV {
                                id: Seq::empty(),
                                key: key@,
                                name: name@,
                                image: image@,
                                scavenger_hunt: scavenger_hunt.deep_view(),
                                num_claimed: 0,
                                nft_metadata: nft_metadata@,
                                mc_metadata: multichain_metadata@,
                            }),
                        ),
                    )
                    &&& final(self).series_by_id == old(self).series_by_id
                    &&& final(self).event_log@.len() == old(self).event_log@.len() + 1
                    &&& (final(self).event_log@.last().event matches
                        EventLogVariant::KeypomDropCreation(l) && l.creator_id@ == caller@
                        && l.drop_reward == DropClaimReward::Multichain
                        && l.num_scavengers == (match scavenger_hunt {
                            Some(h) => Some((h@.len() as u16)),
                            None => None,
                        }))
                    &&& final(self).total_transactions == (if old(self).total_transactions
                        < u64::MAX {
                        (old(self).total_transactions + 1) as u64
                    } else {
                        old(self).total_transactions
                    })
                },
                Err(e) => {
                    &&& *final(self) == *old(self)
                    &&& e == (if old(self).is_contract_frozen {
                        Error::ContractFrozen
                    } else if !old(self).spec_is_admin(caller@) {
                        Error::Unauthorized
                    } else {
                        old(self).drop_creation_err(caller@)->Some_0
                    })
                    &&& (old(self).is_contract_frozen || !old(self).spec_is_admin(caller@) || old(
                        self,
                    ).drop_creation_err(caller@) is Some)
                },
            },
    {
        if self.is_contract_frozen {
            return Err(Error::ContractFrozen);
        }
        match self.check_role_is_admin(caller) {
            Ok(()) => (),
            Err(e) => {
                return Err(e);
            },
        }
        let num_scavengers: Option<u16> = match &scavenger_hunt {
            Some(h) => Some(#[verifier::truncate] (h.len() as u16)),
            None => None,
        };
        let data = DropData::Multichain(
            MultichainDropData {
                id: String::new(),
                key,
                name,
                image,
                scavenger_hunt,
                num_claimed: 0,
                nft_metadata,
                mc_metadata: multichain_metadata,
            },
        );
        let drop_id = match self.internal_create_drop(caller, data) {
            Ok(id) => id,
            Err(e) => {
                return Err(e);
            },
        };
        let ghost mid = *self;
        self.push_drop_creation_event(caller, DropClaimReward::Multichain, num_scavengers);
        self.bump_total_transactions();
        proof {
            lemma_accounts_view_eq(mid, *self);
            lemma_drops_view_eq(mid, *self);
        }
        Ok(drop_id)
    }

    /// The first reason deleting `id` on behalf of `caller` fails, if any:
    /// an id that does not parse, a caller other than the embedded creator,
    /// or an NFT drop whose backing series is gone.
    pub open spec fn delete_err(&self, caller: Seq<char>, id: Seq<char>) -> Option<Error> {
        if !is_wf_drop_id(id) {
            Some(Error::MalformedDropId)
        } else if drop_id_creator(id) != caller {
            Some(Error::CreatorMismatch)
        } else if self.spec_has_drop(id) && (self.spec_drop(id)@ is Nft) && !self.spec_has_series(
            self.spec_drop(id)@->Nft_0.nft_series_id,
        ) {
            Some(Error::SeriesNotFound)
        } else {
            None
        }
    }

    /// Deletes the drop `drop_id`. Only the creator embedded in the id may
    /// delete it, and only with sponsor privileges while the contract is not
    /// frozen. Deleting an id that is not registered is a no-op that still
    /// succeeds. An NFT drop's backing series is deleted along with it. A
    /// failed call changes nothing.
    pub fn delete_drop(&mut self, caller: &AccountId, drop_id: &DropId) -> (r: Result<(), Error>)
        requires
            old(self).wf(),
        ensures
            final(self).wf(),
            match r {
                Ok(()) => {
                    &&& !old(self).is_contract_frozen
                    &&& old(self).spec_is_sponsor(caller@)
                    &&& is_wf_drop_id(drop_id@)
                    &&& drop_id_creator(drop_id@) == caller@
                    &&& !final(self).spec_has_drop(drop_id@)
                    &&& old(self).drops_unchanged_except(final(self), drop_id@)
                    &&& final(self).spec_has_account(caller@)
                    &&& !has_key(final(self).spec_created_of(caller@), drop_id@)
                    &&& forall|k: Seq<char>|
                        k != drop_id@ ==> #[trigger] has_key(
                            final(self).spec_created_of(caller@),
                            k,
                        ) == has_key(old(self).spec_created_of(caller@), k)
                    &&& final(self).spec_balance_of(caller@) == old(self).spec_balance_of(caller@)
                    &&& final(self).spec_collected_of(caller@) == old(self).spec_collected_of(
                        caller@,
                    )
                    &&& final(self).spec_status_of(caller@) == old(self).spec_status_of(caller@)
                    &&& final(self).spec_claims_of(caller@) == old(self).spec_claims_of(caller@)
                    &&& old(self).accounts_unchanged_except(final(self), caller@)
                    &&& (if old(self).spec_has_drop(drop_id@) && (old(self).spec_drop(
                        drop_id@,
                    )@ matches DropDataV::Nft(d)) {
                        &&& !final(self).spec_has_series(
                            old(self).spec_drop(drop_id@)@->Nft_0.nft_series_id,
                        )
                        &&& forall|s2: SeriesId|
                            s2 != old(self).spec_drop(drop_id@)@->Nft_0.nft_series_id
                                ==> #[trigger] final(self).spec_has_series(s2) == old(
                                self,
                            ).spec_has_series(s2)
                    } else {
                        final(self).series_by_id == old(self).series_by_id
                    })
                    &&& final(self).ft_total_supply == old(self).ft_total_supply
                    &&& final(self).total_tokens_transferred == old(self).total_tokens_transferred
                    &&& final(self).is_contract_frozen == old(self).is_contract_frozen
                    &&& final(self).contract_key == old(self).contract_key
                    &&& final(self).ft_metadata == old(self).ft_metadata
                    &&& final(self).recent_transactions == old(self).recent_transactions
                    &&& final(self).event_log == old(self).event_log
                    &&& final(self).total_transactions == (if old(self).total_transactions
                        < u64::MAX {
                        (old(self).total_transactions + 1) as u64
                    } else {
                        old(self).total_transactions
                    })
                },
                Err(e) => {
                    &&& *final(self) == *old(self)
                    &&& e == (if old(self).is_contract_frozen {
                        Error::ContractFrozen
                    } else if !old(self).spec_is_sponsor(caller@) {
                        Error::Unauthorized
                    } else {
                        old(self).delete_err(caller@, drop_id@)->Some_0
                    })
                    &&& (old(self).is_contract_frozen || !old(self).spec_is_sponsor(caller@) || old(
                        self,
                    ).delete_err(caller@, drop_id@) is Some)
                },
            },
    {
        if self.is_contract_frozen {
            return Err(Error::ContractFrozen);
        }
        match self.check_role_is_sponsor(caller) {
            Ok(()) => (),
            Err(e) => {
                return Err(e);
            },
        }
        let drop_creator = match crate::drop_id::try_parse_drop_id(drop_id) {
            Some(c) => c,
            None => {
                return Err(Error::MalformedDropId);
            },
        };
        if !(drop_creator == *caller) {
            return Err(Error::CreatorMismatch);
        }
        // look up the drop and, for an NFT drop, its backing series
        let ghost pre_drops = self.drop_by_id.entries@;
        let drop_at = self.drop_by_id.find(drop_id);
        let mut series_at: Option<usize> = None;
        match drop_at {
            Some(di) => {
                proof {
                    kv::lemma_key_at(pre_drops, drop_id@, di as int);
                }
                match &self.drop_by_id.at(di).1 {
                    DropData::Nft(d) => {
                        match self.find_series(d.nft_series_id) {
                            Some(si) => {
                                series_at = Some(si);
                            },
                            None => {
                                return Err(Error::SeriesNotFound);
                            },
                        }
                    },
                    _ => (),
                }
            },
            None => (),
        }
        // remove the drop
        match drop_at {
            Some(di) => {
                proof {
                    kv::lemma_remove_effects(pre_drops, di as int);
                }
                let _ = self.drop_by_id.remove_at(di);
                proof {
                    assert forall|m: int|
                        0 <= m < self.drop_by_id.entries@.len() implies is_wf_drop_id(
                        (#[trigger] self.drop_by_id.entries@[m]).0@,
                    ) by {
                        if m < di {
                            assert(self.drop_by_id.entries@[m] == pre_drops[m]);
                        } else {
                            assert(self.drop_by_id.entries@[m] == pre_drops[m + 1]);
                        }
                    }
                }
            },
            None => (),
        }
        // remove the backing series
        let ghost pre_series = self.series_by_id@;
        match series_at {
            Some(si) => {
                let removed = self.series_by_id.remove(si);
                proof {
                    let s2 = self.series_by_id@;
                    assert forall|m: int| 0 <= m < s2.len() implies s2[m] == (if m < si {
                        pre_series[m]
                    } else {
                        pre_series[m + 1]
                    }) by {}
                    assert forall|m: int, n2: int| 0 <= m < n2 < s2.len() implies (
                    #[trigger] s2[m]).0 != (#[trigger] s2[n2]).0 by {
                        let m0 = if m < si { m } else { m + 1 };
                        let n0 = if n2 < si { n2 } else { n2 + 1 };
                        assert(pre_series[m0].0 != pre_series[n0].0);
                    }
                    assert forall|sid2: SeriesId| sid2 != removed.0 implies #[trigger] self.spec_has_series(
                        sid2,
                    ) == exists|m: int| 0 <= m < pre_series.len() && (#[trigger] pre_series[m]).0
                        == sid2 by {
                        if self.spec_has_series(sid2) {
                            let m = choose|m: int|
                                0 <= m < s2.len() && (#[trigger] s2[m]).0 == sid2;
                            let m0 = if m < si { m } else { m + 1 };
                            assert(pre_series[m0].0 == sid2);
                        }
                        if exists|m: int|
                            0 <= m < pre_series.len() && (#[trigger] pre_series[m]).0 == sid2 {
                            let m = choose|m: int|
                                0 <= m < pre_series.len() && (#[trigger] pre_series[m]).0 == sid2;
                            assert(m != si);
                            let m2 = if m < si { m } else { m - 1 };
                            assert(s2[m2].0 == sid2);
                        }
                    }
                    if self.spec_has_series(removed.0) {
                        let m = choose|m: int|
                            0 <= m < s2.len() && (#[trigger] s2[m]).0 == removed.0;
                        let m0 = if m < si { m } else { m + 1 };
                        assert(pre_series[m0].0 == pre_series[si as int].0);
                        assert(m0 != si);
                    }
                }
            },
            None => (),
        }
        let ghost after_series = *self;
        // drop the id from the creator's created-set
        let ghost pre_accounts = self.account_details_by_id.entries@;
        let ci: usize;
        match self.account_details_by_id.find(caller) {
            Some(i) => {
                proof {
                    kv::lemma_key_at(pre_accounts, caller@, i as int);
                }
                ci = i;
            },
            None => {
                let details = AccountDetails::new();
                let account_key = caller.clone();
                proof {
                    kv::lemma_push_effects(pre_accounts, (account_key, details));
                    lemma_sum_push(pre_accounts, (account_key, details));
                }
                ci = self.account_details_by_id.len();
                self.account_details_by_id.insert_new(account_key, details);
                proof {
                    kv::lemma_key_at(self.account_details_by_id.entries@, caller@, ci as int);
                    assert(self.spec_claims_of(caller@) =~= Seq::<
                        (String, crate::models::ClaimedDropData),
                    >::empty());
                    assert(self.spec_created_of(caller@) =~= Seq::<(String, ())>::empty());
                }
            },
        }
        let ghost mid_accounts = self.account_details_by_id.entries@;
        let ghost mid_details = mid_accounts[ci as int].1;
        let created_at = self.account_details_by_id.at(ci).1.drops_created.find(drop_id);
        match created_at {
            Some(rj) => {
                proof {
                    kv::lemma_key_at(mid_details.drops_created.entries@, drop_id@, rj as int);
                    kv::lemma_remove_effects(mid_details.drops_created.entries@, rj as int);
                }
                let _ = self.account_details_by_id.entries[ci].1.drops_created.remove_at(rj);
                proof {
                    let nd = AccountDetails {
                        drops_created: self.account_details_by_id.entries@[ci as int].1.drops_created,
                        ..mid_details
                    };
                    assert(self.account_details_by_id.entries@ =~= mid_accounts.update(
                        ci as int,
                        (mid_accounts[ci as int].0, nd),
                    ));
                    kv::lemma_update_effects(mid_accounts, ci as int, nd);
                    lemma_sum_update(mid_accounts, ci as int, nd);
                    kv::lemma_key_at(self.account_details_by_id.entries@, caller@, ci as int);
                }
            },
            None => (),
        }
        self.bump_total_transactions();
        proof {
            assert(!has_key(self.spec_created_of(caller@), drop_id@));
            lemma_series_view_eq(after_series, *self);
            lemma_drops_view_eq(after_series, *self);
        }
        Ok(())
    }
}

} // verus!
