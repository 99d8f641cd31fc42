use vstd::prelude::*;
use vstd::string::StringExecFns;
use crate::account::AccountDetails;
use crate::contract::{lemma_sum_push, lemma_sum_update, Contract};
use crate::drop_id::{dec_digits, drop_id_creator, is_wf_drop_id, parse_drop_id, u128_to_string};
use crate::drops::lemma_drops_view_eq;
use crate::errors::Error;
use crate::events::{
    DropClaimReward, EventLog, EventLogVariant, KeypomDropClaimLog, TransactionType,
    KEYPOM_CONFERENCE_METADATA_SPEC, KEYPOM_STANDARD_NAME,
};
use crate::kv;
use crate::ledger::lemma_accounts_view_eq;
use crate::models::{
    bytes_equal, clone_key_list, piece_view, progress_view, AccountId, ClaimedDropData, DropData,
    DropDataV, DropId, PublicKey, ScavengerHuntDataV,
};

verus! {

/// Two contract states whose claim records for `r` are the same value agree
/// on `r`'s progress against every drop (an absent account reads as an empty
/// record store).
pub proof fn lemma_progress_from_claims(a: Contract, b: Contract, r: Seq<char>, d: Seq<char>)
    requires
        a.spec_claims_of(r) == b.spec_claims_of(r),
    ensures
        a.spec_progress_of(r, d) == b.spec_progress_of(r, d),
{
    if !a.spec_has_account(r) {
        if kv::has_key(b.spec_claims_of(r), d) {
            let i = choose|i: int|
                0 <= i < a.spec_claims_of(r).len() && a.spec_claims_of(r)[i].0@ == d;
        }
    }
    if !b.spec_has_account(r) {
        if kv::has_key(a.spec_claims_of(r), d) {
            let i = choose|i: int|
                0 <= i < b.spec_claims_of(r).len() && b.spec_claims_of(r)[i].0@ == d;
        }
    }
}

/// The piece `p` is one of the hunt's required pieces.
pub open spec fn piece_in_hunt(hunt: Seq<ScavengerHuntDataV>, p: Seq<u8>) -> bool {
    exists|i: int| 0 <= i < hunt.len() && hunt[i].key == p
}

impl Contract {
    /// The scavenger pieces `receiver` has recorded against `id`; empty when
    /// no pieces are recorded.
    pub open spec fn spec_found_pieces(&self, receiver: Seq<char>, id: Seq<char>) -> Seq<Seq<u8>> {
        match self.spec_progress_of(receiver, id) {
            Some(Some(found)) => found,
            _ => Seq::empty(),
        }
    }

    /// This claim attempt is the one that releases the reward: immediately
    /// for a drop without a scavenger hunt, and on the piece that completes
    /// the hunt otherwise.
    pub open spec fn claim_completes(&self, receiver: Seq<char>, id: Seq<char>) -> bool {
        match self.spec_drop(id)@.scavenger_of() {
            None => true,
            Some(hunt) => self.spec_found_pieces(receiver, id).len() + 1 == hunt.len(),
        }
    }

    /// The first reason the reward payout of a completed claim fails, if
    /// any. Only token drops pay out of the internal ledger: the creator
    /// embedded in the drop id must exist and hold a role; an admin's drop
    /// mints fresh tokens, a sponsor's drop transfers from the sponsor's own
    /// balance (failing with `InsufficientCreatorFunds` when it cannot
    /// cover the amount).
    pub open spec fn payout_err(&self, receiver: Seq<char>, id: Seq<char>) -> Option<Error> {
        match self.spec_drop(id)@ {
            DropDataV::Token(t) => {
                let creator = drop_id_creator(id);
                if !self.spec_has_account(creator) {
                    Some(Error::AccountNotFound)
                } else {
                    match self.spec_status_of(creator) {
                        None => Some(Error::Unauthorized),
                        Some(st) => if st is Admin {
                            if self.mint_overflows(receiver, t.token_amount, true) {
                                Some(Error::BalanceOverflow)
                            } else {
                                None
                            }
                        } else if st is Sponsor {
                            match self.transfer_err(creator, receiver, t.token_amount, true) {
                                Some(e) => if e == Error::InsufficientBalance {
                                    Some(Error::InsufficientCreatorFunds)
                                } else {
                                    Some(e)
                                },
                                None => None,
                            }
                        } else {
                            None
                        },
                    }
                }
            },
            _ => None,
        }
    }

    /// The first reason a claim of drop `id` by `receiver` fails, if any,
    /// in the order the checks run: the freeze flag, the drop lookup, the
    /// signature, the scavenger rules, then the payout.
    pub open spec fn claim_err(
        &self,
        receiver: Seq<char>,
        id: Seq<char>,
        piece: Option<Seq<u8>>,
        signature_valid: bool,
    ) -> Option<Error> {
        if self.is_contract_frozen {
            Some(Error::ContractFrozen)
        } else if !self.spec_has_drop(id) {
            Some(Error::DropNotFound)
        } else if !signature_valid {
            Some(Error::InvalidSignature)
        } else {
            match self.spec_drop(id)@.scavenger_of() {
                Some(hunt) => match piece {
                    None => Some(Error::ScavengerRequired),
                    Some(p) => if !piece_in_hunt(hunt, p) {
                        Some(Error::InvalidScavengerPiece)
                    } else {
                        match self.spec_progress_of(receiver, id) {
                            Some(None) => Some(Error::AlreadyClaimed),
                            Some(Some(found)) => if found.contains(p) {
                                Some(Error::PieceAlreadyClaimed)
                            } else if found.len() + 1 == hunt.len() {
                                self.payout_err(receiver, id)
                            } else {
                                None
                            },
                            None => if hunt.len() == 1 {
                                self.payout_err(receiver, id)
                            } else {
                                None
                            },
                        }
                    },
                },
                None => match self.spec_progress_of(receiver, id) {
                    Some(_) => Some(Error::AlreadyClaimed),
                    None => self.payout_err(receiver, id),
                },
            }
        }
    }

    /// The claim record of `receiver` against `id` after a successful claim:
    /// a terminal marker for a drop without a hunt, the recorded pieces plus
    /// the new one otherwise; every other claim record of `receiver` stays.
    pub open spec fn claim_progress_updated(
        &self,
        post: &Contract,
        receiver: Seq<char>,
        id: Seq<char>,
        piece: Option<Seq<u8>>,
    ) -> bool {
        &&& (match self.spec_drop(id)@.scavenger_of() {
            None => post.spec_progress_of(receiver, id) == Some(Option::<Seq<Seq<u8>>>::None),
            Some(hunt) => post.spec_progress_of(receiver, id) == Some(
                Some(self.spec_found_pieces(receiver, id).push(piece->Some_0)),
            ),
        })
        &&& forall|d2: Seq<char>|
            d2 != id ==> #[trigger] post.spec_progress_of(receiver, d2) == self.spec_progress_of(
                receiver,
                d2,
            )
    }

    /// How a successful claim moved the ledger: an admin-created token drop
    /// mints fresh supply to the claimer; a sponsor-created token drop moves
    /// the amount from the sponsor, leaving the supply unchanged; everything
    /// else leaves every balance and the supply unchanged.
    pub open spec fn claim_ledger_effect(
        &self,
        post: &Contract,
        receiver: Seq<char>,
        id: Seq<char>,
    ) -> bool {
        let dv = self.spec_drop(id)@;
        let creator = drop_id_creator(id);
        if (dv is Token) && self.spec_is_admin(creator) {
            &&& post.spec_balance_of(receiver) == self.spec_balance_of(receiver)
                + dv->Token_0.token_amount
            &&& post.spec_collected_of(receiver) == self.spec_collected_of(receiver)
                + dv->Token_0.token_amount
            &&& post.ft_total_supply == self.ft_total_supply + dv->Token_0.token_amount
            &&& forall|k: Seq<char>|
                k != receiver ==> #[trigger] post.spec_balance_of(k) == self.spec_balance_of(k)
        } else if (dv is Token) && self.spec_is_sponsor(creator) {
            &&& post.spec_balance_of(receiver) == self.spec_balance_of(receiver)
                + dv->Token_0.token_amount
            &&& post.spec_balance_of(creator) == self.spec_balance_of(creator)
                - dv->Token_0.token_amount
            &&& post.ft_total_supply == self.ft_total_supply
            &&& forall|k: Seq<char>|
                k != receiver && k != creator ==> #[trigger] post.spec_balance_of(k)
                    == self.spec_balance_of(k)
        } else {
            &&& post.ft_total_supply == self.ft_total_supply
            &&& forall|k: Seq<char>| #[trigger]
                post.spec_balance_of(k) == self.spec_balance_of(k)
        }
    }

    /// The reward a successful claim reports: nothing while a hunt is still
    /// incomplete, otherwise the drop kind (with the amount for token
    /// drops).
    pub open spec fn claim_reward_of(&self, receiver: Seq<char>, id: Seq<char>) -> Option<
        DropClaimReward,
    > {
        if !self.claim_completes(receiver, id) {
            None
        } else {
            match self.spec_drop(id)@ {
                DropDataV::Token(t) => Some(DropClaimReward::Token(t.token_amount)),
                DropDataV::Nft(_) => Some(DropClaimReward::Nft),
                DropDataV::Multichain(_) => Some(DropClaimReward::Multichain),
            }
        }
    }

    /// The reward text recorded in the recent-transactions list.
    pub open spec fn claim_reward_text(&self, receiver: Seq<char>, id: Seq<char>) -> Seq<char> {
        match self.claim_reward_of(receiver, id) {
            None => "Scavenger Piece"@,
            Some(DropClaimReward::Token(a)) => dec_digits(a as nat),
            Some(DropClaimReward::Nft) => "NFT"@,
            Some(DropClaimReward::Multichain) => "Multichain POAP"@,
        }
    }

    /// The structured event a successful claim appends: the claimer, the
    /// reward released (if any), and for scavenger drops the progress counts.
    pub open spec fn claim_event_matches(
        &self,
        e: EventLog,
        receiver: Seq<char>,
        id: Seq<char>,
    ) -> bool {
        &&& e.event matches EventLogVariant::KeypomDropClaim(l)
        &&& l.claimer_id@ == receiver
        &&& l.reward == self.claim_reward_of(receiver, id)
        &&& (match self.spec_drop(id)@.scavenger_of() {
            Some(hunt) => l.pieces_found == Some(
                ((self.spec_found_pieces(receiver, id).len() + 1) as u16),
            ) && l.pieces_required == Some((hunt.len() as u16)),
            None => l.pieces_found is None && l.pieces_required is None,
        })
    }

    /// Adds one validated claim attempt to the counter of the drop at index
    /// `di`; everything else stays.
    fn bump_claim_counter(&mut self, di: usize)
        requires
            old(self).wf(),
            di < old(self).drop_by_id.entries@.len(),
        ensures
            final(self).wf(),
            final(self).spec_has_drop(old(self).drop_by_id.entries@[di as int].0@),
            final(self).spec_drop(old(self).drop_by_id.entries@[di as int].0@)@ == old(
                self,
            ).spec_drop(old(self).drop_by_id.entries@[di as int].0@)@.with_num_claimed(
                (if old(self).spec_drop(
                    old(self).drop_by_id.entries@[di as int].0@,
                )@.num_claimed_of() < u64::MAX {
                    (old(self).spec_drop(
                        old(self).drop_by_id.entries@[di as int].0@,
                    )@.num_claimed_of() + 1) as u64
                } else {
                    old(self).spec_drop(
                        old(self).drop_by_id.entries@[di as int].0@,
                    )@.num_claimed_of()
                }),
            ),
            old(self).drops_unchanged_except(
                final(self),
                old(self).drop_by_id.entries@[di as int].0@,
            ),
            final(self).drop_by_id.entries@.len() == old(self).drop_by_id.entries@.len(),
            final(self).drop_by_id.entries@[di as int].0 == old(
                self,
            ).drop_by_id.entries@[di as int].0,
            *final(self) == (Contract { drop_by_id: final(self).drop_by_id, ..*old(self) }),
    {
        let ghost pre = self.drop_by_id.entries@;
        proof {
            kv::lemma_key_at(pre, pre[di as int].0@, di as int);
        }
        self.drop_by_id.entries[di].1.bump_num_claimed();
        proof {
            let nd = self.drop_by_id.entries@[di as int].1;
            assert(self.drop_by_id.entries@ =~= pre.update(di as int, (pre[di as int].0, nd)));
            kv::lemma_update_effects(pre, di as int, nd);
            assert forall|m: int|
                0 <= m < self.drop_by_id.entries@.len() implies is_wf_drop_id(
                (#[trigger] self.drop_by_id.entries@[m]).0@,
            ) by {
                assert(self.drop_by_id.entries@[m].0 == pre[m].0);
            }
            kv::lemma_key_at(self.drop_by_id.entries@, pre[di as int].0@, di as int);
        }
    }

    /// Stores `new_progress` as the receiver's claim record for `drop_id`,
    /// creating the account record if needed; no balance, role, or other
    /// account moves.
    fn record_progress(
        &mut self,
        receiver_id: &AccountId,
        drop_id: &DropId,
        new_progress: ClaimedDropData,
    )
        requires
            old(self).wf(),
        ensures
            final(self).wf(),
            final(self).spec_has_account(receiver_id@),
            final(self).spec_progress_of(receiver_id@, drop_id@) == Some(
                progress_view(new_progress),
            ),
            forall|d2: Seq<char>|
                d2 != drop_id@ ==> #[trigger] final(self).spec_progress_of(receiver_id@, d2)
                    == old(self).spec_progress_of(receiver_id@, d2),
            final(self).spec_balance_of(receiver_id@) == old(self).spec_balance_of(receiver_id@),
            final(self).spec_collected_of(receiver_id@) == old(self).spec_collected_of(
                receiver_id@,
            ),
            final(self).spec_status_of(receiver_id@) == old(self).spec_status_of(receiver_id@),
            final(self).spec_created_of(receiver_id@) == old(self).spec_created_of(receiver_id@),
            old(self).accounts_unchanged_except(final(self), receiver_id@),
            forall|k: Seq<char>| #[trigger]
                final(self).spec_balance_of(k) == old(self).spec_balance_of(k),
            final(self).ft_total_supply == old(self).ft_total_supply,
            *final(self) == (Contract {
                account_details_by_id: final(self).account_details_by_id,
                ..*old(self)
            }),
    {
        let ghost pre = self.account_details_by_id.entries@;
        match self.account_details_by_id.find(receiver_id) {
            Some(ri) => {
                proof {
                    kv::lemma_key_at(pre, receiver_id@, ri as int);
                }
                let ghost old_details = pre[ri as int].1;
                let ghost old_claims = old_details.drops_claimed.entries@;
                match self.account_details_by_id.at(ri).1.drops_claimed.find(drop_id) {
                    Some(cj) => {
                        proof {
                            kv::lemma_key_at(old_claims, drop_id@, cj as int);
                            kv::lemma_update_effects(old_claims, cj as int, new_progress);
                        }
                        self.account_details_by_id.entries[ri].1.drops_claimed.set_at(
                            cj,
                            new_progress,
                        );
                        proof {
                            kv::lemma_key_at(
                                self.account_details_by_id.entries@[ri as int].1.drops_claimed.entries@,
                                drop_id@,
                                cj as int,
                            );
                        }
                    },
                    None => {
                        let claim_key = drop_id.clone();
                        proof {
                            kv::lemma_push_effects(old_claims, (claim_key, new_progress));
                        }
                        self.account_details_by_id.entries[ri].1.drops_claimed.insert_new(
                            claim_key,
                            new_progress,
                        );
                    },
                }
                proof {
                    let nd = AccountDetails {
                        drops_claimed: self.account_details_by_id.entries@[ri as int].1.drops_claimed,
                        ..old_details
                    };
                    assert(self.account_details_by_id.entries@ =~= pre.update(
                        ri as int,
                        (pre[ri as int].0, nd),
                    ));
                    kv::lemma_update_effects(pre, ri as int, nd);
                    lemma_sum_update(pre, ri as int, nd);
                    kv::lemma_key_at(
                        self.account_details_by_id.entries@,
                        receiver_id@,
                        ri as int,
                    );
                    assert forall|k: Seq<char>| #[trigger] self.spec_balance_of(k) == old(
                        self,
                    ).spec_balance_of(k) by {
                        if k == receiver_id@ {
                            assert(self.spec_account(k).ft_balance == nd.ft_balance);
                        }
                    }
                }
            },
            None => {
                let mut details = AccountDetails::new();
                let claim_key = drop_id.clone();
                proof {
                    kv::lemma_push_effects(details.drops_claimed.entries@, (claim_key, new_progress));
                }
                details.drops_claimed.insert_new(claim_key, new_progress);
                let account_key = receiver_id.clone();
                proof {
                    kv::lemma_push_effects(pre, (account_key, details));
                    lemma_sum_push(pre, (account_key, details));
                }
                self.account_details_by_id.insert_new(account_key, details);
                proof {
                    kv::lemma_key_at(
                        self.account_details_by_id.entries@,
                        receiver_id@,
                        pre.len() as int,
                    );
                    assert(self.spec_created_of(receiver_id@) =~= Seq::<(String, ())>::empty());
                    assert forall|d2: Seq<char>|
                        d2 != drop_id@ implies #[trigger] self.spec_progress_of(receiver_id@, d2)
                        == old(self).spec_progress_of(receiver_id@, d2) by {
                        if kv::has_key(self.spec_claims_of(receiver_id@), d2) {
                            let i = choose|i: int|
                                0 <= i < self.spec_claims_of(receiver_id@).len()
                                    && self.spec_claims_of(receiver_id@)[i].0@ == d2;
                        }
                    }
                    assert forall|k: Seq<char>| #[trigger] self.spec_balance_of(k) == old(
                        self,
                    ).spec_balance_of(k) by {}
                }
            },
        }
    }

    /// Claims drop `drop_id` for the resolved account `receiver_id`.
    ///
    /// The host has already checked the claim signature against the key that
    /// `expected_claim_key` names and reports the outcome in
    /// `signature_valid`. On success the drop's claim counter rises by one;
    /// a scavenger piece is recorded, or the claim becomes terminal; the
    /// reward is paid exactly when this attempt completes the drop; a claim
    /// event and a recent-transactions entry are appended; and the updated
    /// drop is returned. A failed call changes nothing.
    #[verifier::rlimit(100)]
    #[verifier::loop_isolation(false)]
    pub fn claim_drop(
        &mut self,
        receiver_id: &AccountId,
        drop_id: &DropId,
        scavenger_id: Option<PublicKey>,
        signature_valid: bool,
        timestamp: u64,
    ) -> (r: Result<DropData, Error>)
        requires
            old(self).wf(),
        ensures
            final(self).wf(),
            match r {
                Ok(snapshot) => {
                    &&& old(self).claim_err(
                        receiver_id@,
                        drop_id@,
                        piece_view(scavenger_id),
                        signature_valid,
                    ) is None
                    &&& final(self).spec_has_drop(drop_id@)
                    &&& final(self).spec_drop(drop_id@)@ == old(self).spec_drop(
                        drop_id@,
                    )@.with_num_claimed(
                        (if old(self).spec_drop(drop_id@)@.num_claimed_of() < u64::MAX {
                            (old(self).spec_drop(drop_id@)@.num_claimed_of() + 1) as u64
                        } else {
                            old(self).spec_drop(drop_id@)@.num_claimed_of()
                        }),
                    )
                    &&& old(self).drops_unchanged_except(final(self), drop_id@)
                    &&& snapshot@ == final(self).spec_drop(drop_id@)@
                    &&& old(self).claim_progress_updated(
                        final(self),
                        receiver_id@,
                        drop_id@,
                        piece_view(scavenger_id),
                    )
                    &&& (if old(self).claim_completes(receiver_id@, drop_id@) {
                        old(self).claim_ledger_effect(final(self), receiver_id@, drop_id@)
                    } else {
                        final(self).ft_total_supply == old(self).ft_total_supply && (forall|
                            k: Seq<char>,
                        | #[trigger]
                            final(self).spec_balance_of(k) == old(self).spec_balance_of(k))
                    })
                    &&& final(self).spec_status_of(receiver_id@) == old(self).spec_status_of(
                        receiver_id@,
                    )
                    &&& final(self).spec_created_of(receiver_id@) == old(self).spec_created_of(
                        receiver_id@,
                    )
                    &&& old(self).accounts_unchanged_except2(
                        final(self),
                        receiver_id@,
                        drop_id_creator(drop_id@),
                    )
                    &&& final(self).event_log@.len() > old(self).event_log@.len()
                    &&& old(self).claim_event_matches(
                        final(self).event_log@.last(),
                        receiver_id@,
                        drop_id@,
                    )
                    &&& final(self).recent_transactions@.len() > 0
                    &&& (final(self).recent_transactions@.last() matches TransactionType::Claim {
                        account_id: ca,
                        reward: cr,
                        timestamp: ct,
                    } && ca@ == receiver_id@ && cr@ == old(self).claim_reward_text(
                        receiver_id@,
                        drop_id@,
                    ) && ct == timestamp)
                    &&& final(self).is_contract_frozen == old(self).is_contract_frozen
                    &&& final(self).contract_key == old(self).contract_key
                    &&& final(self).ft_metadata == old(self).ft_metadata
                    &&& final(self).series_by_id == old(self).series_by_id
                    &&& final(self).total_transactions == (if old(self).total_transactions
                        < u64::MAX {
                        (old(self).total_transactions + 1) as u64
                    } else {
                        old(self).total_transactions
                    })
                },
                Err(e) => {
                    &&& old(self).claim_err(
                        receiver_id@,
                        drop_id@,
                        piece_view(scavenger_id),
                        signature_valid,
                    ) == Some(e)
                    &&& *final(self) == *old(self)
                },
            },
    {
        if self.is_contract_frozen {
            return Err(Error::ContractFrozen);
        }
        let ghost pre_drops = self.drop_by_id.entries@;
        let di: usize;
        match self.drop_by_id.find(drop_id) {
            Some(i) => {
                proof {
                    kv::lemma_key_at(pre_drops, drop_id@, i as int);
                }
                di = i;
            },
            None => {
                return Err(Error::DropNotFound);
            },
        }
        if !signature_valid {
            return Err(Error::InvalidSignature);
        }
        proof {
            assert(is_wf_drop_id(drop_id@));
        }
        let ghost dv = self.spec_drop(drop_id@)@;
        // ---- scavenger checks: compute the new progress record ----
        let completed: bool;
        let new_progress: ClaimedDropData;
        let pieces_found_log: Option<u16>;
        let pieces_required_log: Option<u16>;
        match self.drop_by_id.at(di).1.scavenger_hunt_ref() {
            Some(hunt) => {
                let ghost huntv = dv.scavenger_of()->Some_0;
                let piece = match scavenger_id {
                    Some(p) => p,
                    None => {
                        return Err(Error::ScavengerRequired);
                    },
                };
                // the piece must be one of the required pieces
                let hn = hunt.len();
                let mut hj: usize = 0;
                let mut piece_valid: bool = false;
                while hj < hn && !piece_valid
                    invariant
                        hn == hunt@.len(),
                        hj <= hn,
                        huntv == hunt.deep_view(),
                        piece_valid ==> hj < hn && huntv[hj as int].key == piece@,
                        forall|m: int| 0 <= m < hj ==> huntv[m].key != piece@,
                    decreases hn - hj, (if piece_valid { 0int } else { 1int }),
                {
                    if bytes_equal(&hunt[hj].key, &piece) {
                        proof {
                            assert(huntv[hj as int] == hunt@[hj as int]@);
                        }
                        piece_valid = true;
                    } else {
                        proof {
                            assert(huntv[hj as int] == hunt@[hj as int]@);
                        }
                        hj = hj + 1;
                    }
                }
                if !piece_valid {
                    proof {
                        assert(!piece_in_hunt(huntv, piece@));
                    }
                    return Err(Error::InvalidScavengerPiece);
                }
                proof {
                    assert(piece_in_hunt(huntv, piece@));
                }
                // read the receiver's progress so far
                let mut found_len: usize = 0;
                let mut base: Vec<PublicKey> = Vec::new();
                match self.account_details_by_id.find(receiver_id) {
                    None => (),
                    Some(ri) => {
                        proof {
                            kv::lemma_key_at(
                                self.account_details_by_id.entries@,
                                receiver_id@,
                                ri as int,
                            );
                        }
                        let claims = &self.account_details_by_id.at(ri).1.drops_claimed;
                        match claims.find(drop_id) {
                            None => (),
                            Some(cj) => {
                                proof {
                                    kv::lemma_key_at(claims.entries@, drop_id@, cj as int);
                                }
                                match &claims.at(cj).1 {
                                    None => {
                                        return Err(Error::AlreadyClaimed);
                                    },
                                    Some(found) => {
                                        // the piece must be new
                                        let fn2 = found.len();
                                        let mut fj: usize = 0;
                                        while fj < fn2
                                            invariant
                                                fn2 == found@.len(),
                                                fj <= fn2,
                                                forall|m: int|
                                                    0 <= m < fj ==> found@[m]@ != piece@,
                                            decreases fn2 - fj,
                                        {
                                            if bytes_equal(&found[fj], &piece) {
                                                proof {
                                                    let fv = old(self).spec_found_pieces(
                                                        receiver_id@,
                                                        drop_id@,
                                                    );
                                                    assert(old(self).spec_progress_of(
                                                        receiver_id@,
                                                        drop_id@,
                                                    ) == Some(
                                                        crate::models::progress_view(
                                                            Some(*found),
                                                        ),
                                                    ));
                                                    assert(fv == Seq::new(
                                                        found@.len(),
                                                        |i: int| found@[i]@,
                                                    ));
                                                    assert(fv[fj as int] == piece@);
                                                    assert(fv.contains(piece@));
                                                }
                                                return Err(Error::PieceAlreadyClaimed);
                                            }
                                            fj = fj + 1;
                                        }
                                        proof {
                                            let fv = old(self).spec_found_pieces(
                                                receiver_id@,
                                                drop_id@,
                                            );
                                            assert(old(self).spec_progress_of(
                                                receiver_id@,
                                                drop_id@,
                                            ) == Some(
                                                crate::models::progress_view(Some(*found)),
                                            ));
                                            assert(fv == Seq::new(
                                                found@.len(),
                                                |i: int| found@[i]@,
                                            ));
                                            assert forall|m: int|
                                                0 <= m < fv.len() implies fv[m] != piece@ by {
                                                assert(fv[m] == found@[m]@);
                                            }
                                            assert(!fv.contains(piece@));
                                        }
                                        found_len = fn2;
                                        base = clone_key_list(found);
                                    },
                                }
                            },
                        }
                    },
                }
                completed = found_len == hn - 1;
                pieces_found_log = Some(#[verifier::truncate] (((found_len as u128) + 1) as u16));
                pieces_required_log = Some(#[verifier::truncate] (hn as u16));
                base.push(piece);
                proof {
                    assert(Seq::new(base@.len(), |i: int| base@[i]@) =~= old(
                        self,
                    ).spec_found_pieces(receiver_id@, drop_id@).push(
                        piece_view(scavenger_id)->Some_0,
                    ));
                }
                new_progress = Some(base);
            },
            None => {
                // direct claim: there must be no record yet
                match self.account_details_by_id.find(receiver_id) {
                    None => (),
                    Some(ri) => {
                        proof {
                            kv::lemma_key_at(
                                self.account_details_by_id.entries@,
                                receiver_id@,
                                ri as int,
                            );
                        }
                        let claims = &self.account_details_by_id.at(ri).1.drops_claimed;
                        match claims.find(drop_id) {
                            None => (),
                            Some(cj) => {
                                proof {
                                    kv::lemma_key_at(claims.entries@, drop_id@, cj as int);
                                }
                                return Err(Error::AlreadyClaimed);
                            },
                        }
                    },
                }
                completed = true;
                new_progress = None;
                pieces_found_log = None;
                pieces_required_log = None;
            },
        }
        proof {
            assert(completed == old(self).claim_completes(receiver_id@, drop_id@));
        }
        // ---- payout: only a completed token claim touches the ledger ----
        let reward: Option<DropClaimReward>;
        if completed {
            let token_amount: Option<u128>;
            let is_nft: bool;
            match &self.drop_by_id.at(di).1 {
                DropData::Token(t) => {
                    token_amount = Some(t.token_amount);
                    is_nft = false;
                },
                DropData::Nft(_) => {
                    token_amount = None;
                    is_nft = true;
                },
                DropData::Multichain(_) => {
                    token_amount = None;
                    is_nft = false;
                },
            }
            match token_amount {
                Some(amount) => {
                    let creator = parse_drop_id(drop_id);
                    let status = match self.account_details_by_id.get(&creator) {
                        None => {
                            return Err(Error::AccountNotFound);
                        },
                        Some(details) => match &details.account_status {
                            None => {
                                return Err(Error::Unauthorized);
                            },
                            Some(st) => *st,
                        },
                    };
                    if status.is_admin() {
                        match self.internal_deposit_ft_mint(
                            receiver_id,
                            amount,
                            Some(drop_id.clone()),
                            true,
                        ) {
                            Ok(()) => (),
                            Err(e) => {
                                return Err(e);
                            },
                        }
                    } else if status.is_sponsor() {
                        match self.internal_ft_transfer(&creator, receiver_id, amount, true) {
                            Ok(()) => (),
                            Err(e) => {
                                if e == Error::InsufficientBalance {
                                    return Err(Error::InsufficientCreatorFunds);
                                }
                                return Err(e);
                            },
                        }
                    }
                    reward = Some(DropClaimReward::Token(amount));
                },
                None => {
                    reward = if is_nft {
                        Some(DropClaimReward::Nft)
                    } else {
                        Some(DropClaimReward::Multichain)
                    };
                },
            }
        } else {
            reward = None;
        }
        let ghost after_payout = *self;
        proof {
            lemma_drops_view_eq(*old(self), after_payout);
            assert forall|d2: Seq<char>| #[trigger] after_payout.spec_progress_of(
                receiver_id@,
                d2,
            ) == old(self).spec_progress_of(receiver_id@, d2) by {
                lemma_progress_from_claims(*old(self), after_payout, receiver_id@, d2);
            }
        }
        // ---- mutations that cannot fail ----
        // the claim counter counts every validated attempt
        self.bump_claim_counter(di);
        let ghost p2 = *self;
        proof {
            lemma_accounts_view_eq(after_payout, p2);
            assert forall|d2: Seq<char>| #[trigger] p2.spec_progress_of(receiver_id@, d2)
                == after_payout.spec_progress_of(receiver_id@, d2) by {
                lemma_progress_from_claims(after_payout, p2, receiver_id@, d2);
            }
        }
        // record the claim progress
        self.record_progress(receiver_id, drop_id, new_progress);
        let ghost after_progress = *self;
        proof {
            lemma_drops_view_eq(p2, after_progress);
        }
        // emit the claim event and record the transaction
        let reward_text: String = match &reward {
            None => {
                proof {
                    reveal_strlit("Scavenger Piece");
                }
                String::from_str("Scavenger Piece")
            },
            Some(DropClaimReward::Token(a)) => u128_to_string(*a),
            Some(DropClaimReward::Nft) => {
                proof {
                    reveal_strlit("NFT");
                }
                String::from_str("NFT")
            },
            Some(DropClaimReward::Multichain) => {
                proof {
                    reveal_strlit("Multichain POAP");
                }
                String::from_str("Multichain POAP")
            },
        };
        self.event_log.push(
            EventLog {
                standard: String::from_str(KEYPOM_STANDARD_NAME),
                version: String::from_str(KEYPOM_CONFERENCE_METADATA_SPEC),
                event: EventLogVariant::KeypomDropClaim(
                    KeypomDropClaimLog {
                        claimer_id: receiver_id.clone(),
                        reward,
                        pieces_found: pieces_found_log,
                        pieces_required: pieces_required_log,
                    },
                ),
            },
        );
        self.add_transaction(
            TransactionType::Claim {
                account_id: receiver_id.clone(),
                reward: reward_text,
                timestamp,
            },
        );
        self.bump_total_transactions();
        proof {
            lemma_accounts_view_eq(after_progress, *self);
            lemma_drops_view_eq(after_progress, *self);
            assert forall|d2: Seq<char>| #[trigger] self.spec_progress_of(receiver_id@, d2)
                == after_progress.spec_progress_of(receiver_id@, d2) by {
                lemma_progress_from_claims(after_progress, *self, receiver_id@, d2);
            }
        }
        let snapshot = self.drop_by_id.at(di).1.duplicate();
        Ok(snapshot)
    }

    /// The multichain payout hook: reserved for a future call into the
    /// external-chain minting collaborator; today it changes nothing.
    pub fn handle_multichain_mint(&mut self, _data: &crate::models::MultichainDropData)
        ensures
            *final(self) == *old(self),
    {
    }
}

} // verus!
