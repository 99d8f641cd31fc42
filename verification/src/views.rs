use vstd::prelude::*;
use crate::contract::Contract;
use crate::account::ExtAccountDetails;
use crate::drop_id::{drop_id_creator, is_wf_drop_id, parse_drop_id};
use crate::errors::Error;
use crate::events::TransactionType;
use crate::kv;
use crate::models::{
    clone_bytes, clone_opt_hunt, clone_progress, progress_view, AccountId, ClaimedDropData,
    DropData, DropDataV, DropId, MultichainDropData, MultichainMetadata, NFTDropData, PublicKey,
    ScavengerHuntData, SeriesId, TokenMetadata,
};
use crate::roles::AccountStatus;

verus! {

/// A drop as the outside world sees it: token drops additionally say
/// whether their creator can presently fund a claim.
pub enum ExtDropData {
    Token(ExtTokenDropData),
    Multichain(MultichainDropData),
    Nft(NFTDropData),
}

/// A token drop plus the funding indicator.
pub struct ExtTokenDropData {
    pub id: DropId,
    pub key: PublicKey,
    pub name: String,
    pub image: String,
    pub scavenger_hunt: Option<Vec<ScavengerHuntData>>,
    pub num_claimed: u64,
    pub creator_has_funds: bool,
    pub token_amount: u128,
}

/// One claim of an account, joined with the claimed drop's details.
pub enum ExtClaimedDrop {
    Token(ExtClaimedTokenDropData),
    Nft(ExtClaimedNFTDropData),
    Multichain(ExtClaimedMultichainDropData),
}

/// A claimed token drop: the pieces found so far and the drop's data.
pub struct ExtClaimedTokenDropData {
    pub found_scavenger_ids: ClaimedDropData,
    pub needed_scavenger_ids: Option<Vec<ScavengerHuntData>>,
    pub creator_has_funds: bool,
    pub name: String,
    pub image: String,
    pub token_amount: u128,
    pub drop_id: DropId,
    pub key: PublicKey,
}

/// A claimed NFT drop: the pieces found so far, the drop's data, and the
/// backing series' metadata.
pub struct ExtClaimedNFTDropData {
    pub found_scavenger_ids: ClaimedDropData,
    pub needed_scavenger_ids: Option<Vec<ScavengerHuntData>>,
    pub name: String,
    pub image: String,
    pub nft_metadata: TokenMetadata,
    pub drop_id: DropId,
    pub key: PublicKey,
}

/// A claimed multichain drop: the pieces found so far and the drop's data.
pub struct ExtClaimedMultichainDropData {
    pub found_scavenger_ids: ClaimedDropData,
    pub needed_scavenger_ids: Option<Vec<ScavengerHuntData>>,
    pub name: String,
    pub image: String,
    pub drop_id: DropId,
    pub mc_metadata: MultichainMetadata,
    pub nft_metadata: TokenMetadata,
    pub key: PublicKey,
}

/// Everything the leaderboard view reports in one call.
pub struct LeaderboardInformation {
    pub recent_transactions: Vec<TransactionType>,
    pub total_transactions: u64,
    pub total_tokens_transferred: u128,
    pub token_leaderboard: Vec<(AccountId, u128)>,
    pub poap_leaderboard: Vec<(AccountId, u16)>,
}

/// `e` carries exactly the data of the registered drop `dv`, with
/// `creator_has_funds` equal to `chf` for token drops.
pub open spec fn ext_drop_matches(e: ExtDropData, dv: DropDataV, chf: bool) -> bool {
    match e {
        ExtDropData::Token(t) => {
            &&& dv matches DropDataV::Token(d)
            &&& t.id@ == d.id
            &&& t.key@ == d.key
            &&& t.name@ == d.name
            &&& t.image@ == d.image
            &&& t.scavenger_hunt.deep_view() == d.scavenger_hunt
            &&& t.num_claimed == d.num_claimed
            &&& t.token_amount == d.token_amount
            &&& t.creator_has_funds == chf
        },
        ExtDropData::Nft(n) => dv == DropDataV::Nft(n@),
        ExtDropData::Multichain(m) => dv == DropDataV::Multichain(m@),
    }
}


/// Of the given drop ids, in order, the ones the drop views show: the drop
/// is registered and its creator's account record exists.
pub open spec fn visible_drop_ids(c: &Contract, ids: Seq<Seq<char>>) -> Seq<Seq<char>>
    decreases ids.len(),
{
    if ids.len() == 0 {
        Seq::empty()
    } else {
        let rest = visible_drop_ids(c, ids.drop_last());
        let id = ids.last();
        if c.spec_has_drop(id) && c.spec_has_account(drop_id_creator(id)) {
            rest.push(id)
        } else {
            rest
        }
    }
}

/// Extending the scanned prefix by one id either appends that id to the
/// visible list or leaves the list as it was.
pub proof fn lemma_visible_drop_ids_step(c: &Contract, ids: Seq<Seq<char>>, j: int)
    requires
        0 <= j < ids.len(),
    ensures
        visible_drop_ids(c, ids.take(j + 1)) == (if c.spec_has_drop(ids[j])
            && c.spec_has_account(drop_id_creator(ids[j])) {
            visible_drop_ids(c, ids.take(j)).push(ids[j])
        } else {
            visible_drop_ids(c, ids.take(j))
        }),
{
    assert(ids.take(j + 1).drop_last() =~= ids.take(j));
    assert(ids.take(j + 1).last() == ids[j]);
}

/// The visible ids are never more numerous than the scanned ids.
pub proof fn lemma_visible_len_le(c: &Contract, ids: Seq<Seq<char>>)
    ensures
        visible_drop_ids(c, ids).len() <= ids.len(),
    decreases ids.len(),
{
    if ids.len() > 0 {
        lemma_visible_len_le(c, ids.drop_last());
    }
}

/// Entry `e` of a drop view shows the registered drop `id`: the drop and
/// its creator's record exist and `e` carries the drop's data.
pub open spec fn drop_view_entry_ok(c: &Contract, e: ExtDropData, id: Seq<char>) -> bool {
    &&& c.spec_has_drop(id)
    &&& c.spec_has_account(drop_id_creator(id))
    &&& ext_drop_matches(e, c.spec_drop(id)@, c.spec_creator_has_funds(id))
}

/// The result lists exactly the visible ids, each entry carrying its drop's
/// data and funding indicator.
pub open spec fn drop_views_complete(c: &Contract, v: Seq<ExtDropData>, ids: Seq<Seq<char>>) -> bool {
    &&& v.len() == visible_drop_ids(c, ids).len()
    &&& forall|i: int|
        0 <= i < v.len() ==> #[trigger] drop_view_entry_ok(c, v[i], visible_drop_ids(c, ids)[i])
}

/// Reads one entry's guarantee out of a complete drop view.
pub proof fn lemma_drop_views_complete_index(
    c: &Contract,
    v: Seq<ExtDropData>,
    ids: Seq<Seq<char>>,
    i: int,
)
    requires
        drop_views_complete(c, v, ids),
        0 <= i < v.len(),
    ensures
        drop_view_entry_ok(c, v[i], visible_drop_ids(c, ids)[i]),
{
}

impl Contract {
    /// A token drop's claim can be funded right now: its creator is an
    /// admin (who mints), or holds at least the drop amount.
    pub open spec fn spec_creator_has_funds(&self, id: Seq<char>) -> bool {
        let c = drop_id_creator(id);
        if self.spec_status_of(c) == Some(AccountStatus::Admin) {
            true
        } else {
            self.spec_balance_of(c) >= self.spec_drop(id)@->Token_0.token_amount
        }
    }

    /// Computes the funding indicator for the token drop at registry index
    /// `di`, whose creator sits at account index `ci`.
    fn creator_has_funds_at(&self, ci: usize, amount: u128) -> (r: bool)
        requires
            self.wf(),
            ci < self.account_details_by_id.entries@.len(),
        ensures
            r == (if self.account_details_by_id.entries@[ci as int].1.account_status == Some(
                AccountStatus::Admin,
            ) {
                true
            } else {
                self.account_details_by_id.entries@[ci as int].1.ft_balance >= amount
            }),
    {
        let details = &self.account_details_by_id.at(ci).1;
        match &details.account_status {
            Some(AccountStatus::Admin) => true,
            _ => details.ft_balance >= amount,
        }
    }

    /// The registered drop `drop_id` as the outside world sees it: `None`
    /// when the drop is not registered or its creator has no account
    /// record.
    pub fn get_drop_information(&self, drop_id: &DropId) -> (r: Option<ExtDropData>)
        requires
            self.wf(),
        ensures
            match r {
                Some(e) => {
                    &&& self.spec_has_drop(drop_id@)
                    &&& self.spec_has_account(drop_id_creator(drop_id@))
                    &&& ext_drop_matches(
                        e,
                        self.spec_drop(drop_id@)@,
                        self.spec_creator_has_funds(drop_id@),
                    )
                },
                None => !self.spec_has_drop(drop_id@) || !self.spec_has_account(
                    drop_id_creator(drop_id@),
                ),
            },
    {
        let di = match self.drop_by_id.find(drop_id) {
            Some(i) => i,
            None => {
                return None;
            },
        };
        proof {
            kv::lemma_key_at(self.drop_by_id.entries@, drop_id@, di as int);
            assert(is_wf_drop_id(drop_id@));
        }
        let creator = parse_drop_id(drop_id);
        let ci = match self.account_details_by_id.find(&creator) {
            Some(i) => i,
            None => {
                return None;
            },
        };
        proof {
            kv::lemma_key_at(self.account_details_by_id.entries@, creator@, ci as int);
        }
        match &self.drop_by_id.at(di).1 {
            DropData::Token(d) => {
                let creator_has_funds = self.creator_has_funds_at(ci, d.token_amount);
                Some(
                    ExtDropData::Token(
                        ExtTokenDropData {
                            id: d.id.clone(),
                            key: clone_bytes(&d.key),
                            name: d.name.clone(),
                            image: d.image.clone(),
                            scavenger_hunt: clone_opt_hunt(&d.scavenger_hunt),
                            num_claimed: d.num_claimed,
                            creator_has_funds,
                            token_amount: d.token_amount,
                        },
                    ),
                )
            },
            DropData::Nft(_) => {
                let dup = self.drop_by_id.at(di).1.duplicate();
                match dup {
                    DropData::Nft(n) => Some(ExtDropData::Nft(n)),
                    _ => vstd::pervasive::unreached(),
                }
            },
            DropData::Multichain(_) => {
                let dup = self.drop_by_id.at(di).1.duplicate();
                match dup {
                    DropData::Multichain(m) => Some(ExtDropData::Multichain(m)),
                    _ => vstd::pervasive::unreached(),
                }
            },
        }
    }

    /// The number of registered drops. Read-only, never fails.
    pub fn get_num_drops(&self) -> (r: usize)
        ensures
            r == self.drop_by_id.entries@.len(),
    {
        self.drop_by_id.len()
    }

    /// The metadata of the series registered under `sid`, by index.
    fn series_meta_at(&self, si: usize) -> (r: &TokenMetadata)
        requires
            si < self.series_by_id@.len(),
        ensures
            *r == self.series_by_id@[si as int].1,
    {
        &self.series_by_id[si].1
    }

    /// The first reason reading the claim of `a` against `d` fails, if any.
    pub open spec fn claimed_view_err(&self, a: Seq<char>, d: Seq<char>) -> Option<Error> {
        if !self.spec_has_account(a) {
            Some(Error::AccountNotFound)
        } else if self.spec_progress_of(a, d) is None {
            Some(Error::ClaimNotFound)
        } else if !self.spec_has_drop(d) {
            Some(Error::DropNotFound)
        } else if !self.spec_has_account(drop_id_creator(d)) {
            Some(Error::AccountNotFound)
        } else if (self.spec_drop(d)@ is Nft) && !self.spec_has_series(
            self.spec_drop(d)@->Nft_0.nft_series_id,
        ) {
            Some(Error::SeriesNotFound)
        } else {
            None
        }
    }

    /// The claim of `account_id` against `drop_id`, joined with the drop's
    /// details.
    pub fn get_claimed_drop_for_account(&self, account_id: &AccountId, drop_id: &DropId) -> (r:
        Result<ExtClaimedDrop, Error>)
        requires
            self.wf(),
        ensures
            match r {
                Ok(e) => {
                    &&& self.claimed_view_err(account_id@, drop_id@) is None
                    &&& ext_claimed_matches(
                        e,
                        self.spec_drop(drop_id@)@,
                        self.spec_progress_of(account_id@, drop_id@)->Some_0,
                        self,
                        drop_id@,
                    )
                },
                Err(e) => self.claimed_view_err(account_id@, drop_id@) == Some(e),
            },
    {
        let ri = match self.account_details_by_id.find(account_id) {
            Some(i) => i,
            None => {
                return Err(Error::AccountNotFound);
            },
        };
        proof {
            kv::lemma_key_at(self.account_details_by_id.entries@, account_id@, ri as int);
        }
        let claims = &self.account_details_by_id.at(ri).1.drops_claimed;
        let cj = match claims.find(drop_id) {
            Some(j) => j,
            None => {
                return Err(Error::ClaimNotFound);
            },
        };
        proof {
            kv::lemma_key_at(claims.entries@, drop_id@, cj as int);
        }
        let found = clone_progress(&claims.at(cj).1);
        self.build_claimed_view(account_id, drop_id, found)
    }

    /// Joins an already-read claim record with the drop's registry data.
    fn build_claimed_view(
        &self,
        account_id: &AccountId,
        drop_id: &DropId,
        found: ClaimedDropData,
    ) -> (r: Result<ExtClaimedDrop, Error>)
        requires
            self.wf(),
            self.spec_has_account(account_id@),
            self.spec_progress_of(account_id@, drop_id@) == Some(progress_view(found)),
        ensures
            match r {
                Ok(e) => {
                    &&& self.claimed_view_err(account_id@, drop_id@) is None
                    &&& ext_claimed_matches(
                        e,
                        self.spec_drop(drop_id@)@,
                        self.spec_progress_of(account_id@, drop_id@)->Some_0,
                        self,
                        drop_id@,
                    )
                },
                Err(e) => self.claimed_view_err(account_id@, drop_id@) == Some(e),
            },
    {
        let di = match self.drop_by_id.find(drop_id) {
            Some(i) => i,
            None => {
                return Err(Error::DropNotFound);
            },
        };
        proof {
            kv::lemma_key_at(self.drop_by_id.entries@, drop_id@, di as int);
            assert(is_wf_drop_id(drop_id@));
        }
        let creator = parse_drop_id(drop_id);
        let ci = match self.account_details_by_id.find(&creator) {
            Some(i) => i,
            None => {
                return Err(Error::AccountNotFound);
            },
        };
        proof {
            kv::lemma_key_at(self.account_details_by_id.entries@, creator@, ci as int);
        }
        match &self.drop_by_id.at(di).1 {
            DropData::Token(d) => {
                let creator_has_funds = self.creator_has_funds_at(ci, d.token_amount);
                Ok(
                    ExtClaimedDrop::Token(
                        ExtClaimedTokenDropData {
                            found_scavenger_ids: found,
                            needed_scavenger_ids: clone_opt_hunt(&d.scavenger_hunt),
                            creator_has_funds,
                            name: d.name.clone(),
                            image: d.image.clone(),
                            token_amount: d.token_amount,
                            drop_id: drop_id.clone(),
                            key: clone_bytes(&d.key),
                        },
                    ),
                )
            },
            DropData::Nft(d) => {
                let si = match self.find_series(d.nft_series_id) {
                    Some(i) => i,
                    None => {
                        return Err(Error::SeriesNotFound);
                    },
                };
                Ok(
                    ExtClaimedDrop::Nft(
                        ExtClaimedNFTDropData {
                            found_scavenger_ids: found,
                            needed_scavenger_ids: clone_opt_hunt(&d.scavenger_hunt),
                            name: d.name.clone(),
                            image: d.image.clone(),
                            nft_metadata: self.series_meta_at(si).duplicate(),
                            drop_id: drop_id.clone(),
                            key: clone_bytes(&d.key),
                        },
                    ),
                )
            },
            DropData::Multichain(d) => {
                Ok(
                    ExtClaimedDrop::Multichain(
                        ExtClaimedMultichainDropData {
                            found_scavenger_ids: found,
                            needed_scavenger_ids: clone_opt_hunt(&d.scavenger_hunt),
                            name: d.name.clone(),
                            image: d.image.clone(),
                            drop_id: drop_id.clone(),
                            mc_metadata: MultichainMetadata {
                                chain_id: d.mc_metadata.chain_id,
                                contract_id: d.mc_metadata.contract_id.clone(),
                                series_id: d.mc_metadata.series_id,
                            },
                            nft_metadata: d.nft_metadata.duplicate(),
                            key: clone_bytes(&d.key),
                        },
                    ),
                )
            },
        }
    }
}

/// `e` carries exactly the data of the drop `dv` joined with the claim
/// progress `found`; NFT entries carry the metadata of some series
/// registered in `c` under the drop's series id.
pub open spec fn ext_claimed_matches(
    e: ExtClaimedDrop,
    dv: DropDataV,
    found: Option<Seq<Seq<u8>>>,
    c: &Contract,
    id: Seq<char>,
) -> bool {
    match e {
        ExtClaimedDrop::Token(t) => {
            &&& dv matches DropDataV::Token(d)
            &&& progress_view(t.found_scavenger_ids) == found
            &&& t.needed_scavenger_ids.deep_view() == d.scavenger_hunt
            &&& t.name@ == d.name
            &&& t.image@ == d.image
            &&& t.token_amount == d.token_amount
            &&& t.drop_id@ == id
            &&& t.key@ == d.key
            &&& t.creator_has_funds == c.spec_creator_has_funds(id)
        },
        ExtClaimedDrop::Nft(n) => {
            &&& dv matches DropDataV::Nft(d)
            &&& progress_view(n.found_scavenger_ids) == found
            &&& n.needed_scavenger_ids.deep_view() == d.scavenger_hunt
            &&& n.name@ == d.name
            &&& n.image@ == d.image
            &&& n.drop_id@ == id
            &&& n.key@ == d.key
            &&& exists|i: int|
                0 <= i < c.series_by_id@.len() && (#[trigger] c.series_by_id@[i]).0
                    == d.nft_series_id && n.nft_metadata@ == c.series_by_id@[i].1@
        },
        ExtClaimedDrop::Multichain(m) => {
            &&& dv matches DropDataV::Multichain(d)
            &&& progress_view(m.found_scavenger_ids) == found
            &&& m.needed_scavenger_ids.deep_view() == d.scavenger_hunt
            &&& m.name@ == d.name
            &&& m.image@ == d.image
            &&& m.drop_id@ == id
            &&& m.mc_metadata@ == d.mc_metadata
            &&& m.nft_metadata@ == d.nft_metadata
            &&& m.key@ == d.key
        },
    }
}


/// Whether the claims scan keeps this record: under filter 1 only records
/// with scavenger progress, under 2 and 3 only claims of NFT and multichain
/// drops, and in every case only records whose joined view exists (the
/// drop, its creator's record, and — for NFT drops — the backing series).
pub open spec fn claim_entry_kept(
    c: &Contract,
    a: Seq<char>,
    entry: (String, ClaimedDropData),
    kind_filter: u8,
) -> bool {
    &&& (kind_filter == 1 ==> entry.1 is Some)
    &&& c.claimed_view_err(a, entry.0@) is None
    &&& (kind_filter == 2 ==> c.spec_drop(entry.0@)@ is Nft)
    &&& (kind_filter == 3 ==> c.spec_drop(entry.0@)@ is Multichain)
}

/// Of the given claim records, in order, the drop ids of the ones the scan
/// keeps.
pub open spec fn visible_claim_ids(
    c: &Contract,
    a: Seq<char>,
    claims: Seq<(String, ClaimedDropData)>,
    kind_filter: u8,
) -> Seq<Seq<char>>
    decreases claims.len(),
{
    if claims.len() == 0 {
        Seq::empty()
    } else {
        let rest = visible_claim_ids(c, a, claims.drop_last(), kind_filter);
        if claim_entry_kept(c, a, claims.last(), kind_filter) {
            rest.push(claims.last().0@)
        } else {
            rest
        }
    }
}

/// Entry `e` of a claimed-drop view shows the claim of `a` against `id`:
/// the joined view exists and `e` carries the drop's data and the recorded
/// progress.
pub open spec fn claimed_view_entry_ok(
    c: &Contract,
    a: Seq<char>,
    e: ExtClaimedDrop,
    id: Seq<char>,
) -> bool {
    &&& c.claimed_view_err(a, id) is None
    &&& ext_claimed_matches(e, c.spec_drop(id)@, c.spec_progress_of(a, id)->Some_0, c, id)
}

/// The result lists exactly the kept claim records, in order, each entry
/// carrying its drop's data and progress.
pub open spec fn claimed_views_match(
    c: &Contract,
    a: Seq<char>,
    v: Seq<ExtClaimedDrop>,
    claims: Seq<(String, ClaimedDropData)>,
    kind_filter: u8,
) -> bool {
    &&& v.len() == visible_claim_ids(c, a, claims, kind_filter).len()
    &&& forall|i: int|
        0 <= i < v.len() ==> #[trigger] claimed_view_entry_ok(
            c,
            a,
            v[i],
            visible_claim_ids(c, a, claims, kind_filter)[i],
        )
}

/// Reads one entry's guarantee out of a complete claimed-drop view.
pub proof fn lemma_claimed_views_match_index(
    c: &Contract,
    a: Seq<char>,
    v: Seq<ExtClaimedDrop>,
    claims: Seq<(String, ClaimedDropData)>,
    kind_filter: u8,
    i: int,
)
    requires
        claimed_views_match(c, a, v, claims, kind_filter),
        0 <= i < v.len(),
    ensures
        claimed_view_entry_ok(c, a, v[i], visible_claim_ids(c, a, claims, kind_filter)[i]),
{
}

/// Scanning past a record the filter rejects leaves the view as it was.
pub proof fn lemma_claimed_views_match_skip(
    c: &Contract,
    a: Seq<char>,
    v: Seq<ExtClaimedDrop>,
    claims: Seq<(String, ClaimedDropData)>,
    kind_filter: u8,
    j: int,
)
    requires
        claimed_views_match(c, a, v, claims.take(j), kind_filter),
        0 <= j < claims.len(),
        !claim_entry_kept(c, a, claims[j], kind_filter),
    ensures
        claimed_views_match(c, a, v, claims.take(j + 1), kind_filter),
{
    assert(claims.take(j + 1).drop_last() =~= claims.take(j));
    assert(claims.take(j + 1).last() == claims[j]);
    assert(visible_claim_ids(c, a, claims.take(j + 1), kind_filter) == visible_claim_ids(
        c,
        a,
        claims.take(j),
        kind_filter,
    ));
    assert forall|i: int| 0 <= i < v.len() implies #[trigger] claimed_view_entry_ok(
        c,
        a,
        v[i],
        visible_claim_ids(c, a, claims.take(j + 1), kind_filter)[i],
    ) by {
        lemma_claimed_views_match_index(c, a, v, claims.take(j), kind_filter, i);
        assert(visible_claim_ids(c, a, claims.take(j + 1), kind_filter)[i] == visible_claim_ids(
            c,
            a,
            claims.take(j),
            kind_filter,
        )[i]);
    }
}

/// Scanning past a record the filter keeps appends its joined view.
pub proof fn lemma_claimed_views_match_push(
    c: &Contract,
    a: Seq<char>,
    v: Seq<ExtClaimedDrop>,
    claims: Seq<(String, ClaimedDropData)>,
    kind_filter: u8,
    j: int,
    e: ExtClaimedDrop,
)
    requires
        claimed_views_match(c, a, v, claims.take(j), kind_filter),
        0 <= j < claims.len(),
        claim_entry_kept(c, a, claims[j], kind_filter),
        claimed_view_entry_ok(c, a, e, claims[j].0@),
    ensures
        claimed_views_match(c, a, v.push(e), claims.take(j + 1), kind_filter),
{
    assert(claims.take(j + 1).drop_last() =~= claims.take(j));
    assert(claims.take(j + 1).last() == claims[j]);
    assert(visible_claim_ids(c, a, claims.take(j + 1), kind_filter) == visible_claim_ids(
        c,
        a,
        claims.take(j),
        kind_filter,
    ).push(claims[j].0@));
    assert forall|i: int| 0 <= i < v.push(e).len() implies #[trigger] claimed_view_entry_ok(
        c,
        a,
        v.push(e)[i],
        visible_claim_ids(c, a, claims.take(j + 1), kind_filter)[i],
    ) by {
        if i < v.len() {
            lemma_claimed_views_match_index(c, a, v, claims.take(j), kind_filter, i);
            assert(v.push(e)[i] == v[i]);
            assert(visible_claim_ids(c, a, claims.take(j + 1), kind_filter)[i]
                == visible_claim_ids(c, a, claims.take(j), kind_filter)[i]);
        } else {
            assert(v.push(e)[i] == e);
            assert(visible_claim_ids(c, a, claims.take(j + 1), kind_filter)[i] == claims[j].0@);
        }
    }
}

impl Contract {
    /// Every claim of `account_id`, joined with each claimed drop's
    /// details. Claims whose drop is gone, whose creator's record is gone,
    /// or whose backing series is gone are left out, as a read-only view
    /// never fails. `kind_filter` keeps every entry (0), entries with
    /// scavenger progress (1), NFT drops (2), or multichain drops (3).
    fn get_claimed_drops(&self, account_id: &AccountId, kind_filter: u8) -> (r: Vec<
        ExtClaimedDrop,
    >)
        requires
            self.wf(),
        ensures
            claimed_views_match(
                self,
                account_id@,
                r@,
                self.spec_claims_of(account_id@),
                kind_filter,
            ),
            kind_filter == 2 ==> forall|i: int| 0 <= i < r@.len() ==> (#[trigger] r@[i]) is Nft,
            kind_filter == 3 ==> forall|i: int|
                0 <= i < r@.len() ==> (#[trigger] r@[i]) is Multichain,
    {
        let mut result: Vec<ExtClaimedDrop> = Vec::new();
        let ri = match self.account_details_by_id.find(account_id) {
            Some(i) => i,
            None => {
                proof {
                    assert(self.spec_claims_of(account_id@) =~= Seq::<
                        (String, ClaimedDropData),
                    >::empty());
                    assert(self.spec_claims_of(account_id@).take(0)
                        =~= self.spec_claims_of(account_id@));
                }
                return result;
            },
        };
        proof {
            kv::lemma_key_at(self.account_details_by_id.entries@, account_id@, ri as int);
        }
        let claims = &self.account_details_by_id.at(ri).1.drops_claimed;
        let ghost cseq = self.spec_claims_of(account_id@);
        let n = claims.len();
        let mut j: usize = 0;
        proof {
            assert(cseq.take(0) =~= Seq::<(String, ClaimedDropData)>::empty());
        }
        while j < n
            invariant
                self.wf(),
                n == claims.entries@.len(),
                j <= n,
                *claims == self.spec_account(account_id@).drops_claimed,
                self.spec_has_account(account_id@),
                cseq == self.spec_claims_of(account_id@),
                claims.entries@ == cseq,
                claimed_views_match(self, account_id@, result@, cseq.take(j as int), kind_filter),
                kind_filter == 2 ==> forall|i: int|
                    0 <= i < result@.len() ==> (#[trigger] result@[i]) is Nft,
                kind_filter == 3 ==> forall|i: int|
                    0 <= i < result@.len() ==> (#[trigger] result@[i]) is Multichain,
            decreases n - j,
        {
            let entry = claims.at(j);
            proof {
                kv::lemma_key_at(claims.entries@, entry.0@, j as int);
            }
            let wanted: bool = match kind_filter {
                1 => match &entry.1 {
                    Some(_) => true,
                    None => false,
                },
                _ => true,
            };
            if wanted {
                let found = clone_progress(&entry.1);
                let key_copy = entry.0.clone();
                match self.build_claimed_view(account_id, &key_copy, found) {
                    Ok(e) => {
                        let keep: bool = match kind_filter {
                            2 => match &e {
                                ExtClaimedDrop::Nft(_) => true,
                                _ => false,
                            },
                            3 => match &e {
                                ExtClaimedDrop::Multichain(_) => true,
                                _ => false,
                            },
                            _ => true,
                        };
                        if keep {
                            let ghost prev_res = result@;
                            result.push(e);
                            proof {
                                assert(claim_entry_kept(
                                    self,
                                    account_id@,
                                    cseq[j as int],
                                    kind_filter,
                                ));
                                assert(claimed_view_entry_ok(
                                    self,
                                    account_id@,
                                    e,
                                    cseq[j as int].0@,
                                ));
                                lemma_claimed_views_match_push(
                                    self,
                                    account_id@,
                                    prev_res,
                                    cseq,
                                    kind_filter,
                                    j as int,
                                    e,
                                );
                            }
                        } else {
                            proof {
                                assert(!claim_entry_kept(
                                    self,
                                    account_id@,
                                    cseq[j as int],
                                    kind_filter,
                                ));
                                lemma_claimed_views_match_skip(
                                    self,
                                    account_id@,
                                    result@,
                                    cseq,
                                    kind_filter,
                                    j as int,
                                );
                            }
                        }
                    },
                    Err(_) => {
                        proof {
                            assert(!claim_entry_kept(
                                self,
                                account_id@,
                                cseq[j as int],
                                kind_filter,
                            ));
                            lemma_claimed_views_match_skip(
                                self,
                                account_id@,
                                result@,
                                cseq,
                                kind_filter,
                                j as int,
                            );
                        }
                    },
                }
            } else {
                proof {
                    assert(!claim_entry_kept(self, account_id@, cseq[j as int], kind_filter));
                    lemma_claimed_views_match_skip(
                        self,
                        account_id@,
                        result@,
                        cseq,
                        kind_filter,
                        j as int,
                    );
                }
            }
            j = j + 1;
        }
        proof {
            assert(cseq.take(n as int) =~= cseq);
        }
        result
    }

    /// Every claim of `account_id` whose joined view exists, in record
    /// order, joined with the drops' details.
    pub fn get_claimed_drops_for_account(&self, account_id: &AccountId) -> (r: Vec<
        ExtClaimedDrop,
    >)
        requires
            self.wf(),
        ensures
            claimed_views_match(self, account_id@, r@, self.spec_claims_of(account_id@), 0),
    {
        self.get_claimed_drops(account_id, 0)
    }

    /// The claims of `account_id` that carry scavenger progress, in record
    /// order.
    pub fn get_claimed_scavengers_for_account(&self, account_id: &AccountId) -> (r: Vec<
        ExtClaimedDrop,
    >)
        requires
            self.wf(),
        ensures
            claimed_views_match(self, account_id@, r@, self.spec_claims_of(account_id@), 1),
    {
        self.get_claimed_drops(account_id, 1)
    }

    /// The claims of `account_id` against NFT drops, in record order.
    pub fn get_claimed_nfts_for_account(&self, account_id: &AccountId) -> (r: Vec<ExtClaimedDrop>)
        requires
            self.wf(),
        ensures
            claimed_views_match(self, account_id@, r@, self.spec_claims_of(account_id@), 2),
            forall|i: int| 0 <= i < r@.len() ==> (#[trigger] r@[i]) is Nft,
    {
        self.get_claimed_drops(account_id, 2)
    }

    /// The claims of `account_id` against multichain drops, in record order.
    pub fn get_claimed_multichain_nfts_for_account(&self, account_id: &AccountId) -> (r: Vec<
        ExtClaimedDrop,
    >)
        requires
            self.wf(),
        ensures
            claimed_views_match(self, account_id@, r@, self.spec_claims_of(account_id@), 3),
            forall|i: int| 0 <= i < r@.len() ==> (#[trigger] r@[i]) is Multichain,
    {
        self.get_claimed_drops(account_id, 3)
    }

    /// The ids in the created-set of `k`, in insertion order.
    pub open spec fn spec_created_ids_of(&self, k: Seq<char>) -> Seq<Seq<char>> {
        self.spec_created_of(k).map_values(|e: (String, ())| e.0@)
    }

    /// Every drop created by `account_id`, as the outside world sees them,
    /// in creation order. Fails with `AccountNotFound` for an unknown
    /// account; created ids whose drop or creator record is gone are left
    /// out, and nothing else is.
    pub fn get_drops_created_by_account(&self, account_id: &AccountId) -> (r: Result<
        Vec<ExtDropData>,
        Error,
    >)
        requires
            self.wf(),
        ensures
            match r {
                Ok(v) => self.spec_has_account(account_id@) && drop_views_complete(
                    self,
                    v@,
                    self.spec_created_ids_of(account_id@),
                ),
                Err(e) => e == Error::AccountNotFound && !self.spec_has_account(account_id@),
            },
    {
        let ri = match self.account_details_by_id.find(account_id) {
            Some(i) => i,
            None => {
                return Err(Error::AccountNotFound);
            },
        };
        proof {
            kv::lemma_key_at(self.account_details_by_id.entries@, account_id@, ri as int);
        }
        let created = &self.account_details_by_id.at(ri).1.drops_created;
        let ghost ids = self.spec_created_ids_of(account_id@);
        let n = created.len();
        let mut result: Vec<ExtDropData> = Vec::new();
        let mut j: usize = 0;
        while j < n
            invariant
                self.wf(),
                n == created.entries@.len(),
                j <= n,
                ids == self.spec_created_ids_of(account_id@),
                ids.len() == n,
                created.entries@ == self.spec_created_of(account_id@),
                drop_views_complete(self, result@, ids.take(j as int)),
            decreases n - j,
        {
            let key_copy = created.at(j).0.clone();
            proof {
                assert(key_copy@ == ids[j as int]);
                lemma_visible_drop_ids_step(self, ids, j as int);
            }
            match self.get_drop_information(&key_copy) {
                Some(e) => {
                    let ghost prev_res = result@;
                    result.push(e);
                    proof {
                        assert forall|i: int|
                            0 <= i < result@.len() implies #[trigger] drop_view_entry_ok(
                            self,
                            result@[i],
                            visible_drop_ids(self, ids.take(j as int + 1))[i],
                        ) by {
                            if i < prev_res.len() {
                                lemma_drop_views_complete_index(
                                    self,
                                    prev_res,
                                    ids.take(j as int),
                                    i,
                                );
                                assert(result@[i] == prev_res[i]);
                                assert(visible_drop_ids(self, ids.take(j as int + 1))[i]
                                    == visible_drop_ids(self, ids.take(j as int))[i]);
                            } else {
                                assert(result@[i] == e);
                                assert(visible_drop_ids(self, ids.take(j as int + 1))[i]
                                    == ids[j as int]);
                            }
                        }
                    }
                },
                None => {
                    proof {
                        assert(visible_drop_ids(self, ids.take(j as int + 1))
                            == visible_drop_ids(self, ids.take(j as int)));
                        assert forall|i: int|
                            0 <= i < result@.len() implies #[trigger] drop_view_entry_ok(
                            self,
                            result@[i],
                            visible_drop_ids(self, ids.take(j as int + 1))[i],
                        ) by {
                            lemma_drop_views_complete_index(
                                self,
                                result@,
                                ids.take(j as int),
                                i,
                            );
                            assert(visible_drop_ids(self, ids.take(j as int + 1))[i]
                                == visible_drop_ids(self, ids.take(j as int))[i]);
                        }
                    }
                },
            }
            j = j + 1;
        }
        proof {
            assert(ids.take(n as int) =~= ids);
        }
        Ok(result)
    }

    /// The registry keys in insertion order.
    pub open spec fn spec_registry_ids(&self) -> Seq<Seq<char>> {
        self.drop_by_id.entries@.map_values(|e: (String, DropData)| e.0@)
    }

    /// Where the requested page of the registry starts: `from_index`
    /// (0 when unspecified), clipped to the registry size.
    pub open spec fn spec_page_start(&self, from_index: Option<u64>) -> int {
        let from = (match from_index {
            Some(f) => f as int,
            None => 0,
        });
        if from > self.drop_by_id.entries@.len() {
            self.drop_by_id.entries@.len() as int
        } else {
            from
        }
    }

    /// Where the requested page of the registry ends: `limit` entries
    /// (50 when unspecified) past the start, clipped to the registry size.
    pub open spec fn spec_page_end(&self, from_index: Option<u64>, limit: Option<u64>) -> int {
        let lim = (match limit {
            Some(l) => l as int,
            None => 50,
        });
        let start = self.spec_page_start(from_index);
        if start + lim > self.drop_by_id.entries@.len() {
            self.drop_by_id.entries@.len() as int
        } else {
            start + lim
        }
    }

    /// A page of the drop registry in insertion order: the window of up to
    /// `limit` registry entries (50 when unspecified) starting at
    /// `from_index` (0 when unspecified), with entries whose creator's
    /// record is gone left out, and nothing else.
    pub fn get_drops(&self, from_index: Option<u64>, limit: Option<u64>) -> (r: Vec<ExtDropData>)
        requires
            self.wf(),
        ensures
            drop_views_complete(
                self,
                r@,
                self.spec_registry_ids().subrange(
                    self.spec_page_start(from_index),
                    self.spec_page_end(from_index, limit),
                ),
            ),
            r@.len() <= (match limit {
                Some(l) => l,
                None => 50,
            }),
    {
        let start_u64: u64 = match from_index {
            Some(f) => f,
            None => 0,
        };
        let page: u64 = match limit {
            Some(l) => l,
            None => 50,
        };
        let n = self.drop_by_id.len();
        let mut result: Vec<ExtDropData> = Vec::new();
        let mut count: u64 = 0;
        let mut j: usize = if start_u64 > n as u64 {
            n
        } else {
            start_u64 as usize
        };
        let ghost ids = self.spec_registry_ids();
        let ghost start_spec = j as int;
        let ghost window_end = self.spec_page_end(from_index, limit);
        proof {
            assert(start_spec == self.spec_page_start(from_index));
            assert(drop_views_complete(self, result@, ids.subrange(start_spec, start_spec))) by {
                assert(ids.subrange(start_spec, start_spec) =~= Seq::<Seq<char>>::empty());
            }
        }
        while j < n && count < page
            invariant
                self.wf(),
                n == self.drop_by_id.entries@.len(),
                ids == self.spec_registry_ids(),
                ids.len() == n,
                start_spec == self.spec_page_start(from_index),
                window_end == self.spec_page_end(from_index, limit),
                page == (match limit {
                    Some(l) => l as int,
                    None => 50,
                }),
                start_spec <= j <= n,
                j <= window_end,
                count == j - start_spec,
                count <= page,
                drop_views_complete(self, result@, ids.subrange(start_spec, j as int)),
            decreases n - j,
        {
            let key_copy = self.drop_by_id.at(j).0.clone();
            proof {
                assert(key_copy@ == ids[j as int]);
                assert(ids.subrange(start_spec, j as int + 1).drop_last() =~= ids.subrange(
                    start_spec,
                    j as int,
                ));
                assert(ids.subrange(start_spec, j as int + 1).last() == ids[j as int]);
            }
            match self.get_drop_information(&key_copy) {
                Some(e) => {
                    let ghost prev_res = result@;
                    result.push(e);
                    proof {
                        assert forall|i: int|
                            0 <= i < result@.len() implies #[trigger] drop_view_entry_ok(
                            self,
                            result@[i],
                            visible_drop_ids(self, ids.subrange(start_spec, j as int + 1))[i],
                        ) by {
                            if i < prev_res.len() {
                                lemma_drop_views_complete_index(
                                    self,
                                    prev_res,
                                    ids.subrange(start_spec, j as int),
                                    i,
                                );
                                assert(result@[i] == prev_res[i]);
                                assert(visible_drop_ids(
                                    self,
                                    ids.subrange(start_spec, j as int + 1),
                                )[i] == visible_drop_ids(
                                    self,
                                    ids.subrange(start_spec, j as int),
                                )[i]);
                            } else {
                                assert(result@[i] == e);
                                assert(visible_drop_ids(
                                    self,
                                    ids.subrange(start_spec, j as int + 1),
                                )[i] == ids[j as int]);
                            }
                        }
                    }
                },
                None => {
                    proof {
                        assert(visible_drop_ids(self, ids.subrange(start_spec, j as int + 1))
                            == visible_drop_ids(self, ids.subrange(start_spec, j as int)));
                        assert forall|i: int|
                            0 <= i < result@.len() implies #[trigger] drop_view_entry_ok(
                            self,
                            result@[i],
                            visible_drop_ids(self, ids.subrange(start_spec, j as int + 1))[i],
                        ) by {
                            lemma_drop_views_complete_index(
                                self,
                                result@,
                                ids.subrange(start_spec, j as int),
                                i,
                            );
                            assert(visible_drop_ids(
                                self,
                                ids.subrange(start_spec, j as int + 1),
                            )[i] == visible_drop_ids(
                                self,
                                ids.subrange(start_spec, j as int),
                            )[i]);
                        }
                    }
                },
            }
            count = count + 1;
            j = j + 1;
        }
        proof {
            assert(j as int == window_end);
            lemma_visible_len_le(self, ids.subrange(start_spec, window_end));
        }
        result
    }

    /// The recent transactions and the aggregate counters in one call. The
    /// ranked leaderboards belong to the ranking collaborator and are
    /// reported empty here.
    pub fn get_leaderboard_information(&self) -> (r: LeaderboardInformation)
        ensures
            r.total_transactions == self.total_transactions,
            r.total_tokens_transferred == self.total_tokens_transferred,
            r.recent_transactions@.len() == self.recent_transactions@.len(),
            forall|i: int|
                0 <= i < r.recent_transactions@.len() ==> (#[trigger] r.recent_transactions@[i])@
                    == self.recent_transactions@[i]@,
    {
        let n = self.recent_transactions.len();
        let mut recent: Vec<TransactionType> = Vec::new();
        let mut j: usize = 0;
        while j < n
            invariant
                n == self.recent_transactions@.len(),
                j <= n,
                recent@.len() == j,
                forall|i: int|
                    0 <= i < j ==> (#[trigger] recent@[i])@ == self.recent_transactions@[i]@,
            decreases n - j,
        {
            recent.push(self.recent_transactions[j].duplicate());
            j = j + 1;
        }
        LeaderboardInformation {
            recent_transactions: recent,
            total_transactions: self.total_transactions,
            total_tokens_transferred: self.total_tokens_transferred,
            token_leaderboard: Vec::new(),
            poap_leaderboard: Vec::new(),
        }
    }

    /// The externally visible summary of the account record for the
    /// resolved id. The host resolves a signing key to an account id before
    /// calling.
    pub fn recover_account(&self, account_id: &AccountId) -> (r: Result<ExtAccountDetails, Error>)
        requires
            self.wf(),
        ensures
            match r {
                Ok(e) => {
                    &&& self.spec_has_account(account_id@)
                    &&& e.account_id@ == account_id@
                    &&& e.ft_balance == self.spec_balance_of(account_id@)
                    &&& e.ft_collected == self.spec_collected_of(account_id@)
                    &&& e.account_status == self.spec_status_of(account_id@)
                },
                Err(e) => e == Error::AccountNotFound && !self.spec_has_account(account_id@),
            },
    {
        match self.account_details_by_id.get(account_id) {
            Some(details) => Ok(
                ExtAccountDetails {
                    account_id: account_id.clone(),
                    ft_balance: details.ft_balance,
                    ft_collected: details.tokens_collected,
                    account_status: match &details.account_status {
                        Some(s) => Some(*s),
                        None => None,
                    },
                },
            ),
            None => Err(Error::AccountNotFound),
        }
    }
}

} // verus!
