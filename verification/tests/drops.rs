use drop_ledger::contract::Contract;
use drop_ledger::drop_id::{make_drop_id, parse_drop_id, try_parse_drop_id, u128_to_string, u64_to_string};
use drop_ledger::models::{MultichainMetadata, TokenMetadata};
use drop_ledger::roles::AccountStatus;
use drop_ledger::views::ExtDropData;
use drop_ledger::royalty::{bytes_for_approved_account_id, royalty_to_payout};
use drop_ledger::Error;

fn s(x: &str) -> String {
    x.to_string()
}

fn new_contract() -> Contract {
    let mut c = Contract::new(None, None, None, vec![s("admin.near")], vec![0u8]);
    c.add_account_status(&s("admin.near"), s("sponsor.near"), AccountStatus::Sponsor)
        .unwrap();
    c
}

fn bare_metadata() -> TokenMetadata {
    TokenMetadata {
        title: None,
        description: None,
        media: None,
        media_hash: None,
        copies: None,
        issued_at: None,
        expires_at: None,
        starts_at: None,
        updated_at: None,
        extra: None,
        reference: None,
        reference_hash: None,
    }
}

#[test]
fn drop_ids_embed_the_creator_and_parse_back() {
    let mut c = new_contract();
    let id0 = c
        .create_token_drop(&s("sponsor.near"), s("i"), s("n"), None, vec![0u8; 33], 5)
        .unwrap();
    assert_eq!(id0, s("sponsor.near||0"));
    assert_eq!(parse_drop_id(&id0), s("sponsor.near"));
    let id1 = c
        .create_token_drop(&s("sponsor.near"), s("i"), s("n"), None, vec![0u8; 33], 5)
        .unwrap();
    assert_eq!(id1, s("sponsor.near||1"));
    assert_eq!(parse_drop_id(&id1), s("sponsor.near"));
    // the formatting helpers agree with the id layout
    assert_eq!(make_drop_id(&s("sponsor.near"), 1), id1);
    assert_eq!(u64_to_string(1), s("1"));
    assert_eq!(u64_to_string(90210), s("90210"));
    assert_eq!(u128_to_string(340282366920938463463374607431768211455), s("340282366920938463463374607431768211455"));
}

#[test]
fn parsing_rejects_malformed_ids() {
    assert_eq!(try_parse_drop_id(&s("alice.near||7")), Some(s("alice.near")));
    // no delimiter
    assert_eq!(try_parse_drop_id(&s("alice.near")), None);
    // two delimiters make three parts
    assert_eq!(try_parse_drop_id(&s("a.near||b||c")), None);
    // the part before the delimiter must be a well-formed account id
    assert_eq!(try_parse_drop_id(&s("UPPER||1")), None);
    assert_eq!(try_parse_drop_id(&s("x||1")), None);
    assert_eq!(try_parse_drop_id(&s("||1")), None);
    // the delimiter scan is non-overlapping and left to right: the third
    // bar belongs to the second part
    assert_eq!(try_parse_drop_id(&s("a.near|||7")), Some(s("a.near")));
}

#[test]
fn creation_requires_role_and_thawed_contract() {
    let mut c = new_contract();
    assert_eq!(
        c.create_token_drop(&s("alice.near"), s("i"), s("n"), None, vec![0u8; 33], 5),
        Err(Error::Unauthorized)
    );
    // multichain drops demand the admin role, sponsor is not enough
    assert_eq!(
        c.create_multichain_drop(
            &s("sponsor.near"),
            s("i"),
            s("n"),
            vec![0u8; 33],
            None,
            MultichainMetadata { chain_id: 1, contract_id: s("nft.eth"), series_id: 0 },
            bare_metadata(),
        ),
        Err(Error::Unauthorized)
    );
    c.toggle_freeze(&s("admin.near"), true).unwrap();
    assert_eq!(
        c.create_token_drop(&s("sponsor.near"), s("i"), s("n"), None, vec![0u8; 33], 5),
        Err(Error::ContractFrozen)
    );
}

#[test]
fn creation_rejects_an_account_id_that_cannot_be_embedded() {
    let mut c = new_contract();
    c.add_account_status(&s("admin.near"), s("BAD|NAME"), AccountStatus::Sponsor)
        .unwrap();
    assert_eq!(
        c.create_token_drop(&s("BAD|NAME"), s("i"), s("n"), None, vec![0u8; 33], 5),
        Err(Error::InvalidAccountId)
    );
}

#[test]
fn nft_drops_allocate_series() {
    let mut c = new_contract();
    let id = c
        .create_nft_drop(&s("sponsor.near"), s("i"), s("n"), vec![0u8; 33], None, bare_metadata())
        .unwrap();
    assert_eq!(c.series_by_id.len(), 1);
    match c.get_drop_information(&id).unwrap() {
        ExtDropData::Nft(n) => assert_eq!(n.nft_series_id, 0),
        _ => panic!("expected an NFT drop"),
    }
    // deleting the drop deletes the backing series
    c.delete_drop(&s("sponsor.near"), &id).unwrap();
    assert_eq!(c.series_by_id.len(), 0);
    assert!(c.get_drop_information(&id).is_none());
}

#[test]
fn only_the_creator_deletes_a_drop() {
    let mut c = new_contract();
    let id = c
        .create_token_drop(&s("sponsor.near"), s("i"), s("n"), None, vec![0u8; 33], 5)
        .unwrap();
    // the admin is a sponsor too, but not this drop's creator
    assert_eq!(c.delete_drop(&s("admin.near"), &id), Err(Error::CreatorMismatch));
    assert_eq!(
        c.delete_drop(&s("sponsor.near"), &s("not a drop id")),
        Err(Error::MalformedDropId)
    );
    c.delete_drop(&s("sponsor.near"), &id).unwrap();
    assert!(c.get_drop_information(&id).is_none());
    // deleting an id that is not registered is a silent no-op
    c.delete_drop(&s("sponsor.near"), &id).unwrap();
}

#[test]
fn sequence_reuse_after_deletion_is_refused() {
    let mut c = new_contract();
    let id0 = c
        .create_token_drop(&s("sponsor.near"), s("i"), s("n"), None, vec![0u8; 33], 5)
        .unwrap();
    let _id1 = c
        .create_token_drop(&s("sponsor.near"), s("i"), s("n"), None, vec![0u8; 33], 5)
        .unwrap();
    // deleting the first drop shrinks the created-set to one entry, so the
    // next sequence number collides with the still-registered second drop
    c.delete_drop(&s("sponsor.near"), &id0).unwrap();
    assert_eq!(
        c.create_token_drop(&s("sponsor.near"), s("i"), s("n"), None, vec![0u8; 33], 5),
        Err(Error::DropIdCollision)
    );
}

#[test]
fn drop_views_report_funding_and_paginate() {
    let mut c = new_contract();
    c.ft_mint(&s("admin.near"), &s("sponsor.near"), 30).unwrap();
    let id = c
        .create_token_drop(&s("sponsor.near"), s("i"), s("n"), None, vec![0u8; 33], 100)
        .unwrap();
    match c.get_drop_information(&id).unwrap() {
        ExtDropData::Token(t) => {
            assert!(!t.creator_has_funds);
            assert_eq!(t.token_amount, 100);
            assert_eq!(t.num_claimed, 0);
        }
        _ => panic!("expected a token drop"),
    }
    c.ft_mint(&s("admin.near"), &s("sponsor.near"), 70).unwrap();
    match c.get_drop_information(&id).unwrap() {
        ExtDropData::Token(t) => assert!(t.creator_has_funds),
        _ => panic!("expected a token drop"),
    }
    // pagination
    for _ in 0..4 {
        c.create_token_drop(&s("sponsor.near"), s("i"), s("n"), None, vec![0u8; 33], 1)
            .unwrap();
    }
    assert_eq!(c.get_num_drops(), 5);
    assert_eq!(c.get_drops(None, None).len(), 5);
    assert_eq!(c.get_drops(Some(0), Some(2)).len(), 2);
    assert_eq!(c.get_drops(Some(4), Some(10)).len(), 1);
    assert_eq!(c.get_drops(Some(99), None).len(), 0);
    let created = c.get_drops_created_by_account(&s("sponsor.near")).unwrap();
    assert_eq!(created.len(), 5);
    assert!(matches!(
        c.get_drops_created_by_account(&s("nobody.near")),
        Err(Error::AccountNotFound)
    ));
}

#[test]
fn claimed_drop_views() {
    let mut c = new_contract();
    let id = c
        .create_token_drop(&s("admin.near"), s("i"), s("n"), None, vec![0u8; 33], 10)
        .unwrap();
    c.claim_drop(&s("alice.near"), &id, None, true, 1).unwrap();
    let all = c.get_claimed_drops_for_account(&s("alice.near"));
    assert_eq!(all.len(), 1);
    // a terminal no-scavenger claim carries no piece list
    match &all[0] {
        drop_ledger::views::ExtClaimedDrop::Token(t) => {
            assert!(t.found_scavenger_ids.is_none());
            assert_eq!(t.token_amount, 10);
        }
        _ => panic!("expected a token claim"),
    }
    assert!(c.get_claimed_scavengers_for_account(&s("alice.near")).is_empty());
    assert!(c.get_claimed_nfts_for_account(&s("alice.near")).is_empty());
    assert!(matches!(
        c.get_claimed_drop_for_account(&s("alice.near"), &s("other||0")),
        Err(Error::ClaimNotFound)
    ));
    assert!(matches!(
        c.get_claimed_drop_for_account(&s("nobody.near"), &id),
        Err(Error::AccountNotFound)
    ));
}

#[test]
fn error_messages_are_descriptive() {
    assert_eq!(Error::AlreadyClaimed.message(), "drop already claimed");
    assert_eq!(
        Error::InvalidScavengerPiece.message(),
        "incorrect scavenger piece passed in"
    );
    assert_eq!(Error::ContractFrozen.message(), "the contract is frozen");
}

#[test]
fn royalty_math() {
    // 250 basis points of 1000 tokens pay 25
    assert_eq!(royalty_to_payout(250, 1000), 25);
    assert_eq!(royalty_to_payout(10000, 77), 77);
    assert_eq!(royalty_to_payout(0, 77), 0);
    // rounding is toward zero
    assert_eq!(royalty_to_payout(1, 9999), 0);
    assert_eq!(bytes_for_approved_account_id(&s("alice.near")), 10 + 12);
}

#[test]
fn every_operation_bumps_the_transaction_counter() {
    let mut c = new_contract();
    assert_eq!(c.get_leaderboard_information().total_transactions, 0);
    let id = c
        .create_token_drop(&s("admin.near"), s("i"), s("n"), None, vec![0u8; 33], 5)
        .unwrap();
    assert_eq!(c.get_leaderboard_information().total_transactions, 1);
    c.claim_drop(&s("alice.near"), &id, None, true, 1).unwrap();
    assert_eq!(c.get_leaderboard_information().total_transactions, 2);
    c.ft_mint(&s("admin.near"), &s("alice.near"), 7).unwrap();
    assert_eq!(c.get_leaderboard_information().total_transactions, 3);
    c.ft_transfer(&s("alice.near"), &s("bob.near"), 1, 2).unwrap();
    assert_eq!(c.get_leaderboard_information().total_transactions, 4);
    c.delete_drop(&s("admin.near"), &id).unwrap();
    assert_eq!(c.get_leaderboard_information().total_transactions, 5);
    // a failed operation bumps nothing
    assert!(c.ft_transfer(&s("alice.near"), &s("alice.near"), 1, 3).is_err());
    assert_eq!(c.get_leaderboard_information().total_transactions, 5);
}
