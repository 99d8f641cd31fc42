use drop_ledger::contract::Contract;
use drop_ledger::events::DropClaimReward;
use drop_ledger::events::EventLogVariant;
use drop_ledger::models::{DropData, ScavengerHuntData};
use drop_ledger::roles::AccountStatus;
use drop_ledger::Error;

fn s(x: &str) -> String {
    x.to_string()
}

fn new_contract() -> Contract {
    let mut c = Contract::new(None, None, None, vec![s("admin.near")], vec![0u8]);
    c.add_account_status(&s("admin.near"), s("sponsor.near"), AccountStatus::Sponsor)
        .unwrap();
    c
}

fn piece(b: u8) -> Vec<u8> {
    vec![0, b, b, b]
}

fn hunt(pieces: &[u8]) -> Vec<ScavengerHuntData> {
    pieces
        .iter()
        .enumerate()
        .map(|(i, b)| ScavengerHuntData {
            key: piece(*b),
            id: i as u16,
            description: format!("piece {}", i),
        })
        .collect()
}

fn create_token_drop(c: &mut Contract, creator: &str, scav: Option<Vec<ScavengerHuntData>>, amount: u128) -> String {
    c.create_token_drop(
        &s(creator),
        s("image.png"),
        s("a token drop"),
        scav,
        vec![0u8; 33],
        amount,
    )
    .unwrap()
}

#[test]
fn direct_claim_pays_once_and_only_once() {
    let mut c = new_contract();
    let id = create_token_drop(&mut c, "admin.near", None, 25);
    // first claim mints the reward to the claimant
    let snap = c.claim_drop(&s("alice.near"), &id, None, true, 1).unwrap();
    match snap {
        DropData::Token(t) => assert_eq!(t.num_claimed, 1),
        _ => panic!("expected a token drop"),
    }
    assert_eq!(c.ft_balance_of(&s("alice.near")), 25);
    assert_eq!(c.ft_total_supply(), 25);
    // the second claim fails and pays nothing
    assert!(matches!(
        c.claim_drop(&s("alice.near"), &id, None, true, 2),
        Err(Error::AlreadyClaimed)
    ));
    assert_eq!(c.ft_balance_of(&s("alice.near")), 25);
    assert_eq!(c.ft_total_supply(), 25);
    // a different account can still claim
    c.claim_drop(&s("bob.near"), &id, None, true, 3).unwrap();
    assert_eq!(c.ft_balance_of(&s("bob.near")), 25);
}

#[test]
fn admin_claim_creates_supply_sponsor_claim_transfers() {
    let mut c = new_contract();
    // an admin-created drop mints fresh supply
    let admin_drop = create_token_drop(&mut c, "admin.near", None, 40);
    let supply_before = c.ft_total_supply();
    c.claim_drop(&s("alice.near"), &admin_drop, None, true, 1).unwrap();
    assert_eq!(c.ft_total_supply(), supply_before + 40);
    // a sponsor-created drop moves the sponsor's own tokens
    c.ft_mint(&s("admin.near"), &s("sponsor.near"), 100).unwrap();
    let sponsor_drop = create_token_drop(&mut c, "sponsor.near", None, 40);
    let supply_before = c.ft_total_supply();
    c.claim_drop(&s("bob.near"), &sponsor_drop, None, true, 2).unwrap();
    assert_eq!(c.ft_total_supply(), supply_before);
    assert_eq!(c.ft_balance_of(&s("sponsor.near")), 60);
    assert_eq!(c.ft_balance_of(&s("bob.near")), 40);
}

#[test]
fn sponsor_funding_limit() {
    let mut c = new_contract();
    c.ft_mint(&s("admin.near"), &s("sponsor.near"), 50).unwrap();
    let id = create_token_drop(&mut c, "sponsor.near", None, 100);
    // 50 < 100: the claim fails and nothing moves
    assert!(matches!(
        c.claim_drop(&s("alice.near"), &id, None, true, 1),
        Err(Error::InsufficientCreatorFunds)
    ));
    assert_eq!(c.ft_balance_of(&s("alice.near")), 0);
    assert_eq!(c.ft_balance_of(&s("sponsor.near")), 50);
    // raising the balance to 100 allows the claim, which takes exactly 100
    c.ft_mint(&s("admin.near"), &s("sponsor.near"), 50).unwrap();
    c.claim_drop(&s("alice.near"), &id, None, true, 2).unwrap();
    assert_eq!(c.ft_balance_of(&s("alice.near")), 100);
    assert_eq!(c.ft_balance_of(&s("sponsor.near")), 0);
}

#[test]
fn scavenger_completeness_gating() {
    let mut c = new_contract();
    let id = create_token_drop(&mut c, "admin.near", Some(hunt(&[1, 2, 3])), 60);
    let alice = s("alice.near");
    // two pieces: no payout yet
    c.claim_drop(&alice, &id, Some(piece(1)), true, 1).unwrap();
    assert_eq!(c.ft_balance_of(&alice), 0);
    c.claim_drop(&alice, &id, Some(piece(2)), true, 2).unwrap();
    assert_eq!(c.ft_balance_of(&alice), 0);
    // progress shows the two recorded pieces
    let claimed = c.get_claimed_drop_for_account(&alice, &id).unwrap();
    match claimed {
        drop_ledger::views::ExtClaimedDrop::Token(t) => {
            let found = t.found_scavenger_ids.unwrap();
            assert_eq!(found, vec![piece(1), piece(2)]);
        }
        _ => panic!("expected a token claim"),
    }
    // the third piece completes the hunt and pays exactly once
    c.claim_drop(&alice, &id, Some(piece(3)), true, 3).unwrap();
    assert_eq!(c.ft_balance_of(&alice), 60);
    assert_eq!(c.ft_total_supply(), 60);
    // resubmitting any piece afterwards fails and pays nothing
    for b in [1u8, 2, 3] {
        assert!(matches!(
            c.claim_drop(&alice, &id, Some(piece(b)), true, 4),
            Err(Error::PieceAlreadyClaimed)
        ));
    }
    assert_eq!(c.ft_balance_of(&alice), 60);
    assert_eq!(c.ft_total_supply(), 60);
}

#[test]
fn invalid_piece_rejected_and_progress_unchanged() {
    let mut c = new_contract();
    let id = create_token_drop(&mut c, "admin.near", Some(hunt(&[1, 2])), 10);
    let alice = s("alice.near");
    c.claim_drop(&alice, &id, Some(piece(1)), true, 1).unwrap();
    // a piece outside the required set is rejected
    assert!(matches!(
        c.claim_drop(&alice, &id, Some(piece(9)), true, 2),
        Err(Error::InvalidScavengerPiece)
    ));
    // progress is untouched
    let claimed = c.get_claimed_drop_for_account(&alice, &id).unwrap();
    match claimed {
        drop_ledger::views::ExtClaimedDrop::Token(t) => {
            assert_eq!(t.found_scavenger_ids.unwrap(), vec![piece(1)]);
        }
        _ => panic!("expected a token claim"),
    }
    // a scavenger drop demands a piece
    assert!(matches!(
        c.claim_drop(&alice, &id, None, true, 3),
        Err(Error::ScavengerRequired)
    ));
}

#[test]
fn claim_validation_order() {
    let mut c = new_contract();
    let id = create_token_drop(&mut c, "admin.near", None, 5);
    // unknown drop
    assert!(matches!(
        c.claim_drop(&s("alice.near"), &s("nosuch||0"), None, true, 1),
        Err(Error::DropNotFound)
    ));
    // failed signature check
    assert!(matches!(
        c.claim_drop(&s("alice.near"), &id, None, false, 1),
        Err(Error::InvalidSignature)
    ));
    // frozen contract halts claims before anything else
    c.toggle_freeze(&s("admin.near"), true).unwrap();
    assert!(matches!(
        c.claim_drop(&s("alice.near"), &id, None, true, 1),
        Err(Error::ContractFrozen)
    ));
}

#[test]
fn nft_claim_reports_reward_without_ledger_movement() {
    let mut c = new_contract();
    let id = c
        .create_nft_drop(
            &s("sponsor.near"),
            s("img"),
            s("an nft drop"),
            vec![0u8; 33],
            None,
            drop_ledger::models::TokenMetadata {
                title: Some(s("badge")),
                description: None,
                media: None,
                media_hash: None,
                copies: Some(10),
                issued_at: None,
                expires_at: None,
                starts_at: None,
                updated_at: None,
                extra: None,
                reference: None,
                reference_hash: None,
            },
        )
        .unwrap();
    let before = c.ft_total_supply();
    c.claim_drop(&s("alice.near"), &id, None, true, 1).unwrap();
    assert_eq!(c.ft_total_supply(), before);
    assert_eq!(c.ft_balance_of(&s("alice.near")), 0);
    // the claim event names the NFT reward
    match &c.event_log.last().unwrap().event {
        EventLogVariant::KeypomDropClaim(l) => {
            assert_eq!(l.claimer_id, s("alice.near"));
            assert!(matches!(l.reward, Some(DropClaimReward::Nft)));
            assert_eq!(l.pieces_found, None);
        }
        _ => panic!("expected a claim event"),
    }
}

#[test]
fn scavenger_claim_event_counts_pieces() {
    let mut c = new_contract();
    let id = create_token_drop(&mut c, "admin.near", Some(hunt(&[1, 2])), 10);
    c.claim_drop(&s("alice.near"), &id, Some(piece(1)), true, 1).unwrap();
    match &c.event_log.last().unwrap().event {
        EventLogVariant::KeypomDropClaim(l) => {
            assert_eq!(l.pieces_found, Some(1));
            assert_eq!(l.pieces_required, Some(2));
            assert!(l.reward.is_none());
        }
        _ => panic!("expected a claim event"),
    }
    // the recent-transactions entry describes the partial find
    let info = c.get_leaderboard_information();
    match info.recent_transactions.last().unwrap() {
        drop_ledger::events::TransactionType::Claim { account_id, reward, timestamp } => {
            assert_eq!(account_id, &s("alice.near"));
            assert_eq!(reward, &s("Scavenger Piece"));
            assert_eq!(*timestamp, 1);
        }
        _ => panic!("expected a claim transaction"),
    }
}

#[test]
fn claim_counter_counts_validated_attempts() {
    let mut c = new_contract();
    let id = create_token_drop(&mut c, "admin.near", Some(hunt(&[1, 2])), 10);
    c.claim_drop(&s("alice.near"), &id, Some(piece(1)), true, 1).unwrap();
    let snap = c.claim_drop(&s("bob.near"), &id, Some(piece(1)), true, 2).unwrap();
    match snap {
        DropData::Token(t) => assert_eq!(t.num_claimed, 2),
        _ => panic!("expected a token drop"),
    }
}

#[test]
fn drop_data_accessors() {
    let mut c = new_contract();
    let id = create_token_drop(&mut c, "admin.near", Some(hunt(&[4, 5])), 9);
    let snap = c.claim_drop(&s("alice.near"), &id, Some(piece(4)), true, 1).unwrap();
    assert!(snap.is_token_drop());
    assert!(!snap.is_nft_drop());
    assert!(!snap.is_multichain_drop());
    assert_eq!(snap.get_name(), s("a token drop"));
    let keys = snap.get_scavenger_keys().unwrap();
    assert_eq!(keys, vec![piece(4), piece(5)]);
    let data = snap.get_scavenger_data().unwrap();
    assert_eq!(data.len(), 2);
    assert_eq!(data[0].key, piece(4));
    assert_eq!(data[1].id, 1);
    let copy = snap.duplicate();
    assert_eq!(copy.get_name(), s("a token drop"));
}
