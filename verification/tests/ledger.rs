use drop_ledger::contract::Contract;
use drop_ledger::events::EventLogVariant;
use drop_ledger::roles::AccountStatus;
use drop_ledger::Error;

fn s(x: &str) -> String {
    x.to_string()
}

fn new_contract() -> Contract {
    Contract::new(None, None, None, vec![s("admin.near")], vec![0u8])
}

/// The sum of every balance the scenario touched.
fn observed_sum(c: &Contract, accounts: &[&str]) -> u128 {
    accounts.iter().map(|a| c.ft_balance_of(&s(a))).sum()
}

#[test]
fn conservation_over_mints_and_transfers() {
    let mut c = new_contract();
    let admin = s("admin.near");
    let accounts = ["admin.near", "alice.near", "bob.near", "carol.near"];
    assert_eq!(c.ft_total_supply(), 0);
    assert_eq!(observed_sum(&c, &accounts), 0);

    c.ft_mint(&admin, &s("alice.near"), 1_000).unwrap();
    assert_eq!(c.ft_total_supply(), observed_sum(&c, &accounts));

    c.ft_mint(&admin, &s("bob.near"), 250).unwrap();
    assert_eq!(c.ft_total_supply(), observed_sum(&c, &accounts));

    c.ft_transfer(&s("alice.near"), &s("bob.near"), 400, 1).unwrap();
    assert_eq!(c.ft_total_supply(), observed_sum(&c, &accounts));
    assert_eq!(c.ft_balance_of(&s("alice.near")), 600);
    assert_eq!(c.ft_balance_of(&s("bob.near")), 650);

    c.ft_transfer(&s("bob.near"), &s("carol.near"), 650, 2).unwrap();
    assert_eq!(c.ft_total_supply(), observed_sum(&c, &accounts));
    assert_eq!(c.ft_total_supply(), 1_250);
}

#[test]
fn self_transfer_always_fails() {
    let mut c = new_contract();
    let admin = s("admin.near");
    c.ft_mint(&admin, &s("alice.near"), 100).unwrap();
    // with balance
    assert_eq!(
        c.ft_transfer(&s("alice.near"), &s("alice.near"), 10, 0),
        Err(Error::SelfTransfer)
    );
    // without balance
    assert_eq!(
        c.ft_transfer(&s("bob.near"), &s("bob.near"), 10, 0),
        Err(Error::SelfTransfer)
    );
    // nothing moved
    assert_eq!(c.ft_balance_of(&s("alice.near")), 100);
}

#[test]
fn transfer_rejects_zero_and_insufficient() {
    let mut c = new_contract();
    let admin = s("admin.near");
    c.ft_mint(&admin, &s("alice.near"), 50).unwrap();
    assert_eq!(
        c.ft_transfer(&s("alice.near"), &s("bob.near"), 0, 0),
        Err(Error::ZeroAmount)
    );
    assert_eq!(
        c.ft_transfer(&s("alice.near"), &s("bob.near"), 51, 0),
        Err(Error::InsufficientBalance)
    );
    // an unknown sender has balance zero
    assert_eq!(
        c.ft_transfer(&s("nobody.near"), &s("bob.near"), 1, 0),
        Err(Error::InsufficientBalance)
    );
    assert_eq!(c.ft_balance_of(&s("alice.near")), 50);
    assert_eq!(c.ft_balance_of(&s("bob.near")), 0);
}

#[test]
fn mint_requires_admin() {
    let mut c = new_contract();
    assert_eq!(
        c.ft_mint(&s("alice.near"), &s("alice.near"), 10),
        Err(Error::Unauthorized)
    );
    assert_eq!(c.ft_total_supply(), 0);
}

#[test]
fn mint_overflow_rejected_and_mutates_nothing() {
    let mut c = new_contract();
    let admin = s("admin.near");
    c.ft_mint(&admin, &s("alice.near"), u128::MAX).unwrap();
    assert_eq!(c.ft_total_supply(), u128::MAX);
    let log_len = c.event_log.len();
    // one more token would overflow both the balance and the supply
    assert_eq!(
        c.ft_mint(&admin, &s("alice.near"), 1),
        Err(Error::BalanceOverflow)
    );
    assert_eq!(
        c.ft_mint(&admin, &s("bob.near"), 1),
        Err(Error::BalanceOverflow)
    );
    assert_eq!(c.ft_balance_of(&s("alice.near")), u128::MAX);
    assert_eq!(c.ft_balance_of(&s("bob.near")), 0);
    assert_eq!(c.ft_total_supply(), u128::MAX);
    assert_eq!(c.event_log.len(), log_len);
}

#[test]
fn frozen_contract_halts_ledger_mutation() {
    let mut c = new_contract();
    let admin = s("admin.near");
    c.ft_mint(&admin, &s("alice.near"), 100).unwrap();
    c.toggle_freeze(&admin, true).unwrap();
    assert!(c.is_contract_frozen());
    assert_eq!(
        c.ft_transfer(&s("alice.near"), &s("bob.near"), 10, 0),
        Err(Error::ContractFrozen)
    );
    assert_eq!(
        c.ft_mint(&admin, &s("alice.near"), 10),
        Err(Error::ContractFrozen)
    );
    // read-only queries still succeed
    assert_eq!(c.ft_balance_of(&s("alice.near")), 100);
    assert_eq!(c.ft_total_supply(), 100);
    // and thawing restores operation
    c.toggle_freeze(&admin, false).unwrap();
    assert!(c.ft_transfer(&s("alice.near"), &s("bob.near"), 10, 0).is_ok());
}

#[test]
fn mint_and_transfer_emit_events() {
    let mut c = new_contract();
    let admin = s("admin.near");
    c.ft_mint(&admin, &s("alice.near"), 100).unwrap();
    assert_eq!(c.event_log.len(), 2);
    assert_eq!(c.event_log[0].standard, s("nep141"));
    assert_eq!(c.event_log[0].version, s("1.0.0"));
    assert_eq!(c.event_log[1].standard, s("kpom101"));
    match &c.event_log[0].event {
        EventLogVariant::FtMint(l) => {
            assert_eq!(l.owner_id, s("alice.near"));
            assert_eq!(l.amount, 100);
        }
        _ => panic!("expected a mint event"),
    }
    match &c.event_log[1].event {
        EventLogVariant::KeypomTokenMint(l) => {
            assert_eq!(l.receiver_id, s("alice.near"));
            assert_eq!(l.new_balance, 100);
            assert_eq!(l.drop_id, None);
        }
        _ => panic!("expected a domain mint event"),
    }
    c.ft_transfer(&s("alice.near"), &s("bob.near"), 30, 7).unwrap();
    assert_eq!(c.event_log.len(), 4);
    match &c.event_log[2].event {
        EventLogVariant::FtTransfer(l) => {
            assert_eq!(l.old_owner_id, s("alice.near"));
            assert_eq!(l.new_owner_id, s("bob.near"));
            assert_eq!(l.amount, 30);
        }
        _ => panic!("expected a transfer event"),
    }
    match &c.event_log[3].event {
        EventLogVariant::KeypomTokenTransfer(l) => {
            assert_eq!(l.new_sender_balance, 70);
            assert_eq!(l.new_receiver_balance, 30);
        }
        _ => panic!("expected a domain transfer event"),
    }
}

#[test]
fn roles_truth_table() {
    assert!(AccountStatus::Admin.is_admin());
    assert!(AccountStatus::Admin.is_sponsor());
    assert!(AccountStatus::Admin.is_data_sponsor());
    assert!(!AccountStatus::Sponsor.is_admin());
    assert!(AccountStatus::Sponsor.is_sponsor());
    assert!(!AccountStatus::Sponsor.is_data_sponsor());
    assert!(!AccountStatus::DataSetter.is_admin());
    assert!(!AccountStatus::DataSetter.is_sponsor());
    assert!(AccountStatus::DataSetter.is_data_sponsor());
    assert!(!AccountStatus::Basic.is_admin());
    assert!(!AccountStatus::Basic.is_sponsor());
    assert!(!AccountStatus::Basic.is_data_sponsor());
}

#[test]
fn account_status_management() {
    let mut c = new_contract();
    let admin = s("admin.near");
    // only admins may grant
    assert_eq!(
        c.add_account_status(&s("alice.near"), s("bob.near"), AccountStatus::Sponsor),
        Err(Error::Unauthorized)
    );
    c.add_account_status(&admin, s("bob.near"), AccountStatus::Sponsor)
        .unwrap();
    let details = c.recover_account(&s("bob.near")).unwrap();
    assert_eq!(details.account_status, Some(AccountStatus::Sponsor));
    c.remove_account_status(&admin, vec![s("bob.near")]).unwrap();
    let details = c.recover_account(&s("bob.near")).unwrap();
    assert_eq!(details.account_status, None);
    // only admins may freeze
    assert_eq!(c.toggle_freeze(&s("bob.near"), true), Err(Error::Unauthorized));
}

#[test]
fn transaction_counters_and_recent_list() {
    let mut c = new_contract();
    let admin = s("admin.near");
    c.ft_mint(&admin, &s("alice.near"), 1000).unwrap();
    for i in 0..12u64 {
        c.ft_transfer(&s("alice.near"), &s("bob.near"), 1, i).unwrap();
    }
    let info = c.get_leaderboard_information();
    // the recent list is capped at ten entries, oldest evicted first
    assert_eq!(info.recent_transactions.len(), 10);
    match &info.recent_transactions[0] {
        drop_ledger::events::TransactionType::Transfer { timestamp, .. } => {
            assert_eq!(*timestamp, 2)
        }
        _ => panic!("expected a transfer transaction"),
    }
    match info.recent_transactions.last().unwrap() {
        drop_ledger::events::TransactionType::Transfer { timestamp, .. } => {
            assert_eq!(*timestamp, 11)
        }
        _ => panic!("expected a transfer transaction"),
    }
    assert_eq!(info.total_transactions, 13);
    assert_eq!(info.total_tokens_transferred, 1012);
    assert!(info.token_leaderboard.is_empty());
}
