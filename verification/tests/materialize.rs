use indexer::accounts::Account;
use indexer::accounts::Spin;
use indexer::errors::EntityKind;
use indexer::errors::StoreError;
use indexer::notifier::Notification;
use indexer::stakings::RewardClaimed;
use indexer::stakings::Staking;
use indexer::stakings::StakingRemoved;
use indexer::store::Store;
use indexer::storer::ContractEvent;
use indexer::storer::ContractUpgradeChange;
use indexer::storer::Storer;
use indexer::storer::TransactionContextData;
use indexer::tokens::PoolCompleted;
use indexer::tokens::Token;
use indexer::trades::Trade;
use indexer::upgrades::ModuleUpgrade;

fn token(pool: &str, main: &str, pre: &str, version: i64) -> Token {
    Token {
        pool_addr: String::from(pool),
        name: String::from("n"),
        symbol: String::from("s"),
        image: String::from("i"),
        description: String::from("d"),
        website: None,
        twitter: None,
        telegram: None,
        decimals: 8,
        pre_addr: String::from(pre),
        main_addr: String::from(main),
        virtual_aptos_reserves: 1,
        virtual_token_reserves: 1,
        remain_token_reserves: 1,
        created_by: String::from("0xc"),
        is_completed: false,
        ts: 1,
        txn_version: version,
    }
}

fn trade(version: i64) -> Trade {
    Trade {
        txn_version: version,
        is_buy: true,
        user_addr: String::from("0xu"),
        aptos_amount: 1,
        token_amount: 1,
        token_address: String::from("0xt"),
        virtual_aptos_reserves: 1,
        virtual_token_reserves: 1,
        ts: 1,
    }
}

fn staking(pos: &str) -> Staking {
    Staking {
        position_addr: String::from(pos),
        stake_addr: String::from("0xs"),
        user: String::from("0xu"),
        amount: 1,
        unlock_ts: 1,
        txn_version: 1,
        is_removed: false,
        claimed: 0,
    }
}

fn account(addr: &str, xp: i32) -> Account {
    Account { address: String::from(addr), xp, xp_earned: xp }
}

fn spin(claimer: &str, amount: i64, win_type: i32) -> Spin {
    Spin { claimer: String::from(claimer), amount, win_type }
}

fn create_batch() -> TransactionContextData {
    TransactionContextData {
        events: vec![
            ContractEvent::TokenCreatedEvent(token("0xa", "0xma", "0xpa", 1)),
            ContractEvent::TokenCreatedEvent(token("0xb", "0xmb", "0xpb", 2)),
            ContractEvent::TradeCreatedEvent(trade(5)),
            ContractEvent::PositionCreated(staking("0xp1")),
        ],
        changes: vec![ContractUpgradeChange::ModuleUpgradeChange(ModuleUpgrade {
            module_addr: String::from("0x1"),
            module_name: String::from("m"),
            upgrade_number: 1,
            txn_version: 1,
        })],
    }
}

#[test]
fn insert_if_absent_batch_is_idempotent() {
    let mut storer = Storer::new(Store::new());
    let (_, r1) = storer.process(create_batch());
    assert!(r1.is_ok());
    let tokens_once = storer.store.tokens.clone();
    let trades_once = storer.store.trades.clone();
    let stakings_once = storer.store.stakings.clone();
    let modules_once = storer.store.module_upgrades.clone();
    // replaying the same window must not create duplicates or alter rows
    let (_, r2) = storer.process(create_batch());
    assert!(r2.is_ok());
    assert_eq!(storer.store.tokens, tokens_once);
    assert_eq!(storer.store.trades, trades_once);
    assert_eq!(storer.store.stakings, stakings_once);
    assert_eq!(storer.store.module_upgrades, modules_once);
    assert_eq!(storer.store.tokens.len(), 2);
    assert_eq!(storer.store.trades.len(), 1);
    assert_eq!(storer.store.stakings.len(), 1);
    assert_eq!(storer.store.module_upgrades.len(), 1);
}

#[test]
fn duplicate_keys_within_one_batch_insert_once() {
    let mut storer = Storer::new(Store::new());
    let batch = TransactionContextData {
        events: vec![
            ContractEvent::TokenCreatedEvent(token("0xa", "0xma", "0xpa", 1)),
            ContractEvent::TokenCreatedEvent(token("0xa", "0xother", "0xother", 9)),
        ],
        changes: vec![],
    };
    let (notifications, r) = storer.process(batch);
    assert!(r.is_ok());
    assert_eq!(storer.store.tokens.len(), 1);
    // the first row under the key wins and is left untouched
    assert_eq!(storer.store.tokens[0].txn_version, 1);
    // one notification is still attempted per input event
    assert_eq!(notifications.len(), 2);
}

#[test]
fn reward_claims_accumulate_within_one_chunk() {
    let mut storer = Storer::new(Store::new());
    let batch = TransactionContextData {
        events: vec![
            ContractEvent::PositionCreated(staking("0xp1")),
            ContractEvent::PositionRewardClaimed(RewardClaimed {
                position_addr: String::from("0xp1"),
                amount: 40,
            }),
            ContractEvent::PositionRewardClaimed(RewardClaimed {
                position_addr: String::from("0xp1"),
                amount: 2,
            }),
        ],
        changes: vec![],
    };
    let (_, r) = storer.process(batch);
    assert!(r.is_ok());
    assert_eq!(storer.store.stakings.len(), 1);
    assert_eq!(storer.store.stakings[0].claimed, 42);
}

#[test]
fn oversized_spin_amount_applies_zero_delta() {
    let mut store = Store::new();
    store.accounts.push(account("0xwinner", 100));
    let mut storer = Storer::new(store);
    let batch = TransactionContextData {
        events: vec![ContractEvent::SpinEvent(spin("0xwinner", i64::MAX, 0))],
        changes: vec![],
    };
    let (notifications, r) = storer.process(batch);
    // the batch succeeds; the out-of-range amount counts as a zero-value spin
    assert!(r.is_ok());
    assert_eq!(storer.store.accounts[0].xp, 100);
    assert_eq!(storer.store.accounts[0].xp_earned, 100);
    assert_eq!(notifications.len(), 1);
}

#[test]
fn in_range_spin_amount_accumulates_xp() {
    let mut store = Store::new();
    store.accounts.push(account("0xwinner", 100));
    let mut storer = Storer::new(store);
    let batch = TransactionContextData {
        events: vec![
            ContractEvent::SpinEvent(spin("0xwinner", 7, 0)),
            ContractEvent::SpinEvent(spin("0xwinner", 5, 0)),
        ],
        changes: vec![],
    };
    let (_, r) = storer.process(batch);
    assert!(r.is_ok());
    assert_eq!(storer.store.accounts[0].xp, 112);
    assert_eq!(storer.store.accounts[0].xp_earned, 112);
}

#[test]
fn non_xp_spin_outcome_mutates_no_account() {
    let mut store = Store::new();
    store.accounts.push(account("0xwinner", 100));
    let mut storer = Storer::new(store);
    let batch = TransactionContextData {
        events: vec![ContractEvent::SpinEvent(spin("0xwinner", 999, 2))],
        changes: vec![],
    };
    let (notifications, r) = storer.process(batch);
    assert!(r.is_ok());
    assert_eq!(storer.store.accounts[0].xp, 100);
    assert_eq!(storer.store.accounts[0].xp_earned, 100);
    // the notification is still attempted for every spin outcome
    assert_eq!(notifications.len(), 1);
    assert!(matches!(&notifications[0], Notification::SpinWin { spin } if spin.win_type == 2));
}

#[test]
fn spin_on_absent_account_is_a_no_op() {
    let mut storer = Storer::new(Store::new());
    let batch = TransactionContextData {
        events: vec![ContractEvent::SpinEvent(spin("0xnobody", 5, 0))],
        changes: vec![],
    };
    let (_, r) = storer.process(batch);
    assert!(r.is_ok());
    assert!(storer.store.accounts.is_empty());
}

#[test]
fn failing_claim_chunk_aborts_later_kinds() {
    let mut store = Store::new();
    store.accounts.push(account("0xwinner", 100));
    let mut storer = Storer::new(store);
    let batch = TransactionContextData {
        events: vec![
            ContractEvent::TokenCreatedEvent(token("0xa", "0xma", "0xpa", 1)),
            ContractEvent::PositionCreated(staking("0xp1")),
            // the second claim overflows the 64-bit counter: the chunk fails
            ContractEvent::PositionRewardClaimed(RewardClaimed {
                position_addr: String::from("0xp1"),
                amount: i64::MAX,
            }),
            ContractEvent::PositionRewardClaimed(RewardClaimed {
                position_addr: String::from("0xp1"),
                amount: i64::MAX,
            }),
            ContractEvent::PositionRemoved(StakingRemoved {
                position_addr: String::from("0xp1"),
            }),
            ContractEvent::SpinEvent(spin("0xwinner", 5, 0)),
        ],
        changes: vec![ContractUpgradeChange::ModuleUpgradeChange(ModuleUpgrade {
            module_addr: String::from("0x1"),
            module_name: String::from("m"),
            upgrade_number: 1,
            txn_version: 1,
        })],
    };
    let (notifications, r) = storer.process(batch);
    let e = r.unwrap_err();
    assert_eq!(e.kind, EntityKind::RewardClaims);
    assert_eq!(e.cause, StoreError::CounterOverflow);
    // kinds before the failure committed
    assert_eq!(storer.store.tokens.len(), 1);
    assert_eq!(storer.store.stakings.len(), 1);
    // the failed chunk rolled back: no partial accumulation
    assert_eq!(storer.store.stakings[0].claimed, 0);
    // kinds after the failure were not attempted
    assert!(!storer.store.stakings[0].is_removed);
    assert_eq!(storer.store.accounts[0].xp, 100);
    assert!(storer.store.module_upgrades.is_empty());
    // notifications of the committed kinds were still produced
    assert_eq!(notifications.len(), 1);
    assert!(matches!(&notifications[0], Notification::TokenCreated { .. }));
}

#[test]
fn overflowing_spins_fail_the_spin_kind() {
    let mut store = Store::new();
    store.accounts.push(account("0xwinner", i32::MAX));
    let mut storer = Storer::new(store);
    let batch = TransactionContextData {
        events: vec![ContractEvent::SpinEvent(spin("0xwinner", 1, 0))],
        changes: vec![ContractUpgradeChange::ModuleUpgradeChange(ModuleUpgrade {
            module_addr: String::from("0x1"),
            module_name: String::from("m"),
            upgrade_number: 1,
            txn_version: 1,
        })],
    };
    let (notifications, r) = storer.process(batch);
    let e = r.unwrap_err();
    assert_eq!(e.kind, EntityKind::Spins);
    assert_eq!(e.cause, StoreError::CounterOverflow);
    // the chunk rolled back and notified nothing
    assert_eq!(storer.store.accounts[0].xp, i32::MAX);
    assert!(notifications.is_empty());
    // the upgrade kinds after the failure were not attempted
    assert!(storer.store.module_upgrades.is_empty());
}

#[test]
fn end_to_end_two_tokens_and_one_completion() {
    let mut storer = Storer::new(Store::new());
    let batch = TransactionContextData {
        events: vec![
            ContractEvent::TokenCreatedEvent(token("0xa", "0xma", "0xpa", 1)),
            ContractEvent::TokenCreatedEvent(token("0xb", "0xmb", "0xpb", 2)),
            ContractEvent::PoolCompletedEvent(PoolCompleted {
                main_addr: String::from("0xma"),
            }),
        ],
        changes: vec![],
    };
    let (notifications, r) = storer.process(batch);
    assert!(r.is_ok());
    assert_eq!(storer.store.tokens.len(), 2);
    let row_a = &storer.store.tokens[0];
    let row_b = &storer.store.tokens[1];
    assert_eq!(row_a.pool_addr, "0xa");
    assert!(row_a.is_completed);
    assert_eq!(row_b.pool_addr, "0xb");
    assert!(!row_b.is_completed);
    // exactly two token-created notifications were attempted, for a and b
    assert_eq!(
        notifications,
        vec![
            Notification::TokenCreated { addr: String::from("0xpa") },
            Notification::TokenCreated { addr: String::from("0xpb") },
        ]
    );
}

#[test]
fn empty_batch_succeeds_with_no_effect() {
    let mut storer = Storer::new(Store::new());
    let (notifications, r) = storer.process(TransactionContextData {
        events: vec![],
        changes: vec![],
    });
    assert!(r.is_ok());
    assert!(notifications.is_empty());
    assert!(storer.store.tokens.is_empty());
    assert!(storer.store.trades.is_empty());
    assert!(storer.store.stakings.is_empty());
    assert!(storer.store.accounts.is_empty());
}

#[test]
fn trade_notifications_carry_txn_versions_in_order() {
    let mut storer = Storer::new(Store::new());
    let batch = TransactionContextData {
        events: vec![
            ContractEvent::TradeCreatedEvent(trade(5)),
            ContractEvent::TradeCreatedEvent(trade(6)),
        ],
        changes: vec![],
    };
    let (notifications, r) = storer.process(batch);
    assert!(r.is_ok());
    assert_eq!(
        notifications,
        vec![
            Notification::TokenTraded { txn_version: 5 },
            Notification::TokenTraded { txn_version: 6 },
        ]
    );
}

#[test]
fn storer_reports_its_name() {
    let storer = Storer::new(Store::new());
    assert_eq!(storer.name(), "Storer");
}
