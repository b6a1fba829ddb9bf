use indexer::accounts::Spin;
use indexer::stakings::RewardClaimed;
use indexer::stakings::Staking;
use indexer::stakings::StakingRemoved;
use indexer::storer::route_changes;
use indexer::storer::route_events;
use indexer::storer::ContractEvent;
use indexer::storer::ContractUpgradeChange;
use indexer::tokens::PoolCompleted;
use indexer::tokens::Token;
use indexer::trades::Trade;
use indexer::upgrades::ModuleUpgrade;
use indexer::upgrades::PackageUpgrade;

fn token(pool: &str, version: i64) -> Token {
    Token {
        pool_addr: String::from(pool),
        name: String::from("n"),
        symbol: String::from("s"),
        image: String::from("i"),
        description: String::from("d"),
        website: None,
        twitter: None,
        telegram: None,
        decimals: 8,
        pre_addr: String::from(pool),
        main_addr: String::from(pool),
        virtual_aptos_reserves: 1,
        virtual_token_reserves: 1,
        remain_token_reserves: 1,
        created_by: String::from("0xc"),
        is_completed: false,
        ts: 1,
        txn_version: version,
    }
}

fn trade(version: i64) -> Trade {
    Trade {
        txn_version: version,
        is_buy: true,
        user_addr: String::from("0xu"),
        aptos_amount: 1,
        token_amount: 1,
        token_address: String::from("0xt"),
        virtual_aptos_reserves: 1,
        virtual_token_reserves: 1,
        ts: 1,
    }
}

fn staking(pos: &str) -> Staking {
    Staking {
        position_addr: String::from(pos),
        stake_addr: String::from("0xs"),
        user: String::from("0xu"),
        amount: 1,
        unlock_ts: 1,
        txn_version: 1,
        is_removed: false,
        claimed: 0,
    }
}

#[test]
fn router_preserves_within_kind_order() {
    let events = vec![
        ContractEvent::TradeCreatedEvent(trade(5)),
        ContractEvent::TokenCreatedEvent(token("0xa", 1)),
        ContractEvent::SpinEvent(Spin {
            claimer: String::from("0x1"),
            amount: 10,
            win_type: 0,
        }),
        ContractEvent::TokenCreatedEvent(token("0xb", 2)),
        ContractEvent::PositionRewardClaimed(RewardClaimed {
            position_addr: String::from("0xp"),
            amount: 3,
        }),
        ContractEvent::TradeCreatedEvent(trade(6)),
        ContractEvent::PoolCompletedEvent(PoolCompleted { main_addr: String::from("0xa") }),
        ContractEvent::PositionCreated(staking("0xp")),
        ContractEvent::PositionRemoved(StakingRemoved { position_addr: String::from("0xp") }),
    ];
    let routed = route_events(&events);
    assert_eq!(routed.token_created_events.len(), 2);
    assert_eq!(routed.token_created_events[0].pool_addr, "0xa");
    assert_eq!(routed.token_created_events[1].pool_addr, "0xb");
    assert_eq!(routed.trade_created_events.len(), 2);
    assert_eq!(routed.trade_created_events[0].txn_version, 5);
    assert_eq!(routed.trade_created_events[1].txn_version, 6);
    assert_eq!(routed.pool_completed_events.len(), 1);
    assert_eq!(routed.position_created_events.len(), 1);
    assert_eq!(routed.position_claimed_events.len(), 1);
    assert_eq!(routed.position_removed_events.len(), 1);
    assert_eq!(routed.spin_events.len(), 1);
    // nothing dropped, nothing duplicated
    let total = routed.token_created_events.len() + routed.trade_created_events.len()
        + routed.pool_completed_events.len() + routed.position_created_events.len()
        + routed.position_claimed_events.len() + routed.position_removed_events.len()
        + routed.spin_events.len();
    assert_eq!(total, events.len());
}

#[test]
fn router_routes_changes_in_order() {
    let changes = vec![
        ContractUpgradeChange::PackageUpgradeChange(PackageUpgrade {
            package_addr: String::from("0x1"),
            package_name: String::from("p1"),
            upgrade_number: 1,
            txn_version: 1,
        }),
        ContractUpgradeChange::ModuleUpgradeChange(ModuleUpgrade {
            module_addr: String::from("0x1"),
            module_name: String::from("m1"),
            upgrade_number: 1,
            txn_version: 1,
        }),
        ContractUpgradeChange::ModuleUpgradeChange(ModuleUpgrade {
            module_addr: String::from("0x2"),
            module_name: String::from("m2"),
            upgrade_number: 2,
            txn_version: 2,
        }),
    ];
    let (modules, packages) = route_changes(&changes);
    assert_eq!(modules.len(), 2);
    assert_eq!(modules[0].module_name, "m1");
    assert_eq!(modules[1].module_name, "m2");
    assert_eq!(packages.len(), 1);
    assert_eq!(packages[0].package_name, "p1");
}

#[test]
fn router_of_empty_batch_is_empty() {
    let routed = route_events(&vec![]);
    assert!(routed.token_created_events.is_empty());
    assert!(routed.pool_completed_events.is_empty());
    assert!(routed.trade_created_events.is_empty());
    assert!(routed.position_created_events.is_empty());
    assert!(routed.position_claimed_events.is_empty());
    assert!(routed.position_removed_events.is_empty());
    assert!(routed.spin_events.is_empty());
}
