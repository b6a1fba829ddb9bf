//! The chunked applier called kind by kind, with explicit chunk-size
//! overrides, exercising the chunk partition and the at-least-partial-apply
//! policy on a failing chunk.

use indexer::accounts::Account;
use indexer::accounts::Spin;
use indexer::chunking::TableChunkSizes;
use indexer::errors::EntityKind;
use indexer::notifier::Notification;
use indexer::spin_events_storer::process_spin_events;
use indexer::stakings::RewardClaimed;
use indexer::stakings::Staking;
use indexer::staking_events_storer::process_position_created_events;
use indexer::staking_events_storer::process_reward_claimed_events;
use indexer::store::Store;
use indexer::token_events_storer::process_token_created_events;
use indexer::tokens::Token;

fn token(pool: &str, version: i64) -> Token {
    Token {
        pool_addr: String::from(pool),
        name: String::from("n"),
        symbol: String::from("s"),
        image: String::from("i"),
        description: String::from("d"),
        website: None,
        twitter: None,
        telegram: None,
        decimals: 8,
        pre_addr: String::from(pool),
        main_addr: String::from(pool),
        virtual_aptos_reserves: 1,
        virtual_token_reserves: 1,
        remain_token_reserves: 1,
        created_by: String::from("0xc"),
        is_completed: false,
        ts: 1,
        txn_version: version,
    }
}

fn staking(pos: &str) -> Staking {
    Staking {
        position_addr: String::from(pos),
        stake_addr: String::from("0xs"),
        user: String::from("0xu"),
        amount: 1,
        unlock_ts: 1,
        txn_version: 1,
        is_removed: false,
        claimed: 0,
    }
}

fn claim(pos: &str, amount: i64) -> RewardClaimed {
    RewardClaimed { position_addr: String::from(pos), amount }
}

#[test]
fn single_record_chunks_insert_the_same_rows() {
    // chunk size one: every record is its own transaction, and the table
    // ends as if one statement had carried the whole list
    let mut sizes = TableChunkSizes::new();
    sizes.set_override(String::from("tokens"), 1);
    let mut store = Store::new();
    let items = vec![token("0xa", 1), token("0xb", 2), token("0xa", 3), token("0xc", 4)];
    let notifications =
        process_token_created_events(&mut store, &sizes, items).expect("creates cannot fail");
    assert_eq!(store.tokens.len(), 3);
    assert_eq!(store.tokens[0].pool_addr, "0xa");
    assert_eq!(store.tokens[1].pool_addr, "0xb");
    assert_eq!(store.tokens[2].pool_addr, "0xc");
    assert_eq!(notifications.len(), 4);
}

#[test]
fn claims_in_different_chunks_still_accumulate() {
    let mut sizes = TableChunkSizes::new();
    sizes.set_override(String::from("stakings"), 1);
    let mut store = Store::new();
    process_position_created_events(&mut store, &sizes, vec![staking("0xp")])
        .expect("creates cannot fail");
    let r = process_reward_claimed_events(
        &mut store,
        &sizes,
        vec![claim("0xp", 40), claim("0xp", 2)],
    );
    assert!(r.is_ok());
    assert_eq!(store.stakings[0].claimed, 42);
}

#[test]
fn committed_chunks_remain_when_a_later_chunk_fails() {
    // chunk size one: the first claim commits on its own, the second
    // overflows and rolls back alone; the call still reports failure
    let mut sizes = TableChunkSizes::new();
    sizes.set_override(String::from("stakings"), 1);
    let mut store = Store::new();
    process_position_created_events(&mut store, &sizes, vec![staking("0xp")])
        .expect("creates cannot fail");
    let r = process_reward_claimed_events(
        &mut store,
        &sizes,
        vec![claim("0xp", i64::MAX), claim("0xp", 1)],
    );
    let e = r.unwrap_err();
    assert_eq!(e.kind, EntityKind::RewardClaims);
    // the at-least-partial-apply policy: the committed chunk stays committed
    assert_eq!(store.stakings[0].claimed, i64::MAX);
}

#[test]
fn only_committed_spin_chunks_notify() {
    // chunk size one: the first spin commits and notifies, the second
    // overflows its counter, rolls back and notifies nothing
    let mut sizes = TableChunkSizes::new();
    sizes.set_override(String::from("accounts"), 1);
    let mut store = Store::new();
    store.accounts.push(Account { address: String::from("0xw"), xp: 0, xp_earned: 0 });
    let spins = vec![
        Spin { claimer: String::from("0xw"), amount: 5, win_type: 0 },
        Spin { claimer: String::from("0xw"), amount: i32::MAX as i64, win_type: 0 },
    ];
    let (notifications, r) = process_spin_events(&mut store, &sizes, spins);
    assert!(r.is_err());
    assert_eq!(store.accounts[0].xp, 5);
    assert_eq!(notifications.len(), 1);
    assert!(matches!(&notifications[0], Notification::SpinWin { spin } if spin.amount == 5));
}

#[test]
fn one_failing_chunk_rolls_back_only_itself() {
    // both claims in one chunk: the whole transaction rolls back together
    let mut sizes = TableChunkSizes::new();
    sizes.set_override(String::from("stakings"), 2);
    let mut store = Store::new();
    process_position_created_events(&mut store, &sizes, vec![staking("0xp")])
        .expect("creates cannot fail");
    let r = process_reward_claimed_events(
        &mut store,
        &sizes,
        vec![claim("0xp", i64::MAX), claim("0xp", 1)],
    );
    assert!(r.is_err());
    assert_eq!(store.stakings[0].claimed, 0);
}
