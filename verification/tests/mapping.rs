use indexer::accounts::SpinEventOnChain;
use indexer::errors::MappingError;
use indexer::notifier::NotifierConfig;
use indexer::notifier::SpinWinRequest;
use indexer::stakings::PositionCreatedOnChain;
use indexer::stakings::RewardClaimedOnChain;
use indexer::stakings::StakingRemovedOnChain;
use indexer::tokens::PoolCompletedOnChain;
use indexer::tokens::TokenCreatedOnChain;
use indexer::trades::TradeCreatedOnChain;

fn token_event() -> TokenCreatedOnChain {
    TokenCreatedOnChain {
        name: String::from("Meow"),
        symbol: String::from("MEOW"),
        image: String::from("https://img.example/meow.png"),
        description: String::from("a token"),
        website: Some(String::from("https://example.org")),
        twitter: None,
        telegram: None,
        decimals: 8,
        pre_addr: String::from("0x11"),
        pool_addr: String::from("0x22"),
        main_addr: String::from("0x33"),
        virtual_aptos_reserves: String::from("1000"),
        virtual_token_reserves: String::from("2000"),
        remain_token_reserves: String::from("3000"),
        created_by: String::from("0x44"),
        is_completed: false,
        ts: String::from("1700000000"),
    }
}

#[test]
fn token_mapping_parses_and_normalizes() {
    let t = token_event().to_db_token(99).unwrap();
    assert_eq!(t.pool_addr.len(), 66);
    assert!(t.pool_addr.ends_with("22"));
    assert!(t.main_addr.ends_with("33"));
    assert!(t.pre_addr.ends_with("11"));
    assert!(t.created_by.ends_with("44"));
    assert_eq!(t.name, "Meow");
    assert_eq!(t.website.as_deref(), Some("https://example.org"));
    assert_eq!(t.twitter, None);
    assert_eq!(t.decimals, 8);
    assert_eq!(t.virtual_aptos_reserves, 1000);
    assert_eq!(t.virtual_token_reserves, 2000);
    assert_eq!(t.remain_token_reserves, 3000);
    assert_eq!(t.ts, 1_700_000_000);
    assert_eq!(t.txn_version, 99);
    assert!(!t.is_completed);
}

#[test]
fn token_mapping_rejects_bad_reserve_as_decimal_error() {
    let mut e = token_event();
    e.virtual_token_reserves = String::from("12.5");
    assert_eq!(e.to_db_token(1), Err(MappingError::InvalidDecimal));
}

#[test]
fn token_mapping_rejects_bad_timestamp_as_timestamp_error() {
    let mut e = token_event();
    e.ts = String::from("yesterday");
    assert_eq!(e.to_db_token(1), Err(MappingError::InvalidTimestamp));
}

#[test]
fn trade_mapping_parses_and_normalizes() {
    let e = TradeCreatedOnChain {
        is_buy: true,
        user: String::from("0xab"),
        aptos_amount: String::from("500"),
        token_amount: String::from("700"),
        token_address: String::from("0xcd"),
        virtual_aptos_reserves: String::from("18446744073709551616"),
        virtual_token_reserves: String::from("9"),
        ts: String::from("1700000001"),
    };
    let t = e.to_db_trade(12).unwrap();
    assert_eq!(t.txn_version, 12);
    assert!(t.is_buy);
    assert_eq!(t.aptos_amount, 500);
    assert_eq!(t.token_amount, 700);
    assert_eq!(t.virtual_aptos_reserves, 1u128 << 64);
    assert_eq!(t.virtual_token_reserves, 9);
    assert_eq!(t.ts, 1_700_000_001);
    assert!(t.user_addr.ends_with("ab"));
    assert!(t.token_address.ends_with("cd"));
}

#[test]
fn trade_mapping_rejects_oversized_amount() {
    let e = TradeCreatedOnChain {
        is_buy: false,
        user: String::from("0xab"),
        aptos_amount: String::from("9223372036854775808"),
        token_amount: String::from("1"),
        token_address: String::from("0xcd"),
        virtual_aptos_reserves: String::from("1"),
        virtual_token_reserves: String::from("1"),
        ts: String::from("1"),
    };
    assert_eq!(e.to_db_trade(1), Err(MappingError::InvalidDecimal));
}

#[test]
fn position_mapping_starts_unclaimed_and_present() {
    let e = PositionCreatedOnChain {
        stake_addr: String::from("0x1"),
        position_addr: String::from("0x2"),
        user: String::from("0x3"),
        amount: String::from("1000"),
        unlock_ts: String::from("1800000000"),
    };
    let s = e.to_db_staking(7).unwrap();
    assert_eq!(s.amount, 1000);
    assert_eq!(s.unlock_ts, 1_800_000_000);
    assert_eq!(s.txn_version, 7);
    assert_eq!(s.claimed, 0);
    assert!(!s.is_removed);
    assert!(s.position_addr.ends_with("2"));
}

#[test]
fn position_mapping_rejects_bad_unlock_ts() {
    let e = PositionCreatedOnChain {
        stake_addr: String::from("0x1"),
        position_addr: String::from("0x2"),
        user: String::from("0x3"),
        amount: String::from("1000"),
        unlock_ts: String::from("soon"),
    };
    assert_eq!(e.to_db_staking(7), Err(MappingError::InvalidTimestamp));
}

#[test]
fn claim_mapping_parses_amount() {
    let e = RewardClaimedOnChain {
        position_addr: String::from("0x2"),
        user: String::from("0x3"),
        amount: String::from("250"),
        ts: String::from("1"),
    };
    let c = e.to_db_reward_claimed().unwrap();
    assert_eq!(c.amount, 250);
    assert!(c.position_addr.ends_with("2"));
}

#[test]
fn claim_mapping_rejects_bad_amount() {
    let e = RewardClaimedOnChain {
        position_addr: String::from("0x2"),
        user: String::from("0x3"),
        amount: String::from(""),
        ts: String::from("1"),
    };
    assert_eq!(e.to_db_reward_claimed(), Err(MappingError::InvalidDecimal));
}

#[test]
fn removal_mapping_normalizes_position() {
    let e = StakingRemovedOnChain { position_addr: String::from("0x2"), ts: String::from("1") };
    let c = e.to_db_position_removed();
    assert_eq!(c.position_addr.len(), 66);
    assert!(c.position_addr.ends_with("2"));
}

#[test]
fn pool_completed_mapping_normalizes_token_addr() {
    let e = PoolCompletedOnChain { token_addr: String::from("0x33") };
    let c = e.to_db_pool_completed();
    assert_eq!(c.main_addr.len(), 66);
    assert!(c.main_addr.ends_with("33"));
}

#[test]
fn spin_mapping_parses_amount_and_keeps_win_type() {
    let e = SpinEventOnChain {
        claimer: String::from("0x9"),
        win_type: 3,
        amount: String::from("777"),
    };
    let s = e.to_db_account().unwrap();
    assert_eq!(s.amount, 777);
    assert_eq!(s.win_type, 3);
    assert!(s.claimer.ends_with("9"));
}

#[test]
fn spin_mapping_rejects_bad_amount() {
    let e = SpinEventOnChain {
        claimer: String::from("0x9"),
        win_type: 0,
        amount: String::from("7.5"),
    };
    assert_eq!(e.to_db_account(), Err(MappingError::InvalidDecimal));
}

#[test]
fn spin_win_request_carries_the_record() {
    let s = indexer::accounts::Spin {
        claimer: String::from("0x9"),
        amount: 12,
        win_type: 0,
    };
    let r = SpinWinRequest::from_spin(&s);
    assert_eq!(r.user, s.claimer);
    assert_eq!(r.amount, 12);
    assert_eq!(r.win_type, 0);
}

#[test]
fn notifier_urls_are_built_from_injected_config() {
    let cfg = NotifierConfig::new(
        String::from("https://backend.example"),
        String::from("token-of-the-indexer"),
    );
    assert_eq!(
        cfg.token_created_url("0xabc"),
        "https://backend.example/api/indexer/created/0xabc"
    );
    assert_eq!(
        cfg.token_traded_url(12345),
        "https://backend.example/api/indexer/traded/12345"
    );
    assert_eq!(
        cfg.token_traded_url(-7),
        "https://backend.example/api/indexer/traded/-7"
    );
    assert_eq!(cfg.spin_url(), "https://backend.example/api/indexer/spin");
    assert_eq!(cfg.access_token, "token-of-the-indexer");
}
