use indexer::chunking::chunk_bounds;
use indexer::chunking::get_config_table_chunk_size;
use indexer::chunking::TableChunkSizes;
use indexer::chunking::MAX_PARAMS_PER_STATEMENT;
use indexer::accounts::ACCOUNT_FIELD_COUNT;
use indexer::stakings::STAKING_FIELD_COUNT;
use indexer::tokens::TOKEN_FIELD_COUNT;
use indexer::trades::TRADE_FIELD_COUNT;

#[test]
fn default_chunk_size_is_parameter_limit_over_field_count() {
    let sizes = TableChunkSizes::new();
    assert_eq!(
        get_config_table_chunk_size("tokens", TOKEN_FIELD_COUNT, &sizes),
        MAX_PARAMS_PER_STATEMENT / 18
    );
    assert_eq!(
        get_config_table_chunk_size("trades", TRADE_FIELD_COUNT, &sizes),
        MAX_PARAMS_PER_STATEMENT / 9
    );
    assert_eq!(
        get_config_table_chunk_size("stakings", STAKING_FIELD_COUNT, &sizes),
        MAX_PARAMS_PER_STATEMENT / 8
    );
    assert_eq!(
        get_config_table_chunk_size("accounts", ACCOUNT_FIELD_COUNT, &sizes),
        MAX_PARAMS_PER_STATEMENT / 3
    );
    // exact expected values of the floor division
    assert_eq!(get_config_table_chunk_size("tokens", TOKEN_FIELD_COUNT, &sizes), 3640);
    assert_eq!(get_config_table_chunk_size("accounts", ACCOUNT_FIELD_COUNT, &sizes), 21845);
}

#[test]
fn explicit_override_takes_precedence() {
    let mut sizes = TableChunkSizes::new();
    sizes.set_override(String::from("tokens"), 7);
    assert_eq!(get_config_table_chunk_size("tokens", TOKEN_FIELD_COUNT, &sizes), 7);
    // another table still falls back to the derived default
    assert_eq!(
        get_config_table_chunk_size("trades", TRADE_FIELD_COUNT, &sizes),
        MAX_PARAMS_PER_STATEMENT / 9
    );
}

#[test]
fn chunk_bounds_cover_all_items_exactly_once() {
    let bounds = chunk_bounds(10, 3);
    assert_eq!(bounds, vec![(0, 3), (3, 6), (6, 9), (9, 10)]);
    // ceil(10 / 3) == 4 chunks, each of size <= 3
    assert_eq!(bounds.len(), 4);
    let mut covered = 0;
    let mut expected_start = 0;
    for (start, end) in bounds {
        assert_eq!(start, expected_start);
        assert!(end - start <= 3);
        covered += end - start;
        expected_start = end;
    }
    assert_eq!(covered, 10);
}

#[test]
fn chunk_bounds_of_empty_list_is_empty() {
    assert_eq!(chunk_bounds(0, 5), vec![]);
}

#[test]
fn chunk_bounds_of_exact_multiple() {
    assert_eq!(chunk_bounds(6, 3), vec![(0, 3), (3, 6)]);
}
