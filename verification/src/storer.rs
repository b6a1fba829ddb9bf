//! The materialization step: routes one decoded transaction-effect batch
//! into per-kind ordered lists and invokes the chunked applier once per
//! kind, in a fixed order, failing fast across kinds.  The step returns the
//! outbound notification requests of the kinds that committed, together
//! with the overall persistence result.

use vstd::prelude::*;

use crate::accounts::Spin;
use crate::accounts::ACCOUNT_FIELD_COUNT;
use crate::chunking::TableChunkSizes;
use crate::chunking::MAX_PARAMS_PER_STATEMENT;
use crate::errors::EntityKind;
use crate::errors::PersistError;
use crate::errors::StoreError;
use crate::notifier::Notification;
use crate::spin_events_storer::apply_spins_chunked;
use crate::spin_events_storer::process_spin_events;
use crate::spin_events_storer::spin_notifications_chunked;
use crate::spin_events_storer::spins_all_chunks_ok;
use crate::staking_events_storer::apply_position_removed;
use crate::staking_events_storer::apply_reward_claimed_chunked;
use crate::staking_events_storer::claims_all_chunks_ok;
use crate::staking_events_storer::process_position_created_events;
use crate::staking_events_storer::process_position_removed_events;
use crate::staking_events_storer::process_reward_claimed_events;
use crate::staking_events_storer::spec_insert_stakings;
use crate::stakings::RewardClaimed;
use crate::stakings::Staking;
use crate::stakings::StakingRemoved;
use crate::stakings::STAKING_FIELD_COUNT;
use crate::store::Store;
use crate::token_events_storer::apply_pool_completed;
use crate::token_events_storer::process_pool_completed_events;
use crate::token_events_storer::process_token_created_events;
use crate::token_events_storer::spec_insert_tokens;
use crate::token_events_storer::token_notifications;
use crate::tokens::PoolCompleted;
use crate::tokens::Token;
use crate::trade_events_storer::process_trade_created_events;
use crate::trade_events_storer::spec_insert_trades;
use crate::trade_events_storer::trade_notifications;
use crate::trades::Trade;
use crate::upgrade_module_change_storer::process_upgrade_module_changes;
use crate::upgrade_module_change_storer::spec_insert_module_upgrades;
use crate::upgrade_package_change_storer::process_upgrade_package_changes;
use crate::upgrade_package_change_storer::spec_insert_package_upgrades;
use crate::upgrades::ModuleUpgrade;
use crate::upgrades::PackageUpgrade;

verus! {

/// One decoded on-chain effect, already mapped into its storage record.
/// The union is closed: routing matches it exhaustively, so a new kind is a
/// compile-time change, never a silently dropped event.
pub enum ContractEvent {
    TokenCreatedEvent(Token),
    PoolCompletedEvent(PoolCompleted),
    TradeCreatedEvent(Trade),
    PositionCreated(Staking),
    PositionRewardClaimed(RewardClaimed),
    PositionRemoved(StakingRemoved),
    SpinEvent(Spin),
}

/// One decoded module- or package-upgrade change.
pub enum ContractUpgradeChange {
    ModuleUpgradeChange(ModuleUpgrade),
    PackageUpgradeChange(PackageUpgrade),
}

/// One transaction window's decoded effects, owned by the step for the
/// duration of one call.
pub struct TransactionContextData {
    pub events: Vec<ContractEvent>,
    pub changes: Vec<ContractUpgradeChange>,
}

/// The token-creation records of `events`, in their relative input order.
pub open spec fn routed_tokens(events: Seq<ContractEvent>) -> Seq<Token>
    decreases events.len(),
{
    if events.len() == 0 {
        Seq::empty()
    } else {
        let prefix = routed_tokens(events.drop_last());
        match events.last() {
            ContractEvent::TokenCreatedEvent(t) => prefix.push(t),
            _ => prefix,
        }
    }
}

/// The pool-completion records of `events`, in their relative input order.
pub open spec fn routed_pool_completions(events: Seq<ContractEvent>) -> Seq<PoolCompleted>
    decreases events.len(),
{
    if events.len() == 0 {
        Seq::empty()
    } else {
        let prefix = routed_pool_completions(events.drop_last());
        match events.last() {
            ContractEvent::PoolCompletedEvent(c) => prefix.push(c),
            _ => prefix,
        }
    }
}

/// The trade records of `events`, in their relative input order.
pub open spec fn routed_trades(events: Seq<ContractEvent>) -> Seq<Trade>
    decreases events.len(),
{
    if events.len() == 0 {
        Seq::empty()
    } else {
        let prefix = routed_trades(events.drop_last());
        match events.last() {
            ContractEvent::TradeCreatedEvent(t) => prefix.push(t),
            _ => prefix,
        }
    }
}

/// The position-creation records of `events`, in their relative input order.
pub open spec fn routed_position_creations(events: Seq<ContractEvent>) -> Seq<Staking>
    decreases events.len(),
{
    if events.len() == 0 {
        Seq::empty()
    } else {
        let prefix = routed_position_creations(events.drop_last());
        match events.last() {
            ContractEvent::PositionCreated(s) => prefix.push(s),
            _ => prefix,
        }
    }
}

/// The reward-claim records of `events`, in their relative input order.
pub open spec fn routed_reward_claims(events: Seq<ContractEvent>) -> Seq<RewardClaimed>
    decreases events.len(),
{
    if events.len() == 0 {
        Seq::empty()
    } else {
        let prefix = routed_reward_claims(events.drop_last());
        match events.last() {
            ContractEvent::PositionRewardClaimed(c) => prefix.push(c),
            _ => prefix,
        }
    }
}

/// The position-removal records of `events`, in their relative input order.
pub open spec fn routed_position_removals(events: Seq<ContractEvent>) -> Seq<StakingRemoved>
    decreases events.len(),
{
    if events.len() == 0 {
        Seq::empty()
    } else {
        let prefix = routed_position_removals(events.drop_last());
        match events.last() {
            ContractEvent::PositionRemoved(c) => prefix.push(c),
            _ => prefix,
        }
    }
}

/// The spin records of `events`, in their relative input order.
pub open spec fn routed_spins(events: Seq<ContractEvent>) -> Seq<Spin>
    decreases events.len(),
{
    if events.len() == 0 {
        Seq::empty()
    } else {
        let prefix = routed_spins(events.drop_last());
        match events.last() {
            ContractEvent::SpinEvent(s) => prefix.push(s),
            _ => prefix,
        }
    }
}

/// The module-upgrade records of `changes`, in their relative input order.
pub open spec fn routed_module_upgrades(changes: Seq<ContractUpgradeChange>) -> Seq<ModuleUpgrade>
    decreases changes.len(),
{
    if changes.len() == 0 {
        Seq::empty()
    } else {
        let prefix = routed_module_upgrades(changes.drop_last());
        match changes.last() {
            ContractUpgradeChange::ModuleUpgradeChange(m) => prefix.push(m),
            _ => prefix,
        }
    }
}

/// The package-upgrade records of `changes`, in their relative input order.
pub open spec fn routed_package_upgrades(changes: Seq<ContractUpgradeChange>) -> Seq<PackageUpgrade>
    decreases changes.len(),
{
    if changes.len() == 0 {
        Seq::empty()
    } else {
        let prefix = routed_package_upgrades(changes.drop_last());
        match changes.last() {
            ContractUpgradeChange::PackageUpgradeChange(p) => prefix.push(p),
            _ => prefix,
        }
    }
}

/// Routing drops no event and duplicates none: the per-kind output lengths
/// sum to the input length.
pub proof fn lemma_route_partitions(events: Seq<ContractEvent>)
    ensures
        routed_tokens(events).len() + routed_pool_completions(events).len() + routed_trades(
            events,
        ).len() + routed_position_creations(events).len() + routed_reward_claims(events).len()
            + routed_position_removals(events).len() + routed_spins(events).len() == events.len(),
    decreases events.len(),
{
    if events.len() > 0 {
        lemma_route_partitions(events.drop_last());
    }
}

/// Routing is a stable partition: wrapping a kind's output back into its
/// event constructor yields exactly the same-kind subsequence of the input,
/// in the same order.
pub proof fn lemma_routed_tokens_stable(events: Seq<ContractEvent>)
    ensures
        routed_tokens(events).map_values(|t: Token| ContractEvent::TokenCreatedEvent(t))
            == events.filter(|e: ContractEvent| e is TokenCreatedEvent),
    decreases events.len(),
{
    reveal(Seq::filter);
    if events.len() == 0 {
        assert(routed_tokens(events).map_values(
            |t: Token| ContractEvent::TokenCreatedEvent(t),
        ) =~= events.filter(|e: ContractEvent| e is TokenCreatedEvent));
    } else {
        lemma_routed_tokens_stable(events.drop_last());
        assert(routed_tokens(events).map_values(|t: Token| ContractEvent::TokenCreatedEvent(t))
            =~= events.filter(|e: ContractEvent| e is TokenCreatedEvent));
    }
}

/// Stable partition for the spin kind.
pub proof fn lemma_routed_spins_stable(events: Seq<ContractEvent>)
    ensures
        routed_spins(events).map_values(|s: Spin| ContractEvent::SpinEvent(s)) == events.filter(
            |e: ContractEvent| e is SpinEvent,
        ),
    decreases events.len(),
{
    reveal(Seq::filter);
    if events.len() == 0 {
        assert(routed_spins(events).map_values(|s: Spin| ContractEvent::SpinEvent(s))
            =~= events.filter(|e: ContractEvent| e is SpinEvent));
    } else {
        lemma_routed_spins_stable(events.drop_last());
        assert(routed_spins(events).map_values(|s: Spin| ContractEvent::SpinEvent(s))
            =~= events.filter(|e: ContractEvent| e is SpinEvent));
    }
}

/// Stable partition for the pool-completion kind.
pub proof fn lemma_routed_pool_completions_stable(events: Seq<ContractEvent>)
    ensures
        routed_pool_completions(events).map_values(
            |c: PoolCompleted| ContractEvent::PoolCompletedEvent(c),
        ) == events.filter(|e: ContractEvent| e is PoolCompletedEvent),
    decreases events.len(),
{
    reveal(Seq::filter);
    if events.len() > 0 {
        lemma_routed_pool_completions_stable(events.drop_last());
    }
    assert(routed_pool_completions(events).map_values(
        |c: PoolCompleted| ContractEvent::PoolCompletedEvent(c),
    ) =~= events.filter(|e: ContractEvent| e is PoolCompletedEvent));
}

/// Stable partition for the trade kind.
pub proof fn lemma_routed_trades_stable(events: Seq<ContractEvent>)
    ensures
        routed_trades(events).map_values(|t: Trade| ContractEvent::TradeCreatedEvent(t))
            == events.filter(|e: ContractEvent| e is TradeCreatedEvent),
    decreases events.len(),
{
    reveal(Seq::filter);
    if events.len() > 0 {
        lemma_routed_trades_stable(events.drop_last());
    }
    assert(routed_trades(events).map_values(|t: Trade| ContractEvent::TradeCreatedEvent(t))
        =~= events.filter(|e: ContractEvent| e is TradeCreatedEvent));
}

/// Stable partition for the position-creation kind.
pub proof fn lemma_routed_position_creations_stable(events: Seq<ContractEvent>)
    ensures
        routed_position_creations(events).map_values(
            |s: Staking| ContractEvent::PositionCreated(s),
        ) == events.filter(|e: ContractEvent| e is PositionCreated),
    decreases events.len(),
{
    reveal(Seq::filter);
    if events.len() > 0 {
        lemma_routed_position_creations_stable(events.drop_last());
    }
    assert(routed_position_creations(events).map_values(
        |s: Staking| ContractEvent::PositionCreated(s),
    ) =~= events.filter(|e: ContractEvent| e is PositionCreated));
}

/// Stable partition for the reward-claim kind.
pub proof fn lemma_routed_reward_claims_stable(events: Seq<ContractEvent>)
    ensures
        routed_reward_claims(events).map_values(
            |c: RewardClaimed| ContractEvent::PositionRewardClaimed(c),
        ) == events.filter(|e: ContractEvent| e is PositionRewardClaimed),
    decreases events.len(),
{
    reveal(Seq::filter);
    if events.len() > 0 {
        lemma_routed_reward_claims_stable(events.drop_last());
    }
    assert(routed_reward_claims(events).map_values(
        |c: RewardClaimed| ContractEvent::PositionRewardClaimed(c),
    ) =~= events.filter(|e: ContractEvent| e is PositionRewardClaimed));
}

/// Stable partition for the position-removal kind.
pub proof fn lemma_routed_position_removals_stable(events: Seq<ContractEvent>)
    ensures
        routed_position_removals(events).map_values(
            |c: StakingRemoved| ContractEvent::PositionRemoved(c),
        ) == events.filter(|e: ContractEvent| e is PositionRemoved),
    decreases events.len(),
{
    reveal(Seq::filter);
    if events.len() > 0 {
        lemma_routed_position_removals_stable(events.drop_last());
    }
    assert(routed_position_removals(events).map_values(
        |c: StakingRemoved| ContractEvent::PositionRemoved(c),
    ) =~= events.filter(|e: ContractEvent| e is PositionRemoved));
}

/// Stable partition for the module-upgrade kind.
pub proof fn lemma_routed_module_upgrades_stable(changes: Seq<ContractUpgradeChange>)
    ensures
        routed_module_upgrades(changes).map_values(
            |m: ModuleUpgrade| ContractUpgradeChange::ModuleUpgradeChange(m),
        ) == changes.filter(|e: ContractUpgradeChange| e is ModuleUpgradeChange),
    decreases changes.len(),
{
    reveal(Seq::filter);
    if changes.len() > 0 {
        lemma_routed_module_upgrades_stable(changes.drop_last());
    }
    assert(routed_module_upgrades(changes).map_values(
        |m: ModuleUpgrade| ContractUpgradeChange::ModuleUpgradeChange(m),
    ) =~= changes.filter(|e: ContractUpgradeChange| e is ModuleUpgradeChange));
}

/// Stable partition for the package-upgrade kind.
pub proof fn lemma_routed_package_upgrades_stable(changes: Seq<ContractUpgradeChange>)
    ensures
        routed_package_upgrades(changes).map_values(
            |p: PackageUpgrade| ContractUpgradeChange::PackageUpgradeChange(p),
        ) == changes.filter(|e: ContractUpgradeChange| e is PackageUpgradeChange),
    decreases changes.len(),
{
    reveal(Seq::filter);
    if changes.len() > 0 {
        lemma_routed_package_upgrades_stable(changes.drop_last());
    }
    assert(routed_package_upgrades(changes).map_values(
        |p: PackageUpgrade| ContractUpgradeChange::PackageUpgradeChange(p),
    ) =~= changes.filter(|e: ContractUpgradeChange| e is PackageUpgradeChange));
}

/// The per-kind ordered lists of one routed batch.
pub struct RoutedEvents {
    pub token_created_events: Vec<Token>,
    pub pool_completed_events: Vec<PoolCompleted>,
    pub trade_created_events: Vec<Trade>,
    pub position_created_events: Vec<Staking>,
    pub position_claimed_events: Vec<RewardClaimed>,
    pub position_removed_events: Vec<StakingRemoved>,
    pub spin_events: Vec<Spin>,
}

/// Classifies one mixed-kind event list into the seven per-kind lists in a
/// single pass, preserving within-kind order.
pub fn route_events(events: &Vec<ContractEvent>) -> (r: RoutedEvents)
    ensures
        r.token_created_events@ == routed_tokens(events@),
        r.pool_completed_events@ == routed_pool_completions(events@),
        r.trade_created_events@ == routed_trades(events@),
        r.position_created_events@ == routed_position_creations(events@),
        r.position_claimed_events@ == routed_reward_claims(events@),
        r.position_removed_events@ == routed_position_removals(events@),
        r.spin_events@ == routed_spins(events@),
{
    let mut r = RoutedEvents {
        token_created_events: Vec::new(),
        pool_completed_events: Vec::new(),
        trade_created_events: Vec::new(),
        position_created_events: Vec::new(),
        position_claimed_events: Vec::new(),
        position_removed_events: Vec::new(),
        spin_events: Vec::new(),
    };
    let n = events.len();
    let mut i: usize = 0;
    proof {
        assert(events@.take(0) =~= Seq::<ContractEvent>::empty());
    }
    while i < n
        invariant
            i <= n,
            n == events@.len(),
            r.token_created_events@ == routed_tokens(events@.take(i as int)),
            r.pool_completed_events@ == routed_pool_completions(events@.take(i as int)),
            r.trade_created_events@ == routed_trades(events@.take(i as int)),
            r.position_created_events@ == routed_position_creations(events@.take(i as int)),
            r.position_claimed_events@ == routed_reward_claims(events@.take(i as int)),
            r.position_removed_events@ == routed_position_removals(events@.take(i as int)),
            r.spin_events@ == routed_spins(events@.take(i as int)),
        decreases n - i,
    {
        proof {
            assert(events@.take(i as int + 1).drop_last() =~= events@.take(i as int));
            assert(events@.take(i as int + 1).last() == events@[i as int]);
        }
        match &events[i] {
            ContractEvent::TokenCreatedEvent(t) => {
                r.token_created_events.push(t.duplicate());
            },
            ContractEvent::PoolCompletedEvent(c) => {
                r.pool_completed_events.push(c.duplicate());
            },
            ContractEvent::TradeCreatedEvent(t) => {
                r.trade_created_events.push(t.duplicate());
            },
            ContractEvent::PositionCreated(s) => {
                r.position_created_events.push(s.duplicate());
            },
            ContractEvent::PositionRewardClaimed(c) => {
                r.position_claimed_events.push(c.duplicate());
            },
            ContractEvent::PositionRemoved(c) => {
                r.position_removed_events.push(c.duplicate());
            },
            ContractEvent::SpinEvent(s) => {
                r.spin_events.push(s.duplicate());
            },
        }
        i = i + 1;
    }
    proof {
        assert(events@.take(n as int) =~= events@);
    }
    r
}

/// Classifies one mixed-kind change list into the two upgrade lists in a
/// single pass, preserving within-kind order.
pub fn route_changes(changes: &Vec<ContractUpgradeChange>) -> (r: (
    Vec<ModuleUpgrade>,
    Vec<PackageUpgrade>,
))
    ensures
        r.0@ == routed_module_upgrades(changes@),
        r.1@ == routed_package_upgrades(changes@),
{
    let mut module_upgrades: Vec<ModuleUpgrade> = Vec::new();
    let mut package_upgrades: Vec<PackageUpgrade> = Vec::new();
    let n = changes.len();
    let mut i: usize = 0;
    proof {
        assert(changes@.take(0) =~= Seq::<ContractUpgradeChange>::empty());
    }
    while i < n
        invariant
            i <= n,
            n == changes@.len(),
            module_upgrades@ == routed_module_upgrades(changes@.take(i as int)),
            package_upgrades@ == routed_package_upgrades(changes@.take(i as int)),
        decreases n - i,
    {
        proof {
            assert(changes@.take(i as int + 1).drop_last() =~= changes@.take(i as int));
            assert(changes@.take(i as int + 1).last() == changes@[i as int]);
        }
        match &changes[i] {
            ContractUpgradeChange::ModuleUpgradeChange(m) => {
                module_upgrades.push(m.duplicate());
            },
            ContractUpgradeChange::PackageUpgradeChange(p) => {
                package_upgrades.push(p.duplicate());
            },
        }
        i = i + 1;
    }
    proof {
        assert(changes@.take(n as int) =~= changes@);
    }
    (module_upgrades, package_upgrades)
}

/// The materialization step: holds the store model it writes to.
pub struct Storer {
    pub store: Store,
}

impl Storer {
    pub fn new(store: Store) -> (r: Storer)
        ensures
            r.store == store,
    {
        Storer { store }
    }

    /// The step's name, for operator-facing logs.
    pub fn name(&self) -> (r: String)
        ensures
            r@ == "Storer"@,
    {
        String::from_str("Storer")
    }

    /// Materializes one batch: routes it, then applies the nine kinds in the
    /// fixed order tokens, completions, trades, position creations, reward
    /// claims, position removals, spins, module upgrades, package upgrades.
    /// A kind that fails aborts every kind after it; the tables of the
    /// aborted kinds are untouched.  The notification requests of the kinds
    /// that committed are returned in order, together with the overall
    /// result, which is success exactly when every kind persisted.
    pub fn process(&mut self, transaction_context_data: TransactionContextData) -> (r: (
        Vec<Notification>,
        Result<(), PersistError>,
    ))
        ensures
            ({
                let events = transaction_context_data.events@;
                let changes = transaction_context_data.changes@;
                let s0 = old(self).store;
                let tokens1 = spec_insert_tokens(s0.tokens@, routed_tokens(events));
                let tokens2 = apply_pool_completed(tokens1, routed_pool_completions(events));
                let trades1 = spec_insert_trades(s0.trades@, routed_trades(events));
                let stakings1 = spec_insert_stakings(
                    s0.stakings@,
                    routed_position_creations(events),
                );
                let claim_sz = (MAX_PARAMS_PER_STATEMENT / STAKING_FIELD_COUNT) as int;
                let claims = routed_reward_claims(events);
                let stakings2 = apply_reward_claimed_chunked(stakings1, claims, claim_sz);
                let claims_committed = claims_all_chunks_ok(stakings1, claims, claim_sz);
                let stakings3 = apply_position_removed(
                    stakings2,
                    routed_position_removals(events),
                );
                let spin_sz = (MAX_PARAMS_PER_STATEMENT / ACCOUNT_FIELD_COUNT) as int;
                let spins = routed_spins(events);
                let accounts1 = apply_spins_chunked(s0.accounts@, spins, spin_sz);
                let spins_committed = spins_all_chunks_ok(s0.accounts@, spins, spin_sz);
                &&& final(self).store.tokens@ == tokens2
                &&& final(self).store.trades@ == trades1
                &&& final(self).store.stakings@ == (if claims_committed {
                    stakings3
                } else {
                    stakings2
                })
                &&& final(self).store.accounts@ == (if claims_committed {
                    accounts1
                } else {
                    s0.accounts@
                })
                &&& final(self).store.module_upgrades@ == (if claims_committed
                    && spins_committed {
                    spec_insert_module_upgrades(
                        s0.module_upgrades@,
                        routed_module_upgrades(changes),
                    )
                } else {
                    s0.module_upgrades@
                })
                &&& final(self).store.package_upgrades@ == (if claims_committed
                    && spins_committed {
                    spec_insert_package_upgrades(
                        s0.package_upgrades@,
                        routed_package_upgrades(changes),
                    )
                } else {
                    s0.package_upgrades@
                })
                &&& (r.1 is Ok <==> claims_committed && spins_committed)
                &&& (r.1 matches Err(e) ==> e.cause == StoreError::CounterOverflow && e.kind == (
                if !claims_committed {
                    EntityKind::RewardClaims
                } else {
                    EntityKind::Spins
                }))
                &&& r.0@ == token_notifications(routed_tokens(events)) + trade_notifications(
                    routed_trades(events),
                ) + (if claims_committed {
                    spin_notifications_chunked(s0.accounts@, spins, spin_sz)
                } else {
                    Seq::<Notification>::empty()
                })
            }),
    {
        let per_table_chunk_sizes = TableChunkSizes::new();
        let routed = route_events(&transaction_context_data.events);
        let mut notifications: Vec<Notification> = Vec::new();
        match process_token_created_events(
            &mut self.store,
            &per_table_chunk_sizes,
            routed.token_created_events,
        ) {
            Ok(mut n) => {
                notifications.append(&mut n);
            },
            Err(e) => {
                return (notifications, Err(e));
            },
        }
        match process_pool_completed_events(
            &mut self.store,
            &per_table_chunk_sizes,
            routed.pool_completed_events,
        ) {
            Ok(_) => {},
            Err(e) => {
                return (notifications, Err(e));
            },
        }
        match process_trade_created_events(
            &mut self.store,
            &per_table_chunk_sizes,
            routed.trade_created_events,
        ) {
            Ok(mut n) => {
                notifications.append(&mut n);
            },
            Err(e) => {
                return (notifications, Err(e));
            },
        }
        match process_position_created_events(
            &mut self.store,
            &per_table_chunk_sizes,
            routed.position_created_events,
        ) {
            Ok(_) => {},
            Err(e) => {
                return (notifications, Err(e));
            },
        }
        match process_reward_claimed_events(
            &mut self.store,
            &per_table_chunk_sizes,
            routed.position_claimed_events,
        ) {
            Ok(_) => {},
            Err(e) => {
                proof {
                    assert(notifications@ + Seq::<Notification>::empty() =~= notifications@);
                }
                return (notifications, Err(e));
            },
        }
        match process_position_removed_events(
            &mut self.store,
            &per_table_chunk_sizes,
            routed.position_removed_events,
        ) {
            Ok(_) => {},
            Err(e) => {
                return (notifications, Err(e));
            },
        }
        let (mut spin_notifications, spin_result) = process_spin_events(
            &mut self.store,
            &per_table_chunk_sizes,
            routed.spin_events,
        );
        notifications.append(&mut spin_notifications);
        match spin_result {
            Ok(_) => {},
            Err(e) => {
                return (notifications, Err(e));
            },
        }
        let (module_upgrades, package_upgrades) = route_changes(
            &transaction_context_data.changes,
        );
        match process_upgrade_module_changes(
            &mut self.store,
            &per_table_chunk_sizes,
            module_upgrades,
        ) {
            Ok(_) => {},
            Err(e) => {
                return (notifications, Err(e));
            },
        }
        match process_upgrade_package_changes(
            &mut self.store,
            &per_table_chunk_sizes,
            package_upgrades,
        ) {
            Ok(_) => {},
            Err(e) => {
                return (notifications, Err(e));
            },
        }
        (notifications, Ok(()))
    }
}

} // verus!
