//! Persistence of trade-creation events against the trade table: bounded
//! chunks of multi-row insert-if-absent statements keyed by transaction
//! version, followed by one outbound notification per trade.

use vstd::prelude::*;

use crate::chunking::chunk_bounds;
use crate::chunking::get_config_table_chunk_size;
use crate::chunking::TableChunkSizes;
use crate::errors::PersistError;
use crate::notifier::Notification;
use crate::rows::contains_key;
use crate::rows::insert_row;
use crate::rows::insert_rows;
use crate::rows::lemma_insert_rows_app;
use crate::rows::lemma_insert_rows_idempotent;
use crate::store::Store;
use crate::trades::trade_key;
use crate::trades::Trade;
use crate::trades::TRADE_FIELD_COUNT;

verus! {

/// Table effect of inserting `items` if absent, in order, keyed by the
/// transaction version.
pub open spec fn spec_insert_trades(rows: Seq<Trade>, items: Seq<Trade>) -> Seq<Trade> {
    insert_rows(rows, |t: Trade| trade_key(t), items)
}

/// Applying the same trade list twice leaves exactly the row set that
/// applying it once leaves.
pub proof fn lemma_trade_insert_idempotent(rows: Seq<Trade>, items: Seq<Trade>)
    ensures
        spec_insert_trades(spec_insert_trades(rows, items), items) == spec_insert_trades(
            rows,
            items,
        ),
{
    lemma_insert_rows_idempotent(rows, |t: Trade| trade_key(t), items);
}

/// Whether the trade table already has a row under `item`'s transaction
/// version.
fn trades_contain_key(rows: &Vec<Trade>, item: &Trade) -> (r: bool)
    ensures
        r == contains_key(rows@, |t: Trade| trade_key(t), trade_key(*item)),
{
    let n = rows.len();
    let mut k: usize = 0;
    while k < n
        invariant
            k <= n,
            n == rows@.len(),
            forall|i: int| 0 <= i < k ==> trade_key(#[trigger] rows@[i]) != trade_key(*item),
        decreases n - k,
    {
        if rows[k].txn_version == item.txn_version {
            return true;
        }
        k = k + 1;
    }
    false
}

/// One chunk's multi-row insert-if-absent statement over
/// `items[start..end]`, applied atomically; a creation insert cannot fail.
fn execute_trade_created_events_sql(
    rows: &mut Vec<Trade>,
    items: &Vec<Trade>,
    start: usize,
    end: usize,
)
    requires
        start <= end <= items@.len(),
    ensures
        final(rows)@ == spec_insert_trades(old(rows)@, items@.subrange(start as int, end as int)),
{
    let ghost key = |t: Trade| trade_key(t);
    let mut j: usize = start;
    proof {
        assert(items@.subrange(start as int, start as int) =~= Seq::<Trade>::empty());
    }
    while j < end
        invariant
            start <= j <= end <= items@.len(),
            rows@ == insert_rows(old(rows)@, key, items@.subrange(start as int, j as int)),
            key == (|t: Trade| trade_key(t)),
        decreases end - j,
    {
        proof {
            let a = items@.subrange(start as int, j as int);
            let b = seq![items@[j as int]];
            assert(items@.subrange(start as int, j as int + 1) =~= a + b);
            lemma_insert_rows_app(old(rows)@, key, a, b);
            assert(b.skip(1) =~= Seq::<Trade>::empty());
            let r1 = insert_row(rows@, key, b[0]);
            assert(insert_rows(r1, key, b.skip(1)) == r1);
            assert(insert_rows(rows@, key, b) == insert_rows(r1, key, b.skip(1)));
        }
        if !trades_contain_key(rows, &items[j]) {
            rows.push(items[j].duplicate());
        }
        j = j + 1;
    }
}

/// Notification requests owed for a committed trade list: one per trade, in
/// list order, carrying its transaction version.
pub open spec fn trade_notifications(items: Seq<Trade>) -> Seq<Notification> {
    Seq::new(
        items.len(),
        |i: int| Notification::TokenTraded { txn_version: items[i].txn_version },
    )
}

/// Persists one batch of trade rows: bounded chunks of atomic multi-row
/// insert-if-absent statements, then one notification per input trade.
/// Creation inserts cannot fail, so the result is always a notification
/// list.
pub fn process_trade_created_events(
    store: &mut Store,
    per_table_chunk_sizes: &TableChunkSizes,
    create_events: Vec<Trade>,
) -> (r: Result<Vec<Notification>, PersistError>)
    requires
        per_table_chunk_sizes.wf(),
    ensures
        final(store).trades@ == spec_insert_trades(old(store).trades@, create_events@),
        final(store).tokens == old(store).tokens,
        final(store).stakings == old(store).stakings,
        final(store).accounts == old(store).accounts,
        final(store).module_upgrades == old(store).module_upgrades,
        final(store).package_upgrades == old(store).package_upgrades,
        r matches Ok(n) && n@ == trade_notifications(create_events@),
{
    let ghost key = |t: Trade| trade_key(t);
    let chunk_size = get_config_table_chunk_size(
        "trades",
        TRADE_FIELD_COUNT,
        per_table_chunk_sizes,
    );
    let bounds = chunk_bounds(create_events.len(), chunk_size);
    let nb = bounds.len();
    let mut c: usize = 0;
    proof {
        assert(create_events@.subrange(0, 0) =~= Seq::<Trade>::empty());
    }
    while c < nb
        invariant
            nb == bounds@.len(),
            c <= nb,
            forall|i: int|
                0 <= i < nb ==> (#[trigger] bounds@[i]).0 < bounds@[i].1 <= create_events@.len(),
            forall|i: int| 1 <= i < nb ==> (#[trigger] bounds@[i]).0 == bounds@[i - 1].1,
            nb > 0 ==> bounds@[0].0 == 0,
            nb == 0 ==> create_events@.len() == 0,
            nb > 0 ==> bounds@[nb - 1].1 == create_events@.len(),
            store.trades@ == insert_rows(
                old(store).trades@,
                key,
                create_events@.subrange(0, if c == 0 { 0 } else { bounds@[c - 1].1 as int }),
            ),
            store.tokens == old(store).tokens,
            store.stakings == old(store).stakings,
            store.accounts == old(store).accounts,
            store.module_upgrades == old(store).module_upgrades,
            store.package_upgrades == old(store).package_upgrades,
            key == (|t: Trade| trade_key(t)),
        decreases nb - c,
    {
        let (start, end) = bounds[c];
        proof {
            let a = create_events@.subrange(0, start as int);
            let b = create_events@.subrange(start as int, end as int);
            assert(create_events@.subrange(0, end as int) =~= a + b);
            lemma_insert_rows_app(old(store).trades@, key, a, b);
        }
        execute_trade_created_events_sql(&mut store.trades, &create_events, start, end);
        c = c + 1;
    }
    proof {
        assert(create_events@.subrange(0, create_events@.len() as int) =~= create_events@);
        if nb == 0 {
            assert(create_events@.subrange(0, 0) =~= create_events@);
        }
    }
    let mut notifications: Vec<Notification> = Vec::new();
    let n = create_events.len();
    let mut i: usize = 0;
    while i < n
        invariant
            i <= n,
            n == create_events@.len(),
            notifications@.len() == i,
            forall|j: int|
                0 <= j < i ==> notifications@[j] == (Notification::TokenTraded {
                    txn_version: create_events@[j].txn_version,
                }),
        decreases n - i,
    {
        notifications.push(
            Notification::TokenTraded { txn_version: create_events[i].txn_version },
        );
        i = i + 1;
    }
    proof {
        assert(notifications@ =~= trade_notifications(create_events@));
    }
    Ok(notifications)
}

} // verus!
