//! Persistence of token-creation and pool-completion events against the
//! token table: creation rows are inserted if absent, chunk by chunk, and a
//! completion marks every row of its main address completed.  Each committed
//! creation also queues one outbound notification.

use vstd::prelude::*;

use crate::chunking::chunk_bounds;
use crate::chunking::get_config_table_chunk_size;
use crate::chunking::TableChunkSizes;
use crate::errors::PersistError;
use crate::notifier::Notification;
use crate::rows::contains_key;
use crate::rows::insert_row;
use crate::rows::insert_rows;
use crate::rows::lemma_insert_rows_app;
use crate::rows::lemma_insert_rows_idempotent;
use crate::store::Store;
use crate::tokens::token_key;
use crate::tokens::PoolCompleted;
use crate::tokens::Token;
use crate::tokens::TOKEN_FIELD_COUNT;

verus! {

/// Table effect of inserting `items` if absent, in order, keyed by the pool
/// address.
pub open spec fn spec_insert_tokens(rows: Seq<Token>, items: Seq<Token>) -> Seq<Token> {
    insert_rows(rows, |t: Token| token_key(t), items)
}

/// Applying the same creation list twice leaves exactly the row set that
/// applying it once leaves: reprocessing a transaction window cannot
/// duplicate or alter token rows.
pub proof fn lemma_token_insert_idempotent(rows: Seq<Token>, items: Seq<Token>)
    ensures
        spec_insert_tokens(spec_insert_tokens(rows, items), items) == spec_insert_tokens(
            rows,
            items,
        ),
{
    lemma_insert_rows_idempotent(rows, |t: Token| token_key(t), items);
}

/// Whether the token table already has a row under `item`'s pool address.
fn tokens_contain_key(rows: &Vec<Token>, item: &Token) -> (r: bool)
    ensures
        r == contains_key(rows@, |t: Token| token_key(t), token_key(*item)),
{
    let n = rows.len();
    let mut k: usize = 0;
    while k < n
        invariant
            k <= n,
            n == rows@.len(),
            forall|i: int| 0 <= i < k ==> token_key(#[trigger] rows@[i]) != token_key(*item),
        decreases n - k,
    {
        if rows[k].pool_addr == item.pool_addr {
            return true;
        }
        k = k + 1;
    }
    false
}

/// One chunk's multi-row insert-if-absent statement over
/// `items[start..end]`, applied atomically; a creation insert cannot fail.
fn execute_token_created_events_sql(
    rows: &mut Vec<Token>,
    items: &Vec<Token>,
    start: usize,
    end: usize,
)
    requires
        start <= end <= items@.len(),
    ensures
        final(rows)@ == spec_insert_tokens(old(rows)@, items@.subrange(start as int, end as int)),
{
    let ghost key = |t: Token| token_key(t);
    let mut j: usize = start;
    proof {
        assert(items@.subrange(start as int, start as int) =~= Seq::<Token>::empty());
    }
    while j < end
        invariant
            start <= j <= end <= items@.len(),
            rows@ == insert_rows(old(rows)@, key, items@.subrange(start as int, j as int)),
            key == (|t: Token| token_key(t)),
        decreases end - j,
    {
        proof {
            let a = items@.subrange(start as int, j as int);
            let b = seq![items@[j as int]];
            assert(items@.subrange(start as int, j as int + 1) =~= a + b);
            lemma_insert_rows_app(old(rows)@, key, a, b);
            assert(b.skip(1) =~= Seq::<Token>::empty());
            let r1 = insert_row(rows@, key, b[0]);
            assert(insert_rows(r1, key, b.skip(1)) == r1);
            assert(insert_rows(rows@, key, b) == insert_rows(r1, key, b.skip(1)));
        }
        if !tokens_contain_key(rows, &items[j]) {
            rows.push(items[j].duplicate());
        }
        j = j + 1;
    }
}

/// Notification requests owed for a committed creation list: one per created
/// token, in list order, carrying its pre-graduation address.
pub open spec fn token_notifications(items: Seq<Token>) -> Seq<Notification> {
    Seq::new(items.len(), |i: int| Notification::TokenCreated { addr: items[i].pre_addr })
}

/// Persists one batch of token-creation rows: the list is partitioned into
/// bounded chunks, each chunk is one atomic multi-row insert-if-absent
/// statement, and afterwards one notification is queued per input row.
/// Creation inserts cannot fail, so the result is always a notification
/// list.
pub fn process_token_created_events(
    store: &mut Store,
    per_table_chunk_sizes: &TableChunkSizes,
    create_events: Vec<Token>,
) -> (r: Result<Vec<Notification>, PersistError>)
    requires
        per_table_chunk_sizes.wf(),
    ensures
        final(store).tokens@ == spec_insert_tokens(old(store).tokens@, create_events@),
        final(store).trades == old(store).trades,
        final(store).stakings == old(store).stakings,
        final(store).accounts == old(store).accounts,
        final(store).module_upgrades == old(store).module_upgrades,
        final(store).package_upgrades == old(store).package_upgrades,
        r matches Ok(n) && n@ == token_notifications(create_events@),
{
    let ghost key = |t: Token| token_key(t);
    let chunk_size = get_config_table_chunk_size(
        "tokens",
        TOKEN_FIELD_COUNT,
        per_table_chunk_sizes,
    );
    let bounds = chunk_bounds(create_events.len(), chunk_size);
    let nb = bounds.len();
    let mut c: usize = 0;
    proof {
        assert(create_events@.subrange(0, 0) =~= Seq::<Token>::empty());
    }
    while c < nb
        invariant
            nb == bounds@.len(),
            c <= nb,
            forall|i: int|
                0 <= i < nb ==> (#[trigger] bounds@[i]).0 < bounds@[i].1 <= create_events@.len(),
            forall|i: int| 1 <= i < nb ==> (#[trigger] bounds@[i]).0 == bounds@[i - 1].1,
            nb > 0 ==> bounds@[0].0 == 0,
            nb == 0 ==> create_events@.len() == 0,
            nb > 0 ==> bounds@[nb - 1].1 == create_events@.len(),
            store.tokens@ == insert_rows(
                old(store).tokens@,
                key,
                create_events@.subrange(0, if c == 0 { 0 } else { bounds@[c - 1].1 as int }),
            ),
            store.trades == old(store).trades,
            store.stakings == old(store).stakings,
            store.accounts == old(store).accounts,
            store.module_upgrades == old(store).module_upgrades,
            store.package_upgrades == old(store).package_upgrades,
            key == (|t: Token| token_key(t)),
        decreases nb - c,
    {
        let (start, end) = bounds[c];
        proof {
            let done = if c == 0 {
                0
            } else {
                bounds@[c as int - 1].1
            };
            assert(done == start);
            let a = create_events@.subrange(0, start as int);
            let b = create_events@.subrange(start as int, end as int);
            assert(create_events@.subrange(0, end as int) =~= a + b);
            lemma_insert_rows_app(old(store).tokens@, key, a, b);
        }
        execute_token_created_events_sql(&mut store.tokens, &create_events, start, end);
        c = c + 1;
    }
    proof {
        assert(create_events@.subrange(0, create_events@.len() as int) =~= create_events@);
        if nb == 0 {
            assert(create_events@.subrange(0, 0) =~= create_events@);
        }
    }
    let mut notifications: Vec<Notification> = Vec::new();
    let n = create_events.len();
    let mut i: usize = 0;
    while i < n
        invariant
            i <= n,
            n == create_events@.len(),
            notifications@.len() == i,
            forall|j: int|
                0 <= j < i ==> notifications@[j] == (Notification::TokenCreated {
                    addr: create_events@[j].pre_addr,
                }),
        decreases n - i,
    {
        notifications.push(Notification::TokenCreated { addr: create_events[i].pre_addr.clone() });
        i = i + 1;
    }
    proof {
        assert(notifications@ =~= token_notifications(create_events@));
    }
    Ok(notifications)
}

/// Effect of one completion on one row: a row under the completed main
/// address gets `is_completed = true`; every other row is untouched.
pub open spec fn apply_pool_completed_row(t: Token, c: PoolCompleted) -> Token {
    if t.main_addr@ == c.main_addr@ {
        Token { is_completed: true, ..t }
    } else {
        t
    }
}

/// Effect of one completion's update statement on the whole table.
pub open spec fn apply_pool_completed_one(rows: Seq<Token>, c: PoolCompleted) -> Seq<Token> {
    rows.map_values(|t: Token| apply_pool_completed_row(t, c))
}

/// Effect of a completion list, applied in list order.
pub open spec fn apply_pool_completed(rows: Seq<Token>, items: Seq<PoolCompleted>) -> Seq<Token>
    decreases items.len(),
{
    if items.len() == 0 {
        rows
    } else {
        apply_pool_completed(apply_pool_completed_one(rows, items[0]), items.skip(1))
    }
}

proof fn lemma_apply_pool_completed_app(rows: Seq<Token>, a: Seq<PoolCompleted>, b: Seq<
    PoolCompleted,
>)
    ensures
        apply_pool_completed(rows, a + b) == apply_pool_completed(apply_pool_completed(rows, a), b),
    decreases a.len(),
{
    if a.len() == 0 {
        assert(a + b =~= b);
    } else {
        assert((a + b)[0] == a[0]);
        assert((a + b).skip(1) =~= a.skip(1) + b);
        lemma_apply_pool_completed_app(apply_pool_completed_one(rows, a[0]), a.skip(1), b);
    }
}

/// One chunk's transaction over `items[start..end]`: one update statement
/// per completion, in list order; flipping a flag cannot fail.
fn execute_pool_completed_events_sql(
    rows: &mut Vec<Token>,
    items: &Vec<PoolCompleted>,
    start: usize,
    end: usize,
)
    requires
        start <= end <= items@.len(),
    ensures
        final(rows)@ == apply_pool_completed(old(rows)@, items@.subrange(start as int, end as int)),
{
    let mut j: usize = start;
    proof {
        assert(items@.subrange(start as int, start as int) =~= Seq::<PoolCompleted>::empty());
    }
    while j < end
        invariant
            start <= j <= end <= items@.len(),
            rows@ == apply_pool_completed(old(rows)@, items@.subrange(start as int, j as int)),
        decreases end - j,
    {
        proof {
            let a = items@.subrange(start as int, j as int);
            let b = seq![items@[j as int]];
            assert(items@.subrange(start as int, j as int + 1) =~= a + b);
            lemma_apply_pool_completed_app(old(rows)@, a, b);
            assert(b.skip(1) =~= Seq::<PoolCompleted>::empty());
            let r1 = apply_pool_completed_one(rows@, b[0]);
            assert(apply_pool_completed(r1, b.skip(1)) == r1);
            assert(apply_pool_completed(rows@, b) == apply_pool_completed(r1, b.skip(1)));
        }
        let ghost rows0 = rows@;
        let ghost cg = items@[j as int];
        let n = rows.len();
        let mut k: usize = 0;
        while k < n
            invariant
                k <= n,
                n == rows@.len() == rows0.len(),
                cg == items@[j as int],
                j < items@.len(),
                forall|i: int|
                    0 <= i < k ==> rows@[i] == apply_pool_completed_row(#[trigger] rows0[i], cg),
                forall|i: int| k <= i < n ==> rows@[i] == rows0[i],
            decreases n - k,
        {
            if rows[k].main_addr == items[j].main_addr {
                rows[k].is_completed = true;
                proof {
                    assert(rows@[k as int] == apply_pool_completed_row(rows0[k as int], cg));
                }
            }
            k = k + 1;
        }
        proof {
            assert(rows@ =~= apply_pool_completed_one(rows0, cg));
        }
        j = j + 1;
    }
}

/// Persists one batch of pool completions: bounded chunks, one transaction
/// per chunk, one update statement per completion inside it.  Completion
/// merges cannot fail, and no notification is owed for them.
pub fn process_pool_completed_events(
    store: &mut Store,
    per_table_chunk_sizes: &TableChunkSizes,
    create_events: Vec<PoolCompleted>,
) -> (r: Result<(), PersistError>)
    requires
        per_table_chunk_sizes.wf(),
    ensures
        final(store).tokens@ == apply_pool_completed(old(store).tokens@, create_events@),
        final(store).trades == old(store).trades,
        final(store).stakings == old(store).stakings,
        final(store).accounts == old(store).accounts,
        final(store).module_upgrades == old(store).module_upgrades,
        final(store).package_upgrades == old(store).package_upgrades,
        r is Ok,
{
    let chunk_size = get_config_table_chunk_size(
        "tokens",
        TOKEN_FIELD_COUNT,
        per_table_chunk_sizes,
    );
    let bounds = chunk_bounds(create_events.len(), chunk_size);
    let nb = bounds.len();
    let mut c: usize = 0;
    proof {
        assert(create_events@.subrange(0, 0) =~= Seq::<PoolCompleted>::empty());
    }
    while c < nb
        invariant
            nb == bounds@.len(),
            c <= nb,
            forall|i: int|
                0 <= i < nb ==> (#[trigger] bounds@[i]).0 < bounds@[i].1 <= create_events@.len(),
            forall|i: int| 1 <= i < nb ==> (#[trigger] bounds@[i]).0 == bounds@[i - 1].1,
            nb > 0 ==> bounds@[0].0 == 0,
            nb == 0 ==> create_events@.len() == 0,
            nb > 0 ==> bounds@[nb - 1].1 == create_events@.len(),
            store.tokens@ == apply_pool_completed(
                old(store).tokens@,
                create_events@.subrange(0, if c == 0 { 0 } else { bounds@[c - 1].1 as int }),
            ),
            store.trades == old(store).trades,
            store.stakings == old(store).stakings,
            store.accounts == old(store).accounts,
            store.module_upgrades == old(store).module_upgrades,
            store.package_upgrades == old(store).package_upgrades,
        decreases nb - c,
    {
        let (start, end) = bounds[c];
        proof {
            let a = create_events@.subrange(0, start as int);
            let b = create_events@.subrange(start as int, end as int);
            assert(create_events@.subrange(0, end as int) =~= a + b);
            lemma_apply_pool_completed_app(old(store).tokens@, a, b);
        }
        execute_pool_completed_events_sql(&mut store.tokens, &create_events, start, end);
        c = c + 1;
    }
    proof {
        assert(create_events@.subrange(0, create_events@.len() as int) =~= create_events@);
        if nb == 0 {
            assert(create_events@.subrange(0, 0) =~= create_events@);
        }
    }
    Ok(())
}

} // verus!
