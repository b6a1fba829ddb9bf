//! Persistence of staking events against the staking table: position
//! creations are inserted if absent; reward claims accumulate into the
//! `claimed` counter, one update statement per record, in list order inside
//! a chunk's transaction; removals flip `is_removed`.  A claim that would
//! push the counter out of its 64-bit column range fails its chunk, the
//! chunk's transaction rolls back, and the other chunks still apply.

use vstd::prelude::*;

use crate::chunking::chunk_bounds;
use crate::chunking::get_config_table_chunk_size;
use crate::chunking::spec_chunk_size;
use crate::chunking::TableChunkSizes;
use crate::errors::EntityKind;
use crate::errors::PersistError;
use crate::errors::StoreError;
use crate::rows::contains_key;
use crate::rows::insert_row;
use crate::rows::insert_rows;
use crate::rows::lemma_insert_rows_app;
use crate::rows::lemma_insert_rows_idempotent;
use crate::stakings::staking_key;
use crate::stakings::RewardClaimed;
use crate::stakings::Staking;
use crate::stakings::StakingRemoved;
use crate::stakings::STAKING_FIELD_COUNT;
use crate::store::Store;

verus! {

/// Table effect of inserting `items` if absent, in order, keyed by the
/// position address.
pub open spec fn spec_insert_stakings(rows: Seq<Staking>, items: Seq<Staking>) -> Seq<Staking> {
    insert_rows(rows, |s: Staking| staking_key(s), items)
}

/// Applying the same position-creation list twice leaves exactly the row
/// set that applying it once leaves.
pub proof fn lemma_staking_insert_idempotent(rows: Seq<Staking>, items: Seq<Staking>)
    ensures
        spec_insert_stakings(spec_insert_stakings(rows, items), items) == spec_insert_stakings(
            rows,
            items,
        ),
{
    lemma_insert_rows_idempotent(rows, |s: Staking| staking_key(s), items);
}

/// Whether the staking table already has a row under `item`'s position
/// address.
fn stakings_contain_key(rows: &Vec<Staking>, item: &Staking) -> (r: bool)
    ensures
        r == contains_key(rows@, |s: Staking| staking_key(s), staking_key(*item)),
{
    let n = rows.len();
    let mut k: usize = 0;
    while k < n
        invariant
            k <= n,
            n == rows@.len(),
            forall|i: int| 0 <= i < k ==> staking_key(#[trigger] rows@[i]) != staking_key(*item),
        decreases n - k,
    {
        if rows[k].position_addr == item.position_addr {
            return true;
        }
        k = k + 1;
    }
    false
}

/// One chunk's multi-row insert-if-absent statement over
/// `items[start..end]`, applied atomically; a creation insert cannot fail.
fn execute_position_created_events_sql(
    rows: &mut Vec<Staking>,
    items: &Vec<Staking>,
    start: usize,
    end: usize,
)
    requires
        start <= end <= items@.len(),
    ensures
        final(rows)@ == spec_insert_stakings(old(rows)@, items@.subrange(start as int, end as int)),
{
    let ghost key = |s: Staking| staking_key(s);
    let mut j: usize = start;
    proof {
        assert(items@.subrange(start as int, start as int) =~= Seq::<Staking>::empty());
    }
    while j < end
        invariant
            start <= j <= end <= items@.len(),
            rows@ == insert_rows(old(rows)@, key, items@.subrange(start as int, j as int)),
            key == (|s: Staking| staking_key(s)),
        decreases end - j,
    {
        proof {
            let a = items@.subrange(start as int, j as int);
            let b = seq![items@[j as int]];
            assert(items@.subrange(start as int, j as int + 1) =~= a + b);
            lemma_insert_rows_app(old(rows)@, key, a, b);
            assert(b.skip(1) =~= Seq::<Staking>::empty());
            let r1 = insert_row(rows@, key, b[0]);
            assert(insert_rows(r1, key, b.skip(1)) == r1);
            assert(insert_rows(rows@, key, b) == insert_rows(r1, key, b.skip(1)));
        }
        if !stakings_contain_key(rows, &items[j]) {
            rows.push(items[j].duplicate());
        }
        j = j + 1;
    }
}

/// Persists one batch of position-creation rows: bounded chunks of atomic
/// multi-row insert-if-absent statements.  Creation inserts cannot fail.
pub fn process_position_created_events(
    store: &mut Store,
    per_table_chunk_sizes: &TableChunkSizes,
    create_events: Vec<Staking>,
) -> (r: Result<(), PersistError>)
    requires
        per_table_chunk_sizes.wf(),
    ensures
        final(store).stakings@ == spec_insert_stakings(old(store).stakings@, create_events@),
        final(store).tokens == old(store).tokens,
        final(store).trades == old(store).trades,
        final(store).accounts == old(store).accounts,
        final(store).module_upgrades == old(store).module_upgrades,
        final(store).package_upgrades == old(store).package_upgrades,
        r is Ok,
{
    let ghost key = |s: Staking| staking_key(s);
    let chunk_size = get_config_table_chunk_size(
        "stakings",
        STAKING_FIELD_COUNT,
        per_table_chunk_sizes,
    );
    let bounds = chunk_bounds(create_events.len(), chunk_size);
    let nb = bounds.len();
    let mut c: usize = 0;
    proof {
        assert(create_events@.subrange(0, 0) =~= Seq::<Staking>::empty());
    }
    while c < nb
        invariant
            nb == bounds@.len(),
            c <= nb,
            forall|i: int|
                0 <= i < nb ==> (#[trigger] bounds@[i]).0 < bounds@[i].1 <= create_events@.len(),
            forall|i: int| 1 <= i < nb ==> (#[trigger] bounds@[i]).0 == bounds@[i - 1].1,
            nb > 0 ==> bounds@[0].0 == 0,
            nb == 0 ==> create_events@.len() == 0,
            nb > 0 ==> bounds@[nb - 1].1 == create_events@.len(),
            store.stakings@ == insert_rows(
                old(store).stakings@,
                key,
                create_events@.subrange(0, if c == 0 { 0 } else { bounds@[c - 1].1 as int }),
            ),
            store.tokens == old(store).tokens,
            store.trades == old(store).trades,
            store.accounts == old(store).accounts,
            store.module_upgrades == old(store).module_upgrades,
            store.package_upgrades == old(store).package_upgrades,
            key == (|s: Staking| staking_key(s)),
        decreases nb - c,
    {
        let (start, end) = bounds[c];
        proof {
            let a = create_events@.subrange(0, start as int);
            let b = create_events@.subrange(start as int, end as int);
            assert(create_events@.subrange(0, end as int) =~= a + b);
            lemma_insert_rows_app(old(store).stakings@, key, a, b);
        }
        execute_position_created_events_sql(&mut store.stakings, &create_events, start, end);
        c = c + 1;
    }
    proof {
        assert(create_events@.subrange(0, create_events@.len() as int) =~= create_events@);
        if nb == 0 {
            assert(create_events@.subrange(0, 0) =~= create_events@);
        }
    }
    Ok(())
}

/// Whether one claim's update of one row stays inside the 64-bit column.
pub open spec fn claim_row_ok(s: Staking, c: RewardClaimed) -> bool {
    s.position_addr@ == c.position_addr@ ==> i64::MIN <= s.claimed + c.amount <= i64::MAX
}

/// Effect of one claim on one row: a row under the claimed position gains
/// the claim's amount on its `claimed` counter.
pub open spec fn apply_reward_claimed_row(s: Staking, c: RewardClaimed) -> Staking {
    if s.position_addr@ == c.position_addr@ {
        Staking { claimed: (s.claimed + c.amount) as i64, ..s }
    } else {
        s
    }
}

pub open spec fn claim_ok_rows(rows: Seq<Staking>, c: RewardClaimed) -> bool {
    forall|i: int| 0 <= i < rows.len() ==> claim_row_ok(#[trigger] rows[i], c)
}

/// Effect of one claim's update statement on the whole table.
pub open spec fn apply_reward_claimed_one(rows: Seq<Staking>, c: RewardClaimed) -> Seq<Staking> {
    rows.map_values(|s: Staking| apply_reward_claimed_row(s, c))
}

/// Effect of a claim list applied in list order, later claims observing
/// earlier claims' accumulation.
pub open spec fn apply_reward_claimed(rows: Seq<Staking>, items: Seq<RewardClaimed>) -> Seq<
    Staking,
>
    decreases items.len(),
{
    if items.len() == 0 {
        rows
    } else {
        apply_reward_claimed(apply_reward_claimed_one(rows, items[0]), items.skip(1))
    }
}

/// Whether every claim of the list, applied in order, keeps every counter it
/// touches in range.
pub open spec fn claims_ok(rows: Seq<Staking>, items: Seq<RewardClaimed>) -> bool
    decreases items.len(),
{
    if items.len() == 0 {
        true
    } else {
        claim_ok_rows(rows, items[0]) && claims_ok(
            apply_reward_claimed_one(rows, items[0]),
            items.skip(1),
        )
    }
}

pub proof fn lemma_apply_reward_claimed_app(
    rows: Seq<Staking>,
    a: Seq<RewardClaimed>,
    b: Seq<RewardClaimed>,
)
    ensures
        apply_reward_claimed(rows, a + b) == apply_reward_claimed(
            apply_reward_claimed(rows, a),
            b,
        ),
        claims_ok(rows, a + b) <==> claims_ok(rows, a) && claims_ok(
            apply_reward_claimed(rows, a),
            b,
        ),
    decreases a.len(),
{
    if a.len() == 0 {
        assert(a + b =~= b);
    } else {
        assert((a + b)[0] == a[0]);
        assert((a + b).skip(1) =~= a.skip(1) + b);
        lemma_apply_reward_claimed_app(apply_reward_claimed_one(rows, a[0]), a.skip(1), b);
    }
}

/// One chunk's transaction over `items[start..end]`: one update statement
/// per claim, in list order.  On a counter overflow the whole transaction
/// rolls back and the table is untouched.
fn execute_reward_claimed_events_sql(
    rows: &mut Vec<Staking>,
    items: &Vec<RewardClaimed>,
    start: usize,
    end: usize,
) -> (r: Result<(), StoreError>)
    requires
        start <= end <= items@.len(),
    ensures
        r is Ok ==> final(rows)@ == apply_reward_claimed(
            old(rows)@,
            items@.subrange(start as int, end as int),
        ) && claims_ok(old(rows)@, items@.subrange(start as int, end as int)),
        r is Err ==> final(rows)@ == old(rows)@ && !claims_ok(
            old(rows)@,
            items@.subrange(start as int, end as int),
        ) && (r matches Err(e) && e == StoreError::CounterOverflow),
{
    let mut work: Vec<Staking> = Vec::new();
    let n = rows.len();
    let mut idx: usize = 0;
    while idx < n
        invariant
            idx <= n,
            n == rows@.len(),
            work@ =~= rows@.take(idx as int),
        decreases n - idx,
    {
        work.push(rows[idx].duplicate());
        proof {
            assert(work@ =~= rows@.take(idx as int + 1));
        }
        idx = idx + 1;
    }
    proof {
        assert(rows@.take(n as int) =~= rows@);
    }
    let mut j: usize = start;
    proof {
        assert(items@.subrange(start as int, start as int) =~= Seq::<RewardClaimed>::empty());
    }
    while j < end
        invariant
            start <= j <= end <= items@.len(),
            rows@ == old(rows)@,
            work@ == apply_reward_claimed(
                old(rows)@,
                items@.subrange(start as int, j as int),
            ),
            claims_ok(old(rows)@, items@.subrange(start as int, j as int)),
        decreases end - j,
    {
        let ghost aprev = items@.subrange(start as int, j as int);
        let ghost work0 = work@;
        let ghost cg = items@[j as int];
        let m = work.len();
        let mut k: usize = 0;
        while k < m
            invariant
                k <= m,
                m == work@.len() == work0.len(),
                start <= j < end <= items@.len(),
                cg == items@[j as int],
                aprev == items@.subrange(start as int, j as int),
                work0 == apply_reward_claimed(old(rows)@, aprev),
                claims_ok(old(rows)@, aprev),
                rows@ == old(rows)@,
                forall|i: int|
                    0 <= i < k ==> work@[i] == apply_reward_claimed_row(
                        #[trigger] work0[i],
                        cg,
                    ),
                forall|i: int| 0 <= i < k ==> claim_row_ok(#[trigger] work0[i], cg),
                forall|i: int| k <= i < m ==> work@[i] == work0[i],
            decreases m - k,
        {
            if work[k].position_addr == items[j].position_addr {
                match work[k].claimed.checked_add(items[j].amount) {
                    Some(v) => {
                        work[k].claimed = v;
                        proof {
                            assert(work@[k as int] == apply_reward_claimed_row(
                                work0[k as int],
                                cg,
                            ));
                        }
                    },
                    None => {
                        proof {
                            assert(!claim_row_ok(work0[k as int], cg));
                            assert(!claim_ok_rows(work0, cg));
                            let rest = items@.subrange(j as int, end as int);
                            assert(rest[0] == cg);
                            assert(!claims_ok(work0, rest));
                            let whole = items@.subrange(start as int, end as int);
                            assert(whole =~= aprev + rest);
                            lemma_apply_reward_claimed_app(old(rows)@, aprev, rest);
                        }
                        return Err(StoreError::CounterOverflow);
                    },
                }
            } else {
                proof {
                    assert(work@[k as int] == apply_reward_claimed_row(work0[k as int], cg));
                }
            }
            k = k + 1;
        }
        proof {
            assert(work@ =~= apply_reward_claimed_one(work0, cg));
            assert(claim_ok_rows(work0, cg));
            let b = seq![cg];
            assert(items@.subrange(start as int, j as int + 1) =~= aprev + b);
            lemma_apply_reward_claimed_app(old(rows)@, aprev, b);
            assert(b.skip(1) =~= Seq::<RewardClaimed>::empty());
            let r1 = apply_reward_claimed_one(work0, b[0]);
            assert(apply_reward_claimed(r1, b.skip(1)) == r1);
            assert(apply_reward_claimed(work0, b) == apply_reward_claimed(r1, b.skip(1)));
            assert(b[0] == cg);
            assert(b.skip(1).len() == 0);
            assert(claims_ok(r1, b.skip(1)));
            assert(claims_ok(work0, b));
        }
        j = j + 1;
    }
    *rows = work;
    Ok(())
}

/// Table effect of a claim list partitioned into chunks of `sz`: each chunk
/// whose counters all stay in range commits; a chunk with an overflow rolls
/// back and the later chunks still apply.
pub open spec fn apply_reward_claimed_chunked(
    rows: Seq<Staking>,
    items: Seq<RewardClaimed>,
    sz: int,
) -> Seq<Staking>
    decreases items.len(),
{
    if sz <= 0 || items.len() == 0 {
        rows
    } else {
        let l = if sz <= items.len() {
            sz
        } else {
            items.len() as int
        };
        let chunk = items.take(l);
        let rows2 = if claims_ok(rows, chunk) {
            apply_reward_claimed(rows, chunk)
        } else {
            rows
        };
        apply_reward_claimed_chunked(rows2, items.skip(l), sz)
    }
}

/// Whether every chunk of the claim list commits.
pub open spec fn claims_all_chunks_ok(rows: Seq<Staking>, items: Seq<RewardClaimed>, sz: int) -> bool
    decreases items.len(),
{
    if sz <= 0 || items.len() == 0 {
        true
    } else {
        let l = if sz <= items.len() {
            sz
        } else {
            items.len() as int
        };
        let chunk = items.take(l);
        claims_ok(rows, chunk) && claims_all_chunks_ok(
            apply_reward_claimed(rows, chunk),
            items.skip(l),
            sz,
        )
    }
}

/// When every chunk commits, the chunk partition is invisible: the table
/// ends exactly as if the whole claim list had run in one transaction.
pub proof fn lemma_claims_chunked_complete(rows: Seq<Staking>, items: Seq<RewardClaimed>, sz: int)
    requires
        sz >= 1,
        claims_all_chunks_ok(rows, items, sz),
    ensures
        apply_reward_claimed_chunked(rows, items, sz) == apply_reward_claimed(rows, items),
        claims_ok(rows, items),
    decreases items.len(),
{
    if items.len() > 0 {
        let l = if sz <= items.len() {
            sz
        } else {
            items.len() as int
        };
        let chunk = items.take(l);
        let rest = items.skip(l);
        lemma_claims_chunked_complete(apply_reward_claimed(rows, chunk), rest, sz);
        assert(items =~= chunk + rest);
        lemma_apply_reward_claimed_app(rows, chunk, rest);
    }
}

/// Persists one batch of reward claims: bounded chunks, one transaction per
/// chunk, one update statement per claim inside it, later claims observing
/// earlier ones.  Every chunk is attempted; the call fails if any chunk's
/// transaction failed, while the chunks that committed remain committed.
pub fn process_reward_claimed_events(
    store: &mut Store,
    per_table_chunk_sizes: &TableChunkSizes,
    create_events: Vec<RewardClaimed>,
) -> (r: Result<(), PersistError>)
    requires
        per_table_chunk_sizes.wf(),
    ensures
        final(store).stakings@ == apply_reward_claimed_chunked(
            old(store).stakings@,
            create_events@,
            spec_chunk_size(*per_table_chunk_sizes, "stakings"@, STAKING_FIELD_COUNT) as int,
        ),
        r is Ok <==> claims_all_chunks_ok(
            old(store).stakings@,
            create_events@,
            spec_chunk_size(*per_table_chunk_sizes, "stakings"@, STAKING_FIELD_COUNT) as int,
        ),
        r matches Err(e) ==> e == (PersistError {
            kind: EntityKind::RewardClaims,
            cause: StoreError::CounterOverflow,
        }),
        final(store).tokens == old(store).tokens,
        final(store).trades == old(store).trades,
        final(store).accounts == old(store).accounts,
        final(store).module_upgrades == old(store).module_upgrades,
        final(store).package_upgrades == old(store).package_upgrades,
{
    let chunk_size = get_config_table_chunk_size(
        "stakings",
        STAKING_FIELD_COUNT,
        per_table_chunk_sizes,
    );
    let ghost sz = chunk_size as int;
    let bounds = chunk_bounds(create_events.len(), chunk_size);
    let nb = bounds.len();
    let mut failed = false;
    let mut c: usize = 0;
    proof {
        assert(create_events@.skip(0) =~= create_events@);
    }
    while c < nb
        invariant
            nb == bounds@.len(),
            c <= nb,
            sz == chunk_size as int,
            chunk_size > 0,
            forall|i: int|
                0 <= i < nb ==> (#[trigger] bounds@[i]).0 == i * chunk_size && bounds@[i].1 == (
                if i * chunk_size + chunk_size <= create_events@.len() {
                    i * chunk_size + chunk_size
                } else {
                    create_events@.len() as int
                }),
            forall|i: int|
                0 <= i < nb ==> (#[trigger] bounds@[i]).0 < bounds@[i].1 <= create_events@.len(),
            forall|i: int| 1 <= i < nb ==> (#[trigger] bounds@[i]).0 == bounds@[i - 1].1,
            nb > 0 ==> bounds@[0].0 == 0,
            nb == 0 ==> create_events@.len() == 0,
            nb > 0 ==> bounds@[nb - 1].1 == create_events@.len(),
            apply_reward_claimed_chunked(old(store).stakings@, create_events@, sz)
                == apply_reward_claimed_chunked(
                store.stakings@,
                create_events@.skip(if c == 0 { 0 } else { bounds@[c - 1].1 as int }),
                sz,
            ),
            claims_all_chunks_ok(old(store).stakings@, create_events@, sz) <==> (!failed
                && claims_all_chunks_ok(
                store.stakings@,
                create_events@.skip(if c == 0 { 0 } else { bounds@[c - 1].1 as int }),
                sz,
            )),
            store.tokens == old(store).tokens,
            store.trades == old(store).trades,
            store.accounts == old(store).accounts,
            store.module_upgrades == old(store).module_upgrades,
            store.package_upgrades == old(store).package_upgrades,
        decreases nb - c,
    {
        let (start, end) = bounds[c];
        let ghost pre = store.stakings@;
        let ghost remaining = create_events@.skip(start as int);
        proof {
            assert(start == if c == 0 { 0 } else { bounds@[c - 1].1 as int });
            assert(remaining.len() == create_events@.len() - start);
            let l = if sz <= remaining.len() {
                sz
            } else {
                remaining.len() as int
            };
            assert(end == start + l);
            assert(remaining.take(l) =~= create_events@.subrange(start as int, end as int));
            assert(remaining.skip(l) =~= create_events@.skip(end as int));
        }
        let res = execute_reward_claimed_events_sql(&mut store.stakings, &create_events, start, end);
        if res.is_err() {
            failed = true;
        }
        c = c + 1;
    }
    proof {
        let done = if nb == 0 {
            0
        } else {
            bounds@[nb - 1].1 as int
        };
        assert(done == create_events@.len());
        assert(create_events@.skip(done) =~= Seq::<RewardClaimed>::empty());
    }
    if failed {
        Err(PersistError { kind: EntityKind::RewardClaims, cause: StoreError::CounterOverflow })
    } else {
        Ok(())
    }
}

/// Effect of one removal on one row: a row under the removed position gets
/// `is_removed = true`; every other row is untouched.
pub open spec fn apply_position_removed_row(s: Staking, c: StakingRemoved) -> Staking {
    if s.position_addr@ == c.position_addr@ {
        Staking { is_removed: true, ..s }
    } else {
        s
    }
}

/// Effect of one removal's update statement on the whole table.
pub open spec fn apply_position_removed_one(rows: Seq<Staking>, c: StakingRemoved) -> Seq<
    Staking,
> {
    rows.map_values(|s: Staking| apply_position_removed_row(s, c))
}

/// Effect of a removal list, applied in list order.
pub open spec fn apply_position_removed(rows: Seq<Staking>, items: Seq<StakingRemoved>) -> Seq<
    Staking,
>
    decreases items.len(),
{
    if items.len() == 0 {
        rows
    } else {
        apply_position_removed(apply_position_removed_one(rows, items[0]), items.skip(1))
    }
}

proof fn lemma_apply_position_removed_app(
    rows: Seq<Staking>,
    a: Seq<StakingRemoved>,
    b: Seq<StakingRemoved>,
)
    ensures
        apply_position_removed(rows, a + b) == apply_position_removed(
            apply_position_removed(rows, a),
            b,
        ),
    decreases a.len(),
{
    if a.len() == 0 {
        assert(a + b =~= b);
    } else {
        assert((a + b)[0] == a[0]);
        assert((a + b).skip(1) =~= a.skip(1) + b);
        lemma_apply_position_removed_app(apply_position_removed_one(rows, a[0]), a.skip(1), b);
    }
}

/// One chunk's transaction over `items[start..end]`: one update statement
/// per removal, in list order; flipping a flag cannot fail.
fn execute_position_removed_events_sql(
    rows: &mut Vec<Staking>,
    items: &Vec<StakingRemoved>,
    start: usize,
    end: usize,
)
    requires
        start <= end <= items@.len(),
    ensures
        final(rows)@ == apply_position_removed(
            old(rows)@,
            items@.subrange(start as int, end as int),
        ),
{
    let mut j: usize = start;
    proof {
        assert(items@.subrange(start as int, start as int) =~= Seq::<StakingRemoved>::empty());
    }
    while j < end
        invariant
            start <= j <= end <= items@.len(),
            rows@ == apply_position_removed(old(rows)@, items@.subrange(start as int, j as int)),
        decreases end - j,
    {
        proof {
            let a = items@.subrange(start as int, j as int);
            let b = seq![items@[j as int]];
            assert(items@.subrange(start as int, j as int + 1) =~= a + b);
            lemma_apply_position_removed_app(old(rows)@, a, b);
            assert(b.skip(1) =~= Seq::<StakingRemoved>::empty());
            let r1 = apply_position_removed_one(rows@, b[0]);
            assert(apply_position_removed(r1, b.skip(1)) == r1);
            assert(apply_position_removed(rows@, b) == apply_position_removed(r1, b.skip(1)));
        }
        let ghost rows0 = rows@;
        let ghost cg = items@[j as int];
        let n = rows.len();
        let mut k: usize = 0;
        while k < n
            invariant
                k <= n,
                n == rows@.len() == rows0.len(),
                cg == items@[j as int],
                j < items@.len(),
                forall|i: int|
                    0 <= i < k ==> rows@[i] == apply_position_removed_row(
                        #[trigger] rows0[i],
                        cg,
                    ),
                forall|i: int| k <= i < n ==> rows@[i] == rows0[i],
            decreases n - k,
        {
            if rows[k].position_addr == items[j].position_addr {
                rows[k].is_removed = true;
                proof {
                    assert(rows@[k as int] == apply_position_removed_row(rows0[k as int], cg));
                }
            }
            k = k + 1;
        }
        proof {
            assert(rows@ =~= apply_position_removed_one(rows0, cg));
        }
        j = j + 1;
    }
}

/// Persists one batch of position removals: bounded chunks, one transaction
/// per chunk, one update statement per removal inside it.  Removal merges
/// cannot fail.
pub fn process_position_removed_events(
    store: &mut Store,
    per_table_chunk_sizes: &TableChunkSizes,
    create_events: Vec<StakingRemoved>,
) -> (r: Result<(), PersistError>)
    requires
        per_table_chunk_sizes.wf(),
    ensures
        final(store).stakings@ == apply_position_removed(old(store).stakings@, create_events@),
        final(store).tokens == old(store).tokens,
        final(store).trades == old(store).trades,
        final(store).accounts == old(store).accounts,
        final(store).module_upgrades == old(store).module_upgrades,
        final(store).package_upgrades == old(store).package_upgrades,
        r is Ok,
{
    let chunk_size = get_config_table_chunk_size(
        "stakings",
        STAKING_FIELD_COUNT,
        per_table_chunk_sizes,
    );
    let bounds = chunk_bounds(create_events.len(), chunk_size);
    let nb = bounds.len();
    let mut c: usize = 0;
    proof {
        assert(create_events@.subrange(0, 0) =~= Seq::<StakingRemoved>::empty());
    }
    while c < nb
        invariant
            nb == bounds@.len(),
            c <= nb,
            forall|i: int|
                0 <= i < nb ==> (#[trigger] bounds@[i]).0 < bounds@[i].1 <= create_events@.len(),
            forall|i: int| 1 <= i < nb ==> (#[trigger] bounds@[i]).0 == bounds@[i - 1].1,
            nb > 0 ==> bounds@[0].0 == 0,
            nb == 0 ==> create_events@.len() == 0,
            nb > 0 ==> bounds@[nb - 1].1 == create_events@.len(),
            store.stakings@ == apply_position_removed(
                old(store).stakings@,
                create_events@.subrange(0, if c == 0 { 0 } else { bounds@[c - 1].1 as int }),
            ),
            store.tokens == old(store).tokens,
            store.trades == old(store).trades,
            store.accounts == old(store).accounts,
            store.module_upgrades == old(store).module_upgrades,
            store.package_upgrades == old(store).package_upgrades,
        decreases nb - c,
    {
        let (start, end) = bounds[c];
        proof {
            let a = create_events@.subrange(0, start as int);
            let b = create_events@.subrange(start as int, end as int);
            assert(create_events@.subrange(0, end as int) =~= a + b);
            lemma_apply_position_removed_app(old(store).stakings@, a, b);
        }
        execute_position_removed_events_sql(&mut store.stakings, &create_events, start, end);
        c = c + 1;
    }
    proof {
        assert(create_events@.subrange(0, create_events@.len() as int) =~= create_events@);
        if nb == 0 {
            assert(create_events@.subrange(0, 0) =~= create_events@);
        }
    }
    Ok(())
}

/// Two sequential claims for the same position, processed in one chunk,
/// accumulate: the position's row gains the sum of both amounts, and no
/// other row changes.
pub proof fn lemma_reward_claims_accumulate(
    rows: Seq<Staking>,
    c1: RewardClaimed,
    c2: RewardClaimed,
    j: int,
)
    requires
        c1.position_addr@ == c2.position_addr@,
        0 <= j < rows.len(),
        rows[j].position_addr@ == c1.position_addr@,
        claims_ok(rows, seq![c1, c2]),
    ensures
        apply_reward_claimed(rows, seq![c1, c2]).len() == rows.len(),
        apply_reward_claimed(rows, seq![c1, c2])[j].claimed == rows[j].claimed + c1.amount
            + c2.amount,
        forall|i: int|
            0 <= i < rows.len() && (#[trigger] rows[i]).position_addr@ != c1.position_addr@
                ==> apply_reward_claimed(rows, seq![c1, c2])[i] == rows[i],
{
    let two = seq![c1, c2];
    let rows1 = apply_reward_claimed_one(rows, c1);
    assert(two.skip(1) =~= seq![c2]);
    let one = seq![c2];
    assert(one.skip(1) =~= Seq::<RewardClaimed>::empty());
    let rows2 = apply_reward_claimed_one(rows1, c2);
    assert(apply_reward_claimed(rows1, one) == apply_reward_claimed(rows2, one.skip(1)));
    assert(apply_reward_claimed(rows, two) == rows2);
    assert(claims_ok(rows, two));
    assert(claim_ok_rows(rows, c1));
    assert(claims_ok(rows1, two.skip(1)));
    assert(claim_ok_rows(rows1, c2));
    assert(rows1[j] == apply_reward_claimed_row(rows[j], c1));
    assert(rows2[j] == apply_reward_claimed_row(rows1[j], c2));
    assert(claim_row_ok(rows[j], c1));
    assert(claim_row_ok(rows1[j], c2));
}

} // verus!
