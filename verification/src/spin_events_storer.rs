//! Persistence of spin events against the account table.  A spin whose
//! win-type code is the experience win accumulates its narrowed amount into
//! the claimer's `xp` and `xp_earned` counters, one update statement per
//! record, in list order inside a chunk's transaction; every other win-type
//! code mutates nothing.  A spin whose update would push a counter out of
//! its 32-bit column range fails its chunk; the chunk rolls back and the
//! other chunks still apply.  Every spin of a committed chunk queues one
//! outbound notification.

use vstd::prelude::*;

use crate::accounts::Account;
use crate::accounts::Spin;
use crate::accounts::ACCOUNT_FIELD_COUNT;
use crate::accounts::XP_WIN_TYPE;
use crate::chunking::chunk_bounds;
use crate::chunking::get_config_table_chunk_size;
use crate::chunking::spec_chunk_size;
use crate::chunking::TableChunkSizes;
use crate::errors::EntityKind;
use crate::errors::PersistError;
use crate::errors::StoreError;
use crate::notifier::Notification;
use crate::numeric::narrowed_xp;
use crate::numeric::spec_narrowed_xp;
use crate::store::Store;

verus! {

/// Whether one spin's update of one row stays inside the 32-bit columns.
pub open spec fn spin_row_ok(a: Account, s: Spin) -> bool {
    (s.win_type == XP_WIN_TYPE && a.address@ == s.claimer@) ==> (i32::MIN <= a.xp
        + spec_narrowed_xp(s.amount) <= i32::MAX && i32::MIN <= a.xp_earned + spec_narrowed_xp(
        s.amount,
    ) <= i32::MAX)
}

/// Effect of one spin on one row: an experience win adds its narrowed
/// amount to the claimer's counters; any other outcome changes nothing.
pub open spec fn apply_spin_row(a: Account, s: Spin) -> Account {
    if s.win_type == XP_WIN_TYPE && a.address@ == s.claimer@ {
        Account {
            xp: (a.xp + spec_narrowed_xp(s.amount)) as i32,
            xp_earned: (a.xp_earned + spec_narrowed_xp(s.amount)) as i32,
            ..a
        }
    } else {
        a
    }
}

pub open spec fn spin_ok_rows(rows: Seq<Account>, s: Spin) -> bool {
    forall|i: int| 0 <= i < rows.len() ==> spin_row_ok(#[trigger] rows[i], s)
}

/// Effect of one spin's update statement on the whole table.
pub open spec fn apply_spin_one(rows: Seq<Account>, s: Spin) -> Seq<Account> {
    rows.map_values(|a: Account| apply_spin_row(a, s))
}

/// Effect of a spin list applied in list order.
pub open spec fn apply_spins(rows: Seq<Account>, items: Seq<Spin>) -> Seq<Account>
    decreases items.len(),
{
    if items.len() == 0 {
        rows
    } else {
        apply_spins(apply_spin_one(rows, items[0]), items.skip(1))
    }
}

/// Whether every spin of the list, applied in order, keeps every counter it
/// touches in range.
pub open spec fn spins_ok(rows: Seq<Account>, items: Seq<Spin>) -> bool
    decreases items.len(),
{
    if items.len() == 0 {
        true
    } else {
        spin_ok_rows(rows, items[0]) && spins_ok(apply_spin_one(rows, items[0]), items.skip(1))
    }
}

pub proof fn lemma_apply_spins_app(rows: Seq<Account>, a: Seq<Spin>, b: Seq<Spin>)
    ensures
        apply_spins(rows, a + b) == apply_spins(apply_spins(rows, a), b),
        spins_ok(rows, a + b) <==> spins_ok(rows, a) && spins_ok(apply_spins(rows, a), b),
    decreases a.len(),
{
    if a.len() == 0 {
        assert(a + b =~= b);
    } else {
        assert((a + b)[0] == a[0]);
        assert((a + b).skip(1) =~= a.skip(1) + b);
        lemma_apply_spins_app(apply_spin_one(rows, a[0]), a.skip(1), b);
    }
}

/// One chunk's transaction over `items[start..end]`: one conditional update
/// statement per spin, in list order.  On a counter overflow the whole
/// transaction rolls back and the table is untouched.
fn execute_spin_events_sql(
    rows: &mut Vec<Account>,
    items: &Vec<Spin>,
    start: usize,
    end: usize,
) -> (r: Result<(), StoreError>)
    requires
        start <= end <= items@.len(),
    ensures
        r is Ok ==> final(rows)@ == apply_spins(
            old(rows)@,
            items@.subrange(start as int, end as int),
        ) && spins_ok(old(rows)@, items@.subrange(start as int, end as int)),
        r is Err ==> final(rows)@ == old(rows)@ && !spins_ok(
            old(rows)@,
            items@.subrange(start as int, end as int),
        ) && (r matches Err(e) && e == StoreError::CounterOverflow),
{
    let mut work: Vec<Account> = Vec::new();
    let n = rows.len();
    let mut idx: usize = 0;
    while idx < n
        invariant
            idx <= n,
            n == rows@.len(),
            work@ =~= rows@.take(idx as int),
        decreases n - idx,
    {
        work.push(rows[idx].duplicate());
        proof {
            assert(work@ =~= rows@.take(idx as int + 1));
        }
        idx = idx + 1;
    }
    proof {
        assert(rows@.take(n as int) =~= rows@);
    }
    let mut j: usize = start;
    proof {
        assert(items@.subrange(start as int, start as int) =~= Seq::<Spin>::empty());
    }
    while j < end
        invariant
            start <= j <= end <= items@.len(),
            rows@ == old(rows)@,
            work@ == apply_spins(old(rows)@, items@.subrange(start as int, j as int)),
            spins_ok(old(rows)@, items@.subrange(start as int, j as int)),
        decreases end - j,
    {
        let ghost aprev = items@.subrange(start as int, j as int);
        let ghost work0 = work@;
        let ghost cg = items@[j as int];
        if items[j].win_type == XP_WIN_TYPE {
            let delta = narrowed_xp(items[j].amount);
            let m = work.len();
            let mut k: usize = 0;
            while k < m
                invariant
                    k <= m,
                    m == work@.len() == work0.len(),
                    start <= j < end <= items@.len(),
                    cg == items@[j as int],
                    cg.win_type == XP_WIN_TYPE,
                    delta == spec_narrowed_xp(cg.amount),
                    aprev == items@.subrange(start as int, j as int),
                    work0 == apply_spins(old(rows)@, aprev),
                    spins_ok(old(rows)@, aprev),
                    rows@ == old(rows)@,
                    forall|i: int|
                        0 <= i < k ==> work@[i] == apply_spin_row(#[trigger] work0[i], cg),
                    forall|i: int| 0 <= i < k ==> spin_row_ok(#[trigger] work0[i], cg),
                    forall|i: int| k <= i < m ==> work@[i] == work0[i],
                decreases m - k,
            {
                if work[k].address == items[j].claimer {
                    let v1 = match work[k].xp.checked_add(delta) {
                        Some(v) => v,
                        None => {
                            proof {
                                assert(!spin_row_ok(work0[k as int], cg));
                                assert(!spin_ok_rows(work0, cg));
                                let rest = items@.subrange(j as int, end as int);
                                assert(rest[0] == cg);
                                assert(!spins_ok(work0, rest));
                                let whole = items@.subrange(start as int, end as int);
                                assert(whole =~= aprev + rest);
                                lemma_apply_spins_app(old(rows)@, aprev, rest);
                            }
                            return Err(StoreError::CounterOverflow);
                        },
                    };
                    let v2 = match work[k].xp_earned.checked_add(delta) {
                        Some(v) => v,
                        None => {
                            proof {
                                assert(!spin_row_ok(work0[k as int], cg));
                                assert(!spin_ok_rows(work0, cg));
                                let rest = items@.subrange(j as int, end as int);
                                assert(rest[0] == cg);
                                assert(!spins_ok(work0, rest));
                                let whole = items@.subrange(start as int, end as int);
                                assert(whole =~= aprev + rest);
                                lemma_apply_spins_app(old(rows)@, aprev, rest);
                            }
                            return Err(StoreError::CounterOverflow);
                        },
                    };
                    work[k].xp = v1;
                    work[k].xp_earned = v2;
                    proof {
                        assert(work@[k as int] == apply_spin_row(work0[k as int], cg));
                    }
                } else {
                    proof {
                        assert(work@[k as int] == apply_spin_row(work0[k as int], cg));
                    }
                }
                k = k + 1;
            }
        } else {
            proof {
                assert(forall|i: int|
                    0 <= i < work0.len() ==> apply_spin_row(#[trigger] work0[i], cg) == work0[i]);
                assert(forall|i: int| 0 <= i < work0.len() ==> spin_row_ok(#[trigger] work0[i], cg));
            }
        }
        proof {
            assert(work@ =~= apply_spin_one(work0, cg));
            assert(spin_ok_rows(work0, cg));
            let b = seq![cg];
            assert(items@.subrange(start as int, j as int + 1) =~= aprev + b);
            lemma_apply_spins_app(old(rows)@, aprev, b);
            assert(b.skip(1) =~= Seq::<Spin>::empty());
            let r1 = apply_spin_one(work0, b[0]);
            assert(apply_spins(r1, b.skip(1)) == r1);
            assert(apply_spins(work0, b) == apply_spins(r1, b.skip(1)));
            assert(b[0] == cg);
            assert(b.skip(1).len() == 0);
            assert(spins_ok(r1, b.skip(1)));
            assert(spins_ok(work0, b));
        }
        j = j + 1;
    }
    *rows = work;
    Ok(())
}

/// Table effect of a spin list partitioned into chunks of `sz`: each chunk
/// whose counters all stay in range commits; a chunk with an overflow rolls
/// back and the later chunks still apply.
pub open spec fn apply_spins_chunked(rows: Seq<Account>, items: Seq<Spin>, sz: int) -> Seq<Account>
    decreases items.len(),
{
    if sz <= 0 || items.len() == 0 {
        rows
    } else {
        let l = if sz <= items.len() {
            sz
        } else {
            items.len() as int
        };
        let chunk = items.take(l);
        let rows2 = if spins_ok(rows, chunk) {
            apply_spins(rows, chunk)
        } else {
            rows
        };
        apply_spins_chunked(rows2, items.skip(l), sz)
    }
}

/// Whether every chunk of the spin list commits.
pub open spec fn spins_all_chunks_ok(rows: Seq<Account>, items: Seq<Spin>, sz: int) -> bool
    decreases items.len(),
{
    if sz <= 0 || items.len() == 0 {
        true
    } else {
        let l = if sz <= items.len() {
            sz
        } else {
            items.len() as int
        };
        let chunk = items.take(l);
        spins_ok(rows, chunk) && spins_all_chunks_ok(apply_spins(rows, chunk), items.skip(l), sz)
    }
}

/// Notification requests owed for one committed chunk list: one per spin,
/// in list order, whatever its win-type code.
pub open spec fn spin_notifications_of(items: Seq<Spin>) -> Seq<Notification> {
    Seq::new(items.len(), |i: int| Notification::SpinWin { spin: items[i] })
}

/// Notification requests owed for the whole spin list: the spins of every
/// chunk that committed, in order; a rolled-back chunk notifies nothing.
pub open spec fn spin_notifications_chunked(rows: Seq<Account>, items: Seq<Spin>, sz: int) -> Seq<
    Notification,
>
    decreases items.len(),
{
    if sz <= 0 || items.len() == 0 {
        Seq::<Notification>::empty()
    } else {
        let l = if sz <= items.len() {
            sz
        } else {
            items.len() as int
        };
        let chunk = items.take(l);
        let here = if spins_ok(rows, chunk) {
            spin_notifications_of(chunk)
        } else {
            Seq::<Notification>::empty()
        };
        let rows2 = if spins_ok(rows, chunk) {
            apply_spins(rows, chunk)
        } else {
            rows
        };
        here + spin_notifications_chunked(rows2, items.skip(l), sz)
    }
}

/// When every chunk commits, the chunk partition is invisible: the table
/// ends exactly as if the whole spin list had run in one transaction.
pub proof fn lemma_spins_chunked_complete(rows: Seq<Account>, items: Seq<Spin>, sz: int)
    requires
        sz >= 1,
        spins_all_chunks_ok(rows, items, sz),
    ensures
        apply_spins_chunked(rows, items, sz) == apply_spins(rows, items),
        spins_ok(rows, items),
    decreases items.len(),
{
    if items.len() > 0 {
        let l = if sz <= items.len() {
            sz
        } else {
            items.len() as int
        };
        let chunk = items.take(l);
        let rest = items.skip(l);
        lemma_spins_chunked_complete(apply_spins(rows, chunk), rest, sz);
        assert(items =~= chunk + rest);
        lemma_apply_spins_app(rows, chunk, rest);
    }
}

/// When every chunk commits, exactly one notification is owed per spin of
/// the whole list, in list order.
pub proof fn lemma_spin_notifications_complete(rows: Seq<Account>, items: Seq<Spin>, sz: int)
    requires
        sz >= 1,
        spins_all_chunks_ok(rows, items, sz),
    ensures
        spin_notifications_chunked(rows, items, sz) == spin_notifications_of(items),
    decreases items.len(),
{
    if items.len() == 0 {
        assert(spin_notifications_chunked(rows, items, sz) =~= spin_notifications_of(items));
    } else {
        let l = if sz <= items.len() {
            sz
        } else {
            items.len() as int
        };
        let chunk = items.take(l);
        let rest = items.skip(l);
        lemma_spin_notifications_complete(apply_spins(rows, chunk), rest, sz);
        assert(spin_notifications_of(chunk) + spin_notifications_of(rest)
            =~= spin_notifications_of(items));
    }
}

/// Persists one batch of spins: bounded chunks, one transaction per chunk,
/// one conditional update statement per spin inside it.  Every chunk is
/// attempted; the result is the notification list of the committed chunks,
/// together with failure if any chunk's transaction failed.
pub fn process_spin_events(
    store: &mut Store,
    per_table_chunk_sizes: &TableChunkSizes,
    create_events: Vec<Spin>,
) -> (r: (Vec<Notification>, Result<(), PersistError>))
    requires
        per_table_chunk_sizes.wf(),
    ensures
        final(store).accounts@ == apply_spins_chunked(
            old(store).accounts@,
            create_events@,
            spec_chunk_size(*per_table_chunk_sizes, "accounts"@, ACCOUNT_FIELD_COUNT) as int,
        ),
        r.0@ == spin_notifications_chunked(
            old(store).accounts@,
            create_events@,
            spec_chunk_size(*per_table_chunk_sizes, "accounts"@, ACCOUNT_FIELD_COUNT) as int,
        ),
        r.1 is Ok <==> spins_all_chunks_ok(
            old(store).accounts@,
            create_events@,
            spec_chunk_size(*per_table_chunk_sizes, "accounts"@, ACCOUNT_FIELD_COUNT) as int,
        ),
        r.1 matches Err(e) ==> e == (PersistError {
            kind: EntityKind::Spins,
            cause: StoreError::CounterOverflow,
        }),
        final(store).tokens == old(store).tokens,
        final(store).trades == old(store).trades,
        final(store).stakings == old(store).stakings,
        final(store).module_upgrades == old(store).module_upgrades,
        final(store).package_upgrades == old(store).package_upgrades,
{
    let chunk_size = get_config_table_chunk_size(
        "accounts",
        ACCOUNT_FIELD_COUNT,
        per_table_chunk_sizes,
    );
    let ghost sz = chunk_size as int;
    let bounds = chunk_bounds(create_events.len(), chunk_size);
    let nb = bounds.len();
    let mut notifications: Vec<Notification> = Vec::new();
    let mut failed = false;
    let mut c: usize = 0;
    proof {
        assert(create_events@.skip(0) =~= create_events@);
    }
    while c < nb
        invariant
            nb == bounds@.len(),
            c <= nb,
            sz == chunk_size as int,
            chunk_size > 0,
            forall|i: int|
                0 <= i < nb ==> (#[trigger] bounds@[i]).0 < bounds@[i].1 <= create_events@.len(),
            forall|i: int| 1 <= i < nb ==> (#[trigger] bounds@[i]).0 == bounds@[i - 1].1,
            nb > 0 ==> bounds@[0].0 == 0,
            nb == 0 ==> create_events@.len() == 0,
            nb > 0 ==> bounds@[nb - 1].1 == create_events@.len(),
            forall|i: int|
                0 <= i < nb ==> (#[trigger] bounds@[i]).0 == i * chunk_size && bounds@[i].1 == (
                if i * chunk_size + chunk_size <= create_events@.len() {
                    i * chunk_size + chunk_size
                } else {
                    create_events@.len() as int
                }),
            apply_spins_chunked(old(store).accounts@, create_events@, sz) == apply_spins_chunked(
                store.accounts@,
                create_events@.skip(if c == 0 { 0 } else { bounds@[c - 1].1 as int }),
                sz,
            ),
            spins_all_chunks_ok(old(store).accounts@, create_events@, sz) <==> (!failed
                && spins_all_chunks_ok(
                store.accounts@,
                create_events@.skip(if c == 0 { 0 } else { bounds@[c - 1].1 as int }),
                sz,
            )),
            spin_notifications_chunked(old(store).accounts@, create_events@, sz) == notifications@
                + spin_notifications_chunked(
                store.accounts@,
                create_events@.skip(if c == 0 { 0 } else { bounds@[c - 1].1 as int }),
                sz,
            ),
            store.tokens == old(store).tokens,
            store.trades == old(store).trades,
            store.stakings == old(store).stakings,
            store.module_upgrades == old(store).module_upgrades,
            store.package_upgrades == old(store).package_upgrades,
        decreases nb - c,
    {
        let (start, end) = bounds[c];
        let ghost pre = store.accounts@;
        let ghost notifs0 = notifications@;
        let ghost remaining = create_events@.skip(start as int);
        proof {
            assert(start == if c == 0 { 0 } else { bounds@[c - 1].1 as int });
            assert(remaining.len() == create_events@.len() - start);
            let l = if sz <= remaining.len() {
                sz
            } else {
                remaining.len() as int
            };
            assert(end == start + l);
            assert(remaining.take(l) =~= create_events@.subrange(start as int, end as int));
            assert(remaining.skip(l) =~= create_events@.skip(end as int));
        }
        let res = execute_spin_events_sql(&mut store.accounts, &create_events, start, end);
        match res {
            Ok(_) => {
                let ghost chunk = create_events@.subrange(start as int, end as int);
                let mut idx: usize = start;
                while idx < end
                    invariant
                        start <= idx <= end <= create_events@.len(),
                        chunk == create_events@.subrange(start as int, end as int),
                        notifications@.len() == notifs0.len() + (idx - start),
                        forall|q: int| 0 <= q < notifs0.len() ==> notifications@[q] == notifs0[q],
                        forall|q: int|
                            notifs0.len() <= q < notifications@.len() ==> #[trigger] notifications@[q]
                                == (Notification::SpinWin {
                                spin: create_events@[start + q - notifs0.len()],
                            }),
                    decreases end - idx,
                {
                    notifications.push(
                        Notification::SpinWin { spin: create_events[idx].duplicate() },
                    );
                    idx = idx + 1;
                }
                proof {
                    assert(notifications@ =~= notifs0 + spin_notifications_of(chunk));
                }
            },
            Err(_) => {
                failed = true;
            },
        }
        c = c + 1;
        proof {
            let here = spin_notifications_chunked(old(store).accounts@, create_events@, sz);
            let l = if sz <= remaining.len() {
                sz
            } else {
                remaining.len() as int
            };
            let chunk = remaining.take(l);
            if spins_ok(pre, chunk) {
                assert(notifications@ == notifs0 + spin_notifications_of(chunk));
                assert(notifs0 + (spin_notifications_of(chunk) + spin_notifications_chunked(
                    store.accounts@,
                    remaining.skip(l),
                    sz,
                )) =~= (notifs0 + spin_notifications_of(chunk)) + spin_notifications_chunked(
                    store.accounts@,
                    remaining.skip(l),
                    sz,
                ));
            } else {
                assert(Seq::<Notification>::empty() + spin_notifications_chunked(
                    store.accounts@,
                    remaining.skip(l),
                    sz,
                ) =~= spin_notifications_chunked(store.accounts@, remaining.skip(l), sz));
            }
        }
    }
    proof {
        let done = if nb == 0 {
            0
        } else {
            bounds@[nb - 1].1 as int
        };
        assert(done == create_events@.len());
        assert(create_events@.skip(done) =~= Seq::<Spin>::empty());
        assert(notifications@ + Seq::<Notification>::empty() =~= notifications@);
    }
    if failed {
        (
            notifications,
            Err(PersistError { kind: EntityKind::Spins, cause: StoreError::CounterOverflow }),
        )
    } else {
        (notifications, Ok(()))
    }
}

/// A spin amount beyond the 32-bit range contributes a zero delta: the
/// claimer's counters are unchanged, and the update cannot overflow.
pub proof fn lemma_out_of_range_spin_is_zero_delta(a: Account, s: Spin)
    requires
        s.amount > i32::MAX || s.amount < i32::MIN,
    ensures
        apply_spin_row(a, s) == a,
        spin_row_ok(a, s),
{
    assert(spec_narrowed_xp(s.amount) == 0);
}

/// A spin with any win-type code other than the experience win mutates no
/// account row and cannot fail.
pub proof fn lemma_non_xp_spin_mutates_nothing(rows: Seq<Account>, s: Spin)
    requires
        s.win_type != XP_WIN_TYPE,
    ensures
        apply_spin_one(rows, s) == rows,
        spin_ok_rows(rows, s),
{
    assert(apply_spin_one(rows, s) =~= rows);
}

} // verus!
