//! Persistence of package-upgrade changes: bounded chunks of multi-row
//! insert-if-absent statements keyed by package address, package name and
//! upgrade number.

use vstd::prelude::*;

use crate::chunking::chunk_bounds;
use crate::chunking::get_config_table_chunk_size;
use crate::chunking::TableChunkSizes;
use crate::errors::PersistError;
use crate::rows::contains_key;
use crate::rows::insert_row;
use crate::rows::insert_rows;
use crate::rows::lemma_insert_rows_app;
use crate::rows::lemma_insert_rows_idempotent;
use crate::store::Store;
use crate::upgrades::package_upgrade_key;
use crate::upgrades::PackageUpgrade;
use crate::upgrades::PACKAGE_UPGRADE_FIELD_COUNT;

verus! {

/// Table effect of inserting `items` if absent, in order, keyed by the
/// upgraded package's identity.
pub open spec fn spec_insert_package_upgrades(
    rows: Seq<PackageUpgrade>,
    items: Seq<PackageUpgrade>,
) -> Seq<PackageUpgrade> {
    insert_rows(rows, |p: PackageUpgrade| package_upgrade_key(p), items)
}

/// Applying the same upgrade list twice leaves exactly the row set that
/// applying it once leaves.
pub proof fn lemma_package_upgrade_insert_idempotent(
    rows: Seq<PackageUpgrade>,
    items: Seq<PackageUpgrade>,
)
    ensures
        spec_insert_package_upgrades(spec_insert_package_upgrades(rows, items), items)
            == spec_insert_package_upgrades(rows, items),
{
    lemma_insert_rows_idempotent(rows, |p: PackageUpgrade| package_upgrade_key(p), items);
}

/// Whether the table already has a row under `item`'s package identity.
fn package_upgrades_contain_key(rows: &Vec<PackageUpgrade>, item: &PackageUpgrade) -> (r: bool)
    ensures
        r == contains_key(
            rows@,
            |p: PackageUpgrade| package_upgrade_key(p),
            package_upgrade_key(*item),
        ),
{
    let n = rows.len();
    let mut k: usize = 0;
    while k < n
        invariant
            k <= n,
            n == rows@.len(),
            forall|i: int|
                0 <= i < k ==> package_upgrade_key(#[trigger] rows@[i]) != package_upgrade_key(
                    *item,
                ),
        decreases n - k,
    {
        if rows[k].package_addr == item.package_addr && rows[k].package_name == item.package_name
            && rows[k].upgrade_number == item.upgrade_number {
            return true;
        }
        k = k + 1;
    }
    false
}

/// One chunk's multi-row insert-if-absent statement over
/// `items[start..end]`, applied atomically; an upgrade insert cannot fail.
fn execute_upgrade_package_changes_sql(
    rows: &mut Vec<PackageUpgrade>,
    items: &Vec<PackageUpgrade>,
    start: usize,
    end: usize,
)
    requires
        start <= end <= items@.len(),
    ensures
        final(rows)@ == spec_insert_package_upgrades(
            old(rows)@,
            items@.subrange(start as int, end as int),
        ),
{
    let ghost key = |p: PackageUpgrade| package_upgrade_key(p);
    let mut j: usize = start;
    proof {
        assert(items@.subrange(start as int, start as int) =~= Seq::<PackageUpgrade>::empty());
    }
    while j < end
        invariant
            start <= j <= end <= items@.len(),
            rows@ == insert_rows(old(rows)@, key, items@.subrange(start as int, j as int)),
            key == (|p: PackageUpgrade| package_upgrade_key(p)),
        decreases end - j,
    {
        proof {
            let a = items@.subrange(start as int, j as int);
            let b = seq![items@[j as int]];
            assert(items@.subrange(start as int, j as int + 1) =~= a + b);
            lemma_insert_rows_app(old(rows)@, key, a, b);
            assert(b.skip(1) =~= Seq::<PackageUpgrade>::empty());
            let r1 = insert_row(rows@, key, b[0]);
            assert(insert_rows(r1, key, b.skip(1)) == r1);
            assert(insert_rows(rows@, key, b) == insert_rows(r1, key, b.skip(1)));
        }
        if !package_upgrades_contain_key(rows, &items[j]) {
            rows.push(items[j].duplicate());
        }
        j = j + 1;
    }
}

/// Persists one batch of package-upgrade rows: bounded chunks of atomic
/// multi-row insert-if-absent statements.  Upgrade inserts cannot fail.
pub fn process_upgrade_package_changes(
    store: &mut Store,
    per_table_chunk_sizes: &TableChunkSizes,
    changes: Vec<PackageUpgrade>,
) -> (r: Result<(), PersistError>)
    requires
        per_table_chunk_sizes.wf(),
    ensures
        final(store).package_upgrades@ == spec_insert_package_upgrades(
            old(store).package_upgrades@,
            changes@,
        ),
        final(store).tokens == old(store).tokens,
        final(store).trades == old(store).trades,
        final(store).stakings == old(store).stakings,
        final(store).accounts == old(store).accounts,
        final(store).module_upgrades == old(store).module_upgrades,
        r is Ok,
{
    let ghost key = |p: PackageUpgrade| package_upgrade_key(p);
    let chunk_size = get_config_table_chunk_size(
        "package_upgrade_history",
        PACKAGE_UPGRADE_FIELD_COUNT,
        per_table_chunk_sizes,
    );
    let bounds = chunk_bounds(changes.len(), chunk_size);
    let nb = bounds.len();
    let mut c: usize = 0;
    proof {
        assert(changes@.subrange(0, 0) =~= Seq::<PackageUpgrade>::empty());
    }
    while c < nb
        invariant
            nb == bounds@.len(),
            c <= nb,
            forall|i: int|
                0 <= i < nb ==> (#[trigger] bounds@[i]).0 < bounds@[i].1 <= changes@.len(),
            forall|i: int| 1 <= i < nb ==> (#[trigger] bounds@[i]).0 == bounds@[i - 1].1,
            nb > 0 ==> bounds@[0].0 == 0,
            nb == 0 ==> changes@.len() == 0,
            nb > 0 ==> bounds@[nb - 1].1 == changes@.len(),
            store.package_upgrades@ == insert_rows(
                old(store).package_upgrades@,
                key,
                changes@.subrange(0, if c == 0 { 0 } else { bounds@[c - 1].1 as int }),
            ),
            store.tokens == old(store).tokens,
            store.trades == old(store).trades,
            store.stakings == old(store).stakings,
            store.accounts == old(store).accounts,
            store.module_upgrades == old(store).module_upgrades,
            key == (|p: PackageUpgrade| package_upgrade_key(p)),
        decreases nb - c,
    {
        let (start, end) = bounds[c];
        proof {
            let a = changes@.subrange(0, start as int);
            let b = changes@.subrange(start as int, end as int);
            assert(changes@.subrange(0, end as int) =~= a + b);
            lemma_insert_rows_app(old(store).package_upgrades@, key, a, b);
        }
        execute_upgrade_package_changes_sql(&mut store.package_upgrades, &changes, start, end);
        c = c + 1;
    }
    proof {
        assert(changes@.subrange(0, changes@.len() as int) =~= changes@);
        if nb == 0 {
            assert(changes@.subrange(0, 0) =~= changes@);
        }
    }
    Ok(())
}

} // verus!
