//! Chunk-size derivation and chunk partitioning.
//!
//! A multi-row statement may carry at most `MAX_PARAMS_PER_STATEMENT` bound
//! values, so a table whose records have `field_count` columns is written in
//! chunks of at most `floor(MAX_PARAMS_PER_STATEMENT / field_count)` records,
//! unless an explicit per-table override is configured.

use vstd::prelude::*;

verus! {

/// Maximum number of bound values one statement may carry in the target store.
pub const MAX_PARAMS_PER_STATEMENT: usize = 65535;

/// Optional per-table chunk-size overrides, keyed by table name.  Absent
/// entries fall back to the parameter-limit-derived default.
pub struct TableChunkSizes {
    entries: Vec<(String, usize)>,
}

/// First override for `table` in `entries`, if any.
pub open spec fn lookup_override(entries: Seq<(String, usize)>, table: Seq<char>) -> Option<usize>
    decreases entries.len(),
{
    if entries.len() == 0 {
        None
    } else if entries[0].0@ == table {
        Some(entries[0].1)
    } else {
        lookup_override(entries.skip(1), table)
    }
}

impl TableChunkSizes {
    pub closed spec fn entries_view(self) -> Seq<(String, usize)> {
        self.entries@
    }

    /// Every configured override is positive, so derived chunk sizes are
    /// always usable as a partition width.
    pub open spec fn wf(self) -> bool {
        forall|i: int|
            0 <= i < self.entries_view().len() ==> (#[trigger] self.entries_view()[i]).1 > 0
    }

    pub open spec fn spec_lookup(self, table: Seq<char>) -> Option<usize> {
        lookup_override(self.entries_view(), table)
    }

    pub fn new() -> (r: Self)
        ensures
            r.entries_view() == Seq::<(String, usize)>::empty(),
            r.wf(),
            forall|t: Seq<char>| #[trigger] r.spec_lookup(t) is None,
    {
        TableChunkSizes { entries: Vec::new() }
    }

    /// Record an explicit chunk-size override for `table`.
    pub fn set_override(&mut self, table: String, size: usize)
        requires
            size > 0,
            old(self).wf(),
        ensures
            final(self).wf(),
            final(self).entries_view() == old(self).entries_view().push((table, size)),
    {
        self.entries.push((table, size));
        proof {
            assert forall|i: int| 0 <= i < self.entries_view().len() implies (#[trigger] self
                .entries_view()[i]).1 > 0 by {
                if i < old(self).entries_view().len() {
                    assert(old(self).wf());
                }
            }
        }
    }

    /// Configured override for `table`, if any.
    pub fn get_override(&self, table: &str) -> (r: Option<usize>)
        ensures
            r == self.spec_lookup(table@),
    {
        let key = String::from_str(table);
        let n = self.entries.len();
        let mut i: usize = 0;
        proof {
            assert(self.entries_view().skip(0) =~= self.entries_view());
        }
        while i < n
            invariant
                i <= n,
                n == self.entries_view().len(),
                key@ == table@,
                lookup_override(self.entries_view(), table@) == lookup_override(
                    self.entries_view().skip(i as int),
                    table@,
                ),
            decreases n - i,
        {
            proof {
                assert(self.entries_view().skip(i as int)[0] == self.entries_view()[i as int]);
                assert(self.entries_view().skip(i as int).skip(1) =~= self.entries_view().skip(
                    i as int + 1,
                ));
            }
            if self.entries[i].0 == key {
                return Some(self.entries[i].1);
            }
            i = i + 1;
        }
        proof {
            assert(self.entries_view().skip(n as int) =~= Seq::<(String, usize)>::empty());
        }
        None
    }
}

/// Chunk size for a table: the configured override, else
/// `floor(MAX_PARAMS_PER_STATEMENT / field_count)`.
pub open spec fn spec_chunk_size(
    sizes: TableChunkSizes,
    table: Seq<char>,
    field_count: usize,
) -> usize {
    match sizes.spec_lookup(table) {
        Some(s) => s,
        None => (MAX_PARAMS_PER_STATEMENT / field_count) as usize,
    }
}

proof fn lemma_lookup_positive(entries: Seq<(String, usize)>, table: Seq<char>)
    requires
        forall|i: int| 0 <= i < entries.len() ==> (#[trigger] entries[i]).1 > 0,
        lookup_override(entries, table) is Some,
    ensures
        lookup_override(entries, table)->Some_0 > 0,
    decreases entries.len(),
{
    if entries.len() > 0 && !(entries[0].0@ == table) {
        lemma_lookup_positive(entries.skip(1), table);
    }
}

/// Number of bound values one record of the table carries, i.e. its column
/// count, which divides the statement parameter limit into the default chunk
/// size.
pub fn get_config_table_chunk_size(
    table_name: &str,
    field_count: usize,
    sizes: &TableChunkSizes,
) -> (r: usize)
    requires
        0 < field_count <= MAX_PARAMS_PER_STATEMENT,
        sizes.wf(),
    ensures
        r == spec_chunk_size(*sizes, table_name@, field_count),
        r > 0,
{
    match sizes.get_override(table_name) {
        Some(s) => {
            proof {
                lemma_lookup_positive(sizes.entries_view(), table_name@);
            }
            s
        },
        None => {
            proof {
                assert(MAX_PARAMS_PER_STATEMENT / field_count >= 1) by (nonlinear_arith)
                    requires
                        0 < field_count <= MAX_PARAMS_PER_STATEMENT,
                ;
            }
            MAX_PARAMS_PER_STATEMENT / field_count
        },
    }
}

/// The half-open index ranges `[start, end)` that partition a list of `n`
/// records into chunks of at most `chunk_size`, in order.
pub fn chunk_bounds(n: usize, chunk_size: usize) -> (r: Vec<(usize, usize)>)
    requires
        chunk_size > 0,
    ensures
        r@.len() == (n + chunk_size - 1) / (chunk_size as int),
        forall|i: int|
            0 <= i < r@.len() ==> (#[trigger] r@[i]).0 == i * chunk_size && r@[i].1 == (if i
                * chunk_size + chunk_size <= n {
                i * chunk_size + chunk_size
            } else {
                n as int
            }),
        r@.len() == 0 <==> n == 0,
        forall|i: int| 0 <= i < r@.len() ==> (#[trigger] r@[i]).0 < r@[i].1 <= n,
        forall|i: int| 1 <= i < r@.len() ==> (#[trigger] r@[i]).0 == r@[i - 1].1,
        r@.len() > 0 ==> r@[0].0 == 0 && r@[r@.len() - 1].1 == n,
{
    let mut r: Vec<(usize, usize)> = Vec::new();
    let mut start: usize = 0;
    proof {
        assert(r@.len() == 0);
        assert(0 * chunk_size == 0) by (nonlinear_arith);
    }
    while start < n
        invariant
            chunk_size > 0,
            start <= n,
            start <= r@.len() * chunk_size,
            r@.len() * chunk_size < start + chunk_size,
            start < n ==> start == r@.len() * chunk_size,
            forall|i: int|
                0 <= i < r@.len() ==> (#[trigger] r@[i]).0 == i * chunk_size && r@[i].1 == (if i
                    * chunk_size + chunk_size <= n {
                    i * chunk_size + chunk_size
                } else {
                    n as int
                }),
            r@.len() == 0 ==> start == 0,
            forall|i: int| 0 <= i < r@.len() ==> (#[trigger] r@[i]).0 < r@[i].1 <= n,
            forall|i: int| 1 <= i < r@.len() ==> (#[trigger] r@[i]).0 == r@[i - 1].1,
            r@.len() > 0 ==> r@[0].0 == 0 && r@[r@.len() - 1].1 == start,
        decreases n - start,
    {
        let end = if n - start > chunk_size {
            start + chunk_size
        } else {
            n
        };
        let ghost len0 = r@.len();
        r.push((start, end));
        proof {
            assert(r@[len0 as int] == (start, end));
            assert(len0 * chunk_size + chunk_size == (len0 + 1) * chunk_size) by (nonlinear_arith);
        }
        start = end;
    }
    proof {
        let k = r@.len();
        assert(k * chunk_size >= n);
        if k > 0 {
            assert((k - 1) * chunk_size == k * chunk_size - chunk_size) by (nonlinear_arith);
            assert((k - 1) * chunk_size < n);
        }
        assert(k == (n + chunk_size - 1) / (chunk_size as int)) by (nonlinear_arith)
            requires
                chunk_size > 0,
                k * chunk_size >= n,
                k == 0 ==> n == 0,
                k > 0 ==> (k - 1) * chunk_size < n,
        ;
    }
    r
}

} // verus!
