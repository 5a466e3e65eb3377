//! Planning for the parallel copy path: one partition per worker, each
//! partition cut into bounded chunks, and the per-worker progress counter.

use vstd::prelude::*;

use crate::db::{
    lemma_tile_covers, lemma_tile_disjoint, lemma_tile_in_bounds, lemma_tile_sum, plan_covers_row,
    range_covers, ranges_tile, sum_limits, RowRange,
};

verus! {

/// What the partition planner promises: one range per worker (none when the
/// table is empty), tiling `[0, total_rows)`, every worker but the last
/// holding exactly `total_rows / worker_count` rows, the last absorbing the
/// remainder.
pub open spec fn partition_plan_ok(rs: Seq<RowRange>, total_rows: int, worker_count: int) -> bool {
    &&& ranges_tile(rs, 0, total_rows)
    &&& rs.len() == if total_rows == 0 {
        0int
    } else {
        worker_count
    }
    &&& (forall|i: int|
        0 <= i < rs.len() - 1 ==> (#[trigger] rs[i]).limit == total_rows / worker_count)
}

/// What the chunk planner promises: the chunks tile the parent range, none is
/// empty, none exceeds `max_batch`, and every chunk but the last is full.
pub open spec fn chunk_plan_ok(cs: Seq<RowRange>, parent: RowRange, max_batch: int) -> bool {
    &&& ranges_tile(cs, parent.offset as int, parent.offset + parent.limit)
    &&& (forall|i: int| 0 <= i < cs.len() ==> 0 < (#[trigger] cs[i]).limit <= max_batch)
    &&& (forall|i: int| 0 <= i < cs.len() - 1 ==> (#[trigger] cs[i]).limit == max_batch)
}

/// Splits `total_rows` rows into one contiguous range per worker. Each of the
/// first `worker_count - 1` workers receives `total_rows / worker_count`
/// rows; the last receives whatever remains, so nothing is truncated away.
/// An empty table yields an empty plan: no worker runs.
pub fn plan_partitions(total_rows: i64, worker_count: i64) -> (r: Vec<RowRange>)
    requires
        0 <= total_rows,
        1 <= worker_count,
    ensures
        partition_plan_ok(r@, total_rows as int, worker_count as int),
{
    let mut r: Vec<RowRange> = Vec::new();
    if total_rows == 0 {
        return r;
    }
    let base: i64 = total_rows / worker_count;
    proof {
        vstd::arithmetic::div_mod::lemma_fundamental_div_mod(total_rows as int, worker_count as int);
    }
    let mut offset: i64 = 0;
    let mut i: i64 = 0;
    while i < worker_count - 1
        invariant
            0 <= i <= worker_count - 1,
            base == total_rows as int / worker_count as int,
            0 <= base,
            offset == i * base,
            offset + base <= total_rows,
            r@.len() == i,
            i > 0 ==> r@[0].offset == 0,
            forall|k: int| 0 <= k < r@.len() ==> (#[trigger] r@[k]).limit == base,
            forall|k: int| 0 <= k < r@.len() ==> (#[trigger] r@[k]).offset == k * base,
            forall|k: int|
                0 <= k < r@.len() - 1 ==> (#[trigger] r@[k]).offset + r@[k].limit == r@[k + 1].offset,
            i > 0 ==> r@[i - 1].offset + r@[i - 1].limit == offset,
        decreases worker_count - i,
    {
        r.push(RowRange { offset, limit: base });
        proof {
            assert((i + 1) * base == i * base + base) by (nonlinear_arith);
            assert((i + 2) * base == (i + 1) * base + base) by (nonlinear_arith);
            vstd::arithmetic::div_mod::lemma_fundamental_div_mod(
                total_rows as int,
                worker_count as int,
            );
            assert((i + 2) * base <= worker_count as int * base) by (nonlinear_arith)
                requires
                    i + 2 <= worker_count as int,
                    0 <= base,
            ;
        }
        offset = offset + base;
        i = i + 1;
    }
    let last_limit: i64 = total_rows - offset;
    r.push(RowRange { offset, limit: last_limit });
    proof {
        vstd::arithmetic::div_mod::lemma_fundamental_div_mod(total_rows as int, worker_count as int);
        assert((worker_count - 1) as int * base <= worker_count as int * base) by (nonlinear_arith)
            requires
                0 <= base,
        ;
        assert(partition_plan_ok(r@, total_rows as int, worker_count as int));
    }
    r
}

/// Cuts one range into fetches of at most `max_batch` rows each: full chunks
/// first, then one final chunk holding the remainder. A range of zero rows
/// yields no chunks.
pub fn plan_chunks(range: &RowRange, max_batch: i64) -> (r: Vec<RowRange>)
    requires
        0 <= range.offset,
        0 <= range.limit,
        range.offset + range.limit <= i64::MAX,
        1 <= max_batch,
    ensures
        chunk_plan_ok(r@, *range, max_batch as int),
{
    let mut r: Vec<RowRange> = Vec::new();
    let end: i64 = range.offset + range.limit;
    let mut offset: i64 = range.offset;
    while offset < end
        invariant
            range.offset <= offset <= end,
            end == range.offset + range.limit,
            1 <= max_batch,
            offset < end ==> r@.len() == 0 || (r@.len() > 0 && r@[r@.len() - 1].limit
                == max_batch),
            r@.len() > 0 ==> r@[0].offset == range.offset,
            r@.len() == 0 ==> offset == range.offset,
            r@.len() > 0 ==> r@[r@.len() - 1].offset + r@[r@.len() - 1].limit == offset,
            forall|k: int| 0 <= k < r@.len() ==> 0 < (#[trigger] r@[k]).limit <= max_batch,
            forall|k: int|
                0 <= k < r@.len() - 1 ==> (#[trigger] r@[k]).limit == max_batch,
            forall|k: int|
                0 <= k < r@.len() - 1 ==> (#[trigger] r@[k]).offset + r@[k].limit == r@[k + 1].offset,
        decreases end - offset,
    {
        let limit: i64 = if end - offset < max_batch {
            end - offset
        } else {
            max_batch
        };
        r.push(RowRange { offset, limit });
        offset = offset + limit;
    }
    proof {
        assert(chunk_plan_ok(r@, *range, max_batch as int));
    }
    r
}

/// Partition coverage: any plan the partition planner can produce tiles
/// `[0, total_rows)` exactly. Its ranges are ordered by offset and pairwise
/// disjoint, together they cover every row of the table and no other, and
/// their limits sum to `total_rows`.
pub proof fn lemma_partition_coverage(rs: Seq<RowRange>, total_rows: int, worker_count: int)
    requires
        partition_plan_ok(rs, total_rows, worker_count),
        0 <= total_rows,
        1 <= worker_count,
    ensures
        sum_limits(rs) == total_rows,
        forall|row: int| 0 <= row < total_rows ==> #[trigger] plan_covers_row(rs, row),
        forall|i: int, row: int|
            0 <= i < rs.len() && #[trigger] range_covers(rs[i], row) ==> 0 <= row < total_rows,
        forall|i: int, j: int, row: int|
            #![trigger range_covers(rs[i], row), range_covers(rs[j], row)]
            0 <= i < rs.len() && 0 <= j < rs.len() && i != j && range_covers(rs[i], row)
                ==> !range_covers(rs[j], row),
        forall|i: int, j: int|
            0 <= i < j < rs.len() ==> (#[trigger] rs[i]).offset <= (#[trigger] rs[j]).offset,
{
    lemma_tile_sum(rs, 0, total_rows);
    assert forall|row: int| 0 <= row < total_rows implies #[trigger] plan_covers_row(
        rs,
        row,
    ) by {
        lemma_tile_covers(rs, 0, total_rows, row);
    }
    assert forall|i: int, row: int|
        0 <= i < rs.len() && #[trigger] range_covers(rs[i], row) implies 0 <= row
        < total_rows by {
        lemma_tile_in_bounds(rs, 0, total_rows, i);
    }
    assert forall|i: int, j: int, row: int|
        #![trigger range_covers(rs[i], row), range_covers(rs[j], row)]
        0 <= i < rs.len() && 0 <= j < rs.len() && i != j && range_covers(rs[i], row)
            implies !range_covers(rs[j], row) by {
        lemma_tile_disjoint(rs, 0, total_rows, i, j, row);
    }
    assert forall|i: int, j: int| 0 <= i < j < rs.len() implies (#[trigger] rs[i]).offset <= (
    #[trigger] rs[j]).offset by {
        crate::db::lemma_tile_offsets_grow(rs, 0, total_rows, i, j);
    }
}

/// Chunk coverage: any plan the chunk planner can produce reconstructs its
/// parent range exactly. Every chunk stays within `max_batch` rows and within
/// the parent, chunks are pairwise disjoint, and their limits sum to the
/// parent's limit.
pub proof fn lemma_chunk_coverage(cs: Seq<RowRange>, parent: RowRange, max_batch: int)
    requires
        chunk_plan_ok(cs, parent, max_batch),
        0 <= parent.offset,
        0 <= parent.limit,
        0 < max_batch,
    ensures
        sum_limits(cs) == parent.limit,
        forall|row: int| #[trigger] range_covers(parent, row) ==> plan_covers_row(cs, row),
        forall|i: int, row: int|
            0 <= i < cs.len() && #[trigger] range_covers(cs[i], row) ==> range_covers(parent, row),
        forall|i: int, j: int, row: int|
            #![trigger range_covers(cs[i], row), range_covers(cs[j], row)]
            0 <= i < cs.len() && 0 <= j < cs.len() && i != j && range_covers(cs[i], row)
                ==> !range_covers(cs[j], row),
{
    let lo = parent.offset as int;
    let hi = parent.offset + parent.limit;
    lemma_tile_sum(cs, lo, hi);
    assert forall|row: int| #[trigger] range_covers(parent, row) implies plan_covers_row(
        cs,
        row,
    ) by {
        lemma_tile_covers(cs, lo, hi, row);
    }
    assert forall|i: int, row: int|
        0 <= i < cs.len() && #[trigger] range_covers(cs[i], row) implies range_covers(
        parent,
        row,
    ) by {
        lemma_tile_in_bounds(cs, lo, hi, i);
    }
    assert forall|i: int, j: int, row: int|
        #![trigger range_covers(cs[i], row), range_covers(cs[j], row)]
        0 <= i < cs.len() && 0 <= j < cs.len() && i != j && range_covers(cs[i], row)
            implies !range_covers(cs[j], row) by {
        lemma_tile_disjoint(cs, lo, hi, i, j, row);
    }
}

/// Rows moved so far by one worker. The counter only ever grows; a reporting
/// sink that reads a stale value is merely behind, never wrong.
pub struct TransferProgress {
    pub rows_moved: u64,
}

impl TransferProgress {
    /// A fresh counter, at zero.
    pub fn new() -> (r: TransferProgress)
        ensures
            r.rows_moved == 0,
    {
        TransferProgress { rows_moved: 0 }
    }

    /// Records `delta` more rows moved. The counter never decreases.
    pub fn advance(&mut self, delta: u64)
        requires
            old(self).rows_moved + delta <= u64::MAX,
        ensures
            final(self).rows_moved == old(self).rows_moved + delta,
            final(self).rows_moved >= old(self).rows_moved,
    {
        self.rows_moved = self.rows_moved + delta;
    }

    /// The current count, for a reporting sink.
    pub fn rows_moved(&self) -> (r: u64)
        ensures
            r == self.rows_moved,
    {
        self.rows_moved
    }
}

} // verus!
