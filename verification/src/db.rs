//! Row ranges and the facts that make offset/limit paging safe: a plan is a
//! sequence of contiguous ranges, and such a sequence tiles an interval --
//! every row is covered by exactly one range and no row is lost.

use vstd::prelude::*;
use vstd::string::StringExecFns;

use crate::config::ImportConfig;
use crate::text::{i64_to_string, int_literal};

verus! {

/// A contiguous slice of the filtered, ordered row set: `limit` rows starting
/// at row number `offset`.
#[derive(Clone, Copy, PartialEq, Eq, Structural, Debug)]
pub struct RowRange {
    pub offset: i64,
    pub limit: i64,
}

/// One bounded fetch handed to a transfer strategy: the range to move plus
/// the query fragments that restrict and order it.
#[derive(Clone, Debug)]
pub struct TableChunk {
    pub where_clause: String,
    pub offset: i64,
    pub limit: i64,
    pub order_by: String,
}

/// `row` lies inside the range.
pub open spec fn range_covers(r: RowRange, row: int) -> bool {
    r.offset <= row < r.offset + r.limit
}

/// Some range of the plan covers `row`.
pub open spec fn plan_covers_row(rs: Seq<RowRange>, row: int) -> bool {
    exists|i: int| 0 <= i < rs.len() && range_covers(#[trigger] rs[i], row)
}

/// The ranges are contiguous and non-negative, the first starts at `lo` and
/// the last ends at `hi` (an empty sequence tiles an empty interval).
pub open spec fn ranges_tile(rs: Seq<RowRange>, lo: int, hi: int) -> bool {
    &&& lo <= hi
    &&& (rs.len() == 0 ==> lo == hi)
    &&& (rs.len() > 0 ==> rs[0].offset == lo)
    &&& (rs.len() > 0 ==> rs[rs.len() - 1].offset + rs[rs.len() - 1].limit == hi)
    &&& (forall|i: int| 0 <= i < rs.len() ==> (#[trigger] rs[i]).limit >= 0)
    &&& (forall|i: int|
        0 <= i < rs.len() - 1 ==> (#[trigger] rs[i]).offset + rs[i].limit == rs[i + 1].offset)
}

/// Total number of rows named by the ranges.
pub open spec fn sum_limits(rs: Seq<RowRange>) -> int
    decreases rs.len(),
{
    if rs.len() == 0 {
        0
    } else {
        sum_limits(rs.drop_last()) + rs.last().limit
    }
}

/// The filter fragment of a query: `WHERE ` plus the filter, or nothing when
/// there is no filter.
pub open spec fn spec_complete_where(w: Seq<char>) -> Seq<char> {
    if w.len() == 0 {
        Seq::<char>::empty()
    } else {
        "WHERE "@ + w
    }
}

/// Prefixes a nonempty filter with `WHERE `.
pub fn complete_where_clause(where_clause: &str) -> (r: String)
    ensures
        r@ == spec_complete_where(where_clause@),
{
    if where_clause.is_empty() {
        let r = String::new();
        proof {
            assert(r@ =~= spec_complete_where(where_clause@));
        }
        r
    } else {
        let mut r = String::from_str("WHERE ");
        r.append(where_clause);
        proof {
            assert(r@ =~= spec_complete_where(where_clause@));
        }
        r
    }
}

/// The SELECT restricted to one chunk: the job's filter, the stable order
/// key when one is present, and the chunk's window.
pub open spec fn spec_select_query(
    schema: Seq<char>,
    table: Seq<char>,
    completed_where: Seq<char>,
    order_by: Seq<char>,
    offset: int,
    limit: int,
) -> Seq<char> {
    "SELECT * FROM "@ + schema + "."@ + table + " "@ + completed_where + (if order_by.len() == 0 {
        Seq::<char>::empty()
    } else {
        " ORDER BY "@ + order_by
    }) + " OFFSET "@ + int_literal(offset) + " LIMIT "@ + int_literal(limit)
}

/// Builds the SELECT for one chunk of a table.
pub fn select_query(import_config: &ImportConfig, chunk: &TableChunk) -> (r: String)
    ensures
        r@ == spec_select_query(
            import_config.schema@,
            import_config.table@,
            chunk.where_clause@,
            chunk.order_by@,
            chunk.offset as int,
            chunk.limit as int,
        ),
{
    let mut r = String::from_str("SELECT * FROM ");
    r.append(import_config.schema.as_str());
    r.append(".");
    r.append(import_config.table.as_str());
    r.append(" ");
    r.append(chunk.where_clause.as_str());
    if !chunk.order_by.as_str().is_empty() {
        r.append(" ORDER BY ");
        r.append(chunk.order_by.as_str());
    }
    r.append(" OFFSET ");
    let offset_text = i64_to_string(chunk.offset);
    r.append(offset_text.as_str());
    r.append(" LIMIT ");
    let limit_text = i64_to_string(chunk.limit);
    r.append(limit_text.as_str());
    proof {
        assert(r@ =~= spec_select_query(
            import_config.schema@,
            import_config.table@,
            chunk.where_clause@,
            chunk.order_by@,
            chunk.offset as int,
            chunk.limit as int,
        ));
    }
    r
}

/// The unbounded SELECT of the whole filtered table, for the single-stream
/// fallback.
pub open spec fn spec_full_select_query(
    schema: Seq<char>,
    table: Seq<char>,
    raw_where: Seq<char>,
) -> Seq<char> {
    "SELECT * FROM "@ + schema + "."@ + table + " "@ + spec_complete_where(raw_where)
}

/// Builds the whole-table SELECT for the single-stream fallback.
pub fn full_select_query(import_config: &ImportConfig) -> (r: String)
    ensures
        r@ == spec_full_select_query(
            import_config.schema@,
            import_config.table@,
            import_config.where_clause@,
        ),
{
    let mut r = String::from_str("SELECT * FROM ");
    r.append(import_config.schema.as_str());
    r.append(".");
    r.append(import_config.table.as_str());
    r.append(" ");
    let completed = complete_where_clause(import_config.where_clause.as_str());
    r.append(completed.as_str());
    proof {
        assert(r@ =~= spec_full_select_query(
            import_config.schema@,
            import_config.table@,
            import_config.where_clause@,
        ));
    }
    r
}

/// The count of rows the job will move: `count(1)` under the job's filter.
pub open spec fn spec_count_query(schema: Seq<char>, table: Seq<char>, raw_where: Seq<
    char,
>) -> Seq<char> {
    "SELECT count(1) FROM "@ + schema + "."@ + table + (if raw_where.len() == 0 {
        Seq::<char>::empty()
    } else {
        " WHERE "@ + raw_where
    })
}

/// Builds the row-count query for a job.
pub fn count_query(import_config: &ImportConfig) -> (r: String)
    ensures
        r@ == spec_count_query(
            import_config.schema@,
            import_config.table@,
            import_config.where_clause@,
        ),
{
    let mut r = String::from_str("SELECT count(1) FROM ");
    r.append(import_config.schema.as_str());
    r.append(".");
    r.append(import_config.table.as_str());
    if !import_config.where_clause.as_str().is_empty() {
        r.append(" WHERE ");
        r.append(import_config.where_clause.as_str());
    }
    proof {
        assert(r@ =~= spec_count_query(
            import_config.schema@,
            import_config.table@,
            import_config.where_clause@,
        ));
    }
    r
}

/// The destructive truncate of the target table.
pub open spec fn spec_truncate_query(schema: Seq<char>, table: Seq<char>) -> Seq<char> {
    "TRUNCATE TABLE "@ + schema + "."@ + table
}

/// Builds the TRUNCATE statement for a job's target table.
pub fn truncate_query(import_config: &ImportConfig) -> (r: String)
    ensures
        r@ == spec_truncate_query(import_config.schema@, import_config.table@),
{
    let mut r = String::from_str("TRUNCATE TABLE ");
    r.append(import_config.schema.as_str());
    r.append(".");
    r.append(import_config.table.as_str());
    proof {
        assert(r@ =~= spec_truncate_query(import_config.schema@, import_config.table@));
    }
    r
}

impl TableChunk {
    /// Describes one chunk of the job: the completed filter, the chunk's
    /// window, and the ordering key the window relies on.
    pub fn new(import_config: &ImportConfig, range: &RowRange, order_by: &str) -> (r: TableChunk)
        ensures
            r.where_clause@ == spec_complete_where(import_config.where_clause@),
            r.offset == range.offset,
            r.limit == range.limit,
            r.order_by@ == order_by@,
    {
        TableChunk {
            where_clause: complete_where_clause(import_config.where_clause.as_str()),
            offset: range.offset,
            limit: range.limit,
            order_by: order_by.to_owned(),
        }
    }
}

/// Which path a table copy takes.
pub enum ImportPath {
    /// Nothing to move: the filtered source is empty.
    NoOp,
    /// The single-stream fallback: one connection pair, one unbounded export.
    SingleThread,
    /// The parallel path, paging with `ORDER BY` over the given
    /// unique-constraint columns.
    MultiThread { order_by: String },
}

/// Decides the path of one table copy. Parallel paging is taken only when
/// more than one worker is configured and the table has a unique constraint
/// to order by; without such a constraint the single-stream fallback is
/// chosen no matter how many workers are configured, because offset windows
/// without a stable order can repeat or drop rows.
pub fn plan_import(max_threads: i64, total_rows: i64, unique_constraint: Option<String>) -> (r:
    ImportPath)
    ensures
        total_rows <= 0 ==> r is NoOp,
        total_rows > 0 && max_threads < 2 ==> r is SingleThread,
        total_rows > 0 && unique_constraint is None ==> !(r is MultiThread),
        total_rows > 0 && max_threads >= 2 && unique_constraint is None ==> r is SingleThread,
        total_rows > 0 && max_threads >= 2 && unique_constraint is Some ==> r is MultiThread
            && r->MultiThread_order_by@ == unique_constraint.unwrap()@,
{
    if total_rows <= 0 {
        ImportPath::NoOp
    } else if max_threads < 2 {
        ImportPath::SingleThread
    } else {
        match unique_constraint {
            Some(order_by) => ImportPath::MultiThread { order_by },
            None => ImportPath::SingleThread,
        }
    }
}

/// Number of rows in the target table after one import of a source table
/// whose filter selects `source_rows` rows: a truncate first empties the
/// target, then every filtered source row is freshly inserted; without a
/// truncate the inserted rows join what was already there.
pub open spec fn target_rows_after_import(
    prior_target_rows: int,
    source_rows: int,
    truncate: bool,
) -> int {
    if truncate {
        source_rows
    } else {
        prior_target_rows + source_rows
    }
}

/// Truncating imports are idempotent: one import with truncate leaves the
/// target holding exactly the source's filtered rows, and running the same
/// import again leaves the same count: rows are never duplicated.
pub proof fn lemma_truncate_import_idempotent(prior_target_rows: int, source_rows: int)
    ensures
        target_rows_after_import(prior_target_rows, source_rows, true) == source_rows,
        target_rows_after_import(
            target_rows_after_import(prior_target_rows, source_rows, true),
            source_rows,
            true,
        ) == source_rows,
{
}

/// In a tiling, the end of an earlier range never passes the start of a
/// later one.
pub proof fn lemma_tile_ordered(rs: Seq<RowRange>, lo: int, hi: int, i: int, j: int)
    requires
        ranges_tile(rs, lo, hi),
        0 <= i < j < rs.len(),
    ensures
        rs[i].offset + rs[i].limit <= rs[j].offset,
    decreases j - i,
{
    if j == i + 1 {
    } else {
        lemma_tile_ordered(rs, lo, hi, i + 1, j);
    }
}

/// Every range of a tiling lies inside `[lo, hi)`.
pub proof fn lemma_tile_in_bounds(rs: Seq<RowRange>, lo: int, hi: int, i: int)
    requires
        ranges_tile(rs, lo, hi),
        0 <= i < rs.len(),
    ensures
        lo <= rs[i].offset,
        rs[i].offset + rs[i].limit <= hi,
{
    if i > 0 {
        lemma_tile_ordered(rs, lo, hi, 0, i);
        lemma_tile_ordered(rs, lo, hi, i - 1, i);
        if i > 1 {
            lemma_tile_ordered(rs, lo, hi, 1, i);
        }
        assert(rs[0].offset == lo);
        lemma_tile_offsets_grow(rs, lo, hi, 0, i);
    }
    if i < rs.len() - 1 {
        lemma_tile_ordered(rs, lo, hi, i, rs.len() - 1);
    }
}

/// Offsets of a tiling never decrease.
pub proof fn lemma_tile_offsets_grow(rs: Seq<RowRange>, lo: int, hi: int, i: int, j: int)
    requires
        ranges_tile(rs, lo, hi),
        0 <= i <= j < rs.len(),
    ensures
        rs[i].offset <= rs[j].offset,
    decreases j - i,
{
    if i < j {
        lemma_tile_offsets_grow(rs, lo, hi, i + 1, j);
    }
}

/// Every row of the tiled interval is covered by some range.
pub proof fn lemma_tile_covers(rs: Seq<RowRange>, lo: int, hi: int, row: int)
    requires
        ranges_tile(rs, lo, hi),
        lo <= row < hi,
    ensures
        exists|i: int| 0 <= i < rs.len() && range_covers(#[trigger] rs[i], row),
    decreases rs.len(),
{
    if range_covers(rs[0], row) {
        assert(range_covers(rs[0], row));
    } else {
        let tail = rs.drop_first();
        let mid = rs[0].offset + rs[0].limit;
        assert forall|i: int| 0 <= i < tail.len() implies #[trigger] tail[i] == rs[i + 1] by {}
        assert(ranges_tile(tail, mid, hi));
        lemma_tile_covers(tail, mid, hi, row);
        let k = choose|i: int| 0 <= i < tail.len() && range_covers(#[trigger] tail[i], row);
        assert(range_covers(rs[k + 1], row));
    }
}

/// No row is covered by two distinct ranges of a tiling.
pub proof fn lemma_tile_disjoint(rs: Seq<RowRange>, lo: int, hi: int, i: int, j: int, row: int)
    requires
        ranges_tile(rs, lo, hi),
        0 <= i < rs.len(),
        0 <= j < rs.len(),
        i != j,
        range_covers(rs[i], row),
    ensures
        !range_covers(rs[j], row),
{
    if i < j {
        lemma_tile_ordered(rs, lo, hi, i, j);
    } else {
        lemma_tile_ordered(rs, lo, hi, j, i);
    }
}

/// The ranges of a tiling name exactly the rows of the interval.
pub proof fn lemma_tile_sum(rs: Seq<RowRange>, lo: int, hi: int)
    requires
        ranges_tile(rs, lo, hi),
    ensures
        sum_limits(rs) == hi - lo,
    decreases rs.len(),
{
    if rs.len() == 0 {
    } else if rs.len() == 1 {
        assert(sum_limits(rs.drop_last()) == 0);
    } else {
        let head = rs.drop_last();
        let mid = rs[rs.len() - 2].offset + rs[rs.len() - 2].limit;
        assert forall|i: int| 0 <= i < head.len() implies #[trigger] head[i] == rs[i] by {}
        assert(head[head.len() - 1].offset + head[head.len() - 1].limit == mid);
        lemma_tile_in_bounds(rs, lo, hi, rs.len() - 2);
        assert(ranges_tile(head, lo, mid));
        lemma_tile_sum(head, lo, mid);
        assert(rs[rs.len() - 1].offset == mid);
    }
}

} // verus!
