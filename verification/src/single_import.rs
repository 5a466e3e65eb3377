//! The single-stream fallback: one unbounded export of the whole filtered
//! table, buffered and flushed to the target in bounded batches. Used when
//! parallel partitioning would be unsafe or only one worker is configured.

use vstd::prelude::*;
use vstd::string::StringExecFns;

use crate::config::ImportConfig;
use crate::db::{full_select_query, spec_full_select_query};

verus! {

/// The bulk-export statement for the whole filtered table.
pub open spec fn spec_full_copy_out_query(select: Seq<char>) -> Seq<char> {
    "COPY ("@ + select + ") TO STDOUT"@
}

/// The bulk-import statement the fallback flushes into, naming the
/// schema-qualified target table.
pub open spec fn spec_full_copy_in_query(schema: Seq<char>, table: Seq<char>) -> Seq<char> {
    "COPY "@ + schema + "."@ + table + " FROM STDIN"@
}

/// Builds the unbounded bulk-export query of the whole filtered table.
pub fn full_copy_out_query(import_config: &ImportConfig) -> (r: String)
    ensures
        r@ == spec_full_copy_out_query(
            spec_full_select_query(
                import_config.schema@,
                import_config.table@,
                import_config.where_clause@,
            ),
        ),
{
    let mut r = String::from_str("COPY (");
    let select = full_select_query(import_config);
    r.append(select.as_str());
    r.append(") TO STDOUT");
    proof {
        assert(r@ =~= spec_full_copy_out_query(
            spec_full_select_query(
                import_config.schema@,
                import_config.table@,
                import_config.where_clause@,
            ),
        ));
    }
    r
}

/// Builds the bulk-import query every flush of the fallback writes into.
pub fn full_copy_in_query(import_config: &ImportConfig) -> (r: String)
    ensures
        r@ == spec_full_copy_in_query(import_config.schema@, import_config.table@),
{
    let mut r = String::from_str("COPY ");
    r.append(import_config.schema.as_str());
    r.append(".");
    r.append(import_config.table.as_str());
    r.append(" FROM STDIN");
    proof {
        assert(r@ =~= spec_full_copy_in_query(import_config.schema@, import_config.table@));
    }
    r
}

/// The fallback's bounded buffer: reads accumulate here and are handed out
/// for a flush every time the read count crosses the batch size, so memory
/// stays bounded by flush frequency while no byte is dropped or reordered.
pub struct StreamBuffer {
    /// Bytes read since the last flush, in arrival order.
    pub buffer: Vec<u8>,
    /// Reads accepted over the whole stream; never reset by a flush.
    pub total_rows: i64,
}

impl StreamBuffer {
    /// An empty buffer with nothing read yet.
    pub fn new() -> (r: StreamBuffer)
        ensures
            r.buffer@ == Seq::<u8>::empty(),
            r.total_rows == 0,
    {
        StreamBuffer { buffer: Vec::new(), total_rows: 0 }
    }

    /// Accepts one read from the export stream: the bytes join the buffer
    /// unchanged and in order, and the read count grows by one.
    pub fn push_read(&mut self, bytes: &[u8])
        requires
            old(self).total_rows < i64::MAX,
        ensures
            final(self).buffer@ == old(self).buffer@ + bytes@,
            final(self).total_rows == old(self).total_rows + 1,
    {
        self.buffer.extend_from_slice(bytes);
        self.total_rows = self.total_rows + 1;
        proof {
            assert forall|i: int| 0 <= i < self.buffer@.len() implies self.buffer@[i] == (old(
                self,
            ).buffer@ + bytes@)[i] by {}
            assert(self.buffer@ =~= old(self).buffer@ + bytes@);
        }
    }

    /// True exactly when the read count has just crossed the batch size, so
    /// the buffer is due to be flushed.
    pub fn should_flush(&self, max_rows_per_batch: i64) -> (r: bool)
        requires
            max_rows_per_batch >= 1,
            0 <= self.total_rows,
        ensures
            r == (self.total_rows % max_rows_per_batch == 0),
    {
        self.total_rows % max_rows_per_batch == 0
    }

    /// True when nothing waits to be flushed.
    pub fn is_empty(&self) -> (r: bool)
        ensures
            r == (self.buffer@.len() == 0),
    {
        self.buffer.len() == 0
    }

    /// Hands out everything buffered since the last flush, in order, and
    /// leaves the buffer empty. The read count is unchanged.
    pub fn take_buffer(&mut self) -> (r: Vec<u8>)
        ensures
            r@ == old(self).buffer@,
            final(self).buffer@ == Seq::<u8>::empty(),
            final(self).total_rows == old(self).total_rows,
    {
        let mut out: Vec<u8> = Vec::new();
        core::mem::swap(&mut out, &mut self.buffer);
        out
    }
}

} // verus!
