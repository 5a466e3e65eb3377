//! The stream transfer strategy: bulk COPY text for one chunk, moved
//! verbatim from source to target with no row-level handling.

use vstd::prelude::*;
use vstd::string::StringExecFns;

use crate::config::ImportConfig;
use crate::db::{spec_select_query, select_query, TableChunk};

verus! {

/// Transfer strategy that exports a chunk as one byte stream and imports it
/// verbatim: the fastest path, requiring identical column layouts.
pub struct CopyImporter;

/// The bulk-export statement: the chunk's SELECT wrapped in a COPY to the
/// client.
pub open spec fn spec_copy_out_query(select: Seq<char>) -> Seq<char> {
    "COPY ("@ + select + ") TO STDOUT"@
}

/// The bulk-import statement for the chunk path, naming the job's
/// schema-qualified target table.
pub open spec fn spec_copy_in_query(schema: Seq<char>, table: Seq<char>) -> Seq<char> {
    "COPY "@ + schema + "."@ + table + " FROM STDIN"@
}

impl CopyImporter {
    /// Builds the bulk-export query for one chunk of the source table.
    pub fn copy_out_query(import_config: &ImportConfig, chunk: &TableChunk) -> (r: String)
        ensures
            r@ == spec_copy_out_query(
                spec_select_query(
                    import_config.schema@,
                    import_config.table@,
                    chunk.where_clause@,
                    chunk.order_by@,
                    chunk.offset as int,
                    chunk.limit as int,
                ),
            ),
    {
        let mut r = String::from_str("COPY (");
        let select = select_query(import_config, chunk);
        r.append(select.as_str());
        r.append(") TO STDOUT");
        proof {
            assert(r@ =~= spec_copy_out_query(
                spec_select_query(
                    import_config.schema@,
                    import_config.table@,
                    chunk.where_clause@,
                    chunk.order_by@,
                    chunk.offset as int,
                    chunk.limit as int,
                ),
            ));
        }
        r
    }

    /// Builds the bulk-import query for the target table.
    pub fn copy_in_query(import_config: &ImportConfig) -> (r: String)
        ensures
            r@ == spec_copy_in_query(import_config.schema@, import_config.table@),
    {
        let mut r = String::from_str("COPY ");
        r.append(import_config.schema.as_str());
        r.append(".");
        r.append(import_config.table.as_str());
        r.append(" FROM STDIN");
        proof {
            assert(r@ =~= spec_copy_in_query(import_config.schema@, import_config.table@));
        }
        r
    }
}

} // verus!
