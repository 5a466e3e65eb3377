//! Batch jobs: one schema import names a schema, its tables, an optional
//! filter and flags; it expands into one import request per table.

use vstd::prelude::*;
use vstd::string::StrSliceExecFns;

verus! {

/// One entry of a batch file, brought to plain values.
pub struct SchemaImport {
    pub schema: String,
    pub tables: Vec<String>,
    pub where_clause: Option<String>,
    pub truncate: Option<bool>,
    pub cascade: Option<bool>,
}

/// One table copy to perform: the expansion of a schema import.
pub struct TableImportRequest {
    pub schema: String,
    pub table: String,
    pub where_clause: String,
    pub truncate: bool,
}

/// The filter a schema import really carries: an absent filter is parsed
/// from the batch file as a bare `~`, which means no filter at all.
pub open spec fn spec_checked_where(w: Seq<char>) -> Seq<char> {
    if w == seq!['~'] {
        Seq::<char>::empty()
    } else {
        w
    }
}

/// Drops the `~` placeholder a batch file uses for an absent filter.
pub fn checked_where_clause(where_clause: &str) -> (r: String)
    ensures
        r@ == spec_checked_where(where_clause@),
{
    if where_clause.unicode_len() == 1 && where_clause.get_char(0) == '~' {
        proof {
            assert(where_clause@ =~= seq!['~']);
        }
        String::new()
    } else {
        proof {
            assert(where_clause@ != seq!['~']);
        }
        where_clause.to_owned()
    }
}

/// The filter text of a schema import, after both defaults: an absent filter
/// and the `~` placeholder both mean no filter.
pub open spec fn spec_import_where(w: Option<String>) -> Seq<char> {
    match w {
        Some(s) => spec_checked_where(s@),
        None => Seq::<char>::empty(),
    }
}

impl SchemaImport {
    /// Expands the schema import into one request per table, all sharing the
    /// schema, the checked filter, and the truncate flag (absent means no
    /// truncate).
    pub fn table_requests(&self) -> (r: Vec<TableImportRequest>)
        ensures
            r@.len() == self.tables@.len(),
            forall|i: int|
                0 <= i < r@.len() ==> {
                    &&& (#[trigger] r@[i]).schema@ == self.schema@
                    &&& r@[i].table@ == self.tables@[i]@
                    &&& r@[i].where_clause@ == spec_import_where(self.where_clause)
                    &&& r@[i].truncate == (self.truncate is Some && self.truncate.unwrap())
                },
    {
        let where_clause: String = match &self.where_clause {
            Some(w) => checked_where_clause(w.as_str()),
            None => String::new(),
        };
        let truncate: bool = match self.truncate {
            Some(t) => t,
            None => false,
        };
        let mut r: Vec<TableImportRequest> = Vec::new();
        let mut i: usize = 0;
        while i < self.tables.len()
            invariant
                0 <= i <= self.tables@.len(),
                where_clause@ == spec_import_where(self.where_clause),
                truncate == (self.truncate is Some && self.truncate.unwrap()),
                r@.len() == i,
                forall|k: int|
                    0 <= k < r@.len() ==> {
                        &&& (#[trigger] r@[k]).schema@ == self.schema@
                        &&& r@[k].table@ == self.tables@[k]@
                        &&& r@[k].where_clause@ == spec_import_where(self.where_clause)
                        &&& r@[k].truncate == (self.truncate is Some && self.truncate.unwrap())
                    },
            decreases self.tables@.len() - i,
        {
            r.push(
                TableImportRequest {
                    schema: self.schema.clone(),
                    table: self.tables[i].clone(),
                    where_clause: where_clause.clone(),
                    truncate,
                },
            );
            i = i + 1;
        }
        r
    }
}

} // verus!
