//! What a failed lookup in the object store reports.

use vstd::prelude::*;

verus! {

/// The failure of a query.
#[derive(Debug, PartialEq, Eq)]
pub enum QueryError {
    /// The store failed; the text says how.
    DbError(String),
}

/// What introduces the report of a store failure.
pub open spec fn db_error_prefix() -> Seq<char> {
    "internal DB error: "@
}

impl QueryError {
    /// The text of this failure's report.
    pub open spec fn message_text(&self) -> Seq<char> {
        match self {
            QueryError::DbError(cause) => db_error_prefix() + cause@,
        }
    }

    /// The report of this failure, as it is shown to the one who asked.
    pub fn message(&self) -> (out: String)
        ensures
            out@ == self.message_text(),
    {
        match self {
            QueryError::DbError(cause) => {
                let mut out = "internal DB error: ".to_owned();
                out.append(cause.as_str());
                out
            },
        }
    }
}

/// The part of a result list that a query asks for, as the store takes it.
#[derive(Clone, Copy, Debug, PartialEq, Eq, Structural)]
pub struct Page {
    /// The most documents to return.
    pub limit: i64,
    /// How many documents to pass over first.
    pub skip: u64,
}

/// The signed 64-bit number whose bits are those of `v`.
pub open spec fn signed_of(v: u64) -> i64 {
    if v <= i64::MAX {
        v as i64
    } else {
        (v - 0x1_0000_0000_0000_0000) as i64
    }
}

/// The page for a `limit` and a `skip` given as sizes. The store takes the
/// limit as a signed number: a limit beyond the signed range keeps its bits.
pub fn page(limit: usize, skip: usize) -> (p: Page)
    ensures
        p.limit == signed_of(limit as u64),
        p.skip == skip,
{
    let wide: u64 = limit as u64;
    let limit: i64 = if wide <= 0x7fff_ffff_ffff_ffffu64 {
        wide as i64
    } else {
        ((wide as i128) - 0x1_0000_0000_0000_0000i128) as i64
    };
    Page { limit, skip: skip as u64 }
}

impl Clone for QueryError {
    fn clone(&self) -> (out: Self)
        ensures
            out == *self,
    {
        match self {
            QueryError::DbError(cause) => QueryError::DbError(cause.clone()),
        }
    }
}

} // verus!
