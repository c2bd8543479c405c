//! Shared pieces of the destination ledger's responses.

use vstd::prelude::*;

verus! {

/// Response metadata.
pub struct Meta {
    pub pagination: Pagination,
}

/// Paging counters of a listing response.
pub struct Pagination {
    pub total: i64,
    pub count: i64,
    pub per_page: i64,
    pub current_page: i64,
    pub total_pages: i64,
}

} // verus!
