//! Page links of the source ledger's listing endpoints.

use vstd::prelude::*;

verus! {

/// Cursor links of one page of results.
pub struct Pagination {
    pub prev: Option<String>,
    pub next: Option<String>,
}

} // verus!
