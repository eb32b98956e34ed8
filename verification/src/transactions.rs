//! Transaction listing: request records and the textual parts of the
//! transaction details.

use vstd::prelude::*;

verus! {

/// Parameters for a transaction listing.
#[derive(Debug, Clone, Default)]
pub struct ListTransactionsRequest {
    pub start_date: Option<String>,
    pub end_date: Option<String>,
    pub sort_order: Option<crate::SortOrder>,
    pub marker: Option<String>,
    pub count: Option<usize>,
}

/// The spending category of a transaction.
#[derive(Debug, Clone, Default)]
pub struct Category {
    pub category_id: String,
    pub parent_id: String,
    pub category_name: String,
    pub parent_name: String,
}

/// The formats a transaction list can be requested in.
#[derive(Debug, Clone, Copy, PartialEq, Eq, Structural)]
pub enum ListFormat {
    Xls,
    Xlx,
    Json,
    Xml,
}

} // verus!
