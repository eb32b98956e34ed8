//! Alert listing: request and response records for the alert endpoints.

use vstd::prelude::*;

verus! {

/// Parameters for an alert listing.
#[derive(Debug, Clone, Default)]
pub struct ListAlertsRequest {
    pub count: Option<usize>,
    pub category: Option<Category>,
    pub status: Option<Status>,
    pub direction: Option<crate::SortOrder>,
    pub search: Option<String>,
}

/// The alerts of the authenticated user.
#[derive(Debug, Clone, Default)]
pub struct AlertsResponse {
    pub total_alerts: i64,
    pub alerts: Vec<Alert>,
}

/// One alert in full.
#[derive(Debug, Clone, Default)]
pub struct AlertDetailsResponse {
    pub id: i64,
    pub create_time: i64,
    pub subject: String,
    pub msg_text: String,
    pub read_time: Option<i64>,
    pub delete_time: Option<i64>,
    pub symbol: Option<String>,
    pub next: String,
    pub prev: String,
}

/// The outcome of deleting alerts.
#[derive(Debug, Clone, Default)]
pub struct DeleteAlertsResponse {
    pub result: String,
    pub failed_alerts: FailedAlerts,
}

/// The alerts a deletion could not remove.
#[derive(Debug, Clone, Default)]
pub struct FailedAlerts {
    pub alert_id: Vec<i64>,
}

/// One alert in a listing.
#[derive(Debug, Clone, Default)]
pub struct Alert {
    pub id: i64,
    pub create_time: i64,
    pub subject: String,
    pub status: Option<Status>,
}

#[derive(Debug, Clone, Copy, PartialEq, Eq, Structural)]
pub enum Category {
    Stock,
    Account,
}

#[derive(Debug, Clone, Copy, PartialEq, Eq, Structural)]
pub enum Status {
    Read,
    Unread,
    Deleted,
}

} // verus!
