//! Market data: request and response records for quote, lookup, option
//! chain and expiry endpoints.  Price fields are carried elsewhere; these
//! records hold the integral and textual parts the library works with.

use vstd::prelude::*;

verus! {

/// Parameters for an option expiry-date request.
#[derive(Debug, Clone, Default)]
pub struct GetOptionExpireDatesRequest {
    pub expiry_type: Option<ExpiryType>,
    pub symbol: String,
}

/// The expiry dates of an option root.
#[derive(Debug, Clone, Default)]
pub struct OptionExpireDateResponse {
    pub expiration_dates: Vec<ExpirationDate>,
}

/// One expiry date.
#[derive(Debug, Clone, Default)]
pub struct ExpirationDate {
    pub year: i32,
    pub month: i32,
    pub day: i32,
    pub expiry_type: Option<ExpiryType>,
}

/// The expiry date a chain was selected for.
#[derive(Debug, Clone, Default)]
pub struct SelectedED {
    pub month: i32,
    pub year: i32,
    pub day: i32,
}

/// The products matching a lookup.
#[derive(Debug, Clone, Default)]
pub struct LookupResponse {
    pub data: Vec<Data>,
}

/// One product in a lookup result.
#[derive(Debug, Clone, Default)]
pub struct Data {
    pub symbol: String,
    pub description: String,
    pub symbol_type: String,
}

/// Parameters for a quote request.
#[derive(Debug, Clone, Default)]
pub struct GetQuotesRequest {
    pub detail_flag: Option<DetailFlag>,
    pub require_earnings_date: Option<bool>,
    pub override_symbol_count: Option<bool>,
    pub skip_mini_options_check: Option<bool>,
}

/// A mutual fund's redemption terms.
#[derive(Debug, Clone, Default)]
pub struct Redemption {
    pub min_month: String,
    pub fee_percent: String,
    pub is_front_end: String,
    pub front_end_values: Vec<Values>,
    pub redemption_duration_type: String,
    pub is_sales: String,
    pub sales_duration_type: String,
    pub sales_values: Vec<Values>,
}

/// One band of a charge schedule.
#[derive(Debug, Clone, Default)]
pub struct Values {
    pub low: String,
    pub high: String,
    pub percent: String,
}

/// One band of a sales charge.
#[derive(Debug, Clone, Default)]
pub struct SaleChargeValues {
    pub lowhigh: String,
    pub percent: String,
}

#[derive(Debug, Clone, Copy, PartialEq, Eq, Structural)]
pub enum DetailFlag {
    All,
    Fundamental,
    Intraday,
    Options,
    Week52,
    MfDetail,
}

#[derive(Debug, Clone, Copy, PartialEq, Eq, Structural)]
pub enum OptionCategory {
    Standard,
    All,
    Mini,
}

#[derive(Debug, Clone, Copy, PartialEq, Eq, Structural)]
pub enum ChainType {
    Call,
    Put,
    CallPut,
}

#[derive(Debug, Clone, Copy, PartialEq, Eq, Structural)]
pub enum PairType {
    CallOnly,
    PutOnly,
    CallPut,
}

#[derive(Debug, Clone, Copy, PartialEq, Eq, Structural)]
pub enum PriceType {
    Atnm,
    All,
}

#[derive(Debug, Clone, Copy, PartialEq, Eq, Structural)]
pub enum ExpiryType {
    Unspecified,
    Daily,
    Weekly,
    Monthly,
    Quarterly,
    Vix,
    All,
    Monthend,
}

impl Default for ExpiryType {
    /// An unspecified expiry type.
    fn default() -> (r: ExpiryType)
        ensures
            r == ExpiryType::Unspecified,
    {
        ExpiryType::Unspecified
    }
}

} // verus!
