//! Account listing: request and response records, and the enumerations the
//! account endpoints speak.  These are plain data carriers; serialization to
//! and from the wire format is the host application's concern.

use vstd::prelude::*;

verus! {

/// Parameters for a portfolio listing.
#[derive(Debug, Clone, Default)]
pub struct PortfolioRequest {
    pub count: Option<usize>,
    pub sort_by: Option<PortfolioColumn>,
    pub sort_order: Option<crate::SortOrder>,
    pub market_session: Option<crate::MarketSession>,
    pub totals_required: Option<bool>,
    pub lots_required: Option<bool>,
    pub view: Option<PortfolioView>,
}

/// Parameters for a balance request.
#[derive(Debug, Clone)]
pub struct BalanceRequest {
    pub account_type: Option<AccountType>,
    pub inst_type: String,
    pub real_time_nav: Option<bool>,
}

impl Default for BalanceRequest {
    /// A brokerage-account balance request with nothing else set.
    fn default() -> (r: BalanceRequest)
        ensures
            r.inst_type@ == "BROKERAGE"@,
            r.account_type is None,
            r.real_time_nav is None,
    {
        BalanceRequest { account_type: None, inst_type: "BROKERAGE".to_owned(), real_time_nav: None }
    }
}

/// One account of the authenticated user.
#[derive(Debug, Clone, Default)]
pub struct Account {
    pub inst_no: Option<i32>,
    pub account_id: String,
    pub account_id_key: String,
    pub account_mode: String,
    pub account_desc: String,
    pub account_name: String,
    pub account_type: String,
    pub institution_type: String,
    pub account_status: String,
    pub closed_date: i64,
}

#[derive(Debug, Clone, Copy, PartialEq, Eq, Structural)]
pub enum AccountType {
    Ammchk,
    Aro,
    Bchk,
    Benfira,
    Benfrothira,
    BenfEstateIra,
    BenfMinorIra,
    BenfRothEstateIra,
    BenfRothMinorIra,
    BenfRothTrustIra,
    BenfTrustIra,
    Brkcd,
    Broker,
    Cash,
    CCorp,
    Contributory,
    CoverdellEsa,
    ConversionRothIra,
    Creditcard,
    CommProp,
    Conservator,
    Corporation,
    Csa,
    Custodial,
    Dvp,
    Estate,
    Empchk,
    Empmmca,
    Etchk,
    Etmmchk,
    Heil,
    Heloc,
    Indchk,
    Individual,
    IndividualK,
    Invclub,
    InvclubCCorp,
    InvclubLlcCCorp,
    InvclubLlcPartnership,
    InvclubLlcSCorp,
    InvclubPartnership,
    InvclubSCorp,
    InvclubTrust,
    IraRollover,
    Joint,
    Jtten,
    Jtwros,
    LlcCCorp,
    LlcPartnership,
    LlcSCorp,
    Llp,
    LlpCCorp,
    LlpSCorp,
    Ira,
    Iracd,
    MoneyPurchase,
    Margin,
    Mrchk,
    MutualFund,
    Noncustodial,
    NonProfit,
    Other,
    Partner,
    Partnership,
    PartnershipCCorp,
    PartnershipSCorp,
    PdtAccount,
    PmAccount,
    Prefcd,
    Prefiracd,
    ProfitSharing,
    Proprietary,
    Regcd,
    Rothira,
    RothIndividualK,
    RothIraMinors,
    Sarsepira,
    SCorp,
    Sepira,
    SimpleIra,
    Tic,
    TrdIraMinors,
    Trust,
    Varcd,
    Variracd,
}

#[derive(Debug, Clone, Copy, PartialEq, Eq, Structural)]
pub enum PortfolioView {
    Performance,
    Fundamental,
    Optionswatch,
    Quick,
    Complete,
}

#[derive(Debug, Clone, Copy, PartialEq, Eq, Structural)]
pub enum PortfolioColumn {
    Symbol,
    TypeName,
    ExchangeName,
    Currency,
    Quantity,
    LongOrShort,
    DateAcquired,
    Pricepaid,
    TotalGain,
    TotalGainPct,
    MarketValue,
    Bi,
    Ask,
    PriceChange,
    PriceChangePct,
    Volume,
    Week52High,
    Week52Low,
    Eps,
    PeRatio,
    OptionType,
    StrikePrice,
    Premium,
    Expiration,
    DaysGain,
    Commission,
    Marketcap,
    PrevClose,
    Open,
    DaysRange,
    TotalCost,
    DaysGainPct,
    PctOfPortfolio,
    LastTradeTime,
    BaseSymbolPrice,
    Week52Range,
    LastTrade,
    SymbolDesc,
    BidSize,
    AskSize,
    OtherFees,
    HeldAs,
    OptionMultiplier,
    Deliverables,
    CostPershare,
    Dividend,
    DivYield,
    DivPayDate,
    EstEarn,
    ExDivDate,
    TenDayAvgVol,
    Beta,
    BidAskSpread,
    Marginable,
    Delta52WkHi,
    Delta52WkLow,
    Perf1Mon,
    AnnualDiv,
    Perf12Mon,
    Perf3Mon,
    Perf6Mon,
    PreDayVol,
    Sv1MonAvg,
    Sv10DayAvg,
    Sv20DayAvg,
    Sv2MonAvg,
    Sv3MonAvg,
    Sv4MonAvg,
    Sv6MonAvg,
    Delta,
    Gamma,
    IvPct,
    Theta,
    Vega,
    AdjNonadjFlag,
    DaysExpiration,
    OpenInterest,
    InstrinicValue,
    Rho,
    TypeCode,
    DisplaySymbol,
    AfterHoursPctchange,
    PreMarketPctchange,
    ExpandCollapseFlag,
}

#[derive(Debug, Clone, Copy, PartialEq, Eq, Structural)]
pub enum QuoteStatus {
    Realtime,
    Delayed,
    Closing,
    EhRealtime,
    EhBeforeOpen,
    EhClosed,
}

} // verus!
