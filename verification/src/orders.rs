//! Order entry and listing: request and response records and the many
//! enumerations of the order endpoints.

use vstd::prelude::*;

verus! {

/// A request to cancel one order.
#[derive(Debug, Clone, Default)]
pub struct CancelOrderRequest {
    pub order_id: i64,
}

/// The outcome of a cancellation.
#[derive(Debug, Clone, Default)]
pub struct CancelOrderResponse {
    pub account_id: String,
    pub order_id: i64,
    pub cancel_time: i64,
    pub messages: Messages,
}

/// One placed order's identifier.
#[derive(Debug, Clone, Default)]
pub struct OrderId {
    pub order_id: i64,
    pub cash_margin: String,
}

/// The disclosures acknowledged with an order.
#[derive(Debug, Clone, Default)]
pub struct Disclosure {
    pub eh_disclosure_flag: bool,
    pub ah_disclosure_flag: bool,
    pub conditional_disclosure_flag: bool,
    pub ao_disclosure_flag: bool,
    pub mf_fl_consent: bool,
    pub mf_eo_consent: bool,
}

/// One preview's identifier.
#[derive(Debug, Clone, Default)]
pub struct PreviewId {
    pub preview_id: i64,
    pub cash_margin: String,
}

/// Parameters for an order listing.
#[derive(Debug, Clone, Default)]
pub struct ListOrdersRequest {
    pub marker: Option<usize>,
    pub count: Option<usize>,
    pub status: Option<OrderStatus>,
    pub from_date: Option<String>,
    pub to_date: Option<String>,
    pub symbol: Option<Vec<String>>,
    pub security_type: Option<crate::SecurityType>,
    pub transaction_type: Option<TransactionType>,
    pub market_session: Option<crate::MarketSession>,
}

/// The messages attached to an order response.
#[derive(Debug, Clone, Default)]
pub struct Messages {
    pub message: Vec<Message>,
}

impl Messages {
    /// Whether no message is attached.
    pub fn is_empty(&self) -> (r: bool)
        ensures
            r == (self.message@.len() == 0),
    {
        self.message.is_empty()
    }
}

/// One message attached to an order response.
#[derive(Debug, Clone, Default)]
pub struct Message {
    pub description: String,
    pub code: i32,
    pub tpe: MessageType,
}

#[derive(Debug, Clone, Copy, PartialEq, Eq, Structural)]
pub enum Currency {
    Usd,
    Eur,
    Gbp,
    Hkd,
    Jpy,
    Cad,
}

#[derive(Debug, Clone, Copy, PartialEq, Eq, Structural)]
pub enum QuantityType {
    Quantity,
    Dollar,
    AllIOwn,
}

#[derive(Debug, Clone, Copy, PartialEq, Eq, Structural)]
pub enum MFTransaction {
    Buy,
    Sell,
}

#[derive(Debug, Clone, Copy, PartialEq, Eq, Structural)]
pub enum OrderAction {
    Buy,
    Sell,
    BuyToCover,
    SellShort,
    BuyOpen,
    BuyClose,
    SellOpen,
    SellClose,
    Exchange,
}

#[derive(Debug, Clone, Copy, PartialEq, Eq, Structural)]
pub enum EventName {
    Unspecified,
    OrderPlaced,
    SentToCms,
    SentToMarket,
    MarketSentAcknowledged,
    CancelRequested,
    OrderModified,
    OrderSentToBrokerReview,
    SystemRejected,
    OrderRejected,
    OrderCancelled,
    CancelRejected,
    OrderExpired,
    OrderExecuted,
    OrderAdjusted,
    OrderReversed,
    ReverseCancellation,
    ReverseExpiration,
    OptionPositionAssigned,
    OpenOrderAdjusted,
    CaCancelled,
    CaBooked,
    IpoAllocated,
    DoneTradeExecuted,
    RejectionReversal,
}

#[derive(Debug, Clone, Copy, PartialEq, Eq, Structural)]
pub enum MessageType {
    Warning,
    Info,
    InfoHold,
    Error,
}

#[derive(Debug, Clone, Copy, PartialEq, Eq, Structural)]
pub enum OrderStatus {
    Open,
    Executed,
    Cancelled,
    IndividualFills,
    CancelRequested,
    Expired,
    Rejected,
    Partial,
    DoNotExercise,
    DoneTradeExecuted,
}

#[derive(Debug, Clone, Copy, PartialEq, Eq, Structural)]
pub enum TransactionType {
    Atnm,
    Buy,
    Sell,
    SellShort,
    BuyToCover,
    MfExchange,
}

#[derive(Debug, Clone, Copy, PartialEq, Eq, Structural)]
pub enum OrderTerm {
    GoodUntilCancel,
    GoodForDay,
    GoodTillDate,
    ImmediateOrCancel,
    FillOrKill,
}

#[derive(Debug, Clone, Copy, PartialEq, Eq, Structural)]
pub enum OrderType {
    Eq,
    Optn,
    Spreads,
    BuyWrites,
    Butterfly,
    IronButterfly,
    Condor,
    IronCondor,
    Mf,
    Mmf,
}

#[derive(Debug, Clone, Copy, PartialEq, Eq, Structural)]
pub enum PriceType {
    Market,
    Limit,
    Stop,
    StopLimit,
    TrailingStopCnstByLowerTrigger,
    UpperTriggerByTrailingStopCnst,
    TrailingStopPrctByLowerTrigger,
    UpperTriggerByTrailingStopPrct,
    TrailingStopCnst,
    TrailingStopPrct,
    HiddenStop,
    HiddenStopByLowerTrigger,
    UpperTriggerByHiddenStop,
    NetDebit,
    NetCredit,
    NetEven,
    MarketOnOpen,
    MarketOnClose,
    LimitOnOpen,
    LimitOnClose,
}

#[derive(Debug, Clone, Copy, PartialEq, Eq, Structural)]
pub enum OffsetType {
    TrailingStopCnst,
    TrailingStopPrct,
}

#[derive(Debug, Clone, Copy, PartialEq, Eq, Structural)]
pub enum RoutingDestination {
    Auto,
    Amex,
    Box,
    Cboe,
    Ise,
    Nom,
    Nyse,
    Phx,
}

#[derive(Debug, Clone, Copy, PartialEq, Eq, Structural)]
pub enum ConditionType {
    Gte,
    Lte,
}

#[derive(Debug, Clone, Copy, PartialEq, Eq, Structural)]
pub enum ConditionFollowPrice {
    Ask,
    Bid,
    Last,
}

#[derive(Debug, Clone, Copy, PartialEq, Eq, Structural)]
pub enum PositionQuantity {
    EntirePosition,
    Cash,
    Margin,
}

#[derive(Debug, Clone, Copy, PartialEq, Eq, Structural)]
pub enum EgQual {
    EgQualUnspecified,
    EgQualQualified,
    EgQualNotInForce,
    EgQualNotAMarketOrder,
    EgQualNotAnEligibleSecurity,
    EgQualInvalidOrderType,
    EgQualSizeNotQualified,
    EgQualOutsideGuaranteedPeriod,
    EgQualIneligibleGateway,
    EgQualIneligibleDueToIpo,
    EgQualIneligibleDueToSelfDirected,
    EgQualIneligibleDueToChangeorder,
}

#[derive(Debug, Clone, Copy, PartialEq, Eq, Structural)]
pub enum ReInvestOption {
    Reinvest,
    Deposit,
    CurrentHolding,
}

#[derive(Debug, Clone, Copy, PartialEq, Eq, Structural)]
pub enum MarginLevelCd {
    Unspecified,
    MarginTradingNotAllowed,
    MarginTradingAllowed,
    MarginTradingAllowedOnOptions,
    MarginTradingAllowedOnPm,
}

impl Default for Currency {
    /// US dollars.
    fn default() -> (r: Currency)
        ensures
            r == Currency::Usd,
    {
        Currency::Usd
    }
}

impl Default for EventName {
    /// An unspecified event.
    fn default() -> (r: EventName)
        ensures
            r == EventName::Unspecified,
    {
        EventName::Unspecified
    }
}

impl Default for MessageType {
    /// An informational message.
    fn default() -> (r: MessageType)
        ensures
            r == MessageType::Info,
    {
        MessageType::Info
    }
}

impl Default for RoutingDestination {
    /// Automatic routing.
    fn default() -> (r: RoutingDestination)
        ensures
            r == RoutingDestination::Auto,
    {
        RoutingDestination::Auto
    }
}

} // verus!
