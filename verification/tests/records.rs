//! The shared data records and their defaults.

use etrade::accounts::BalanceRequest;
use etrade::date::{date_from_parts, today_eastern};
use etrade::orders::{Currency, EventName, RoutingDestination};
use etrade::session::UrlConfig;
use etrade::{empty_body, Message, MessageType, Messages};

#[test]
fn messages_know_when_they_are_empty() {
    let empty = Messages { message: vec![] };
    assert!(empty.is_empty());
    let one = Messages {
        message: vec![Message {
            description: "filled".to_string(),
            code: 7,
            tpe: MessageType::Warning,
        }],
    };
    assert!(!one.is_empty());
}

#[test]
fn empty_body_is_none() {
    assert!(empty_body().is_none());
}

#[test]
fn balance_request_defaults_to_brokerage() {
    let r = BalanceRequest::default();
    assert_eq!(r.inst_type, "BROKERAGE");
    assert!(r.account_type.is_none());
    assert!(r.real_time_nav.is_none());
}

#[test]
fn enum_defaults_match_the_wire_conventions() {
    assert_eq!(Currency::default(), Currency::Usd);
    assert_eq!(EventName::default(), EventName::Unspecified);
    assert_eq!(RoutingDestination::default(), RoutingDestination::Auto);
    assert_eq!(
        etrade::orders::MessageType::default(),
        etrade::orders::MessageType::Info
    );
}

#[test]
fn authorize_url_embeds_key_and_token() {
    let urls = UrlConfig::default();
    assert_eq!(
        urls.authorize_url("ck", "rt"),
        "https://us.etrade.com/e/t/etws/authorize?key=ck&token=rt"
    );
    assert_eq!(urls.request_token_url, "https://api.etrade.com/oauth/request_token");
}

/// The clock hands out a calendar date the token cache format can carry.
#[test]
fn todays_eastern_date_is_in_range() {
    let (y, m, d) = today_eastern();
    assert!((1..=12).contains(&m));
    assert!((1..=31).contains(&d));
    assert!(date_from_parts(y, m, d).is_some());
}
