use bourso_core::account::AccountKind;
use bourso_core::error::ClientError;
use bourso_core::session::{
    Operation, OrderSide, Session, SessionState, classify_order_response, should_retry,
};
use bourso_core::summary::{Amount, Position, Summary, flatten_positions};

fn login_page() -> &'static str {
    r#"<form data-matrix-keys="[]"><input name="challengeToken" value="tok-9" /></form>"#
}

fn overview() -> String {
    [
        r#"<a href="/compte-bancaire/boursorama-banque/gerer/s-1a2b">bank</a>"#,
        r#"<a href="/compte-titres/pea/gerer/s-5e6f">pea</a>"#,
    ]
    .concat()
}

#[test]
fn session_starts_uninitialized_and_initializes_once() {
    let mut s = Session::new();
    assert_eq!(s.state, SessionState::Uninitialized);
    s.init_session();
    assert_eq!(s.state, SessionState::Initialized);
    s.init_session();
    assert_eq!(s.state, SessionState::Initialized);
}

#[test]
fn prepare_login_requires_an_initialized_session() {
    let s = Session::new();
    let r = s.prepare_login(login_page(), "user", "");
    assert_eq!(r.unwrap_err(), ClientError::Unauthorized);
}

#[test]
fn prepare_login_builds_the_submission() {
    let mut s = Session::new();
    s.init_session();
    let sub = s.prepare_login(login_page(), "user", "").unwrap();
    assert_eq!(sub.username, "user".to_string());
    assert_eq!(sub.challenge_token, "tok-9".to_string());
    assert_eq!(sub.keys.len(), 0);
}

#[test]
fn prepare_login_surfaces_slot_not_found_before_any_submission() {
    let mut s = Session::new();
    s.init_session();
    let r = s.prepare_login(login_page(), "user", "7");
    assert_eq!(r.unwrap_err(), ClientError::SlotNotFound('7'));
}

#[test]
fn prepare_login_on_page_without_token_is_malformed() {
    let mut s = Session::new();
    s.init_session();
    let r = s.prepare_login(r#"<div data-matrix-keys="[]"></div>"#, "user", "");
    assert_eq!(r.unwrap_err(), ClientError::MalformedPayload);
}

#[test]
fn successful_login_authenticates() {
    let mut s = Session::new();
    s.init_session();
    assert!(s.complete_login("<html>welcome</html>").is_ok());
    assert_eq!(s.state, SessionState::Authenticated);
}

#[test]
fn rejected_credentials_stay_initialized() {
    let mut s = Session::new();
    s.init_session();
    let r = s.complete_login(login_page());
    assert_eq!(r.unwrap_err(), ClientError::Unauthorized);
    assert_eq!(s.state, SessionState::Initialized);
}

#[test]
fn mfa_required_blocks_account_listing() {
    let mut s = Session::new();
    s.init_session();
    let r = s.complete_login(r#"<a href="/securisation">second factor</a>"#);
    assert_eq!(r.unwrap_err(), ClientError::MfaRequired);
    assert_eq!(s.state, SessionState::Initialized);
    let accounts = s.get_accounts(&overview(), None);
    assert_eq!(accounts.unwrap_err(), ClientError::Unauthorized);
}

#[test]
fn authenticated_account_listing_filters_by_kind() {
    let mut s = Session::new();
    s.init_session();
    s.complete_login("ok").unwrap();
    let all = s.get_accounts(&overview(), None).unwrap();
    assert_eq!(all.len(), 2);
    let trading = s.get_accounts(&overview(), Some(AccountKind::Trading)).unwrap();
    assert_eq!(trading.len(), 1);
    assert_eq!(trading[0].id, "5e6f".to_string());
}

#[test]
fn account_listing_detects_a_login_redirect() {
    let mut s = Session::new();
    s.init_session();
    s.complete_login("ok").unwrap();
    let bounced = s.get_accounts(r#"<a href="/connexion">log in</a>"#, None);
    assert_eq!(bounced.unwrap_err(), ClientError::Unauthorized);
}

#[test]
fn prepare_order_finds_the_trading_account() {
    let mut s = Session::new();
    s.init_session();
    s.complete_login("ok").unwrap();
    let trading = s.get_accounts(&overview(), Some(AccountKind::Trading)).unwrap();
    let order = s.prepare_order(&trading, "5e6f", OrderSide::Buy, "1rTCW8", 3, None).unwrap();
    assert_eq!(order.account_id, "5e6f".to_string());
    assert_eq!(order.quantity, 3);
    assert_eq!(order.side, OrderSide::Buy);
    let missing = s.prepare_order(&trading, "zzzz", OrderSide::Sell, "1rTCW8", 3, None);
    assert_eq!(missing.unwrap_err(), ClientError::AccountNotFound);
}

#[test]
fn order_response_classification() {
    assert!(classify_order_response("{}").is_ok());
    let rejected = classify_order_response(r#"{"errorMessage":"insufficient funds"}"#);
    assert_eq!(
        rejected.unwrap_err(),
        ClientError::OrderRejected("insufficient funds".to_string())
    );
    let expired = classify_order_response(r#"<a href="/connexion">log in</a>"#);
    assert_eq!(expired.unwrap_err(), ClientError::Unauthorized);
}

#[test]
fn order_submission_is_never_retried() {
    assert!(!should_retry(Operation::SubmitOrder, 1, true));
    assert!(!should_retry(Operation::SubmitOrder, 1, false));
    assert!(!should_retry(Operation::Login, 1, true));
    assert!(should_retry(Operation::FetchTicks, 1, true));
    assert!(!should_retry(Operation::FetchTicks, 2, true));
    assert!(!should_retry(Operation::FetchTicks, 1, false));
}

fn amount(v: i64) -> Amount {
    Amount { currency: Some("EUR".to_string()), value: v }
}

fn position(symbol: &str, qty: i64) -> Position {
    Position {
        amount: amount(1000),
        label: symbol.to_string(),
        quantity: amount(qty),
        symbol: symbol.to_string(),
    }
}

#[test]
fn trading_summary_needs_authentication_and_a_decoded_payload() {
    let mut s = Session::new();
    s.init_session();
    let before = s.get_trading_summary(Some(vec![]));
    assert_eq!(before.unwrap_err(), ClientError::Unauthorized);
    s.complete_login("ok").unwrap();
    let undecoded = s.get_trading_summary(None);
    assert_eq!(undecoded.unwrap_err(), ClientError::MalformedPayload);
    let segments = vec![Summary { positions: Some(vec![position("AAA", 1)]) }];
    let through = s.get_trading_summary(Some(segments)).map(|v| v.len());
    assert_eq!(through, Ok(1));
}

#[test]
fn positions_flatten_in_order_without_dedup() {
    let summaries = vec![
        Summary { positions: Some(vec![position("AAA", 1), position("BBB", 2)]) },
        Summary { positions: None },
        Summary { positions: Some(vec![position("AAA", 3)]) },
    ];
    let flat = flatten_positions(summaries);
    assert_eq!(flat.len(), 3);
    assert_eq!(flat[0].symbol, "AAA".to_string());
    assert_eq!(flat[0].quantity.value, 1);
    assert_eq!(flat[1].symbol, "BBB".to_string());
    assert_eq!(flat[2].symbol, "AAA".to_string());
    assert_eq!(flat[2].quantity.value, 3);
}

#[test]
fn flatten_of_nothing_is_empty() {
    assert_eq!(flatten_positions(vec![]).len(), 0);
    assert_eq!(flatten_positions(vec![Summary { positions: None }]).len(), 0);
}
