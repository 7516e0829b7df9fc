use vstd::prelude::*;
use crate::session::OrderSide;

verus! {

/// Caller credentials for one request. The password lives only in memory
/// for the request's duration; nothing here logs or persists it.
#[derive(Debug)]
pub struct Credentials {
    pub username: String,
    pub password: String,
}

/// A quote request: a symbol, and optional sample count and interval given
/// as decimal strings.
#[derive(Debug)]
pub struct QuoteRequest {
    pub symbol: String,
    pub length: Option<String>,
    pub interval: Option<String>,
}

/// An order request as the facade receives it.
#[derive(Debug)]
pub struct OrderRequest {
    pub credentials: Credentials,
    pub account_id: String,
    pub side: OrderSide,
    pub symbol: String,
    pub quantity: usize,
}

/// A position listing request as the facade receives it.
#[derive(Debug)]
pub struct PositionRequest {
    pub credentials: Credentials,
    pub account_id: String,
}

} // verus!
