//! Order and account requests of the gateway, and how their fields are
//! read: a request that cannot be read is answered with a status code and
//! a message.
use vstd::prelude::*;
use crate::common::error::TradingError;
use crate::ids::{UserId, parse_uuid, uuid_parse_value};
use crate::text::str_eq;

verus! {

/// Request to place an order (price and quantity as decimal text).
#[derive(Debug, Clone)]
pub struct PlaceOrderRequest {
    pub user_id: String,
    pub symbol: String,
    pub side: String,
    pub order_type: String,
    pub price: String,
    pub quantity: String,
    pub time_in_force: Option<String>,
}

/// Reply to an order placed.
#[derive(Debug, Clone)]
pub struct PlaceOrderResponse {
    pub order_id: String,
    pub status: String,
    pub message: String,
}

/// Request to cancel an order.
#[derive(Debug, Clone)]
pub struct CancelOrderRequest {
    pub user_id: String,
    pub symbol: String,
}

/// The best levels of an order book.
#[derive(Debug, Clone)]
pub struct OrderbookResponse {
    pub symbol: String,
    pub bids: Vec<PriceLevel>,
    pub asks: Vec<PriceLevel>,
    pub best_bid: Option<String>,
    pub best_ask: Option<String>,
}

/// A price level (decimal text).
#[derive(Debug, Clone)]
pub struct PriceLevel {
    pub price: String,
    pub quantity: String,
}

/// How many levels of each side of a book to return.
#[derive(Debug, Clone)]
pub struct DepthQuery {
    pub depth: usize,
}

/// Request to open an account with a balance (decimal text).
#[derive(Debug, Clone)]
pub struct RegisterAccountRequest {
    pub user_id: String,
    pub initial_balance: String,
}

/// The depth of a book query that names none.
pub fn default_depth() -> (n: usize)
    ensures
        n == 10,
{
    10
}

/// Side of an order.
#[derive(Debug, Clone, Copy, PartialEq, Eq, Structural)]
pub enum OrderSide {
    Buy,
    Sell,
}

/// Kind of an order.
#[derive(Debug, Clone, Copy, PartialEq, Eq, Structural)]
pub enum OrderKind {
    Limit,
    Market,
}

/// How long an order stays in the book.
#[derive(Debug, Clone, Copy, PartialEq, Eq, Structural)]
pub enum TimeInForce {
    /// Good till cancelled.
    Gtc,
    /// Immediate or cancel.
    Ioc,
    /// Fill or kill.
    Fok,
}

/// Names the lower-case mapping of text computed by `str::to_lowercase`.
pub uninterp spec fn lowercase_of(s: Seq<char>) -> Seq<char>;

/// Calls `str::to_lowercase`: the text in lower case (Unicode's mapping).
#[verifier::external_body]
fn to_lowercase(s: &str) -> (r: String)
    ensures
        r@ == lowercase_of(s@),
{
    s.to_lowercase()
}

/// The fields of an order request once read.
#[derive(Debug)]
pub struct OrderFields<P> {
    pub user_id: UserId,
    pub side: OrderSide,
    pub order_type: OrderKind,
    pub price: P,
    pub quantity: P,
    pub time_in_force: TimeInForce,
}

/// Reads an order request, its price and quantity given as read by the
/// decimal parser (`None` when they cannot be read). Checked in order: the
/// user (a UUID), the side ("buy" or "sell", any case), the kind ("limit"
/// or "market", any case), the price, the quantity, the time in force
/// ("gtc" or none, "ioc", "fok"). A field that cannot be read gives 400
/// with its message.
pub fn read_order_request<P>(req: &PlaceOrderRequest, price: Option<P>, quantity: Option<P>) -> (r: Result<OrderFields<P>, (u16, String)>)
    ensures
        uuid_parse_value(req.user_id@) is None ==> (r matches Err(e) && e.0 == 400 && e.1@ == "Invalid user ID"@),
        uuid_parse_value(req.user_id@) is Some && lowercase_of(req.side@) != "buy"@ && lowercase_of(req.side@) != "sell"@
            ==> (r matches Err(e) && e.0 == 400 && e.1@ == "Invalid side (use 'buy' or 'sell')"@),
        uuid_parse_value(req.user_id@) is Some && (lowercase_of(req.side@) == "buy"@ || lowercase_of(req.side@) == "sell"@)
            && lowercase_of(req.order_type@) != "limit"@ && lowercase_of(req.order_type@) != "market"@
            ==> (r matches Err(e) && e.0 == 400 && e.1@ == "Invalid order type (use 'limit' or 'market')"@),
        r matches Ok(f) ==> (Some(f.user_id.0) == uuid_parse_value(req.user_id@)
            && f.side == (if lowercase_of(req.side@) == "buy"@ { OrderSide::Buy } else { OrderSide::Sell })
            && (lowercase_of(req.side@) == "buy"@ || lowercase_of(req.side@) == "sell"@)
            && f.order_type == (if lowercase_of(req.order_type@) == "limit"@ { OrderKind::Limit } else { OrderKind::Market })
            && (lowercase_of(req.order_type@) == "limit"@ || lowercase_of(req.order_type@) == "market"@)
            && price == Some(f.price) && quantity == Some(f.quantity)
            && f.time_in_force == (match req.time_in_force {
                None => TimeInForce::Gtc,
                Some(t) => if t@ == "gtc"@ { TimeInForce::Gtc } else if t@ == "ioc"@ { TimeInForce::Ioc } else { TimeInForce::Fok },
            })),
        uuid_parse_value(req.user_id@) is Some && (lowercase_of(req.side@) == "buy"@ || lowercase_of(req.side@) == "sell"@)
            && (lowercase_of(req.order_type@) == "limit"@ || lowercase_of(req.order_type@) == "market"@) ==> (
            (price is None ==> (r matches Err(e) && e.0 == 400 && e.1@ == "Invalid price"@))
            && (price is Some && quantity is None ==> (r matches Err(e) && e.0 == 400 && e.1@ == "Invalid quantity"@))
            && (price is Some && quantity is Some ==> match req.time_in_force {
                None => r is Ok,
                Some(t) => if t@ == "gtc"@ || t@ == "ioc"@ || t@ == "fok"@ { r is Ok } else {
                    r matches Err(e) && e.0 == 400 && e.1@ == "Invalid time_in_force"@
                },
            })),
{
    let user_id = match parse_uuid(req.user_id.as_str()) {
        Some(v) => UserId(v),
        None => {
            return Err((400, String::from_str("Invalid user ID")));
        },
    };
    let side_text = to_lowercase(req.side.as_str());
    let side = if str_eq(side_text.as_str(), "buy") {
        OrderSide::Buy
    } else if str_eq(side_text.as_str(), "sell") {
        OrderSide::Sell
    } else {
        return Err((400, String::from_str("Invalid side (use 'buy' or 'sell')")));
    };
    let kind_text = to_lowercase(req.order_type.as_str());
    let order_type = if str_eq(kind_text.as_str(), "limit") {
        OrderKind::Limit
    } else if str_eq(kind_text.as_str(), "market") {
        OrderKind::Market
    } else {
        return Err((400, String::from_str("Invalid order type (use 'limit' or 'market')")));
    };
    let price = match price {
        Some(p) => p,
        None => {
            return Err((400, String::from_str("Invalid price")));
        },
    };
    let quantity = match quantity {
        Some(q) => q,
        None => {
            return Err((400, String::from_str("Invalid quantity")));
        },
    };
    let time_in_force = match &req.time_in_force {
        None => TimeInForce::Gtc,
        Some(t) => {
            if str_eq(t.as_str(), "gtc") {
                TimeInForce::Gtc
            } else if str_eq(t.as_str(), "ioc") {
                TimeInForce::Ioc
            } else if str_eq(t.as_str(), "fok") {
                TimeInForce::Fok
            } else {
                return Err((400, String::from_str("Invalid time_in_force")));
            }
        },
    };
    Ok(OrderFields { user_id, side, order_type, price, quantity, time_in_force })
}

/// Reads a user identifier of a path or request: 400 "Invalid user ID"
/// unless it is a UUID.
pub fn read_user_id(text: &str) -> (r: Result<UserId, (u16, String)>)
    ensures
        match uuid_parse_value(text@) {
            Some(v) => r == Ok::<UserId, (u16, String)>(UserId(v)),
            None => r matches Err(e) && e.0 == 400 && e.1@ == "Invalid user ID"@,
        },
{
    match parse_uuid(text) {
        Some(v) => Ok(UserId(v)),
        None => Err((400, String::from_str("Invalid user ID"))),
    }
}

/// Reads an order identifier of a path: 400 "Invalid order ID" unless it
/// is a UUID.
pub fn read_order_id(text: &str) -> (r: Result<u128, (u16, String)>)
    ensures
        match uuid_parse_value(text@) {
            Some(v) => r == Ok::<u128, (u16, String)>(v),
            None => r matches Err(e) && e.0 == 400 && e.1@ == "Invalid order ID"@,
        },
{
    match parse_uuid(text) {
        Some(v) => Ok(v),
        None => Err((400, String::from_str("Invalid order ID"))),
    }
}

/// The reply to an order the engine refused: a failed risk check (403, its
/// message), an insufficient balance (403), a validation failure (400, its
/// message), anything else (500).
pub fn place_order_failure(e: TradingError) -> (r: (u16, String))
    ensures
        match e {
            TradingError::RiskCheckFailed(m) => r.0 == 403 && r.1 == m,
            TradingError::InsufficientBalance { .. } => r.0 == 403 && r.1@ == "Insufficient balance"@,
            TradingError::OrderValidation(m) => r.0 == 400 && r.1 == m,
            _ => r.0 == 500 && r.1@ == "Internal error"@,
        },
{
    match e {
        TradingError::RiskCheckFailed(m) => (403, m),
        TradingError::InsufficientBalance { .. } => (403, String::from_str("Insufficient balance")),
        TradingError::OrderValidation(m) => (400, m),
        _ => (500, String::from_str("Internal error")),
    }
}

/// The reply to a cancellation the engine refused: an unknown order (404,
/// its message), an authentication failure (401, its message), anything
/// else (500).
pub fn cancel_order_failure(e: TradingError) -> (r: (u16, String))
    ensures
        match e {
            TradingError::OrderNotFound(m) => r.0 == 404 && r.1 == m,
            TradingError::AuthenticationError(m) => r.0 == 401 && r.1 == m,
            _ => r.0 == 500 && r.1@ == "Internal error"@,
        },
{
    match e {
        TradingError::OrderNotFound(m) => (404, m),
        TradingError::AuthenticationError(m) => (401, m),
        _ => (500, String::from_str("Internal error")),
    }
}

} // verus!
