//! Messages of the gateway's WebSocket and how a connection reacts to the
//! messages of its client.
use vstd::prelude::*;
use crate::gateway::rest::OrderSide;
use crate::text::concat2;

verus! {

/// A message on the WebSocket.
#[derive(Debug, Clone)]
pub enum WsMessage {
    Subscribe { symbol: String },
    Unsubscribe { symbol: String },
    Trade { symbol: String, price: String, quantity: String, side: String, timestamp: String },
    OrderbookUpdate { symbol: String, bids: Vec<PriceLevel>, asks: Vec<PriceLevel> },
    OrderUpdate { order_id: String, status: String, filled_quantity: String },
    Error { message: String },
    Ping,
    Pong,
}

/// A price level (decimal text).
#[derive(Debug, Clone)]
pub struct PriceLevel {
    pub price: String,
    pub quantity: String,
}

/// What a connection does with a message of its client.
#[derive(Debug)]
pub enum WsAction {
    /// Send the book of the symbol (its best levels), if there is one.
    SendSnapshot { symbol: String },
    /// Send this message back.
    Reply(WsMessage),
    /// Nothing to send (an unsubscription, or a message only the server sends).
    Ignore,
}

/// How many levels of each side a subscription's first snapshot shows.
pub const SNAPSHOT_DEPTH: usize = 10;

/// The reaction to a text from the client, read (`Ok`) or not (`Err` with
/// the reader's error): a subscription asks for a snapshot, a ping is
/// answered by a pong, an unreadable text by an error message
/// ("Invalid message format: " and the error); anything else is ignored.
pub fn client_message_action(msg: Result<WsMessage, String>) -> (a: WsAction)
    ensures
        match msg {
            Err(e) => a matches WsAction::Reply(WsMessage::Error { message }) && message@ == "Invalid message format: "@ + e@,
            Ok(WsMessage::Subscribe { symbol }) => a matches WsAction::SendSnapshot { symbol: s } && s == symbol,
            Ok(WsMessage::Ping) => a matches WsAction::Reply(WsMessage::Pong),
            Ok(_) => a is Ignore,
        },
{
    match msg {
        Err(e) => WsAction::Reply(WsMessage::Error { message: concat2("Invalid message format: ", e.as_str()) }),
        Ok(WsMessage::Subscribe { symbol }) => WsAction::SendSnapshot { symbol },
        Ok(WsMessage::Ping) => WsAction::Reply(WsMessage::Pong),
        Ok(_) => WsAction::Ignore,
    }
}

/// The price levels of (price, quantity) pairs, in order.
pub fn price_levels(levels: &Vec<(String, String)>) -> (r: Vec<PriceLevel>)
    ensures
        r@.len() == levels@.len(),
        forall|i: int| 0 <= i < r@.len() ==> (#[trigger] r@[i]).price@ == levels@[i].0@ && r@[i].quantity@ == levels@[i].1@,
{
    let mut r: Vec<PriceLevel> = Vec::new();
    let n = levels.len();
    let mut i: usize = 0;
    while i < n
        invariant
            n == levels@.len(),
            i <= n,
            r@.len() == i,
            forall|j: int| 0 <= j < i ==> (#[trigger] r@[j]).price@ == levels@[j].0@ && r@[j].quantity@ == levels@[j].1@,
        decreases n - i,
    {
        r.push(PriceLevel { price: levels[i].0.clone(), quantity: levels[i].1.clone() });
        i += 1;
    }
    r
}

/// The update message of a book: its symbol and levels.
pub fn orderbook_update(symbol: String, bids: Vec<(String, String)>, asks: Vec<(String, String)>) -> (m: WsMessage)
    ensures
        m matches WsMessage::OrderbookUpdate { symbol: s, bids: b, asks: a } && s == symbol
            && b@.len() == bids@.len() && a@.len() == asks@.len()
            && (forall|i: int| 0 <= i < b@.len() ==> (#[trigger] b@[i]).price@ == bids@[i].0@ && b@[i].quantity@ == bids@[i].1@)
            && (forall|i: int| 0 <= i < a@.len() ==> (#[trigger] a@[i]).price@ == asks@[i].0@ && a@[i].quantity@ == asks@[i].1@),
{
    WsMessage::OrderbookUpdate { symbol, bids: price_levels(&bids), asks: price_levels(&asks) }
}

/// The message of a trade: the side as "buy" or "sell".
pub fn trade_message(symbol: String, price: String, quantity: String, side: OrderSide, timestamp: String) -> (m: WsMessage)
    ensures
        m matches WsMessage::Trade { symbol: s, price: p, quantity: q, side: sd, timestamp: t }
            && s == symbol && p == price && q == quantity && t == timestamp
            && sd@ == (if side == OrderSide::Buy { "buy"@ } else { "sell"@ }),
{
    let side_text = match side {
        OrderSide::Buy => String::from_str("buy"),
        OrderSide::Sell => String::from_str("sell"),
    };
    WsMessage::Trade { symbol, price, quantity, side: side_text, timestamp }
}

} // verus!
