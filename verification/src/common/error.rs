//! Errors of the trading services. Amounts are held as their decimal text.
use vstd::prelude::*;
use crate::text::{concat2, concat3};

verus! {

/// Errors of the trading services.
#[derive(Debug)]
pub enum TradingError {
    OrderValidation(String),
    RiskCheckFailed(String),
    InsufficientBalance { required: String, available: String },
    OrderNotFound(String),
    SymbolNotFound(String),
    InvalidPrice(String),
    InvalidQuantity(String),
    PositionLimitExceeded(String),
    OrderbookError(String),
    EventJournalError(String),
    DatabaseError(String),
    KafkaError(String),
    RedisError(String),
    AuthenticationError(String),
    AuthorizationError(String),
    Internal(String),
    /// Any other error, with its message.
    Other(String),
}

impl TradingError {
    /// Human-readable message of the error.
    pub fn message(&self) -> (s: String)
        ensures
            match self {
                TradingError::OrderValidation(m) => s@ == "Order validation failed: "@ + m@,
                TradingError::RiskCheckFailed(m) => s@ == "Risk check failed: "@ + m@,
                TradingError::InsufficientBalance { required, available } =>
                    s@ == "Insufficient balance: required "@ + required@ + ", available "@ + available@,
                TradingError::OrderNotFound(m) => s@ == "Order not found: "@ + m@,
                TradingError::SymbolNotFound(m) => s@ == "Symbol not found: "@ + m@,
                TradingError::InvalidPrice(m) => s@ == "Invalid price: "@ + m@,
                TradingError::InvalidQuantity(m) => s@ == "Invalid quantity: "@ + m@,
                TradingError::PositionLimitExceeded(m) => s@ == "Position limit exceeded: "@ + m@,
                TradingError::OrderbookError(m) => s@ == "Orderbook error: "@ + m@,
                TradingError::EventJournalError(m) => s@ == "Event journal error: "@ + m@,
                TradingError::DatabaseError(m) => s@ == "Database error: "@ + m@,
                TradingError::KafkaError(m) => s@ == "Kafka error: "@ + m@,
                TradingError::RedisError(m) => s@ == "Redis error: "@ + m@,
                TradingError::AuthenticationError(m) => s@ == "Authentication error: "@ + m@,
                TradingError::AuthorizationError(m) => s@ == "Authorization error: "@ + m@,
                TradingError::Internal(m) => s@ == "Internal error: "@ + m@,
                TradingError::Other(m) => s@ == m@,
            },
    {
        match self {
            TradingError::OrderValidation(m) => concat2("Order validation failed: ", m.as_str()),
            TradingError::RiskCheckFailed(m) => concat2("Risk check failed: ", m.as_str()),
            TradingError::InsufficientBalance { required, available } => {
                let mut s = concat3("Insufficient balance: required ", required.as_str(), ", available ");
                s.append(available.as_str());
                s
            },
            TradingError::OrderNotFound(m) => concat2("Order not found: ", m.as_str()),
            TradingError::SymbolNotFound(m) => concat2("Symbol not found: ", m.as_str()),
            TradingError::InvalidPrice(m) => concat2("Invalid price: ", m.as_str()),
            TradingError::InvalidQuantity(m) => concat2("Invalid quantity: ", m.as_str()),
            TradingError::PositionLimitExceeded(m) => concat2("Position limit exceeded: ", m.as_str()),
            TradingError::OrderbookError(m) => concat2("Orderbook error: ", m.as_str()),
            TradingError::EventJournalError(m) => concat2("Event journal error: ", m.as_str()),
            TradingError::DatabaseError(m) => concat2("Database error: ", m.as_str()),
            TradingError::KafkaError(m) => concat2("Kafka error: ", m.as_str()),
            TradingError::RedisError(m) => concat2("Redis error: ", m.as_str()),
            TradingError::AuthenticationError(m) => concat2("Authentication error: ", m.as_str()),
            TradingError::AuthorizationError(m) => concat2("Authorization error: ", m.as_str()),
            TradingError::Internal(m) => concat2("Internal error: ", m.as_str()),
            TradingError::Other(m) => m.clone(),
        }
    }
}

} // verus!
