//! Replies of the gateway to errors of the trading services.
use vstd::prelude::*;
use crate::common::error::TradingError;
use crate::text::concat3;

verus! {

/// Body of an error reply.
#[derive(Debug, Clone)]
pub struct ErrorResponse {
    pub error: String,
    pub code: String,
}

/// The status, code and message of the reply to an error: invalid orders,
/// prices and quantities are bad requests (400); failed risk checks,
/// insufficient balances and exceeded position limits are forbidden (403);
/// unknown orders and symbols are not found (404); authentication failures
/// are unauthorized (401); database and other errors are internal (500)
/// and do not show their message.
pub fn error_reply(err: TradingError) -> (r: (u16, ErrorResponse))
    ensures
        match err {
            TradingError::OrderValidation(m) => r.0 == 400 && r.1.code@ == "INVALID_ORDER"@ && r.1.error == m,
            TradingError::RiskCheckFailed(m) => r.0 == 403 && r.1.code@ == "RISK_CHECK_FAILED"@ && r.1.error == m,
            TradingError::InsufficientBalance { required, available } => r.0 == 403
                && r.1.code@ == "INSUFFICIENT_BALANCE"@
                && r.1.error@ == "Required: "@ + required@ + ", Available: "@ + available@,
            TradingError::OrderNotFound(m) => r.0 == 404 && r.1.code@ == "ORDER_NOT_FOUND"@ && r.1.error == m,
            TradingError::SymbolNotFound(m) => r.0 == 404 && r.1.code@ == "SYMBOL_NOT_FOUND"@ && r.1.error == m,
            TradingError::InvalidPrice(m) => r.0 == 400 && r.1.code@ == "INVALID_PRICE"@ && r.1.error == m,
            TradingError::InvalidQuantity(m) => r.0 == 400 && r.1.code@ == "INVALID_QUANTITY"@ && r.1.error == m,
            TradingError::PositionLimitExceeded(m) => r.0 == 403 && r.1.code@ == "POSITION_LIMIT_EXCEEDED"@
                && r.1.error == m,
            TradingError::DatabaseError(_) => r.0 == 500 && r.1.code@ == "DATABASE_ERROR"@
                && r.1.error@ == "Internal server error"@,
            TradingError::AuthenticationError(m) => r.0 == 401 && r.1.code@ == "AUTHENTICATION_ERROR"@
                && r.1.error == m,
            _ => r.0 == 500 && r.1.code@ == "INTERNAL_ERROR"@ && r.1.error@ == "Internal server error"@,
        },
{
    let (status, code, message): (u16, &str, String) = match err {
        TradingError::OrderValidation(m) => (400, "INVALID_ORDER", m),
        TradingError::RiskCheckFailed(m) => (403, "RISK_CHECK_FAILED", m),
        TradingError::InsufficientBalance { required, available } => {
            let mut s = concat3("Required: ", required.as_str(), ", Available: ");
            s.append(available.as_str());
            (403, "INSUFFICIENT_BALANCE", s)
        },
        TradingError::OrderNotFound(m) => (404, "ORDER_NOT_FOUND", m),
        TradingError::SymbolNotFound(m) => (404, "SYMBOL_NOT_FOUND", m),
        TradingError::InvalidPrice(m) => (400, "INVALID_PRICE", m),
        TradingError::InvalidQuantity(m) => (400, "INVALID_QUANTITY", m),
        TradingError::PositionLimitExceeded(m) => (403, "POSITION_LIMIT_EXCEEDED", m),
        TradingError::DatabaseError(_) => (500, "DATABASE_ERROR", String::from_str("Internal server error")),
        TradingError::AuthenticationError(m) => (401, "AUTHENTICATION_ERROR", m),
        _ => (500, "INTERNAL_ERROR", String::from_str("Internal server error")),
    };
    (status, ErrorResponse { error: message, code: String::from_str(code) })
}

} // verus!
