use auth_service::domain::claims::{AccessClaims, StandardClaims};
use auth_service::domain::user::UserDomain;
use auth_service::ids::{SessionId, TokenId, UserId};
use auth_service::audit::correlation::{CorrelationId, TraceContext};
use auth_service::audit::events::{claims_subject, outcome_severity, EventCategory, EventOutcome, Severity};
use auth_service::audit::logger::AuditLoggerBuilder;
use auth_service::common::error::TradingError;
use auth_service::gateway::auth::{login, register, webauthn_register_init, LoginRequest, RegisterRequest, WebAuthnRegisterInitRequest};
use auth_service::gateway::market::{check_candle_query, default_interval, default_limit, CandlestickQuery};
use auth_service::gateway::middleware::error_reply;
use auth_service::gateway::rest::{
    cancel_order_failure, default_depth, place_order_failure, read_order_request, OrderKind, OrderSide,
    PlaceOrderRequest, TimeInForce,
};
use auth_service::gateway::websocket::{client_message_action, orderbook_update, trade_message, WsAction, WsMessage};

#[test]
fn test_correlation_id() {
    let id1 = CorrelationId::new();
    let id2 = CorrelationId::new();
    assert_ne!(id1, id2);
    assert_eq!(id1, id1);
    let uuid_str = id1.to_string();
    let parsed = CorrelationId::parse(&uuid_str).unwrap();
    assert_eq!(id1, parsed);
}

#[test]
fn correlation_id_text() {
    let id = CorrelationId(0x550e8400_e29b_41d4_a716_446655440000);
    assert_eq!(id.to_string(), "550e8400-e29b-41d4-a716-446655440000");
    assert_eq!(CorrelationId::parse("550E8400-E29B-41D4-A716-446655440000"), Some(id));
    assert_eq!(CorrelationId::parse("not-a-uuid"), None);
}

#[test]
fn test_trace_context_creation() {
    let ctx = TraceContext::new();
    assert!(ctx.parent_span_id.is_none());
    assert!(ctx.sampled);
    assert_ne!(ctx.trace_id, 0);
    assert_ne!(ctx.span_id, 0);
}

#[test]
fn test_trace_context_child() {
    let parent = TraceContext::new();
    let child = parent.child_span();
    assert_eq!(child.trace_id, parent.trace_id);
    assert_eq!(child.parent_span_id, Some(parent.span_id));
    assert_ne!(child.span_id, parent.span_id);
    assert_eq!(child.sampled, parent.sampled);
}

#[test]
fn test_traceparent_serialization() {
    let ctx = TraceContext::new();
    let header = ctx.to_traceparent();
    assert!(header.starts_with("00-"));
    assert!(header.contains(&format!("{:032x}", ctx.trace_id)));
}

#[test]
fn test_traceparent_parsing() {
    let original = TraceContext::new();
    let header = original.to_traceparent();
    let parsed = TraceContext::from_traceparent(&header).unwrap();
    assert_eq!(parsed.trace_id, original.trace_id);
    assert_eq!(parsed.sampled, original.sampled);
}

#[test]
fn traceparent_exact_text_and_parse() {
    let ctx = TraceContext { trace_id: 0x0af7651916cd43dd8448eb211c80319c, parent_span_id: Some(0xb7ad6b7169203331), span_id: 5, sampled: false };
    assert_eq!(ctx.to_traceparent(), "00-0af7651916cd43dd8448eb211c80319c-0000000000000000b7ad6b7169203331-00");
    let parsed = TraceContext::from_traceparent("00-0af7651916cd43dd8448eb211c80319c-00f067aa0ba902b700f067aa0ba902b7-01").unwrap();
    assert_eq!(parsed.trace_id, 0x0af7651916cd43dd8448eb211c80319c);
    assert_eq!(parsed.parent_span_id, Some(0x00f067aa0ba902b700f067aa0ba902b7));
    assert!(parsed.sampled);
    assert!(TraceContext::from_traceparent("01-0af7651916cd43dd8448eb211c80319c-00f067aa0ba902b700f067aa0ba902b7-01").is_none());
    assert!(TraceContext::from_traceparent("00-0af7651916cd43dd8448eb211c80319c-00f067aa0ba902b700f067aa0ba902b7-zz").is_none());
    assert!(TraceContext::from_traceparent("00-xyz").is_none());
    let no_parent = TraceContext { trace_id: 1, parent_span_id: None, span_id: 2, sampled: true };
    assert!(no_parent.to_traceparent().ends_with("-00000000000000000000000000000000-01"));
}

#[test]
fn test_logger_builder() {
    let config = AuditLoggerBuilder::new()
        .with_kafka_brokers("kafka:9092".to_string())
        .with_topic("custom-audit".to_string())
        .synchronous()
        .with_buffer_size(500)
        .build();
    assert_eq!(config.kafka_brokers, "kafka:9092");
    assert_eq!(config.topic, "custom-audit");
    assert!(config.synchronous);
    assert_eq!(config.buffer_size, 500);
}

#[test]
fn test_severity_levels() {
    assert_eq!(Severity::Info.name(), "INFO");
    assert_eq!(Severity::Critical.name(), "CRITICAL");
    assert_eq!(EventCategory::Authentication.name(), "authentication");
    assert_eq!(EventOutcome::Partial.name(), "partial");
    assert_eq!(outcome_severity(EventOutcome::Success), Severity::Info);
    assert_eq!(outcome_severity(EventOutcome::Failure), Severity::Medium);
    assert_eq!(outcome_severity(EventOutcome::Partial), Severity::Low);
}

#[test]
fn test_error_response() {
    let (status, body) = error_reply(TradingError::OrderValidation("Invalid price".to_string()));
    assert_eq!(status, 400);
    assert_eq!(body.code, "INVALID_ORDER");
    assert_eq!(body.error, "Invalid price");
    let (status, body) = error_reply(TradingError::InsufficientBalance { required: "10".to_string(), available: "5".to_string() });
    assert_eq!(status, 403);
    assert_eq!(body.error, "Required: 10, Available: 5");
    let (status, body) = error_reply(TradingError::DatabaseError("boom".to_string()));
    assert_eq!(status, 500);
    assert_eq!(body.error, "Internal server error");
    let (status, body) = error_reply(TradingError::KafkaError("x".to_string()));
    assert_eq!(status, 500);
    assert_eq!(body.code, "INTERNAL_ERROR");
}

#[test]
fn trading_error_messages() {
    assert_eq!(TradingError::OrderNotFound("o1".to_string()).message(), "Order not found: o1");
    assert_eq!(
        TradingError::InsufficientBalance { required: "1".to_string(), available: "0".to_string() }.message(),
        "Insufficient balance: required 1, available 0"
    );
    assert_eq!(TradingError::Other("raw".to_string()).message(), "raw");
}

#[test]
fn gateway_defaults() {
    assert_eq!(default_interval(), "1h");
    assert_eq!(default_limit(), 100);
    assert_eq!(default_depth(), 10);
}

#[test]
fn candle_queries_are_checked() {
    assert_eq!(check_candle_query(&CandlestickQuery { interval: "4h".to_string(), limit: 5000 }), Ok(1000));
    assert_eq!(check_candle_query(&CandlestickQuery { interval: "1m".to_string(), limit: 20 }), Ok(20));
    let err = check_candle_query(&CandlestickQuery { interval: "2m".to_string(), limit: 20 }).unwrap_err();
    assert_eq!(err.0, 400);
    assert!(err.1.starts_with("Invalid interval. Supported: 1m, 3m"));
}

fn order(side: &str, kind: &str, tif: Option<&str>) -> PlaceOrderRequest {
    PlaceOrderRequest {
        user_id: "550e8400-e29b-41d4-a716-446655440000".to_string(),
        symbol: "BTC/USD".to_string(),
        side: side.to_string(),
        order_type: kind.to_string(),
        price: "50000".to_string(),
        quantity: "1.5".to_string(),
        time_in_force: tif.map(|s| s.to_string()),
    }
}

#[test]
fn order_requests_are_read() {
    let f = read_order_request(&order("BUY", "Limit", None), Some(1), Some(2)).unwrap();
    assert_eq!(f.side, OrderSide::Buy);
    assert_eq!(f.order_type, OrderKind::Limit);
    assert_eq!(f.time_in_force, TimeInForce::Gtc);
    assert_eq!(f.user_id.0, 0x550e8400_e29b_41d4_a716_446655440000);
    let f = read_order_request(&order("sell", "market", Some("fok")), Some(1), Some(2)).unwrap();
    assert_eq!(f.side, OrderSide::Sell);
    assert_eq!(f.time_in_force, TimeInForce::Fok);
    assert_eq!(read_order_request(&order("hold", "limit", None), Some(1), Some(2)).unwrap_err().1, "Invalid side (use 'buy' or 'sell')");
    assert_eq!(read_order_request(&order("buy", "stop", None), Some(1), Some(2)).unwrap_err().1, "Invalid order type (use 'limit' or 'market')");
    assert_eq!(read_order_request(&order("buy", "limit", None), None, Some(2)).unwrap_err().1, "Invalid price");
    assert_eq!(read_order_request(&order("buy", "limit", None), Some(1), None).unwrap_err().1, "Invalid quantity");
    assert_eq!(read_order_request(&order("buy", "limit", Some("GTC")), Some(1), Some(2)).unwrap_err().1, "Invalid time_in_force");
    let mut bad = order("buy", "limit", None);
    bad.user_id = "nope".to_string();
    assert_eq!(read_order_request(&bad, Some(1), Some(2)).unwrap_err(), (400, "Invalid user ID".to_string()));
}

#[test]
fn engine_failures_map_to_replies() {
    assert_eq!(place_order_failure(TradingError::RiskCheckFailed("limit".to_string())), (403, "limit".to_string()));
    assert_eq!(place_order_failure(TradingError::Internal("x".to_string())), (500, "Internal error".to_string()));
    assert_eq!(cancel_order_failure(TradingError::OrderNotFound("o".to_string())), (404, "o".to_string()));
    assert_eq!(cancel_order_failure(TradingError::AuthenticationError("a".to_string())), (401, "a".to_string()));
}

#[test]
fn websocket_reactions() {
    assert!(matches!(
        client_message_action(Ok(WsMessage::Subscribe { symbol: "BTC/USD".to_string() })),
        WsAction::SendSnapshot { symbol } if symbol == "BTC/USD"
    ));
    assert!(matches!(client_message_action(Ok(WsMessage::Ping)), WsAction::Reply(WsMessage::Pong)));
    assert!(matches!(client_message_action(Ok(WsMessage::Unsubscribe { symbol: "x".to_string() })), WsAction::Ignore));
    assert!(matches!(
        client_message_action(Err("bad json".to_string())),
        WsAction::Reply(WsMessage::Error { message }) if message == "Invalid message format: bad json"
    ));
    let update = orderbook_update("BTC".to_string(), vec![("1".to_string(), "2".to_string())], vec![]);
    assert!(matches!(update, WsMessage::OrderbookUpdate { bids, asks, .. } if bids.len() == 1 && bids[0].price == "1" && asks.is_empty()));
    let trade = trade_message("BTC".to_string(), "1".to_string(), "2".to_string(), OrderSide::Sell, "t".to_string());
    assert!(matches!(trade, WsMessage::Trade { side, .. } if side == "sell"));
}

#[test]
fn stand_in_login_and_registration() {
    let r = login(LoginRequest { email: "alice@example.com".to_string(), password: "x".to_string() });
    assert_eq!(r.user.name, "alice");
    assert_eq!(r.user.role, "trader");
    assert!(r.access_token.starts_with("mock_access_token_"));
    assert!(r.refresh_token.starts_with("mock_refresh_token_"));
    let r = login(LoginRequest { email: "noat".to_string(), password: "x".to_string() });
    assert_eq!(r.user.name, "noat");
    let r = register(RegisterRequest { email: "b@x".to_string(), password: "p".to_string(), name: "Bob".to_string() });
    assert_eq!(r.user.name, "Bob");
    let init = webauthn_register_init(WebAuthnRegisterInitRequest { user_id: "u1".to_string() });
    assert_eq!(init.user.name, "user_u1");
    assert_eq!(init.user.display_name, "User u1");
    assert_eq!(init.pub_key_cred_params[1].alg, -257);
    assert_eq!(init.challenge.len(), 22);
}

#[test]
fn audit_subject_from_claims() {
    let standard = StandardClaims::new("i".to_string(), UserId(5), vec!["a".to_string()], TokenId(1), 0, 1_000_000);
    let claims = AccessClaims {
        standard,
        domain: UserDomain::Institutional,
        device_id: "d".to_string(),
        session_id: SessionId(8).to_string(),
        scopes: vec![],
        nonce: "n".to_string(),
        kid: "k".to_string(),
        ip: "ip".to_string(),
        mfa_verified: false,
        webauthn_verified: false,
        token_version: 1,
    };
    let (user, session) = claims_subject(&claims);
    assert_eq!(user, Some((UserId(5), UserDomain::Institutional)));
    assert_eq!(session, Some(SessionId(8)));
    let mut other = claims.clone();
    other.session_id = "garbage".to_string();
    assert_eq!(claims_subject(&other).1, None);
}

#[test]
fn traceparent_malformed_identifiers_give_none() {
    assert!(TraceContext::from_traceparent("00-abc-def-01").is_none());
    assert!(TraceContext::from_traceparent("00-0af7651916cd43dd8448eb211c80319-00f067aa0ba902b700f067aa0ba902b7-01").is_none());
    assert!(TraceContext::from_traceparent("00-0af7651916cd43dd8448eb211c80319c-00f067aa0ba902b7-01").is_none());
    assert!(TraceContext::from_traceparent("00-0af7651é16cd43dd8448eb211c80319c-00f067aa0ba902b700f067aa0ba902b7-01").is_none());
    let child = TraceContext::new().child_span();
    let parsed = TraceContext::from_traceparent(&child.to_traceparent()).unwrap();
    assert_eq!(parsed.trace_id, child.trace_id);
    assert_eq!(parsed.parent_span_id, child.parent_span_id);
    assert_eq!(parsed.sampled, child.sampled);
}
