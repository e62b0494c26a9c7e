//! The API gateway's requests and replies, its configuration, and the
//! decisions its handlers make: reading order requests, candle queries and
//! client messages, and the replies to errors.
pub mod config;
pub mod auth;
pub mod market;
pub mod rest;
pub mod websocket;
pub mod middleware;
