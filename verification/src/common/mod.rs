//! Items shared by the trading services.
pub mod error;
