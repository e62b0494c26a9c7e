//! Audit trail: event kinds, correlation of events and trace context, and
//! the audit logger's configuration.
pub mod events;
pub mod correlation;
pub mod logger;
