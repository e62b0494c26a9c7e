pub mod types;
pub mod ceremony;
pub mod challenge;
pub mod credential_store;
pub mod registration;
pub mod authentication;
