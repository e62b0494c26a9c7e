pub mod nonce_store;
pub mod detector;
