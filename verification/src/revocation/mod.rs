pub mod store;
pub mod redis_store;
