pub mod user;
pub mod claims;
pub mod session;
pub mod token;
