pub mod encoding;
pub mod validator;
pub mod generator;
