pub mod value;
pub mod types;
pub mod rbac;
pub mod abac;
pub mod policy;
pub mod checker;
