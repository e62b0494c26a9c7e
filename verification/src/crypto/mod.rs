pub mod kms;
pub mod signer;
pub mod key_manager;
