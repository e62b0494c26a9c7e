//! Authentication, authorization and risk core of a trading platform:
//! multi-domain identities, RBAC and ABAC policies, token claims and their
//! validation, replay protection, WebAuthn ceremonies, revocation and audit.
pub mod text;
pub mod keyed;
pub mod ids;
pub mod domain;
pub mod authz;
pub mod crypto;
pub mod jwt;
pub mod replay;
pub mod revocation;
pub mod risk;
pub mod webauthn;
pub mod audit;
pub mod common;
pub mod gateway;
pub mod journal;
