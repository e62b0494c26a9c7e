use auth_service::audit::logger::AuditLoggerConfig;
use auth_service::crypto::signer::SigningAlgorithm;
use auth_service::gateway::config::ApiConfig;
use auth_service::revocation::store::RevocationReason;
use auth_service::risk::adaptive_policy::{AuthenticationRequirement, StepUpReason, StepUpTrigger};
use auth_service::webauthn::types::{AttestationType, AuthenticatorFlags, UserVerification};

#[test]
fn test_api_config_default() {
    let config = ApiConfig::default();
    assert_eq!(config.host, "0.0.0.0");
    assert_eq!(config.port, 8080);
    assert!(config.enable_cors);
}

#[test]
fn test_logger_config_default() {
    let config = AuditLoggerConfig::default();
    assert_eq!(config.kafka_brokers, "localhost:9092");
    assert_eq!(config.topic, "auth-audit-events");
    assert!(!config.synchronous);
}

#[test]
fn test_signing_algorithm_conversions() {
    assert_eq!(SigningAlgorithm::Rs256.kms_algorithm(), "RSASSA_PKCS1_V1_5_SHA_256");
    assert_eq!(SigningAlgorithm::Rs256.jwt_algorithm(), "RS256");

    assert_eq!(SigningAlgorithm::from_jwt_algorithm("RS256"), Some(SigningAlgorithm::Rs256));
    assert_eq!(SigningAlgorithm::from_jwt_algorithm("ES256"), Some(SigningAlgorithm::Es256));
    assert_eq!(SigningAlgorithm::from_jwt_algorithm("INVALID"), None);
}

#[test]
fn test_revocation_reason_full_revocation() {
    assert!(RevocationReason::PasswordChange.requires_full_revocation());
    assert!(RevocationReason::UserDeactivated.requires_full_revocation());
    assert!(RevocationReason::SecurityCompromise.requires_full_revocation());
    assert!(RevocationReason::AdminRevocation.requires_full_revocation());

    assert!(!RevocationReason::UserLogout.requires_full_revocation());
    assert!(!RevocationReason::Expiration.requires_full_revocation());
    assert!(!RevocationReason::MaxRotations.requires_full_revocation());
}

#[test]
fn test_revocation_reason_descriptions() {
    assert_eq!(RevocationReason::UserLogout.description(), "User logged out");
    assert_eq!(RevocationReason::PasswordChange.description(), "Password changed");
}

#[test]
fn test_authentication_requirement_ordering() {
    assert!(AuthenticationRequirement::Mfa > AuthenticationRequirement::Basic);
    assert!(AuthenticationRequirement::WebAuthn > AuthenticationRequirement::Mfa);
    assert!(AuthenticationRequirement::StrongMfa > AuthenticationRequirement::WebAuthn);
    assert!(AuthenticationRequirement::Deny > AuthenticationRequirement::StrongMfa);
}

#[test]
fn test_step_up_trigger() {
    let trigger = StepUpTrigger::new(AuthenticationRequirement::Mfa, StepUpReason::HighRisk);

    assert_eq!(trigger.requirement, AuthenticationRequirement::Mfa);
    assert_eq!(trigger.reasons.len(), 1);
    assert!(!trigger.is_denied());
}

#[test]
fn test_step_up_with_reason() {
    let trigger = StepUpTrigger::new(AuthenticationRequirement::WebAuthn, StepUpReason::HighRisk)
        .with_reason(StepUpReason::NewDevice);

    assert_eq!(trigger.reasons.len(), 2);
}

#[test]
fn test_authenticator_flags_parsing() {
    let flags = AuthenticatorFlags::from_byte(0x45);

    assert!(flags.user_present);
    assert!(flags.user_verified);
    assert!(flags.attested_credential_data_included);
    assert!(!flags.extension_data_included);
}

#[test]
fn test_authenticator_flags() {
    let flags = AuthenticatorFlags {
        user_present: true,
        user_verified: true,
        attested_credential_data_included: false,
        extension_data_included: false,
    };

    let byte = flags.to_byte();
    assert_eq!(byte, 0x05);

    let parsed = AuthenticatorFlags::from_byte(byte);
    assert!(parsed.user_present);
    assert!(parsed.user_verified);
    assert!(!parsed.attested_credential_data_included);
    assert!(!parsed.extension_data_included);
}

#[test]
fn test_user_verification_default() {
    let uv: UserVerification = Default::default();
    assert_eq!(uv, UserVerification::Preferred);
}

#[test]
fn test_attestation_type_default() {
    let att: AttestationType = Default::default();
    assert_eq!(att, AttestationType::NoAttestation);
}
