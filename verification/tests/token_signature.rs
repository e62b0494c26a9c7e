use auth_service::jwt::generator::encode_jwt;
use auth_service::jwt::validator::{decode_segment, revocation_verdict, split_token, verify_token_signature, ValidationError};
use p256::ecdsa::signature::Signer;
use p256::ecdsa::{Signature, SigningKey};
use p256::pkcs8::EncodePublicKey;
use sha2::Digest;

fn es256_key() -> (SigningKey, Vec<u8>) {
    let sk = SigningKey::from_slice(&[7u8; 32]).unwrap();
    let der = sk.verifying_key().to_public_key_der().unwrap().as_bytes().to_vec();
    (sk, der)
}

#[test]
fn es256_signature_of_the_payload_verifies() {
    let (sk, der) = es256_key();
    let payload = br#"{"sub":"alice"}"#;
    let sig: Signature = sk.sign(payload);
    let sig_bytes = sig.to_bytes().to_vec();
    assert!(verify_token_signature("ES256", &der, payload, &sig_bytes).is_ok());
}

#[test]
fn tampered_payload_is_an_invalid_signature() {
    let (sk, der) = es256_key();
    let payload = br#"{"sub":"alice"}"#;
    let sig: Signature = sk.sign(payload);
    let sig_bytes = sig.to_bytes().to_vec();
    let forged = br#"{"sub":"mallory"}"#;
    assert!(matches!(
        verify_token_signature("ES256", &der, forged, &sig_bytes),
        Err(ValidationError::InvalidSignature)
    ));
    let other = SigningKey::from_slice(&[9u8; 32]).unwrap();
    let other_der = other.verifying_key().to_public_key_der().unwrap().as_bytes().to_vec();
    assert!(matches!(
        verify_token_signature("ES256", &other_der, payload, &sig_bytes),
        Err(ValidationError::InvalidSignature)
    ));
}

#[test]
fn unreadable_keys_and_other_algorithms_are_refused() {
    let (sk, der) = es256_key();
    let payload = br#"{}"#;
    let sig: Signature = sk.sign(payload);
    let sig_bytes = sig.to_bytes().to_vec();
    assert!(matches!(
        verify_token_signature("HS256", &der, payload, &sig_bytes),
        Err(ValidationError::InvalidSignature)
    ));
    assert!(matches!(
        verify_token_signature("ES256", &[0u8; 32], payload, &sig_bytes),
        Err(ValidationError::InvalidSignature)
    ));
    assert!(matches!(
        verify_token_signature("RS256", &[0u8; 32], payload, &sig_bytes),
        Err(ValidationError::InvalidSignature)
    ));
    assert!(matches!(
        verify_token_signature("ES384", &der, payload, &sig_bytes),
        Err(ValidationError::InvalidSignature)
    ));
    assert!(matches!(
        verify_token_signature("ES256", &der, payload, &sig_bytes[..10]),
        Err(ValidationError::InvalidSignature)
    ));
}

#[test]
fn es384_signature_of_the_payload_verifies() {
    let sk = p384::ecdsa::SigningKey::from_slice(&[5u8; 48]).unwrap();
    let der = sk.verifying_key().to_public_key_der().unwrap().as_bytes().to_vec();
    let payload = br#"{"sub":"alice","iss":"auth"}"#;
    let sig: p384::ecdsa::Signature = sk.sign(payload);
    let sig_bytes = sig.to_bytes().to_vec();
    assert!(verify_token_signature("ES384", &der, payload, &sig_bytes).is_ok());
    assert!(matches!(
        verify_token_signature("ES384", &der, br#"{"sub":"bob","iss":"auth"}"#, &sig_bytes),
        Err(ValidationError::InvalidSignature)
    ));
    assert!(matches!(
        verify_token_signature("ES256", &der, payload, &sig_bytes),
        Err(ValidationError::InvalidSignature)
    ));
}

#[test]
fn rs256_signature_over_the_sha256_digest_info_verifies() {
    let private = rsa::RsaPrivateKey::new(&mut rand::rngs::OsRng, 1024).unwrap();
    let der = private.to_public_key().to_public_key_der().unwrap().as_bytes().to_vec();
    let payload = br#"{"sub":"alice"}"#;
    let digest = sha2::Sha256::digest(payload);
    let mut digest_info = vec![
        0x30u8, 0x31, 0x30, 0x0d, 0x06, 0x09, 0x60, 0x86, 0x48, 0x01, 0x65, 0x03, 0x04, 0x02, 0x01, 0x05, 0x00, 0x04, 0x20,
    ];
    digest_info.extend_from_slice(&digest);
    let sig = private.sign(rsa::pkcs1v15::Pkcs1v15Sign::new_unprefixed(), &digest_info).unwrap();
    assert!(verify_token_signature("RS256", &der, payload, &sig).is_ok());
    assert!(matches!(
        verify_token_signature("RS256", &der, br#"{"sub":"mallory"}"#, &sig),
        Err(ValidationError::InvalidSignature)
    ));
    assert!(matches!(
        verify_token_signature("ES256", &der, payload, &sig),
        Err(ValidationError::InvalidSignature)
    ));
}

#[test]
fn revoked_tokens_are_refused_and_failed_lookups_pass() {
    assert!(matches!(revocation_verdict(Some(true)), Err(ValidationError::Revoked)));
    assert!(revocation_verdict(Some(false)).is_ok());
    assert!(revocation_verdict(None).is_ok());
}

#[test]
fn encoded_token_signed_over_its_payload_validates() {
    let (sk, der) = es256_key();
    let header = br#"{"alg":"ES256","typ":"JWT","kid":"key-1"}"#;
    let payload = br#"{"sub":"alice","type":"access"}"#;
    let sig: Signature = sk.sign(payload);
    let token = encode_jwt(header, payload, &sig.to_bytes());
    let parts = split_token(&token).unwrap();
    let got_payload = decode_segment(&parts[1]).unwrap();
    let got_sig = decode_segment(&parts[2]).unwrap();
    assert!(verify_token_signature("ES256", &der, &got_payload, &got_sig).is_ok());
}
