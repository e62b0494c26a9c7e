use auth_service::ids::{now_micros, UserId};
use auth_service::jwt::encoding::b64url_encode;
use auth_service::webauthn::authentication::{AuthenticationResponse, AuthenticationVerifier};
use auth_service::webauthn::challenge::{ChallengeGenerator, ChallengeType, InMemoryChallengeStore, StoredChallenge};
use auth_service::webauthn::credential_store::{CredentialMetadata, InMemoryCredentialStore, StoredCredential};
use auth_service::webauthn::registration::{RegistrationResponse, RegistrationVerifier};
use auth_service::webauthn::types::{
    AssertionResponse, AttestationResponse, AuthenticatorResponse, AuthenticatorType, ClientData,
    CredentialDescriptor, PublicKeyCredential, WebAuthnError,
};
use ciborium::Value;
use p256::ecdsa::signature::Signer;
use p256::ecdsa::{Signature, SigningKey};
use sha2::{Digest, Sha256};

const RP_ID: &str = "example.com";
const ORIGIN: &str = "https://example.com";
const SEC: i64 = 1_000_000;

fn signing_key() -> SigningKey {
    SigningKey::from_slice(&[7u8; 32]).unwrap()
}

fn cose_es256_key(key: &SigningKey) -> Vec<u8> {
    let point = key.verifying_key().to_encoded_point(false);
    let map = Value::Map(vec![
        (Value::Integer(1.into()), Value::Integer(2.into())),
        (Value::Integer(3.into()), Value::Integer((-7).into())),
        (Value::Integer((-1).into()), Value::Integer(1.into())),
        (Value::Integer((-2).into()), Value::Bytes(point.x().unwrap().to_vec())),
        (Value::Integer((-3).into()), Value::Bytes(point.y().unwrap().to_vec())),
    ]);
    let mut out = Vec::new();
    ciborium::into_writer(&map, &mut out).unwrap();
    out
}

fn auth_data(flags: u8, count: u32, attested: Option<(&[u8], &[u8])>) -> Vec<u8> {
    let mut d = Sha256::digest(RP_ID.as_bytes()).to_vec();
    d.push(flags);
    d.extend_from_slice(&count.to_be_bytes());
    if let Some((cred_id, public_key)) = attested {
        d.extend_from_slice(&[9u8; 16]);
        d.extend_from_slice(&(cred_id.len() as u16).to_be_bytes());
        d.extend_from_slice(cred_id);
        d.extend_from_slice(public_key);
    }
    d
}

fn attestation_object(auth_data: Vec<u8>) -> Vec<u8> {
    let map = Value::Map(vec![
        (Value::Text("fmt".to_string()), Value::Text("none".to_string())),
        (Value::Text("attStmt".to_string()), Value::Map(vec![])),
        (Value::Text("authData".to_string()), Value::Bytes(auth_data)),
    ]);
    let mut out = Vec::new();
    ciborium::into_writer(&map, &mut out).unwrap();
    out
}

fn client_data(type_: &str, challenge: &[u8]) -> ClientData {
    ClientData {
        type_: type_.to_string(),
        challenge: b64url_encode(challenge),
        origin: ORIGIN.to_string(),
        cross_origin: None,
    }
}

fn challenge_for(user: UserId, kind: ChallengeType, now: i64) -> StoredChallenge {
    ChallengeGenerator::default().generate_at(user, kind, now)
}

fn copy_challenge(c: &StoredChallenge) -> StoredChallenge {
    StoredChallenge {
        challenge: c.challenge.clone(),
        user_id: c.user_id,
        created_at: c.created_at,
        expires_at: c.expires_at,
        challenge_type: c.challenge_type,
    }
}

fn register(
    challenges: &mut InMemoryChallengeStore,
    credentials: &mut InMemoryCredentialStore,
    user: UserId,
    cred_id: &[u8],
    now: i64,
) -> Result<StoredCredential, WebAuthnError> {
    let verifier = RegistrationVerifier::new(RP_ID.to_string(), ORIGIN.to_string());
    let challenge = challenge_for(user, ChallengeType::Registration, now);
    let bytes = challenge.challenge.clone();
    let id = challenges.store(challenge).unwrap();
    let key = cose_es256_key(&signing_key());
    let response = RegistrationResponse {
        challenge_id: id,
        credential: PublicKeyCredential {
            id: b64url_encode(cred_id),
            raw_id: cred_id.to_vec(),
            response: AuthenticatorResponse::Attestation(AttestationResponse {
                client_data_json: b"{}".to_vec(),
                attestation_object: attestation_object(auth_data(0x45, 0, Some((cred_id, &key)))),
                transports: Some(vec!["usb".to_string()]),
            }),
            authenticator_attachment: Some("platform".to_string()),
            client_extension_results: None,
        },
        device_id: None,
        credential_name: Some("laptop".to_string()),
    };
    verifier.verify(challenges, credentials, response, Ok(client_data("webauthn.create", &bytes)), now + SEC)
}

#[test]
fn test_authenticator_data_parsing() {
    let verifier = AuthenticationVerifier::new("example.com".to_string(), "https://example.com".to_string());
    let mut data = vec![0u8; 37];
    data[32] = 0x01;
    data[33..37].copy_from_slice(&42u32.to_be_bytes());
    let parsed = verifier.parse_auth_data_bytes(&data).unwrap();
    assert!(parsed.flags.user_present);
    assert_eq!(parsed.sign_count, 42);
    assert!(matches!(verifier.parse_auth_data_bytes(&data[..36]), Err(WebAuthnError::DecodingError(_))));
}

#[test]
fn test_challenge_generation() {
    let generator = ChallengeGenerator::default();
    let user_id = UserId::new();
    let challenge = generator.generate(user_id, ChallengeType::Registration).unwrap();
    assert_eq!(challenge.challenge.len(), 32);
    assert_eq!(challenge.user_id, user_id);
    assert_eq!(challenge.challenge_type, ChallengeType::Registration);
    assert!(challenge.expires_at > challenge.created_at);
}

#[test]
fn test_challenge_uniqueness() {
    let generator = ChallengeGenerator::default();
    let user_id = UserId::new();
    let challenge1 = generator.generate(user_id, ChallengeType::Registration).unwrap();
    let challenge2 = generator.generate(user_id, ChallengeType::Registration).unwrap();
    assert_ne!(challenge1.challenge, challenge2.challenge);
}

#[test]
fn test_credential_descriptor() {
    let cred_id = vec![1, 2, 3, 4, 5];
    let transports = Some(vec!["usb".to_string(), "nfc".to_string()]);
    let descriptor = CredentialDescriptor::new(cred_id.clone(), transports.clone());
    assert_eq!(descriptor.type_, "public-key");
    assert_eq!(descriptor.id, "AQIDBAU");
    assert_eq!(descriptor.transports, transports);
}

#[test]
fn challenge_is_single_use() {
    let mut store = InMemoryChallengeStore::new();
    let now = 1_000 * SEC;
    let id = store.store(challenge_for(UserId(1), ChallengeType::Authentication, now)).unwrap();
    assert!(store.challenge_exists(&id).unwrap());
    assert!(store.consume_at(&id, now + SEC).is_ok());
    assert!(!store.challenge_exists(&id).unwrap());
    assert!(matches!(store.consume_at(&id, now + SEC), Err(WebAuthnError::ChallengeNotFound)));
}

#[test]
fn expired_challenge_is_refused_and_dropped() {
    let mut store = InMemoryChallengeStore::new();
    let now = 1_000 * SEC;
    let id = store.store(challenge_for(UserId(1), ChallengeType::Authentication, now)).unwrap();
    assert!(matches!(store.consume_at(&id, now + 301 * SEC), Err(WebAuthnError::ChallengeExpired)));
    assert!(!store.challenge_exists(&id).unwrap());
    let a = store.store(challenge_for(UserId(2), ChallengeType::Registration, now)).unwrap();
    let _b = store.store(challenge_for(UserId(3), ChallengeType::Registration, now + 200 * SEC)).unwrap();
    assert_eq!(store.cleanup_expired_at(now + 400 * SEC).unwrap(), 1);
    assert!(!store.challenge_exists(&a).unwrap());
}

fn credential(id: &[u8], user: UserId) -> StoredCredential {
    StoredCredential {
        credential_id: id.to_vec(),
        user_id: user,
        device_id: None,
        public_key: vec![1, 2, 3],
        sign_count: 0,
        metadata: CredentialMetadata {
            authenticator_type: AuthenticatorType::CrossPlatform,
            aaguid: [0u8; 16],
            transports: None,
            name: None,
            backup_eligible: false,
            backup_state: false,
        },
        created_at: 0,
        last_used_at: None,
    }
}

#[test]
fn credential_store_operations() {
    let mut store = InMemoryCredentialStore::new();
    store.store(credential(&[1, 2], UserId(1))).unwrap();
    store.store(credential(&[3, 4], UserId(1))).unwrap();
    store.store(credential(&[5, 6], UserId(2))).unwrap();
    assert!(matches!(store.store(credential(&[1, 2], UserId(9))), Err(WebAuthnError::CredentialExists(h)) if h == "0102"));
    assert_eq!(store.get(&[1, 2]).unwrap().user_id, UserId(1));
    assert_eq!(store.get_user_credentials(&UserId(1)).unwrap().len(), 2);
    let mut updated = credential(&[1, 2], UserId(1));
    updated.sign_count = 9;
    store.update(updated).unwrap();
    assert_eq!(store.get(&[1, 2]).unwrap().sign_count, 9);
    assert!(matches!(store.update(credential(&[7], UserId(1))), Err(WebAuthnError::CredentialNotFound(_))));
    assert_eq!(store.delete_user_credentials(&UserId(1)).unwrap(), 2);
    assert!(!store.credential_exists(&[3, 4]).unwrap());
    assert!(store.credential_exists(&[5, 6]).unwrap());
    store.delete(&[5, 6]).unwrap();
    assert!(matches!(store.delete(&[5, 6]), Err(WebAuthnError::CredentialNotFound(_))));
}

#[test]
fn registration_stores_the_attested_credential() {
    let mut challenges = InMemoryChallengeStore::new();
    let mut credentials = InMemoryCredentialStore::new();
    let now = now_micros();
    let c = register(&mut challenges, &mut credentials, UserId(42), &[0xAA, 0xBB], now).unwrap();
    assert_eq!(c.credential_id, vec![0xAA, 0xBB]);
    assert_eq!(c.user_id, UserId(42));
    assert_eq!(c.sign_count, 0);
    assert_eq!(c.metadata.authenticator_type, AuthenticatorType::Platform);
    assert_eq!(c.metadata.aaguid, [9u8; 16]);
    assert_eq!(c.metadata.name, Some("laptop".to_string()));
    assert_eq!(c.public_key, cose_es256_key(&signing_key()));
    assert!(credentials.credential_exists(&[0xAA, 0xBB]).unwrap());
    assert!(matches!(
        register(&mut challenges, &mut credentials, UserId(42), &[0xAA, 0xBB], now),
        Err(WebAuthnError::CredentialExists(_))
    ));
}

#[test]
fn registration_refuses_wrong_origin_and_consumes_the_challenge() {
    let mut challenges = InMemoryChallengeStore::new();
    let mut credentials = InMemoryCredentialStore::new();
    let verifier = RegistrationVerifier::new(RP_ID.to_string(), ORIGIN.to_string());
    let now = 1_000 * SEC;
    let challenge = challenge_for(UserId(1), ChallengeType::Registration, now);
    let bytes = challenge.challenge.clone();
    let id = challenges.store(challenge).unwrap();
    let mut cd = client_data("webauthn.create", &bytes);
    cd.origin = "https://evil.example".to_string();
    let response = RegistrationResponse {
        challenge_id: id.clone(),
        credential: PublicKeyCredential {
            id: "AQ".to_string(),
            raw_id: vec![1],
            response: AuthenticatorResponse::Attestation(AttestationResponse {
                client_data_json: b"{}".to_vec(),
                attestation_object: attestation_object(auth_data(0x41, 0, Some((&[1], &[2])))),
                transports: None,
            }),
            authenticator_attachment: None,
            client_extension_results: None,
        },
        device_id: None,
        credential_name: None,
    };
    let r = verifier.verify(&mut challenges, &mut credentials, response, Ok(cd), now + SEC);
    assert!(matches!(r, Err(WebAuthnError::InvalidOrigin { actual, .. }) if actual == "https://evil.example"));
    assert!(!challenges.challenge_exists(&id).unwrap());
}

#[test]
fn registration_reads_attested_data() {
    let verifier = RegistrationVerifier::new(RP_ID.to_string(), ORIGIN.to_string());
    let data = auth_data(0x41, 7, Some((&[1, 2, 3], &[4, 5])));
    let parsed = verifier.parse_authenticator_data(&attestation_object(data)).unwrap();
    let acd = parsed.attested_credential_data.unwrap();
    assert_eq!(acd.credential_id, vec![1, 2, 3]);
    assert_eq!(acd.credential_public_key, vec![4, 5]);
    assert_eq!(parsed.sign_count, 7);
    let mut short = auth_data(0x41, 7, Some((&[1, 2, 3], &[])));
    short.truncate(56);
    assert!(matches!(verifier.parse_auth_data_bytes(&short), Err(WebAuthnError::DecodingError(m)) if m == "credential ID incomplete"));
    assert!(matches!(verifier.parse_authenticator_data(&[0xff]), Err(WebAuthnError::DecodingError(_))));
}

fn authenticate(
    challenges: &mut InMemoryChallengeStore,
    credentials: &mut InMemoryCredentialStore,
    user: UserId,
    cred_id: &[u8],
    count: u32,
    now: i64,
    tamper: bool,
) -> Result<auth_service::webauthn::authentication::AuthenticationResult, WebAuthnError> {
    let verifier = AuthenticationVerifier::new(RP_ID.to_string(), ORIGIN.to_string());
    let challenge = challenge_for(user, ChallengeType::Authentication, now);
    let bytes = challenge.challenge.clone();
    let id = challenges.store(challenge).unwrap();
    let data = auth_data(0x05, count, None);
    let client_json = b"{\"type\":\"webauthn.get\"}".to_vec();
    let mut signed = data.clone();
    signed.extend_from_slice(&Sha256::digest(&client_json));
    let sig: Signature = signing_key().sign(&signed);
    let mut sig_bytes = sig.to_bytes().to_vec();
    if tamper {
        sig_bytes[10] ^= 1;
    }
    let response = AuthenticationResponse {
        challenge_id: id,
        credential: PublicKeyCredential {
            id: b64url_encode(cred_id),
            raw_id: cred_id.to_vec(),
            response: AuthenticatorResponse::Assertion(AssertionResponse {
                client_data_json: client_json,
                authenticator_data: data,
                signature: sig_bytes,
                user_handle: None,
            }),
            authenticator_attachment: None,
            client_extension_results: None,
        },
    };
    verifier.verify(challenges, credentials, response, Ok(client_data("webauthn.get", &bytes)), now + SEC)
}

#[test]
fn authentication_verifies_es256_signature_and_counter() {
    let mut challenges = InMemoryChallengeStore::new();
    let mut credentials = InMemoryCredentialStore::new();
    let now = now_micros();
    register(&mut challenges, &mut credentials, UserId(5), &[1, 1], now).unwrap();

    let result = authenticate(&mut challenges, &mut credentials, UserId(5), &[1, 1], 3, now, false).unwrap();
    assert_eq!(result.user_id, UserId(5));
    assert_eq!(result.credential_id, vec![1, 1]);
    assert_eq!(result.new_sign_count, 3);
    assert!(result.user_verified);
    let stored = credentials.get(&[1, 1]).unwrap();
    assert_eq!(stored.sign_count, 3);
    assert_eq!(stored.last_used_at, Some(now + SEC));

    // A counter that does not grow is refused as a possible clone.
    assert!(matches!(
        authenticate(&mut challenges, &mut credentials, UserId(5), &[1, 1], 3, now, false),
        Err(WebAuthnError::InvalidSignature)
    ));
    // A tampered signature is refused.
    assert!(matches!(
        authenticate(&mut challenges, &mut credentials, UserId(5), &[1, 1], 4, now, true),
        Err(WebAuthnError::InvalidSignature)
    ));
    // Another user's challenge cannot use the credential.
    assert!(matches!(
        authenticate(&mut challenges, &mut credentials, UserId(6), &[1, 1], 5, now, false),
        Err(WebAuthnError::InvalidSignature)
    ));
    // An unknown credential.
    assert!(matches!(
        authenticate(&mut challenges, &mut credentials, UserId(5), &[2, 2], 6, now, false),
        Err(WebAuthnError::CredentialNotFound(h)) if h == "0202"
    ));
}

#[test]
fn unsupported_cose_algorithm_is_reported() {
    let verifier = AuthenticationVerifier::new(RP_ID.to_string(), ORIGIN.to_string());
    let map = Value::Map(vec![(Value::Integer(3.into()), Value::Integer((-8).into()))]);
    let mut key = Vec::new();
    ciborium::into_writer(&map, &mut key).unwrap();
    assert!(matches!(verifier.verify_signature(&key, b"m", b"s"), Err(WebAuthnError::UnsupportedAlgorithm(-8))));
    let map = Value::Map(vec![(Value::Integer(1.into()), Value::Integer(2.into()))]);
    let mut key = Vec::new();
    ciborium::into_writer(&map, &mut key).unwrap();
    assert!(matches!(verifier.verify_signature(&key, b"m", b"s"), Err(WebAuthnError::DecodingError(m)) if m == "Algorithm not found"));
}

#[test]
fn options_carry_the_challenge_and_credentials() {
    let verifier = AuthenticationVerifier::new(RP_ID.to_string(), ORIGIN.to_string());
    let challenge = challenge_for(UserId(1), ChallengeType::Authentication, 0);
    let options = verifier.build_options(&copy_challenge(&challenge), "cid".to_string(), vec![credential(&[1], UserId(1))]);
    assert_eq!(options.challenge, b64url_encode(&challenge.challenge));
    assert_eq!(options.rp_id, "example.com");
    assert_eq!(options.timeout, Some(60000));
    assert_eq!(options.allow_credentials.unwrap()[0].id, "AQ");
    let none = verifier.build_options(&challenge, "cid".to_string(), vec![]);
    assert!(none.allow_credentials.is_none());
}

#[test]
fn registration_options_store_a_fresh_challenge() {
    let verifier = RegistrationVerifier::new(RP_ID.to_string(), ORIGIN.to_string());
    let mut challenges = InMemoryChallengeStore::new();
    let mut credentials = InMemoryCredentialStore::new();
    credentials.store(credential(&[5, 6], UserId(3))).unwrap();
    credentials.store(credential(&[7], UserId(4))).unwrap();
    let generator = ChallengeGenerator::new(300);
    let now = 1_000 * SEC;
    let options = verifier
        .create_options(&mut challenges, &credentials, UserId(3), "alice".to_string(), "Alice".to_string(), &generator, Some(AuthenticatorType::Platform), now)
        .unwrap();
    assert_eq!(options.rp.id, RP_ID);
    assert_eq!(options.user.name, "alice");
    let excluded = options.exclude_credentials.unwrap();
    assert_eq!(excluded.len(), 1);
    assert_eq!(excluded[0].id, b64url_encode(&[5, 6]));
    assert_eq!(options.challenge.len(), 43);
    assert!(challenges.challenge_exists(&options.challenge_id).unwrap());
    let stored = challenges.consume_at(&options.challenge_id, now + 300 * SEC).unwrap();
    assert_eq!(b64url_encode(&stored.challenge), options.challenge);
    assert_eq!(stored.user_id, UserId(3));
    assert_eq!(stored.challenge_type, ChallengeType::Registration);
    assert_eq!(stored.expires_at, now + 300 * SEC);
}

#[test]
fn authentication_options_allow_the_users_credentials() {
    let verifier = AuthenticationVerifier::new(RP_ID.to_string(), ORIGIN.to_string());
    let mut challenges = InMemoryChallengeStore::new();
    let credentials = InMemoryCredentialStore::new();
    let generator = ChallengeGenerator::new(60);
    let options = verifier.create_options(&mut challenges, &credentials, UserId(9), &generator, 5 * SEC).unwrap();
    assert!(options.allow_credentials.is_none());
    let stored = challenges.consume_at(&options.challenge_id, 5 * SEC).unwrap();
    assert_eq!(stored.challenge_type, ChallengeType::Authentication);
    assert_eq!(b64url_encode(&stored.challenge), options.challenge);
}
