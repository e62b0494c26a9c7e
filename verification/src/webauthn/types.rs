//! WebAuthn core types: errors, options, authenticator data and its flags.
use vstd::prelude::*;
use crate::authz::value::AttrValue;
use crate::jwt::encoding::{b64url_encode, b64url_text};
use crate::text::{concat2, concat3, string_views, int_to_text, int_text};

verus! {

/// WebAuthn errors.
#[derive(Debug)]
pub enum WebAuthnError {
    InvalidChallenge,
    ChallengeExpired,
    ChallengeNotFound,
    InvalidOrigin { expected: String, actual: String },
    InvalidRpId { expected: String, actual: String },
    UserVerificationFailed,
    InvalidSignature,
    CredentialNotFound(String),
    CredentialExists(String),
    InvalidAttestation,
    UnsupportedAlgorithm(i64),
    DecodingError(String),
    StorageError(String),
    SerializationError(String),
}

impl WebAuthnError {
    /// Human-readable message of the error.
    pub fn message(&self) -> (s: String)
        ensures
            match self {
                WebAuthnError::InvalidChallenge => s@ == "Invalid challenge"@,
                WebAuthnError::ChallengeExpired => s@ == "Challenge expired"@,
                WebAuthnError::ChallengeNotFound => s@ == "Challenge not found"@,
                WebAuthnError::InvalidOrigin { expected, actual } =>
                    s@ == "Invalid origin: expected "@ + expected@ + ", got "@ + actual@,
                WebAuthnError::InvalidRpId { expected, actual } =>
                    s@ == "Invalid RP ID: expected "@ + expected@ + ", got "@ + actual@,
                WebAuthnError::UserVerificationFailed => s@ == "User verification failed"@,
                WebAuthnError::InvalidSignature => s@ == "Invalid signature"@,
                WebAuthnError::CredentialNotFound(m) => s@ == "Credential not found: "@ + m@,
                WebAuthnError::CredentialExists(m) => s@ == "Credential already exists: "@ + m@,
                WebAuthnError::InvalidAttestation => s@ == "Invalid attestation"@,
                WebAuthnError::UnsupportedAlgorithm(a) => s@ == "Unsupported algorithm: "@ + int_text(*a as int),
                WebAuthnError::DecodingError(m) => s@ == "Decoding error: "@ + m@,
                WebAuthnError::StorageError(m) => s@ == "Storage error: "@ + m@,
                WebAuthnError::SerializationError(m) => s@ == "Serialization error: "@ + m@,
            },
    {
        match self {
            WebAuthnError::InvalidChallenge => String::from_str("Invalid challenge"),
            WebAuthnError::ChallengeExpired => String::from_str("Challenge expired"),
            WebAuthnError::ChallengeNotFound => String::from_str("Challenge not found"),
            WebAuthnError::InvalidOrigin { expected, actual } => {
                let mut s = concat3("Invalid origin: expected ", expected.as_str(), ", got ");
                s.append(actual.as_str());
                s
            },
            WebAuthnError::InvalidRpId { expected, actual } => {
                let mut s = concat3("Invalid RP ID: expected ", expected.as_str(), ", got ");
                s.append(actual.as_str());
                s
            },
            WebAuthnError::UserVerificationFailed => String::from_str("User verification failed"),
            WebAuthnError::InvalidSignature => String::from_str("Invalid signature"),
            WebAuthnError::CredentialNotFound(m) => concat2("Credential not found: ", m.as_str()),
            WebAuthnError::CredentialExists(m) => concat2("Credential already exists: ", m.as_str()),
            WebAuthnError::InvalidAttestation => String::from_str("Invalid attestation"),
            WebAuthnError::UnsupportedAlgorithm(a) => {
                let t = int_to_text(*a);
                concat2("Unsupported algorithm: ", t.as_str())
            },
            WebAuthnError::DecodingError(m) => concat2("Decoding error: ", m.as_str()),
            WebAuthnError::StorageError(m) => concat2("Storage error: ", m.as_str()),
            WebAuthnError::SerializationError(m) => concat2("Serialization error: ", m.as_str()),
        }
    }
}

/// Kind of authenticator.
#[derive(Debug, Clone, Copy, PartialEq, Eq, Structural)]
pub enum AuthenticatorType {
    /// Built into the device.
    Platform,
    /// Roaming (a security key).
    CrossPlatform,
}

/// User verification preference.
#[derive(Debug, Clone, Copy, PartialEq, Eq, Structural)]
pub enum UserVerification {
    Required,
    Preferred,
    Discouraged,
}

impl Default for UserVerification {
    fn default() -> (v: UserVerification)
        ensures
            v == UserVerification::Preferred,
    {
        UserVerification::Preferred
    }
}

/// Attestation conveyance preference.
#[derive(Debug, Clone, Copy, PartialEq, Eq, Structural)]
pub enum AttestationType {
    /// No attestation wanted ("none").
    NoAttestation,
    Indirect,
    Direct,
    Enterprise,
}

impl Default for AttestationType {
    fn default() -> (a: AttestationType)
        ensures
            a == AttestationType::NoAttestation,
    {
        AttestationType::NoAttestation
    }
}

/// A credential returned by the client.
#[derive(Debug)]
pub struct PublicKeyCredential {
    /// Credential identifier (base64url).
    pub id: String,
    pub raw_id: Vec<u8>,
    pub response: AuthenticatorResponse,
    pub authenticator_attachment: Option<String>,
    pub client_extension_results: Option<AttrValue>,
}

/// The authenticator's response: attestation on registration, assertion on authentication.
#[derive(Debug)]
pub enum AuthenticatorResponse {
    Attestation(AttestationResponse),
    Assertion(AssertionResponse),
}

/// Response of a registration ceremony.
#[derive(Debug)]
pub struct AttestationResponse {
    pub client_data_json: Vec<u8>,
    /// CBOR attestation object.
    pub attestation_object: Vec<u8>,
    pub transports: Option<Vec<String>>,
}

/// Response of an authentication ceremony.
#[derive(Debug)]
pub struct AssertionResponse {
    pub client_data_json: Vec<u8>,
    pub authenticator_data: Vec<u8>,
    pub signature: Vec<u8>,
    pub user_handle: Option<Vec<u8>>,
}

/// Authenticator flags (bits 0, 2, 6 and 7 of the flags byte).
#[derive(Debug, Clone, Copy, PartialEq, Eq, Structural)]
pub struct AuthenticatorFlags {
    pub user_present: bool,
    pub user_verified: bool,
    pub attested_credential_data_included: bool,
    pub extension_data_included: bool,
}

/// The flags a byte holds.
pub open spec fn flags_of(byte: u8) -> AuthenticatorFlags {
    AuthenticatorFlags {
        user_present: byte & 0x01 != 0,
        user_verified: byte & 0x04 != 0,
        attested_credential_data_included: byte & 0x40 != 0,
        extension_data_included: byte & 0x80 != 0,
    }
}

/// The byte of a set of flags.
pub open spec fn byte_of(f: AuthenticatorFlags) -> u8 {
    bits_byte(f.user_present, f.user_verified, f.attested_credential_data_included, f.extension_data_included)
}

/// The byte with bits 0, 2, 6 and 7 set as given.
pub open spec fn bits_byte(up: bool, uv: bool, at: bool, ed: bool) -> u8 {
    (if up { 0x01u8 } else { 0u8 }) | (if uv { 0x04u8 } else { 0u8 })
        | (if at { 0x40u8 } else { 0u8 }) | (if ed { 0x80u8 } else { 0u8 })
}

impl AuthenticatorFlags {
    /// The flags of a flags byte.
    pub fn from_byte(byte: u8) -> (f: AuthenticatorFlags)
        ensures
            f == flags_of(byte),
    {
        AuthenticatorFlags {
            user_present: (byte & 0x01) != 0,
            user_verified: (byte & 0x04) != 0,
            attested_credential_data_included: (byte & 0x40) != 0,
            extension_data_included: (byte & 0x80) != 0,
        }
    }

    /// The flags byte (other bits zero).
    pub fn to_byte(&self) -> (b: u8)
        ensures
            b == byte_of(*self),
    {
        (if self.user_present { 0x01u8 } else { 0u8 }) | (if self.user_verified { 0x04u8 } else { 0u8 })
            | (if self.attested_credential_data_included { 0x40u8 } else { 0u8 })
            | (if self.extension_data_included { 0x80u8 } else { 0u8 })
    }
}

/// Reading the flags of the byte of a set of flags gives back the flags;
/// the byte of the flags of a byte keeps exactly its flag bits.
pub proof fn lemma_flags_roundtrip(f: AuthenticatorFlags, byte: u8)
    ensures
        flags_of(byte_of(f)) == f,
        byte_of(flags_of(byte)) == byte & 0xC5,
{
    let up = f.user_present;
    let uv = f.user_verified;
    let at = f.attested_credential_data_included;
    let ed = f.extension_data_included;
    let b = bits_byte(up, uv, at, ed);
    assert((b & 0x01 != 0) == up && (b & 0x04 != 0) == uv && (b & 0x40 != 0) == at && (b & 0x80 != 0) == ed) by (bit_vector)
        requires
            b == (if up { 0x01u8 } else { 0u8 }) | (if uv { 0x04u8 } else { 0u8 })
                | (if at { 0x40u8 } else { 0u8 }) | (if ed { 0x80u8 } else { 0u8 });
    let c = bits_byte(byte & 0x01 != 0, byte & 0x04 != 0, byte & 0x40 != 0, byte & 0x80 != 0);
    assert(c == byte & 0xC5) by (bit_vector)
        requires
            c == (if byte & 0x01 != 0 { 0x01u8 } else { 0u8 }) | (if byte & 0x04 != 0 { 0x04u8 } else { 0u8 })
                | (if byte & 0x40 != 0 { 0x40u8 } else { 0u8 }) | (if byte & 0x80 != 0 { 0x80u8 } else { 0u8 });
}

/// Credential data attested at registration.
#[derive(Debug)]
pub struct AttestedCredentialData {
    pub aaguid: [u8; 16],
    pub credential_id: Vec<u8>,
    /// COSE-encoded public key.
    pub credential_public_key: Vec<u8>,
}

/// Authenticator data.
#[derive(Debug)]
pub struct AuthenticatorData {
    /// SHA-256 of the relying party identifier.
    pub rp_id_hash: [u8; 32],
    pub flags: AuthenticatorFlags,
    /// Signature counter.
    pub sign_count: u32,
    pub attested_credential_data: Option<AttestedCredentialData>,
    pub extensions: Option<Vec<u8>>,
}

/// Client data of a ceremony.
#[derive(Debug)]
pub struct ClientData {
    /// "webauthn.create" or "webauthn.get".
    pub type_: String,
    /// The challenge, base64url.
    pub challenge: String,
    pub origin: String,
    pub cross_origin: Option<bool>,
}

/// Reference to a credential in ceremony options.
#[derive(Debug)]
pub struct CredentialDescriptor {
    pub type_: String,
    /// Credential identifier, base64url.
    pub id: String,
    pub transports: Option<Vec<String>>,
}

impl CredentialDescriptor {
    /// A public-key descriptor of `credential_id`.
    pub fn new(credential_id: Vec<u8>, transports: Option<Vec<String>>) -> (d: CredentialDescriptor)
        ensures
            d.type_@ == "public-key"@,
            d.id@ == b64url_text(credential_id@),
            d.transports == transports,
    {
        CredentialDescriptor {
            type_: String::from_str("public-key"),
            id: b64url_encode(credential_id.as_slice()),
            transports,
        }
    }
}

} // verus!
