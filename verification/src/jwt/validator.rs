//! Token validation: the structure of a token and the checks on its claims.
//! Times are Unix times in seconds.
use vstd::prelude::*;
use crate::crypto::kms::KmsError;
use crate::domain::claims::{AccessClaims, RefreshClaims, Claims, StandardClaims};
use crate::jwt::encoding::{b64url_decode, b64url_decoded};
use crate::text::{string_views, split_dots, split_on_dots, lemma_split_dots_nonempty, str_eq, contains_string, concat2};
use crate::crypto::signer::{sha256, sha256_of};
use crate::webauthn::authentication::p256_signature_decodes;

verus! {

/// Validation errors.
#[derive(Debug)]
pub enum ValidationError {
    InvalidFormat,
    InvalidSignature,
    Expired,
    NotYetValid,
    InvalidIssuer { expected: String, actual: String },
    InvalidAudience { expected: String },
    KeyNotFound(String),
    KeyInvalid(String),
    Decoding(String),
    Deserialization(String),
    Kms(KmsError),
    ClockSkew,
    Revoked,
    ReplayDetected,
    InvalidNonce,
    MissingClaim(String),
}

/// Validator configuration.
#[derive(Debug, Clone)]
pub struct ValidatorConfig {
    pub issuer: String,
    pub audience: String,
    /// Tolerated clock difference, in seconds.
    pub clock_skew_seconds: i64,
    /// Oldest accepted token age, in seconds.
    pub max_token_age_seconds: i64,
}

impl Default for ValidatorConfig {
    fn default() -> (c: ValidatorConfig)
        ensures
            c.issuer@ == "trading-platform-auth"@,
            c.audience@ == "trading-platform"@,
            c.clock_skew_seconds == 300,
            c.max_token_age_seconds == 3600,
    {
        ValidatorConfig {
            issuer: String::from_str("trading-platform-auth"),
            audience: String::from_str("trading-platform"),
            clock_skew_seconds: 300,
            max_token_age_seconds: 3600,
        }
    }
}

/// First failed check common to both token kinds, in the order they are made.
pub enum ClaimFailure {
    Issuer,
    Audience,
    Expired,
    NotYetValid,
}

/// The first of the common checks that `s` fails at `now`, if any: issuer,
/// audience, expiry and not-before, the last two with the clock skew.
pub open spec fn common_failure(config: ValidatorConfig, s: StandardClaims, now: int) -> Option<ClaimFailure> {
    if s.iss@ != config.issuer@ {
        Some(ClaimFailure::Issuer)
    } else if !string_views(s.aud@).contains(config.audience@) {
        Some(ClaimFailure::Audience)
    } else if now > s.exp + config.clock_skew_seconds {
        Some(ClaimFailure::Expired)
    } else if now < s.nbf - config.clock_skew_seconds {
        Some(ClaimFailure::NotYetValid)
    } else {
        None
    }
}

/// Whether `r` is the error that reports `f`.
pub open spec fn reports(f: ClaimFailure, config: ValidatorConfig, s: StandardClaims, r: Result<(), ValidationError>) -> bool {
    match f {
        ClaimFailure::Issuer => r matches Err(ValidationError::InvalidIssuer { expected, actual })
            && expected@ == config.issuer@ && actual@ == s.iss@,
        ClaimFailure::Audience => r matches Err(ValidationError::InvalidAudience { expected }) && expected@ == config.audience@,
        ClaimFailure::Expired => r matches Err(ValidationError::Expired),
        ClaimFailure::NotYetValid => r matches Err(ValidationError::NotYetValid),
    }
}

/// Claims pass the common checks exactly when they name the configured
/// issuer, list the configured audience, have not expired and are already
/// valid (both up to the clock skew).
pub proof fn lemma_common_checks_pass_iff(config: ValidatorConfig, s: StandardClaims, now: int)
    ensures
        common_failure(config, s, now) is None <==> (
            s.iss@ == config.issuer@
            && string_views(s.aud@).contains(config.audience@)
            && now <= s.exp + config.clock_skew_seconds
            && now >= s.nbf - config.clock_skew_seconds),
{
}

/// Claims from the configured issuer whose audiences leave out the
/// configured audience fail on the audience, whatever their times.
pub proof fn lemma_foreign_audience_refused(config: ValidatorConfig, s: StandardClaims, now: int)
    requires
        s.iss@ == config.issuer@,
        !string_views(s.aud@).contains(config.audience@),
    ensures
        common_failure(config, s, now) == Some(ClaimFailure::Audience),
{
}

fn check_common(config: &ValidatorConfig, s: &StandardClaims, now: i64) -> (r: Result<(), ValidationError>)
    ensures
        match common_failure(*config, *s, now as int) {
            Some(f) => reports(f, *config, *s, r),
            None => r is Ok,
        },
        r is Ok ==> (s.iss@ == config.issuer@ && string_views(s.aud@).contains(config.audience@)
            && now <= s.exp + config.clock_skew_seconds && now >= s.nbf - config.clock_skew_seconds),
        s.iss@ == config.issuer@ && !string_views(s.aud@).contains(config.audience@)
            ==> (r matches Err(ValidationError::InvalidAudience { expected }) && expected@ == config.audience@),
{
    if !str_eq(s.iss.as_str(), config.issuer.as_str()) {
        return Err(ValidationError::InvalidIssuer { expected: config.issuer.clone(), actual: s.iss.clone() });
    }
    if !contains_string(&s.aud, config.audience.as_str()) {
        return Err(ValidationError::InvalidAudience { expected: config.audience.clone() });
    }
    let now_w = now as i128;
    let skew = config.clock_skew_seconds as i128;
    if now_w > (s.exp as i128) + skew {
        return Err(ValidationError::Expired);
    }
    if now_w < (s.nbf as i128) - skew {
        return Err(ValidationError::NotYetValid);
    }
    Ok(())
}

/// Checks access-token claims at `now`: the common checks, then the token
/// age against the maximum (`ReplayDetected`), then a non-empty nonce.
pub fn validate_access_claims(config: &ValidatorConfig, claims: &AccessClaims, now: i64) -> (r: Result<(), ValidationError>)
    ensures
        match common_failure(*config, claims.standard, now as int) {
            Some(f) => reports(f, *config, claims.standard, r),
            None => if now - claims.standard.iat > config.max_token_age_seconds {
                r matches Err(ValidationError::ReplayDetected)
            } else if claims.nonce@.len() == 0 {
                r matches Err(ValidationError::InvalidNonce)
            } else {
                r is Ok
            },
        },
        r is Ok ==> (claims.standard.iss@ == config.issuer@ && string_views(claims.standard.aud@).contains(config.audience@)
            && now <= claims.standard.exp + config.clock_skew_seconds && now >= claims.standard.nbf - config.clock_skew_seconds),
        claims.standard.iss@ == config.issuer@ && !string_views(claims.standard.aud@).contains(config.audience@)
            ==> (r matches Err(ValidationError::InvalidAudience { expected }) && expected@ == config.audience@),
        r is Ok ==> (now - claims.standard.iat <= config.max_token_age_seconds && claims.nonce@.len() > 0),
{
    match check_common(config, &claims.standard, now) {
        Err(e) => {
            return Err(e);
        },
        Ok(()) => {},
    }
    let age = (now as i128) - (claims.standard.iat as i128);
    if age > config.max_token_age_seconds as i128 {
        return Err(ValidationError::ReplayDetected);
    }
    if claims.nonce.as_str().unicode_len() == 0 {
        return Err(ValidationError::InvalidNonce);
    }
    Ok(())
}

/// Checks refresh-token claims at `now`: the common checks, then the
/// rotation limit (`ReplayDetected` when used up).
pub fn validate_refresh_claims(config: &ValidatorConfig, claims: &RefreshClaims, now: i64) -> (r: Result<(), ValidationError>)
    ensures
        match common_failure(*config, claims.standard, now as int) {
            Some(f) => reports(f, *config, claims.standard, r),
            None => if claims.rotation_count >= claims.max_rotations {
                r matches Err(ValidationError::ReplayDetected)
            } else {
                r is Ok
            },
        },
        r is Ok ==> (claims.standard.iss@ == config.issuer@ && string_views(claims.standard.aud@).contains(config.audience@)
            && now <= claims.standard.exp + config.clock_skew_seconds && now >= claims.standard.nbf - config.clock_skew_seconds),
        claims.standard.iss@ == config.issuer@ && !string_views(claims.standard.aud@).contains(config.audience@)
            ==> (r matches Err(ValidationError::InvalidAudience { expected }) && expected@ == config.audience@),
        r is Ok ==> claims.rotation_count < claims.max_rotations,
{
    match check_common(config, &claims.standard, now) {
        Err(e) => {
            return Err(e);
        },
        Ok(()) => {},
    }
    if claims.rotation_count >= claims.max_rotations {
        return Err(ValidationError::ReplayDetected);
    }
    Ok(())
}

/// The standard claims of claims of either kind.
pub open spec fn claims_standard(c: Claims) -> StandardClaims {
    match c {
        Claims::Access(a) => a.standard,
        Claims::Refresh(f) => f.standard,
    }
}

/// Checks claims of either kind at `now`.
pub fn validate_claims(config: &ValidatorConfig, claims: &Claims, now: i64) -> (r: Result<(), ValidationError>)
    ensures
        match claims {
            Claims::Access(a) => match common_failure(*config, a.standard, now as int) {
                Some(f) => reports(f, *config, a.standard, r),
                None => if now - a.standard.iat > config.max_token_age_seconds {
                    r matches Err(ValidationError::ReplayDetected)
                } else if a.nonce@.len() == 0 {
                    r matches Err(ValidationError::InvalidNonce)
                } else {
                    r is Ok
                },
            },
            Claims::Refresh(f) => match common_failure(*config, f.standard, now as int) {
                Some(g) => reports(g, *config, f.standard, r),
                None => if f.rotation_count >= f.max_rotations {
                    r matches Err(ValidationError::ReplayDetected)
                } else {
                    r is Ok
                },
            },
        },
        r is Ok ==> (claims_standard(*claims).iss@ == config.issuer@
            && string_views(claims_standard(*claims).aud@).contains(config.audience@)
            && now <= claims_standard(*claims).exp + config.clock_skew_seconds
            && now >= claims_standard(*claims).nbf - config.clock_skew_seconds),
        claims_standard(*claims).iss@ == config.issuer@ && !string_views(claims_standard(*claims).aud@).contains(config.audience@)
            ==> (r matches Err(ValidationError::InvalidAudience { expected }) && expected@ == config.audience@),
{
    match claims {
        Claims::Access(a) => validate_access_claims(config, a, now),
        Claims::Refresh(f) => validate_refresh_claims(config, f, now),
    }
}

/// Names whether `RsaPublicKey::from_public_key_der` of the `rsa` crate
/// accepts the DER SubjectPublicKeyInfo `der`.
pub uninterp spec fn rsa_spki_accepted(der: Seq<u8>) -> bool;

/// Names whether `RsaPublicKey::verify`, with unprefixed PKCS#1 v1.5 padding,
/// accepts `signature` of the encoded digest `digest_info` under the key read
/// from `der`.
pub uninterp spec fn rsa_spki_verifies(der: Seq<u8>, digest_info: Seq<u8>, signature: Seq<u8>) -> bool;

/// Calls `RsaPublicKey::from_public_key_der` and `RsaPublicKey::verify` with
/// `Pkcs1v15Sign::new_unprefixed` of the `rsa` crate: an error (its text left
/// unsaid) when the key is refused, else whether the signature verifies.
#[verifier::external_body]
fn rs256_verify_spki(der: &[u8], digest_info: &[u8], signature: &[u8]) -> (r: Result<bool, String>)
    ensures
        match r {
            Ok(b) => rsa_spki_accepted(der@) && b == rsa_spki_verifies(der@, digest_info@, signature@),
            Err(_) => !rsa_spki_accepted(der@),
        },
{
    let key = <rsa::RsaPublicKey as rsa::pkcs8::DecodePublicKey>::from_public_key_der(der).map_err(|e| e.to_string())?;
    Ok(key.verify(rsa::pkcs1v15::Pkcs1v15Sign::new_unprefixed(), digest_info, signature).is_ok())
}

/// Names whether `p256::ecdsa::VerifyingKey::from_public_key_der` accepts
/// the DER SubjectPublicKeyInfo `der`.
pub uninterp spec fn p256_spki_decodes(der: Seq<u8>) -> bool;

/// Names whether the P-256 key read from `der` verifies the ECDSA signature
/// `signature` of `message` (`Verifier::verify`).
pub uninterp spec fn es256_spki_verifies(der: Seq<u8>, message: Seq<u8>, signature: Seq<u8>) -> bool;

/// Calls `VerifyingKey::from_public_key_der`, `Signature::from_slice` and
/// `Verifier::verify` of the `p256` crate: an error (its text left unsaid)
/// when the key or the signature cannot be read, else whether the signature
/// verifies.
#[verifier::external_body]
fn es256_verify_spki(der: &[u8], message: &[u8], signature: &[u8]) -> (r: Result<bool, String>)
    ensures
        match r {
            Ok(b) => (p256_spki_decodes(der@) && p256_signature_decodes(signature@)
                && b == es256_spki_verifies(der@, message@, signature@)),
            Err(_) => (!p256_spki_decodes(der@) || !p256_signature_decodes(signature@)),
        },
{
    let key = <p256::ecdsa::VerifyingKey as p256::pkcs8::DecodePublicKey>::from_public_key_der(der)
        .map_err(|e| e.to_string())?;
    let sig = p256::ecdsa::Signature::from_slice(signature).map_err(|e| e.to_string())?;
    Ok(p256::ecdsa::signature::Verifier::verify(&key, message, &sig).is_ok())
}

/// Names whether `p384::ecdsa::VerifyingKey::from_public_key_der` accepts
/// the DER SubjectPublicKeyInfo `der`.
pub uninterp spec fn p384_spki_decodes(der: Seq<u8>) -> bool;

/// Names whether `p384::ecdsa::Signature::from_slice` accepts bytes.
pub uninterp spec fn p384_signature_decodes(signature: Seq<u8>) -> bool;

/// Names whether the P-384 key read from `der` verifies the ECDSA signature
/// `signature` of `message` (`Verifier::verify`, over SHA-384).
pub uninterp spec fn es384_spki_verifies(der: Seq<u8>, message: Seq<u8>, signature: Seq<u8>) -> bool;

/// Calls `VerifyingKey::from_public_key_der`, `Signature::from_slice` and
/// `Verifier::verify` of the `p384` crate: an error (its text left unsaid)
/// when the key or the signature cannot be read, else whether the signature
/// verifies.
#[verifier::external_body]
fn es384_verify_spki(der: &[u8], message: &[u8], signature: &[u8]) -> (r: Result<bool, String>)
    ensures
        match r {
            Ok(b) => (p384_spki_decodes(der@) && p384_signature_decodes(signature@)
                && b == es384_spki_verifies(der@, message@, signature@)),
            Err(_) => (!p384_spki_decodes(der@) || !p384_signature_decodes(signature@)),
        },
{
    let key = <p384::ecdsa::VerifyingKey as p384::pkcs8::DecodePublicKey>::from_public_key_der(der)
        .map_err(|e| e.to_string())?;
    let sig = p384::ecdsa::Signature::from_slice(signature).map_err(|e| e.to_string())?;
    Ok(p384::ecdsa::signature::Verifier::verify(&key, message, &sig).is_ok())
}

/// The DER prefix of a SHA-256 `DigestInfo`, which RS256 signs before the digest.
pub open spec fn sha256_digest_info_prefix() -> Seq<u8> {
    seq![0x30u8, 0x31, 0x30, 0x0d, 0x06, 0x09, 0x60, 0x86, 0x48, 0x01, 0x65, 0x03, 0x04, 0x02, 0x01, 0x05, 0x00, 0x04, 0x20]
}

/// Whether `signature` signs `message` under the public key `public_key` (a
/// DER SubjectPublicKeyInfo) for the algorithm `alg` of a token header:
/// RS256 (PKCS#1 v1.5 over the SHA-256 `DigestInfo` of the message), ES256
/// (ECDSA on P-256) or ES384 (ECDSA on P-384), the ECDSA signatures as r and
/// s; no other algorithm is accepted.
pub open spec fn token_signature_valid(alg: Seq<char>, public_key: Seq<u8>, message: Seq<u8>, signature: Seq<u8>) -> bool {
    if alg == "RS256"@ {
        rsa_spki_accepted(public_key)
            && rsa_spki_verifies(public_key, sha256_digest_info_prefix() + sha256_of(message), signature)
    } else if alg == "ES256"@ {
        p256_spki_decodes(public_key) && p256_signature_decodes(signature)
            && es256_spki_verifies(public_key, message, signature)
    } else if alg == "ES384"@ {
        p384_spki_decodes(public_key) && p384_signature_decodes(signature)
            && es384_spki_verifies(public_key, message, signature)
    } else {
        false
    }
}

fn sha256_digest_info(message: &[u8]) -> (v: Vec<u8>)
    ensures
        v@ == sha256_digest_info_prefix() + sha256_of(message@),
{
    let mut v: Vec<u8> = vec![0x30u8, 0x31, 0x30, 0x0d, 0x06, 0x09, 0x60, 0x86, 0x48, 0x01, 0x65, 0x03, 0x04, 0x02, 0x01, 0x05, 0x00, 0x04, 0x20];
    let mut digest = sha256(message);
    let ghost d = digest@;
    v.append(&mut digest);
    assert(v@ =~= sha256_digest_info_prefix() + d);
    v
}

/// Checks the signature of a token, made over its payload (the claims'
/// JSON bytes, as the generator signs them), under the public key
/// `public_key` of the key the header names and for the header's algorithm
/// `alg` (see `token_signature_valid`): `InvalidSignature` unless it verifies.
pub fn verify_token_signature(
    alg: &str,
    public_key: &[u8],
    payload: &[u8],
    signature: &[u8],
) -> (r: Result<(), ValidationError>)
    ensures
        token_signature_valid(alg@, public_key@, payload@, signature@) ==> r is Ok,
        !token_signature_valid(alg@, public_key@, payload@, signature@)
            ==> r matches Err(ValidationError::InvalidSignature),
{
    let message = payload;
    let verified = if str_eq(alg, "RS256") {
        let digest_info = sha256_digest_info(message);
        rs256_verify_spki(public_key, digest_info.as_slice(), signature)
    } else if str_eq(alg, "ES256") {
        es256_verify_spki(public_key, message, signature)
    } else if str_eq(alg, "ES384") {
        es384_verify_spki(public_key, message, signature)
    } else {
        Ok(false)
    };
    match verified {
        Ok(true) => Ok(()),
        _ => Err(ValidationError::InvalidSignature),
    }
}

/// What the revocation store's answer on a token's identifier makes of the
/// token (`None` when there was no answer: no store, an identifier that is
/// not a UUID, or a failed lookup): `Revoked` when the store holds it
/// revoked, else the token goes on (a failed lookup does not block it).
pub fn revocation_verdict(revoked: Option<bool>) -> (r: Result<(), ValidationError>)
    ensures
        revoked == Some(true) ==> r matches Err(ValidationError::Revoked),
        revoked != Some(true) ==> r is Ok,
{
    match revoked {
        Some(true) => Err(ValidationError::Revoked),
        _ => Ok(()),
    }
}

/// The three dot-separated segments of a token (header, payload, signature),
/// or `InvalidFormat` unless there are exactly three.
pub fn split_token(token: &str) -> (r: Result<Vec<String>, ValidationError>)
    ensures
        split_dots(token@).len() == 3 ==> (r matches Ok(parts) && string_views(parts@) == split_dots(token@)),
        split_dots(token@).len() != 3 ==> r matches Err(ValidationError::InvalidFormat),
{
    let parts = split_on_dots(token);
    if parts.len() != 3 {
        return Err(ValidationError::InvalidFormat);
    }
    Ok(parts)
}

/// Decodes a base64url segment; a text that does not decode gives
/// `Decoding` with the decoder's message.
pub fn decode_segment(segment: &str) -> (r: Result<Vec<u8>, ValidationError>)
    ensures
        match b64url_decoded(segment@) {
            Some(b) => r matches Ok(v) && v@ == b,
            None => r matches Err(ValidationError::Decoding(_)),
        },
{
    match b64url_decode(segment) {
        Ok(v) => Ok(v),
        Err(m) => Err(ValidationError::Decoding(m)),
    }
}

/// Whether a token expiring at `exp` has expired at `now`.
pub fn is_expired_at(exp: i64, now: i64) -> (b: bool)
    ensures
        b == (now > exp),
{
    now > exp
}

/// A token that passed validation.
#[derive(Debug)]
pub struct ValidatedToken {
    pub claims: Claims,
    pub key_id: String,
    pub algorithm: String,
}

impl ValidatedToken {
    /// The claims, when they are access claims.
    pub fn access_claims(&self) -> (r: Option<&AccessClaims>)
        ensures
            match self.claims {
                Claims::Access(a) => r == Some(&a),
                Claims::Refresh(_) => r is None,
            },
    {
        match &self.claims {
            Claims::Access(a) => Some(a),
            Claims::Refresh(_) => None,
        }
    }

    /// The claims, when they are refresh claims.
    pub fn refresh_claims(&self) -> (r: Option<&RefreshClaims>)
        ensures
            match self.claims {
                Claims::Refresh(f) => r == Some(&f),
                Claims::Access(_) => r is None,
            },
    {
        match &self.claims {
            Claims::Refresh(f) => Some(f),
            Claims::Access(_) => None,
        }
    }
}

} // verus!
