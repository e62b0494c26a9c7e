//! WebAuthn authentication ceremony: the options sent to the client and the
//! checks of an authenticator's assertion, its signature included. Times
//! are Unix times in microseconds.
use vstd::prelude::*;
use p256::ecdsa::signature::Verifier;
use crate::ids::{UserId, MICROS_PER_SECOND};
use crate::jwt::encoding::{b64url_decode, b64url_decoded, b64url_encode, b64url_text};
use crate::text::hex_text;
use crate::webauthn::types::{
    AssertionResponse, AuthenticatorData, AuthenticatorResponse, ClientData, CredentialDescriptor, PublicKeyCredential,
    UserVerification, WebAuthnError, flags_of,
};
use crate::webauthn::challenge::{ChallengeGenerator, ChallengeType, InMemoryChallengeStore, StoredChallenge};
use crate::webauthn::registration::stored_fresh_challenge;
use crate::domain::session::ttl_fits;
use crate::webauthn::credential_store::{CredentialView, InMemoryCredentialStore, StoredCredential, lists_user_credentials};
use crate::webauthn::ceremony::{
    CborEntry, CborEntryView, be_u32, cbor_entry_view, cbor_map_entries, cbor_map_of, cbor_views, check_client_data,
    check_rp_id_hash, find_int_key, first_entry, has_int_key, parse_auth_data_prefix, reads_prefix, sha2_digest,
    sha2_digest_of,
};

verus! {

/// Options of an authentication ceremony.
#[derive(Debug)]
pub struct AuthenticationOptions {
    /// The challenge, base64url.
    pub challenge: String,
    pub challenge_id: String,
    /// Milliseconds.
    pub timeout: Option<u64>,
    pub rp_id: String,
    /// The credentials the user may answer with (`None`: any).
    pub allow_credentials: Option<Vec<CredentialDescriptor>>,
    pub user_verification: UserVerification,
}

/// An authentication challenge handed out.
#[derive(Debug)]
pub struct AuthenticationChallenge {
    pub challenge_id: String,
    pub challenge: Vec<u8>,
    pub user_id: UserId,
}

/// The client's answer to an authentication.
#[derive(Debug)]
pub struct AuthenticationResponse {
    pub challenge_id: String,
    pub credential: PublicKeyCredential,
}

/// A successful authentication.
#[derive(Debug)]
pub struct AuthenticationResult {
    pub user_id: UserId,
    /// The credential used.
    pub credential_id: Vec<u8>,
    /// The authenticator's new signature counter.
    pub new_sign_count: u32,
    pub user_verified: bool,
}

/// Names whether `p256::ecdsa::VerifyingKey::from_sec1_bytes` accepts bytes.
pub uninterp spec fn p256_key_decodes(sec1: Seq<u8>) -> bool;

/// Names whether `p256::ecdsa::Signature::from_slice` accepts bytes.
pub uninterp spec fn p256_signature_decodes(signature: Seq<u8>) -> bool;

/// Names whether the P-256 key of the SEC1 bytes `sec1` verifies the ECDSA
/// signature `signature` of `message` (`Verifier::verify`).
pub uninterp spec fn es256_verifies(sec1: Seq<u8>, message: Seq<u8>, signature: Seq<u8>) -> bool;

/// Calls `VerifyingKey::from_sec1_bytes`, `Signature::from_slice` and
/// `Verifier::verify` of the `p256` crate: an error (its text left unsaid)
/// when the key or the signature cannot be read, else whether the signature
/// verifies.
#[verifier::external_body]
fn es256_verify(sec1: &[u8], message: &[u8], signature: &[u8]) -> (r: Result<bool, String>)
    ensures
        match r {
            Ok(b) => (p256_key_decodes(sec1@) && p256_signature_decodes(signature@)
                && b == es256_verifies(sec1@, message@, signature@)),
            Err(_) => (!p256_key_decodes(sec1@) || !p256_signature_decodes(signature@)),
        },
{
    let key = p256::ecdsa::VerifyingKey::from_sec1_bytes(sec1).map_err(|e| e.to_string())?;
    let sig = p256::ecdsa::Signature::from_slice(signature).map_err(|e| e.to_string())?;
    Ok(key.verify(message, &sig).is_ok())
}

/// Names whether `rsa::RsaPublicKey::new` accepts the big-endian modulus
/// `n` and exponent `e`.
pub uninterp spec fn rsa_key_accepted(n: Seq<u8>, e: Seq<u8>) -> bool;

/// Names whether `RsaPublicKey::verify` with `Pkcs1v15Sign::new_unprefixed`
/// accepts `signature` of the digest `hashed` under the key (`n`, `e`).
pub uninterp spec fn rs256_verifies(n: Seq<u8>, e: Seq<u8>, hashed: Seq<u8>, signature: Seq<u8>) -> bool;

/// Calls `RsaPublicKey::new` (on `BigUint::from_bytes_be` of `n` and `e`)
/// and `RsaPublicKey::verify` with unprefixed PKCS#1 v1.5 padding of the
/// `rsa` crate: an error (its text left unsaid) when the key is refused,
/// else whether the signature verifies.
#[verifier::external_body]
fn rs256_verify(n: &[u8], e: &[u8], hashed: &[u8], signature: &[u8]) -> (r: Result<bool, String>)
    ensures
        match r {
            Ok(b) => (rsa_key_accepted(n@, e@) && b == rs256_verifies(n@, e@, hashed@, signature@)),
            Err(_) => !rsa_key_accepted(n@, e@),
        },
{
    let key = rsa::RsaPublicKey::new(rsa::BigUint::from_bytes_be(n), rsa::BigUint::from_bytes_be(e))
        .map_err(|err| err.to_string())?;
    Ok(key.verify(rsa::pkcs1v15::Pkcs1v15Sign::new_unprefixed(), hashed, signature).is_ok())
}

/// The integer value of the first entry whose key is the integer `key`.
pub open spec fn cose_int(entries: Seq<CborEntryView>, key: i64) -> Option<i64> {
    match first_entry(entries, has_int_key(key)) {
        Some(i) => entries[i].2,
        None => None,
    }
}

/// The bytes value of the first entry whose key is the integer `key`.
pub open spec fn cose_bytes(entries: Seq<CborEntryView>, key: i64) -> Option<Seq<u8>> {
    match first_entry(entries, has_int_key(key)) {
        Some(i) => entries[i].3,
        None => None,
    }
}

/// The uncompressed SEC1 encoding of a P-256 point.
pub open spec fn sec1_point(x: Seq<u8>, y: Seq<u8>) -> Seq<u8> {
    seq![4u8] + x + y
}

/// What the check of `signature` of `signed` under the COSE key
/// `public_key_cose` gives: its errors (with `unchanged` also holding), or
/// `accepted` when the signature verifies. The key's algorithm (label 3) is
/// ES256 (-7; coordinates at labels -2 and -3) or RS256 (-257; modulus and
/// exponent at labels -1 and -2, over the SHA-256 digest of `signed`).
pub open spec fn signature_outcome<T>(
    public_key_cose: Seq<u8>,
    signed: Seq<u8>,
    signature: Seq<u8>,
    r: Result<T, WebAuthnError>,
    accepted: bool,
    unchanged: bool,
) -> bool {
    match cbor_map_of(public_key_cose) {
        None => r matches Err(WebAuthnError::DecodingError(_)) && unchanged,
        Some(None) => r matches Err(WebAuthnError::DecodingError(m)) && m@ == "Invalid COSE key"@ && unchanged,
        Some(Some(k)) => match cose_int(k, 3) {
            None => r matches Err(WebAuthnError::DecodingError(m)) && m@ == "Algorithm not found"@ && unchanged,
            Some(alg) => if alg == -7 {
                match cose_bytes(k, -2i64) {
                    None => r matches Err(WebAuthnError::DecodingError(m)) && m@ == "x coordinate not found"@
                        && unchanged,
                    Some(x) => match cose_bytes(k, -3i64) {
                        None => r matches Err(WebAuthnError::DecodingError(m)) && m@ == "y coordinate not found"@
                            && unchanged,
                        Some(y) => if !p256_key_decodes(sec1_point(x, y)) || !p256_signature_decodes(signature) {
                            r matches Err(WebAuthnError::DecodingError(_)) && unchanged
                        } else if es256_verifies(sec1_point(x, y), signed, signature) {
                            accepted
                        } else {
                            r matches Err(WebAuthnError::InvalidSignature) && unchanged
                        },
                    },
                }
            } else if alg == -257 {
                match cose_bytes(k, -1i64) {
                    None => r matches Err(WebAuthnError::DecodingError(m)) && m@ == "n not found"@ && unchanged,
                    Some(n) => match cose_bytes(k, -2i64) {
                        None => r matches Err(WebAuthnError::DecodingError(m)) && m@ == "e not found"@ && unchanged,
                        Some(e) => if !rsa_key_accepted(n, e) {
                            r matches Err(WebAuthnError::DecodingError(_)) && unchanged
                        } else if rs256_verifies(n, e, sha2_digest_of(signed), signature) {
                            accepted
                        } else {
                            r matches Err(WebAuthnError::InvalidSignature) && unchanged
                        },
                    },
                }
            } else {
                r matches Err(WebAuthnError::UnsupportedAlgorithm(a)) && a == alg && unchanged
            },
        },
    }
}

/// What an authentication yields once its challenge (bytes and user) was
/// consumed and its client data read, given the credentials held `before`
/// and `after` the call: the client data (type "webauthn.get", else
/// `InvalidSignature`; the challenge; the origin), the credential named by
/// `credential_id` (base64url) and its user, the authenticator data, the
/// relying party hash, the user presence, the signature counter (a counter
/// that does not grow past the stored one, unless zero, is refused as a
/// possible clone), the signature over the authenticator data followed by
/// the SHA-256 of the client data. On success the credential's counter and
/// last use are updated.
pub open spec fn assertion_outcome(
    rp_id: Seq<char>,
    origin: Seq<char>,
    challenge: Seq<u8>,
    user: u128,
    authenticator_data: Seq<u8>,
    client_data_json: Seq<u8>,
    signature: Seq<u8>,
    client_data: ClientData,
    credential_id: Seq<char>,
    now: i64,
    before: Map<Seq<u8>, CredentialView>,
    after: Map<Seq<u8>, CredentialView>,
    r: Result<AuthenticationResult, WebAuthnError>,
) -> bool {
    let unchanged = after == before;
    if client_data.type_@ != "webauthn.get"@ {
        r matches Err(WebAuthnError::InvalidSignature) && unchanged
    } else if b64url_decoded(client_data.challenge@) is None {
        r matches Err(WebAuthnError::DecodingError(_)) && unchanged
    } else if b64url_decoded(client_data.challenge@) != Some(challenge) {
        r matches Err(WebAuthnError::InvalidChallenge) && unchanged
    } else if client_data.origin@ != origin {
        r matches Err(WebAuthnError::InvalidOrigin { expected, actual }) && expected@ == origin
            && actual@ == client_data.origin@ && unchanged
    } else {
        match b64url_decoded(credential_id) {
            None => r matches Err(WebAuthnError::DecodingError(_)) && unchanged,
            Some(id) => if !before.contains_key(id) {
                r matches Err(WebAuthnError::CredentialNotFound(h)) && h@ == hex_text(id) && unchanged
            } else if before[id].1 != user {
                r matches Err(WebAuthnError::InvalidSignature) && unchanged
            } else if authenticator_data.len() < 37 {
                r matches Err(WebAuthnError::DecodingError(m)) && m@ == "authData too short"@ && unchanged
            } else {
                let rp_id_hash = authenticator_data.subrange(0, 32);
                let flags = flags_of(authenticator_data[32]);
                let count = be_u32(authenticator_data[33], authenticator_data[34], authenticator_data[35],
                    authenticator_data[36]);
                let c = before[id];
                if rp_id_hash != sha2_digest_of(vstd::utf8::encode_utf8(rp_id)) {
                    r matches Err(WebAuthnError::InvalidRpId { expected, actual }) && expected@ == rp_id
                        && actual@ == hex_text(rp_id_hash) && unchanged
                } else if !flags.user_present {
                    r matches Err(WebAuthnError::UserVerificationFailed) && unchanged
                } else if count > 0 && count <= c.4 {
                    r matches Err(WebAuthnError::InvalidSignature) && unchanged
                } else {
                    signature_outcome(c.3, authenticator_data + sha2_digest_of(client_data_json), signature, r,
                        r matches Ok(res) && res.user_id.0 == user && res.credential_id@ == id
                            && res.new_sign_count == count && res.user_verified == flags.user_verified
                            && after == before.insert(id, (c.0, c.1, c.2, c.3, count, c.5, Some(now))),
                        unchanged)
                }
            },
        }
    }
}

/// Whether `signature` signs `signed` under the COSE public key `key`: an
/// ES256 key (algorithm -7, coordinates -2 and -3) verifying the ECDSA
/// signature, or an RS256 key (algorithm -257, modulus -1, exponent -2)
/// verifying the PKCS#1 v1.5 signature of the SHA-256 of `signed`.
pub open spec fn cose_signature_valid(key: Seq<u8>, signed: Seq<u8>, signature: Seq<u8>) -> bool {
    match cbor_map_of(key) {
        Some(Some(k)) => match cose_int(k, 3) {
            Some(alg) => if alg == -7 {
                match (cose_bytes(k, -2i64), cose_bytes(k, -3i64)) {
                    (Some(x), Some(y)) => es256_verifies(sec1_point(x, y), signed, signature),
                    _ => false,
                }
            } else if alg == -257 {
                match (cose_bytes(k, -1i64), cose_bytes(k, -2i64)) {
                    (Some(n), Some(e)) => rs256_verifies(n, e, sha2_digest_of(signed), signature),
                    _ => false,
                }
            } else {
                false
            },
            None => false,
        },
        _ => false,
    }
}

/// An accepted assertion passed every check: client data of type
/// "webauthn.get" carrying the challenge and the origin, a credential of the
/// user, authenticator data scoped to the relying party (its first 32 bytes
/// are the SHA-256 of the identifier's UTF-8 bytes) with the user present,
/// a counter that grew past the stored one (or is zero), and a signature
/// of the authenticator data and the client data's hash under the
/// credential's key; the credential then holds the new counter.
pub proof fn lemma_accepted_assertion(
    rp_id: Seq<char>,
    origin: Seq<char>,
    challenge: Seq<u8>,
    user: u128,
    authenticator_data: Seq<u8>,
    client_data_json: Seq<u8>,
    signature: Seq<u8>,
    client_data: ClientData,
    credential_id: Seq<char>,
    now: i64,
    before: Map<Seq<u8>, CredentialView>,
    after: Map<Seq<u8>, CredentialView>,
    r: Result<AuthenticationResult, WebAuthnError>,
)
    requires
        assertion_outcome(rp_id, origin, challenge, user, authenticator_data, client_data_json, signature,
            client_data, credential_id, now, before, after, r),
        r is Ok,
    ensures
        client_data.type_@ == "webauthn.get"@,
        b64url_decoded(client_data.challenge@) == Some(challenge),
        client_data.origin@ == origin,
        authenticator_data.len() >= 37,
        authenticator_data.subrange(0, 32) == sha2_digest_of(vstd::utf8::encode_utf8(rp_id)),
        flags_of(authenticator_data[32]).user_present,
        b64url_decoded(credential_id) matches Some(id) && before.contains_key(id) && before[id].1 == user && ({
            let count = be_u32(authenticator_data[33], authenticator_data[34], authenticator_data[35],
                authenticator_data[36]);
            &&& (count == 0 || count > before[id].4)
            &&& after.contains_key(id) && after[id].4 == count
            &&& cose_signature_valid(before[id].3, authenticator_data + sha2_digest_of(client_data_json), signature)
        }),
{
}

/// The options of an authentication, apart from the challenge: a minute to
/// answer, the relying party, the `existing` credentials allowed, and
/// preferred user verification.
pub open spec fn authentication_options_shape(rp_id: Seq<char>, existing: Seq<StoredCredential>, o: AuthenticationOptions) -> bool {
    &&& o.timeout == Some(60000u64)
    &&& o.rp_id@ == rp_id
    &&& existing.len() == 0 ==> o.allow_credentials is None
    &&& existing.len() > 0 ==> (o.allow_credentials matches Some(al) && al@.len() == existing.len()
        && forall|i: int| 0 <= i < al@.len() ==> (#[trigger] al@[i]).id@ == b64url_text(existing[i].credential_id@)
            && al@[i].type_@ == "public-key"@)
    &&& o.user_verification == UserVerification::Preferred
}

/// Checks an authentication: the relying party and origin it is for.
pub struct AuthenticationVerifier {
    pub rp_id: String,
    pub origin: String,
}

impl AuthenticationVerifier {
    /// A verifier for `rp_id` and `origin`.
    pub fn new(rp_id: String, origin: String) -> (v: AuthenticationVerifier)
        ensures
            v.rp_id == rp_id,
            v.origin == origin,
    {
        AuthenticationVerifier { rp_id, origin }
    }

    /// The options of an authentication with `challenge` (stored under
    /// `challenge_id`), allowing the user's `existing` credentials.
    pub fn build_options(
        &self,
        challenge: &StoredChallenge,
        challenge_id: String,
        existing: Vec<StoredCredential>,
    ) -> (o: AuthenticationOptions)
        ensures
            o.challenge@ == b64url_text(challenge.challenge@),
            o.challenge_id == challenge_id,
            authentication_options_shape(self.rp_id@, existing@, o),
    {
        let allow_credentials = if existing.len() > 0 {
            let mut al: Vec<CredentialDescriptor> = Vec::new();
            let mut i: usize = 0;
            let n = existing.len();
            while i < n
                invariant
                    i <= n,
                    n == existing@.len(),
                    al@.len() == i,
                    forall|j: int| 0 <= j < i ==> (#[trigger] al@[j]).id@ == b64url_text(existing@[j].credential_id@)
                        && al@[j].type_@ == "public-key"@,
                decreases n - i,
            {
                let cred = &existing[i];
                let transports = match &cred.metadata.transports {
                    Some(t) => Some(crate::text::copy_strings(t)),
                    None => None,
                };
                al.push(CredentialDescriptor::new(cred.credential_id.clone(), transports));
                i += 1;
            }
            Some(al)
        } else {
            None
        };
        AuthenticationOptions {
            challenge: b64url_encode(challenge.challenge.as_slice()),
            challenge_id,
            timeout: Some(60000),
            rp_id: self.rp_id.clone(),
            allow_credentials,
            user_verification: UserVerification::Preferred,
        }
    }

    /// The options of an authentication of `user_id` made at `now`: a fresh
    /// challenge from `challenge_generator` is stored in `challenges` under
    /// the identifier the options carry, and the user's credentials held in
    /// `credentials` are allowed (see `authentication_options_shape`).
    pub fn create_options(
        &self,
        challenges: &mut InMemoryChallengeStore,
        credentials: &InMemoryCredentialStore,
        user_id: UserId,
        challenge_generator: &ChallengeGenerator,
        now: i64,
    ) -> (r: Result<AuthenticationOptions, WebAuthnError>)
        requires
            ttl_fits(now, challenge_generator.ttl_seconds),
        ensures
            r matches Ok(o) && exists|c: Seq<u8>, ex: Seq<StoredCredential>|
                #[trigger] stored_fresh_challenge(old(challenges).held(), final(challenges).held(), o.challenge_id@, c,
                    user_id, now, now + challenge_generator.ttl_seconds * MICROS_PER_SECOND, false)
                && o.challenge@ == b64url_text(c)
                && #[trigger] lists_user_credentials(ex, credentials.held(), user_id.0)
                && authentication_options_shape(self.rp_id@, ex, o),
    {
        let stored = challenge_generator.generate_at(user_id, ChallengeType::Authentication, now);
        let kept = StoredChallenge {
            challenge: stored.challenge.clone(),
            user_id: stored.user_id,
            created_at: stored.created_at,
            expires_at: stored.expires_at,
            challenge_type: stored.challenge_type,
        };
        let id = match challenges.store(kept) {
            Ok(id) => id,
            Err(e) => {
                return Err(e);
            },
        };
        let existing = match credentials.get_user_credentials(&user_id) {
            Ok(v) => v,
            Err(_) => Vec::new(),
        };
        let ghost ex = existing@;
        let o = self.build_options(&stored, id, existing);
        assert(stored_fresh_challenge(old(challenges).held(), challenges.held(), o.challenge_id@, stored.challenge@,
            user_id, now, now + challenge_generator.ttl_seconds * MICROS_PER_SECOND, false));
        assert(lists_user_credentials(ex, credentials.held(), user_id.0));
        Ok(o)
    }

    /// The assertion of an authenticator response (`InvalidSignature` for an attestation).
    pub fn assertion_of(response: AuthenticatorResponse) -> (r: Result<AssertionResponse, WebAuthnError>)
        ensures
            match response {
                AuthenticatorResponse::Assertion(a) => r == Ok::<AssertionResponse, WebAuthnError>(a),
                AuthenticatorResponse::Attestation(_) => r matches Err(WebAuthnError::InvalidSignature),
            },
    {
        match response {
            AuthenticatorResponse::Assertion(a) => Ok(a),
            AuthenticatorResponse::Attestation(_) => Err(WebAuthnError::InvalidSignature),
        }
    }

    /// Reads the fixed part of authenticator data (no attested credential
    /// data is read on authentication).
    pub fn parse_auth_data_bytes(&self, data: &[u8]) -> (r: Result<AuthenticatorData, WebAuthnError>)
        ensures
            data@.len() < 37 ==> (r matches Err(WebAuthnError::DecodingError(m)) && m@ == "authData too short"@),
            data@.len() >= 37 ==> (r matches Ok(a) && reads_prefix(data@, a) && a.attested_credential_data is None),
    {
        parse_auth_data_prefix(data)
    }

    /// Checks `signature` of `signed_data` under a COSE public key (see
    /// `signature_outcome`).
    pub fn verify_signature(&self, public_key_cose: &[u8], signed_data: &[u8], signature: &[u8]) -> (r: Result<(), WebAuthnError>)
        ensures
            signature_outcome(public_key_cose@, signed_data@, signature@, r, r is Ok, true),
    {
        let entries = match cbor_map_entries(public_key_cose) {
            Err(m) => {
                return Err(WebAuthnError::DecodingError(m));
            },
            Ok(None) => {
                return Err(WebAuthnError::DecodingError(String::from_str("Invalid COSE key")));
            },
            Ok(Some(v)) => v,
        };
        let ghost k = cbor_views(entries@);
        let alg = match find_int_key(&entries, 3) {
            Some(i) => {
                assert(k[i as int] == cbor_entry_view(entries@[i as int]));
                entries[i].int_value
            },
            None => None,
        };
        let alg = match alg {
            Some(a) => a,
            None => {
                return Err(WebAuthnError::DecodingError(String::from_str("Algorithm not found")));
            },
        };
        if alg == -7 {
            let x = match bytes_at(&entries, -2) {
                Some(x) => x,
                None => {
                    return Err(WebAuthnError::DecodingError(String::from_str("x coordinate not found")));
                },
            };
            let y = match bytes_at(&entries, -3) {
                Some(y) => y,
                None => {
                    return Err(WebAuthnError::DecodingError(String::from_str("y coordinate not found")));
                },
            };
            let mut point: Vec<u8> = Vec::new();
            point.push(4u8);
            let mut i: usize = 0;
            while i < x.len()
                invariant
                    i <= x@.len(),
                    point@ == seq![4u8] + x@.subrange(0, i as int),
                decreases x@.len() - i,
            {
                point.push(x[i]);
                i += 1;
                assert(point@ =~= seq![4u8] + x@.subrange(0, i as int));
            }
            let mut j: usize = 0;
            while j < y.len()
                invariant
                    j <= y@.len(),
                    i == x@.len(),
                    point@ == seq![4u8] + x@ + y@.subrange(0, j as int),
                decreases y@.len() - j,
            {
                point.push(y[j]);
                j += 1;
                assert(point@ =~= seq![4u8] + x@ + y@.subrange(0, j as int));
            }
            assert(point@ =~= sec1_point(x@, y@));
            match es256_verify(point.as_slice(), signed_data, signature) {
                Err(m) => Err(WebAuthnError::DecodingError(m)),
                Ok(true) => Ok(()),
                Ok(false) => Err(WebAuthnError::InvalidSignature),
            }
        } else if alg == -257 {
            let n = match bytes_at(&entries, -1) {
                Some(n) => n,
                None => {
                    return Err(WebAuthnError::DecodingError(String::from_str("n not found")));
                },
            };
            let e = match bytes_at(&entries, -2) {
                Some(e) => e,
                None => {
                    return Err(WebAuthnError::DecodingError(String::from_str("e not found")));
                },
            };
            let digest = sha2_digest(signed_data);
            match rs256_verify(n.as_slice(), e.as_slice(), digest.as_slice(), signature) {
                Err(m) => Err(WebAuthnError::DecodingError(m)),
                Ok(true) => Ok(()),
                Ok(false) => Err(WebAuthnError::InvalidSignature),
            }
        } else {
            Err(WebAuthnError::UnsupportedAlgorithm(alg))
        }
    }

    /// The checks of an authentication once its challenge was consumed and
    /// its client data read (see `assertion_outcome`); on success the
    /// credential's counter and last use (`now`) are updated.
    pub fn verify_assertion(
        &self,
        credentials: &mut InMemoryCredentialStore,
        stored_challenge: &StoredChallenge,
        assertion: &AssertionResponse,
        client_data: &ClientData,
        credential_id: &str,
        now: i64,
    ) -> (r: Result<AuthenticationResult, WebAuthnError>)
        ensures
            assertion_outcome(self.rp_id@, self.origin@, stored_challenge.challenge@, stored_challenge.user_id.0,
                assertion.authenticator_data@, assertion.client_data_json@, assertion.signature@, *client_data,
                credential_id@, now, old(credentials).held(), final(credentials).held(), r),
            r is Ok ==> (client_data.type_@ == "webauthn.get"@ && client_data.origin@ == self.origin@
                && b64url_decoded(client_data.challenge@) == Some(stored_challenge.challenge@)),
            r is Ok ==> (b64url_decoded(credential_id@) matches Some(id) && old(credentials).held().contains_key(id)
                && old(credentials).held()[id].1 == stored_challenge.user_id.0
                && assertion.authenticator_data@.len() >= 37 && ({
                    let count = be_u32(assertion.authenticator_data@[33], assertion.authenticator_data@[34],
                        assertion.authenticator_data@[35], assertion.authenticator_data@[36]);
                    (count == 0 || count > old(credentials).held()[id].4)
                        && final(credentials).held().contains_key(id) && final(credentials).held()[id].4 == count
                        && cose_signature_valid(old(credentials).held()[id].3,
                            assertion.authenticator_data@ + sha2_digest_of(assertion.client_data_json@),
                            assertion.signature@)
                })),
            r is Ok ==> (assertion.authenticator_data@.len() >= 37
                && assertion.authenticator_data@.subrange(0, 32) == sha2_digest_of(vstd::utf8::encode_utf8(self.rp_id@))
                && flags_of(assertion.authenticator_data@[32]).user_present),
    {
        match check_client_data(client_data, "webauthn.get", WebAuthnError::InvalidSignature,
            stored_challenge.challenge.as_slice(), self.origin.as_str()) {
            Err(e) => {
                return Err(e);
            },
            Ok(()) => {},
        }
        let id = match b64url_decode(credential_id) {
            Ok(b) => b,
            Err(m) => {
                return Err(WebAuthnError::DecodingError(m));
            },
        };
        let mut stored = match credentials.get(id.as_slice()) {
            Ok(c) => c,
            Err(e) => {
                return Err(e);
            },
        };
        if stored.user_id.0 != stored_challenge.user_id.0 {
            return Err(WebAuthnError::InvalidSignature);
        }
        let auth_data = match parse_auth_data_prefix(assertion.authenticator_data.as_slice()) {
            Ok(a) => a,
            Err(e) => {
                return Err(e);
            },
        };
        match check_rp_id_hash(self.rp_id.as_str(), &auth_data.rp_id_hash) {
            Err(e) => {
                return Err(e);
            },
            Ok(()) => {},
        }
        if !auth_data.flags.user_present {
            return Err(WebAuthnError::UserVerificationFailed);
        }
        if auth_data.sign_count > 0 && auth_data.sign_count <= stored.sign_count {
            return Err(WebAuthnError::InvalidSignature);
        }
        let client_data_hash = sha2_digest(assertion.client_data_json.as_slice());
        let mut signed: Vec<u8> = assertion.authenticator_data.clone();
        let mut i: usize = 0;
        while i < client_data_hash.len()
            invariant
                i <= client_data_hash@.len(),
                signed@ == assertion.authenticator_data@ + client_data_hash@.subrange(0, i as int),
            decreases client_data_hash@.len() - i,
        {
            signed.push(client_data_hash[i]);
            i += 1;
            assert(signed@ =~= assertion.authenticator_data@ + client_data_hash@.subrange(0, i as int));
        }
        assert(client_data_hash@.subrange(0, i as int) =~= client_data_hash@);
        let checked = self.verify_signature(stored.public_key.as_slice(), signed.as_slice(), assertion.signature.as_slice());
        match checked {
            Err(e) => {
                return Err(e);
            },
            Ok(()) => {},
        }
        stored.sign_count = auth_data.sign_count;
        stored.last_used_at = Some(now);
        match credentials.update(stored) {
            Err(e) => {
                return Err(e);
            },
            Ok(()) => {},
        }
        Ok(AuthenticationResult {
            user_id: stored_challenge.user_id,
            credential_id: id,
            new_sign_count: auth_data.sign_count,
            user_verified: auth_data.flags.user_verified,
        })
    }

    /// An authentication: consumes the challenge `response.challenge_id` (it
    /// cannot be used again, whatever the outcome), takes the assertion of
    /// the response (an attestation gives `InvalidSignature`), the client
    /// data read from it (`client_data`; a reading error gives
    /// `DecodingError`), and checks them (`assertion_outcome`).
    pub fn verify(
        &self,
        challenges: &mut InMemoryChallengeStore,
        credentials: &mut InMemoryCredentialStore,
        response: AuthenticationResponse,
        client_data: Result<ClientData, String>,
        now: i64,
    ) -> (r: Result<AuthenticationResult, WebAuthnError>)
        ensures
            final(challenges).held() == old(challenges).held().remove(response.challenge_id@),
            !old(challenges).held().contains_key(response.challenge_id@) ==> (r matches Err(WebAuthnError::ChallengeNotFound)
                && final(credentials).held() == old(credentials).held()),
            old(challenges).held().contains_key(response.challenge_id@)
                && now > old(challenges).held()[response.challenge_id@].3 ==> (r matches Err(WebAuthnError::ChallengeExpired)
                && final(credentials).held() == old(credentials).held()),
            old(challenges).held().contains_key(response.challenge_id@)
                && now <= old(challenges).held()[response.challenge_id@].3 ==> match response.credential.response {
                AuthenticatorResponse::Attestation(_) => r matches Err(WebAuthnError::InvalidSignature)
                    && final(credentials).held() == old(credentials).held(),
                AuthenticatorResponse::Assertion(a) => match client_data {
                    Err(m) => r matches Err(WebAuthnError::DecodingError(e)) && e == m
                        && final(credentials).held() == old(credentials).held(),
                    Ok(cd) => assertion_outcome(self.rp_id@, self.origin@, old(challenges).held()[response.challenge_id@].0,
                        old(challenges).held()[response.challenge_id@].1, a.authenticator_data@, a.client_data_json@,
                        a.signature@, cd, response.credential.id@, now, old(credentials).held(),
                        final(credentials).held(), r),
                },
            },
            r is Ok ==> (response.credential.response matches AuthenticatorResponse::Assertion(a)
                && a.authenticator_data@.len() >= 37
                && a.authenticator_data@.subrange(0, 32) == sha2_digest_of(vstd::utf8::encode_utf8(self.rp_id@))
                && flags_of(a.authenticator_data@[32]).user_present),
    {
        let stored = match challenges.consume_at(response.challenge_id.as_str(), now) {
            Ok(c) => c,
            Err(e) => {
                return Err(e);
            },
        };
        let credential_id = response.credential.id;
        let assertion = match Self::assertion_of(response.credential.response) {
            Ok(a) => a,
            Err(e) => {
                return Err(e);
            },
        };
        let cd = match client_data {
            Ok(cd) => cd,
            Err(m) => {
                return Err(WebAuthnError::DecodingError(m));
            },
        };
        self.verify_assertion(credentials, &stored, &assertion, &cd, credential_id.as_str(), now)
    }
}

/// The bytes value of the first entry whose key is the integer `key`.
fn bytes_at(entries: &Vec<CborEntry>, key: i64) -> (r: Option<Vec<u8>>)
    ensures
        match r {
            Some(b) => cose_bytes(cbor_views(entries@), key) == Some(b@),
            None => cose_bytes(cbor_views(entries@), key) is None,
        },
{
    match find_int_key(entries, key) {
        Some(i) => {
            assert(cbor_views(entries@)[i as int] == cbor_entry_view(entries@[i as int]));
            match &entries[i].bytes_value {
                Some(b) => Some(b.clone()),
                None => None,
            }
        },
        None => None,
    }
}

} // verus!
