//! WebAuthn registration ceremony: the options sent to the client and the
//! checks of the authenticator's attestation. Times are Unix times in
//! microseconds.
use vstd::prelude::*;
use crate::ids::{UserId, DeviceId, MICROS_PER_SECOND, parse_uuid, uuid_parse_value};
use crate::jwt::encoding::{b64url_encode, b64url_text, b64url_decoded};
use crate::text::{string_views, str_eq, hex_text};
use crate::webauthn::types::{
    AttestationResponse, AttestationType, AttestedCredentialData, AuthenticatorData, AuthenticatorFlags,
    AuthenticatorResponse, AuthenticatorType, ClientData, CredentialDescriptor, PublicKeyCredential,
    UserVerification, WebAuthnError, flags_of,
};
use crate::webauthn::challenge::{ChallengeGenerator, ChallengeType, ChallengeView, InMemoryChallengeStore, StoredChallenge};
use crate::domain::session::ttl_fits;
use crate::webauthn::credential_store::{
    CredentialMetadata, CredentialView, InMemoryCredentialStore, StoredCredential, credential_view, lists_user_credentials,
};
use crate::webauthn::ceremony::{
    be_u16, cbor_entry_view, cbor_map_entries, cbor_map_of, cbor_views, check_client_data, check_rp_id_hash,
    find_text_key, first_entry, has_text_key, parse_auth_data_prefix, reads_prefix, sha2_digest_of,
};
use vstd::string::StringSliceAdditionalSpecFns;

verus! {

/// Relying party of the ceremony.
#[derive(Debug)]
pub struct RelyingParty {
    pub name: String,
    pub id: String,
}

/// User being registered.
#[derive(Debug)]
pub struct UserInfo {
    /// The user identifier's 16 bytes, base64url.
    pub id: String,
    pub name: String,
    pub display_name: String,
}

/// An accepted public-key algorithm (COSE identifier).
#[derive(Debug)]
pub struct PubKeyCredParam {
    pub type_: String,
    pub alg: i64,
}

/// Authenticator selection criteria.
#[derive(Debug)]
pub struct AuthenticatorSelection {
    pub authenticator_attachment: Option<String>,
    pub resident_key: Option<String>,
    pub require_resident_key: Option<bool>,
    pub user_verification: UserVerification,
}

/// Options of a registration ceremony.
#[derive(Debug)]
pub struct RegistrationOptions {
    /// The challenge, base64url.
    pub challenge: String,
    pub challenge_id: String,
    pub rp: RelyingParty,
    pub user: UserInfo,
    pub pub_key_cred_params: Vec<PubKeyCredParam>,
    /// Milliseconds.
    pub timeout: Option<u64>,
    pub exclude_credentials: Option<Vec<CredentialDescriptor>>,
    pub authenticator_selection: Option<AuthenticatorSelection>,
    pub attestation: AttestationType,
}

/// A registration challenge handed out.
#[derive(Debug)]
pub struct RegistrationChallenge {
    pub challenge_id: String,
    pub challenge: Vec<u8>,
    pub user_id: UserId,
}

/// The client's answer to a registration.
#[derive(Debug)]
pub struct RegistrationResponse {
    pub challenge_id: String,
    pub credential: PublicKeyCredential,
    pub device_id: Option<String>,
    pub credential_name: Option<String>,
}

/// The 16 bytes of a 128-bit value, most significant first.
pub open spec fn be_bytes_128(v: u128) -> Seq<u8> {
    Seq::new(16, |i: int| ((v >> ((15 - i) * 8) as u128) & 0xff) as u8)
}

/// The 16 bytes of `v`, most significant first.
pub fn u128_be_bytes(v: u128) -> (r: Vec<u8>)
    ensures
        r@ == be_bytes_128(v),
{
    let mut r: Vec<u8> = Vec::new();
    let mut i: usize = 0;
    while i < 16
        invariant
            i <= 16,
            r@.len() == i,
            forall|j: int| 0 <= j < i ==> r@[j] == ((v >> ((15 - j) * 8) as u128) & 0xff) as u8,
        decreases 16 - i,
    {
        let shift: u128 = ((15 - i) * 8) as u128;
        r.push(((v >> shift) & 0xff) as u8);
        i += 1;
    }
    assert(r@ =~= be_bytes_128(v));
    r
}

/// The attestation of an authenticator response (`InvalidAttestation` for an assertion).
pub fn attestation_of(response: AuthenticatorResponse) -> (r: Result<AttestationResponse, WebAuthnError>)
    ensures
        match response {
            AuthenticatorResponse::Attestation(a) => r == Ok::<AttestationResponse, WebAuthnError>(a),
            AuthenticatorResponse::Assertion(_) => r matches Err(WebAuthnError::InvalidAttestation),
        },
{
    match response {
        AuthenticatorResponse::Attestation(a) => Ok(a),
        AuthenticatorResponse::Assertion(_) => Err(WebAuthnError::InvalidAttestation),
    }
}

/// Reads authenticator data with its attested credential data, if flagged:
/// after the fixed part, the authenticator model (16 bytes), the length of
/// the credential identifier (2 bytes, big-endian), the identifier, and the
/// public key (the rest).
pub open spec fn reads_attested(data: Seq<u8>, a: AuthenticatorData) -> bool {
    &&& reads_prefix(data, a)
    &&& if flags_of(data[32]).attested_credential_data_included {
        let n = be_u16(data[53], data[54]);
        a.attested_credential_data matches Some(acd)
            && acd.aaguid@ == data.subrange(37, 53)
            && acd.credential_id@ == data.subrange(55, 55 + n)
            && acd.credential_public_key@ == data.subrange(55 + n, data.len() as int)
    } else {
        a.attested_credential_data is None
    }
}

/// Why authenticator data bytes cannot be read, if they cannot.
pub open spec fn auth_data_parse_error(data: Seq<u8>) -> Option<Seq<char>> {
    if data.len() < 37 {
        Some("authData too short"@)
    } else if !flags_of(data[32]).attested_credential_data_included {
        None
    } else if data.len() < 55 {
        Some("attested credential data missing"@)
    } else if data.len() < 55 + be_u16(data[53], data[54]) {
        Some("credential ID incomplete"@)
    } else {
        None
    }
}

/// The bytes of the first "authData" entry of a CBOR attestation object.
pub open spec fn auth_data_bytes_of(attestation_object: Seq<u8>) -> Option<Seq<u8>> {
    match cbor_map_of(attestation_object) {
        Some(Some(entries)) => match first_entry(entries, has_text_key("authData"@)) {
            Some(i) => entries[i].3,
            None => None,
        },
        _ => None,
    }
}

/// What a registration yields once its client data passed and its
/// authenticator data `a` was read: the checks of the relying party hash,
/// the user presence and the attested credential, then the credential.
pub open spec fn registration_outcome(
    rp_id: Seq<char>,
    user: u128,
    transports: Option<Seq<Seq<char>>>,
    device_id: Option<Seq<char>>,
    credential_name: Option<String>,
    authenticator_attachment: Option<Seq<char>>,
    now: i64,
    a: AuthenticatorData,
    r: Result<StoredCredential, WebAuthnError>,
) -> bool {
    if a.rp_id_hash@ != sha2_digest_of(rp_id_bytes(rp_id)) {
        r matches Err(WebAuthnError::InvalidRpId { expected, actual }) && expected@ == rp_id
            && actual@ == hex_text(a.rp_id_hash@)
    } else if !a.flags.user_present {
        r matches Err(WebAuthnError::UserVerificationFailed)
    } else {
        match a.attested_credential_data {
            None => r matches Err(WebAuthnError::InvalidAttestation),
            Some(acd) => r matches Ok(c)
                && c.credential_id@ == acd.credential_id@
                && c.public_key@ == acd.credential_public_key@
                && c.sign_count == a.sign_count
                && c.user_id.0 == user
                && c.device_id == (match device_id {
                    Some(d) => match uuid_parse_value(d) { Some(v) => Some(DeviceId(v)), None => None },
                    None => None,
                })
                && c.created_at == now
                && c.last_used_at is None
                && c.metadata.authenticator_type == (if authenticator_attachment == Some("platform"@) {
                    AuthenticatorType::Platform } else { AuthenticatorType::CrossPlatform })
                && c.metadata.aaguid@ == acd.aaguid@
                && string_list_view(c.metadata.transports) == transports
                && c.metadata.name == credential_name
                && !c.metadata.backup_eligible
                && !c.metadata.backup_state,
        }
    }
}

/// A registration yields a credential only for authenticator data scoped
/// to the relying party (its hash is the SHA-256 of the identifier's UTF-8
/// bytes), with the user present and attested credential data; the
/// credential is the attested one, of the challenge's user.
pub proof fn lemma_registered_credential_checks(
    rp_id: Seq<char>,
    user: u128,
    transports: Option<Seq<Seq<char>>>,
    device_id: Option<Seq<char>>,
    credential_name: Option<String>,
    authenticator_attachment: Option<Seq<char>>,
    now: i64,
    a: AuthenticatorData,
    r: Result<StoredCredential, WebAuthnError>,
)
    requires
        registration_outcome(rp_id, user, transports, device_id, credential_name, authenticator_attachment, now, a, r),
        r is Ok,
    ensures
        a.rp_id_hash@ == sha2_digest_of(vstd::utf8::encode_utf8(rp_id)),
        a.flags.user_present,
        a.attested_credential_data matches Some(acd) && r matches Ok(c)
            && c.credential_id@ == acd.credential_id@ && c.public_key@ == acd.credential_public_key@
            && c.user_id.0 == user,
{
}

/// What the registration checks give once the challenge (its bytes and
/// user) was consumed and the client data read: the client data (type
/// "webauthn.create", else `InvalidAttestation`; the challenge; the
/// origin), the authenticator data of the attestation object, then
/// `registration_outcome`.
pub open spec fn attestation_result(
    rp_id: Seq<char>,
    origin: Seq<char>,
    challenge: Seq<u8>,
    user: u128,
    attestation_object: Seq<u8>,
    transports: Option<Seq<Seq<char>>>,
    client_data: ClientData,
    device_id: Option<Seq<char>>,
    credential_name: Option<String>,
    authenticator_attachment: Option<Seq<char>>,
    now: i64,
    r: Result<StoredCredential, WebAuthnError>,
) -> bool {
    if client_data.type_@ != "webauthn.create"@ {
        r matches Err(WebAuthnError::InvalidAttestation)
    } else if b64url_decoded(client_data.challenge@) is None {
        r matches Err(WebAuthnError::DecodingError(_))
    } else if b64url_decoded(client_data.challenge@) != Some(challenge) {
        r matches Err(WebAuthnError::InvalidChallenge)
    } else if client_data.origin@ != origin {
        r matches Err(WebAuthnError::InvalidOrigin { expected, actual }) && expected@ == origin
            && actual@ == client_data.origin@
    } else {
        match auth_data_bytes_of(attestation_object) {
            None => r matches Err(WebAuthnError::DecodingError(_)),
            Some(b) => match auth_data_parse_error(b) {
                Some(m) => r matches Err(WebAuthnError::DecodingError(e)) && e@ == m,
                None => forall|a: AuthenticatorData| #[trigger] reads_attested(b, a) ==> registration_outcome(
                    rp_id, user, transports, device_id, credential_name, authenticator_attachment, now, a, r),
            },
        }
    }
}

/// Storing the credential of a registration check `checked`: a failed
/// check is returned as it is; a credential whose identifier is already
/// registered gives `CredentialExists`; otherwise it is added to the
/// credentials (`before` and `after` the call) and returned.
pub open spec fn stored_outcome(
    before: Map<Seq<u8>, CredentialView>,
    after: Map<Seq<u8>, CredentialView>,
    checked: Result<StoredCredential, WebAuthnError>,
    r: Result<StoredCredential, WebAuthnError>,
) -> bool {
    match checked {
        Err(_) => r == checked && after == before,
        Ok(c) => if before.contains_key(c.credential_id@) {
            r matches Err(WebAuthnError::CredentialExists(h)) && h@ == hex_text(c.credential_id@) && after == before
        } else {
            r == checked && after == before.insert(c.credential_id@, credential_view(c))
        },
    }
}

/// The UTF-8 bytes of a relying party identifier.
pub open spec fn rp_id_bytes(rp_id: Seq<char>) -> Seq<u8> {
    vstd::utf8::encode_utf8(rp_id)
}

/// A list of strings as plain values.
pub open spec fn string_list_view(l: Option<Vec<String>>) -> Option<Seq<Seq<char>>> {
    match l {
        Some(v) => Some(string_views(v@)),
        None => None,
    }
}

/// The value of an optional string.
pub open spec fn opt_text(s: Option<String>) -> Option<Seq<char>> {
    match s {
        Some(t) => Some(t@),
        None => None,
    }
}

/// Whether `after` is `before` with a fresh challenge `c` (32 bytes) of
/// `user_id` stored under `id`, made at `created` and expiring at `expires`,
/// for `registration` or authentication.
pub open spec fn stored_fresh_challenge(
    before: Map<Seq<char>, ChallengeView>,
    after: Map<Seq<char>, ChallengeView>,
    id: Seq<char>,
    c: Seq<u8>,
    user_id: UserId,
    created: i64,
    expires: int,
    registration: bool,
) -> bool {
    c.len() == 32 && after == before.insert(id, (c, user_id.0, created, expires as i64, registration))
}

/// `stored_fresh_challenge` for a registration.
pub open spec fn registered_challenge(
    before: Map<Seq<char>, ChallengeView>,
    after: Map<Seq<char>, ChallengeView>,
    id: Seq<char>,
    c: Seq<u8>,
    user_id: UserId,
    created: i64,
    expires: int,
) -> bool {
    stored_fresh_challenge(before, after, id, c, user_id, created, expires, true)
}

/// The options of a registration, apart from the challenge: the relying
/// party, the user, ES256 then RS256 keys, a minute to answer, the `existing`
/// credentials excluded, a preferred resident key and user verification,
/// the attachment asked for, and no attestation.
pub open spec fn registration_options_shape(
    rp_id: Seq<char>,
    user_id: UserId,
    username: String,
    display_name: String,
    existing: Seq<StoredCredential>,
    authenticator_type: Option<AuthenticatorType>,
    o: RegistrationOptions,
) -> bool {
    &&& o.rp.name@ == "Trading Platform"@
    &&& o.rp.id@ == rp_id
    &&& o.user.id@ == b64url_text(be_bytes_128(user_id.0))
    &&& o.user.name == username
    &&& o.user.display_name == display_name
    &&& o.pub_key_cred_params@.len() == 2
    &&& o.pub_key_cred_params@[0].type_@ == "public-key"@
    &&& o.pub_key_cred_params@[0].alg == -7
    &&& o.pub_key_cred_params@[1].type_@ == "public-key"@
    &&& o.pub_key_cred_params@[1].alg == -257
    &&& o.timeout == Some(60000u64)
    &&& existing.len() == 0 ==> o.exclude_credentials is None
    &&& existing.len() > 0 ==> (o.exclude_credentials matches Some(ex) && ex@.len() == existing.len()
        && forall|i: int| 0 <= i < ex@.len() ==> (#[trigger] ex@[i]).id@ == b64url_text(existing[i].credential_id@)
            && ex@[i].type_@ == "public-key"@)
    &&& o.authenticator_selection matches Some(sel) && sel.resident_key matches Some(rk) && rk@ == "preferred"@
        && sel.require_resident_key is None && sel.user_verification == UserVerification::Preferred
        && match authenticator_type {
            Some(AuthenticatorType::Platform) => sel.authenticator_attachment matches Some(a) && a@ == "platform"@,
            Some(AuthenticatorType::CrossPlatform) => sel.authenticator_attachment matches Some(a) && a@ == "cross-platform"@,
            None => sel.authenticator_attachment is None,
        }
    &&& o.attestation == AttestationType::NoAttestation
}

/// Checks a registration: the relying party and origin it is for.
pub struct RegistrationVerifier {
    pub rp_id: String,
    pub origin: String,
}

impl RegistrationVerifier {
    /// A verifier for `rp_id` and `origin`.
    pub fn new(rp_id: String, origin: String) -> (v: RegistrationVerifier)
        ensures
            v.rp_id == rp_id,
            v.origin == origin,
    {
        RegistrationVerifier { rp_id, origin }
    }

    /// The options of a registration of `user_id` with `challenge` (stored
    /// under `challenge_id`), excluding the user's `existing` credentials.
    pub fn build_options(
        &self,
        user_id: UserId,
        username: String,
        display_name: String,
        challenge: &StoredChallenge,
        challenge_id: String,
        existing: Vec<StoredCredential>,
        authenticator_type: Option<AuthenticatorType>,
    ) -> (o: RegistrationOptions)
        ensures
            o.challenge@ == b64url_text(challenge.challenge@),
            o.challenge_id == challenge_id,
            registration_options_shape(self.rp_id@, user_id, username, display_name, existing@, authenticator_type, o),
    {
        let exclude_credentials = if existing.len() > 0 {
            let mut ex: Vec<CredentialDescriptor> = Vec::new();
            let mut i: usize = 0;
            let n = existing.len();
            let mut rest = existing;
            let ghost all = rest@;
            while i < n
                invariant
                    i <= n,
                    n == all.len(),
                    rest@ == all,
                    ex@.len() == i,
                    forall|j: int| 0 <= j < i ==> (#[trigger] ex@[j]).id@ == b64url_text(all[j].credential_id@)
                        && ex@[j].type_@ == "public-key"@,
                decreases n - i,
            {
                let cred = &rest[i];
                let transports = match &cred.metadata.transports {
                    Some(t) => Some(crate::text::copy_strings(t)),
                    None => None,
                };
                ex.push(CredentialDescriptor::new(cred.credential_id.clone(), transports));
                i += 1;
            }
            Some(ex)
        } else {
            None
        };
        let attachment = match authenticator_type {
            Some(AuthenticatorType::Platform) => Some(String::from_str("platform")),
            Some(AuthenticatorType::CrossPlatform) => Some(String::from_str("cross-platform")),
            None => None,
        };
        let selection = AuthenticatorSelection {
            authenticator_attachment: attachment,
            resident_key: Some(String::from_str("preferred")),
            require_resident_key: None,
            user_verification: UserVerification::Preferred,
        };
        let mut params: Vec<PubKeyCredParam> = Vec::new();
        params.push(PubKeyCredParam { type_: String::from_str("public-key"), alg: -7 });
        params.push(PubKeyCredParam { type_: String::from_str("public-key"), alg: -257 });
        let user_bytes = u128_be_bytes(user_id.0);
        RegistrationOptions {
            challenge: b64url_encode(challenge.challenge.as_slice()),
            challenge_id,
            rp: RelyingParty { name: String::from_str("Trading Platform"), id: self.rp_id.clone() },
            user: UserInfo { id: b64url_encode(user_bytes.as_slice()), name: username, display_name },
            pub_key_cred_params: params,
            timeout: Some(60000),
            exclude_credentials,
            authenticator_selection: Some(selection),
            attestation: AttestationType::NoAttestation,
        }
    }

    /// The options of a registration of `user_id` made at `now`: a fresh
    /// challenge from `challenge_generator` is stored in `challenges` under
    /// the identifier the options carry, and the user's credentials held in
    /// `credentials` are excluded (see `registration_options_shape`).
    pub fn create_options(
        &self,
        challenges: &mut InMemoryChallengeStore,
        credentials: &InMemoryCredentialStore,
        user_id: UserId,
        username: String,
        display_name: String,
        challenge_generator: &ChallengeGenerator,
        authenticator_type: Option<AuthenticatorType>,
        now: i64,
    ) -> (r: Result<RegistrationOptions, WebAuthnError>)
        requires
            ttl_fits(now, challenge_generator.ttl_seconds),
        ensures
            r matches Ok(o) && exists|c: Seq<u8>, ex: Seq<StoredCredential>|
                #[trigger] registered_challenge(old(challenges).held(), final(challenges).held(), o.challenge_id@, c,
                    user_id, now, now + challenge_generator.ttl_seconds * MICROS_PER_SECOND)
                && o.challenge@ == b64url_text(c)
                && #[trigger] lists_user_credentials(ex, credentials.held(), user_id.0)
                && registration_options_shape(self.rp_id@, user_id, username, display_name, ex, authenticator_type, o),
    {
        let stored = challenge_generator.generate_at(user_id, ChallengeType::Registration, now);
        let kept = StoredChallenge {
            challenge: stored.challenge.clone(),
            user_id: stored.user_id,
            created_at: stored.created_at,
            expires_at: stored.expires_at,
            challenge_type: stored.challenge_type,
        };
        let id = match challenges.store(kept) {
            Ok(id) => id,
            Err(e) => {
                return Err(e);
            },
        };
        let existing = match credentials.get_user_credentials(&user_id) {
            Ok(v) => v,
            Err(_) => Vec::new(),
        };
        let ghost ex = existing@;
        let o = self.build_options(user_id, username, display_name, &stored, id, existing, authenticator_type);
        assert(registered_challenge(old(challenges).held(), challenges.held(), o.challenge_id@, stored.challenge@,
            user_id, now, now + challenge_generator.ttl_seconds * MICROS_PER_SECOND));
        assert(lists_user_credentials(ex, credentials.held(), user_id.0));
        Ok(o)
    }

    /// Reads authenticator data bytes, with the attested credential data when
    /// flagged (see `reads_attested`); bytes that cannot be read give
    /// `DecodingError` with the reason of `auth_data_parse_error`.
    pub fn parse_auth_data_bytes(&self, data: &[u8]) -> (r: Result<AuthenticatorData, WebAuthnError>)
        ensures
            match auth_data_parse_error(data@) {
                Some(m) => r matches Err(WebAuthnError::DecodingError(e)) && e@ == m,
                None => r matches Ok(a) && reads_attested(data@, a),
            },
    {
        let mut auth = match parse_auth_data_prefix(data) {
            Ok(a) => a,
            Err(e) => {
                return Err(e);
            },
        };
        if auth.flags.attested_credential_data_included {
            if data.len() < 55 {
                return Err(WebAuthnError::DecodingError(String::from_str("attested credential data missing")));
            }
            let mut aaguid = [0u8; 16];
            let mut i: usize = 0;
            while i < 16
                invariant
                    i <= 16,
                    data@.len() >= 55,
                    forall|j: int| 0 <= j < i ==> aaguid@[j] == data@[37 + j],
                decreases 16 - i,
            {
                aaguid[i] = data[37 + i];
                i += 1;
            }
            assert(aaguid@ =~= data@.subrange(37, 53));
            let cred_id_len = (data[53] as usize) * 256 + (data[54] as usize);
            if data.len() < 55 + cred_id_len {
                return Err(WebAuthnError::DecodingError(String::from_str("credential ID incomplete")));
            }
            let credential_id = slice_range(data, 55, 55 + cred_id_len);
            let credential_public_key = slice_range(data, 55 + cred_id_len, data.len());
            auth.attested_credential_data = Some(AttestedCredentialData { aaguid, credential_id, credential_public_key });
        }
        Ok(auth)
    }

    /// Reads the authenticator data of a CBOR attestation object (its first
    /// "authData" entry, which must hold bytes).
    pub fn parse_authenticator_data(&self, attestation_object: &[u8]) -> (r: Result<AuthenticatorData, WebAuthnError>)
        ensures
            match auth_data_bytes_of(attestation_object@) {
                None => r matches Err(WebAuthnError::DecodingError(e))
                    && (cbor_map_of(attestation_object@) is Some ==> e@ == "authData not found"@),
                Some(b) => match auth_data_parse_error(b) {
                    Some(m) => r matches Err(WebAuthnError::DecodingError(e)) && e@ == m,
                    None => r matches Ok(a) && reads_attested(b, a),
                },
            },
    {
        let entries = match cbor_map_entries(attestation_object) {
            Err(m) => {
                return Err(WebAuthnError::DecodingError(m));
            },
            Ok(None) => {
                return Err(WebAuthnError::DecodingError(String::from_str("authData not found")));
            },
            Ok(Some(v)) => v,
        };
        match find_text_key(&entries, "authData") {
            None => Err(WebAuthnError::DecodingError(String::from_str("authData not found"))),
            Some(i) => {
                assert(cbor_views(entries@)[i as int] == cbor_entry_view(entries@[i as int]));
                match &entries[i].bytes_value {
                    Some(b) => self.parse_auth_data_bytes(b.as_slice()),
                    None => Err(WebAuthnError::DecodingError(String::from_str("authData not found"))),
                }
            },
        }
    }

    /// The checks of a registration once its challenge was consumed and its
    /// client data read (see `attestation_result`). On success, the
    /// credential to store, created at `now`.
    pub fn verify_attestation(
        &self,
        stored_challenge: &StoredChallenge,
        attestation: AttestationResponse,
        client_data: &ClientData,
        device_id: Option<String>,
        credential_name: Option<String>,
        authenticator_attachment: Option<String>,
        now: i64,
    ) -> (r: Result<StoredCredential, WebAuthnError>)
        ensures
            attestation_result(self.rp_id@, self.origin@, stored_challenge.challenge@, stored_challenge.user_id.0,
                attestation.attestation_object@, string_list_view(attestation.transports), *client_data,
                opt_text(device_id), credential_name, opt_text(authenticator_attachment), now, r),
            r is Ok ==> (client_data.type_@ == "webauthn.create"@ && client_data.origin@ == self.origin@
                && b64url_decoded(client_data.challenge@) == Some(stored_challenge.challenge@)),
            r is Ok ==> (auth_data_bytes_of(attestation.attestation_object@) matches Some(b)
                && b.len() >= 37
                && b.subrange(0, 32) == sha2_digest_of(vstd::utf8::encode_utf8(self.rp_id@))
                && flags_of(b[32]).user_present),
    {
        match check_client_data(client_data, "webauthn.create", WebAuthnError::InvalidAttestation,
            stored_challenge.challenge.as_slice(), self.origin.as_str()) {
            Err(e) => {
                return Err(e);
            },
            Ok(()) => {},
        }
        let auth_data = match self.parse_authenticator_data(attestation.attestation_object.as_slice()) {
            Ok(a) => a,
            Err(e) => {
                return Err(e);
            },
        };
        match check_rp_id_hash(self.rp_id.as_str(), &auth_data.rp_id_hash) {
            Err(e) => {
                return Err(e);
            },
            Ok(()) => {},
        }
        if !auth_data.flags.user_present {
            return Err(WebAuthnError::UserVerificationFailed);
        }
        let sign_count = auth_data.sign_count;
        let acd = match auth_data.attested_credential_data {
            Some(acd) => acd,
            None => {
                return Err(WebAuthnError::InvalidAttestation);
            },
        };
        let device = match device_id {
            Some(d) => match parse_uuid(d.as_str()) {
                Some(v) => Some(DeviceId(v)),
                None => None,
            },
            None => None,
        };
        let is_platform = match &authenticator_attachment {
            Some(a) => str_eq(a.as_str(), "platform"),
            None => false,
        };
        let c = StoredCredential {
            credential_id: acd.credential_id,
            user_id: stored_challenge.user_id,
            device_id: device,
            public_key: acd.credential_public_key,
            sign_count,
            metadata: CredentialMetadata {
                authenticator_type: if is_platform { AuthenticatorType::Platform } else { AuthenticatorType::CrossPlatform },
                aaguid: acd.aaguid,
                transports: attestation.transports,
                name: credential_name,
                backup_eligible: false,
                backup_state: false,
            },
            created_at: now,
            last_used_at: None,
        };
        Ok(c)
    }

    /// A registration: consumes the challenge `response.challenge_id` (it
    /// cannot be used again, whatever the outcome), takes the attestation of
    /// the response (an assertion gives `InvalidAttestation`), the client
    /// data read from it (`client_data`; a reading error gives
    /// `DecodingError`), checks them (`attestation_result`) and stores the
    /// credential (`stored_outcome`).
    pub fn verify(
        &self,
        challenges: &mut InMemoryChallengeStore,
        credentials: &mut InMemoryCredentialStore,
        response: RegistrationResponse,
        client_data: Result<ClientData, String>,
        now: i64,
    ) -> (r: Result<StoredCredential, WebAuthnError>)
        ensures
            final(challenges).held() == old(challenges).held().remove(response.challenge_id@),
            !old(challenges).held().contains_key(response.challenge_id@) ==> (r matches Err(WebAuthnError::ChallengeNotFound)
                && final(credentials).held() == old(credentials).held()),
            old(challenges).held().contains_key(response.challenge_id@)
                && now > old(challenges).held()[response.challenge_id@].3 ==> (r matches Err(WebAuthnError::ChallengeExpired)
                && final(credentials).held() == old(credentials).held()),
            old(challenges).held().contains_key(response.challenge_id@)
                && now <= old(challenges).held()[response.challenge_id@].3 ==> match response.credential.response {
                AuthenticatorResponse::Assertion(_) => r matches Err(WebAuthnError::InvalidAttestation)
                    && final(credentials).held() == old(credentials).held(),
                AuthenticatorResponse::Attestation(att) => match client_data {
                    Err(m) => r matches Err(WebAuthnError::DecodingError(e)) && e == m
                        && final(credentials).held() == old(credentials).held(),
                    Ok(cd) => exists|checked: Result<StoredCredential, WebAuthnError>| #[trigger] attestation_result(
                        self.rp_id@, self.origin@, old(challenges).held()[response.challenge_id@].0,
                        old(challenges).held()[response.challenge_id@].1, att.attestation_object@,
                        string_list_view(att.transports), cd, opt_text(response.device_id), response.credential_name,
                        opt_text(response.credential.authenticator_attachment), now, checked)
                        && stored_outcome(old(credentials).held(), final(credentials).held(), checked, r),
                },
            },
    {
        let stored = match challenges.consume_at(response.challenge_id.as_str(), now) {
            Ok(c) => c,
            Err(e) => {
                return Err(e);
            },
        };
        let attachment = response.credential.authenticator_attachment;
        let attestation = match response.credential.response {
            AuthenticatorResponse::Attestation(a) => a,
            AuthenticatorResponse::Assertion(_) => {
                return Err(WebAuthnError::InvalidAttestation);
            },
        };
        let cd = match client_data {
            Ok(cd) => cd,
            Err(m) => {
                return Err(WebAuthnError::DecodingError(m));
            },
        };
        let ghost object = attestation.attestation_object@;
        let ghost transports = string_list_view(attestation.transports);
        let checked = self.verify_attestation(&stored, attestation, &cd, response.device_id, response.credential_name,
            attachment, now);
        assert(attestation_result(self.rp_id@, self.origin@, stored.challenge@, stored.user_id.0, object, transports,
            cd, opt_text(response.device_id), response.credential_name, opt_text(response.credential.authenticator_attachment),
            now, checked));
        let ghost checked_value = checked;
        let ghost before = credentials.held();
        let res = match checked {
            Err(e) => Err(e),
            Ok(c) => {
                match credentials.store(c.copy()) {
                    Err(e) => Err(e),
                    Ok(()) => Ok(c),
                }
            },
        };
        assert(stored_outcome(before, credentials.held(), checked_value, res));
        assert(stored.challenge@ == old(challenges).held()[response.challenge_id@].0);
        assert(stored.user_id.0 == old(challenges).held()[response.challenge_id@].1);
        assert(exists|checked: Result<StoredCredential, WebAuthnError>| #[trigger] attestation_result(
                        self.rp_id@, self.origin@, old(challenges).held()[response.challenge_id@].0,
                        old(challenges).held()[response.challenge_id@].1, object,
                        transports, cd, opt_text(response.device_id), response.credential_name,
                        opt_text(response.credential.authenticator_attachment), now, checked)
                        && stored_outcome(old(credentials).held(), credentials.held(), checked, res));
        res
    }
}

/// A copy of the bytes `from..to` of `data`.
pub fn slice_range(data: &[u8], from: usize, to: usize) -> (r: Vec<u8>)
    requires
        from <= to <= data@.len(),
    ensures
        r@ == data@.subrange(from as int, to as int),
{
    let mut r: Vec<u8> = Vec::new();
    let mut i: usize = from;
    while i < to
        invariant
            from <= i <= to,
            to <= data@.len(),
            r@ == data@.subrange(from as int, i as int),
        decreases to - i,
    {
        r.push(data[i]);
        i += 1;
        assert(r@ =~= data@.subrange(from as int, i as int));
    }
    r
}

} // verus!
