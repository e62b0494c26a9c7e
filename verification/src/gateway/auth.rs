//! Authentication requests and replies of the gateway. Login,
//! registration and refresh are stand-ins that accept every request and hand
//! out placeholder tokens.
use vstd::prelude::*;
use crate::ids::{random_uuid, uuid_text, uuid_to_string};
use crate::jwt::encoding::{b64url_encode, b64url_text};
use crate::text::{concat2, split_by, split_on, lemma_split_nonempty};
use crate::webauthn::registration::{be_bytes_128, u128_be_bytes};

verus! {

/// Login request.
#[derive(Debug, Clone)]
pub struct LoginRequest {
    pub email: String,
    pub password: String,
}

/// Registration request.
#[derive(Debug, Clone)]
pub struct RegisterRequest {
    pub email: String,
    pub password: String,
    pub name: String,
}

/// Reply to a login, registration or refresh.
#[derive(Debug, Clone)]
pub struct LoginResponse {
    pub access_token: String,
    pub refresh_token: String,
    pub user: UserInfo,
}

/// The user logged in.
#[derive(Debug, Clone)]
pub struct UserInfo {
    pub id: String,
    pub email: String,
    pub name: String,
    pub role: String,
}

/// Start of a WebAuthn registration.
#[derive(Debug, Clone)]
pub struct WebAuthnRegisterInitRequest {
    pub user_id: String,
}

/// Options of a WebAuthn registration.
#[derive(Debug, Clone)]
pub struct WebAuthnRegisterInitResponse {
    pub challenge: String,
    pub rp: RelyingParty,
    pub user: WebAuthnUser,
    pub pub_key_cred_params: Vec<PubKeyCredParam>,
    pub timeout: u64,
    pub attestation: String,
}

/// Relying party of a WebAuthn ceremony.
#[derive(Debug, Clone)]
pub struct RelyingParty {
    pub name: String,
    pub id: String,
}

/// User of a WebAuthn registration.
#[derive(Debug, Clone)]
pub struct WebAuthnUser {
    pub id: String,
    pub name: String,
    pub display_name: String,
}

/// An accepted public-key algorithm (COSE identifier).
#[derive(Debug, Clone)]
pub struct PubKeyCredParam {
    pub type_: String,
    pub alg: i32,
}

/// A placeholder token: `prefix` followed by the text of some UUID.
pub open spec fn placeholder_token(prefix: Seq<char>, token: Seq<char>) -> bool {
    exists|v: u128| token == prefix + #[trigger] uuid_text(v)
}

/// A placeholder token `prefix` + a fresh random UUID.
fn new_placeholder_token(prefix: &str) -> (t: String)
    ensures
        placeholder_token(prefix@, t@),
{
    let v = random_uuid();
    let text = uuid_to_string(v);
    concat2(prefix, text.as_str())
}

/// A fresh random user identifier's text.
fn new_user_id() -> (t: String)
    ensures
        exists|v: u128| t@ == #[trigger] uuid_text(v),
{
    let v = random_uuid();
    uuid_to_string(v)
}

/// The reply to a login: a trader named by the part of the email before
/// its first '@', with a fresh identifier and placeholder tokens.
pub fn login(payload: LoginRequest) -> (r: LoginResponse)
    ensures
        r.user.email == payload.email,
        r.user.name@ == split_by(payload.email@, '@')[0],
        r.user.role@ == "trader"@,
        exists|v: u128| r.user.id@ == #[trigger] uuid_text(v),
        placeholder_token("mock_access_token_"@, r.access_token@),
        placeholder_token("mock_refresh_token_"@, r.refresh_token@),
{
    let pieces = split_on(payload.email.as_str(), '@');
    proof { lemma_split_nonempty(payload.email@, '@'); }
    let name = pieces[0].clone();
    let user = UserInfo { id: new_user_id(), email: payload.email, name, role: String::from_str("trader") };
    LoginResponse {
        access_token: new_placeholder_token("mock_access_token_"),
        refresh_token: new_placeholder_token("mock_refresh_token_"),
        user,
    }
}

/// The reply to a registration: a trader with the email and name given, a
/// fresh identifier and placeholder tokens.
pub fn register(payload: RegisterRequest) -> (r: LoginResponse)
    ensures
        r.user.email == payload.email,
        r.user.name == payload.name,
        r.user.role@ == "trader"@,
        exists|v: u128| r.user.id@ == #[trigger] uuid_text(v),
        placeholder_token("mock_access_token_"@, r.access_token@),
        placeholder_token("mock_refresh_token_"@, r.refresh_token@),
{
    let user = UserInfo { id: new_user_id(), email: payload.email, name: payload.name, role: String::from_str("trader") };
    LoginResponse {
        access_token: new_placeholder_token("mock_access_token_"),
        refresh_token: new_placeholder_token("mock_refresh_token_"),
        user,
    }
}

/// The reply to a token refresh: the stand-in user "user@example.com" with
/// placeholder tokens.
pub fn refresh() -> (r: LoginResponse)
    ensures
        r.user.email@ == "user@example.com"@,
        r.user.name@ == "User"@,
        r.user.role@ == "trader"@,
        exists|v: u128| r.user.id@ == #[trigger] uuid_text(v),
        placeholder_token("mock_access_token_"@, r.access_token@),
        placeholder_token("mock_refresh_token_"@, r.refresh_token@),
{
    let user = UserInfo {
        id: new_user_id(),
        email: String::from_str("user@example.com"),
        name: String::from_str("User"),
        role: String::from_str("trader"),
    };
    LoginResponse {
        access_token: new_placeholder_token("mock_access_token_"),
        refresh_token: new_placeholder_token("mock_refresh_token_"),
        user,
    }
}

/// The reply to a completed WebAuthn authentication: the stand-in user
/// "webauthn@example.com" with placeholder tokens.
pub fn webauthn_auth_complete() -> (r: LoginResponse)
    ensures
        r.user.email@ == "webauthn@example.com"@,
        r.user.name@ == "WebAuthn User"@,
        r.user.role@ == "trader"@,
        exists|v: u128| r.user.id@ == #[trigger] uuid_text(v),
        placeholder_token("mock_access_token_"@, r.access_token@),
        placeholder_token("mock_refresh_token_"@, r.refresh_token@),
{
    let user = UserInfo {
        id: new_user_id(),
        email: String::from_str("webauthn@example.com"),
        name: String::from_str("WebAuthn User"),
        role: String::from_str("trader"),
    };
    LoginResponse {
        access_token: new_placeholder_token("mock_access_token_"),
        refresh_token: new_placeholder_token("mock_refresh_token_"),
        user,
    }
}

/// A fresh challenge: the 16 bytes of a random UUID, base64url.
pub fn new_challenge() -> (c: String)
    ensures
        exists|v: u128| c@ == b64url_text(#[trigger] be_bytes_128(v)),
{
    let v = random_uuid();
    let bytes = u128_be_bytes(v);
    b64url_encode(bytes.as_slice())
}

/// The options of a WebAuthn registration for `payload.user_id`: relying
/// party "Trading Platform" at "localhost", ES256 then RS256, a minute to
/// answer, no attestation, and a fresh challenge.
pub fn webauthn_register_init(payload: WebAuthnRegisterInitRequest) -> (r: WebAuthnRegisterInitResponse)
    ensures
        exists|v: u128| r.challenge@ == b64url_text(#[trigger] be_bytes_128(v)),
        r.rp.name@ == "Trading Platform"@,
        r.rp.id@ == "localhost"@,
        r.user.id == payload.user_id,
        r.user.name@ == "user_"@ + payload.user_id@,
        r.user.display_name@ == "User "@ + payload.user_id@,
        r.pub_key_cred_params@.len() == 2,
        r.pub_key_cred_params@[0].type_@ == "public-key"@ && r.pub_key_cred_params@[0].alg == -7,
        r.pub_key_cred_params@[1].type_@ == "public-key"@ && r.pub_key_cred_params@[1].alg == -257,
        r.timeout == 60000,
        r.attestation@ == "none"@,
{
    let mut params: Vec<PubKeyCredParam> = Vec::new();
    params.push(PubKeyCredParam { type_: String::from_str("public-key"), alg: -7 });
    params.push(PubKeyCredParam { type_: String::from_str("public-key"), alg: -257 });
    let name = concat2("user_", payload.user_id.as_str());
    let display_name = concat2("User ", payload.user_id.as_str());
    WebAuthnRegisterInitResponse {
        challenge: new_challenge(),
        rp: RelyingParty { name: String::from_str("Trading Platform"), id: String::from_str("localhost") },
        user: WebAuthnUser { id: payload.user_id, name, display_name },
        pub_key_cred_params: params,
        timeout: 60000,
        attestation: String::from_str("none"),
    }
}

} // verus!
