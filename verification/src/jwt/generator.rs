//! Token generation: the claims and metadata of new tokens and the encoding
//! of a signed token. Times are Unix times in microseconds.
use vstd::prelude::*;
use crate::crypto::kms::KmsError;
use crate::domain::claims::{AccessClaims, RefreshClaims, StandardClaims, ClaimScope, seconds_of};
use crate::domain::session::ttl_fits;
use crate::domain::token::{AccessToken, RefreshToken};
use crate::domain::user::UserDomain;
use crate::ids::{UserId, DeviceId, SessionId, TokenId, MICROS_PER_SECOND, uuid_text};
use crate::jwt::encoding::{b64url_encode, b64url_text, b64url_decoded};
use crate::text::{string_views, split_dots, copy_strings, lemma_split_no_sep, lemma_split_after_sep};

verus! {

/// Generation errors.
#[derive(Debug)]
pub enum GenerationError {
    Kms(KmsError),
    Serialization(String),
    Encoding(String),
    Config(String),
}

/// Generator configuration.
#[derive(Debug, Clone)]
pub struct GeneratorConfig {
    pub issuer: String,
    pub audience: Vec<String>,
    pub token_version: u32,
}

impl Default for GeneratorConfig {
    fn default() -> (c: GeneratorConfig)
        ensures
            c.issuer@ == "trading-platform-auth"@,
            string_views(c.audience@) == seq!["trading-platform"@],
            c.token_version == 1,
    {
        let mut audience: Vec<String> = Vec::new();
        audience.push(String::from_str("trading-platform"));
        assert(string_views(audience@) =~= seq!["trading-platform"@]);
        GeneratorConfig { issuer: String::from_str("trading-platform-auth"), audience, token_version: 1 }
    }
}

/// Standard claims of a token issued at `now` for `ttl` seconds.
pub open spec fn issued_standard(config: GeneratorConfig, user_id: UserId, jti: TokenId, now: i64, ttl: i64, s: StandardClaims) -> bool {
    &&& s.iss == config.issuer
    &&& s.sub@ == uuid_text(user_id.0)
    &&& s.aud@ == config.audience@
    &&& s.exp == seconds_of(now + ttl * MICROS_PER_SECOND)
    &&& s.nbf == seconds_of(now as int)
    &&& s.iat == seconds_of(now as int)
    &&& s.jti@ == uuid_text(jti.0)
}

/// Builds the claims and metadata of tokens signed elsewhere.
pub struct JwtGenerator {
    pub config: GeneratorConfig,
}

impl JwtGenerator {
    /// A generator with `config`.
    pub fn new(config: GeneratorConfig) -> (g: JwtGenerator)
        ensures
            g.config == config,
    {
        JwtGenerator { config }
    }

    /// Claims of an access token issued at `now` for `ttl` seconds, with
    /// identifier `jti`, signed with key `kid`.
    pub fn access_claims_at(
        &self,
        user_id: UserId,
        device_id: DeviceId,
        session_id: SessionId,
        domain: UserDomain,
        scopes: Vec<ClaimScope>,
        ip: String,
        mfa_verified: bool,
        webauthn_verified: bool,
        nonce: String,
        kid: String,
        jti: TokenId,
        now: i64,
        ttl: i64,
    ) -> (c: AccessClaims)
        requires
            ttl_fits(now, ttl),
        ensures
            issued_standard(self.config, user_id, jti, now, ttl, c.standard),
            c.domain == domain,
            c.device_id@ == uuid_text(device_id.0),
            c.session_id@ == uuid_text(session_id.0),
            c.scopes == scopes,
            c.nonce == nonce,
            c.kid == kid,
            c.ip == ip,
            c.mfa_verified == mfa_verified,
            c.webauthn_verified == webauthn_verified,
            c.token_version == self.config.token_version,
    {
        let expires_at = now + ttl * MICROS_PER_SECOND;
        let standard = StandardClaims::new(
            self.config.issuer.clone(),
            user_id,
            copy_strings(&self.config.audience),
            jti,
            now,
            expires_at,
        );
        AccessClaims {
            standard,
            domain,
            device_id: device_id.to_string(),
            session_id: session_id.to_string(),
            scopes,
            nonce,
            kid,
            ip,
            mfa_verified,
            webauthn_verified,
            token_version: self.config.token_version,
        }
    }

    /// Claims of a refresh token issued at `now` for `ttl` seconds.
    pub fn refresh_claims_at(
        &self,
        user_id: UserId,
        device_id: DeviceId,
        session_id: SessionId,
        domain: UserDomain,
        parent_jti: Option<TokenId>,
        generation: u32,
        rotation_count: u32,
        max_rotations: u32,
        kid: String,
        jti: TokenId,
        now: i64,
        ttl: i64,
    ) -> (c: RefreshClaims)
        requires
            ttl_fits(now, ttl),
        ensures
            issued_standard(self.config, user_id, jti, now, ttl, c.standard),
            c.domain == domain,
            c.device_id@ == uuid_text(device_id.0),
            c.session_id@ == uuid_text(session_id.0),
            c.kid == kid,
            match parent_jti {
                Some(p) => c.parent_jti matches Some(s) && s@ == uuid_text(p.0),
                None => c.parent_jti is None,
            },
            c.generation == generation,
            c.rotation_count == rotation_count,
            c.max_rotations == max_rotations,
            c.token_version == self.config.token_version,
    {
        let expires_at = now + ttl * MICROS_PER_SECOND;
        let standard = StandardClaims::new(
            self.config.issuer.clone(),
            user_id,
            copy_strings(&self.config.audience),
            jti,
            now,
            expires_at,
        );
        let parent = match parent_jti {
            Some(p) => Some(p.to_string()),
            None => None,
        };
        RefreshClaims {
            standard,
            domain,
            device_id: device_id.to_string(),
            session_id: session_id.to_string(),
            kid,
            parent_jti: parent,
            generation,
            rotation_count,
            max_rotations,
            token_version: self.config.token_version,
        }
    }
}

/// Metadata of an access token issued at `now` for `ttl` seconds.
pub fn access_token_metadata(
    jti: TokenId,
    user_id: UserId,
    device_id: DeviceId,
    nonce: String,
    algorithm: String,
    key_id: String,
    now: i64,
    ttl: i64,
) -> (t: AccessToken)
    requires
        ttl_fits(now, ttl),
    ensures
        t == (AccessToken {
            jti, user_id, device_id, issued_at: now, expires_at: (now + ttl * MICROS_PER_SECOND) as i64,
            nonce, algorithm, key_id,
        }),
{
    AccessToken { jti, user_id, device_id, issued_at: now, expires_at: now + ttl * MICROS_PER_SECOND, nonce, algorithm, key_id }
}

/// Metadata of a refresh token issued at `now` for `ttl` seconds.
pub fn refresh_token_metadata(
    jti: TokenId,
    user_id: UserId,
    device_id: DeviceId,
    parent_jti: Option<TokenId>,
    generation: u32,
    max_rotations: u32,
    rotation_count: u32,
    algorithm: String,
    key_id: String,
    now: i64,
    ttl: i64,
) -> (t: RefreshToken)
    requires
        ttl_fits(now, ttl),
    ensures
        t == (RefreshToken {
            jti, user_id, device_id, issued_at: now, expires_at: (now + ttl * MICROS_PER_SECOND) as i64,
            parent_jti, generation, max_rotations, rotation_count, algorithm, key_id,
        }),
{
    RefreshToken {
        jti, user_id, device_id, issued_at: now, expires_at: now + ttl * MICROS_PER_SECOND,
        parent_jti, generation, max_rotations, rotation_count, algorithm, key_id,
    }
}

/// Lifetimes of the tokens of a pair for `domain`: the access token's, and
/// the refresh token's when the domain issues refresh tokens.
pub fn token_pair_ttls(domain: UserDomain) -> (r: (i64, Option<i64>))
    ensures
        r.0 == domain.spec_access_token_ttl(),
        domain.spec_refresh_token_ttl() > 0 ==> r.1 == Some(domain.spec_refresh_token_ttl()),
        domain.spec_refresh_token_ttl() <= 0 ==> r.1 is None,
{
    let refresh = domain.refresh_token_ttl();
    (domain.access_token_ttl(), if refresh > 0 { Some(refresh) } else { None })
}

/// The rotation limit of a new refresh token chain.
pub const MAX_ROTATIONS: u32 = 10;

/// The chain settings of the first refresh token of a pair: no parent,
/// generation 0, no rotation yet, and the rotation limit `MAX_ROTATIONS`.
pub fn first_refresh_chain() -> (r: (Option<TokenId>, u32, u32, u32))
    ensures
        r == (None::<TokenId>, 0u32, 0u32, MAX_ROTATIONS),
{
    (None, 0, 0, MAX_ROTATIONS)
}

/// The compact form of a signed token: the base64url texts of header,
/// payload and signature joined by dots.
pub open spec fn compact_token(header: Seq<u8>, payload: Seq<u8>, signature: Seq<u8>) -> Seq<char> {
    b64url_text(header) + "."@ + b64url_text(payload) + "."@ + b64url_text(signature)
}

/// Encodes a signed token in compact form.
pub fn encode_jwt(header_json: &[u8], payload_json: &[u8], signature: &[u8]) -> (s: String)
    ensures
        s@ == compact_token(header_json@, payload_json@, signature@),
        split_dots(s@) == seq![b64url_text(header_json@), b64url_text(payload_json@), b64url_text(signature@)],
{
    let h = b64url_encode(header_json);
    let p = b64url_encode(payload_json);
    let g = b64url_encode(signature);
    let mut s = h.clone();
    s.append(".");
    s.append(p.as_str());
    s.append(".");
    s.append(g.as_str());
    proof {
        reveal_strlit(".");
        lemma_split_no_sep(h@, '.');
        lemma_split_after_sep(h@, p@, '.');
        lemma_split_after_sep(h@ + "."@ + p@, g@, '.');
        assert(h@ + "."@ + p@ + "."@ + g@ == (h@ + "."@ + p@) + seq!['.'] + g@);
        assert(h@ + "."@ + p@ == h@ + seq!['.'] + p@);
    }
    s
}

/// A token encoded by `encode_jwt` splits back into three segments that
/// decode to the header, payload and signature that were encoded.
pub proof fn lemma_encoded_token_decodes(header: Seq<u8>, payload: Seq<u8>, signature: Seq<u8>, token: Seq<char>)
    requires
        split_dots(token) == seq![b64url_text(header), b64url_text(payload), b64url_text(signature)],
        b64url_decoded(b64url_text(header)) == Some(header),
        b64url_decoded(b64url_text(payload)) == Some(payload),
        b64url_decoded(b64url_text(signature)) == Some(signature),
    ensures
        split_dots(token).len() == 3,
        b64url_decoded(split_dots(token)[0]) == Some(header),
        b64url_decoded(split_dots(token)[1]) == Some(payload),
        b64url_decoded(split_dots(token)[2]) == Some(signature),
{
}

} // verus!
