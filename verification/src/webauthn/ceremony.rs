//! Steps shared by the registration and authentication ceremonies: the
//! authenticator data layout, client data checks, the relying party hash
//! and CBOR maps.
use vstd::prelude::*;
use sha2::Digest;
use vstd::string::StringSliceAdditionalSpecFns;
use crate::jwt::encoding::{b64url_decode, b64url_decoded};
use crate::text::{hex_encode, hex_text, str_eq};
use crate::webauthn::types::{AuthenticatorData, AuthenticatorFlags, AttestedCredentialData, ClientData, WebAuthnError, flags_of};

verus! {

/// Names the SHA-256 digest computed by the `sha2` crate.
pub uninterp spec fn sha2_digest_of(data: Seq<u8>) -> Seq<u8>;

/// Calls `sha2::Sha256::digest`: the 32-byte SHA-256 digest of `data`.
#[verifier::external_body]
pub fn sha2_digest(data: &[u8]) -> (r: Vec<u8>)
    ensures
        r@ == sha2_digest_of(data@),
        r@.len() == 32,
{
    sha2::Sha256::digest(data).to_vec()
}

/// An entry of a CBOR map, as the ceremonies read it: the key as text or
/// as an integer, the value as an integer or as bytes (each when it is one).
#[derive(Debug)]
pub struct CborEntry {
    pub text_key: Option<String>,
    pub int_key: Option<i64>,
    pub int_value: Option<i64>,
    pub bytes_value: Option<Vec<u8>>,
}

/// A CBOR map entry as plain values.
pub type CborEntryView = (Option<Seq<char>>, Option<i64>, Option<i64>, Option<Seq<u8>>);

/// The plain values of an entry.
pub open spec fn cbor_entry_view(e: CborEntry) -> CborEntryView {
    (
        match e.text_key { Some(t) => Some(t@), None => None },
        e.int_key,
        e.int_value,
        match e.bytes_value { Some(b) => Some(b@), None => None },
    )
}

/// What `ciborium::from_reader` reads from bytes: `None` when they are not
/// CBOR; otherwise the entries of the map they hold, or `None` when the
/// value is not a map.
pub uninterp spec fn cbor_map_of(data: Seq<u8>) -> Option<Option<Seq<CborEntryView>>>;

/// Calls `ciborium::from_reader` and reads the entries of the map decoded.
/// On a decoding failure the error's rendering is returned (its text is
/// left unsaid).
#[verifier::external_body]
pub fn cbor_map_entries(data: &[u8]) -> (r: Result<Option<Vec<CborEntry>>, String>)
    ensures
        match r {
            Err(_) => cbor_map_of(data@) is None,
            Ok(None) => cbor_map_of(data@) == Some(None::<Seq<CborEntryView>>),
            Ok(Some(v)) => cbor_map_of(data@) == Some(Some(cbor_views(v@))),
        },
{
    let value: ciborium::Value = ciborium::from_reader(data).map_err(|e| e.to_string())?;
    Ok(value.as_map().map(|m| m.iter().map(|(k, v)| CborEntry {
        text_key: k.as_text().map(|t| t.to_string()),
        int_key: k.as_integer().and_then(|i| i64::try_from(i).ok()),
        int_value: v.as_integer().and_then(|i| i64::try_from(i).ok()),
        bytes_value: v.as_bytes().cloned(),
    }).collect()))
}

/// Index of the first entry satisfying `key_matches`, if any.
pub open spec fn first_entry(entries: Seq<CborEntryView>, key_matches: spec_fn(CborEntryView) -> bool) -> Option<int>
    decreases entries.len(),
{
    if entries.len() == 0 {
        None
    } else if key_matches(entries[0]) {
        Some(0)
    } else {
        match first_entry(entries.drop_first(), key_matches) {
            Some(i) => Some(i + 1),
            None => None,
        }
    }
}

/// `first_entry` finds the first entry satisfying `key_matches`: `i` when
/// no entry before it does and it does, `None` when none does.
pub proof fn lemma_first_entry(s: Seq<CborEntryView>, key_matches: spec_fn(CborEntryView) -> bool, i: int)
    requires
        0 <= i <= s.len(),
        forall|j: int| 0 <= j < i ==> !key_matches(#[trigger] s[j]),
        i < s.len() ==> key_matches(s[i]),
    ensures
        first_entry(s, key_matches) == (if i < s.len() { Some(i) } else { None::<int> }),
    decreases i,
{
    if i > 0 {
        assert(!key_matches(s[0]));
        let t = s.drop_first();
        assert forall|j: int| 0 <= j < i - 1 implies !key_matches(#[trigger] t[j]) by {
            assert(t[j] == s[j + 1]);
        }
        if i < s.len() {
            assert(t[i - 1] == s[i]);
        }
        lemma_first_entry(t, key_matches, i - 1);
    }
}

/// The entries of a CBOR map as plain values.
pub open spec fn cbor_views(entries: Seq<CborEntry>) -> Seq<CborEntryView> {
    entries.map_values(|e: CborEntry| cbor_entry_view(e))
}

/// An entry whose key is the text `key`.
pub open spec fn has_text_key(key: Seq<char>) -> spec_fn(CborEntryView) -> bool {
    |e: CborEntryView| e.0 == Some(key)
}

/// An entry whose key is the integer `key`.
pub open spec fn has_int_key(key: i64) -> spec_fn(CborEntryView) -> bool {
    |e: CborEntryView| e.1 == Some(key)
}

/// The first entry whose key is the text `key`.
pub fn find_text_key(entries: &Vec<CborEntry>, key: &str) -> (r: Option<usize>)
    ensures
        match r {
            Some(i) => i < entries@.len() && first_entry(cbor_views(entries@), has_text_key(key@)) == Some(i as int),
            None => first_entry(cbor_views(entries@), has_text_key(key@)) is None,
        },
{
    let ghost ev = cbor_views(entries@);
    let ghost p = has_text_key(key@);
    let mut i: usize = 0;
    while i < entries.len()
        invariant
            i <= entries@.len(),
            ev == cbor_views(entries@),
            p == has_text_key(key@),
            forall|j: int| 0 <= j < i ==> !p(#[trigger] ev[j]),
        decreases entries@.len() - i,
    {
        assert(ev[i as int] == cbor_entry_view(entries@[i as int]));
        let is_key = match &entries[i].text_key {
            Some(t) => str_eq(t.as_str(), key),
            None => false,
        };
        if is_key {
            proof { lemma_first_entry(ev, p, i as int); }
            return Some(i);
        }
        i += 1;
    }
    proof { lemma_first_entry(ev, p, i as int); }
    None
}

/// The first entry whose key is the integer `key`.
pub fn find_int_key(entries: &Vec<CborEntry>, key: i64) -> (r: Option<usize>)
    ensures
        match r {
            Some(i) => i < entries@.len() && first_entry(cbor_views(entries@), has_int_key(key)) == Some(i as int),
            None => first_entry(cbor_views(entries@), has_int_key(key)) is None,
        },
{
    let ghost ev = cbor_views(entries@);
    let ghost p = has_int_key(key);
    let mut i: usize = 0;
    while i < entries.len()
        invariant
            i <= entries@.len(),
            ev == cbor_views(entries@),
            p == has_int_key(key),
            forall|j: int| 0 <= j < i ==> !p(#[trigger] ev[j]),
        decreases entries@.len() - i,
    {
        assert(ev[i as int] == cbor_entry_view(entries@[i as int]));
        let is_key = match entries[i].int_key {
            Some(k) => k == key,
            None => false,
        };
        if is_key {
            proof { lemma_first_entry(ev, p, i as int); }
            return Some(i);
        }
        i += 1;
    }
    proof { lemma_first_entry(ev, p, i as int); }
    None
}

/// The 32-bit big-endian number of four bytes.
pub open spec fn be_u32(b0: u8, b1: u8, b2: u8, b3: u8) -> u32 {
    (b0 as int * 16777216 + b1 as int * 65536 + b2 as int * 256 + b3 as int) as u32
}

/// The 16-bit big-endian number of two bytes.
pub open spec fn be_u16(b0: u8, b1: u8) -> int {
    b0 as int * 256 + b1 as int
}

/// The fixed part of authenticator data is well read into `a`: the relying
/// party hash (bytes 0 to 31), the flags (byte 32) and the counter (bytes
/// 33 to 36, big-endian).
pub open spec fn reads_prefix(data: Seq<u8>, a: AuthenticatorData) -> bool {
    &&& data.len() >= 37
    &&& a.rp_id_hash@ == data.subrange(0, 32)
    &&& a.flags == flags_of(data[32])
    &&& a.sign_count == be_u32(data[33], data[34], data[35], data[36])
    &&& a.extensions is None
}

/// Reads the fixed part of authenticator data (no attested credential data).
pub fn parse_auth_data_prefix(data: &[u8]) -> (r: Result<AuthenticatorData, WebAuthnError>)
    ensures
        data@.len() < 37 ==> (r matches Err(WebAuthnError::DecodingError(m)) && m@ == "authData too short"@),
        data@.len() >= 37 ==> (r matches Ok(a) && reads_prefix(data@, a) && a.attested_credential_data is None),
{
    if data.len() < 37 {
        return Err(WebAuthnError::DecodingError(String::from_str("authData too short")));
    }
    let mut rp_id_hash = [0u8; 32];
    let mut i: usize = 0;
    while i < 32
        invariant
            i <= 32,
            data@.len() >= 37,
            forall|j: int| 0 <= j < i ==> rp_id_hash@[j] == data@[j],
        decreases 32 - i,
    {
        rp_id_hash[i] = data[i];
        i += 1;
    }
    assert(rp_id_hash@ =~= data@.subrange(0, 32));
    let flags = AuthenticatorFlags::from_byte(data[32]);
    let sign_count = (data[33] as u32) * 16777216 + (data[34] as u32) * 65536 + (data[35] as u32) * 256 + (data[36] as u32);
    Ok(AuthenticatorData { rp_id_hash, flags, sign_count, attested_credential_data: None, extensions: None })
}

/// Checks client data: its type is `expected_type` (else `type_error`), its
/// challenge decodes (else `DecodingError`) to `challenge` (else
/// `InvalidChallenge`), its origin is `origin` (else `InvalidOrigin`).
pub fn check_client_data(
    client_data: &ClientData,
    expected_type: &str,
    type_error: WebAuthnError,
    challenge: &[u8],
    origin: &str,
) -> (r: Result<(), WebAuthnError>)
    ensures
        client_data.type_@ != expected_type@ ==> r == Err::<(), WebAuthnError>(type_error),
        client_data.type_@ == expected_type@ && b64url_decoded(client_data.challenge@) is None
            ==> r matches Err(WebAuthnError::DecodingError(_)),
        client_data.type_@ == expected_type@ && (b64url_decoded(client_data.challenge@) matches Some(c) && c != challenge@)
            ==> r matches Err(WebAuthnError::InvalidChallenge),
        client_data.type_@ == expected_type@ && b64url_decoded(client_data.challenge@) == Some(challenge@)
            && client_data.origin@ != origin@
            ==> (r matches Err(WebAuthnError::InvalidOrigin { expected, actual }) && expected@ == origin@
                && actual@ == client_data.origin@),
        r is Ok <==> (client_data.type_@ == expected_type@ && b64url_decoded(client_data.challenge@) == Some(challenge@)
            && client_data.origin@ == origin@),
{
    if !str_eq(client_data.type_.as_str(), expected_type) {
        return Err(type_error);
    }
    let bytes = match b64url_decode(client_data.challenge.as_str()) {
        Ok(b) => b,
        Err(m) => {
            return Err(WebAuthnError::DecodingError(m));
        },
    };
    if !bytes_eq(bytes.as_slice(), challenge) {
        return Err(WebAuthnError::InvalidChallenge);
    }
    if !str_eq(client_data.origin.as_str(), origin) {
        return Err(WebAuthnError::InvalidOrigin { expected: String::from_str(origin), actual: client_data.origin.clone() });
    }
    Ok(())
}

/// Equality of byte strings.
pub fn bytes_eq(a: &[u8], b: &[u8]) -> (r: bool)
    ensures
        r == (a@ == b@),
{
    if a.len() != b.len() {
        return false;
    }
    let mut i: usize = 0;
    while i < a.len()
        invariant
            i <= a@.len(),
            a@.len() == b@.len(),
            forall|j: int| 0 <= j < i ==> a@[j] == b@[j],
        decreases a@.len() - i,
    {
        if a[i] != b[i] {
            return false;
        }
        i += 1;
    }
    assert(a@ =~= b@);
    true
}

/// Checks the relying party hash of authenticator data against `rp_id`:
/// `InvalidRpId` (with the hash received in hexadecimal) unless it is the
/// SHA-256 of the identifier's UTF-8 bytes.
pub fn check_rp_id_hash(rp_id: &str, rp_id_hash: &[u8; 32]) -> (r: Result<(), WebAuthnError>)
    ensures
        rp_id_hash@ == sha2_digest_of(rp_id.spec_bytes()) ==> r is Ok,
        rp_id_hash@ != sha2_digest_of(rp_id.spec_bytes()) ==> (r matches Err(WebAuthnError::InvalidRpId { expected, actual })
            && expected@ == rp_id@ && actual@ == hex_text(rp_id_hash@)),
{
    let expected = sha2_digest(rp_id.as_bytes());
    if !bytes_eq(rp_id_hash.as_slice(), expected.as_slice()) {
        return Err(WebAuthnError::InvalidRpId {
            expected: String::from_str(rp_id),
            actual: hex_encode(rp_id_hash.as_slice()),
        });
    }
    Ok(())
}

} // verus!
