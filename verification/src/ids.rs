//! Identifiers (128-bit UUID values) and the wall clock.
use vstd::prelude::*;

verus! {

/// Lower-case hexadecimal digit for a value below 16.
pub open spec fn hex_digit(n: int) -> char {
    if n < 10 {
        (('0' as int) + n) as char
    } else {
        (('a' as int) + n - 10) as char
    }
}

/// Index of the 4-bit group shown at position `i` of the hyphenated form
/// (hyphens stand at positions 8, 13, 18 and 23).
pub open spec fn uuid_nibble_index(i: int) -> int {
    if i < 8 { i } else if i < 13 { i - 1 } else if i < 18 { i - 2 } else if i < 23 { i - 3 } else { i - 4 }
}

/// The canonical text of a UUID: 36 characters, lower-case hexadecimal digits
/// of the 128-bit value, most significant first, in groups 8-4-4-4-12.
pub open spec fn uuid_text(v: u128) -> Seq<char> {
    Seq::new(36, |i: int|
        if i == 8 || i == 13 || i == 18 || i == 23 {
            '-'
        } else {
            hex_digit(((v as int) / vstd::arithmetic::power2::pow2((124 - 4 * uuid_nibble_index(i)) as nat) as int) % 16)
        })
}

/// What `uuid::Uuid::parse_str` gives back for a text, as a 128-bit value.
pub uninterp spec fn uuid_parse_value(s: Seq<char>) -> Option<u128>;

/// Calls `uuid::Uuid::parse_str`. The result is the parser's value for the
/// text; the crate's documentation shows that the canonical hyphenated text
/// of a value parses back to that value.
#[verifier::external_body]
pub fn parse_uuid(s: &str) -> (r: Option<u128>)
    ensures
        r == uuid_parse_value(s@),
        forall|v: u128| s@ == uuid_text(v) ==> r == Some(v),
{
    match uuid::Uuid::parse_str(s) {
        Ok(u) => Some(u.as_u128()),
        Err(_) => None,
    }
}

/// Calls the `Display` impl of `uuid::Uuid` (hyphenated, lower-case).
#[verifier::external_body]
pub fn uuid_to_string(v: u128) -> (s: String)
    ensures
        s@ == uuid_text(v),
{
    uuid::Uuid::from_u128(v).to_string()
}

/// Position in the hyphenated form of the `j`-th digit of the simple form.
pub open spec fn simple_digit_position(j: int) -> int {
    if j < 8 { j } else if j < 12 { j + 1 } else if j < 16 { j + 2 } else if j < 20 { j + 3 } else { j + 4 }
}

/// The simple text of a UUID: its 32 lower-case hexadecimal digits, most
/// significant first (the hyphenated text without its hyphens).
pub open spec fn uuid_simple_text(v: u128) -> Seq<char> {
    Seq::new(32, |j: int| uuid_text(v)[simple_digit_position(j)])
}

/// Calls `uuid::Uuid::simple` and renders it: the 32 lower-case hexadecimal
/// digits of the value, without hyphens.
#[verifier::external_body]
pub fn uuid_simple_string(v: u128) -> (s: String)
    ensures
        s@ == uuid_simple_text(v),
{
    uuid::Uuid::from_u128(v).simple().to_string()
}

/// Calls `uuid::Uuid::new_v4`: a random value; nothing is promised of it.
#[verifier::external_body]
pub fn random_uuid() -> u128 {
    uuid::Uuid::new_v4().as_u128()
}

/// Calls `chrono::Utc::now` and returns Unix time in microseconds. The value
/// depends on the clock; nothing is promised of it.
#[verifier::external_body]
pub fn now_micros() -> i64 {
    chrono::Utc::now().timestamp_micros()
}

/// Microseconds in one second.
pub const MICROS_PER_SECOND: i64 = 1_000_000;

/// Largest magnitude of a number of seconds that this library turns into
/// microseconds.
pub const MAX_TTL_SECONDS: i64 = 9_000_000_000_000;

/// User identifier.
#[derive(Debug, Clone, Copy, PartialEq, Eq, Hash, Structural)]
pub struct UserId(pub u128);

/// Device identifier for device-bound sessions.
#[derive(Debug, Clone, Copy, PartialEq, Eq, Hash, Structural)]
pub struct DeviceId(pub u128);

/// Session identifier.
#[derive(Debug, Clone, Copy, PartialEq, Eq, Hash, Structural)]
pub struct SessionId(pub u128);

/// Unique token identifier (JWT ID).
#[derive(Debug, Clone, Copy, PartialEq, Eq, Hash, Structural)]
pub struct TokenId(pub u128);

impl UserId {
    /// A fresh random identifier.
    pub fn new() -> Self {
        UserId(random_uuid())
    }

    /// Canonical text of the identifier.
    pub fn to_string(&self) -> (s: String)
        ensures
            s@ == uuid_text(self.0),
    {
        uuid_to_string(self.0)
    }
}

impl DeviceId {
    /// A fresh random identifier.
    pub fn new() -> Self {
        DeviceId(random_uuid())
    }

    /// Canonical text of the identifier.
    pub fn to_string(&self) -> (s: String)
        ensures
            s@ == uuid_text(self.0),
    {
        uuid_to_string(self.0)
    }
}

impl SessionId {
    /// A fresh random identifier.
    pub fn new() -> Self {
        SessionId(random_uuid())
    }

    /// Canonical text of the identifier.
    pub fn to_string(&self) -> (s: String)
        ensures
            s@ == uuid_text(self.0),
    {
        uuid_to_string(self.0)
    }
}

impl TokenId {
    /// A fresh random identifier.
    pub fn new() -> Self {
        TokenId(random_uuid())
    }

    /// Identifier with the given value.
    pub fn from_uuid(v: u128) -> (t: Self)
        ensures
            t.0 == v,
    {
        TokenId(v)
    }

    /// Canonical text of the identifier.
    pub fn to_string(&self) -> (s: String)
        ensures
            s@ == uuid_text(self.0),
    {
        uuid_to_string(self.0)
    }
}

} // verus!

verus! {

/// An IP address: IPv4 as a 32-bit value, IPv6 as a 128-bit value (network order).
#[derive(Debug, Clone, Copy, PartialEq, Eq, Hash, Structural)]
pub enum IpAddress {
    V4(u32),
    V6(u128),
}

} // verus!
