//! Correlation identifiers for grouping audit events, and the trace context
//! of distributed tracing with its W3C `traceparent` header
//! ("00-{trace id}-{parent id}-{flags}", identifiers as 32 hexadecimal digits).
use vstd::prelude::*;
use crate::ids::{
    hex_digit, parse_uuid, random_uuid, simple_digit_position, uuid_parse_value, uuid_simple_string, uuid_simple_text,
    uuid_text, uuid_to_string,
};
use crate::text::{
    all_ascii, chars_within, hex_byte_value, is_utf8_boundary, lemma_ascii_offsets, lemma_split_after_sep,
    lemma_split_no_sep, parse_hex_byte, split_by, split_on, str_eq, utf8_offset, utf8_prefix_len, utf8_slice,
    char_utf8_len, hex_number, unsigned_digits, all_hex, is_hex_char,
};

verus! {

/// Identifier grouping related events.
#[derive(Debug, Clone, Copy, PartialEq, Eq, Hash, Structural)]
pub struct CorrelationId(pub u128);

impl CorrelationId {
    /// A fresh random identifier.
    pub fn new() -> Self {
        CorrelationId(random_uuid())
    }

    /// The identifier's value.
    pub fn as_uuid(&self) -> (u: u128)
        ensures
            u == self.0,
    {
        self.0
    }

    /// Reads an identifier's text (`uuid::Uuid::parse_str`); the text that
    /// `to_string` gives reads back to the same identifier.
    pub fn parse(s: &str) -> (r: Option<CorrelationId>)
        ensures
            r == (match uuid_parse_value(s@) {
                Some(v) => Some(CorrelationId(v)),
                None => None,
            }),
            forall|v: u128| s@ == uuid_text(v) ==> r == Some(CorrelationId(v)),
    {
        match parse_uuid(s) {
            Some(v) => Some(CorrelationId(v)),
            None => None,
        }
    }

    /// The hyphenated text of the identifier.
    pub fn to_string(&self) -> (s: String)
        ensures
            s@ == uuid_text(self.0),
    {
        uuid_to_string(self.0)
    }
}

/// Trace context of distributed tracing.
#[derive(Debug, Clone, Copy, PartialEq, Eq, Structural)]
pub struct TraceContext {
    pub trace_id: u128,
    pub parent_span_id: Option<u128>,
    pub span_id: u128,
    pub sampled: bool,
}

/// The bytes 0..32 of an identifier field can be cut at the group limits
/// 8, 12, 16, 20 and 32 (each falls between characters).
pub open spec fn id_field_sliceable(f: Seq<char>) -> bool {
    &&& is_utf8_boundary(f, 8)
    &&& is_utf8_boundary(f, 12)
    &&& is_utf8_boundary(f, 16)
    &&& is_utf8_boundary(f, 20)
    &&& is_utf8_boundary(f, 32)
}

/// The first 32 bytes of an identifier field, regrouped 8-4-4-4-12 with hyphens.
pub open spec fn uuid_hyphenated(f: Seq<char>) -> Seq<char> {
    utf8_slice(f, 0, 8) + seq!['-'] + utf8_slice(f, 8, 12) + seq!['-'] + utf8_slice(f, 12, 16) + seq!['-']
        + utf8_slice(f, 16, 20) + seq!['-'] + utf8_slice(f, 20, 32)
}

/// The identifier of a field: its first 32 bytes regrouped 8-4-4-4-12 and
/// read as a UUID; `None` when the field cannot be cut there (it is shorter,
/// or a cut falls inside a character).
pub open spec fn id_field_value(f: Seq<char>) -> Option<u128> {
    if id_field_sliceable(f) {
        uuid_parse_value(uuid_hyphenated(f))
    } else {
        None
    }
}

/// The trace identifier, parent identifier and sampling flag of a
/// `traceparent` header: four fields separated by '-', the first "00", the
/// next two identifiers (see `id_field_value`), the last the flags byte in
/// hexadecimal (bit 0: sampled).
pub open spec fn traceparent_fields(header: Seq<char>) -> Option<(u128, u128, bool)> {
    let p = split_by(header, '-');
    if p.len() != 4 || p[0] != "00"@ {
        None
    } else {
        match (id_field_value(p[1]), id_field_value(p[2]), hex_byte_value(p[3])) {
            (Some(t), Some(par), Some(f)) => Some((t, par, f % 2 == 1)),
            _ => None,
        }
    }
}

/// The flags field of a header.
pub open spec fn flags_text(sampled: bool) -> Seq<char> {
    if sampled { "01"@ } else { "00"@ }
}

/// The `traceparent` header of a trace, a parent identifier and a sampling flag.
pub open spec fn traceparent_text(trace: u128, parent: u128, sampled: bool) -> Seq<char> {
    "00"@ + seq!['-'] + uuid_simple_text(trace) + seq!['-'] + uuid_simple_text(parent) + seq!['-'] + flags_text(sampled)
}

/// The simple text of a UUID is ASCII and holds no hyphen.
proof fn lemma_simple_text_ascii(v: u128)
    ensures
        all_ascii(uuid_simple_text(v)),
        !uuid_simple_text(v).contains('-'),
        uuid_simple_text(v).len() == 32,
{
    let s = uuid_simple_text(v);
    assert forall|j: int| 0 <= j < s.len() implies (#[trigger] s[j] as u32) < 0x80 && s[j] != '-' by {
        let i = simple_digit_position(j);
        let n = ((v as int) / vstd::arithmetic::power2::pow2((124 - 4 * crate::ids::uuid_nibble_index(i)) as nat) as int) % 16;
        assert(0 <= n < 16);
        assert(s[j] == hex_digit(n));
    }
}

/// Regrouping the simple text of a UUID gives its hyphenated text.
proof fn lemma_hyphenated_simple(v: u128)
    ensures
        id_field_sliceable(uuid_simple_text(v)),
        uuid_hyphenated(uuid_simple_text(v)) == uuid_text(v),
{
    let s = uuid_simple_text(v);
    lemma_simple_text_ascii(v);
    lemma_ascii_offsets(s, 0);
    lemma_ascii_offsets(s, 8);
    lemma_ascii_offsets(s, 12);
    lemma_ascii_offsets(s, 16);
    lemma_ascii_offsets(s, 20);
    lemma_ascii_offsets(s, 32);
    assert(uuid_hyphenated(s) =~= uuid_text(v));
}

/// The fields of the header of a trace.
proof fn lemma_traceparent_split(trace: u128, parent: u128, sampled: bool)
    ensures
        split_by(traceparent_text(trace, parent, sampled), '-')
            == seq!["00"@, uuid_simple_text(trace), uuid_simple_text(parent), flags_text(sampled)],
{
    reveal_strlit("00");
    reveal_strlit("01");
    lemma_simple_text_ascii(trace);
    lemma_simple_text_ascii(parent);
    let f = flags_text(sampled);
    assert(!f.contains('-')) by {
        if f.contains('-') {
            let i = choose|i: int| 0 <= i < f.len() && f[i] == '-';
            assert(f[i] != '-');
        }
    }
    assert(!"00"@.contains('-')) by {
        if "00"@.contains('-') {
            let i = choose|i: int| 0 <= i < "00"@.len() && "00"@[i] == '-';
            assert("00"@[i] != '-');
        }
    }
    lemma_split_no_sep("00"@, '-');
    let a = "00"@;
    let b = uuid_simple_text(trace);
    let c = uuid_simple_text(parent);
    lemma_split_after_sep(a, b, '-');
    lemma_split_after_sep(a + seq!['-'] + b, c, '-');
    lemma_split_after_sep(a + seq!['-'] + b + seq!['-'] + c, f, '-');
    assert(split_by(a, '-').push(b).push(c).push(f) =~= seq![a, b, c, f]);
}

/// The value of the flags field of a header.
proof fn lemma_flags_value(sampled: bool)
    ensures
        hex_byte_value(flags_text(sampled)) == Some(if sampled { 1u8 } else { 0u8 }),
{
    reveal_strlit("00");
    reveal_strlit("01");
    let d = flags_text(sampled);
    assert(unsigned_digits(d) == d);
    assert(all_hex(d));
    assert(d.drop_last().drop_last() =~= Seq::<char>::empty());
    assert(hex_number(d.drop_last().drop_last()) == 0);
    assert(d.drop_last().last() == d[0]);
    assert(hex_number(d.drop_last()) == 0);
}

/// The header of a trace, a parent and a sampling flag reads back to the
/// identifiers that the UUID reader gives for their hyphenated texts (the
/// trace and the parent themselves, see `CorrelationId::parse`) and to the
/// sampling flag.
pub proof fn lemma_traceparent_reads_back(trace: u128, parent: u128, sampled: bool)
    ensures
        traceparent_fields(traceparent_text(trace, parent, sampled))
            == (match (uuid_parse_value(uuid_text(trace)), uuid_parse_value(uuid_text(parent))) {
                (Some(t), Some(p)) => Some((t, p, sampled)),
                _ => None,
            }),
{
    lemma_traceparent_split(trace, parent, sampled);
    lemma_hyphenated_simple(trace);
    lemma_hyphenated_simple(parent);
    lemma_flags_value(sampled);
    let p = split_by(traceparent_text(trace, parent, sampled), '-');
    assert(p[1] == uuid_simple_text(trace));
    assert(p[2] == uuid_simple_text(parent));
    assert(p[3] == flags_text(sampled));
}

/// `utf8_prefix_len` grows with the number of characters.
proof fn lemma_prefix_len_grows(s: Seq<char>, a: int, b: int)
    requires
        0 <= a < b <= s.len(),
    ensures
        utf8_prefix_len(s, a) < utf8_prefix_len(s, b),
    decreases b - a,
{
    if b - 1 > a {
        lemma_prefix_len_grows(s, a, b - 1);
    }
    assert(char_utf8_len(s[b - 1]) >= 1);
}

/// Reads the identifier of a field (see `id_field_value`).
fn parse_id_field(f: &str) -> (r: Option<u128>)
    ensures
        r == id_field_value(f@),
        forall|v: u128| f@ == uuid_simple_text(v) ==> r == Some(v),
{
    proof {
        assert forall|v: u128| f@ == uuid_simple_text(v) implies id_field_sliceable(f@) by {
            lemma_hyphenated_simple(v);
        }
    }
    let (k0, _) = utf8_offset(f, 0);
    let (k8, at8) = utf8_offset(f, 8);
    let (k12, at12) = utf8_offset(f, 12);
    let (k16, at16) = utf8_offset(f, 16);
    let (k20, at20) = utf8_offset(f, 20);
    let (k32, at32) = utf8_offset(f, 32);
    if !(at8 && at12 && at16 && at20 && at32) {
        return None;
    }
    proof {
        assert(chars_within(f@, 0) == 0);
        assert(utf8_prefix_len(f@, 0) == 0);
        if k8 <= k0 && k0 > 0 { lemma_prefix_len_grows(f@, k8 as int, k0 as int); }
        if k12 <= k8 { lemma_prefix_len_grows(f@, k12 as int, k8 as int); }
        if k16 <= k12 { lemma_prefix_len_grows(f@, k16 as int, k12 as int); }
        if k20 <= k16 { lemma_prefix_len_grows(f@, k20 as int, k16 as int); }
        if k32 <= k20 { lemma_prefix_len_grows(f@, k32 as int, k20 as int); }
    }
    let mut text = String::from_str(f.substring_char(k0, k8));
    text.append("-");
    text.append(f.substring_char(k8, k12));
    text.append("-");
    text.append(f.substring_char(k12, k16));
    text.append("-");
    text.append(f.substring_char(k16, k20));
    text.append("-");
    text.append(f.substring_char(k20, k32));
    proof {
        reveal_strlit("-");
        assert(text@ =~= uuid_hyphenated(f@));
        assert forall|v: u128| f@ == uuid_simple_text(v) implies text@ == uuid_text(v) by {
            lemma_hyphenated_simple(v);
        }
    }
    parse_uuid(text.as_str())
}

impl TraceContext {
    /// A root context: fresh random trace and span identifiers, no parent,
    /// sampled.
    pub fn new() -> (c: TraceContext)
        ensures
            c.parent_span_id is None,
            c.sampled,
    {
        TraceContext { trace_id: random_uuid(), parent_span_id: None, span_id: random_uuid(), sampled: true }
    }

    /// A child span: same trace and sampling, this span as parent, a fresh
    /// random span identifier.
    pub fn child_span(&self) -> (c: TraceContext)
        ensures
            c.trace_id == self.trace_id,
            c.parent_span_id == Some(self.span_id),
            c.sampled == self.sampled,
    {
        TraceContext {
            trace_id: self.trace_id,
            parent_span_id: Some(self.span_id),
            span_id: random_uuid(),
            sampled: self.sampled,
        }
    }

    /// Reads a `traceparent` header (see `traceparent_fields`); a malformed
    /// header gives `None`. The span identifier is fresh and random. The
    /// header that `to_traceparent` writes reads back to its trace, parent
    /// and sampling.
    pub fn from_traceparent(header: &str) -> (r: Option<TraceContext>)
        ensures
            match traceparent_fields(header@) {
                None => r is None,
                Some(fields) => (r matches Some(c) && c.trace_id == fields.0 && c.parent_span_id == Some(fields.1)
                    && c.sampled == fields.2),
            },
            forall|t: u128, p: u128, s: bool| header@ == traceparent_text(t, p, s) ==> (r matches Some(c)
                && c.trace_id == t && c.parent_span_id == Some(p) && c.sampled == s),
    {
        let parts = split_on(header, '-');
        proof {
            assert forall|t: u128, p: u128, s: bool| header@ == traceparent_text(t, p, s) implies
                split_by(header@, '-') == seq!["00"@, uuid_simple_text(t), uuid_simple_text(p), flags_text(s)] by {
                lemma_traceparent_split(t, p, s);
            }
        }
        if parts.len() != 4 {
            return None;
        }
        assert(parts@[0]@ == split_by(header@, '-')[0]);
        if !str_eq(parts[0].as_str(), "00") {
            return None;
        }
        assert(parts@[1]@ == split_by(header@, '-')[1]);
        assert(parts@[2]@ == split_by(header@, '-')[2]);
        assert(parts@[3]@ == split_by(header@, '-')[3]);
        let trace = match parse_id_field(parts[1].as_str()) {
            Some(v) => v,
            None => {
                return None;
            },
        };
        let parent = match parse_id_field(parts[2].as_str()) {
            Some(v) => v,
            None => {
                return None;
            },
        };
        proof {
            assert forall|t: u128, p: u128, s: bool| header@ == traceparent_text(t, p, s) implies
                hex_byte_value(parts@[3]@) == Some(if s { 1u8 } else { 0u8 }) by {
                lemma_flags_value(s);
            }
        }
        let flags = match parse_hex_byte(parts[3].as_str()) {
            Some(b) => b,
            None => {
                return None;
            },
        };
        let sampled = (flags & 1) == 1;
        assert(((flags & 1) == 1) == (flags % 2 == 1)) by (bit_vector);
        proof {
            assert forall|t: u128, p: u128, s: bool| header@ == traceparent_text(t, p, s) implies
                flags == (if s { 1u8 } else { 0u8 }) by {
                lemma_flags_value(s);
            }
        }
        Some(TraceContext { trace_id: trace, parent_span_id: Some(parent), span_id: random_uuid(), sampled })
    }

    /// The `traceparent` header of this context: its trace, its parent (the
    /// nil identifier when it has none) and its sampling.
    pub fn to_traceparent(&self) -> (s: String)
        ensures
            s@ == traceparent_text(self.trace_id, match self.parent_span_id {
                Some(p) => p,
                None => 0u128,
            }, self.sampled),
    {
        let parent: u128 = match self.parent_span_id {
            Some(p) => p,
            None => 0,
        };
        let trace_text = uuid_simple_string(self.trace_id);
        let parent_text = uuid_simple_string(parent);
        let mut s = String::from_str("00-");
        s.append(trace_text.as_str());
        s.append("-");
        s.append(parent_text.as_str());
        if self.sampled {
            s.append("-01");
        } else {
            s.append("-00");
        }
        proof {
            reveal_strlit("00-");
            reveal_strlit("-");
            reveal_strlit("-01");
            reveal_strlit("-00");
            reveal_strlit("00");
            reveal_strlit("01");
            assert(s@ =~= traceparent_text(self.trace_id, parent, self.sampled));
        }
        s
    }
}

} // verus!
