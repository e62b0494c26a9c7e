//! Text helpers shared by the modules of the library.
use vstd::prelude::*;

verus! {

/// The views of a sequence of strings.
pub open spec fn string_views(v: Seq<String>) -> Seq<Seq<char>> {
    v.map_values(|s: String| s@)
}

/// Equality of two string slices by their characters.
pub fn str_eq(a: &str, b: &str) -> (r: bool)
    ensures
        r == (a@ == b@),
{
    let x = String::from_str(a);
    let y = String::from_str(b);
    x == y
}

/// Whether `v` holds a string equal to `s`.
pub fn contains_string(v: &Vec<String>, s: &str) -> (r: bool)
    ensures
        r == string_views(v@).contains(s@),
{
    let target = String::from_str(s);
    let mut i: usize = 0;
    while i < v.len()
        invariant
            i <= v.len(),
            target@ == s@,
            forall|j: int| 0 <= j < i ==> v@[j]@ != s@,
        decreases v.len() - i,
    {
        if v[i] == target {
            assert(string_views(v@)[i as int] == s@);
            return true;
        }
        i += 1;
    }
    assert(!string_views(v@).contains(s@)) by {
        assert forall|j: int| 0 <= j < string_views(v@).len() implies string_views(v@)[j] != s@ by {
            assert(string_views(v@)[j] == v@[j]@);
        }
    }
    false
}

/// A copy of a vector of strings with the same contents.
pub fn copy_strings(v: &Vec<String>) -> (r: Vec<String>)
    ensures
        r@ == v@,
{
    let mut out: Vec<String> = Vec::new();
    let mut i: usize = 0;
    while i < v.len()
        invariant
            i <= v.len(),
            out@ == v@.subrange(0, i as int),
        decreases v.len() - i,
    {
        out.push(v[i].clone());
        i += 1;
    }
    assert(v@.subrange(0, v@.len() as int) == v@);
    out
}

/// Concatenation of string slices into a new string.
pub fn concat2(a: &str, b: &str) -> (r: String)
    ensures
        r@ == a@ + b@,
{
    let mut s = String::from_str(a);
    s.append(b);
    s
}

/// Concatenation of three string slices into a new string.
pub fn concat3(a: &str, b: &str, c: &str) -> (r: String)
    ensures
        r@ == a@ + b@ + c@,
{
    let mut s = String::from_str(a);
    s.append(b);
    s.append(c);
    s
}

/// `t` is a prefix of `s`.
pub open spec fn is_prefix(t: Seq<char>, s: Seq<char>) -> bool {
    t.len() <= s.len() && s.subrange(0, t.len() as int) == t
}

/// `t` is a suffix of `s`.
pub open spec fn is_suffix(t: Seq<char>, s: Seq<char>) -> bool {
    t.len() <= s.len() && s.subrange(s.len() - t.len(), s.len() as int) == t
}

/// `t` occurs in `s` as a run of consecutive characters.
pub open spec fn occurs_in(t: Seq<char>, s: Seq<char>) -> bool {
    exists|i: int| 0 <= i && i + t.len() <= s.len() && #[trigger] s.subrange(i, i + t.len()) == t
}

/// Whether `t` occurs in `s` at position `at`.
fn matches_at(s: &str, t: &str, at: usize, n: usize, m: usize) -> (b: bool)
    requires
        n == s@.len(),
        m == t@.len(),
        at + m <= n,
    ensures
        b == (s@.subrange(at as int, at + m) == t@),
{
    let mut j: usize = 0;
    while j < m
        invariant
            n == s@.len(),
            m == t@.len(),
            at + m <= n,
            j <= m,
            forall|k: int| 0 <= k < j ==> s@[at + k] == t@[k],
        decreases m - j,
    {
        if s.get_char(at + j) != t.get_char(j) {
            assert(s@.subrange(at as int, at + m)[j as int] != t@[j as int]);
            return false;
        }
        j += 1;
    }
    assert(s@.subrange(at as int, at + m) =~= t@);
    true
}

/// Whether `s` starts with `t`.
pub fn str_starts_with(s: &str, t: &str) -> (b: bool)
    ensures
        b == is_prefix(t@, s@),
{
    let n = s.unicode_len();
    let m = t.unicode_len();
    if m > n {
        return false;
    }
    matches_at(s, t, 0, n, m)
}

/// Whether `s` ends with `t`.
pub fn str_ends_with(s: &str, t: &str) -> (b: bool)
    ensures
        b == is_suffix(t@, s@),
{
    let n = s.unicode_len();
    let m = t.unicode_len();
    if m > n {
        return false;
    }
    matches_at(s, t, n - m, n, m)
}

/// Whether `t` occurs in `s`.
pub fn str_contains(s: &str, t: &str) -> (b: bool)
    ensures
        b == occurs_in(t@, s@),
{
    let n = s.unicode_len();
    let m = t.unicode_len();
    if m > n {
        return false;
    }
    let mut i: usize = 0;
    while i < n - m
        invariant
            n == s@.len(),
            m == t@.len(),
            m <= n,
            i <= n - m,
            forall|k: int| 0 <= k < i ==> #[trigger] s@.subrange(k, k + m) != t@,
        decreases n - m - i,
    {
        if matches_at(s, t, i, n, m) {
            return true;
        }
        i += 1;
    }
    matches_at(s, t, n - m, n, m)
}

/// The pieces of `s` between occurrences of `sep`, as splitting on it gives them (always at
/// least one piece).
pub open spec fn split_by(s: Seq<char>, sep: char) -> Seq<Seq<char>>
    decreases s.len(),
{
    if s.len() == 0 {
        seq![Seq::empty()]
    } else {
        let p = split_by(s.drop_last(), sep);
        if s.last() == sep {
            p.push(Seq::empty())
        } else {
            p.update(p.len() - 1, p.last().push(s.last()))
        }
    }
}

pub proof fn lemma_split_nonempty(s: Seq<char>, sep: char)
    ensures
        split_by(s, sep).len() >= 1,
    decreases s.len(),
{
    if s.len() > 0 {
        lemma_split_nonempty(s.drop_last(), sep);
    }
}

/// The pieces of `s` between occurrences of `sep`.
pub fn split_on(s: &str, sep: char) -> (r: Vec<String>)
    ensures
        string_views(r@) == split_by(s@, sep),
{
    let n = s.unicode_len();
    let mut pieces: Vec<String> = Vec::new();
    let mut start: usize = 0;
    let mut i: usize = 0;
    assert(s@.subrange(0, 0) =~= Seq::<char>::empty());
    assert(string_views(pieces@).push(s@.subrange(0, 0)) =~= seq![Seq::<char>::empty()]);
    while i < n
        invariant
            n == s@.len(),
            start <= i <= n,
            string_views(pieces@).push(s@.subrange(start as int, i as int)) == split_by(s@.subrange(0, i as int), sep),
        decreases n - i,
    {
        let c = s.get_char(i);
        let ghost before = string_views(pieces@);
        let ghost old_start = start;
        proof {
            let sub = s@.subrange(0, i + 1);
            assert(sub.drop_last() =~= s@.subrange(0, i as int));
            assert(sub.last() == c);
            lemma_split_nonempty(s@.subrange(0, i as int), sep);
        }
        let ghost p = split_by(s@.subrange(0, i as int), sep);
        assert(p == before.push(s@.subrange(old_start as int, i as int)));
        if c == sep {
            let piece = String::from_str(s.substring_char(start, i));
            pieces.push(piece);
            start = i + 1;
            assert(string_views(pieces@) =~= before.push(s@.subrange(old_start as int, i as int)));
            assert(s@.subrange(i + 1, i + 1) =~= Seq::<char>::empty());
            assert(split_by(s@.subrange(0, i + 1), sep) == p.push(Seq::empty()));
        } else {
            assert(s@.subrange(old_start as int, i + 1) =~= s@.subrange(old_start as int, i as int).push(c));
            assert(split_by(s@.subrange(0, i + 1), sep) == p.update(p.len() - 1, p.last().push(c)));
            assert(p.update(p.len() - 1, p.last().push(c)) =~= before.push(s@.subrange(old_start as int, i + 1)));
        }
        i += 1;
        assert(string_views(pieces@).push(s@.subrange(start as int, i as int)) =~= split_by(s@.subrange(0, i as int), sep));
    }
    let last = String::from_str(s.substring_char(start, n));
    let ghost before = string_views(pieces@);
    pieces.push(last);
    assert(string_views(pieces@) =~= before.push(s@.subrange(start as int, n as int)));
    assert(s@.subrange(0, n as int) =~= s@);
    pieces
}

/// A text without `sep` is one piece.
pub proof fn lemma_split_no_sep(y: Seq<char>, sep: char)
    requires
        !y.contains(sep),
    ensures
        split_by(y, sep) == seq![y],
    decreases y.len(),
{
    if y.len() == 0 {
        assert(y =~= Seq::<char>::empty());
    } else {
        let z = y.drop_last();
        assert(!z.contains(sep)) by {
            if z.contains(sep) {
                let i = choose|i: int| 0 <= i < z.len() && z[i] == sep;
                assert(y[i] == sep);
            }
        }
        lemma_split_no_sep(z, sep);
        assert(y[y.len() - 1] != sep);
        assert(z.push(y.last()) =~= y);
    }
}

/// Splitting `x` + `sep` + `y`, with no `sep` in `y`, gives the pieces of
/// `x` then `y`.
pub proof fn lemma_split_after_sep(x: Seq<char>, y: Seq<char>, sep: char)
    requires
        !y.contains(sep),
    ensures
        split_by(x + seq![sep] + y, sep) == split_by(x, sep).push(y),
    decreases y.len(),
{
    if y.len() == 0 {
        assert(x + seq![sep] + y =~= x.push(sep));
        assert(x.push(sep).drop_last() =~= x);
        assert(y =~= Seq::<char>::empty());
    } else {
        let z = y.drop_last();
        assert(!z.contains(sep)) by {
            if z.contains(sep) {
                let i = choose|i: int| 0 <= i < z.len() && z[i] == sep;
                assert(y[i] == sep);
            }
        }
        lemma_split_after_sep(x, z, sep);
        let w = x + seq![sep] + y;
        assert(w.drop_last() =~= x + seq![sep] + z);
        assert(w.last() == y.last());
        assert(y[y.len() - 1] != sep);
        assert(z.push(y.last()) =~= y);
        assert(split_by(x, sep).push(z).update(split_by(x, sep).len() as int, z.push(y.last()))
            =~= split_by(x, sep).push(y));
    }
}

/// Number of bytes of the UTF-8 encoding of a character.
pub open spec fn char_utf8_len(c: char) -> int {
    if (c as u32) < 0x80 {
        1
    } else if (c as u32) < 0x800 {
        2
    } else if (c as u32) < 0x10000 {
        3
    } else {
        4
    }
}

/// Number of bytes of the UTF-8 encoding of the first `k` characters of `s`.
pub open spec fn utf8_prefix_len(s: Seq<char>, k: int) -> int
    decreases k,
{
    if k <= 0 || s.len() == 0 {
        0
    } else if k > s.len() {
        utf8_prefix_len(s, s.len() as int)
    } else {
        utf8_prefix_len(s, k - 1) + char_utf8_len(s[k - 1])
    }
}

/// Number of characters of `s`, from index `i`, whose UTF-8 encoding fits
/// in `budget` bytes.
pub open spec fn chars_within_from(s: Seq<char>, i: int, budget: int) -> int
    decreases s.len() - i,
{
    if i < 0 || i >= s.len() {
        0
    } else if char_utf8_len(s[i]) <= budget {
        1 + chars_within_from(s, i + 1, budget - char_utf8_len(s[i]))
    } else {
        0
    }
}

/// Number of leading characters of `s` that the first `n` bytes of its
/// UTF-8 encoding hold whole.
pub open spec fn chars_within(s: Seq<char>, n: int) -> int {
    chars_within_from(s, 0, n)
}

/// Byte offset `n` of the UTF-8 encoding of `s` falls between characters
/// (or at its end).
pub open spec fn is_utf8_boundary(s: Seq<char>, n: int) -> bool {
    utf8_prefix_len(s, chars_within(s, n)) == n
}

/// The characters of the bytes `from..to` of the UTF-8 encoding of `s`
/// (for offsets between characters).
pub open spec fn utf8_slice(s: Seq<char>, from: int, to: int) -> Seq<char> {
    s.subrange(chars_within(s, from), chars_within(s, to))
}

/// Every character is ASCII.
pub open spec fn all_ascii(s: Seq<char>) -> bool {
    forall|i: int| 0 <= i < s.len() ==> (#[trigger] s[i] as u32) < 0x80
}

/// In ASCII text, bytes and characters coincide.
pub proof fn lemma_ascii_offsets(s: Seq<char>, n: int)
    requires
        all_ascii(s),
        0 <= n <= s.len(),
    ensures
        chars_within(s, n) == n,
        utf8_prefix_len(s, n) == n,
{
    lemma_ascii_within_from(s, 0, n);
    lemma_ascii_prefix(s, n);
}

proof fn lemma_ascii_within_from(s: Seq<char>, i: int, budget: int)
    requires
        all_ascii(s),
        0 <= i <= s.len(),
        0 <= budget <= s.len() - i,
    ensures
        chars_within_from(s, i, budget) == budget,
    decreases s.len() - i,
{
    if i < s.len() && budget > 0 {
        assert((s[i] as u32) < 0x80);
        lemma_ascii_within_from(s, i + 1, budget - 1);
    }
}

proof fn lemma_ascii_prefix(s: Seq<char>, k: int)
    requires
        all_ascii(s),
        0 <= k <= s.len(),
    ensures
        utf8_prefix_len(s, k) == k,
    decreases k,
{
    if k > 0 {
        assert((s[k - 1] as u32) < 0x80);
        lemma_ascii_prefix(s, k - 1);
    }
}

/// The number of characters held whole by the first `n` bytes of `s`'s
/// UTF-8 encoding, and whether byte `n` falls between characters.
pub fn utf8_offset(s: &str, n: usize) -> (r: (usize, bool))
    ensures
        r.0 == chars_within(s@, n as int),
        r.1 == is_utf8_boundary(s@, n as int),
        r.0 <= s@.len(),
{
    let len = s.unicode_len();
    let mut i: usize = 0;
    let mut used: usize = 0;
    let mut full = false;
    while i < len && !full
        invariant
            len == s@.len(),
            i <= len,
            used <= n,
            used == utf8_prefix_len(s@, i as int),
            chars_within(s@, n as int) == i + chars_within_from(s@, i as int, n - used),
            full ==> i < len && chars_within_from(s@, i as int, n - used) == 0,
        decreases len - i, (if full { 0int } else { 1int }),
    {
        let c = s.get_char(i);
        let w: usize = if (c as u32) < 0x80 { 1 } else if (c as u32) < 0x800 { 2 } else if (c as u32) < 0x10000 { 3 } else { 4 };
        assert(w == char_utf8_len(s@[i as int]));
        if w > n - used {
            full = true;
        } else {
            assert(utf8_prefix_len(s@, i + 1) == utf8_prefix_len(s@, i as int) + char_utf8_len(s@[i as int]));
            used = used + w;
            i = i + 1;
        }
    }
    (i, used == n)
}

/// Whether a character is a hexadecimal digit (either case).
pub open spec fn is_hex_char(c: char) -> bool {
    ('0' <= c && c <= '9') || ('a' <= c && c <= 'f') || ('A' <= c && c <= 'F')
}

/// Value of a hexadecimal digit.
pub open spec fn hex_char_value(c: char) -> int {
    if '0' <= c && c <= '9' {
        c as int - '0' as int
    } else if 'a' <= c && c <= 'f' {
        c as int - 'a' as int + 10
    } else {
        c as int - 'A' as int + 10
    }
}

/// Value of a sequence of hexadecimal digits.
pub open spec fn hex_number(d: Seq<char>) -> int
    decreases d.len(),
{
    if d.len() == 0 {
        0
    } else {
        hex_number(d.drop_last()) * 16 + hex_char_value(d.last())
    }
}

/// The digits of a number in text: after an optional leading '+'.
pub open spec fn unsigned_digits(s: Seq<char>) -> Seq<char> {
    if s.len() > 0 && s[0] == '+' {
        s.drop_first()
    } else {
        s
    }
}

/// Every character is a hexadecimal digit.
pub open spec fn all_hex(d: Seq<char>) -> bool {
    forall|i: int| 0 <= i < d.len() ==> is_hex_char(#[trigger] d[i])
}

/// What reading `s` as a byte in base 16 gives (`u8::from_str_radix`): an
/// optional '+', then at least one digit, all hexadecimal, of value below 256.
pub open spec fn hex_byte_value(s: Seq<char>) -> Option<u8> {
    let d = unsigned_digits(s);
    if d.len() > 0 && all_hex(d) && hex_number(d) < 256 {
        Some(hex_number(d) as u8)
    } else {
        None
    }
}

/// A longer run of digits is worth at least as much.
proof fn lemma_hex_number_grows(d: Seq<char>, k: int)
    requires
        0 <= k <= d.len(),
        forall|i: int| 0 <= i < d.len() ==> is_hex_char(#[trigger] d[i]),
    ensures
        hex_number(d.take(k)) <= hex_number(d),
        hex_number(d) >= 0,
    decreases d.len(),
{
    if d.len() > 0 {
        let z = d.drop_last();
        assert forall|i: int| 0 <= i < z.len() implies is_hex_char(#[trigger] z[i]) by {
            assert(z[i] == d[i]);
        }
        assert(is_hex_char(d[d.len() - 1]));
        if k < d.len() {
            lemma_hex_number_grows(z, k);
            assert(z.take(k) =~= d.take(k));
        } else {
            lemma_hex_number_grows(z, 0);
            assert(d.take(k) =~= d);
        }
    } else {
        assert(d.take(k) =~= d);
    }
}

/// Reads `s` as a byte in base 16 (see `hex_byte_value`).
pub fn parse_hex_byte(s: &str) -> (r: Option<u8>)
    ensures
        r == hex_byte_value(s@),
{
    let len = s.unicode_len();
    let start: usize = if len > 0 && s.get_char(0) == '+' { 1 } else { 0 };
    let ghost d = unsigned_digits(s@);
    assert(d =~= s@.subrange(start as int, len as int));
    if start == len {
        return None;
    }
    let mut acc: u32 = 0;
    let mut i: usize = start;
    while i < len
        invariant
            len == s@.len(),
            start < len,
            start <= i <= len,
            d == s@.subrange(start as int, len as int),
            d == unsigned_digits(s@),
            forall|j: int| 0 <= j < i - start ==> is_hex_char(#[trigger] d[j]),
            acc == hex_number(d.take(i - start)),
            acc < 256,
        decreases len - i,
    {
        let c = s.get_char(i);
        assert(c == d[i - start]);
        let v: u32 = if '0' <= c && c <= '9' {
            (c as u32) - ('0' as u32)
        } else if 'a' <= c && c <= 'f' {
            (c as u32) - ('a' as u32) + 10
        } else if 'A' <= c && c <= 'F' {
            (c as u32) - ('A' as u32) + 10
        } else {
            proof {
                assert(!is_hex_char(d[i - start]));
                assert(!all_hex(d));
                assert(hex_byte_value(s@) is None);
            }
            return None;
        };
        assert(d.take(i - start + 1).drop_last() =~= d.take(i - start));
        assert(d.take(i - start + 1).last() == c);
        acc = acc * 16 + v;
        i = i + 1;
        if acc >= 256 {
            proof {
                if all_hex(d) {
                    lemma_hex_number_grows(d, i - start);
                    assert(hex_number(d) >= 256);
                }
                assert(hex_byte_value(s@) is None);
            }
            return None;
        }
    }
    assert(d.take(len - start) =~= d);
    Some(acc as u8)
}

/// The pieces of `s` between dots.
pub open spec fn split_dots(s: Seq<char>) -> Seq<Seq<char>> {
    split_by(s, '.')
}

/// `split_dots` always gives at least one piece.
pub proof fn lemma_split_dots_nonempty(s: Seq<char>)
    ensures
        split_dots(s).len() >= 1,
{
    lemma_split_nonempty(s, '.');
}

/// The pieces of `s` between dots.
pub fn split_on_dots(s: &str) -> (r: Vec<String>)
    ensures
        string_views(r@) == split_dots(s@),
{
    split_on(s, '.')
}

/// The decimal digits of a natural number (no leading zeros; "0" for zero).
pub open spec fn nat_digits(n: nat) -> Seq<char>
    decreases n,
{
    if n < 10 {
        seq![digit_char(n)]
    } else {
        nat_digits(n / 10).push(digit_char(n % 10))
    }
}

/// The character of a decimal digit.
pub open spec fn digit_char(d: nat) -> char {
    if d == 0 { '0' } else if d == 1 { '1' } else if d == 2 { '2' } else if d == 3 { '3' }
    else if d == 4 { '4' } else if d == 5 { '5' } else if d == 6 { '6' } else if d == 7 { '7' }
    else if d == 8 { '8' } else { '9' }
}

/// The decimal text of an integer, with a leading '-' when negative.
pub open spec fn int_text(n: int) -> Seq<char> {
    if n < 0 { seq!['-'] + nat_digits((-n) as nat) } else { nat_digits(n as nat) }
}

fn digit_str(d: u8) -> (c: &'static str)
    requires
        d < 10,
    ensures
        c@ == seq![digit_char(d as nat)],
{
    proof {
        reveal_strlit("0"); reveal_strlit("1"); reveal_strlit("2"); reveal_strlit("3"); reveal_strlit("4");
        reveal_strlit("5"); reveal_strlit("6"); reveal_strlit("7"); reveal_strlit("8"); reveal_strlit("9");
    }
    if d == 0 { "0" } else if d == 1 { "1" } else if d == 2 { "2" } else if d == 3 { "3" }
    else if d == 4 { "4" } else if d == 5 { "5" } else if d == 6 { "6" } else if d == 7 { "7" }
    else if d == 8 { "8" } else { "9" }
}

/// Appends the decimal digits of `n` to `s`.
fn push_digits(s: &mut String, n: u128)
    ensures
        final(s)@ == old(s)@ + nat_digits(n as nat),
    decreases n,
{
    if n < 10 {
        s.append(digit_str(n as u8));
    } else {
        push_digits(s, n / 10);
        s.append(digit_str((n % 10) as u8));
        assert(old(s)@ + nat_digits((n / 10) as nat) + seq![digit_char((n % 10) as nat)] =~= old(s)@ + nat_digits(n as nat));
    }
}

/// The lower-case hexadecimal digits of a natural number (no leading
/// zeros; "0" for zero).
pub open spec fn nat_hex_digits(n: nat) -> Seq<char>
    decreases n,
{
    if n < 16 {
        seq![crate::ids::hex_digit(n as int)]
    } else {
        nat_hex_digits(n / 16).push(crate::ids::hex_digit((n % 16) as int))
    }
}

/// Appends the hexadecimal digits of `n` to `s`.
fn push_hex_digits(s: &mut String, n: u64)
    ensures
        final(s)@ == old(s)@ + nat_hex_digits(n as nat),
    decreases n,
{
    if n < 16 {
        s.append(hex_str(n as u8));
    } else {
        push_hex_digits(s, n / 16);
        s.append(hex_str((n % 16) as u8));
        assert(old(s)@ + nat_hex_digits((n / 16) as nat) + seq![crate::ids::hex_digit((n % 16) as int)]
            =~= old(s)@ + nat_hex_digits(n as nat));
    }
}

/// The lower-case hexadecimal text of `n` (as `{:x}` formats it).
pub fn u64_to_hex(n: u64) -> (s: String)
    ensures
        s@ == nat_hex_digits(n as nat),
{
    let mut s = String::new();
    push_hex_digits(&mut s, n);
    assert(Seq::<char>::empty() + nat_hex_digits(n as nat) =~= nat_hex_digits(n as nat));
    s
}

/// The decimal text of `n` (as `int_text`).
pub fn int_to_text(n: i64) -> (s: String)
    ensures
        s@ == int_text(n as int),
{
    proof { reveal_strlit("-"); }
    if n < 0 {
        let mut s = String::from_str("-");
        push_digits(&mut s, (-(n as i128)) as u128);
        s
    } else {
        let mut s = String::new();
        push_digits(&mut s, n as u128);
        assert(s@ =~= nat_digits(n as nat));
        s
    }
}

/// The decimal text of an unsigned `n`.
pub fn u64_to_text(n: u64) -> (s: String)
    ensures
        s@ == nat_digits(n as nat),
{
    let mut s = String::new();
    push_digits(&mut s, n as u128);
    assert(Seq::<char>::empty() + nat_digits(n as nat) =~= nat_digits(n as nat));
    s
}

/// The lower-case hexadecimal text of a byte string, two digits per byte.
pub open spec fn hex_text(b: Seq<u8>) -> Seq<char>
    decreases b.len(),
{
    if b.len() == 0 {
        Seq::empty()
    } else {
        hex_text(b.drop_last()) + seq![crate::ids::hex_digit((b.last() / 16) as int), crate::ids::hex_digit((b.last() % 16) as int)]
    }
}

fn hex_str(d: u8) -> (c: &'static str)
    requires
        d < 16,
    ensures
        c@ == seq![crate::ids::hex_digit(d as int)],
{
    proof {
        reveal_strlit("0");
        reveal_strlit("1");
        reveal_strlit("2");
        reveal_strlit("3");
        reveal_strlit("4");
        reveal_strlit("5");
        reveal_strlit("6");
        reveal_strlit("7");
        reveal_strlit("8");
        reveal_strlit("9");
        reveal_strlit("a");
        reveal_strlit("b");
        reveal_strlit("c");
        reveal_strlit("d");
        reveal_strlit("e");
        reveal_strlit("f");
    }
    if d == 0 { "0" } else if d == 1 { "1" } else if d == 2 { "2" } else if d == 3 { "3" } else if d == 4 { "4" } else if d == 5 { "5" } else if d == 6 { "6" } else if d == 7 { "7" } else if d == 8 { "8" } else if d == 9 { "9" } else if d == 10 { "a" } else if d == 11 { "b" } else if d == 12 { "c" } else if d == 13 { "d" } else if d == 14 { "e" } else { "f" }
}

/// The lower-case hexadecimal text of `b`.
pub fn hex_encode(b: &[u8]) -> (s: String)
    ensures
        s@ == hex_text(b@),
{
    let mut s = String::new();
    let mut i: usize = 0;
    assert(b@.subrange(0, 0) =~= Seq::<u8>::empty());
    while i < b.len()
        invariant
            i <= b@.len(),
            s@ == hex_text(b@.subrange(0, i as int)),
        decreases b@.len() - i,
    {
        let x = b[i];
        s.append(hex_str(x / 16));
        s.append(hex_str(x % 16));
        assert(b@.subrange(0, i + 1).drop_last() =~= b@.subrange(0, i as int));
        i += 1;
        assert(s@ =~= hex_text(b@.subrange(0, i as int)));
    }
    assert(b@.subrange(0, b@.len() as int) =~= b@);
    s
}

} // verus!
