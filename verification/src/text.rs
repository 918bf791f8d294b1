//! Character and string helpers shared by the codecs and the catalog.

use vstd::prelude::*;

use crate::search::{first_index, last_index, lemma_first_at, lemma_first_none, lemma_last_at};

verus! {

/// ASCII lower-casing of a code point: `A..=Z` map to `a..=z`, everything else
/// is unchanged.
pub open spec fn ascii_lower(c: u32) -> u32 {
    if 65 <= c && c <= 90 { (c + 32) as u32 } else { c }
}

/// Two character sequences are equal ignoring ASCII case.
pub open spec fn eq_ignore_ascii_case(a: Seq<char>, b: Seq<char>) -> bool {
    &&& a.len() == b.len()
    &&& forall|i: int| 0 <= i < a.len() ==> ascii_lower(#[trigger] a[i] as u32) == ascii_lower(b[i] as u32)
}

/// Whether two strings are equal ignoring ASCII case.
pub fn str_eq_ignore_ascii_case(a: &str, b: &str) -> (r: bool)
    ensures
        r == eq_ignore_ascii_case(a@, b@),
{
    let n = a.unicode_len();
    let m = b.unicode_len();
    if n != m {
        return false;
    }
    let mut i: usize = 0;
    while i < n
        invariant
            n == a@.len(),
            m == b@.len(),
            n == m,
            i <= n,
            forall|j: int| 0 <= j < i ==> ascii_lower(#[trigger] a@[j] as u32) == ascii_lower(b@[j] as u32),
        decreases n - i,
    {
        let x = a.get_char(i) as u32;
        let y = b.get_char(i) as u32;
        let lx = if 65 <= x && x <= 90 { x + 32 } else { x };
        let ly = if 65 <= y && y <= 90 { y + 32 } else { y };
        if lx != ly {
            return false;
        }
        i += 1;
    }
    true
}

} // verus!

verus! {

/// Append one character to a string (`String::push`).
#[verifier::external_body]
pub(crate) fn push_char(s: &mut String, c: char)
    ensures
        final(s)@ == old(s)@.push(c),
{
    s.push(c);
}

/// The ASCII character of a decimal digit.
pub open spec fn digit_char(d: nat) -> char {
    (48 + d) as char
}

/// Decimal rendering of a natural number, without leading zeros.
pub open spec fn dec(n: nat) -> Seq<char>
    decreases n,
{
    if n < 10 {
        seq![digit_char(n)]
    } else {
        dec(n / 10).push(digit_char(n % 10))
    }
}

/// The character of a decimal digit.
pub fn digit(d: u64) -> (c: char)
    requires
        d < 10,
    ensures
        c == digit_char(d as nat),
{
    let b: u8 = (d as u8) + 48;
    b as char
}

/// Append the decimal rendering of `n`.
pub fn push_decimal(s: &mut String, n: u64)
    ensures
        final(s)@ == old(s)@ + dec(n as nat),
    decreases n,
{
    if n >= 10 {
        push_decimal(s, n / 10);
    }
    push_char(s, digit(n % 10));
    proof {
        assert(s@ =~= old(s)@ + dec(n as nat));
    }
}

} // verus!

verus! {

/// A lower-case hexadecimal digit.
pub open spec fn hex_lower_digit(d: nat) -> char {
    if d < 10 {
        (48 + d) as char
    } else {
        (87 + d) as char
    }
}

/// An upper-case hexadecimal digit.
pub open spec fn hex_upper_digit(d: nat) -> char {
    if d < 10 {
        (48 + d) as char
    } else {
        (55 + d) as char
    }
}

/// A byte as two lower-case hex digits.
pub open spec fn hex_lower(b: u8) -> Seq<char> {
    seq![hex_lower_digit((b / 16) as nat), hex_lower_digit((b % 16) as nat)]
}

/// A byte as two upper-case hex digits (`{:02X}`).
pub open spec fn hex_upper(b: u8) -> Seq<char> {
    seq![hex_upper_digit((b / 16) as nat), hex_upper_digit((b % 16) as nat)]
}

/// A byte as `0x` and two lower-case hex digits (`{:#04x}`).
pub open spec fn hex_prefixed(b: u8) -> Seq<char> {
    seq!['0', 'x'] + hex_lower(b)
}

fn lower_digit(d: u8) -> (c: char)
    requires
        d < 16,
    ensures
        c == hex_lower_digit(d as nat),
{
    let b: u8 = if d < 10 { d + 48 } else { d + 87 };
    b as char
}

fn upper_digit(d: u8) -> (c: char)
    requires
        d < 16,
    ensures
        c == hex_upper_digit(d as nat),
{
    let b: u8 = if d < 10 { d + 48 } else { d + 55 };
    b as char
}

/// Append a byte as `0x` and two lower-case hex digits.
pub fn push_hex_prefixed(s: &mut String, b: u8)
    ensures
        final(s)@ == old(s)@ + hex_prefixed(b),
{
    push_char(s, '0');
    push_char(s, 'x');
    push_char(s, lower_digit(b / 16));
    push_char(s, lower_digit(b % 16));
    assert(s@ =~= old(s)@ + hex_prefixed(b));
}

/// Append a byte as two upper-case hex digits.
pub fn push_hex_upper(s: &mut String, b: u8)
    ensures
        final(s)@ == old(s)@ + hex_upper(b),
{
    push_char(s, upper_digit(b / 16));
    push_char(s, upper_digit(b % 16));
    assert(s@ =~= old(s)@ + hex_upper(b));
}

/// Bytes as upper-case hex pairs separated by single spaces (`"11 21 0D"`).
pub open spec fn hex_spaced(bytes: Seq<u8>) -> Seq<char>
    decreases bytes.len(),
{
    if bytes.len() == 0 {
        Seq::empty()
    } else if bytes.len() == 1 {
        hex_upper(bytes[0])
    } else {
        hex_spaced(bytes.drop_last()) + seq![' '] + hex_upper(bytes.last())
    }
}

/// Render bytes as space-separated upper-case hex.
pub fn hex(bytes: &[u8]) -> (r: String)
    ensures
        r@ == hex_spaced(bytes@),
{
    let mut s = String::new();
    let mut i: usize = 0;
    while i < bytes.len()
        invariant
            i <= bytes@.len(),
            s@ == hex_spaced(bytes@.take(i as int)),
        decreases bytes@.len() - i,
    {
        proof {
            assert(bytes@.take(i + 1).drop_last() =~= bytes@.take(i as int));
        }
        if i > 0 {
            push_char(&mut s, ' ');
        }
        push_hex_upper(&mut s, bytes[i]);
        proof {
            if i == 0 {
                assert(s@ =~= hex_spaced(bytes@.take(1)));
            } else {
                assert(s@ =~= hex_spaced(bytes@.take(i + 1)));
            }
        }
        i += 1;
    }
    assert(bytes@.take(bytes@.len() as int) =~= bytes@);
    s
}

/// The text of bytes decoded as UTF-8 with each invalid sequence replaced by
/// U+FFFD (`String::from_utf8_lossy`).
pub uninterp spec fn utf8_lossy(bytes: Seq<u8>) -> Seq<char>;

/// Whether every byte is ASCII (`< 0x80`).
pub open spec fn all_ascii(bytes: Seq<u8>) -> bool {
    forall|i: int| 0 <= i < bytes.len() ==> #[trigger] bytes[i] < 0x80
}

/// Bytes read one character per byte.
pub open spec fn latin1(bytes: Seq<u8>) -> Seq<char> {
    bytes.map_values(|b: u8| b as char)
}

/// Decode bytes as UTF-8, replacing invalid sequences (`String::from_utf8_lossy`).
/// The result is a function of the bytes; ASCII bytes decode one character each.
#[verifier::external_body]
pub(crate) fn lossy_utf8(bytes: &[u8]) -> (r: String)
    ensures
        r@ == utf8_lossy(bytes@),
        all_ascii(bytes@) ==> r@ == latin1(bytes@),
{
    String::from_utf8_lossy(bytes).into_owned()
}

} // verus!

verus! {

/// Append every byte of `s` to `v`.
pub fn push_all(v: &mut Vec<u8>, s: &[u8])
    ensures
        final(v)@ == old(v)@ + s@,
{
    let mut i: usize = 0;
    while i < s.len()
        invariant
            i <= s@.len(),
            v@ == old(v)@ + s@.take(i as int),
        decreases s@.len() - i,
    {
        v.push(s[i]);
        i += 1;
        assert(v@ =~= old(v)@ + s@.take(i as int));
    }
    assert(s@.take(s@.len() as int) =~= s@);
}

} // verus!

verus! {

/// The Unicode `White_Space` characters (what `str::trim` removes).
pub open spec fn is_white(c: char) -> bool {
    let u = c as u32;
    (9 <= u && u <= 13) || u == 32 || u == 0x85 || u == 0xA0 || u == 0x1680 || (0x2000 <= u && u
        <= 0x200A) || u == 0x2028 || u == 0x2029 || u == 0x202F || u == 0x205F || u == 0x3000
}

/// A character that is not white space.
pub open spec fn not_white() -> spec_fn(char) -> bool {
    |c: char| !is_white(c)
}

/// `s` with leading and trailing white space removed.
pub open spec fn trim_spec(s: Seq<char>) -> Seq<char> {
    match (first_index(s, not_white()), last_index(s, not_white())) {
        (Some(a), Some(b)) => s.subrange(a, b + 1),
        _ => Seq::empty(),
    }
}

/// Whether `c` is a Unicode `White_Space` character.
pub fn white(c: char) -> (r: bool)
    ensures
        r == is_white(c),
{
    let u = c as u32;
    (9 <= u && u <= 13) || u == 32 || u == 0x85 || u == 0xA0 || u == 0x1680 || (0x2000 <= u && u
        <= 0x200A) || u == 0x2028 || u == 0x2029 || u == 0x202F || u == 0x205F || u == 0x3000
}

/// `s` with leading and trailing white space removed (`str::trim`).
pub fn trim(s: &str) -> (r: String)
    ensures
        r@ == trim_spec(s@),
{
    let n = s.unicode_len();
    let ghost p = not_white();
    let mut a: usize = 0;
    while a < n && white(s.get_char(a))
        invariant
            a <= n,
            n == s@.len(),
            p == not_white(),
            forall|j: int| 0 <= j < a ==> !p(#[trigger] s@[j]),
        decreases n - a,
    {
        a += 1;
    }
    if a == n {
        proof {
            lemma_first_none(s@, p);
        }
        return String::new();
    }
    proof {
        lemma_first_at(s@, p, a as int);
    }
    let mut b: usize = n - 1;
    while b > a && white(s.get_char(b))
        invariant
            a <= b < n,
            n == s@.len(),
            p == not_white(),
            p(s@[a as int]),
            forall|j: int| b < j < n ==> !p(#[trigger] s@[j]),
        decreases b - a,
    {
        b -= 1;
    }
    proof {
        lemma_last_at(s@, p, b as int);
    }
    String::from_str(s.substring_char(a, b + 1))
}

} // verus!

verus! {

/// A byte as `0x` and two upper-case hex digits (`{:#04X}`).
pub open spec fn hex_prefixed_upper(b: u8) -> Seq<char> {
    seq!['0', 'x'] + hex_upper(b)
}

/// Append a byte as `0x` and two upper-case hex digits.
pub fn push_hex_prefixed_upper(s: &mut String, b: u8)
    ensures
        final(s)@ == old(s)@ + hex_prefixed_upper(b),
{
    push_char(s, '0');
    push_char(s, 'x');
    push_hex_upper(s, b);
    assert(s@ =~= old(s)@ + hex_prefixed_upper(b));
}

/// The `Debug` rendering of a string: the text in double quotes, with quotes,
/// backslashes and non-printable characters escaped.
pub uninterp spec fn debug_text(s: Seq<char>) -> Seq<char>;

/// The `Debug` rendering of a string (`format!("{s:?}")`).
#[verifier::external_body]
pub(crate) fn debug_str(s: &str) -> (r: String)
    ensures
        r@ == debug_text(s@),
{
    format!("{s:?}")
}

} // verus!

verus! {

/// Whether two strings are equal.
pub fn str_equal(a: &str, b: &str) -> (r: bool)
    ensures
        r == (a@ == b@),
{
    let n = a.unicode_len();
    if n != b.unicode_len() {
        return false;
    }
    let mut i: usize = 0;
    while i < n
        invariant
            i <= n,
            n == a@.len(),
            n == b@.len(),
            forall|j: int| 0 <= j < i ==> a@[j] == b@[j],
        decreases n - i,
    {
        if a.get_char(i) != b.get_char(i) {
            return false;
        }
        i += 1;
    }
    assert(a@ =~= b@);
    true
}

/// A number in decimal, zero-padded to at least three digits (`{:03}`).
pub open spec fn padded3(n: nat) -> Seq<char> {
    if n < 10 {
        seq!['0', '0'] + dec(n)
    } else if n < 100 {
        seq!['0'] + dec(n)
    } else {
        dec(n)
    }
}

/// Append a number in decimal, zero-padded to at least three digits.
pub fn push_padded3(s: &mut String, n: u64)
    ensures
        final(s)@ == old(s)@ + padded3(n as nat),
{
    if n < 10 {
        push_char(s, '0');
        push_char(s, '0');
    } else if n < 100 {
        push_char(s, '0');
    }
    let ghost mid = s@;
    push_decimal(s, n);
    assert(s@ =~= old(s)@ + padded3(n as nat));
}

/// Equality ignoring ASCII case is symmetric and transitive.
pub proof fn lemma_case_equiv(a: Seq<char>, b: Seq<char>, c: Seq<char>)
    requires
        eq_ignore_ascii_case(a, b),
    ensures
        eq_ignore_ascii_case(b, a),
        eq_ignore_ascii_case(a, c) == eq_ignore_ascii_case(b, c),
{
    if eq_ignore_ascii_case(a, c) {
        assert forall|i: int| 0 <= i < b.len() implies ascii_lower(#[trigger] b[i] as u32)
            == ascii_lower(c[i] as u32) by {
            assert(ascii_lower(a[i] as u32) == ascii_lower(b[i] as u32));
        }
    }
    if eq_ignore_ascii_case(b, c) {
        assert forall|i: int| 0 <= i < a.len() implies ascii_lower(#[trigger] a[i] as u32)
            == ascii_lower(c[i] as u32) by {
            assert(ascii_lower(b[i] as u32) == ascii_lower(c[i] as u32));
        }
    }
    assert forall|i: int| 0 <= i < b.len() implies ascii_lower(#[trigger] b[i] as u32)
        == ascii_lower(a[i] as u32) by {
        assert(ascii_lower(a[i] as u32) == ascii_lower(b[i] as u32));
    }
}

/// Two strings of equal length that differ at `i`, even ignoring ASCII case,
/// are not equal ignoring case.
pub proof fn lemma_differ_at(a: Seq<char>, b: Seq<char>, i: int)
    requires
        0 <= i < a.len(),
        a.len() == b.len(),
        ascii_lower(a[i] as u32) != ascii_lower(b[i] as u32),
    ensures
        !eq_ignore_ascii_case(a, b),
{
}

} // verus!
