//! The command line's argument grammar: hex bytes and addresses, CC values,
//! chain-slot names, and the labels it prints for value kinds and names.

use vstd::prelude::*;

use crate::param::{step_table, steps, Kind, Slot};
use crate::text::{
    ascii_lower, debug_str, debug_text, dec, eq_ignore_ascii_case, latin1, lossy_utf8,
    push_char, push_decimal, str_eq_ignore_ascii_case,
};
use crate::search::{last_index, lemma_last_at, lemma_last_none};
use crate::tfx::printable;

verus! {

// ---- numbers ----

/// The value of a hexadecimal digit character, if it is one.
pub open spec fn hex_digit_value(c: char) -> Option<nat> {
    if '0' <= c && c <= '9' {
        Some((c as nat - 48) as nat)
    } else if 'a' <= c && c <= 'f' {
        Some((c as nat - 87) as nat)
    } else if 'A' <= c && c <= 'F' {
        Some((c as nat - 55) as nat)
    } else {
        None
    }
}

/// The value of a decimal digit character, if it is one.
pub open spec fn dec_digit_value(c: char) -> Option<nat> {
    if '0' <= c && c <= '9' {
        Some((c as nat - 48) as nat)
    } else {
        None
    }
}

/// The number a run of digits in `radix` spells, if every character is a
/// digit of that radix.
pub open spec fn digits_value(s: Seq<char>, hexadecimal: bool) -> Option<nat>
    decreases s.len(),
{
    if s.len() == 0 {
        Some(0)
    } else {
        let d = if hexadecimal {
            hex_digit_value(s.last())
        } else {
            dec_digit_value(s.last())
        };
        match (digits_value(s.drop_last(), hexadecimal), d) {
            (Some(v), Some(d)) => Some(v * (if hexadecimal { 16nat } else { 10nat }) + d),
            _ => None,
        }
    }
}

/// What an unsigned integer parse (`from_str_radix`, `str::parse`) reads: an
/// optional leading `+`, then at least one digit, the value at most `max`.
pub open spec fn unsigned_value(s: Seq<char>, hexadecimal: bool, max: nat) -> Option<nat> {
    let digits = if s.len() > 0 && s[0] == '+' {
        s.skip(1)
    } else {
        s
    };
    if digits.len() == 0 {
        None
    } else {
        match digits_value(digits, hexadecimal) {
            Some(v) => if v <= max {
                Some(v)
            } else {
                None
            },
            None => None,
        }
    }
}

/// Parse an unsigned number in base 16 or 10, at most `max`.
fn parse_unsigned(s: &str, hexadecimal: bool, max: u32) -> (r: Option<u32>)
    requires
        max < 0x1000_0000,
    ensures
        match r {
            Some(v) => unsigned_value(s@, hexadecimal, max as nat) == Some(v as nat),
            None => unsigned_value(s@, hexadecimal, max as nat) is None,
        },
{
    let n = s.unicode_len();
    let start: usize = if n > 0 && s.get_char(0) == '+' { 1 } else { 0 };
    let ghost digits = if s@.len() > 0 && s@[0] == '+' { s@.skip(1) } else { s@ };
    assert(digits =~= s@.skip(start as int));
    if start == n {
        return None;
    }
    let radix: u32 = if hexadecimal { 16 } else { 10 };
    let mut acc: u32 = 0;
    let mut i: usize = start;
    while i < n
        invariant
            start <= i <= n,
            n == s@.len(),
            digits == s@.skip(start as int),
            digits == (if s@.len() > 0 && s@[0] == '+' { s@.skip(1) } else { s@ }),
            start < n,
            radix == (if hexadecimal { 16u32 } else { 10u32 }),
            max < 0x1000_0000,
            acc <= max,
            digits_value(s@.subrange(start as int, i as int), hexadecimal) == Some(acc as nat),
        decreases n - i,
    {
        let c = s.get_char(i);
        let u = c as u32;
        let d: u32 = if 48 <= u && u <= 57 {
            u - 48
        } else if hexadecimal && 97 <= u && u <= 102 {
            u - 87
        } else if hexadecimal && 65 <= u && u <= 70 {
            u - 55
        } else {
            proof {
                lemma_digits_invalid(s@, start as int, i as int, hexadecimal);
                assert(s@.subrange(start as int, n as int) =~= digits);
            }
            return None;
        };
        proof {
            assert(s@.subrange(start as int, i + 1).drop_last() =~= s@.subrange(
                start as int,
                i as int,
            ));
        }
        let next: u32 = acc * radix + d;
        if next > max {
            proof {
                lemma_digits_too_big(s@, start as int, i as int, hexadecimal, max as nat);
                assert(s@.subrange(start as int, n as int) =~= digits);
            }
            return None;
        }
        acc = next;
        i += 1;
    }
    assert(s@.subrange(start as int, n as int) =~= digits);
    Some(acc)
}

/// A digit that is not one of the radix makes the whole run invalid.
proof fn lemma_digits_invalid(s: Seq<char>, start: int, i: int, hexadecimal: bool)
    requires
        0 <= start <= i < s.len(),
        (if hexadecimal {
            hex_digit_value(s[i])
        } else {
            dec_digit_value(s[i])
        }) is None,
    ensures
        digits_value(s.subrange(start, s.len() as int), hexadecimal) is None,
    decreases s.len() - i,
{
    let t = s.subrange(start, s.len() as int);
    if i == s.len() - 1 {
        assert(t.last() == s[i]);
    } else {
        let s2 = s.drop_last();
        lemma_digits_invalid(s2, start, i, hexadecimal);
        assert(t.drop_last() =~= s2.subrange(start, s2.len() as int));
    }
}

/// Once a prefix of the digits exceeds `max`, so does every longer run: the
/// value only grows as digits are appended.
proof fn lemma_digits_too_big(s: Seq<char>, start: int, i: int, hexadecimal: bool, max: nat)
    requires
        0 <= start <= i < s.len(),
        digits_value(s.subrange(start, i + 1), hexadecimal) matches Some(v) && v > max,
    ensures
        unsigned_value_digits_exceed(s.subrange(start, s.len() as int), hexadecimal, max),
    decreases s.len() - i,
{
    if i == s.len() - 1 {
        assert(s.subrange(start, i + 1) =~= s.subrange(start, s.len() as int));
    } else {
        let t = s.subrange(start, s.len() as int);
        let s2 = s.drop_last();
        assert(s2.subrange(start, i + 1) =~= s.subrange(start, i + 1));
        lemma_digits_too_big(s2, start, i, hexadecimal, max);
        assert(t.drop_last() =~= s2.subrange(start, s2.len() as int));
        match digits_value(t, hexadecimal) {
            Some(w) => {
                let u = digits_value(t.drop_last(), hexadecimal)->0;
                assert(w >= u * (if hexadecimal { 16nat } else { 10nat })) by (nonlinear_arith)
                    requires
                        w == u * (if hexadecimal { 16nat } else { 10nat }) + (if hexadecimal {
                            hex_digit_value(t.last())->0
                        } else {
                            dec_digit_value(t.last())->0
                        }),
                ;
                assert(u * (if hexadecimal { 16nat } else { 10nat }) >= u) by (nonlinear_arith);
            },
            None => {},
        }
    }
}

/// A run of digits is invalid or spells a number above `max`.
pub open spec fn unsigned_value_digits_exceed(s: Seq<char>, hexadecimal: bool, max: nat) -> bool {
    match digits_value(s, hexadecimal) {
        Some(v) => v > max,
        None => true,
    }
}

/// The text after a leading `0x`, if there is one.
pub open spec fn strip_hex_prefix(s: Seq<char>) -> Seq<char> {
    if s.len() >= 2 && s[0] == '0' && s[1] == 'x' {
        s.skip(2)
    } else {
        s
    }
}

/// The byte a hex token spells (an optional `0x` first).
pub open spec fn hex_byte_spec(s: Seq<char>) -> Option<u8> {
    match unsigned_value(strip_hex_prefix(s), true, 255) {
        Some(v) => Some(v as u8),
        None => None,
    }
}

/// The text of an invalid hex byte.
pub open spec fn invalid_byte_text(s: Seq<char>) -> Seq<char> {
    "invalid hex byte "@ + debug_text(s)
}

/// Parse a single hex byte (optional `0x`).
pub fn parse_byte(s: &str) -> (r: Result<u8, String>)
    ensures
        match (r, hex_byte_spec(s@)) {
            (Ok(b), Some(v)) => b == v,
            (Err(m), None) => m@ == invalid_byte_text(s@),
            _ => false,
        },
{
    let n = s.unicode_len();
    let h = if n >= 2 && s.get_char(0) == '0' && s.get_char(1) == 'x' {
        s.substring_char(2, n)
    } else {
        s
    };
    assert(h@ =~= strip_hex_prefix(s@));
    match parse_unsigned(h, true, 255) {
        Some(v) => Ok(v as u8),
        None => Err(String::from_str("invalid hex byte ").concat(debug_str(s).as_str())),
    }
}

// ---- addresses ----

/// An address separator: a space or a comma.
pub open spec fn is_separator(c: char) -> bool {
    c == ' ' || c == ','
}

/// The pieces of `s` between separators, empty ones included.
pub open spec fn pieces(s: Seq<char>) -> Seq<Seq<char>>
    decreases s.len(),
{
    if s.len() == 0 {
        seq![Seq::empty()]
    } else {
        let p = pieces(s.drop_last());
        if is_separator(s.last()) {
            p.push(Seq::empty())
        } else {
            p.update(p.len() - 1, p.last().push(s.last()))
        }
    }
}

/// A non-empty piece.
pub open spec fn non_empty_piece() -> spec_fn(Seq<char>) -> bool {
    |t: Seq<char>| t.len() > 0
}

/// The tokens of an address: its non-empty pieces.
pub open spec fn tokens(s: Seq<char>) -> Seq<Seq<char>> {
    pieces(s).filter(non_empty_piece())
}

/// What an address parses to: each token as a hex byte; the first invalid
/// token is the error; no tokens at all is an empty address.
pub open spec fn parse_bytes_spec(toks: Seq<Seq<char>>) -> Result<Seq<u8>, Seq<char>>
    decreases toks.len(),
{
    if toks.len() == 0 {
        Ok(Seq::empty())
    } else {
        match parse_bytes_spec(toks.drop_last()) {
            Err(m) => Err(m),
            Ok(bs) => match hex_byte_spec(toks.last()) {
                Some(b) => Ok(bs.push(b)),
                None => Err(invalid_byte_text(toks.last())),
            },
        }
    }
}

/// What [`parse_addr`] answers.
pub open spec fn parse_addr_spec(s: Seq<char>) -> Result<Seq<u8>, Seq<char>> {
    match parse_bytes_spec(tokens(s)) {
        Err(m) => Err(m),
        Ok(bs) => if bs.len() == 0 {
            Err("empty address"@)
        } else {
            Ok(bs)
        },
    }
}

/// The pieces of a prefix, and the piece being built, after one more
/// character.
proof fn lemma_pieces_step(s: Seq<char>, i: int)
    requires
        0 <= i < s.len(),
    ensures
        pieces(s.take(i + 1)) == (if is_separator(s[i]) {
            pieces(s.take(i)).push(Seq::empty())
        } else {
            pieces(s.take(i)).update(
                pieces(s.take(i)).len() - 1,
                pieces(s.take(i)).last().push(s[i]),
            )
        }),
        pieces(s.take(i)).len() >= 1,
{
    assert(s.take(i + 1).drop_last() =~= s.take(i));
    lemma_pieces_non_empty(s.take(i));
}

/// There is always at least one piece.
proof fn lemma_pieces_non_empty(s: Seq<char>)
    ensures
        pieces(s).len() >= 1,
    decreases s.len(),
{
    if s.len() > 0 {
        lemma_pieces_non_empty(s.drop_last());
    }
}

/// Filtering distributes over a sequence with its last piece split off.
proof fn lemma_tokens_split(p: Seq<Seq<char>>)
    requires
        p.len() >= 1,
    ensures
        p.filter(non_empty_piece()) == p.drop_last().filter(non_empty_piece()) + (if p.last().len()
            > 0 {
            seq![p.last()]
        } else {
            Seq::empty()
        }),
{
    reveal_with_fuel(Seq::filter, 1);
    if p.last().len() > 0 {
        assert(p.drop_last().filter(non_empty_piece()).push(p.last()) =~= p.drop_last().filter(
            non_empty_piece(),
        ) + seq![p.last()]);
    } else {
        assert(p.drop_last().filter(non_empty_piece()) =~= p.drop_last().filter(
            non_empty_piece(),
        ) + Seq::<Seq<char>>::empty());
    }
}

/// Parsing a list of tokens one more token at a time.
proof fn lemma_parse_bytes_append(a: Seq<Seq<char>>, t: Seq<char>)
    ensures
        parse_bytes_spec(a + seq![t]) == (match parse_bytes_spec(a) {
            Err(m) => Err(m),
            Ok(bs) => match hex_byte_spec(t) {
                Some(b) => Ok(bs.push(b)),
                None => Err(invalid_byte_text(t)),
            },
        }),
{
    assert((a + seq![t]).drop_last() =~= a);
    assert((a + seq![t]).last() == t);
}

/// Close the piece from `tok_start` to `i` (ended by a separator or the end
/// of the text): parse it if it is a token.
fn finish_token(s: &str, tok_start: usize, i: usize, out: &mut Vec<u8>) -> (r: Result<(), String>)
    requires
        tok_start <= i <= s@.len(),
        pieces(s@.take(i as int)).last() == s@.subrange(tok_start as int, i as int),
        parse_bytes_spec(pieces(s@.take(i as int)).drop_last().filter(non_empty_piece()))
            == Ok::<Seq<u8>, Seq<char>>(old(out)@),
        i == s@.len() || is_separator(s@[i as int]),
    ensures
        r is Ok ==> parse_bytes_spec(pieces(s@.take(i as int)).filter(non_empty_piece())) == Ok::<
            Seq<u8>,
            Seq<char>,
        >(final(out)@),
        r matches Err(m) ==> parse_addr_spec(s@) == Err::<Seq<u8>, Seq<char>>(m@),
{
    let ghost p = pieces(s@.take(i as int));
    proof {
        lemma_pieces_non_empty(s@.take(i as int));
        lemma_tokens_split(p);
    }
    if tok_start < i {
        let t = s.substring_char(tok_start, i);
        proof {
            lemma_parse_bytes_append(p.drop_last().filter(non_empty_piece()), t@);
            assert(p.filter(non_empty_piece()) =~= p.drop_last().filter(non_empty_piece()) + seq![
                t@,
            ]);
        }
        match parse_byte(t) {
            Ok(b) => {
                out.push(b);
                Ok(())
            },
            Err(m) => {
                proof {
                    lemma_parse_error_sticks(s@, i as int, t@);
                }
                Err(m)
            },
        }
    } else {
        assert(p.filter(non_empty_piece()) =~= p.drop_last().filter(non_empty_piece()));
        Ok(())
    }
}

/// Parse `"11 21 0D"` (or comma-separated, each byte with an optional `0x`)
/// into address bytes.
pub fn parse_addr(s: &str) -> (r: Result<Vec<u8>, String>)
    ensures
        match (r, parse_addr_spec(s@)) {
            (Ok(v), Ok(w)) => v@ == w,
            (Err(m), Err(t)) => m@ == t,
            _ => false,
        },
{
    let n = s.unicode_len();
    let mut out: Vec<u8> = Vec::new();
    let mut tok_start: usize = 0;
    let mut i: usize = 0;
    proof {
        assert(s@.take(0) =~= Seq::<char>::empty());
        assert(pieces(s@.take(0)) =~= seq![Seq::<char>::empty()]);
        assert(s@.subrange(0, 0) =~= Seq::<char>::empty());
        assert(pieces(s@.take(0)).drop_last().filter(non_empty_piece()) =~= Seq::<Seq<char>>::empty());
    }
    while i < n
        invariant
            n == s@.len(),
            tok_start <= i <= n,
            pieces(s@.take(i as int)).last() == s@.subrange(tok_start as int, i as int),
            parse_bytes_spec(pieces(s@.take(i as int)).drop_last().filter(non_empty_piece()))
                == Ok::<Seq<u8>, Seq<char>>(out@),
        decreases n - i,
    {
        let c = s.get_char(i);
        proof {
            lemma_pieces_step(s@, i as int);
        }
        if c == ' ' || c == ',' {
            let ghost p = pieces(s@.take(i as int));
            match finish_token(s, tok_start, i, &mut out) {
                Ok(()) => {},
                Err(m) => return Err(m),
            }
            assert(pieces(s@.take(i + 1)).drop_last() =~= p);
            i += 1;
            tok_start = i;
            assert(s@.subrange(tok_start as int, i as int) =~= Seq::<char>::empty());
        } else {
            proof {
                let p = pieces(s@.take(i as int));
                assert(pieces(s@.take(i + 1)).drop_last() =~= p.drop_last());
                assert(s@.subrange(tok_start as int, i + 1) =~= s@.subrange(
                    tok_start as int,
                    i as int,
                ).push(s@[i as int]));
            }
            i += 1;
        }
    }
    match finish_token(s, tok_start, i, &mut out) {
        Ok(()) => {},
        Err(m) => return Err(m),
    }
    assert(s@.take(n as int) =~= s@);
    if out.len() == 0 {
        return Err(String::from_str("empty address"));
    }
    Ok(out)
}

/// Once a token fails, the whole address fails with that token's error.
proof fn lemma_parse_error_sticks(s: Seq<char>, i: int, t: Seq<char>)
    requires
        0 <= i <= s.len(),
        pieces(s.take(i)).len() >= 1,
        pieces(s.take(i)).last() == t,
        t.len() > 0,
        hex_byte_spec(t) is None,
        i == s.len() || is_separator(s[i]),
        parse_bytes_spec(pieces(s.take(i)).drop_last().filter(non_empty_piece())) is Ok,
    ensures
        parse_addr_spec(s) == Err::<Seq<u8>, Seq<char>>(invalid_byte_text(t)),
{
    let p = pieces(s.take(i));
    let m = invalid_byte_text(t);
    lemma_tokens_split(p);
    lemma_parse_bytes_append(p.drop_last().filter(non_empty_piece()), t);
    assert(p.filter(non_empty_piece()) =~= p.drop_last().filter(non_empty_piece()) + seq![t]);
    assert(parse_bytes_spec(p.filter(non_empty_piece())) == Err::<Seq<u8>, Seq<char>>(m));
    if i == s.len() {
        assert(s.take(i) =~= s);
    } else {
        lemma_pieces_step(s, i);
        let q = pieces(s.take(i + 1));
        assert(q.drop_last() =~= p);
        lemma_tokens_extend_error(s, i + 1, m);
    }
}

/// An error among the completed pieces of a prefix is the error of the whole
/// address: later characters only add pieces after it.
proof fn lemma_tokens_extend_error(s: Seq<char>, i: int, m: Seq<char>)
    requires
        0 <= i <= s.len(),
        pieces(s.take(i)).len() >= 1,
        parse_bytes_spec(pieces(s.take(i)).drop_last().filter(non_empty_piece()))
            == Err::<Seq<u8>, Seq<char>>(m),
    ensures
        parse_bytes_spec(tokens(s)) == Err::<Seq<u8>, Seq<char>>(m),
    decreases s.len() - i,
{
    let p = pieces(s.take(i));
    let a = p.drop_last().filter(non_empty_piece());
    lemma_tokens_split(p);
    lemma_parse_bytes_append(a, p.last());
    if p.last().len() > 0 {
        assert(p.filter(non_empty_piece()) =~= a + seq![p.last()]);
    } else {
        assert(p.filter(non_empty_piece()) =~= a);
    }
    if i == s.len() {
        assert(s.take(i) =~= s);
    } else {
        lemma_pieces_step(s, i);
        let q = pieces(s.take(i + 1));
        lemma_pieces_non_empty(s.take(i + 1));
        if is_separator(s[i]) {
            assert(q.drop_last() =~= p);
        } else {
            assert(q.drop_last() =~= p.drop_last());
        }
        lemma_tokens_extend_error(s, i + 1, m);
    }
}

// ---- CC values and chain slots ----

/// What a CC value argument means: `on` is 127 and `off` 0 (any ASCII case);
/// otherwise a decimal number up to 127.
pub open spec fn cc_value_spec(s: Seq<char>) -> Result<u8, Seq<char>> {
    if eq_ignore_ascii_case(s, "on"@) {
        Ok(127)
    } else if eq_ignore_ascii_case(s, "off"@) {
        Ok(0)
    } else {
        match unsigned_value(s, false, 65535) {
            None => Err("bad value "@ + debug_text(s)),
            Some(v) => if v > 127 {
                Err("value "@ + dec(v) + " out of range (0-127, or on/off)"@)
            } else {
                Ok(v as u8)
            },
        }
    }
}

/// Parse a CC value: a number `0..=127`, or `on`/`off` for a switch (127 / 0).
pub fn parse_cc_value(s: &str) -> (r: Result<u8, String>)
    ensures
        match (r, cc_value_spec(s@)) {
            (Ok(a), Ok(b)) => a == b,
            (Err(m), Err(t)) => m@ == t,
            _ => false,
        },
{
    if str_eq_ignore_ascii_case(s, "on") {
        return Ok(127);
    }
    if str_eq_ignore_ascii_case(s, "off") {
        return Ok(0);
    }
    match parse_unsigned(s, false, 65535) {
        None => Err(String::from_str("bad value ").concat(debug_str(s).as_str())),
        Some(v) => if v > 127 {
            let mut m = String::from_str("value ");
            push_decimal(&mut m, v as u64);
            m.append(" out of range (0-127, or on/off)");
            Err(m)
        } else {
            Ok(v as u8)
        },
    }
}

/// ASCII lower-casing of a string.
pub open spec fn lower_text(s: Seq<char>) -> Seq<char> {
    s.map_values(|c: char| ascii_lower(c as u32) as char)
}

/// A string with its ASCII letters lower-cased.
pub fn to_ascii_lower(s: &str) -> (r: String)
    ensures
        r@ == lower_text(s@),
{
    let n = s.unicode_len();
    let mut out = String::new();
    let mut i: usize = 0;
    while i < n
        invariant
            i <= n,
            n == s@.len(),
            out@ =~= lower_text(s@.take(i as int)),
        decreases n - i,
    {
        let c = s.get_char(i);
        let u = c as u32;
        let l: char = if 65 <= u && u <= 90 { ((u + 32) as u8) as char } else { c };
        assert(l == ascii_lower(c as u32) as char);
        push_char(&mut out, l);
        assert(s@.take(i + 1) =~= s@.take(i as int).push(c));
        i += 1;
    }
    assert(s@.take(n as int) =~= s@);
    out
}

/// What a chain-slot argument names: `mod`, `fx1` or `fx2` in any ASCII case.
pub open spec fn slot_arg_spec(s: Seq<char>) -> Result<Slot, Seq<char>> {
    if eq_ignore_ascii_case(s, "mod"@) {
        Ok(Slot::Mod)
    } else if eq_ignore_ascii_case(s, "fx1"@) {
        Ok(Slot::Fx1)
    } else if eq_ignore_ascii_case(s, "fx2"@) {
        Ok(Slot::Fx2)
    } else {
        Err("unknown slot "@ + debug_text(lower_text(s)) + " (expected mod, fx1, or fx2)"@)
    }
}

/// Parse a chain-slot name (`mod`/`fx1`/`fx2`).
pub fn parse_slot(s: &str) -> (r: Result<Slot, String>)
    ensures
        match (r, slot_arg_spec(s@)) {
            (Ok(a), Ok(b)) => a == b,
            (Err(m), Err(t)) => m@ == t,
            _ => false,
        },
{
    if str_eq_ignore_ascii_case(s, "mod") {
        Ok(Slot::Mod)
    } else if str_eq_ignore_ascii_case(s, "fx1") {
        Ok(Slot::Fx1)
    } else if str_eq_ignore_ascii_case(s, "fx2") {
        Ok(Slot::Fx2)
    } else {
        let lower = to_ascii_lower(s);
        Err(String::from_str("unknown slot ").concat(debug_str(lower.as_str()).as_str()).concat(
            " (expected mod, fx1, or fx2)",
        ))
    }
}

// ---- names and kinds ----

/// A byte that is not printable ASCII.
pub open spec fn unprintable_byte() -> spec_fn(u8) -> bool {
    |b: u8| !printable(b)
}

/// A printable ASCII byte.
pub open spec fn printable_pred() -> spec_fn(u8) -> bool {
    |b: u8| printable(b)
}

/// The trailing run of printable ASCII in a payload: the run that ends at its
/// last printable byte.
pub open spec fn trailing_run(p: Seq<u8>) -> Seq<u8> {
    match last_index(p, printable_pred()) {
        None => Seq::empty(),
        Some(e) => match last_index(p.take(e + 1), unprintable_byte()) {
            Some(k) => p.subrange(k + 1, e + 1),
            None => p.take(e + 1),
        },
    }
}

/// The trailing run of printable ASCII in `payload` (a patch name, after any
/// flag byte and before the NUL terminator).
pub fn trailing_name(payload: &[u8]) -> (r: String)
    ensures
        r@ == latin1(trailing_run(payload@)),
{
    let ghost p = payload@;
    let ghost pr = printable_pred();
    let ghost np = unprintable_byte();
    let n = payload.len();
    let mut e: usize = n;
    while e > 0 && !(0x20 <= payload[e - 1] && payload[e - 1] < 0x7f)
        invariant
            e <= n,
            n == p.len(),
            p == payload@,
            pr == printable_pred(),
            forall|j: int| e <= j < n ==> !pr(#[trigger] p[j]),
        decreases e,
    {
        e -= 1;
    }
    if e == 0 {
        proof {
            lemma_last_none(p, pr);
        }
        return String::new();
    }
    proof {
        lemma_last_at(p, pr, e - 1);
    }
    let mut st: usize = e - 1;
    while st > 0 && 0x20 <= payload[st - 1] && payload[st - 1] < 0x7f
        invariant
            st < e <= n,
            n == p.len(),
            p == payload@,
            np == unprintable_byte(),
            forall|j: int| st <= j < e ==> !np(#[trigger] p[j]),
        decreases st,
    {
        st -= 1;
    }
    proof {
        let q = p.take(e as int);
        if st > 0 {
            assert(np(q[st - 1]));
            assert forall|j: int| st - 1 < j < q.len() implies !np(#[trigger] q[j]) by {
                assert(q[j] == p[j]);
            }
            lemma_last_at(q, np, st - 1);
        } else {
            assert forall|j: int| 0 <= j < q.len() implies !np(#[trigger] q[j]) by {
                assert(q[j] == p[j]);
            }
            lemma_last_none(q, np);
            assert(p.subrange(0, e as int) =~= p.take(e as int));
        }
    }
    let run = vstd::slice::slice_subrange(payload, st, e);
    proof {
        assert forall|j: int| 0 <= j < run@.len() implies #[trigger] run@[j] < 0x80 by {
            assert(run@[j] == p[st + j]);
            assert(!np(p[st + j]));
        }
    }
    lossy_utf8(run)
}

/// A one-word summary of a value kind.
pub open spec fn kind_word(kind: Kind) -> Seq<char> {
    match kind {
        Kind::Knob => "knob"@,
        Kind::Switch { .. } => "switch"@,
        Kind::Stepped(_) => "stepped"@,
    }
}

/// A one-word summary of a value kind, for a confirmation line.
pub fn kind_summary(kind: Kind) -> (r: &'static str)
    ensures
        r@ == kind_word(kind),
{
    match kind {
        Kind::Knob => "knob",
        Kind::Switch { .. } => "switch",
        Kind::Stepped(_) => "stepped",
    }
}

/// A short label for a value kind.
pub open spec fn kind_text(kind: Kind) -> Seq<char> {
    match kind {
        Kind::Knob => "knob 0-127"@,
        Kind::Switch { off, on } => "switch <64="@ + off@ + " >=64="@ + on@,
        Kind::Stepped(t) => "stepped ("@ + dec(step_table(t).len()) + " positions)"@,
    }
}

/// A short label for a value kind, for catalog listings.
pub fn kind_label(kind: Kind) -> (r: String)
    ensures
        r@ == kind_text(kind),
{
    match kind {
        Kind::Knob => String::from_str("knob 0-127"),
        Kind::Switch { off, on } => String::from_str("switch <64=").concat(off).concat(
            " >=64=",
        ).concat(on),
        Kind::Stepped(t) => {
            let v = steps(t);
            let mut m = String::from_str("stepped (");
            push_decimal(&mut m, v.len() as u64);
            m.append(" positions)");
            m
        },
    }
}

} // verus!
