//! The GX-700 side of the suite: its slot labels, effect-chain block tokens,
//! address rendering and on-disk locations.

use vstd::prelude::*;

use crate::library::{config_root, located, plain_stem, plain_stem_spec, LibPath};
use crate::text::{
    ascii_lower, eq_ignore_ascii_case, hex, hex_spaced, lemma_case_equiv, lemma_differ_at,
    padded3, push_char, push_padded3, str_eq_ignore_ascii_case,
};

verus! {

/// The last User slot; slots above it are the read-only presets.
pub const USER_SLOTS: u16 = 100;

/// A patch slot as its User / preset label: `1..=100` are `U001`.., and
/// `101..` are `P001`...
pub open spec fn slot_label_spec(slot: u16) -> Seq<char> {
    if slot > USER_SLOTS {
        seq!['P'] + padded3((slot - USER_SLOTS) as nat)
    } else {
        seq!['U'] + padded3(slot as nat)
    }
}

/// A patch slot as its User / preset label.
pub fn slot_label(slot: u16) -> (r: String)
    ensures
        r@ == slot_label_spec(slot),
{
    let mut s = String::new();
    if slot > USER_SLOTS {
        push_char(&mut s, 'P');
        push_padded3(&mut s, (slot - USER_SLOTS) as u64);
    } else {
        push_char(&mut s, 'U');
        push_padded3(&mut s, slot as u64);
    }
    assert(s@ =~= slot_label_spec(slot));
    s
}

/// A four-byte address as upper-case hex pairs.
pub fn hex4(addr: [u8; 4]) -> (r: String)
    ensures
        r@ == hex_spaced(addr@),
{
    hex(&addr)
}

/// The chain block a token names (any ASCII case), by its block id.
pub open spec fn chain_block_spec(t: Seq<char>) -> Option<u8> {
    if eq_ignore_ascii_case(t, "comp"@) || eq_ignore_ascii_case(t, "compressor"@) {
        Some(0x01)
    } else if eq_ignore_ascii_case(t, "wah"@) {
        Some(0x02)
    } else if eq_ignore_ascii_case(t, "dist"@) || eq_ignore_ascii_case(t, "distortion"@) {
        Some(0x03)
    } else if eq_ignore_ascii_case(t, "preamp"@) {
        Some(0x04)
    } else if eq_ignore_ascii_case(t, "loop"@) {
        Some(0x05)
    } else if eq_ignore_ascii_case(t, "eq"@) || eq_ignore_ascii_case(t, "equalizer"@) {
        Some(0x06)
    } else if eq_ignore_ascii_case(t, "speaker"@) || eq_ignore_ascii_case(t, "spsim"@)
        || eq_ignore_ascii_case(t, "sp"@) {
        Some(0x07)
    } else if eq_ignore_ascii_case(t, "ns"@) || eq_ignore_ascii_case(t, "noise"@) {
        Some(0x08)
    } else if eq_ignore_ascii_case(t, "mod"@) || eq_ignore_ascii_case(t, "modulation"@) {
        Some(0x09)
    } else if eq_ignore_ascii_case(t, "delay"@) {
        Some(0x0A)
    } else if eq_ignore_ascii_case(t, "chorus"@) {
        Some(0x0B)
    } else if eq_ignore_ascii_case(t, "tremolo"@) || eq_ignore_ascii_case(t, "trem"@)
        || eq_ignore_ascii_case(t, "pan"@) {
        Some(0x0C)
    } else if eq_ignore_ascii_case(t, "reverb"@) {
        Some(0x0D)
    } else {
        None
    }
}

/// Resolve a chain token (`comp`, `reverb`, ...; any ASCII case) to its block
/// id.
pub fn chain_block_id(token: &str) -> (r: Option<u8>)
    ensures
        r == chain_block_spec(token@),
{
    let t = token;
    if str_eq_ignore_ascii_case(t, "comp") || str_eq_ignore_ascii_case(t, "compressor") {
        Some(0x01)
    } else if str_eq_ignore_ascii_case(t, "wah") {
        Some(0x02)
    } else if str_eq_ignore_ascii_case(t, "dist") || str_eq_ignore_ascii_case(t, "distortion") {
        Some(0x03)
    } else if str_eq_ignore_ascii_case(t, "preamp") {
        Some(0x04)
    } else if str_eq_ignore_ascii_case(t, "loop") {
        Some(0x05)
    } else if str_eq_ignore_ascii_case(t, "eq") || str_eq_ignore_ascii_case(t, "equalizer") {
        Some(0x06)
    } else if str_eq_ignore_ascii_case(t, "speaker") || str_eq_ignore_ascii_case(t, "spsim")
        || str_eq_ignore_ascii_case(t, "sp") {
        Some(0x07)
    } else if str_eq_ignore_ascii_case(t, "ns") || str_eq_ignore_ascii_case(t, "noise") {
        Some(0x08)
    } else if str_eq_ignore_ascii_case(t, "mod") || str_eq_ignore_ascii_case(t, "modulation") {
        Some(0x09)
    } else if str_eq_ignore_ascii_case(t, "delay") {
        Some(0x0A)
    } else if str_eq_ignore_ascii_case(t, "chorus") {
        Some(0x0B)
    } else if str_eq_ignore_ascii_case(t, "tremolo") || str_eq_ignore_ascii_case(t, "trem")
        || str_eq_ignore_ascii_case(t, "pan") {
        Some(0x0C)
    } else if str_eq_ignore_ascii_case(t, "reverb") {
        Some(0x0D)
    } else {
        None
    }
}

/// The canonical short token of a chain block id.
pub open spec fn chain_token_spec(id: u8) -> Seq<char> {
    if id == 0x01 {
        "comp"@
    } else if id == 0x02 {
        "wah"@
    } else if id == 0x03 {
        "dist"@
    } else if id == 0x04 {
        "preamp"@
    } else if id == 0x05 {
        "loop"@
    } else if id == 0x06 {
        "eq"@
    } else if id == 0x07 {
        "speaker"@
    } else if id == 0x08 {
        "ns"@
    } else if id == 0x09 {
        "mod"@
    } else if id == 0x0A {
        "delay"@
    } else if id == 0x0B {
        "chorus"@
    } else if id == 0x0C {
        "tremolo"@
    } else if id == 0x0D {
        "reverb"@
    } else {
        "?"@
    }
}

/// The canonical short token for a chain block id, for display.
pub fn chain_token(id: u8) -> (r: &'static str)
    ensures
        r@ == chain_token_spec(id),
{
    match id {
        0x01 => "comp",
        0x02 => "wah",
        0x03 => "dist",
        0x04 => "preamp",
        0x05 => "loop",
        0x06 => "eq",
        0x07 => "speaker",
        0x08 => "ns",
        0x09 => "mod",
        0x0A => "delay",
        0x0B => "chorus",
        0x0C => "tremolo",
        0x0D => "reverb",
        _ => "?",
    }
}

/// The canonical token of every chain block resolves back to that block, and
/// an id outside the chain shows as a token that names no block.
pub proof fn lemma_chain_token_round_trip(id: u8)
    ensures
        1 <= id <= 13 ==> chain_block_spec(chain_token_spec(id)) == Some(id),
        !(1 <= id <= 13) ==> chain_block_spec(chain_token_spec(id)) is None,
{
    reveal_strlit("comp");
    reveal_strlit("compressor");
    reveal_strlit("wah");
    reveal_strlit("dist");
    reveal_strlit("distortion");
    reveal_strlit("preamp");
    reveal_strlit("loop");
    reveal_strlit("eq");
    reveal_strlit("equalizer");
    reveal_strlit("speaker");
    reveal_strlit("spsim");
    reveal_strlit("sp");
    reveal_strlit("ns");
    reveal_strlit("noise");
    reveal_strlit("mod");
    reveal_strlit("modulation");
    reveal_strlit("delay");
    reveal_strlit("chorus");
    reveal_strlit("tremolo");
    reveal_strlit("trem");
    reveal_strlit("pan");
    reveal_strlit("reverb");
    reveal_strlit("?");
    let t = chain_token_spec(id);
    if 1 <= id <= 13 {
        assert(eq_ignore_ascii_case(t, t));
        if id == 1 {
        }
        if id == 2 {
        }
        if id == 3 {
            lemma_differ_at("dist"@, "comp"@, 0);
        }
        if id == 4 {
        }
        if id == 5 {
            lemma_differ_at("loop"@, "comp"@, 0);
            lemma_differ_at("loop"@, "dist"@, 0);
        }
        if id == 6 {
        }
        if id == 7 {
        }
        if id == 8 {
            lemma_differ_at("ns"@, "eq"@, 0);
            lemma_differ_at("ns"@, "sp"@, 0);
        }
        if id == 9 {
            lemma_differ_at("mod"@, "wah"@, 0);
        }
        if id == 10 {
            lemma_differ_at("delay"@, "spsim"@, 0);
            lemma_differ_at("delay"@, "noise"@, 0);
        }
        if id == 11 {
            lemma_differ_at("chorus"@, "preamp"@, 0);
        }
        if id == 12 {
            lemma_differ_at("tremolo"@, "speaker"@, 0);
        }
        if id == 13 {
            lemma_differ_at("reverb"@, "preamp"@, 0);
            lemma_differ_at("reverb"@, "chorus"@, 0);
        }
    }
}

/// ASCII upper-casing of a character: `a..=z` map to `A..=Z`, everything else
/// is unchanged.
pub open spec fn ascii_upper(c: char) -> char {
    if 97 <= c as u32 && c as u32 <= 122 {
        ((c as u32) - 32) as char
    } else {
        c
    }
}

/// A text with its ASCII letters upper-cased (`to_ascii_uppercase`).
pub open spec fn upper_text(s: Seq<char>) -> Seq<char> {
    s.map_values(|c: char| ascii_upper(c))
}

/// Which chain block a token names does not depend on its ASCII case.
pub proof fn lemma_chain_block_ignores_case(t: Seq<char>, u: Seq<char>)
    requires
        eq_ignore_ascii_case(t, u),
    ensures
        chain_block_spec(t) == chain_block_spec(u),
{
    lemma_case_equiv(t, u, "comp"@);
    lemma_case_equiv(t, u, "compressor"@);
    lemma_case_equiv(t, u, "wah"@);
    lemma_case_equiv(t, u, "dist"@);
    lemma_case_equiv(t, u, "distortion"@);
    lemma_case_equiv(t, u, "preamp"@);
    lemma_case_equiv(t, u, "loop"@);
    lemma_case_equiv(t, u, "eq"@);
    lemma_case_equiv(t, u, "equalizer"@);
    lemma_case_equiv(t, u, "speaker"@);
    lemma_case_equiv(t, u, "spsim"@);
    lemma_case_equiv(t, u, "sp"@);
    lemma_case_equiv(t, u, "ns"@);
    lemma_case_equiv(t, u, "noise"@);
    lemma_case_equiv(t, u, "mod"@);
    lemma_case_equiv(t, u, "modulation"@);
    lemma_case_equiv(t, u, "delay"@);
    lemma_case_equiv(t, u, "chorus"@);
    lemma_case_equiv(t, u, "tremolo"@);
    lemma_case_equiv(t, u, "trem"@);
    lemma_case_equiv(t, u, "pan"@);
    lemma_case_equiv(t, u, "reverb"@);
}

/// Each alias of a chain block, in any ASCII case, names the same block as
/// that block's canonical token: `compressor` is `comp`, `distortion` is
/// `dist`, `equalizer` is `eq`, `spsim` and `sp` are `speaker`, `noise` is
/// `ns`, `modulation` is `mod`, and `trem` and `pan` are `tremolo`.
pub proof fn lemma_chain_aliases(t: Seq<char>)
    ensures
        eq_ignore_ascii_case(t, "compressor"@) ==> chain_block_spec(t) == chain_block_spec(
            chain_token_spec(0x01),
        ) && chain_block_spec(t) == Some(0x01u8),
        eq_ignore_ascii_case(t, "distortion"@) ==> chain_block_spec(t) == chain_block_spec(
            chain_token_spec(0x03),
        ) && chain_block_spec(t) == Some(0x03u8),
        eq_ignore_ascii_case(t, "equalizer"@) ==> chain_block_spec(t) == chain_block_spec(
            chain_token_spec(0x06),
        ) && chain_block_spec(t) == Some(0x06u8),
        eq_ignore_ascii_case(t, "spsim"@) || eq_ignore_ascii_case(t, "sp"@) ==> chain_block_spec(t)
            == chain_block_spec(chain_token_spec(0x07)) && chain_block_spec(t) == Some(0x07u8),
        eq_ignore_ascii_case(t, "noise"@) ==> chain_block_spec(t) == chain_block_spec(
            chain_token_spec(0x08),
        ) && chain_block_spec(t) == Some(0x08u8),
        eq_ignore_ascii_case(t, "modulation"@) ==> chain_block_spec(t) == chain_block_spec(
            chain_token_spec(0x09),
        ) && chain_block_spec(t) == Some(0x09u8),
        eq_ignore_ascii_case(t, "trem"@) || eq_ignore_ascii_case(t, "pan"@) ==> chain_block_spec(t)
            == chain_block_spec(chain_token_spec(0x0C)) && chain_block_spec(t) == Some(0x0Cu8),
{
    reveal_strlit("comp");
    reveal_strlit("compressor");
    reveal_strlit("wah");
    reveal_strlit("dist");
    reveal_strlit("distortion");
    reveal_strlit("preamp");
    reveal_strlit("loop");
    reveal_strlit("eq");
    reveal_strlit("equalizer");
    reveal_strlit("speaker");
    reveal_strlit("spsim");
    reveal_strlit("sp");
    reveal_strlit("ns");
    reveal_strlit("noise");
    reveal_strlit("mod");
    reveal_strlit("modulation");
    reveal_strlit("delay");
    reveal_strlit("chorus");
    reveal_strlit("tremolo");
    reveal_strlit("trem");
    reveal_strlit("pan");
    reveal_strlit("reverb");
    lemma_chain_token_round_trip(0x01);
    lemma_chain_token_round_trip(0x03);
    lemma_chain_token_round_trip(0x06);
    lemma_chain_token_round_trip(0x07);
    lemma_chain_token_round_trip(0x08);
    lemma_chain_token_round_trip(0x09);
    lemma_chain_token_round_trip(0x0C);
    lemma_differ_at("distortion"@, "compressor"@, 0);
    lemma_differ_at("sp"@, "eq"@, 0);
    lemma_differ_at("noise"@, "spsim"@, 0);
    lemma_differ_at("modulation"@, "compressor"@, 0);
    lemma_differ_at("modulation"@, "distortion"@, 0);
    lemma_differ_at("trem"@, "comp"@, 0);
    lemma_differ_at("trem"@, "dist"@, 0);
    lemma_differ_at("trem"@, "loop"@, 0);
    lemma_differ_at("pan"@, "wah"@, 0);
    lemma_differ_at("pan"@, "mod"@, 0);
    assert(eq_ignore_ascii_case("compressor"@, "compressor"@));
    assert(eq_ignore_ascii_case("distortion"@, "distortion"@));
    assert(eq_ignore_ascii_case("equalizer"@, "equalizer"@));
    assert(eq_ignore_ascii_case("spsim"@, "spsim"@));
    assert(eq_ignore_ascii_case("sp"@, "sp"@));
    assert(eq_ignore_ascii_case("noise"@, "noise"@));
    assert(eq_ignore_ascii_case("modulation"@, "modulation"@));
    assert(eq_ignore_ascii_case("trem"@, "trem"@));
    assert(eq_ignore_ascii_case("pan"@, "pan"@));
    if eq_ignore_ascii_case(t, "compressor"@) {
        lemma_chain_block_ignores_case(t, "compressor"@);
    }
    if eq_ignore_ascii_case(t, "distortion"@) {
        lemma_chain_block_ignores_case(t, "distortion"@);
    }
    if eq_ignore_ascii_case(t, "equalizer"@) {
        lemma_chain_block_ignores_case(t, "equalizer"@);
    }
    if eq_ignore_ascii_case(t, "spsim"@) {
        lemma_chain_block_ignores_case(t, "spsim"@);
    }
    if eq_ignore_ascii_case(t, "sp"@) {
        lemma_chain_block_ignores_case(t, "sp"@);
    }
    if eq_ignore_ascii_case(t, "noise"@) {
        lemma_chain_block_ignores_case(t, "noise"@);
    }
    if eq_ignore_ascii_case(t, "modulation"@) {
        lemma_chain_block_ignores_case(t, "modulation"@);
    }
    if eq_ignore_ascii_case(t, "trem"@) {
        lemma_chain_block_ignores_case(t, "trem"@);
    }
    if eq_ignore_ascii_case(t, "pan"@) {
        lemma_chain_block_ignores_case(t, "pan"@);
    }
}

/// Upper-casing a text keeps it equal ignoring ASCII case.
proof fn lemma_upper_same_case(s: Seq<char>)
    ensures
        eq_ignore_ascii_case(upper_text(s), s),
{
    assert forall|i: int| 0 <= i < upper_text(s).len() implies ascii_lower(
        #[trigger] upper_text(s)[i] as u32,
    ) == ascii_lower(s[i] as u32) by {
        let c = s[i] as u32;
        if 97 <= c && c <= 122 {
            assert(((c - 32) as char) as u32 == c - 32);
        }
    }
}

/// The canonical token of every chain block, in any ASCII case (its
/// upper-cased form among them), resolves back to that block.
pub proof fn lemma_chain_token_any_case(id: u8, t: Seq<char>)
    requires
        1 <= id <= 13,
        eq_ignore_ascii_case(t, chain_token_spec(id)),
    ensures
        chain_block_spec(t) == Some(id),
        chain_block_spec(upper_text(chain_token_spec(id))) == Some(id),
{
    lemma_chain_token_round_trip(id);
    lemma_chain_block_ignores_case(t, chain_token_spec(id));
    lemma_upper_same_case(chain_token_spec(id));
    lemma_chain_block_ignores_case(upper_text(chain_token_spec(id)), chain_token_spec(id));
}

/// The suite's GX-700 settings location (`<config>/rackctl/gx700`).
pub fn gx700_dir() -> (r: Option<LibPath>)
    ensures
        r matches Some(p) ==> p@ == seq!["gx700"@],
{
    let r = located(config_root(), vec![String::from_str("gx700")]);
    proof {
        if r is Some {
            assert(r->0@ =~= seq!["gx700"@]);
        }
    }
    r
}

/// A sub-location of the GX-700 settings, and optionally a file in it.
fn gx700_path(sub: &str, name: Option<&str>) -> (r: Option<LibPath>)
    ensures
        r matches Some(p) ==> p@ == match name {
            None => seq!["gx700"@, sub@],
            Some(n) => seq!["gx700"@, sub@, plain_stem_spec(n@) + ".json"@],
        },
{
    let mut parts: Vec<String> = Vec::new();
    parts.push(String::from_str("gx700"));
    parts.push(String::from_str(sub));
    match name {
        Some(n) => {
            parts.push(plain_stem(n).concat(".json"));
        },
        None => {},
    }
    let r = located(config_root(), parts);
    proof {
        if r is Some {
            match name {
                Some(n) => assert(r->0@ =~= seq!["gx700"@, sub@, plain_stem_spec(n@) + ".json"@]),
                None => assert(r->0@ =~= seq!["gx700"@, sub@]),
            }
        }
    }
    r
}

/// The directory holding saved patch files.
pub fn patches_dir() -> (r: Option<LibPath>)
    ensures
        r matches Some(p) ==> p@ == seq!["gx700"@, "patches"@],
{
    gx700_path("patches", None)
}

/// The directory holding saved scene files (whole-device snapshots).
pub fn scenes_dir() -> (r: Option<LibPath>)
    ensures
        r matches Some(p) ==> p@ == seq!["gx700"@, "scenes"@],
{
    gx700_path("scenes", None)
}

/// The path of the saved patch named `name` (`<patches>/<stem>.json`).
pub fn patch_path(name: &str) -> (r: Option<LibPath>)
    ensures
        r matches Some(p) ==> p@ == seq!["gx700"@, "patches"@, plain_stem_spec(name@) + ".json"@],
{
    gx700_path("patches", Some(name))
}

/// The path of the saved scene named `name` (`<scenes>/<stem>.json`).
pub fn scene_path(name: &str) -> (r: Option<LibPath>)
    ensures
        r matches Some(p) ==> p@ == seq!["gx700"@, "scenes"@, plain_stem_spec(name@) + ".json"@],
{
    gx700_path("scenes", Some(name))
}

} // verus!
