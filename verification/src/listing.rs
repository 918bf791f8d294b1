//! The parameter catalog as the command line shows it: the catalog listing
//! (optionally narrowed to the amps and effects whose name contains a text) and
//! the detail of one named parameter.

use vstd::prelude::*;

use crate::cli::{kind_label, kind_text, lower_text, to_ascii_lower};
use crate::param::{
    amp_global, amp_global_table, amp_table, amps, cabs, effect_table, effects, general,
    general_table, mic_position, mics, step_table, steps, views_of_amps, views_of_effects, Amp,
    AmpView, Effect, EffectView, FxParam, FxParamView, Kind, Param, Slot, Step,
};
use crate::text::{dec, debug_str, debug_text, push_char, push_decimal, str_equal};

verus! {

// ---- padding and joining ----

/// `n` spaces.
pub open spec fn spaces(n: nat) -> Seq<char> {
    Seq::new(n, |i: int| ' ')
}

/// Text left-aligned in a field of `w` characters (`{:<w}`).
pub open spec fn pad_right(s: Seq<char>, w: nat) -> Seq<char> {
    if s.len() < w {
        s + spaces((w - s.len()) as nat)
    } else {
        s
    }
}

/// Text right-aligned in a field of `w` characters (`{:>w}`).
pub open spec fn pad_left(s: Seq<char>, w: nat) -> Seq<char> {
    if s.len() < w {
        spaces((w - s.len()) as nat) + s
    } else {
        s
    }
}

/// Append `n` spaces.
fn push_spaces(out: &mut String, n: usize)
    ensures
        final(out)@ == old(out)@ + spaces(n as nat),
{
    let mut i: usize = 0;
    while i < n
        invariant
            i <= n,
            out@ =~= old(out)@ + spaces(i as nat),
        decreases n - i,
    {
        push_char(out, ' ');
        i += 1;
    }
}

/// Append text left-aligned in a field of `w` characters.
fn push_padded(out: &mut String, s: &str, w: usize)
    ensures
        final(out)@ == old(out)@ + pad_right(s@, w as nat),
{
    let n = s.unicode_len();
    out.append(s);
    if n < w {
        push_spaces(out, w - n);
    }
    assert(out@ =~= old(out)@ + pad_right(s@, w as nat));
}

/// Append a number right-aligned in a field of `w` characters.
pub(crate) fn push_number_right(out: &mut String, v: u64, w: usize)
    ensures
        final(out)@ == old(out)@ + pad_left(dec(v as nat), w as nat),
{
    let mut digits = String::new();
    push_decimal(&mut digits, v);
    assert(digits@ =~= dec(v as nat));
    let n = digits.as_str().unicode_len();
    if n < w {
        push_spaces(out, w - n);
    }
    out.append(digits.as_str());
    assert(out@ =~= old(out)@ + pad_left(dec(v as nat), w as nat));
}

/// Append a number left-aligned in a field of `w` characters.
fn push_number_left(out: &mut String, v: u64, w: usize)
    ensures
        final(out)@ == old(out)@ + pad_right(dec(v as nat), w as nat),
{
    let mut digits = String::new();
    push_decimal(&mut digits, v);
    assert(digits@ =~= dec(v as nat));
    push_padded(out, digits.as_str(), w);
}

/// Texts joined with a separator.
pub open spec fn join(parts: Seq<Seq<char>>, sep: Seq<char>) -> Seq<char>
    decreases parts.len(),
{
    if parts.len() == 0 {
        Seq::empty()
    } else if parts.len() == 1 {
        parts[0]
    } else {
        join(parts.drop_last(), sep) + sep + parts.last()
    }
}

/// The views of static strings.
pub open spec fn str_views(s: Seq<&'static str>) -> Seq<Seq<char>> {
    s.map_values(|x: &'static str| x@)
}

/// Append static strings joined with a separator.
fn push_joined(out: &mut String, parts: &Vec<&'static str>, sep: &str)
    ensures
        final(out)@ == old(out)@ + join(str_views(parts@), sep@),
{
    let ghost all = str_views(parts@);
    let mut i: usize = 0;
    while i < parts.len()
        invariant
            i <= parts@.len(),
            all == str_views(parts@),
            out@ == old(out)@ + join(all.take(i as int), sep@),
        decreases parts@.len() - i,
    {
        assert(all.take(i + 1).drop_last() =~= all.take(i as int));
        if i > 0 {
            out.append(sep);
        }
        out.append(parts[i]);
        proof {
            if i == 0 {
                assert(all.take(1) =~= seq![parts@[0]@]);
            }
            assert(out@ =~= old(out)@ + join(all.take(i + 1), sep@));
        }
        i += 1;
    }
    assert(all.take(parts@.len() as int) =~= all);
}

// ---- catalog rows ----

/// The text of a slot's short label.
pub open spec fn slot_text(s: Slot) -> Seq<char> {
    match s {
        Slot::Mod => "MOD"@,
        Slot::Fx1 => "FX1"@,
        Slot::Fx2 => "FX2"@,
        Slot::Fixed => "fixed"@,
    }
}

/// One amp or global control as a catalog row: name, MIDI CC and kind.
pub open spec fn param_row_text(p: Param) -> Seq<char> {
    "  "@ + pad_right(p.name@, 22) + " CC "@ + pad_left(dec(p.cc as nat), 3) + "   "@ + kind_text(
        p.kind,
    )
}

/// A catalog row for an amp or global control.
pub fn param_row(p: &Param) -> (r: String)
    ensures
        r@ == param_row_text(*p),
{
    let mut s = String::from_str("  ");
    push_padded(&mut s, p.name, 22);
    s.append(" CC ");
    push_number_right(&mut s, p.cc as u64, 3);
    s.append("   ");
    let k = kind_label(p.kind);
    s.append(k.as_str());
    assert(s@ =~= param_row_text(*p));
    s
}

/// The per-slot CC cells of an effect control: `CC n` for a one-slot effect,
/// `SLOT:n` per slot otherwise, over the slots that have a CC.
pub open spec fn cc_cells(slots: Seq<Slot>, cc: Seq<u8>, n: nat) -> Seq<Seq<char>>
    decreases n,
{
    if n == 0 {
        Seq::empty()
    } else {
        let k = (n - 1) as int;
        cc_cells(slots, cc, (n - 1) as nat).push(
            if slots.len() == 1 {
                "CC "@ + dec(cc[k] as nat)
            } else {
                slot_text(slots[k]) + ":"@ + dec(cc[k] as nat)
            },
        )
    }
}

/// The number of slots an effect control has a CC for.
pub open spec fn paired(slots: Seq<Slot>, cc: Seq<u8>) -> nat {
    if slots.len() < cc.len() {
        slots.len()
    } else {
        cc.len()
    }
}

/// One effect control as a catalog row: name, per-slot CCs and kind.
pub open spec fn fx_row_text(e: EffectView, p: FxParamView) -> Seq<char> {
    "  "@ + pad_right(p.name@, 16) + " "@ + pad_right(
        join(cc_cells(e.slots, p.cc, paired(e.slots, p.cc)), " "@),
        26,
    ) + " "@ + kind_text(p.kind)
}

/// Append the CC cells of an effect control, joined by spaces.
fn push_cc_cells(out: &mut String, slots: &Vec<Slot>, cc: &Vec<u8>)
    ensures
        final(out)@ == old(out)@ + join(cc_cells(slots@, cc@, paired(slots@, cc@)), " "@),
{
    let n: usize = if slots.len() < cc.len() { slots.len() } else { cc.len() };
    let mut i: usize = 0;
    while i < n
        invariant
            i <= n,
            n == paired(slots@, cc@),
            out@ == old(out)@ + join(cc_cells(slots@, cc@, i as nat), " "@),
        decreases n - i,
    {
        let ghost before = out@;
        if i > 0 {
            out.append(" ");
        }
        if slots.len() == 1 {
            out.append("CC ");
        } else {
            out.append(slots[i].label());
            out.append(":");
        }
        push_decimal(out, cc[i] as u64);
        proof {
            let cells = cc_cells(slots@, cc@, (i + 1) as nat);
            assert(cells.drop_last() =~= cc_cells(slots@, cc@, i as nat));
            assert(cells.last() == (if slots@.len() == 1 {
                "CC "@ + dec(cc@[i as int] as nat)
            } else {
                slot_text(slots@[i as int]) + ":"@ + dec(cc@[i as int] as nat)
            }));
            if i == 0 {
                assert(cells =~= seq![cells[0]]);
            }
            assert(out@ =~= old(out)@ + join(cells, " "@));
        }
        i += 1;
    }
}

/// A catalog row for an effect control.
pub fn fx_param_row(e: &Effect, p: &FxParam) -> (r: String)
    ensures
        r@ == fx_row_text(e@, p@),
{
    let mut s = String::from_str("  ");
    push_padded(&mut s, p.name, 16);
    s.append(" ");
    let mut cells = String::new();
    push_cc_cells(&mut cells, &e.slots, &p.cc);
    push_padded(&mut s, cells.as_str(), 26);
    s.append(" ");
    let k = kind_label(p.kind);
    s.append(k.as_str());
    assert(s@ =~= fx_row_text(e@, p@));
    s
}

// ---- the catalog listing ----

/// `hay` contains `needle` as a run of consecutive characters.
pub open spec fn contains_text(hay: Seq<char>, needle: Seq<char>) -> bool {
    exists|i: int|
        0 <= i && i + needle.len() <= hay.len() && #[trigger] hay.subrange(i, i + needle.len())
            == needle
}

/// Whether `hay` contains `needle`.
fn text_contains(hay: &str, needle: &str) -> (r: bool)
    ensures
        r == contains_text(hay@, needle@),
{
    let n = hay.unicode_len();
    let m = needle.unicode_len();
    if m > n {
        return false;
    }
    if m == 0 {
        assert(hay@.subrange(0int, 0int + needle@.len()) =~= needle@);
        return true;
    }
    let mut i: usize = 0;
    while i <= n - m
        invariant
            n == hay@.len(),
            m == needle@.len(),
            0 < m <= n,
            i <= n - m + 1,
            forall|j: int| 0 <= j < i ==> #[trigger] hay@.subrange(j, j + m) != needle@,
        decreases n - m + 1 - i,
    {
        let part = hay.substring_char(i, i + m);
        if str_equal(part, needle) {
            return true;
        }
        i += 1;
    }
    proof {
        if contains_text(hay@, needle@) {
            let j = choose|j: int|
                0 <= j && j + needle@.len() <= hay@.len() && #[trigger] hay@.subrange(
                    j,
                    j + needle@.len(),
                ) == needle@;
            assert(hay@.subrange(j, j + m) != needle@);
        }
    }
    false
}

/// Whether an amp or effect name passes the listing filter: no filter, or the
/// name contains the filter text, ignoring ASCII case.
pub open spec fn name_matches(name: Seq<char>, filter: Option<Seq<char>>) -> bool {
    match filter {
        None => true,
        Some(f) => contains_text(lower_text(name), lower_text(f)),
    }
}

/// The rows of a list of controls.
pub open spec fn param_rows(ps: Seq<Param>) -> Seq<Seq<char>> {
    ps.map_values(|p: Param| param_row_text(p))
}

/// The unfiltered head of the listing: the general and amp-section controls and
/// the cabinet, microphone and mic-position choices.
pub open spec fn header_lines() -> Seq<Seq<char>> {
    seq!["General/Frequently Used Controls"@] + param_rows(general_table()) + seq![
        "\nAmplifier (applies to all amps)"@,
    ] + param_rows(amp_global_table()) + seq![
        "\nCabinets:    "@ + join(str_views(crate::param::cab_table()), ", "@),
        "Microphones: "@ + join(str_views(crate::param::mic_table()), ", "@),
        "Mic position: "@ + join(str_views(crate::param::mic_position_table()), " / "@),
    ]
}

/// The listing of the amps that pass the filter: a title line, then a row per
/// control.
pub open spec fn amp_lines(amps: Seq<AmpView>, filter: Option<Seq<char>>) -> Seq<Seq<char>>
    decreases amps.len(),
{
    if amps.len() == 0 {
        Seq::empty()
    } else {
        amp_lines(amps.drop_last(), filter) + amp_block(amps.last(), filter)
    }
}

/// The slot labels of an effect, joined by `/`.
pub open spec fn slots_text(slots: Seq<Slot>) -> Seq<char> {
    join(slots.map_values(|s: Slot| slot_text(s)), "/"@)
}

/// The rows of an effect's controls.
pub open spec fn fx_rows(e: EffectView) -> Seq<Seq<char>> {
    e.params.map_values(|p: FxParamView| fx_row_text(e, p))
}

/// The listing of the effects that pass the filter: a title line with the
/// slots, then a row per control.
pub open spec fn fx_lines(effects: Seq<EffectView>, filter: Option<Seq<char>>) -> Seq<Seq<char>>
    decreases effects.len(),
{
    if effects.len() == 0 {
        Seq::empty()
    } else {
        fx_lines(effects.drop_last(), filter) + fx_block(effects.last(), filter)
    }
}

/// The catalog listing: without a filter the general section first; then every
/// amp and effect whose name passes the filter.
pub open spec fn listing_spec(filter: Option<Seq<char>>) -> Seq<Seq<char>> {
    (if filter is None {
        header_lines()
    } else {
        Seq::empty()
    }) + amp_lines(amp_table(), filter) + fx_lines(effect_table(), filter)
}

/// The views of lines.
pub open spec fn line_views(v: Seq<String>) -> Seq<Seq<char>> {
    v.map_values(|s: String| s@)
}

/// Append a row per control.
fn push_param_rows(out: &mut Vec<String>, ps: &Vec<Param>)
    ensures
        line_views(final(out)@) == line_views(old(out)@) + param_rows(ps@),
{
    let mut i: usize = 0;
    while i < ps.len()
        invariant
            i <= ps@.len(),
            line_views(out@) =~= line_views(old(out)@) + param_rows(ps@.take(i as int)),
        decreases ps@.len() - i,
    {
        let row = param_row(&ps[i]);
        let ghost before = out@;
        out.push(row);
        assert(line_views(out@) =~= line_views(before).push(row@));
        assert(param_rows(ps@.take(i + 1)) =~= param_rows(ps@.take(i as int)).push(
            param_row_text(ps@[i as int]),
        ));
        i += 1;
    }
    assert(ps@.take(ps@.len() as int) =~= ps@);
}

/// Append a row per effect control.
fn push_fx_rows(out: &mut Vec<String>, e: &Effect)
    ensures
        line_views(final(out)@) == line_views(old(out)@) + fx_rows(e@),
{
    let mut i: usize = 0;
    while i < e.params.len()
        invariant
            i <= e.params@.len(),
            line_views(out@) =~= line_views(old(out)@) + e@.params.take(i as int).map_values(
                |p: FxParamView| fx_row_text(e@, p),
            ),
        decreases e.params@.len() - i,
    {
        let row = fx_param_row(e, &e.params[i]);
        let ghost before = out@;
        out.push(row);
        assert(line_views(out@) =~= line_views(before).push(row@));
        assert(e@.params[i as int] == e.params@[i as int]@);
        assert(e@.params.take(i + 1).map_values(|p: FxParamView| fx_row_text(e@, p))
            =~= e@.params.take(i as int).map_values(|p: FxParamView| fx_row_text(e@, p)).push(
            fx_row_text(e@, e@.params[i as int]),
        ));
        i += 1;
    }
    assert(e@.params.take(e@.params.len() as int) =~= e@.params);
}

/// Whether a name passes the filter.
fn passes(name: &str, filter: Option<&str>) -> (r: bool)
    ensures
        r == name_matches(name@, filter_view(filter)),
{
    match filter {
        None => true,
        Some(f) => {
            let a = to_ascii_lower(name);
            let b = to_ascii_lower(f);
            text_contains(a.as_str(), b.as_str())
        },
    }
}

/// The filter's view.
pub open spec fn filter_view(filter: Option<&str>) -> Option<Seq<char>> {
    match filter {
        Some(f) => Some(f@),
        None => None,
    }
}

/// Append a line.
fn push_line(out: &mut Vec<String>, line: String)
    ensures
        line_views(final(out)@) == line_views(old(out)@).push(line@),
{
    out.push(line);
    assert(line_views(out@) =~= line_views(old(out)@).push(line@));
}

/// Append the unfiltered head of the listing.
fn push_header(out: &mut Vec<String>)
    ensures
        line_views(final(out)@) == line_views(old(out)@) + header_lines(),
{
    let ghost start = line_views(out@);
    push_line(out, String::from_str("General/Frequently Used Controls"));
    push_param_rows(out, &general());
    push_line(out, String::from_str("\nAmplifier (applies to all amps)"));
    push_param_rows(out, &amp_global());
    let ghost mid = line_views(out@);
    assert(mid =~= start + seq!["General/Frequently Used Controls"@] + param_rows(general_table())
        + seq!["\nAmplifier (applies to all amps)"@] + param_rows(amp_global_table()));
    let mut c = String::from_str("\nCabinets:    ");
    push_joined(&mut c, &cabs(), ", ");
    push_line(out, c);
    let mut m = String::from_str("Microphones: ");
    push_joined(&mut m, &mics(), ", ");
    push_line(out, m);
    let mut p = String::from_str("Mic position: ");
    push_joined(&mut p, &mic_position(), " / ");
    push_line(out, p);
    assert(line_views(out@) =~= start + header_lines());
}

/// The lines of one amp under the filter.
pub open spec fn amp_block(a: AmpView, filter: Option<Seq<char>>) -> Seq<Seq<char>> {
    if name_matches(a.name@, filter) {
        seq!["\nAmp: "@ + a.name@] + param_rows(a.params)
    } else {
        Seq::empty()
    }
}

/// The lines of one effect under the filter.
pub open spec fn fx_block(e: EffectView, filter: Option<Seq<char>>) -> Seq<Seq<char>> {
    if name_matches(e.name@, filter) {
        seq!["\nEffect: "@ + e.name@ + "   (slots: "@ + slots_text(e.slots) + ")"@] + fx_rows(e)
    } else {
        Seq::empty()
    }
}

/// Append the lines of one amp under the filter.
fn push_amp(out: &mut Vec<String>, a: &Amp, filter: Option<&str>)
    ensures
        line_views(final(out)@) == line_views(old(out)@) + amp_block(a@, filter_view(filter)),
{
    if passes(a.name, filter) {
        push_line(out, String::from_str("\nAmp: ").concat(a.name));
        push_param_rows(out, &a.params);
    }
    assert(line_views(out@) =~= line_views(old(out)@) + amp_block(a@, filter_view(filter)));
}

/// Append the lines of one effect under the filter.
fn push_effect(out: &mut Vec<String>, e: &Effect, filter: Option<&str>)
    ensures
        line_views(final(out)@) == line_views(old(out)@) + fx_block(e@, filter_view(filter)),
{
    if passes(e.name, filter) {
        let mut title = String::from_str("\nEffect: ").concat(e.name).concat("   (slots: ");
        push_slot_labels(&mut title, &e.slots);
        title.append(")");
        push_line(out, title);
        push_fx_rows(out, e);
    }
    assert(line_views(out@) =~= line_views(old(out)@) + fx_block(e@, filter_view(filter)));
}

/// The catalog listing the command line prints: without a filter, the general
/// and amp-section controls and the cabinet choices first; then each amp and
/// effect whose name contains the filter text (ignoring ASCII case), with a row
/// per control.
pub fn catalog_listing(filter: Option<&str>) -> (r: Vec<String>)
    ensures
        line_views(r@) == listing_spec(filter_view(filter)),
{
    let ghost fv = filter_view(filter);
    let mut out: Vec<String> = Vec::new();
    if filter.is_none() {
        push_header(&mut out);
    }
    assert(line_views(out@) =~= (if fv is None {
        header_lines()
    } else {
        Seq::empty()
    }));
    let ghost head = line_views(out@);
    let amps_v = amps();
    let mut i: usize = 0;
    while i < amps_v.len()
        invariant
            i <= amps_v@.len(),
            views_of_amps(amps_v@) == amp_table(),
            fv == filter_view(filter),
            line_views(out@) == head + amp_lines(views_of_amps(amps_v@).take(i as int), fv),
        decreases amps_v@.len() - i,
    {
        proof {
            let t = views_of_amps(amps_v@).take(i + 1);
            assert(t.drop_last() =~= views_of_amps(amps_v@).take(i as int));
            assert(t.last() == amps_v@[i as int]@);
        }
        push_amp(&mut out, &amps_v[i], filter);
        i += 1;
    }
    assert(views_of_amps(amps_v@).take(amps_v@.len() as int) =~= amp_table());
    let ghost mid = line_views(out@);
    let fx_v = effects();
    let mut k: usize = 0;
    while k < fx_v.len()
        invariant
            k <= fx_v@.len(),
            views_of_effects(fx_v@) == effect_table(),
            fv == filter_view(filter),
            line_views(out@) == mid + fx_lines(views_of_effects(fx_v@).take(k as int), fv),
        decreases fx_v@.len() - k,
    {
        proof {
            let t = views_of_effects(fx_v@).take(k + 1);
            assert(t.drop_last() =~= views_of_effects(fx_v@).take(k as int));
            assert(t.last() == fx_v@[k as int]@);
        }
        push_effect(&mut out, &fx_v[k], filter);
        k += 1;
    }
    assert(views_of_effects(fx_v@).take(fx_v@.len() as int) =~= effect_table());
    out
}

/// Append an effect's slot labels joined by `/`.
fn push_slot_labels(out: &mut String, slots: &Vec<Slot>)
    ensures
        final(out)@ == old(out)@ + slots_text(slots@),
{
    let ghost all = slots@.map_values(|s: Slot| slot_text(s));
    let mut i: usize = 0;
    while i < slots.len()
        invariant
            i <= slots@.len(),
            all == slots@.map_values(|s: Slot| slot_text(s)),
            out@ == old(out)@ + join(all.take(i as int), "/"@),
        decreases slots@.len() - i,
    {
        assert(all.take(i + 1).drop_last() =~= all.take(i as int));
        if i > 0 {
            out.append("/");
        }
        out.append(slots[i].label());
        proof {
            if i == 0 {
                assert(all.take(1) =~= seq![all[0]]);
            }
            assert(out@ =~= old(out)@ + join(all.take(i + 1), "/"@));
        }
        i += 1;
    }
    assert(all.take(slots@.len() as int) =~= all);
}

// ---- one parameter in detail ----

/// One step of a stepped control as `info` shows it: the raw range and label.
pub open spec fn step_row_text(s: Step) -> Seq<char> {
    "    "@ + pad_left(dec(s.lo as nat), 3) + "-"@ + pad_right(dec(s.hi as nat), 3) + "  "@
        + s.label@
}

/// The value semantics of a kind as `info` shows them.
pub open spec fn kind_lines(kind: Kind) -> Seq<Seq<char>> {
    match kind {
        Kind::Knob => seq!["  knob, raw 0-127"@],
        Kind::Switch { off, on } => seq!["  switch: 0-63 = "@ + off@ + ", 64-127 = "@ + on@],
        Kind::Stepped(t) => seq!["  stepped:"@] + step_table(t).map_values(
            |st: Step| step_row_text(st),
        ),
    }
}

/// Append the lines of a kind's value semantics.
fn push_kind_lines(out: &mut Vec<String>, kind: Kind)
    ensures
        line_views(final(out)@) == line_views(old(out)@) + kind_lines(kind),
{
    match kind {
        Kind::Knob => {
            push_line(out, String::from_str("  knob, raw 0-127"));
        },
        Kind::Switch { off, on } => {
            push_line(
                out,
                String::from_str("  switch: 0-63 = ").concat(off).concat(", 64-127 = ").concat(on),
            );
        },
        Kind::Stepped(t) => {
            push_line(out, String::from_str("  stepped:"));
            let ghost head = line_views(out@);
            let v = steps(t);
            let mut i: usize = 0;
            while i < v.len()
                invariant
                    i <= v@.len(),
                    v@ == step_table(t),
                    line_views(out@) == head + v@.take(i as int).map_values(
                        |st: Step| step_row_text(st),
                    ),
                decreases v@.len() - i,
            {
                let st = v[i];
                let mut row = String::from_str("    ");
                push_number_right(&mut row, st.lo as u64, 3);
                row.append("-");
                push_number_left(&mut row, st.hi as u64, 3);
                row.append("  ");
                row.append(st.label);
                assert(row@ =~= step_row_text(st));
                push_line(out, row);
                assert(v@.take(i + 1).map_values(|x: Step| step_row_text(x)) =~= v@.take(
                    i as int,
                ).map_values(|x: Step| step_row_text(x)).push(step_row_text(st)));
                i += 1;
            }
            assert(v@.take(v@.len() as int) =~= v@);
        },
    }
    assert(line_views(out@) =~= line_views(old(out)@) + kind_lines(kind));
}

/// The lines `info` shows for the amp controls named `needle` (lower-cased):
/// `AMP / NAME  (MIDI CC n)` and the value semantics, per hit.
pub open spec fn amp_hits(amp: Seq<char>, ps: Seq<Param>, needle: Seq<char>) -> Seq<Seq<char>>
    decreases ps.len(),
{
    if ps.len() == 0 {
        Seq::empty()
    } else {
        let p = ps.last();
        amp_hits(amp, ps.drop_last(), needle) + if lower_text(p.name@) == needle {
            seq![amp + " / "@ + p.name@ + "  (MIDI CC "@ + dec(p.cc as nat) + ")"@] + kind_lines(
                p.kind,
            )
        } else {
            Seq::empty()
        }
    }
}

/// The hits over all amps.
pub open spec fn amps_hits(amps: Seq<AmpView>, needle: Seq<char>) -> Seq<Seq<char>>
    decreases amps.len(),
{
    if amps.len() == 0 {
        Seq::empty()
    } else {
        amps_hits(amps.drop_last(), needle) + amp_hits(amps.last().name@, amps.last().params, needle)
    }
}

/// The `SLOT=n` cells of an effect control, over the slots that have a CC.
pub open spec fn slot_cc_cells(slots: Seq<Slot>, cc: Seq<u8>, n: nat) -> Seq<Seq<char>>
    decreases n,
{
    if n == 0 {
        Seq::empty()
    } else {
        let k = (n - 1) as int;
        slot_cc_cells(slots, cc, (n - 1) as nat).push(slot_text(slots[k]) + "="@ + dec(cc[k] as nat))
    }
}

/// The MIDI CC text of an effect control: its one CC for a one-slot effect
/// (nothing if it has none), else the `SLOT=n` cells joined by spaces.
pub open spec fn fx_cc_text(e: EffectView, p: FxParamView) -> Seq<char> {
    if e.slots.len() == 1 {
        if p.cc.len() > 0 {
            dec(p.cc[0] as nat)
        } else {
            Seq::empty()
        }
    } else {
        join(slot_cc_cells(e.slots, p.cc, paired(e.slots, p.cc)), " "@)
    }
}

/// The lines `info` shows for the controls of one effect named `needle`.
pub open spec fn fx_hits(e: EffectView, ps: Seq<FxParamView>, needle: Seq<char>) -> Seq<Seq<char>>
    decreases ps.len(),
{
    if ps.len() == 0 {
        Seq::empty()
    } else {
        let p = ps.last();
        fx_hits(e, ps.drop_last(), needle) + if lower_text(p.name@) == needle {
            seq![e.name@ + " / "@ + p.name@ + "  (MIDI CC "@ + fx_cc_text(e, p) + ")"@]
                + kind_lines(p.kind)
        } else {
            Seq::empty()
        }
    }
}

/// The hits over all effects.
pub open spec fn effects_hits(effects: Seq<EffectView>, needle: Seq<char>) -> Seq<Seq<char>>
    decreases effects.len(),
{
    if effects.len() == 0 {
        Seq::empty()
    } else {
        effects_hits(effects.drop_last(), needle) + fx_hits(
            effects.last(),
            effects.last().params,
            needle,
        )
    }
}

/// What `info` shows for a parameter name: every amp and effect control of that
/// name (ignoring ASCII case), or the error when there is none.
pub open spec fn info_spec(name: Seq<char>) -> Result<Seq<Seq<char>>, Seq<char>> {
    let lines = amps_hits(amp_table(), lower_text(name)) + effects_hits(
        effect_table(),
        lower_text(name),
    );
    if lines.len() == 0 {
        Err("no parameter named "@ + debug_text(name) + "; try `list` to see the catalog"@)
    } else {
        Ok(lines)
    }
}

/// Append the `SLOT=n` cells of an effect control, joined by spaces.
fn push_slot_cc_cells(out: &mut String, slots: &Vec<Slot>, cc: &Vec<u8>)
    ensures
        final(out)@ == old(out)@ + join(slot_cc_cells(slots@, cc@, paired(slots@, cc@)), " "@),
{
    let n: usize = if slots.len() < cc.len() { slots.len() } else { cc.len() };
    let mut i: usize = 0;
    while i < n
        invariant
            i <= n,
            n == paired(slots@, cc@),
            out@ == old(out)@ + join(slot_cc_cells(slots@, cc@, i as nat), " "@),
        decreases n - i,
    {
        if i > 0 {
            out.append(" ");
        }
        out.append(slots[i].label());
        out.append("=");
        push_decimal(out, cc[i] as u64);
        proof {
            let cells = slot_cc_cells(slots@, cc@, (i + 1) as nat);
            assert(cells.drop_last() =~= slot_cc_cells(slots@, cc@, i as nat));
            if i == 0 {
                assert(cells =~= seq![cells[0]]);
            }
            assert(out@ =~= old(out)@ + join(cells, " "@));
        }
        i += 1;
    }
}

/// Append what `info` shows for the controls of one amp named `needle`.
fn push_amp_hits(out: &mut Vec<String>, a: &Amp, needle: &str)
    ensures
        line_views(final(out)@) == line_views(old(out)@) + amp_hits(a.name@, a.params@, needle@),
{
    let ghost head = line_views(out@);
    let mut i: usize = 0;
    while i < a.params.len()
        invariant
            i <= a.params@.len(),
            line_views(out@) == head + amp_hits(a.name@, a.params@.take(i as int), needle@),
        decreases a.params@.len() - i,
    {
        let p = &a.params[i];
        assert(a.params@.take(i + 1).drop_last() =~= a.params@.take(i as int));
        let lower = to_ascii_lower(p.name);
        if str_equal(lower.as_str(), needle) {
            let mut line = String::from_str(a.name).concat(" / ").concat(p.name).concat(
                "  (MIDI CC ",
            );
            push_decimal(&mut line, p.cc as u64);
            line.append(")");
            push_line(out, line);
            push_kind_lines(out, p.kind);
        }
        assert(line_views(out@) =~= head + amp_hits(a.name@, a.params@.take(i + 1), needle@));
        i += 1;
    }
    assert(a.params@.take(a.params@.len() as int) =~= a.params@);
}

/// Append what `info` shows for the controls of one effect named `needle`.
fn push_fx_hits(out: &mut Vec<String>, e: &Effect, needle: &str)
    ensures
        line_views(final(out)@) == line_views(old(out)@) + fx_hits(e@, e@.params, needle@),
{
    let ghost head = line_views(out@);
    let mut i: usize = 0;
    while i < e.params.len()
        invariant
            i <= e.params@.len(),
            line_views(out@) == head + fx_hits(e@, e@.params.take(i as int), needle@),
        decreases e.params@.len() - i,
    {
        let p = &e.params[i];
        assert(e@.params.take(i + 1).drop_last() =~= e@.params.take(i as int));
        assert(e@.params.take(i + 1).last() == p@);
        let lower = to_ascii_lower(p.name);
        if str_equal(lower.as_str(), needle) {
            let mut line = String::from_str(e.name).concat(" / ").concat(p.name).concat(
                "  (MIDI CC ",
            );
            if e.slots.len() == 1 {
                if p.cc.len() > 0 {
                    push_decimal(&mut line, p.cc[0] as u64);
                }
            } else {
                push_slot_cc_cells(&mut line, &e.slots, &p.cc);
            }
            line.append(")");
            assert(line@ =~= e.name@ + " / "@ + p.name@ + "  (MIDI CC "@ + fx_cc_text(e@, p@)
                + ")"@);
            push_line(out, line);
            push_kind_lines(out, p.kind);
        }
        assert(line_views(out@) =~= head + fx_hits(e@, e@.params.take(i + 1), needle@));
        i += 1;
    }
    assert(e@.params.take(e@.params.len() as int) =~= e@.params);
}

/// What the command line shows for one parameter name: for every amp and
/// effect control of that name (ignoring ASCII case), a line with its model or
/// effect and MIDI CC followed by its value semantics; an error naming the
/// parameter when the catalog has none.
pub fn info_lines(name: &str) -> (r: Result<Vec<String>, String>)
    ensures
        match (r, info_spec(name@)) {
            (Ok(v), Ok(l)) => line_views(v@) == l,
            (Err(m), Err(e)) => m@ == e,
            _ => false,
        },
{
    let needle = to_ascii_lower(name);
    let mut out: Vec<String> = Vec::new();
    let amps_v = amps();
    let mut i: usize = 0;
    while i < amps_v.len()
        invariant
            i <= amps_v@.len(),
            views_of_amps(amps_v@) == amp_table(),
            needle@ == lower_text(name@),
            line_views(out@) == amps_hits(views_of_amps(amps_v@).take(i as int), needle@),
        decreases amps_v@.len() - i,
    {
        proof {
            let t = views_of_amps(amps_v@).take(i + 1);
            assert(t.drop_last() =~= views_of_amps(amps_v@).take(i as int));
            assert(t.last() == amps_v@[i as int]@);
        }
        push_amp_hits(&mut out, &amps_v[i], needle.as_str());
        i += 1;
    }
    assert(views_of_amps(amps_v@).take(amps_v@.len() as int) =~= amp_table());
    let ghost mid = line_views(out@);
    let fx_v = effects();
    let mut k: usize = 0;
    while k < fx_v.len()
        invariant
            k <= fx_v@.len(),
            views_of_effects(fx_v@) == effect_table(),
            needle@ == lower_text(name@),
            line_views(out@) == mid + effects_hits(views_of_effects(fx_v@).take(k as int), needle@),
        decreases fx_v@.len() - k,
    {
        proof {
            let t = views_of_effects(fx_v@).take(k + 1);
            assert(t.drop_last() =~= views_of_effects(fx_v@).take(k as int));
            assert(t.last() == fx_v@[k as int]@);
        }
        push_fx_hits(&mut out, &fx_v[k], needle.as_str());
        k += 1;
    }
    assert(views_of_effects(fx_v@).take(fx_v@.len() as int) =~= effect_table());
    if out.len() == 0 {
        assert(line_views(out@).len() == 0);
        let m = String::from_str("no parameter named ").concat(debug_str(name).as_str()).concat(
            "; try `list` to see the catalog",
        );
        return Err(m);
    }
    assert(line_views(out@).len() == out@.len());
    Ok(out)
}

} // verus!
