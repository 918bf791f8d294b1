//! The Eleven Rack parameter catalog: the MIDI continuous-controller (CC)
//! reference from the User Guide's MIDI chapter and the unit's on-device CC
//! reference.
//!
//! The CC here is the number a foot controller or automation sends to move a
//! control. It is a separate namespace from the internal `SysEx` parameter
//! address (`11 <block> <index>`), which is model/slot specific; a CC is never a
//! wire address.
//!
//! Amps list their own `(name, cc)` controls; the amp-section globals live in
//! [`amp_global`]. An effect's CCs depend on the chain slot it occupies: each
//! [`FxParam`] carries a CC per slot, aligned with its [`Effect::slots`]; use
//! [`Effect::cc_in`].
//!
//! Values are raw 7-bit device units (`0..=127`); a [`Kind`] says how to read one:
//! a continuous knob, a switch split at 64, or a stepped selector whose inclusive
//! raw ranges map to labels.

use vstd::prelude::*;

use crate::search::{find_first, first_index, is_first, lemma_first_at, lemma_first_none};
use crate::text::{
    dec, eq_ignore_ascii_case, lemma_case_equiv, lemma_differ_at, push_decimal,
    str_eq_ignore_ascii_case,
};

verus! {

/// The stepped-selector tables a [`Kind::Stepped`] parameter reads its labels from.
#[derive(Debug, Clone, Copy, PartialEq, Eq, Structural)]
pub enum StepTable {
    /// Tempo-sync note divisions.
    FxSync,
    /// Eleven SR reverb type.
    ReverbType,
    /// Roto Speaker speed.
    RotoSpeed,
    /// Roto Speaker type.
    RotoType,
}

/// How a raw `0..=127` value is interpreted.
#[derive(Debug, Clone, Copy)]
#[non_exhaustive]
pub enum Kind {
    /// A continuous knob over the full `0..=127` range.
    Knob,
    /// A two-state switch: raw `0..=63` reads as `off`, `64..=127` as `on`.
    Switch {
        /// Label for the low half.
        off: &'static str,
        /// Label for the high half.
        on: &'static str,
    },
    /// A stepped selector: the first step whose range contains the raw value
    /// gives the label.
    Stepped(StepTable),
}

/// One entry of a stepped selector: an inclusive raw range and its label.
#[derive(Debug, Clone, Copy)]
pub struct Step {
    /// Display label for this range.
    pub label: &'static str,
    /// Inclusive low raw value.
    pub lo: u8,
    /// Inclusive high raw value.
    pub hi: u8,
}

/// Whether `raw` falls in the inclusive range of `s`.
pub open spec fn step_holds(s: Step, raw: u8) -> bool {
    s.lo <= raw && raw <= s.hi
}

impl Step {
    /// Whether `raw` falls in this step's inclusive range.
    pub fn contains(self, raw: u8) -> (r: bool)
        ensures
            r == step_holds(self, raw),
    {
        raw >= self.lo && raw <= self.hi
    }
}

/// A step whose range contains `raw`.
pub open spec fn step_contains(raw: u8) -> spec_fn(Step) -> bool {
    |s: Step| step_holds(s, raw)
}

/// The description of a raw value under a kind: the number for a knob, the half's
/// label for a switch, the first containing step's label (else the number) for a
/// stepped selector.
pub open spec fn describe_spec(kind: Kind, raw: u8) -> Seq<char> {
    match kind {
        Kind::Knob => dec(raw as nat),
        Kind::Switch { off, on } => if raw < 64 { off@ } else { on@ },
        Kind::Stepped(t) => match find_first(step_table(t), step_contains(raw)) {
            Some(s) => s.label@,
            None => dec(raw as nat),
        },
    }
}

impl Kind {
    /// Describe a raw value under this kind, e.g. `"On"`, `"Concert Hall"`, or the
    /// bare number for a plain knob.
    pub fn describe(self, raw: u8) -> (r: String)
        ensures
            r@ == describe_spec(self, raw),
    {
        match self {
            Kind::Knob => {
                let mut s = String::new();
                push_decimal(&mut s, raw as u64);
                assert(s@ =~= dec(raw as nat));
                s
            },
            Kind::Switch { off, on } => {
                if raw < 64 {
                    String::from_str(off)
                } else {
                    String::from_str(on)
                }
            },
            Kind::Stepped(t) => {
                let table = steps(t);
                let ghost p = step_contains(raw);
                let mut i: usize = 0;
                while i < table.len()
                    invariant
                        i <= table@.len(),
                        table@ == step_table(t),
                        self == Kind::Stepped(t),
                        p == step_contains(raw),
                        forall|j: int| 0 <= j < i ==> !p(#[trigger] table@[j]),
                    decreases table@.len() - i,
                {
                    if table[i].contains(raw) {
                        proof {
                            lemma_first_at(table@, p, i as int);
                        }
                        let r = String::from_str(table[i].label);
                        return r;
                    }
                    i += 1;
                }
                proof {
                    lemma_first_none(table@, p);
                }
                let mut s = String::new();
                push_decimal(&mut s, raw as u64);
                assert(s@ =~= dec(raw as nat));
                s
            },
        }
    }
}

/// One catalogued amp or global control: its display `name`, its MIDI `cc` (a
/// remote-control number, not a `SysEx` address) and its value kind.
#[derive(Debug, Clone, Copy)]
pub struct Param {
    /// Control name as printed in the User Guide (e.g. `"PRESENCE"`).
    pub name: &'static str,
    /// MIDI continuous-controller number.
    pub cc: u8,
    /// How to interpret this parameter's raw value.
    pub kind: Kind,
}

/// A knob control.
pub fn knob(name: &'static str, cc: u8) -> (p: Param)
    ensures
        p == (Param { name, cc, kind: Kind::Knob }),
{
    Param { name, cc, kind: Kind::Knob }
}

/// An `Off`/`On` switch control.
pub fn onoff(name: &'static str, cc: u8) -> (p: Param)
    ensures
        p == (Param { name, cc, kind: Kind::Switch { off: "Off", on: "On" } }),
{
    Param { name, cc, kind: Kind::Switch { off: "Off", on: "On" } }
}

/// A switch control with its own labels.
pub fn sw(name: &'static str, cc: u8, off: &'static str, on: &'static str) -> (p: Param)
    ensures
        p == (Param { name, cc, kind: Kind::Switch { off, on } }),
{
    Param { name, cc, kind: Kind::Switch { off, on } }
}

/// A stepped-selector entry.
pub fn step(label: &'static str, lo: u8, hi: u8) -> (s: Step)
    ensures
        s == (Step { label, lo, hi }),
{
    Step { label, lo, hi }
}

/// A control whose name matches `name` ignoring ASCII case.
pub open spec fn param_named(name: Seq<char>) -> spec_fn(Param) -> bool {
    |p: Param| eq_ignore_ascii_case(p.name@, name)
}

/// Find the first control in `ps` named `name` (ignoring ASCII case).
fn find_param<'a>(ps: &'a Vec<Param>, name: &str) -> (r: Option<&'a Param>)
    ensures
        match r {
            Some(p) => find_first(ps@, param_named(name@)) == Some(*p),
            None => find_first(ps@, param_named(name@)) is None,
        },
{
    let ghost pr = param_named(name@);
    let mut i: usize = 0;
    while i < ps.len()
        invariant
            i <= ps@.len(),
            pr == param_named(name@),
            forall|j: int| 0 <= j < i ==> !pr(#[trigger] ps@[j]),
        decreases ps@.len() - i,
    {
        if str_eq_ignore_ascii_case(ps[i].name, name) {
            proof {
                lemma_first_at(ps@, pr, i as int);
            }
            return Some(&ps[i]);
        }
        i += 1;
    }
    proof {
        lemma_first_none(ps@, pr);
    }
    None
}

/// One amplifier model: its name and its controls, with their CC and kind.
#[derive(Debug, Clone)]
pub struct Amp {
    /// Model name as shown on the unit.
    pub name: &'static str,
    /// The model's named parameters.
    pub params: Vec<Param>,
}

/// The mathematical form of an [`Amp`].
pub struct AmpView {
    /// Model name.
    pub name: &'static str,
    /// Its controls, in order.
    pub params: Seq<Param>,
}

impl View for Amp {
    type V = AmpView;

    open spec fn view(&self) -> AmpView {
        AmpView { name: self.name, params: self.params@ }
    }
}

/// The views of a sequence of amps.
pub open spec fn views_of_amps(s: Seq<Amp>) -> Seq<AmpView> {
    s.map_values(|a: Amp| a@)
}

impl Amp {
    /// Find a parameter by case-insensitive name.
    pub fn param(&self, name: &str) -> (r: Option<&Param>)
        ensures
            match r {
                Some(p) => find_first(self@.params, param_named(name@)) == Some(*p),
                None => find_first(self@.params, param_named(name@)) is None,
            },
    {
        find_param(&self.params, name)
    }
}

/// A chain slot an effect can occupy, or its dedicated block.
#[derive(Debug, Clone, Copy, PartialEq, Eq, Structural)]
#[non_exhaustive]
pub enum Slot {
    /// The dedicated modulation slot.
    Mod,
    /// General-purpose effect slot 1.
    Fx1,
    /// General-purpose effect slot 2.
    Fx2,
    /// A dedicated block (distortion, wah, delay, reverb, FX loop).
    Fixed,
}

impl Slot {
    /// Short label for listings.
    pub fn label(self) -> (r: &'static str)
        ensures
            r@ == match self {
                Slot::Mod => "MOD"@,
                Slot::Fx1 => "FX1"@,
                Slot::Fx2 => "FX2"@,
                Slot::Fixed => "fixed"@,
            },
    {
        match self {
            Slot::Mod => "MOD",
            Slot::Fx1 => "FX1",
            Slot::Fx2 => "FX2",
            Slot::Fixed => "fixed",
        }
    }
}

/// One effect parameter: its name, its kind, and its MIDI CC in each slot the
/// effect can occupy (aligned with the owning effect's slots).
#[derive(Debug, Clone)]
pub struct FxParam {
    /// Control name as shown on the unit.
    pub name: &'static str,
    /// Value kind.
    pub kind: Kind,
    /// MIDI CC per slot, aligned with [`Effect::slots`].
    pub cc: Vec<u8>,
}

/// The mathematical form of an [`FxParam`].
#[verifier::ext_equal]
pub struct FxParamView {
    /// Control name.
    pub name: &'static str,
    /// Value kind.
    pub kind: Kind,
    /// MIDI CC per slot.
    pub cc: Seq<u8>,
}

impl View for FxParam {
    type V = FxParamView;

    open spec fn view(&self) -> FxParamView {
        FxParamView { name: self.name, kind: self.kind, cc: self.cc@ }
    }
}

/// One effect: the slots it can occupy and its parameters.
#[derive(Debug, Clone)]
pub struct Effect {
    /// Effect name.
    pub name: &'static str,
    /// The slots this effect occupies, in the order its CC arrays use.
    pub slots: Vec<Slot>,
    /// The effect's parameters.
    pub params: Vec<FxParam>,
}

/// The mathematical form of an [`Effect`].
#[verifier::ext_equal]
pub struct EffectView {
    /// Effect name.
    pub name: &'static str,
    /// Its slots, in CC order.
    pub slots: Seq<Slot>,
    /// Its parameters.
    pub params: Seq<FxParamView>,
}

impl View for Effect {
    type V = EffectView;

    open spec fn view(&self) -> EffectView {
        EffectView {
            name: self.name,
            slots: self.slots@,
            params: self.params@.map_values(|p: FxParam| p@),
        }
    }
}

/// The views of a sequence of effects.
pub open spec fn views_of_effects(s: Seq<Effect>) -> Seq<EffectView> {
    s.map_values(|e: Effect| e@)
}

/// An effect parameter whose name matches `name` ignoring ASCII case.
pub open spec fn fx_param_named(name: Seq<char>) -> spec_fn(FxParamView) -> bool {
    |p: FxParamView| eq_ignore_ascii_case(p.name@, name)
}

/// A slot equal to `slot`.
pub open spec fn slot_is(slot: Slot) -> spec_fn(Slot) -> bool {
    |s: Slot| s == slot
}

/// The CC of a parameter with per-slot CCs `cc` when its effect, occupying
/// `slots`, sits in `slot`: the CC at the slot's first position, if both exist.
pub open spec fn cc_in_spec(slots: Seq<Slot>, cc: Seq<u8>, slot: Slot) -> Option<u8> {
    match first_index(slots, slot_is(slot)) {
        Some(i) => if i < cc.len() { Some(cc[i]) } else { None },
        None => None,
    }
}

impl Effect {
    /// Find a parameter by case-insensitive name.
    pub fn param(&self, name: &str) -> (r: Option<&FxParam>)
        ensures
            match r {
                Some(p) => find_first(self@.params, fx_param_named(name@)) == Some(p@),
                None => find_first(self@.params, fx_param_named(name@)) is None,
            },
    {
        let ghost pr = fx_param_named(name@);
        let ghost vs = self@.params;
        let mut i: usize = 0;
        while i < self.params.len()
            invariant
                i <= self.params@.len(),
                vs == self@.params,
                vs.len() == self.params@.len(),
                pr == fx_param_named(name@),
                forall|j: int| 0 <= j < i ==> !pr(#[trigger] vs[j]),
            decreases self.params@.len() - i,
        {
            if str_eq_ignore_ascii_case(self.params[i].name, name) {
                proof {
                    lemma_first_at(vs, pr, i as int);
                }
                return Some(&self.params[i]);
            }
            i += 1;
        }
        proof {
            lemma_first_none(vs, pr);
        }
        None
    }

    /// The CC of parameter `p` when this effect sits in `slot`, if it can.
    pub fn cc_in(&self, p: &FxParam, slot: Slot) -> (r: Option<u8>)
        ensures
            r == cc_in_spec(self@.slots, p@.cc, slot),
    {
        let ghost pr = slot_is(slot);
        let mut i: usize = 0;
        while i < self.slots.len()
            invariant
                i <= self.slots@.len(),
                pr == slot_is(slot),
                forall|j: int| 0 <= j < i ==> !pr(#[trigger] self.slots@[j]),
            decreases self.slots@.len() - i,
        {
            if self.slots[i] == slot {
                proof {
                    lemma_first_at(self.slots@, pr, i as int);
                }
                if i < p.cc.len() {
                    return Some(p.cc[i]);
                } else {
                    return None;
                }
            }
            i += 1;
        }
        proof {
            lemma_first_none(self.slots@, pr);
        }
        None
    }
}

/// An amp whose name matches `name` ignoring ASCII case.
pub open spec fn amp_named(name: Seq<char>) -> spec_fn(AmpView) -> bool {
    |a: AmpView| eq_ignore_ascii_case(a.name@, name)
}

/// An effect whose name matches `name` ignoring ASCII case.
pub open spec fn effect_named(name: Seq<char>) -> spec_fn(EffectView) -> bool {
    |e: EffectView| eq_ignore_ascii_case(e.name@, name)
}

/// The amp model of the catalog named `name`, if any.
pub open spec fn amp_spec(name: Seq<char>) -> Option<AmpView> {
    find_first(amp_table(), amp_named(name))
}

/// The effect of the catalog named `name`, if any.
pub open spec fn effect_spec(name: Seq<char>) -> Option<EffectView> {
    find_first(effect_table(), effect_named(name))
}

/// The fixed-CC controls, in lookup order: general, then amp-section, then misc.
pub open spec fn global_table() -> Seq<Param> {
    general_table() + amp_global_table() + misc_table()
}

/// The global control named `name`, if any.
pub open spec fn global_spec(name: Seq<char>) -> Option<Param> {
    find_first(global_table(), param_named(name))
}

/// Look up an amp model by case-insensitive name.
pub fn amp(name: &str) -> (r: Option<Amp>)
    ensures
        match r {
            Some(a) => amp_spec(name@) == Some(a@),
            None => amp_spec(name@) is None,
        },
{
    let mut table = amps();
    let ghost vs = views_of_amps(table@);
    let ghost pr = amp_named(name@);
    let mut i: usize = 0;
    while i < table.len()
        invariant
            i <= table@.len(),
            vs == amp_table(),
            vs == views_of_amps(table@),
            vs.len() == table@.len(),
            pr == amp_named(name@),
            forall|j: int| 0 <= j < i ==> !pr(#[trigger] vs[j]),
        decreases table@.len() - i,
    {
        if str_eq_ignore_ascii_case(table[i].name, name) {
            proof {
                lemma_first_at(vs, pr, i as int);
            }
            let a = table.swap_remove(i);
            return Some(a);
        }
        i += 1;
    }
    proof {
        lemma_first_none(vs, pr);
    }
    None
}

/// Look up an effect by case-insensitive name.
pub fn effect(name: &str) -> (r: Option<Effect>)
    ensures
        match r {
            Some(e) => effect_spec(name@) == Some(e@),
            None => effect_spec(name@) is None,
        },
{
    let mut table = effects();
    let ghost vs = views_of_effects(table@);
    let ghost pr = effect_named(name@);
    let mut i: usize = 0;
    while i < table.len()
        invariant
            i <= table@.len(),
            vs == effect_table(),
            vs == views_of_effects(table@),
            vs.len() == table@.len(),
            pr == effect_named(name@),
            forall|j: int| 0 <= j < i ==> !pr(#[trigger] vs[j]),
        decreases table@.len() - i,
    {
        if str_eq_ignore_ascii_case(table[i].name, name) {
            proof {
                lemma_first_at(vs, pr, i as int);
            }
            let e = table.swap_remove(i);
            return Some(e);
        }
        i += 1;
    }
    proof {
        lemma_first_none(vs, pr);
    }
    None
}

/// Look up a global control (one fixed CC regardless of model or slot) by
/// case-insensitive name: the general bypass shortcuts and pedals, the amp-section
/// controls, then the misc pedal/bank controls.
pub fn global(name: &str) -> (r: Option<Param>)
    ensures
        r == global_spec(name@),
{
    let mut table = general();
    let mut rest = amp_global();
    table.append(&mut rest);
    let mut rest2 = misc();
    table.append(&mut rest2);
    assert(table@ =~= global_table());
    match find_param(&table, name) {
        Some(p) => Some(*p),
        None => None,
    }
}

/// What [`resolve_cc`] answers: with amp context, that amp's control; with effect
/// context, that effect's control in the given slot; with neither, a global
/// control.
pub open spec fn resolve_cc_spec(
    name: Seq<char>,
    amp_ctx: Option<Seq<char>>,
    fx_ctx: Option<(Seq<char>, Slot)>,
) -> Option<(u8, Kind)> {
    match amp_ctx {
        Some(a) => match amp_spec(a) {
            Some(am) => match find_first(am.params, param_named(name)) {
                Some(p) => Some((p.cc, p.kind)),
                None => None,
            },
            None => None,
        },
        None => match fx_ctx {
            Some((fx, slot)) => match effect_spec(fx) {
                Some(e) => match find_first(e.params, fx_param_named(name)) {
                    Some(p) => match cc_in_spec(e.slots, p.cc, slot) {
                        Some(c) => Some((c, p.kind)),
                        None => None,
                    },
                    None => None,
                },
                None => None,
            },
            None => match global_spec(name) {
                Some(p) => Some((p.cc, p.kind)),
                None => None,
            },
        },
    }
}

/// Resolve a control `name` to its MIDI CC and value kind for remote control,
/// using the amp or effect context to disambiguate. `None` if the name (or the
/// amp / effect / slot) is not found.
pub fn resolve_cc(name: &str, amp_ctx: Option<&str>, fx_ctx: Option<(&str, Slot)>) -> (r: Option<(u8, Kind)>)
    ensures
        r == resolve_cc_spec(
            name@,
            match amp_ctx { Some(a) => Some(a@), None => None },
            match fx_ctx { Some((f, s)) => Some((f@, s)), None => None },
        ),
{
    if let Some(a) = amp_ctx {
        let am = match amp(a) {
            Some(x) => x,
            None => return None,
        };
        return match am.param(name) {
            Some(p) => Some((p.cc, p.kind)),
            None => None,
        };
    }
    if let Some((fx, slot)) = fx_ctx {
        let e = match effect(fx) {
            Some(x) => x,
            None => return None,
        };
        let p = match e.param(name) {
            Some(x) => x,
            None => return None,
        };
        return match e.cc_in(p, slot) {
            Some(c) => Some((c, p.kind)),
            None => None,
        };
    }
    match global(name) {
        Some(p) => Some((p.cc, p.kind)),
        None => None,
    }
}

/// Tempo-sync note divisions, shared by every effect `SYNC` parameter.
pub open spec fn fx_sync_steps() -> Seq<Step> {
    seq![
        Step { label: "Off", lo: 0, hi: 4 },
        Step { label: "Whole Note", lo: 5, hi: 14 },
        Step { label: "Dotted Half Note", lo: 15, hi: 24 },
        Step { label: "Half Note", lo: 25, hi: 34 },
        Step { label: "Half Note Triplet", lo: 35, hi: 44 },
        Step { label: "Dotted Quarter Note", lo: 45, hi: 54 },
        Step { label: "Quarter Note", lo: 55, hi: 63 },
        Step { label: "Quarter Note Triplet", lo: 64, hi: 73 },
        Step { label: "Dotted Eighth Note", lo: 74, hi: 83 },
        Step { label: "Eighth Note", lo: 84, hi: 93 },
        Step { label: "Eighth Note Triplet", lo: 94, hi: 103 },
        Step { label: "Dotted Sixteenth Note", lo: 104, hi: 113 },
        Step { label: "Sixteenth Note", lo: 114, hi: 123 },
        Step { label: "Sixteenth Note Triplet", lo: 124, hi: 127 },
    ]
}

/// Eleven SR (Stereo Reverb) `TYPE` selector.
pub open spec fn reverb_type_steps() -> Seq<Step> {
    seq![
        Step { label: "Echo Room", lo: 0, hi: 2 },
        Step { label: "Studio", lo: 3, hi: 7 },
        Step { label: "Small Room", lo: 8, hi: 13 },
        Step { label: "Jazz Club", lo: 14, hi: 18 },
        Step { label: "Small Club", lo: 19, hi: 23 },
        Step { label: "Garage", lo: 24, hi: 29 },
        Step { label: "Medium Room", lo: 30, hi: 34 },
        Step { label: "Tiled Room", lo: 35, hi: 39 },
        Step { label: "Wood Room", lo: 40, hi: 45 },
        Step { label: "Small Theater", lo: 46, hi: 50 },
        Step { label: "Medium Theater", lo: 51, hi: 55 },
        Step { label: "Large Theater", lo: 56, hi: 61 },
        Step { label: "Rich Hall", lo: 62, hi: 66 },
        Step { label: "Concert Hall", lo: 67, hi: 71 },
        Step { label: "Bright Hall", lo: 72, hi: 77 },
        Step { label: "Church", lo: 78, hi: 82 },
        Step { label: "Cathedral", lo: 83, hi: 87 },
        Step { label: "Arena", lo: 88, hi: 93 },
        Step { label: "Small Plate", lo: 94, hi: 98 },
        Step { label: "Medium Plate", lo: 99, hi: 103 },
        Step { label: "Large Plate", lo: 104, hi: 109 },
        Step { label: "Canyon", lo: 110, hi: 114 },
        Step { label: "Supa Long", lo: 115, hi: 119 },
        Step { label: "Early Reflect 1", lo: 120, hi: 125 },
        Step { label: "Early Reflect 2", lo: 126, hi: 127 },
    ]
}

/// Roto Speaker `SPEED` selector.
pub open spec fn roto_speed_steps() -> Seq<Step> {
    seq![
        Step { label: "Slow", lo: 0, hi: 31 },
        Step { label: "Brake", lo: 32, hi: 95 },
        Step { label: "Fast", lo: 96, hi: 127 },
    ]
}

/// Roto Speaker `TYPE` selector.
pub open spec fn roto_type_steps() -> Seq<Step> {
    seq![
        Step { label: "120", lo: 0, hi: 9 },
        Step { label: "122", lo: 10, hi: 27 },
        Step { label: "21H", lo: 28, hi: 45 },
        Step { label: "Foam Drum", lo: 46, hi: 63 },
        Step { label: "Rover", lo: 64, hi: 82 },
        Step { label: "Memphis", lo: 83, hi: 100 },
        Step { label: "Wolf", lo: 101, hi: 118 },
        Step { label: "Watery", lo: 119, hi: 127 },
    ]
}

/// The steps of a stepped-selector table.
pub open spec fn step_table(t: StepTable) -> Seq<Step> {
    match t {
        StepTable::FxSync => fx_sync_steps(),
        StepTable::ReverbType => reverb_type_steps(),
        StepTable::RotoSpeed => roto_speed_steps(),
        StepTable::RotoType => roto_type_steps(),
    }
}

/// The steps of a stepped-selector table, in order.
pub fn steps(t: StepTable) -> (r: Vec<Step>)
    ensures
        r@ == step_table(t),
{
    match t {

        StepTable::FxSync => {
            let r = vec![
                Step { label: "Off", lo: 0, hi: 4 },
            Step { label: "Whole Note", lo: 5, hi: 14 },
            Step { label: "Dotted Half Note", lo: 15, hi: 24 },
            Step { label: "Half Note", lo: 25, hi: 34 },
            Step { label: "Half Note Triplet", lo: 35, hi: 44 },
            Step { label: "Dotted Quarter Note", lo: 45, hi: 54 },
            Step { label: "Quarter Note", lo: 55, hi: 63 },
            Step { label: "Quarter Note Triplet", lo: 64, hi: 73 },
            Step { label: "Dotted Eighth Note", lo: 74, hi: 83 },
            Step { label: "Eighth Note", lo: 84, hi: 93 },
            Step { label: "Eighth Note Triplet", lo: 94, hi: 103 },
            Step { label: "Dotted Sixteenth Note", lo: 104, hi: 113 },
            Step { label: "Sixteenth Note", lo: 114, hi: 123 },
            Step { label: "Sixteenth Note Triplet", lo: 124, hi: 127 },
            ];
            assert(r@ =~= step_table(t));
            r
        },

        StepTable::ReverbType => {
            let r = vec![
                Step { label: "Echo Room", lo: 0, hi: 2 },
            Step { label: "Studio", lo: 3, hi: 7 },
            Step { label: "Small Room", lo: 8, hi: 13 },
            Step { label: "Jazz Club", lo: 14, hi: 18 },
            Step { label: "Small Club", lo: 19, hi: 23 },
            Step { label: "Garage", lo: 24, hi: 29 },
            Step { label: "Medium Room", lo: 30, hi: 34 },
            Step { label: "Tiled Room", lo: 35, hi: 39 },
            Step { label: "Wood Room", lo: 40, hi: 45 },
            Step { label: "Small Theater", lo: 46, hi: 50 },
            Step { label: "Medium Theater", lo: 51, hi: 55 },
            Step { label: "Large Theater", lo: 56, hi: 61 },
            Step { label: "Rich Hall", lo: 62, hi: 66 },
            Step { label: "Concert Hall", lo: 67, hi: 71 },
            Step { label: "Bright Hall", lo: 72, hi: 77 },
            Step { label: "Church", lo: 78, hi: 82 },
            Step { label: "Cathedral", lo: 83, hi: 87 },
            Step { label: "Arena", lo: 88, hi: 93 },
            Step { label: "Small Plate", lo: 94, hi: 98 },
            Step { label: "Medium Plate", lo: 99, hi: 103 },
            Step { label: "Large Plate", lo: 104, hi: 109 },
            Step { label: "Canyon", lo: 110, hi: 114 },
            Step { label: "Supa Long", lo: 115, hi: 119 },
            Step { label: "Early Reflect 1", lo: 120, hi: 125 },
            Step { label: "Early Reflect 2", lo: 126, hi: 127 },
            ];
            assert(r@ =~= step_table(t));
            r
        },

        StepTable::RotoSpeed => {
            let r = vec![
                Step { label: "Slow", lo: 0, hi: 31 },
            Step { label: "Brake", lo: 32, hi: 95 },
            Step { label: "Fast", lo: 96, hi: 127 },
            ];
            assert(r@ =~= step_table(t));
            r
        },

        StepTable::RotoType => {
            let r = vec![
                Step { label: "120", lo: 0, hi: 9 },
            Step { label: "122", lo: 10, hi: 27 },
            Step { label: "21H", lo: 28, hi: 45 },
            Step { label: "Foam Drum", lo: 46, hi: 63 },
            Step { label: "Rover", lo: 64, hi: 82 },
            Step { label: "Memphis", lo: 83, hi: 100 },
            Step { label: "Wolf", lo: 101, hi: 118 },
            Step { label: "Watery", lo: 119, hi: 127 },
            ];
            assert(r@ =~= step_table(t));
            r
        },

    }
}

/// Amp-section controls common to every model ("Applies to all amps").
pub open spec fn amp_global_table() -> Seq<Param> {
    seq![
        Param { name: "AMP BYPASS", cc: 111, kind: Kind::Switch { off: "Off", on: "On" } },
        Param { name: "AMP OUTPUT", cc: 92, kind: Kind::Knob },
        Param { name: "CAB/MIC BYPASS", cc: 71, kind: Kind::Switch { off: "Off", on: "On" } },
    ]
}

/// Amp-section controls common to every model ("Applies to all amps").
pub fn amp_global() -> (r: Vec<Param>)
    ensures
        r@ == amp_global_table(),
{
    let r = vec![
        Param { name: "AMP BYPASS", cc: 111, kind: Kind::Switch { off: "Off", on: "On" } },
        Param { name: "AMP OUTPUT", cc: 92, kind: Kind::Knob },
        Param { name: "CAB/MIC BYPASS", cc: 71, kind: Kind::Switch { off: "Off", on: "On" } },
    ];
    assert(r@ =~= amp_global_table());
    r
}

/// The "General/Frequently Used Controls" bypass shortcuts and pedal positions.
pub open spec fn general_table() -> Seq<Param> {
    seq![
        Param { name: "DIST BYPASS", cc: 25, kind: Kind::Switch { off: "Off", on: "On" } },
        Param { name: "MOD BYPASS", cc: 50, kind: Kind::Switch { off: "Off", on: "On" } },
        Param { name: "DELAY BYPASS", cc: 28, kind: Kind::Switch { off: "Off", on: "On" } },
        Param { name: "REVERB BYPASS", cc: 36, kind: Kind::Switch { off: "Off", on: "On" } },
        Param { name: "FX LOOP BYPASS", cc: 107, kind: Kind::Switch { off: "Off", on: "On" } },
        Param { name: "FX1 BYPASS", cc: 63, kind: Kind::Switch { off: "Off", on: "On" } },
        Param { name: "FX2 BYPASS", cc: 86, kind: Kind::Switch { off: "Off", on: "On" } },
        Param { name: "WAH BYPASS", cc: 43, kind: Kind::Switch { off: "Off", on: "On" } },
        Param { name: "AMP BYPASS", cc: 111, kind: Kind::Switch { off: "Off", on: "On" } },
        Param { name: "VOLUME PEDAL POSITION", cc: 7, kind: Kind::Knob },
        Param { name: "WAH POSITION", cc: 4, kind: Kind::Knob },
        Param { name: "MULTI FX CONTROL", cc: 11, kind: Kind::Knob },
        Param { name: "TAP TEMPO", cc: 64, kind: Kind::Knob },
    ]
}

/// The "General/Frequently Used Controls" bypass shortcuts and pedal positions.
pub fn general() -> (r: Vec<Param>)
    ensures
        r@ == general_table(),
{
    let r = vec![
        Param { name: "DIST BYPASS", cc: 25, kind: Kind::Switch { off: "Off", on: "On" } },
        Param { name: "MOD BYPASS", cc: 50, kind: Kind::Switch { off: "Off", on: "On" } },
        Param { name: "DELAY BYPASS", cc: 28, kind: Kind::Switch { off: "Off", on: "On" } },
        Param { name: "REVERB BYPASS", cc: 36, kind: Kind::Switch { off: "Off", on: "On" } },
        Param { name: "FX LOOP BYPASS", cc: 107, kind: Kind::Switch { off: "Off", on: "On" } },
        Param { name: "FX1 BYPASS", cc: 63, kind: Kind::Switch { off: "Off", on: "On" } },
        Param { name: "FX2 BYPASS", cc: 86, kind: Kind::Switch { off: "Off", on: "On" } },
        Param { name: "WAH BYPASS", cc: 43, kind: Kind::Switch { off: "Off", on: "On" } },
        Param { name: "AMP BYPASS", cc: 111, kind: Kind::Switch { off: "Off", on: "On" } },
        Param { name: "VOLUME PEDAL POSITION", cc: 7, kind: Kind::Knob },
        Param { name: "WAH POSITION", cc: 4, kind: Kind::Knob },
        Param { name: "MULTI FX CONTROL", cc: 11, kind: Kind::Knob },
        Param { name: "TAP TEMPO", cc: 64, kind: Kind::Knob },
    ];
    assert(r@ =~= general_table());
    r
}

/// "Miscellaneous MIDI Controls": the multi-FX and rig-volume pedal assignments; bank select (CC 32) precedes a Program Change.
pub open spec fn misc_table() -> Seq<Param> {
    seq![
        Param { name: "MULTI FX PEDAL POSITION", cc: 11, kind: Kind::Knob },
        Param { name: "RIG VOLUME PEDAL POSITION", cc: 17, kind: Kind::Knob },
        Param { name: "BANK CHANGE", cc: 32, kind: Kind::Switch { off: "User Rigs", on: "Factory Rigs" } },
    ]
}

/// "Miscellaneous MIDI Controls": the multi-FX and rig-volume pedal assignments; bank select (CC 32) precedes a Program Change.
pub fn misc() -> (r: Vec<Param>)
    ensures
        r@ == misc_table(),
{
    let r = vec![
        Param { name: "MULTI FX PEDAL POSITION", cc: 11, kind: Kind::Knob },
        Param { name: "RIG VOLUME PEDAL POSITION", cc: 17, kind: Kind::Knob },
        Param { name: "BANK CHANGE", cc: 32, kind: Kind::Switch { off: "User Rigs", on: "Factory Rigs" } },
    ];
    assert(r@ =~= misc_table());
    r
}

/// The speaker-cabinet model names.
pub open spec fn cab_table() -> Seq<&'static str> {
    seq!["1x12 Black Lux", "1x12 Tweed Lux", "2x12 AC Blue", "2x12 Black Duo", "4x10 Tweed Bass", "4x12 Classic 30", "4x12 Green 25Watt"]
}

/// The microphone model names.
pub open spec fn mic_table() -> Seq<&'static str> {
    seq!["Dyn 7", "Dyn 57", "Dyn 409", "Dyn 421", "Cond 67", "Cond 87", "Ribbon 121"]
}

/// The microphone positions.
pub open spec fn mic_position_table() -> Seq<&'static str> {
    seq!["On-axis", "Off-axis"]
}

/// The speaker-cabinet models, chosen on the Cab page (model selections, not CC-addressable).
pub fn cabs() -> (r: Vec<&'static str>)
    ensures
        r@ == cab_table(),
{
    vec!["1x12 Black Lux", "1x12 Tweed Lux", "2x12 AC Blue", "2x12 Black Duo", "4x10 Tweed Bass", "4x12 Classic 30", "4x12 Green 25Watt"]
}

/// The microphone models, chosen alongside the cabinet on the Cab page.
pub fn mics() -> (r: Vec<&'static str>)
    ensures
        r@ == mic_table(),
{
    vec!["Dyn 7", "Dyn 57", "Dyn 409", "Dyn 421", "Cond 67", "Cond 87", "Ribbon 121"]
}

/// The microphone position toggled by SW2 on the Cab page: on-axis (brighter) or off-axis (warmer).
pub fn mic_position() -> (r: Vec<&'static str>)
    ensures
        r@ == mic_position_table(),
{
    vec!["On-axis", "Off-axis"]
}

/// All catalogued amplifier models, each with its own control set and CCs.
pub open spec fn amp_table() -> Seq<AmpView> {
    seq![
        AmpView {
            name: "Tweed Lux",
            params: seq![
                Param { name: "TONE", cc: 13, kind: Kind::Knob },
                Param { name: "INSTRUMENT VOLUME", cc: 14, kind: Kind::Knob },
                Param { name: "MIC VOLUME", cc: 15, kind: Kind::Knob },
                Param { name: "NOISE GATE THRESHOLD", cc: 16, kind: Kind::Knob },
                Param { name: "NOISE GATE RELEASE", cc: 21, kind: Kind::Knob },
            ],
        },
        AmpView {
            name: "Tweed Bass",
            params: seq![
                Param { name: "PRESENCE", cc: 13, kind: Kind::Knob },
                Param { name: "MIDDLE", cc: 14, kind: Kind::Knob },
                Param { name: "BASS", cc: 15, kind: Kind::Knob },
                Param { name: "TREBLE", cc: 16, kind: Kind::Knob },
                Param { name: "BRIGHT VOLUME", cc: 21, kind: Kind::Knob },
                Param { name: "NORMAL VOLUME", cc: 10, kind: Kind::Knob },
                Param { name: "NOISE GATE THRESHOLD", cc: 112, kind: Kind::Knob },
                Param { name: "NOISE GATE RELEASE", cc: 3, kind: Kind::Knob },
            ],
        },
        AmpView {
            name: "Black Panel Lux Vibrato",
            params: seq![
                Param { name: "VOLUME", cc: 13, kind: Kind::Knob },
                Param { name: "TREBLE", cc: 14, kind: Kind::Knob },
                Param { name: "BASS", cc: 15, kind: Kind::Knob },
                Param { name: "VIBRATO SPEED", cc: 16, kind: Kind::Knob },
                Param { name: "VIBRATO SYNC", cc: 21, kind: Kind::Knob },
                Param { name: "VIBRATO INTENSITY", cc: 10, kind: Kind::Knob },
                Param { name: "VIBRATO ON/OFF", cc: 112, kind: Kind::Switch { off: "Off", on: "On" } },
                Param { name: "NOISE GATE THRESHOLD", cc: 3, kind: Kind::Knob },
                Param { name: "NOISE GATE RELEASE", cc: 84, kind: Kind::Knob },
            ],
        },
        AmpView {
            name: "Black Panel Lux Normal",
            params: seq![
                Param { name: "VOLUME", cc: 13, kind: Kind::Knob },
                Param { name: "TREBLE", cc: 14, kind: Kind::Knob },
                Param { name: "BASS", cc: 15, kind: Kind::Knob },
                Param { name: "VIBRATO SPEED", cc: 16, kind: Kind::Knob },
                Param { name: "VIBRATO SYNC", cc: 21, kind: Kind::Knob },
                Param { name: "VIBRATO INTENSITY", cc: 10, kind: Kind::Knob },
                Param { name: "NOISE GATE THRESHOLD", cc: 3, kind: Kind::Knob },
                Param { name: "NOISE GATE RELEASE", cc: 84, kind: Kind::Knob },
            ],
        },
        AmpView {
            name: "AC Hi Boost",
            params: seq![
                Param { name: "NORMAL VOLUME", cc: 13, kind: Kind::Knob },
                Param { name: "BRILLIANT VOLUME", cc: 14, kind: Kind::Knob },
                Param { name: "BASS", cc: 15, kind: Kind::Knob },
                Param { name: "TREBLE", cc: 16, kind: Kind::Knob },
                Param { name: "CUT", cc: 21, kind: Kind::Knob },
                Param { name: "TREMOLO SPEED", cc: 10, kind: Kind::Knob },
                Param { name: "TREMOLO SYNC", cc: 112, kind: Kind::Knob },
                Param { name: "TREMOLO DEPTH", cc: 3, kind: Kind::Knob },
                Param { name: "TREMOLO ON/OFF", cc: 22, kind: Kind::Switch { off: "Off", on: "On" } },
                Param { name: "NOISE GATE THRESHOLD", cc: 84, kind: Kind::Knob },
                Param { name: "NOISE GATE RELEASE", cc: 24, kind: Kind::Knob },
            ],
        },
        AmpView {
            name: "Black Panel Duo",
            params: seq![
                Param { name: "VOLUME", cc: 13, kind: Kind::Knob },
                Param { name: "TREBLE", cc: 14, kind: Kind::Knob },
                Param { name: "MIDDLE", cc: 15, kind: Kind::Knob },
                Param { name: "BASS", cc: 16, kind: Kind::Knob },
                Param { name: "BRIGHT", cc: 21, kind: Kind::Switch { off: "Off", on: "On" } },
                Param { name: "VIBRATO SPEED", cc: 10, kind: Kind::Knob },
                Param { name: "VIBRATO SYNC", cc: 112, kind: Kind::Knob },
                Param { name: "VIBRATO INTENSITY", cc: 3, kind: Kind::Knob },
                Param { name: "VIBRATO ON/OFF", cc: 22, kind: Kind::Switch { off: "Off", on: "On" } },
                Param { name: "NOISE GATE THRESHOLD", cc: 84, kind: Kind::Knob },
                Param { name: "NOISE GATE RELEASE", cc: 24, kind: Kind::Knob },
            ],
        },
        AmpView {
            name: "Plexiglas - 100W",
            params: seq![
                Param { name: "PRESENCE", cc: 13, kind: Kind::Knob },
                Param { name: "BASS", cc: 14, kind: Kind::Knob },
                Param { name: "MIDDLE", cc: 15, kind: Kind::Knob },
                Param { name: "TREBLE", cc: 16, kind: Kind::Knob },
                Param { name: "VOLUME 1", cc: 21, kind: Kind::Knob },
                Param { name: "VOLUME 2", cc: 10, kind: Kind::Knob },
                Param { name: "NOISE GATE THRESHOLD", cc: 112, kind: Kind::Knob },
                Param { name: "NOISE GATE RELEASE", cc: 3, kind: Kind::Knob },
            ],
        },
        AmpView {
            name: "Lead 800 - 100W",
            params: seq![
                Param { name: "PRESENCE", cc: 13, kind: Kind::Knob },
                Param { name: "BASS", cc: 14, kind: Kind::Knob },
                Param { name: "MIDDLE", cc: 15, kind: Kind::Knob },
                Param { name: "TREBLE", cc: 16, kind: Kind::Knob },
                Param { name: "PREAMP VOLUME", cc: 10, kind: Kind::Knob },
                Param { name: "MASTER VOLUME", cc: 21, kind: Kind::Knob },
                Param { name: "NOISE GATE THRESHOLD", cc: 112, kind: Kind::Knob },
                Param { name: "NOISE GATE RELEASE", cc: 3, kind: Kind::Knob },
            ],
        },
        AmpView {
            name: "M-2 Lead",
            params: seq![
                Param { name: "VOLUME", cc: 13, kind: Kind::Knob },
                Param { name: "TREBLE", cc: 14, kind: Kind::Knob },
                Param { name: "BASS", cc: 15, kind: Kind::Knob },
                Param { name: "MIDDLE", cc: 16, kind: Kind::Knob },
                Param { name: "DRIVE", cc: 21, kind: Kind::Knob },
                Param { name: "MASTER", cc: 10, kind: Kind::Knob },
                Param { name: "BRIGHT", cc: 112, kind: Kind::Switch { off: "Off", on: "On" } },
                Param { name: "PRESENCE", cc: 3, kind: Kind::Knob },
                Param { name: "NOISE GATE THRESHOLD", cc: 84, kind: Kind::Knob },
                Param { name: "NOISE GATE RELEASE", cc: 24, kind: Kind::Knob },
            ],
        },
        AmpView {
            name: "SL-100 Drive",
            params: seq![
                Param { name: "PREAMP", cc: 13, kind: Kind::Knob },
                Param { name: "BASS", cc: 14, kind: Kind::Knob },
                Param { name: "MIDDLE", cc: 15, kind: Kind::Knob },
                Param { name: "TREBLE", cc: 16, kind: Kind::Knob },
                Param { name: "PRESENCE", cc: 21, kind: Kind::Knob },
                Param { name: "MASTER", cc: 10, kind: Kind::Knob },
                Param { name: "MOD", cc: 112, kind: Kind::Switch { off: "Off", on: "On" } },
                Param { name: "NOISE GATE THRESHOLD", cc: 3, kind: Kind::Knob },
                Param { name: "NOISE GATE RELEASE", cc: 84, kind: Kind::Knob },
            ],
        },
        AmpView {
            name: "SL-100 Crunch",
            params: seq![
                Param { name: "PREAMP", cc: 13, kind: Kind::Knob },
                Param { name: "BASS", cc: 14, kind: Kind::Knob },
                Param { name: "MIDDLE", cc: 15, kind: Kind::Knob },
                Param { name: "TREBLE", cc: 16, kind: Kind::Knob },
                Param { name: "PRESENCE", cc: 21, kind: Kind::Knob },
                Param { name: "MASTER", cc: 10, kind: Kind::Knob },
                Param { name: "BRIGHT", cc: 112, kind: Kind::Switch { off: "Off", on: "On" } },
                Param { name: "NOISE GATE THRESHOLD", cc: 3, kind: Kind::Knob },
                Param { name: "NOISE GATE RELEASE", cc: 84, kind: Kind::Knob },
            ],
        },
        AmpView {
            name: "SL-100 Clean",
            params: seq![
                Param { name: "PREAMP", cc: 13, kind: Kind::Knob },
                Param { name: "BASS", cc: 14, kind: Kind::Knob },
                Param { name: "MIDDLE", cc: 15, kind: Kind::Knob },
                Param { name: "TREBLE", cc: 16, kind: Kind::Knob },
                Param { name: "PRESENCE", cc: 21, kind: Kind::Knob },
                Param { name: "MASTER", cc: 10, kind: Kind::Knob },
                Param { name: "BRIGHT", cc: 112, kind: Kind::Switch { off: "Off", on: "On" } },
                Param { name: "NOISE GATE THRESHOLD", cc: 3, kind: Kind::Knob },
                Param { name: "NOISE GATE RELEASE", cc: 84, kind: Kind::Knob },
            ],
        },
        AmpView {
            name: "Treadplate Modern",
            params: seq![
                Param { name: "MASTER", cc: 13, kind: Kind::Knob },
                Param { name: "PRESENCE", cc: 14, kind: Kind::Knob },
                Param { name: "BASS", cc: 15, kind: Kind::Knob },
                Param { name: "MIDDLE", cc: 16, kind: Kind::Knob },
                Param { name: "TREBLE", cc: 21, kind: Kind::Knob },
                Param { name: "GAIN", cc: 10, kind: Kind::Knob },
                Param { name: "NOISE GATE THRESHOLD", cc: 112, kind: Kind::Knob },
                Param { name: "NOISE GATE RELEASE", cc: 3, kind: Kind::Knob },
            ],
        },
        AmpView {
            name: "Treadplate Vintage",
            params: seq![
                Param { name: "MASTER", cc: 13, kind: Kind::Knob },
                Param { name: "PRESENCE", cc: 14, kind: Kind::Knob },
                Param { name: "BASS", cc: 15, kind: Kind::Knob },
                Param { name: "MIDDLE", cc: 16, kind: Kind::Knob },
                Param { name: "TREBLE", cc: 21, kind: Kind::Knob },
                Param { name: "GAIN", cc: 10, kind: Kind::Knob },
                Param { name: "NOISE GATE THRESHOLD", cc: 112, kind: Kind::Knob },
                Param { name: "NOISE GATE RELEASE", cc: 3, kind: Kind::Knob },
            ],
        },
        AmpView {
            name: "DC Modern Crunch",
            params: seq![
                Param { name: "GAIN", cc: 13, kind: Kind::Knob },
                Param { name: "BASS", cc: 14, kind: Kind::Knob },
                Param { name: "MIDDLE", cc: 15, kind: Kind::Knob },
                Param { name: "TREBLE", cc: 16, kind: Kind::Knob },
                Param { name: "PRESENCE", cc: 21, kind: Kind::Knob },
                Param { name: "MASTER", cc: 10, kind: Kind::Knob },
                Param { name: "BRIGHT", cc: 112, kind: Kind::Switch { off: "Off", on: "On" } },
                Param { name: "TREMOLO SPEED", cc: 3, kind: Kind::Knob },
                Param { name: "TREMOLO SYNC", cc: 84, kind: Kind::Knob },
                Param { name: "TREMOLO DEPTH", cc: 24, kind: Kind::Knob },
                Param { name: "TREMOLO ON/OFF", cc: 45, kind: Kind::Switch { off: "Off", on: "On" } },
                Param { name: "NOISE GATE THRESHOLD", cc: 23, kind: Kind::Knob },
                Param { name: "NOISE GATE RELEASE", cc: 22, kind: Kind::Knob },
            ],
        },
        AmpView {
            name: "DC Vintage Overdrive",
            params: seq![
                Param { name: "GAIN", cc: 13, kind: Kind::Knob },
                Param { name: "BASS", cc: 14, kind: Kind::Knob },
                Param { name: "MIDDLE", cc: 15, kind: Kind::Knob },
                Param { name: "TREBLE", cc: 16, kind: Kind::Knob },
                Param { name: "PRESENCE", cc: 21, kind: Kind::Knob },
                Param { name: "MASTER", cc: 10, kind: Kind::Knob },
                Param { name: "BRIGHT", cc: 112, kind: Kind::Switch { off: "Off", on: "On" } },
                Param { name: "TREMOLO SPEED", cc: 3, kind: Kind::Knob },
                Param { name: "TREMOLO SYNC", cc: 84, kind: Kind::Knob },
                Param { name: "TREMOLO DEPTH", cc: 24, kind: Kind::Knob },
                Param { name: "TREMOLO ON/OFF", cc: 45, kind: Kind::Switch { off: "Off", on: "On" } },
                Param { name: "NOISE GATE THRESHOLD", cc: 23, kind: Kind::Knob },
                Param { name: "NOISE GATE RELEASE", cc: 22, kind: Kind::Knob },
            ],
        },
        AmpView {
            name: "J45",
            params: seq![
                Param { name: "PRESENCE", cc: 13, kind: Kind::Knob },
                Param { name: "BASS", cc: 14, kind: Kind::Knob },
                Param { name: "MIDDLE", cc: 15, kind: Kind::Knob },
                Param { name: "TREBLE", cc: 16, kind: Kind::Knob },
                Param { name: "VOLUME 1", cc: 21, kind: Kind::Knob },
                Param { name: "VOLUME 2", cc: 10, kind: Kind::Knob },
                Param { name: "NOISE GATE THRESHOLD", cc: 112, kind: Kind::Knob },
                Param { name: "NOISE GATE RELEASE", cc: 3, kind: Kind::Knob },
            ],
        },
        AmpView {
            name: "Black SR",
            params: seq![
                Param { name: "VOLUME", cc: 13, kind: Kind::Knob },
                Param { name: "TREBLE", cc: 14, kind: Kind::Knob },
                Param { name: "MIDDLE", cc: 15, kind: Kind::Knob },
                Param { name: "BASS", cc: 16, kind: Kind::Knob },
                Param { name: "BRIGHT", cc: 21, kind: Kind::Switch { off: "Off", on: "On" } },
                Param { name: "VIBRATO SPEED", cc: 10, kind: Kind::Knob },
                Param { name: "VIBRATO SYNC", cc: 112, kind: Kind::Knob },
                Param { name: "VIBRATO DEPTH", cc: 3, kind: Kind::Knob },
                Param { name: "VIBRATO ON/OFF", cc: 22, kind: Kind::Switch { off: "Off", on: "On" } },
                Param { name: "NOISE GATE THRESHOLD", cc: 84, kind: Kind::Knob },
                Param { name: "NOISE GATE RELEASE", cc: 24, kind: Kind::Knob },
            ],
        },
        AmpView {
            name: "Black Vib",
            params: seq![
                Param { name: "VOLUME", cc: 13, kind: Kind::Knob },
                Param { name: "TREBLE", cc: 14, kind: Kind::Knob },
                Param { name: "MIDDLE", cc: 15, kind: Kind::Knob },
                Param { name: "BASS", cc: 16, kind: Kind::Knob },
                Param { name: "BRIGHT", cc: 21, kind: Kind::Switch { off: "Off", on: "On" } },
                Param { name: "VIBRATO SPEED", cc: 10, kind: Kind::Knob },
                Param { name: "VIBRATO SYNC", cc: 112, kind: Kind::Knob },
                Param { name: "VIBRATO DEPTH", cc: 3, kind: Kind::Knob },
                Param { name: "VIBRATO ON/OFF", cc: 22, kind: Kind::Switch { off: "Off", on: "On" } },
                Param { name: "NOISE GATE THRESHOLD", cc: 84, kind: Kind::Knob },
                Param { name: "NOISE GATE RELEASE", cc: 24, kind: Kind::Knob },
            ],
        },
        AmpView {
            name: "Blue Line Bass",
            params: seq![
                Param { name: "VOLUME", cc: 13, kind: Kind::Knob },
                Param { name: "TREBLE", cc: 14, kind: Kind::Knob },
                Param { name: "MIDDLE", cc: 15, kind: Kind::Knob },
                Param { name: "BASS", cc: 16, kind: Kind::Knob },
                Param { name: "ULTRA HI", cc: 21, kind: Kind::Knob },
                Param { name: "ULTRA LO", cc: 10, kind: Kind::Knob },
                Param { name: "BRIGHT", cc: 112, kind: Kind::Switch { off: "Off", on: "On" } },
                Param { name: "MID FREQ", cc: 3, kind: Kind::Knob },
                Param { name: "NOISE GATE THRESHOLD", cc: 84, kind: Kind::Knob },
                Param { name: "NOISE GATE RELEASE", cc: 24, kind: Kind::Knob },
            ],
        },
        AmpView {
            name: "MS-30",
            params: seq![
                Param { name: "VOLUME", cc: 13, kind: Kind::Knob },
                Param { name: "BASS", cc: 14, kind: Kind::Knob },
                Param { name: "TREBLE", cc: 15, kind: Kind::Knob },
                Param { name: "CUT", cc: 16, kind: Kind::Knob },
                Param { name: "MASTER", cc: 21, kind: Kind::Knob },
                Param { name: "NOISE GATE THRESHOLD", cc: 10, kind: Kind::Knob },
                Param { name: "NOISE GATE RELEASE", cc: 112, kind: Kind::Knob },
            ],
        },
        AmpView {
            name: "RB-01b",
            params: seq![
                Param { name: "PRESENCE", cc: 13, kind: Kind::Knob },
                Param { name: "VOLUME", cc: 14, kind: Kind::Knob },
                Param { name: "TREBLE", cc: 15, kind: Kind::Knob },
                Param { name: "MIDDLE", cc: 16, kind: Kind::Knob },
                Param { name: "BASS", cc: 21, kind: Kind::Knob },
                Param { name: "GAIN", cc: 10, kind: Kind::Knob },
                Param { name: "BRIGHT", cc: 112, kind: Kind::Switch { off: "Off", on: "On" } },
                Param { name: "BOOST", cc: 3, kind: Kind::Knob },
                Param { name: "NOISE GATE THRESHOLD", cc: 84, kind: Kind::Knob },
                Param { name: "NOISE GATE RELEASE", cc: 24, kind: Kind::Knob },
            ],
        },
    ]
}

/// All catalogued amplifier models.
pub fn amps() -> (r: Vec<Amp>)
    ensures
        views_of_amps(r@) == amp_table(),
{
    let r = vec![
        Amp {
            name: "Tweed Lux",
            params: vec![
                Param { name: "TONE", cc: 13, kind: Kind::Knob },
                Param { name: "INSTRUMENT VOLUME", cc: 14, kind: Kind::Knob },
                Param { name: "MIC VOLUME", cc: 15, kind: Kind::Knob },
                Param { name: "NOISE GATE THRESHOLD", cc: 16, kind: Kind::Knob },
                Param { name: "NOISE GATE RELEASE", cc: 21, kind: Kind::Knob },
            ],
        },
        Amp {
            name: "Tweed Bass",
            params: vec![
                Param { name: "PRESENCE", cc: 13, kind: Kind::Knob },
                Param { name: "MIDDLE", cc: 14, kind: Kind::Knob },
                Param { name: "BASS", cc: 15, kind: Kind::Knob },
                Param { name: "TREBLE", cc: 16, kind: Kind::Knob },
                Param { name: "BRIGHT VOLUME", cc: 21, kind: Kind::Knob },
                Param { name: "NORMAL VOLUME", cc: 10, kind: Kind::Knob },
                Param { name: "NOISE GATE THRESHOLD", cc: 112, kind: Kind::Knob },
                Param { name: "NOISE GATE RELEASE", cc: 3, kind: Kind::Knob },
            ],
        },
        Amp {
            name: "Black Panel Lux Vibrato",
            params: vec![
                Param { name: "VOLUME", cc: 13, kind: Kind::Knob },
                Param { name: "TREBLE", cc: 14, kind: Kind::Knob },
                Param { name: "BASS", cc: 15, kind: Kind::Knob },
                Param { name: "VIBRATO SPEED", cc: 16, kind: Kind::Knob },
                Param { name: "VIBRATO SYNC", cc: 21, kind: Kind::Knob },
                Param { name: "VIBRATO INTENSITY", cc: 10, kind: Kind::Knob },
                Param { name: "VIBRATO ON/OFF", cc: 112, kind: Kind::Switch { off: "Off", on: "On" } },
                Param { name: "NOISE GATE THRESHOLD", cc: 3, kind: Kind::Knob },
                Param { name: "NOISE GATE RELEASE", cc: 84, kind: Kind::Knob },
            ],
        },
        Amp {
            name: "Black Panel Lux Normal",
            params: vec![
                Param { name: "VOLUME", cc: 13, kind: Kind::Knob },
                Param { name: "TREBLE", cc: 14, kind: Kind::Knob },
                Param { name: "BASS", cc: 15, kind: Kind::Knob },
                Param { name: "VIBRATO SPEED", cc: 16, kind: Kind::Knob },
                Param { name: "VIBRATO SYNC", cc: 21, kind: Kind::Knob },
                Param { name: "VIBRATO INTENSITY", cc: 10, kind: Kind::Knob },
                Param { name: "NOISE GATE THRESHOLD", cc: 3, kind: Kind::Knob },
                Param { name: "NOISE GATE RELEASE", cc: 84, kind: Kind::Knob },
            ],
        },
        Amp {
            name: "AC Hi Boost",
            params: vec![
                Param { name: "NORMAL VOLUME", cc: 13, kind: Kind::Knob },
                Param { name: "BRILLIANT VOLUME", cc: 14, kind: Kind::Knob },
                Param { name: "BASS", cc: 15, kind: Kind::Knob },
                Param { name: "TREBLE", cc: 16, kind: Kind::Knob },
                Param { name: "CUT", cc: 21, kind: Kind::Knob },
                Param { name: "TREMOLO SPEED", cc: 10, kind: Kind::Knob },
                Param { name: "TREMOLO SYNC", cc: 112, kind: Kind::Knob },
                Param { name: "TREMOLO DEPTH", cc: 3, kind: Kind::Knob },
                Param { name: "TREMOLO ON/OFF", cc: 22, kind: Kind::Switch { off: "Off", on: "On" } },
                Param { name: "NOISE GATE THRESHOLD", cc: 84, kind: Kind::Knob },
                Param { name: "NOISE GATE RELEASE", cc: 24, kind: Kind::Knob },
            ],
        },
        Amp {
            name: "Black Panel Duo",
            params: vec![
                Param { name: "VOLUME", cc: 13, kind: Kind::Knob },
                Param { name: "TREBLE", cc: 14, kind: Kind::Knob },
                Param { name: "MIDDLE", cc: 15, kind: Kind::Knob },
                Param { name: "BASS", cc: 16, kind: Kind::Knob },
                Param { name: "BRIGHT", cc: 21, kind: Kind::Switch { off: "Off", on: "On" } },
                Param { name: "VIBRATO SPEED", cc: 10, kind: Kind::Knob },
                Param { name: "VIBRATO SYNC", cc: 112, kind: Kind::Knob },
                Param { name: "VIBRATO INTENSITY", cc: 3, kind: Kind::Knob },
                Param { name: "VIBRATO ON/OFF", cc: 22, kind: Kind::Switch { off: "Off", on: "On" } },
                Param { name: "NOISE GATE THRESHOLD", cc: 84, kind: Kind::Knob },
                Param { name: "NOISE GATE RELEASE", cc: 24, kind: Kind::Knob },
            ],
        },
        Amp {
            name: "Plexiglas - 100W",
            params: vec![
                Param { name: "PRESENCE", cc: 13, kind: Kind::Knob },
                Param { name: "BASS", cc: 14, kind: Kind::Knob },
                Param { name: "MIDDLE", cc: 15, kind: Kind::Knob },
                Param { name: "TREBLE", cc: 16, kind: Kind::Knob },
                Param { name: "VOLUME 1", cc: 21, kind: Kind::Knob },
                Param { name: "VOLUME 2", cc: 10, kind: Kind::Knob },
                Param { name: "NOISE GATE THRESHOLD", cc: 112, kind: Kind::Knob },
                Param { name: "NOISE GATE RELEASE", cc: 3, kind: Kind::Knob },
            ],
        },
        Amp {
            name: "Lead 800 - 100W",
            params: vec![
                Param { name: "PRESENCE", cc: 13, kind: Kind::Knob },
                Param { name: "BASS", cc: 14, kind: Kind::Knob },
                Param { name: "MIDDLE", cc: 15, kind: Kind::Knob },
                Param { name: "TREBLE", cc: 16, kind: Kind::Knob },
                Param { name: "PREAMP VOLUME", cc: 10, kind: Kind::Knob },
                Param { name: "MASTER VOLUME", cc: 21, kind: Kind::Knob },
                Param { name: "NOISE GATE THRESHOLD", cc: 112, kind: Kind::Knob },
                Param { name: "NOISE GATE RELEASE", cc: 3, kind: Kind::Knob },
            ],
        },
        Amp {
            name: "M-2 Lead",
            params: vec![
                Param { name: "VOLUME", cc: 13, kind: Kind::Knob },
                Param { name: "TREBLE", cc: 14, kind: Kind::Knob },
                Param { name: "BASS", cc: 15, kind: Kind::Knob },
                Param { name: "MIDDLE", cc: 16, kind: Kind::Knob },
                Param { name: "DRIVE", cc: 21, kind: Kind::Knob },
                Param { name: "MASTER", cc: 10, kind: Kind::Knob },
                Param { name: "BRIGHT", cc: 112, kind: Kind::Switch { off: "Off", on: "On" } },
                Param { name: "PRESENCE", cc: 3, kind: Kind::Knob },
                Param { name: "NOISE GATE THRESHOLD", cc: 84, kind: Kind::Knob },
                Param { name: "NOISE GATE RELEASE", cc: 24, kind: Kind::Knob },
            ],
        },
        Amp {
            name: "SL-100 Drive",
            params: vec![
                Param { name: "PREAMP", cc: 13, kind: Kind::Knob },
                Param { name: "BASS", cc: 14, kind: Kind::Knob },
                Param { name: "MIDDLE", cc: 15, kind: Kind::Knob },
                Param { name: "TREBLE", cc: 16, kind: Kind::Knob },
                Param { name: "PRESENCE", cc: 21, kind: Kind::Knob },
                Param { name: "MASTER", cc: 10, kind: Kind::Knob },
                Param { name: "MOD", cc: 112, kind: Kind::Switch { off: "Off", on: "On" } },
                Param { name: "NOISE GATE THRESHOLD", cc: 3, kind: Kind::Knob },
                Param { name: "NOISE GATE RELEASE", cc: 84, kind: Kind::Knob },
            ],
        },
        Amp {
            name: "SL-100 Crunch",
            params: vec![
                Param { name: "PREAMP", cc: 13, kind: Kind::Knob },
                Param { name: "BASS", cc: 14, kind: Kind::Knob },
                Param { name: "MIDDLE", cc: 15, kind: Kind::Knob },
                Param { name: "TREBLE", cc: 16, kind: Kind::Knob },
                Param { name: "PRESENCE", cc: 21, kind: Kind::Knob },
                Param { name: "MASTER", cc: 10, kind: Kind::Knob },
                Param { name: "BRIGHT", cc: 112, kind: Kind::Switch { off: "Off", on: "On" } },
                Param { name: "NOISE GATE THRESHOLD", cc: 3, kind: Kind::Knob },
                Param { name: "NOISE GATE RELEASE", cc: 84, kind: Kind::Knob },
            ],
        },
        Amp {
            name: "SL-100 Clean",
            params: vec![
                Param { name: "PREAMP", cc: 13, kind: Kind::Knob },
                Param { name: "BASS", cc: 14, kind: Kind::Knob },
                Param { name: "MIDDLE", cc: 15, kind: Kind::Knob },
                Param { name: "TREBLE", cc: 16, kind: Kind::Knob },
                Param { name: "PRESENCE", cc: 21, kind: Kind::Knob },
                Param { name: "MASTER", cc: 10, kind: Kind::Knob },
                Param { name: "BRIGHT", cc: 112, kind: Kind::Switch { off: "Off", on: "On" } },
                Param { name: "NOISE GATE THRESHOLD", cc: 3, kind: Kind::Knob },
                Param { name: "NOISE GATE RELEASE", cc: 84, kind: Kind::Knob },
            ],
        },
        Amp {
            name: "Treadplate Modern",
            params: vec![
                Param { name: "MASTER", cc: 13, kind: Kind::Knob },
                Param { name: "PRESENCE", cc: 14, kind: Kind::Knob },
                Param { name: "BASS", cc: 15, kind: Kind::Knob },
                Param { name: "MIDDLE", cc: 16, kind: Kind::Knob },
                Param { name: "TREBLE", cc: 21, kind: Kind::Knob },
                Param { name: "GAIN", cc: 10, kind: Kind::Knob },
                Param { name: "NOISE GATE THRESHOLD", cc: 112, kind: Kind::Knob },
                Param { name: "NOISE GATE RELEASE", cc: 3, kind: Kind::Knob },
            ],
        },
        Amp {
            name: "Treadplate Vintage",
            params: vec![
                Param { name: "MASTER", cc: 13, kind: Kind::Knob },
                Param { name: "PRESENCE", cc: 14, kind: Kind::Knob },
                Param { name: "BASS", cc: 15, kind: Kind::Knob },
                Param { name: "MIDDLE", cc: 16, kind: Kind::Knob },
                Param { name: "TREBLE", cc: 21, kind: Kind::Knob },
                Param { name: "GAIN", cc: 10, kind: Kind::Knob },
                Param { name: "NOISE GATE THRESHOLD", cc: 112, kind: Kind::Knob },
                Param { name: "NOISE GATE RELEASE", cc: 3, kind: Kind::Knob },
            ],
        },
        Amp {
            name: "DC Modern Crunch",
            params: vec![
                Param { name: "GAIN", cc: 13, kind: Kind::Knob },
                Param { name: "BASS", cc: 14, kind: Kind::Knob },
                Param { name: "MIDDLE", cc: 15, kind: Kind::Knob },
                Param { name: "TREBLE", cc: 16, kind: Kind::Knob },
                Param { name: "PRESENCE", cc: 21, kind: Kind::Knob },
                Param { name: "MASTER", cc: 10, kind: Kind::Knob },
                Param { name: "BRIGHT", cc: 112, kind: Kind::Switch { off: "Off", on: "On" } },
                Param { name: "TREMOLO SPEED", cc: 3, kind: Kind::Knob },
                Param { name: "TREMOLO SYNC", cc: 84, kind: Kind::Knob },
                Param { name: "TREMOLO DEPTH", cc: 24, kind: Kind::Knob },
                Param { name: "TREMOLO ON/OFF", cc: 45, kind: Kind::Switch { off: "Off", on: "On" } },
                Param { name: "NOISE GATE THRESHOLD", cc: 23, kind: Kind::Knob },
                Param { name: "NOISE GATE RELEASE", cc: 22, kind: Kind::Knob },
            ],
        },
        Amp {
            name: "DC Vintage Overdrive",
            params: vec![
                Param { name: "GAIN", cc: 13, kind: Kind::Knob },
                Param { name: "BASS", cc: 14, kind: Kind::Knob },
                Param { name: "MIDDLE", cc: 15, kind: Kind::Knob },
                Param { name: "TREBLE", cc: 16, kind: Kind::Knob },
                Param { name: "PRESENCE", cc: 21, kind: Kind::Knob },
                Param { name: "MASTER", cc: 10, kind: Kind::Knob },
                Param { name: "BRIGHT", cc: 112, kind: Kind::Switch { off: "Off", on: "On" } },
                Param { name: "TREMOLO SPEED", cc: 3, kind: Kind::Knob },
                Param { name: "TREMOLO SYNC", cc: 84, kind: Kind::Knob },
                Param { name: "TREMOLO DEPTH", cc: 24, kind: Kind::Knob },
                Param { name: "TREMOLO ON/OFF", cc: 45, kind: Kind::Switch { off: "Off", on: "On" } },
                Param { name: "NOISE GATE THRESHOLD", cc: 23, kind: Kind::Knob },
                Param { name: "NOISE GATE RELEASE", cc: 22, kind: Kind::Knob },
            ],
        },
        Amp {
            name: "J45",
            params: vec![
                Param { name: "PRESENCE", cc: 13, kind: Kind::Knob },
                Param { name: "BASS", cc: 14, kind: Kind::Knob },
                Param { name: "MIDDLE", cc: 15, kind: Kind::Knob },
                Param { name: "TREBLE", cc: 16, kind: Kind::Knob },
                Param { name: "VOLUME 1", cc: 21, kind: Kind::Knob },
                Param { name: "VOLUME 2", cc: 10, kind: Kind::Knob },
                Param { name: "NOISE GATE THRESHOLD", cc: 112, kind: Kind::Knob },
                Param { name: "NOISE GATE RELEASE", cc: 3, kind: Kind::Knob },
            ],
        },
        Amp {
            name: "Black SR",
            params: vec![
                Param { name: "VOLUME", cc: 13, kind: Kind::Knob },
                Param { name: "TREBLE", cc: 14, kind: Kind::Knob },
                Param { name: "MIDDLE", cc: 15, kind: Kind::Knob },
                Param { name: "BASS", cc: 16, kind: Kind::Knob },
                Param { name: "BRIGHT", cc: 21, kind: Kind::Switch { off: "Off", on: "On" } },
                Param { name: "VIBRATO SPEED", cc: 10, kind: Kind::Knob },
                Param { name: "VIBRATO SYNC", cc: 112, kind: Kind::Knob },
                Param { name: "VIBRATO DEPTH", cc: 3, kind: Kind::Knob },
                Param { name: "VIBRATO ON/OFF", cc: 22, kind: Kind::Switch { off: "Off", on: "On" } },
                Param { name: "NOISE GATE THRESHOLD", cc: 84, kind: Kind::Knob },
                Param { name: "NOISE GATE RELEASE", cc: 24, kind: Kind::Knob },
            ],
        },
        Amp {
            name: "Black Vib",
            params: vec![
                Param { name: "VOLUME", cc: 13, kind: Kind::Knob },
                Param { name: "TREBLE", cc: 14, kind: Kind::Knob },
                Param { name: "MIDDLE", cc: 15, kind: Kind::Knob },
                Param { name: "BASS", cc: 16, kind: Kind::Knob },
                Param { name: "BRIGHT", cc: 21, kind: Kind::Switch { off: "Off", on: "On" } },
                Param { name: "VIBRATO SPEED", cc: 10, kind: Kind::Knob },
                Param { name: "VIBRATO SYNC", cc: 112, kind: Kind::Knob },
                Param { name: "VIBRATO DEPTH", cc: 3, kind: Kind::Knob },
                Param { name: "VIBRATO ON/OFF", cc: 22, kind: Kind::Switch { off: "Off", on: "On" } },
                Param { name: "NOISE GATE THRESHOLD", cc: 84, kind: Kind::Knob },
                Param { name: "NOISE GATE RELEASE", cc: 24, kind: Kind::Knob },
            ],
        },
        Amp {
            name: "Blue Line Bass",
            params: vec![
                Param { name: "VOLUME", cc: 13, kind: Kind::Knob },
                Param { name: "TREBLE", cc: 14, kind: Kind::Knob },
                Param { name: "MIDDLE", cc: 15, kind: Kind::Knob },
                Param { name: "BASS", cc: 16, kind: Kind::Knob },
                Param { name: "ULTRA HI", cc: 21, kind: Kind::Knob },
                Param { name: "ULTRA LO", cc: 10, kind: Kind::Knob },
                Param { name: "BRIGHT", cc: 112, kind: Kind::Switch { off: "Off", on: "On" } },
                Param { name: "MID FREQ", cc: 3, kind: Kind::Knob },
                Param { name: "NOISE GATE THRESHOLD", cc: 84, kind: Kind::Knob },
                Param { name: "NOISE GATE RELEASE", cc: 24, kind: Kind::Knob },
            ],
        },
        Amp {
            name: "MS-30",
            params: vec![
                Param { name: "VOLUME", cc: 13, kind: Kind::Knob },
                Param { name: "BASS", cc: 14, kind: Kind::Knob },
                Param { name: "TREBLE", cc: 15, kind: Kind::Knob },
                Param { name: "CUT", cc: 16, kind: Kind::Knob },
                Param { name: "MASTER", cc: 21, kind: Kind::Knob },
                Param { name: "NOISE GATE THRESHOLD", cc: 10, kind: Kind::Knob },
                Param { name: "NOISE GATE RELEASE", cc: 112, kind: Kind::Knob },
            ],
        },
        Amp {
            name: "RB-01b",
            params: vec![
                Param { name: "PRESENCE", cc: 13, kind: Kind::Knob },
                Param { name: "VOLUME", cc: 14, kind: Kind::Knob },
                Param { name: "TREBLE", cc: 15, kind: Kind::Knob },
                Param { name: "MIDDLE", cc: 16, kind: Kind::Knob },
                Param { name: "BASS", cc: 21, kind: Kind::Knob },
                Param { name: "GAIN", cc: 10, kind: Kind::Knob },
                Param { name: "BRIGHT", cc: 112, kind: Kind::Switch { off: "Off", on: "On" } },
                Param { name: "BOOST", cc: 3, kind: Kind::Knob },
                Param { name: "NOISE GATE THRESHOLD", cc: 84, kind: Kind::Knob },
                Param { name: "NOISE GATE RELEASE", cc: 24, kind: Kind::Knob },
            ],
        },
    ];
    assert(views_of_amps(r@) =~= amp_table());
    r
}

/// All catalogued effects, with per-slot CCs.
pub open spec fn effect_table() -> Seq<EffectView> {
    seq![
        EffectView {
            name: "Black Op Distortion",
            slots: seq![Slot::Fixed],
            params: seq![
                FxParamView { name: "Bypass", kind: Kind::Switch { off: "Off", on: "On" }, cc: seq![25] },
                FxParamView { name: "Distortion", kind: Kind::Knob, cc: seq![27] },
                FxParamView { name: "Cut", kind: Kind::Knob, cc: seq![78] },
                FxParamView { name: "Volume", kind: Kind::Knob, cc: seq![79] },
            ],
        },
        EffectView {
            name: "Green JRC Overdrive",
            slots: seq![Slot::Fixed],
            params: seq![
                FxParamView { name: "Bypass", kind: Kind::Switch { off: "Off", on: "On" }, cc: seq![25] },
                FxParamView { name: "Drive", kind: Kind::Knob, cc: seq![27] },
                FxParamView { name: "Tone", kind: Kind::Knob, cc: seq![78] },
                FxParamView { name: "Level", kind: Kind::Knob, cc: seq![79] },
            ],
        },
        EffectView {
            name: "Tri-Knob Fuzz",
            slots: seq![Slot::Fixed],
            params: seq![
                FxParamView { name: "Bypass", kind: Kind::Switch { off: "Off", on: "On" }, cc: seq![25] },
                FxParamView { name: "Volume", kind: Kind::Knob, cc: seq![27] },
                FxParamView { name: "Sustain", kind: Kind::Knob, cc: seq![78] },
                FxParamView { name: "Tone", kind: Kind::Knob, cc: seq![79] },
            ],
        },
        EffectView {
            name: "White Boost",
            slots: seq![Slot::Fixed],
            params: seq![
                FxParamView { name: "Bypass", kind: Kind::Switch { off: "Off", on: "On" }, cc: seq![25] },
                FxParamView { name: "Gain", kind: Kind::Knob, cc: seq![27] },
                FxParamView { name: "Treble", kind: Kind::Knob, cc: seq![78] },
                FxParamView { name: "Bass", kind: Kind::Knob, cc: seq![79] },
                FxParamView { name: "Volume", kind: Kind::Knob, cc: seq![80] },
            ],
        },
        EffectView {
            name: "DC Distortion",
            slots: seq![Slot::Fixed],
            params: seq![
                FxParamView { name: "Bypass", kind: Kind::Switch { off: "Off", on: "On" }, cc: seq![25] },
                FxParamView { name: "Gain", kind: Kind::Knob, cc: seq![27] },
                FxParamView { name: "Treble", kind: Kind::Knob, cc: seq![78] },
                FxParamView { name: "Bass", kind: Kind::Knob, cc: seq![79] },
                FxParamView { name: "Volume", kind: Kind::Knob, cc: seq![80] },
            ],
        },
        EffectView {
            name: "Black Wah",
            slots: seq![Slot::Fixed],
            params: seq![
                FxParamView { name: "Bypass", kind: Kind::Switch { off: "Off", on: "On" }, cc: seq![43] },
                FxParamView { name: "Position", kind: Kind::Knob, cc: seq![4] },
            ],
        },
        EffectView {
            name: "Shine Wah",
            slots: seq![Slot::Fixed],
            params: seq![
                FxParamView { name: "Bypass", kind: Kind::Switch { off: "Off", on: "On" }, cc: seq![43] },
                FxParamView { name: "Position", kind: Kind::Knob, cc: seq![4] },
            ],
        },
        EffectView {
            name: "Volume Pedal",
            slots: seq![Slot::Fixed],
            params: seq![
                FxParamView { name: "Bypass", kind: Kind::Switch { off: "Off", on: "On" }, cc: seq![75] },
                FxParamView { name: "Position", kind: Kind::Knob, cc: seq![7] },
            ],
        },
        EffectView {
            name: "Tuner",
            slots: seq![Slot::Fixed],
            params: seq![
                FxParamView { name: "Bypass", kind: Kind::Switch { off: "Off", on: "On" }, cc: seq![69] },
            ],
        },
        EffectView {
            name: "BBD Delay",
            slots: seq![Slot::Fixed],
            params: seq![
                FxParamView { name: "Bypass", kind: Kind::Switch { off: "Off", on: "On" }, cc: seq![28] },
                FxParamView { name: "Delay", kind: Kind::Knob, cc: seq![62] },
                FxParamView { name: "Sync", kind: Kind::Stepped(StepTable::FxSync), cc: seq![33] },
                FxParamView { name: "Mix", kind: Kind::Knob, cc: seq![85] },
                FxParamView { name: "Feedback", kind: Kind::Knob, cc: seq![35] },
                FxParamView { name: "Input Level", kind: Kind::Knob, cc: seq![87] },
                FxParamView { name: "Mod", kind: Kind::Switch { off: "Chorus", on: "Vibrato" }, cc: seq![34] },
                FxParamView { name: "Depth", kind: Kind::Knob, cc: seq![48] },
                FxParamView { name: "Noise", kind: Kind::Switch { off: "Off", on: "On" }, cc: seq![55] },
                FxParamView { name: "Expanded Delay", kind: Kind::Switch { off: "Off", on: "On" }, cc: seq![49] },
            ],
        },
        EffectView {
            name: "Tape Echo",
            slots: seq![Slot::Fixed],
            params: seq![
                FxParamView { name: "Bypass", kind: Kind::Switch { off: "Off", on: "On" }, cc: seq![28] },
                FxParamView { name: "Delay", kind: Kind::Knob, cc: seq![62] },
                FxParamView { name: "Sync", kind: Kind::Stepped(StepTable::FxSync), cc: seq![33] },
                FxParamView { name: "Mix", kind: Kind::Knob, cc: seq![85] },
                FxParamView { name: "Feedback", kind: Kind::Knob, cc: seq![35] },
                FxParamView { name: "Rec Level", kind: Kind::Knob, cc: seq![87] },
                FxParamView { name: "Head", kind: Kind::Knob, cc: seq![34] },
                FxParamView { name: "Wow", kind: Kind::Knob, cc: seq![48] },
                FxParamView { name: "Hiss", kind: Kind::Switch { off: "Off", on: "On" }, cc: seq![55] },
                FxParamView { name: "Expanded Delay", kind: Kind::Switch { off: "Off", on: "On" }, cc: seq![49] },
            ],
        },
        EffectView {
            name: "Dyn Delay",
            slots: seq![Slot::Fixed],
            params: seq![
                FxParamView { name: "Bypass", kind: Kind::Switch { off: "Off", on: "On" }, cc: seq![28] },
                FxParamView { name: "Delay", kind: Kind::Knob, cc: seq![62] },
                FxParamView { name: "Sync", kind: Kind::Stepped(StepTable::FxSync), cc: seq![33] },
                FxParamView { name: "Mix", kind: Kind::Knob, cc: seq![85] },
                FxParamView { name: "Feedback", kind: Kind::Knob, cc: seq![35] },
                FxParamView { name: "Mode", kind: Kind::Knob, cc: seq![87] },
                FxParamView { name: "Ratio", kind: Kind::Knob, cc: seq![34] },
                FxParamView { name: "Hi Cut", kind: Kind::Knob, cc: seq![48] },
                FxParamView { name: "Lo Cut", kind: Kind::Knob, cc: seq![49] },
                FxParamView { name: "Width", kind: Kind::Knob, cc: seq![55] },
                FxParamView { name: "EM Rate", kind: Kind::Knob, cc: seq![59] },
                FxParamView { name: "EM Feedback", kind: Kind::Knob, cc: seq![72] },
                FxParamView { name: "EM Mix", kind: Kind::Knob, cc: seq![73] },
            ],
        },
        EffectView {
            name: "Blackpanel Spring Reverb",
            slots: seq![Slot::Fixed],
            params: seq![
                FxParamView { name: "Bypass", kind: Kind::Switch { off: "Off", on: "On" }, cc: seq![36] },
                FxParamView { name: "Mix", kind: Kind::Knob, cc: seq![18] },
                FxParamView { name: "Decay", kind: Kind::Knob, cc: seq![38] },
                FxParamView { name: "Tone", kind: Kind::Knob, cc: seq![40] },
            ],
        },
        EffectView {
            name: "Eleven SR (Stereo Reverb)",
            slots: seq![Slot::Fixed],
            params: seq![
                FxParamView { name: "Bypass", kind: Kind::Switch { off: "Off", on: "On" }, cc: seq![36] },
                FxParamView { name: "Mix", kind: Kind::Knob, cc: seq![18] },
                FxParamView { name: "Decay", kind: Kind::Knob, cc: seq![38] },
                FxParamView { name: "Tone", kind: Kind::Knob, cc: seq![40] },
                FxParamView { name: "Pre-Delay", kind: Kind::Knob, cc: seq![39] },
                FxParamView { name: "Type", kind: Kind::Stepped(StepTable::ReverbType), cc: seq![76] },
            ],
        },
        EffectView {
            name: "FX Loop",
            slots: seq![Slot::Fixed],
            params: seq![
                FxParamView { name: "Bypass", kind: Kind::Switch { off: "Off", on: "On" }, cc: seq![107] },
                FxParamView { name: "Send", kind: Kind::Knob, cc: seq![19] },
                FxParamView { name: "Return", kind: Kind::Knob, cc: seq![108] },
                FxParamView { name: "Mix", kind: Kind::Knob, cc: seq![88] },
            ],
        },
        EffectView {
            name: "C1 Chorus/Vibrato",
            slots: seq![Slot::Mod, Slot::Fx1, Slot::Fx2],
            params: seq![
                FxParamView { name: "Bypass", kind: Kind::Switch { off: "Off", on: "On" }, cc: seq![50, 63, 86] },
                FxParamView { name: "Chorus", kind: Kind::Knob, cc: seq![61, 20, 113] },
                FxParamView { name: "Rate", kind: Kind::Knob, cc: seq![52, 42, 114] },
                FxParamView { name: "Sync", kind: Kind::Stepped(StepTable::FxSync), cc: seq![53, 60, 115] },
                FxParamView { name: "Depth", kind: Kind::Knob, cc: seq![54, 77, 96] },
                FxParamView { name: "Chorus/Vibrato", kind: Kind::Switch { off: "Chorus", on: "Vibrato" }, cc: seq![57, 116, 97] },
            ],
        },
        EffectView {
            name: "Flanger",
            slots: seq![Slot::Mod, Slot::Fx1, Slot::Fx2],
            params: seq![
                FxParamView { name: "Bypass", kind: Kind::Switch { off: "Off", on: "On" }, cc: seq![50, 63, 86] },
                FxParamView { name: "Pre-Delay", kind: Kind::Knob, cc: seq![61, 20, 113] },
                FxParamView { name: "Depth", kind: Kind::Knob, cc: seq![52, 42, 114] },
                FxParamView { name: "Rate", kind: Kind::Knob, cc: seq![53, 60, 115] },
                FxParamView { name: "Sync", kind: Kind::Stepped(StepTable::FxSync), cc: seq![54, 77, 96] },
                FxParamView { name: "Feedback", kind: Kind::Knob, cc: seq![57, 116, 97] },
            ],
        },
        EffectView {
            name: "Orange Phaser",
            slots: seq![Slot::Mod, Slot::Fx1, Slot::Fx2],
            params: seq![
                FxParamView { name: "Bypass", kind: Kind::Switch { off: "Off", on: "On" }, cc: seq![50, 63, 86] },
                FxParamView { name: "Rate", kind: Kind::Knob, cc: seq![61, 20, 113] },
                FxParamView { name: "Sync", kind: Kind::Stepped(StepTable::FxSync), cc: seq![52, 42, 114] },
            ],
        },
        EffectView {
            name: "Roto Speaker",
            slots: seq![Slot::Mod, Slot::Fx1, Slot::Fx2],
            params: seq![
                FxParamView { name: "Bypass", kind: Kind::Switch { off: "Off", on: "On" }, cc: seq![50, 63, 86] },
                FxParamView { name: "Speed", kind: Kind::Stepped(StepTable::RotoSpeed), cc: seq![61, 20, 113] },
                FxParamView { name: "Balance", kind: Kind::Knob, cc: seq![52, 42, 114] },
                FxParamView { name: "Type", kind: Kind::Stepped(StepTable::RotoType), cc: seq![53, 60, 115] },
            ],
        },
        EffectView {
            name: "Vibe Phaser",
            slots: seq![Slot::Mod, Slot::Fx1, Slot::Fx2],
            params: seq![
                FxParamView { name: "Bypass", kind: Kind::Switch { off: "Off", on: "On" }, cc: seq![50, 63, 86] },
                FxParamView { name: "Volume", kind: Kind::Knob, cc: seq![61, 20, 113] },
                FxParamView { name: "Depth", kind: Kind::Knob, cc: seq![52, 42, 114] },
                FxParamView { name: "Rate", kind: Kind::Knob, cc: seq![53, 60, 115] },
                FxParamView { name: "Sync", kind: Kind::Stepped(StepTable::FxSync), cc: seq![54, 77, 96] },
                FxParamView { name: "Chorus/Vibrato", kind: Kind::Switch { off: "Chorus", on: "Vibrato" }, cc: seq![57, 116, 97] },
            ],
        },
        EffectView {
            name: "Multi Chorus",
            slots: seq![Slot::Mod, Slot::Fx1, Slot::Fx2],
            params: seq![
                FxParamView { name: "Bypass", kind: Kind::Switch { off: "Off", on: "On" }, cc: seq![50, 63, 86] },
                FxParamView { name: "Rate", kind: Kind::Knob, cc: seq![61, 20, 113] },
                FxParamView { name: "Sync", kind: Kind::Stepped(StepTable::FxSync), cc: seq![52, 42, 114] },
                FxParamView { name: "Depth", kind: Kind::Knob, cc: seq![53, 60, 115] },
                FxParamView { name: "Pre-Delay", kind: Kind::Knob, cc: seq![54, 77, 96] },
                FxParamView { name: "Mix", kind: Kind::Knob, cc: seq![57, 116, 97] },
                FxParamView { name: "Triangle/Sine", kind: Kind::Switch { off: "Triangle", on: "Sine" }, cc: seq![51, 117, 98] },
                FxParamView { name: "Voices", kind: Kind::Knob, cc: seq![56, 118, 99] },
                FxParamView { name: "Lo Cut", kind: Kind::Knob, cc: seq![89, 89, 89] },
                FxParamView { name: "Width", kind: Kind::Knob, cc: seq![90, 90, 90] },
            ],
        },
        EffectView {
            name: "Graphic EQ",
            slots: seq![Slot::Fx1, Slot::Fx2],
            params: seq![
                FxParamView { name: "Bypass", kind: Kind::Switch { off: "Off", on: "On" }, cc: seq![63, 86] },
                FxParamView { name: "100 Hz", kind: Kind::Knob, cc: seq![20, 113] },
                FxParamView { name: "370 Hz", kind: Kind::Knob, cc: seq![42, 114] },
                FxParamView { name: "800 Hz", kind: Kind::Knob, cc: seq![60, 115] },
                FxParamView { name: "2 kHz", kind: Kind::Knob, cc: seq![77, 96] },
                FxParamView { name: "3.25 kHz", kind: Kind::Knob, cc: seq![116, 97] },
                FxParamView { name: "Output", kind: Kind::Knob, cc: seq![117, 98] },
            ],
        },
        EffectView {
            name: "Parametric EQ",
            slots: seq![Slot::Fx1, Slot::Fx2],
            params: seq![
                FxParamView { name: "Bypass", kind: Kind::Switch { off: "Off", on: "On" }, cc: seq![63, 86] },
                FxParamView { name: "L Gain", kind: Kind::Knob, cc: seq![20, 113] },
                FxParamView { name: "LM Gain", kind: Kind::Knob, cc: seq![42, 114] },
                FxParamView { name: "HM Gain", kind: Kind::Knob, cc: seq![77, 96] },
                FxParamView { name: "H Gain", kind: Kind::Knob, cc: seq![116, 97] },
                FxParamView { name: "Output", kind: Kind::Knob, cc: seq![117, 98] },
                FxParamView { name: "L Freq", kind: Kind::Knob, cc: seq![118, 99] },
                FxParamView { name: "L Q", kind: Kind::Knob, cc: seq![5, 37] },
                FxParamView { name: "LM Freq", kind: Kind::Knob, cc: seq![119, 46] },
                FxParamView { name: "LM Q", kind: Kind::Knob, cc: seq![9, 47] },
                FxParamView { name: "HM Freq", kind: Kind::Knob, cc: seq![12, 58] },
                FxParamView { name: "HM Q", kind: Kind::Knob, cc: seq![26, 109] },
                FxParamView { name: "H Freq", kind: Kind::Knob, cc: seq![29, 110] },
                FxParamView { name: "H Q", kind: Kind::Knob, cc: seq![30, 70] },
            ],
        },
        EffectView {
            name: "Gray Compressor",
            slots: seq![Slot::Fx1, Slot::Fx2],
            params: seq![
                FxParamView { name: "Bypass", kind: Kind::Switch { off: "Off", on: "On" }, cc: seq![63, 86] },
                FxParamView { name: "Sustain", kind: Kind::Knob, cc: seq![20, 113] },
                FxParamView { name: "Level", kind: Kind::Knob, cc: seq![42, 114] },
            ],
        },
        EffectView {
            name: "Dyn3 Compressor",
            slots: seq![Slot::Fx1, Slot::Fx2],
            params: seq![
                FxParamView { name: "Bypass", kind: Kind::Switch { off: "Off", on: "On" }, cc: seq![63, 86] },
                FxParamView { name: "Threshold", kind: Kind::Knob, cc: seq![20, 113] },
                FxParamView { name: "Attack", kind: Kind::Knob, cc: seq![42, 114] },
                FxParamView { name: "Release", kind: Kind::Knob, cc: seq![60, 115] },
                FxParamView { name: "Gain", kind: Kind::Knob, cc: seq![77, 96] },
                FxParamView { name: "Ratio", kind: Kind::Knob, cc: seq![116, 97] },
                FxParamView { name: "Knee", kind: Kind::Knob, cc: seq![117, 98] },
            ],
        },
    ]
}

/// All catalogued effects.
pub fn effects() -> (r: Vec<Effect>)
    ensures
        views_of_effects(r@) == effect_table(),
{
    let r = vec![
        Effect {
            name: "Black Op Distortion",
            slots: vec![Slot::Fixed],
            params: vec![
                FxParam { name: "Bypass", kind: Kind::Switch { off: "Off", on: "On" }, cc: vec![25] },
                FxParam { name: "Distortion", kind: Kind::Knob, cc: vec![27] },
                FxParam { name: "Cut", kind: Kind::Knob, cc: vec![78] },
                FxParam { name: "Volume", kind: Kind::Knob, cc: vec![79] },
            ],
        },
        Effect {
            name: "Green JRC Overdrive",
            slots: vec![Slot::Fixed],
            params: vec![
                FxParam { name: "Bypass", kind: Kind::Switch { off: "Off", on: "On" }, cc: vec![25] },
                FxParam { name: "Drive", kind: Kind::Knob, cc: vec![27] },
                FxParam { name: "Tone", kind: Kind::Knob, cc: vec![78] },
                FxParam { name: "Level", kind: Kind::Knob, cc: vec![79] },
            ],
        },
        Effect {
            name: "Tri-Knob Fuzz",
            slots: vec![Slot::Fixed],
            params: vec![
                FxParam { name: "Bypass", kind: Kind::Switch { off: "Off", on: "On" }, cc: vec![25] },
                FxParam { name: "Volume", kind: Kind::Knob, cc: vec![27] },
                FxParam { name: "Sustain", kind: Kind::Knob, cc: vec![78] },
                FxParam { name: "Tone", kind: Kind::Knob, cc: vec![79] },
            ],
        },
        Effect {
            name: "White Boost",
            slots: vec![Slot::Fixed],
            params: vec![
                FxParam { name: "Bypass", kind: Kind::Switch { off: "Off", on: "On" }, cc: vec![25] },
                FxParam { name: "Gain", kind: Kind::Knob, cc: vec![27] },
                FxParam { name: "Treble", kind: Kind::Knob, cc: vec![78] },
                FxParam { name: "Bass", kind: Kind::Knob, cc: vec![79] },
                FxParam { name: "Volume", kind: Kind::Knob, cc: vec![80] },
            ],
        },
        Effect {
            name: "DC Distortion",
            slots: vec![Slot::Fixed],
            params: vec![
                FxParam { name: "Bypass", kind: Kind::Switch { off: "Off", on: "On" }, cc: vec![25] },
                FxParam { name: "Gain", kind: Kind::Knob, cc: vec![27] },
                FxParam { name: "Treble", kind: Kind::Knob, cc: vec![78] },
                FxParam { name: "Bass", kind: Kind::Knob, cc: vec![79] },
                FxParam { name: "Volume", kind: Kind::Knob, cc: vec![80] },
            ],
        },
        Effect {
            name: "Black Wah",
            slots: vec![Slot::Fixed],
            params: vec![
                FxParam { name: "Bypass", kind: Kind::Switch { off: "Off", on: "On" }, cc: vec![43] },
                FxParam { name: "Position", kind: Kind::Knob, cc: vec![4] },
            ],
        },
        Effect {
            name: "Shine Wah",
            slots: vec![Slot::Fixed],
            params: vec![
                FxParam { name: "Bypass", kind: Kind::Switch { off: "Off", on: "On" }, cc: vec![43] },
                FxParam { name: "Position", kind: Kind::Knob, cc: vec![4] },
            ],
        },
        Effect {
            name: "Volume Pedal",
            slots: vec![Slot::Fixed],
            params: vec![
                FxParam { name: "Bypass", kind: Kind::Switch { off: "Off", on: "On" }, cc: vec![75] },
                FxParam { name: "Position", kind: Kind::Knob, cc: vec![7] },
            ],
        },
        Effect {
            name: "Tuner",
            slots: vec![Slot::Fixed],
            params: vec![
                FxParam { name: "Bypass", kind: Kind::Switch { off: "Off", on: "On" }, cc: vec![69] },
            ],
        },
        Effect {
            name: "BBD Delay",
            slots: vec![Slot::Fixed],
            params: vec![
                FxParam { name: "Bypass", kind: Kind::Switch { off: "Off", on: "On" }, cc: vec![28] },
                FxParam { name: "Delay", kind: Kind::Knob, cc: vec![62] },
                FxParam { name: "Sync", kind: Kind::Stepped(StepTable::FxSync), cc: vec![33] },
                FxParam { name: "Mix", kind: Kind::Knob, cc: vec![85] },
                FxParam { name: "Feedback", kind: Kind::Knob, cc: vec![35] },
                FxParam { name: "Input Level", kind: Kind::Knob, cc: vec![87] },
                FxParam { name: "Mod", kind: Kind::Switch { off: "Chorus", on: "Vibrato" }, cc: vec![34] },
                FxParam { name: "Depth", kind: Kind::Knob, cc: vec![48] },
                FxParam { name: "Noise", kind: Kind::Switch { off: "Off", on: "On" }, cc: vec![55] },
                FxParam { name: "Expanded Delay", kind: Kind::Switch { off: "Off", on: "On" }, cc: vec![49] },
            ],
        },
        Effect {
            name: "Tape Echo",
            slots: vec![Slot::Fixed],
            params: vec![
                FxParam { name: "Bypass", kind: Kind::Switch { off: "Off", on: "On" }, cc: vec![28] },
                FxParam { name: "Delay", kind: Kind::Knob, cc: vec![62] },
                FxParam { name: "Sync", kind: Kind::Stepped(StepTable::FxSync), cc: vec![33] },
                FxParam { name: "Mix", kind: Kind::Knob, cc: vec![85] },
                FxParam { name: "Feedback", kind: Kind::Knob, cc: vec![35] },
                FxParam { name: "Rec Level", kind: Kind::Knob, cc: vec![87] },
                FxParam { name: "Head", kind: Kind::Knob, cc: vec![34] },
                FxParam { name: "Wow", kind: Kind::Knob, cc: vec![48] },
                FxParam { name: "Hiss", kind: Kind::Switch { off: "Off", on: "On" }, cc: vec![55] },
                FxParam { name: "Expanded Delay", kind: Kind::Switch { off: "Off", on: "On" }, cc: vec![49] },
            ],
        },
        Effect {
            name: "Dyn Delay",
            slots: vec![Slot::Fixed],
            params: vec![
                FxParam { name: "Bypass", kind: Kind::Switch { off: "Off", on: "On" }, cc: vec![28] },
                FxParam { name: "Delay", kind: Kind::Knob, cc: vec![62] },
                FxParam { name: "Sync", kind: Kind::Stepped(StepTable::FxSync), cc: vec![33] },
                FxParam { name: "Mix", kind: Kind::Knob, cc: vec![85] },
                FxParam { name: "Feedback", kind: Kind::Knob, cc: vec![35] },
                FxParam { name: "Mode", kind: Kind::Knob, cc: vec![87] },
                FxParam { name: "Ratio", kind: Kind::Knob, cc: vec![34] },
                FxParam { name: "Hi Cut", kind: Kind::Knob, cc: vec![48] },
                FxParam { name: "Lo Cut", kind: Kind::Knob, cc: vec![49] },
                FxParam { name: "Width", kind: Kind::Knob, cc: vec![55] },
                FxParam { name: "EM Rate", kind: Kind::Knob, cc: vec![59] },
                FxParam { name: "EM Feedback", kind: Kind::Knob, cc: vec![72] },
                FxParam { name: "EM Mix", kind: Kind::Knob, cc: vec![73] },
            ],
        },
        Effect {
            name: "Blackpanel Spring Reverb",
            slots: vec![Slot::Fixed],
            params: vec![
                FxParam { name: "Bypass", kind: Kind::Switch { off: "Off", on: "On" }, cc: vec![36] },
                FxParam { name: "Mix", kind: Kind::Knob, cc: vec![18] },
                FxParam { name: "Decay", kind: Kind::Knob, cc: vec![38] },
                FxParam { name: "Tone", kind: Kind::Knob, cc: vec![40] },
            ],
        },
        Effect {
            name: "Eleven SR (Stereo Reverb)",
            slots: vec![Slot::Fixed],
            params: vec![
                FxParam { name: "Bypass", kind: Kind::Switch { off: "Off", on: "On" }, cc: vec![36] },
                FxParam { name: "Mix", kind: Kind::Knob, cc: vec![18] },
                FxParam { name: "Decay", kind: Kind::Knob, cc: vec![38] },
                FxParam { name: "Tone", kind: Kind::Knob, cc: vec![40] },
                FxParam { name: "Pre-Delay", kind: Kind::Knob, cc: vec![39] },
                FxParam { name: "Type", kind: Kind::Stepped(StepTable::ReverbType), cc: vec![76] },
            ],
        },
        Effect {
            name: "FX Loop",
            slots: vec![Slot::Fixed],
            params: vec![
                FxParam { name: "Bypass", kind: Kind::Switch { off: "Off", on: "On" }, cc: vec![107] },
                FxParam { name: "Send", kind: Kind::Knob, cc: vec![19] },
                FxParam { name: "Return", kind: Kind::Knob, cc: vec![108] },
                FxParam { name: "Mix", kind: Kind::Knob, cc: vec![88] },
            ],
        },
        Effect {
            name: "C1 Chorus/Vibrato",
            slots: vec![Slot::Mod, Slot::Fx1, Slot::Fx2],
            params: vec![
                FxParam { name: "Bypass", kind: Kind::Switch { off: "Off", on: "On" }, cc: vec![50, 63, 86] },
                FxParam { name: "Chorus", kind: Kind::Knob, cc: vec![61, 20, 113] },
                FxParam { name: "Rate", kind: Kind::Knob, cc: vec![52, 42, 114] },
                FxParam { name: "Sync", kind: Kind::Stepped(StepTable::FxSync), cc: vec![53, 60, 115] },
                FxParam { name: "Depth", kind: Kind::Knob, cc: vec![54, 77, 96] },
                FxParam { name: "Chorus/Vibrato", kind: Kind::Switch { off: "Chorus", on: "Vibrato" }, cc: vec![57, 116, 97] },
            ],
        },
        Effect {
            name: "Flanger",
            slots: vec![Slot::Mod, Slot::Fx1, Slot::Fx2],
            params: vec![
                FxParam { name: "Bypass", kind: Kind::Switch { off: "Off", on: "On" }, cc: vec![50, 63, 86] },
                FxParam { name: "Pre-Delay", kind: Kind::Knob, cc: vec![61, 20, 113] },
                FxParam { name: "Depth", kind: Kind::Knob, cc: vec![52, 42, 114] },
                FxParam { name: "Rate", kind: Kind::Knob, cc: vec![53, 60, 115] },
                FxParam { name: "Sync", kind: Kind::Stepped(StepTable::FxSync), cc: vec![54, 77, 96] },
                FxParam { name: "Feedback", kind: Kind::Knob, cc: vec![57, 116, 97] },
            ],
        },
        Effect {
            name: "Orange Phaser",
            slots: vec![Slot::Mod, Slot::Fx1, Slot::Fx2],
            params: vec![
                FxParam { name: "Bypass", kind: Kind::Switch { off: "Off", on: "On" }, cc: vec![50, 63, 86] },
                FxParam { name: "Rate", kind: Kind::Knob, cc: vec![61, 20, 113] },
                FxParam { name: "Sync", kind: Kind::Stepped(StepTable::FxSync), cc: vec![52, 42, 114] },
            ],
        },
        Effect {
            name: "Roto Speaker",
            slots: vec![Slot::Mod, Slot::Fx1, Slot::Fx2],
            params: vec![
                FxParam { name: "Bypass", kind: Kind::Switch { off: "Off", on: "On" }, cc: vec![50, 63, 86] },
                FxParam { name: "Speed", kind: Kind::Stepped(StepTable::RotoSpeed), cc: vec![61, 20, 113] },
                FxParam { name: "Balance", kind: Kind::Knob, cc: vec![52, 42, 114] },
                FxParam { name: "Type", kind: Kind::Stepped(StepTable::RotoType), cc: vec![53, 60, 115] },
            ],
        },
        Effect {
            name: "Vibe Phaser",
            slots: vec![Slot::Mod, Slot::Fx1, Slot::Fx2],
            params: vec![
                FxParam { name: "Bypass", kind: Kind::Switch { off: "Off", on: "On" }, cc: vec![50, 63, 86] },
                FxParam { name: "Volume", kind: Kind::Knob, cc: vec![61, 20, 113] },
                FxParam { name: "Depth", kind: Kind::Knob, cc: vec![52, 42, 114] },
                FxParam { name: "Rate", kind: Kind::Knob, cc: vec![53, 60, 115] },
                FxParam { name: "Sync", kind: Kind::Stepped(StepTable::FxSync), cc: vec![54, 77, 96] },
                FxParam { name: "Chorus/Vibrato", kind: Kind::Switch { off: "Chorus", on: "Vibrato" }, cc: vec![57, 116, 97] },
            ],
        },
        Effect {
            name: "Multi Chorus",
            slots: vec![Slot::Mod, Slot::Fx1, Slot::Fx2],
            params: vec![
                FxParam { name: "Bypass", kind: Kind::Switch { off: "Off", on: "On" }, cc: vec![50, 63, 86] },
                FxParam { name: "Rate", kind: Kind::Knob, cc: vec![61, 20, 113] },
                FxParam { name: "Sync", kind: Kind::Stepped(StepTable::FxSync), cc: vec![52, 42, 114] },
                FxParam { name: "Depth", kind: Kind::Knob, cc: vec![53, 60, 115] },
                FxParam { name: "Pre-Delay", kind: Kind::Knob, cc: vec![54, 77, 96] },
                FxParam { name: "Mix", kind: Kind::Knob, cc: vec![57, 116, 97] },
                FxParam { name: "Triangle/Sine", kind: Kind::Switch { off: "Triangle", on: "Sine" }, cc: vec![51, 117, 98] },
                FxParam { name: "Voices", kind: Kind::Knob, cc: vec![56, 118, 99] },
                FxParam { name: "Lo Cut", kind: Kind::Knob, cc: vec![89, 89, 89] },
                FxParam { name: "Width", kind: Kind::Knob, cc: vec![90, 90, 90] },
            ],
        },
        Effect {
            name: "Graphic EQ",
            slots: vec![Slot::Fx1, Slot::Fx2],
            params: vec![
                FxParam { name: "Bypass", kind: Kind::Switch { off: "Off", on: "On" }, cc: vec![63, 86] },
                FxParam { name: "100 Hz", kind: Kind::Knob, cc: vec![20, 113] },
                FxParam { name: "370 Hz", kind: Kind::Knob, cc: vec![42, 114] },
                FxParam { name: "800 Hz", kind: Kind::Knob, cc: vec![60, 115] },
                FxParam { name: "2 kHz", kind: Kind::Knob, cc: vec![77, 96] },
                FxParam { name: "3.25 kHz", kind: Kind::Knob, cc: vec![116, 97] },
                FxParam { name: "Output", kind: Kind::Knob, cc: vec![117, 98] },
            ],
        },
        Effect {
            name: "Parametric EQ",
            slots: vec![Slot::Fx1, Slot::Fx2],
            params: vec![
                FxParam { name: "Bypass", kind: Kind::Switch { off: "Off", on: "On" }, cc: vec![63, 86] },
                FxParam { name: "L Gain", kind: Kind::Knob, cc: vec![20, 113] },
                FxParam { name: "LM Gain", kind: Kind::Knob, cc: vec![42, 114] },
                FxParam { name: "HM Gain", kind: Kind::Knob, cc: vec![77, 96] },
                FxParam { name: "H Gain", kind: Kind::Knob, cc: vec![116, 97] },
                FxParam { name: "Output", kind: Kind::Knob, cc: vec![117, 98] },
                FxParam { name: "L Freq", kind: Kind::Knob, cc: vec![118, 99] },
                FxParam { name: "L Q", kind: Kind::Knob, cc: vec![5, 37] },
                FxParam { name: "LM Freq", kind: Kind::Knob, cc: vec![119, 46] },
                FxParam { name: "LM Q", kind: Kind::Knob, cc: vec![9, 47] },
                FxParam { name: "HM Freq", kind: Kind::Knob, cc: vec![12, 58] },
                FxParam { name: "HM Q", kind: Kind::Knob, cc: vec![26, 109] },
                FxParam { name: "H Freq", kind: Kind::Knob, cc: vec![29, 110] },
                FxParam { name: "H Q", kind: Kind::Knob, cc: vec![30, 70] },
            ],
        },
        Effect {
            name: "Gray Compressor",
            slots: vec![Slot::Fx1, Slot::Fx2],
            params: vec![
                FxParam { name: "Bypass", kind: Kind::Switch { off: "Off", on: "On" }, cc: vec![63, 86] },
                FxParam { name: "Sustain", kind: Kind::Knob, cc: vec![20, 113] },
                FxParam { name: "Level", kind: Kind::Knob, cc: vec![42, 114] },
            ],
        },
        Effect {
            name: "Dyn3 Compressor",
            slots: vec![Slot::Fx1, Slot::Fx2],
            params: vec![
                FxParam { name: "Bypass", kind: Kind::Switch { off: "Off", on: "On" }, cc: vec![63, 86] },
                FxParam { name: "Threshold", kind: Kind::Knob, cc: vec![20, 113] },
                FxParam { name: "Attack", kind: Kind::Knob, cc: vec![42, 114] },
                FxParam { name: "Release", kind: Kind::Knob, cc: vec![60, 115] },
                FxParam { name: "Gain", kind: Kind::Knob, cc: vec![77, 96] },
                FxParam { name: "Ratio", kind: Kind::Knob, cc: vec![116, 97] },
                FxParam { name: "Knee", kind: Kind::Knob, cc: vec![117, 98] },
            ],
        },
    ];
    assert(views_of_effects(r@) =~~= effect_table());
    r
}

} // verus!

verus! {

/// Every amp control from position `j` on has a 7-bit CC.
pub open spec fn amp_params_ok(ps: Seq<Param>, j: nat) -> bool
    decreases ps.len() - j,
{
    if j >= ps.len() {
        true
    } else {
        ps[j as int].cc <= 127 && amp_params_ok(ps, j + 1)
    }
}

/// Every amp model from position `i` on has 7-bit CCs.
pub open spec fn amps_ok(s: Seq<AmpView>, i: nat) -> bool
    decreases s.len() - i,
{
    if i >= s.len() {
        true
    } else {
        amp_params_ok(s[i as int].params, 0) && amps_ok(s, i + 1)
    }
}

/// Every CC of a per-slot array from position `k` on is 7-bit.
pub open spec fn ccs_ok(cc: Seq<u8>, k: nat) -> bool
    decreases cc.len() - k,
{
    if k >= cc.len() {
        true
    } else {
        cc[k as int] <= 127 && ccs_ok(cc, k + 1)
    }
}

/// Every effect control from position `j` on has one 7-bit CC per slot.
pub open spec fn fx_params_ok(ps: Seq<FxParamView>, slots: nat, j: nat) -> bool
    decreases ps.len() - j,
{
    if j >= ps.len() {
        true
    } else {
        ps[j as int].cc.len() == slots && ccs_ok(ps[j as int].cc, 0) && fx_params_ok(ps, slots, j + 1)
    }
}

/// Every effect from position `i` on has aligned 7-bit CCs.
pub open spec fn effects_ok(s: Seq<EffectView>, i: nat) -> bool
    decreases s.len() - i,
{
    if i >= s.len() {
        true
    } else {
        fx_params_ok(s[i as int].params, s[i as int].slots.len(), 0) && effects_ok(s, i + 1)
    }
}

proof fn lemma_amp_params_ok(ps: Seq<Param>, j: nat, k: int)
    requires
        amp_params_ok(ps, j),
        j <= k < ps.len(),
    ensures
        ps[k].cc <= 127,
    decreases k - j,
{
    if j < k {
        lemma_amp_params_ok(ps, j + 1, k);
    }
}

proof fn lemma_amps_ok(s: Seq<AmpView>, i: nat, k: int)
    requires
        amps_ok(s, i),
        i <= k < s.len(),
    ensures
        amp_params_ok(s[k].params, 0),
    decreases k - i,
{
    if i < k {
        lemma_amps_ok(s, i + 1, k);
    }
}

proof fn lemma_ccs_ok(cc: Seq<u8>, k: nat, m: int)
    requires
        ccs_ok(cc, k),
        k <= m < cc.len(),
    ensures
        cc[m] <= 127,
    decreases m - k,
{
    if k < m {
        lemma_ccs_ok(cc, k + 1, m);
    }
}

proof fn lemma_fx_params_ok(ps: Seq<FxParamView>, slots: nat, j: nat, k: int)
    requires
        fx_params_ok(ps, slots, j),
        j <= k < ps.len(),
    ensures
        ps[k].cc.len() == slots,
        ccs_ok(ps[k].cc, 0),
    decreases k - j,
{
    if j < k {
        lemma_fx_params_ok(ps, slots, j + 1, k);
    }
}

proof fn lemma_effects_ok(s: Seq<EffectView>, i: nat, k: int)
    requires
        effects_ok(s, i),
        i <= k < s.len(),
    ensures
        fx_params_ok(s[k].params, s[k].slots.len(), 0),
    decreases k - i,
{
    if i < k {
        lemma_effects_ok(s, i + 1, k);
    }
}

#[verifier::rlimit(100)]
#[verifier::spinoff_prover]
proof fn lemma_amp_table_ok()
    ensures
        amps_ok(amp_table(), 0),
{
    reveal_with_fuel(amps_ok, 23);
    reveal_with_fuel(amp_params_ok, 14);
}

#[verifier::rlimit(100)]
#[verifier::spinoff_prover]
proof fn lemma_effect_table_ok()
    ensures
        effects_ok(effect_table(), 0),
{
    reveal_with_fuel(effects_ok, 26);
    reveal_with_fuel(fx_params_ok, 15);
    reveal_with_fuel(ccs_ok, 4);
}

/// The catalog is well formed: every amp control's CC is a 7-bit value, and
/// every effect control carries exactly one 7-bit CC per slot its effect can
/// occupy.
pub proof fn lemma_catalog_well_formed()
    ensures
        forall|i: int, j: int|
            0 <= i < amp_table().len() && 0 <= j < amp_table()[i].params.len()
                ==> #[trigger] amp_table()[i].params[j].cc <= 127,
        forall|i: int, j: int|
            0 <= i < effect_table().len() && 0 <= j < effect_table()[i].params.len()
                ==> #[trigger] effect_table()[i].params[j].cc.len() == effect_table()[i].slots.len(),
        forall|i: int, j: int, k: int|
            0 <= i < effect_table().len() && 0 <= j < effect_table()[i].params.len() && 0 <= k
                < effect_table()[i].params[j].cc.len() ==> #[trigger] effect_table()[i].params[j].cc[k]
                <= 127,
{
    lemma_amp_table_ok();
    lemma_effect_table_ok();
    assert forall|i: int, j: int|
        0 <= i < amp_table().len() && 0 <= j < amp_table()[i].params.len() implies #[trigger] amp_table()[i].params[j].cc
            <= 127 by {
        lemma_amps_ok(amp_table(), 0, i);
        lemma_amp_params_ok(amp_table()[i].params, 0, j);
    }
    assert forall|i: int, j: int|
        0 <= i < effect_table().len() && 0 <= j < effect_table()[i].params.len() implies #[trigger] effect_table()[i].params[j].cc.len()
            == effect_table()[i].slots.len() by {
        lemma_effects_ok(effect_table(), 0, i);
        lemma_fx_params_ok(effect_table()[i].params, effect_table()[i].slots.len(), 0, j);
    }
    assert forall|i: int, j: int, k: int|
        0 <= i < effect_table().len() && 0 <= j < effect_table()[i].params.len() && 0 <= k
            < effect_table()[i].params[j].cc.len() implies #[trigger] effect_table()[i].params[j].cc[k]
            <= 127 by {
        lemma_effects_ok(effect_table(), 0, i);
        lemma_fx_params_ok(effect_table()[i].params, effect_table()[i].slots.len(), 0, j);
        lemma_ccs_ok(effect_table()[i].params[j].cc, 0, k);
    }
}

/// The tempo-sync note divisions by raw value: each range of `0..=127` describes as its label.
pub proof fn lemma_fx_sync_labels(raw: u8)
    ensures
        raw <= 4 ==> describe_spec(Kind::Stepped(StepTable::FxSync), raw) == "Off"@,
        5 <= raw <= 14 ==> describe_spec(Kind::Stepped(StepTable::FxSync), raw) == "Whole Note"@,
        15 <= raw <= 24 ==> describe_spec(Kind::Stepped(StepTable::FxSync), raw) == "Dotted Half Note"@,
        25 <= raw <= 34 ==> describe_spec(Kind::Stepped(StepTable::FxSync), raw) == "Half Note"@,
        35 <= raw <= 44 ==> describe_spec(Kind::Stepped(StepTable::FxSync), raw) == "Half Note Triplet"@,
        45 <= raw <= 54 ==> describe_spec(Kind::Stepped(StepTable::FxSync), raw) == "Dotted Quarter Note"@,
        55 <= raw <= 63 ==> describe_spec(Kind::Stepped(StepTable::FxSync), raw) == "Quarter Note"@,
        64 <= raw <= 73 ==> describe_spec(Kind::Stepped(StepTable::FxSync), raw) == "Quarter Note Triplet"@,
        74 <= raw <= 83 ==> describe_spec(Kind::Stepped(StepTable::FxSync), raw) == "Dotted Eighth Note"@,
        84 <= raw <= 93 ==> describe_spec(Kind::Stepped(StepTable::FxSync), raw) == "Eighth Note"@,
        94 <= raw <= 103 ==> describe_spec(Kind::Stepped(StepTable::FxSync), raw) == "Eighth Note Triplet"@,
        104 <= raw <= 113 ==> describe_spec(Kind::Stepped(StepTable::FxSync), raw) == "Dotted Sixteenth Note"@,
        114 <= raw <= 123 ==> describe_spec(Kind::Stepped(StepTable::FxSync), raw) == "Sixteenth Note"@,
        124 <= raw <= 127 ==> describe_spec(Kind::Stepped(StepTable::FxSync), raw) == "Sixteenth Note Triplet"@,
{
    let t = step_table(StepTable::FxSync);
    let p = step_contains(raw);
    assert(t[0] == Step { label: "Off", lo: 0, hi: 4 });
    assert(t[1] == Step { label: "Whole Note", lo: 5, hi: 14 });
    assert(t[2] == Step { label: "Dotted Half Note", lo: 15, hi: 24 });
    assert(t[3] == Step { label: "Half Note", lo: 25, hi: 34 });
    assert(t[4] == Step { label: "Half Note Triplet", lo: 35, hi: 44 });
    assert(t[5] == Step { label: "Dotted Quarter Note", lo: 45, hi: 54 });
    assert(t[6] == Step { label: "Quarter Note", lo: 55, hi: 63 });
    assert(t[7] == Step { label: "Quarter Note Triplet", lo: 64, hi: 73 });
    assert(t[8] == Step { label: "Dotted Eighth Note", lo: 74, hi: 83 });
    assert(t[9] == Step { label: "Eighth Note", lo: 84, hi: 93 });
    assert(t[10] == Step { label: "Eighth Note Triplet", lo: 94, hi: 103 });
    assert(t[11] == Step { label: "Dotted Sixteenth Note", lo: 104, hi: 113 });
    assert(t[12] == Step { label: "Sixteenth Note", lo: 114, hi: 123 });
    assert(t[13] == Step { label: "Sixteenth Note Triplet", lo: 124, hi: 127 });
    if raw <= 127 {
        let k: int = if raw <= 4 { 0 } else if raw <= 14 { 1 } else if raw <= 24 { 2 } else if raw <= 34 { 3 } else if raw <= 44 { 4 } else if raw <= 54 { 5 } else if raw <= 63 { 6 } else if raw <= 73 { 7 } else if raw <= 83 { 8 } else if raw <= 93 { 9 } else if raw <= 103 { 10 } else if raw <= 113 { 11 } else if raw <= 123 { 12 } else { 13 };
        assert forall|j: int| 0 <= j < k implies !p(#[trigger] t[j]) by {
            if j == 0 {} else if j == 1 {} else if j == 2 {} else if j == 3 {} else if j == 4 {} else if j == 5 {} else if j == 6 {} else if j == 7 {} else if j == 8 {} else if j == 9 {} else if j == 10 {} else if j == 11 {} else if j == 12 {} else if j == 13 {}
        }
        assert(p(t[k])) by {
            if k == 0 {} else if k == 1 {} else if k == 2 {} else if k == 3 {} else if k == 4 {} else if k == 5 {} else if k == 6 {} else if k == 7 {} else if k == 8 {} else if k == 9 {} else if k == 10 {} else if k == 11 {} else if k == 12 {} else if k == 13 {}
        }
        assert(is_first(t, p, k));
        lemma_first_at(t, p, k);
    }
}

/// The Eleven SR reverb types by raw value: each range of `0..=127` describes as its label.
pub proof fn lemma_reverb_type_labels(raw: u8)
    ensures
        raw <= 2 ==> describe_spec(Kind::Stepped(StepTable::ReverbType), raw) == "Echo Room"@,
        3 <= raw <= 7 ==> describe_spec(Kind::Stepped(StepTable::ReverbType), raw) == "Studio"@,
        8 <= raw <= 13 ==> describe_spec(Kind::Stepped(StepTable::ReverbType), raw) == "Small Room"@,
        14 <= raw <= 18 ==> describe_spec(Kind::Stepped(StepTable::ReverbType), raw) == "Jazz Club"@,
        19 <= raw <= 23 ==> describe_spec(Kind::Stepped(StepTable::ReverbType), raw) == "Small Club"@,
        24 <= raw <= 29 ==> describe_spec(Kind::Stepped(StepTable::ReverbType), raw) == "Garage"@,
        30 <= raw <= 34 ==> describe_spec(Kind::Stepped(StepTable::ReverbType), raw) == "Medium Room"@,
        35 <= raw <= 39 ==> describe_spec(Kind::Stepped(StepTable::ReverbType), raw) == "Tiled Room"@,
        40 <= raw <= 45 ==> describe_spec(Kind::Stepped(StepTable::ReverbType), raw) == "Wood Room"@,
        46 <= raw <= 50 ==> describe_spec(Kind::Stepped(StepTable::ReverbType), raw) == "Small Theater"@,
        51 <= raw <= 55 ==> describe_spec(Kind::Stepped(StepTable::ReverbType), raw) == "Medium Theater"@,
        56 <= raw <= 61 ==> describe_spec(Kind::Stepped(StepTable::ReverbType), raw) == "Large Theater"@,
        62 <= raw <= 66 ==> describe_spec(Kind::Stepped(StepTable::ReverbType), raw) == "Rich Hall"@,
        67 <= raw <= 71 ==> describe_spec(Kind::Stepped(StepTable::ReverbType), raw) == "Concert Hall"@,
        72 <= raw <= 77 ==> describe_spec(Kind::Stepped(StepTable::ReverbType), raw) == "Bright Hall"@,
        78 <= raw <= 82 ==> describe_spec(Kind::Stepped(StepTable::ReverbType), raw) == "Church"@,
        83 <= raw <= 87 ==> describe_spec(Kind::Stepped(StepTable::ReverbType), raw) == "Cathedral"@,
        88 <= raw <= 93 ==> describe_spec(Kind::Stepped(StepTable::ReverbType), raw) == "Arena"@,
        94 <= raw <= 98 ==> describe_spec(Kind::Stepped(StepTable::ReverbType), raw) == "Small Plate"@,
        99 <= raw <= 103 ==> describe_spec(Kind::Stepped(StepTable::ReverbType), raw) == "Medium Plate"@,
        104 <= raw <= 109 ==> describe_spec(Kind::Stepped(StepTable::ReverbType), raw) == "Large Plate"@,
        110 <= raw <= 114 ==> describe_spec(Kind::Stepped(StepTable::ReverbType), raw) == "Canyon"@,
        115 <= raw <= 119 ==> describe_spec(Kind::Stepped(StepTable::ReverbType), raw) == "Supa Long"@,
        120 <= raw <= 125 ==> describe_spec(Kind::Stepped(StepTable::ReverbType), raw) == "Early Reflect 1"@,
        126 <= raw <= 127 ==> describe_spec(Kind::Stepped(StepTable::ReverbType), raw) == "Early Reflect 2"@,
{
    let t = step_table(StepTable::ReverbType);
    let p = step_contains(raw);
    assert(t[0] == Step { label: "Echo Room", lo: 0, hi: 2 });
    assert(t[1] == Step { label: "Studio", lo: 3, hi: 7 });
    assert(t[2] == Step { label: "Small Room", lo: 8, hi: 13 });
    assert(t[3] == Step { label: "Jazz Club", lo: 14, hi: 18 });
    assert(t[4] == Step { label: "Small Club", lo: 19, hi: 23 });
    assert(t[5] == Step { label: "Garage", lo: 24, hi: 29 });
    assert(t[6] == Step { label: "Medium Room", lo: 30, hi: 34 });
    assert(t[7] == Step { label: "Tiled Room", lo: 35, hi: 39 });
    assert(t[8] == Step { label: "Wood Room", lo: 40, hi: 45 });
    assert(t[9] == Step { label: "Small Theater", lo: 46, hi: 50 });
    assert(t[10] == Step { label: "Medium Theater", lo: 51, hi: 55 });
    assert(t[11] == Step { label: "Large Theater", lo: 56, hi: 61 });
    assert(t[12] == Step { label: "Rich Hall", lo: 62, hi: 66 });
    assert(t[13] == Step { label: "Concert Hall", lo: 67, hi: 71 });
    assert(t[14] == Step { label: "Bright Hall", lo: 72, hi: 77 });
    assert(t[15] == Step { label: "Church", lo: 78, hi: 82 });
    assert(t[16] == Step { label: "Cathedral", lo: 83, hi: 87 });
    assert(t[17] == Step { label: "Arena", lo: 88, hi: 93 });
    assert(t[18] == Step { label: "Small Plate", lo: 94, hi: 98 });
    assert(t[19] == Step { label: "Medium Plate", lo: 99, hi: 103 });
    assert(t[20] == Step { label: "Large Plate", lo: 104, hi: 109 });
    assert(t[21] == Step { label: "Canyon", lo: 110, hi: 114 });
    assert(t[22] == Step { label: "Supa Long", lo: 115, hi: 119 });
    assert(t[23] == Step { label: "Early Reflect 1", lo: 120, hi: 125 });
    assert(t[24] == Step { label: "Early Reflect 2", lo: 126, hi: 127 });
    if raw <= 127 {
        let k: int = if raw <= 2 { 0 } else if raw <= 7 { 1 } else if raw <= 13 { 2 } else if raw <= 18 { 3 } else if raw <= 23 { 4 } else if raw <= 29 { 5 } else if raw <= 34 { 6 } else if raw <= 39 { 7 } else if raw <= 45 { 8 } else if raw <= 50 { 9 } else if raw <= 55 { 10 } else if raw <= 61 { 11 } else if raw <= 66 { 12 } else if raw <= 71 { 13 } else if raw <= 77 { 14 } else if raw <= 82 { 15 } else if raw <= 87 { 16 } else if raw <= 93 { 17 } else if raw <= 98 { 18 } else if raw <= 103 { 19 } else if raw <= 109 { 20 } else if raw <= 114 { 21 } else if raw <= 119 { 22 } else if raw <= 125 { 23 } else { 24 };
        assert forall|j: int| 0 <= j < k implies !p(#[trigger] t[j]) by {
            if j == 0 {} else if j == 1 {} else if j == 2 {} else if j == 3 {} else if j == 4 {} else if j == 5 {} else if j == 6 {} else if j == 7 {} else if j == 8 {} else if j == 9 {} else if j == 10 {} else if j == 11 {} else if j == 12 {} else if j == 13 {} else if j == 14 {} else if j == 15 {} else if j == 16 {} else if j == 17 {} else if j == 18 {} else if j == 19 {} else if j == 20 {} else if j == 21 {} else if j == 22 {} else if j == 23 {} else if j == 24 {}
        }
        assert(p(t[k])) by {
            if k == 0 {} else if k == 1 {} else if k == 2 {} else if k == 3 {} else if k == 4 {} else if k == 5 {} else if k == 6 {} else if k == 7 {} else if k == 8 {} else if k == 9 {} else if k == 10 {} else if k == 11 {} else if k == 12 {} else if k == 13 {} else if k == 14 {} else if k == 15 {} else if k == 16 {} else if k == 17 {} else if k == 18 {} else if k == 19 {} else if k == 20 {} else if k == 21 {} else if k == 22 {} else if k == 23 {} else if k == 24 {}
        }
        assert(is_first(t, p, k));
        lemma_first_at(t, p, k);
    }
}

/// The Roto Speaker speeds by raw value: each range of `0..=127` describes as its label.
pub proof fn lemma_roto_speed_labels(raw: u8)
    ensures
        raw <= 31 ==> describe_spec(Kind::Stepped(StepTable::RotoSpeed), raw) == "Slow"@,
        32 <= raw <= 95 ==> describe_spec(Kind::Stepped(StepTable::RotoSpeed), raw) == "Brake"@,
        96 <= raw <= 127 ==> describe_spec(Kind::Stepped(StepTable::RotoSpeed), raw) == "Fast"@,
{
    let t = step_table(StepTable::RotoSpeed);
    let p = step_contains(raw);
    assert(t[0] == Step { label: "Slow", lo: 0, hi: 31 });
    assert(t[1] == Step { label: "Brake", lo: 32, hi: 95 });
    assert(t[2] == Step { label: "Fast", lo: 96, hi: 127 });
    if raw <= 127 {
        let k: int = if raw <= 31 { 0 } else if raw <= 95 { 1 } else { 2 };
        assert forall|j: int| 0 <= j < k implies !p(#[trigger] t[j]) by {
            if j == 0 {} else if j == 1 {} else if j == 2 {}
        }
        assert(p(t[k])) by {
            if k == 0 {} else if k == 1 {} else if k == 2 {}
        }
        assert(is_first(t, p, k));
        lemma_first_at(t, p, k);
    }
}

/// The Roto Speaker types by raw value: each range of `0..=127` describes as its label.
pub proof fn lemma_roto_type_labels(raw: u8)
    ensures
        raw <= 9 ==> describe_spec(Kind::Stepped(StepTable::RotoType), raw) == "120"@,
        10 <= raw <= 27 ==> describe_spec(Kind::Stepped(StepTable::RotoType), raw) == "122"@,
        28 <= raw <= 45 ==> describe_spec(Kind::Stepped(StepTable::RotoType), raw) == "21H"@,
        46 <= raw <= 63 ==> describe_spec(Kind::Stepped(StepTable::RotoType), raw) == "Foam Drum"@,
        64 <= raw <= 82 ==> describe_spec(Kind::Stepped(StepTable::RotoType), raw) == "Rover"@,
        83 <= raw <= 100 ==> describe_spec(Kind::Stepped(StepTable::RotoType), raw) == "Memphis"@,
        101 <= raw <= 118 ==> describe_spec(Kind::Stepped(StepTable::RotoType), raw) == "Wolf"@,
        119 <= raw <= 127 ==> describe_spec(Kind::Stepped(StepTable::RotoType), raw) == "Watery"@,
{
    let t = step_table(StepTable::RotoType);
    let p = step_contains(raw);
    assert(t[0] == Step { label: "120", lo: 0, hi: 9 });
    assert(t[1] == Step { label: "122", lo: 10, hi: 27 });
    assert(t[2] == Step { label: "21H", lo: 28, hi: 45 });
    assert(t[3] == Step { label: "Foam Drum", lo: 46, hi: 63 });
    assert(t[4] == Step { label: "Rover", lo: 64, hi: 82 });
    assert(t[5] == Step { label: "Memphis", lo: 83, hi: 100 });
    assert(t[6] == Step { label: "Wolf", lo: 101, hi: 118 });
    assert(t[7] == Step { label: "Watery", lo: 119, hi: 127 });
    if raw <= 127 {
        let k: int = if raw <= 9 { 0 } else if raw <= 27 { 1 } else if raw <= 45 { 2 } else if raw <= 63 { 3 } else if raw <= 82 { 4 } else if raw <= 100 { 5 } else if raw <= 118 { 6 } else { 7 };
        assert forall|j: int| 0 <= j < k implies !p(#[trigger] t[j]) by {
            if j == 0 {} else if j == 1 {} else if j == 2 {} else if j == 3 {} else if j == 4 {} else if j == 5 {} else if j == 6 {} else if j == 7 {}
        }
        assert(p(t[k])) by {
            if k == 0 {} else if k == 1 {} else if k == 2 {} else if k == 3 {} else if k == 4 {} else if k == 5 {} else if k == 6 {} else if k == 7 {}
        }
        assert(is_first(t, p, k));
        lemma_first_at(t, p, k);
    }
}

/// Equality ignoring ASCII case is symmetric.
proof fn lemma_case_sym(a: Seq<char>, b: Seq<char>)
    ensures
        eq_ignore_ascii_case(a, b) == eq_ignore_ascii_case(b, a),
{
    if eq_ignore_ascii_case(a, b) {
        lemma_case_equiv(a, b, a);
    }
    if eq_ignore_ascii_case(b, a) {
        lemma_case_equiv(b, a, b);
    }
}

/// A text equal (ignoring case) to `known` matches `other` exactly when `known`
/// does.
proof fn lemma_case_same(x: Seq<char>, known: Seq<char>, other: Seq<char>)
    requires
        eq_ignore_ascii_case(x, known),
    ensures
        eq_ignore_ascii_case(other, x) == eq_ignore_ascii_case(other, known),
{
    lemma_case_equiv(x, known, other);
    lemma_case_sym(other, x);
    lemma_case_sym(other, known);
}

/// The User Guide CC chart for the Tweed Lux: with the amp named in any ASCII
/// case, each of its controls, named in any ASCII case, resolves to its chart
/// CC and value kind.
#[verifier::rlimit(40)]
pub proof fn lemma_chart_tweed_lux(name: Seq<char>, amp: Seq<char>)
    requires
        eq_ignore_ascii_case(amp, "Tweed Lux"@),
    ensures
        eq_ignore_ascii_case(name, "TONE"@) ==> resolve_cc_spec(name, Some(amp), None) == Some((13u8, Kind::Knob)),
        eq_ignore_ascii_case(name, "INSTRUMENT VOLUME"@) ==> resolve_cc_spec(name, Some(amp), None) == Some((14u8, Kind::Knob)),
        eq_ignore_ascii_case(name, "MIC VOLUME"@) ==> resolve_cc_spec(name, Some(amp), None) == Some((15u8, Kind::Knob)),
        eq_ignore_ascii_case(name, "NOISE GATE THRESHOLD"@) ==> resolve_cc_spec(name, Some(amp), None) == Some((16u8, Kind::Knob)),
        eq_ignore_ascii_case(name, "NOISE GATE RELEASE"@) ==> resolve_cc_spec(name, Some(amp), None) == Some((21u8, Kind::Knob)),
{
    reveal_strlit("INSTRUMENT VOLUME");
    reveal_strlit("MIC VOLUME");
    reveal_strlit("NOISE GATE RELEASE");
    reveal_strlit("NOISE GATE THRESHOLD");
    reveal_strlit("TONE");
    reveal_strlit("Tweed Lux");
    let t = amp_table();
    assert(t[0].name@ == "Tweed Lux"@);

    assert forall|j: int| 0 <= j < 0 implies !(#[trigger] amp_named(amp)(t[j])) by {
        
    }
    lemma_case_same(amp, "Tweed Lux"@, t[0].name@);
    assert(eq_ignore_ascii_case("Tweed Lux"@, "Tweed Lux"@));
    assert(is_first(t, amp_named(amp), 0));
    lemma_first_at(t, amp_named(amp), 0);
    let ps = t[0].params;
    assert(ps[0].name@ == "TONE"@);
    assert(ps[1].name@ == "INSTRUMENT VOLUME"@);
    assert(ps[2].name@ == "MIC VOLUME"@);
    assert(ps[3].name@ == "NOISE GATE THRESHOLD"@);
    assert(ps[4].name@ == "NOISE GATE RELEASE"@);
        if eq_ignore_ascii_case(name, "TONE"@) {

            assert forall|j: int| 0 <= j < 0 implies !(#[trigger] param_named(name)(ps[j])) by {
                
            }
            lemma_case_same(name, "TONE"@, ps[0].name@);
            assert(eq_ignore_ascii_case("TONE"@, "TONE"@));
            assert(is_first(ps, param_named(name), 0));
            lemma_first_at(ps, param_named(name), 0);
        }
        if eq_ignore_ascii_case(name, "INSTRUMENT VOLUME"@) {

            assert forall|j: int| 0 <= j < 1 implies !(#[trigger] param_named(name)(ps[j])) by {
                if j == 0 { lemma_case_same(name, "INSTRUMENT VOLUME"@, ps[0].name@); }
            }
            lemma_case_same(name, "INSTRUMENT VOLUME"@, ps[1].name@);
            assert(eq_ignore_ascii_case("INSTRUMENT VOLUME"@, "INSTRUMENT VOLUME"@));
            assert(is_first(ps, param_named(name), 1));
            lemma_first_at(ps, param_named(name), 1);
        }
        if eq_ignore_ascii_case(name, "MIC VOLUME"@) {

            assert forall|j: int| 0 <= j < 2 implies !(#[trigger] param_named(name)(ps[j])) by {
                if j == 0 { lemma_case_same(name, "MIC VOLUME"@, ps[0].name@); } else if j == 1 { lemma_case_same(name, "MIC VOLUME"@, ps[1].name@); }
            }
            lemma_case_same(name, "MIC VOLUME"@, ps[2].name@);
            assert(eq_ignore_ascii_case("MIC VOLUME"@, "MIC VOLUME"@));
            assert(is_first(ps, param_named(name), 2));
            lemma_first_at(ps, param_named(name), 2);
        }
        if eq_ignore_ascii_case(name, "NOISE GATE THRESHOLD"@) {

            assert forall|j: int| 0 <= j < 3 implies !(#[trigger] param_named(name)(ps[j])) by {
                if j == 0 { lemma_case_same(name, "NOISE GATE THRESHOLD"@, ps[0].name@); } else if j == 1 { lemma_case_same(name, "NOISE GATE THRESHOLD"@, ps[1].name@); } else if j == 2 { lemma_case_same(name, "NOISE GATE THRESHOLD"@, ps[2].name@); }
            }
            lemma_case_same(name, "NOISE GATE THRESHOLD"@, ps[3].name@);
            assert(eq_ignore_ascii_case("NOISE GATE THRESHOLD"@, "NOISE GATE THRESHOLD"@));
            assert(is_first(ps, param_named(name), 3));
            lemma_first_at(ps, param_named(name), 3);
        }
        if eq_ignore_ascii_case(name, "NOISE GATE RELEASE"@) {

            assert forall|j: int| 0 <= j < 4 implies !(#[trigger] param_named(name)(ps[j])) by {
                if j == 0 { lemma_case_same(name, "NOISE GATE RELEASE"@, ps[0].name@); } else if j == 1 { lemma_case_same(name, "NOISE GATE RELEASE"@, ps[1].name@); } else if j == 2 { lemma_case_same(name, "NOISE GATE RELEASE"@, ps[2].name@); } else if j == 3 { lemma_case_same(name, "NOISE GATE RELEASE"@, ps[3].name@); }
            }
            lemma_case_same(name, "NOISE GATE RELEASE"@, ps[4].name@);
            assert(eq_ignore_ascii_case("NOISE GATE RELEASE"@, "NOISE GATE RELEASE"@));
            assert(is_first(ps, param_named(name), 4));
            lemma_first_at(ps, param_named(name), 4);
        }
}

/// The User Guide CC chart for the Tweed Bass: with the amp named in any ASCII
/// case, each of its controls, named in any ASCII case, resolves to its chart
/// CC and value kind.
#[verifier::rlimit(40)]
pub proof fn lemma_chart_tweed_bass(name: Seq<char>, amp: Seq<char>)
    requires
        eq_ignore_ascii_case(amp, "Tweed Bass"@),
    ensures
        eq_ignore_ascii_case(name, "PRESENCE"@) ==> resolve_cc_spec(name, Some(amp), None) == Some((13u8, Kind::Knob)),
        eq_ignore_ascii_case(name, "MIDDLE"@) ==> resolve_cc_spec(name, Some(amp), None) == Some((14u8, Kind::Knob)),
        eq_ignore_ascii_case(name, "BASS"@) ==> resolve_cc_spec(name, Some(amp), None) == Some((15u8, Kind::Knob)),
        eq_ignore_ascii_case(name, "TREBLE"@) ==> resolve_cc_spec(name, Some(amp), None) == Some((16u8, Kind::Knob)),
        eq_ignore_ascii_case(name, "BRIGHT VOLUME"@) ==> resolve_cc_spec(name, Some(amp), None) == Some((21u8, Kind::Knob)),
        eq_ignore_ascii_case(name, "NORMAL VOLUME"@) ==> resolve_cc_spec(name, Some(amp), None) == Some((10u8, Kind::Knob)),
        eq_ignore_ascii_case(name, "NOISE GATE THRESHOLD"@) ==> resolve_cc_spec(name, Some(amp), None) == Some((112u8, Kind::Knob)),
        eq_ignore_ascii_case(name, "NOISE GATE RELEASE"@) ==> resolve_cc_spec(name, Some(amp), None) == Some((3u8, Kind::Knob)),
{
    reveal_strlit("BASS");
    reveal_strlit("BRIGHT VOLUME");
    reveal_strlit("MIDDLE");
    reveal_strlit("NOISE GATE RELEASE");
    reveal_strlit("NOISE GATE THRESHOLD");
    reveal_strlit("NORMAL VOLUME");
    reveal_strlit("PRESENCE");
    reveal_strlit("TREBLE");
    reveal_strlit("Tweed Bass");
    reveal_strlit("Tweed Lux");
    let t = amp_table();
    assert(t[0].name@ == "Tweed Lux"@);
    assert(t[1].name@ == "Tweed Bass"@);

    assert forall|j: int| 0 <= j < 1 implies !(#[trigger] amp_named(amp)(t[j])) by {
        if j == 0 { lemma_case_same(amp, "Tweed Bass"@, t[0].name@); }
    }
    lemma_case_same(amp, "Tweed Bass"@, t[1].name@);
    assert(eq_ignore_ascii_case("Tweed Bass"@, "Tweed Bass"@));
    assert(is_first(t, amp_named(amp), 1));
    lemma_first_at(t, amp_named(amp), 1);
    let ps = t[1].params;
    assert(ps[0].name@ == "PRESENCE"@);
    assert(ps[1].name@ == "MIDDLE"@);
    assert(ps[2].name@ == "BASS"@);
    assert(ps[3].name@ == "TREBLE"@);
    assert(ps[4].name@ == "BRIGHT VOLUME"@);
    assert(ps[5].name@ == "NORMAL VOLUME"@);
    assert(ps[6].name@ == "NOISE GATE THRESHOLD"@);
    assert(ps[7].name@ == "NOISE GATE RELEASE"@);
        if eq_ignore_ascii_case(name, "PRESENCE"@) {

            assert forall|j: int| 0 <= j < 0 implies !(#[trigger] param_named(name)(ps[j])) by {
                
            }
            lemma_case_same(name, "PRESENCE"@, ps[0].name@);
            assert(eq_ignore_ascii_case("PRESENCE"@, "PRESENCE"@));
            assert(is_first(ps, param_named(name), 0));
            lemma_first_at(ps, param_named(name), 0);
        }
        if eq_ignore_ascii_case(name, "MIDDLE"@) {

            assert forall|j: int| 0 <= j < 1 implies !(#[trigger] param_named(name)(ps[j])) by {
                if j == 0 { lemma_case_same(name, "MIDDLE"@, ps[0].name@); }
            }
            lemma_case_same(name, "MIDDLE"@, ps[1].name@);
            assert(eq_ignore_ascii_case("MIDDLE"@, "MIDDLE"@));
            assert(is_first(ps, param_named(name), 1));
            lemma_first_at(ps, param_named(name), 1);
        }
        if eq_ignore_ascii_case(name, "BASS"@) {

            assert forall|j: int| 0 <= j < 2 implies !(#[trigger] param_named(name)(ps[j])) by {
                if j == 0 { lemma_case_same(name, "BASS"@, ps[0].name@); } else if j == 1 { lemma_case_same(name, "BASS"@, ps[1].name@); }
            }
            lemma_case_same(name, "BASS"@, ps[2].name@);
            assert(eq_ignore_ascii_case("BASS"@, "BASS"@));
            assert(is_first(ps, param_named(name), 2));
            lemma_first_at(ps, param_named(name), 2);
        }
        if eq_ignore_ascii_case(name, "TREBLE"@) {
            lemma_differ_at("MIDDLE"@, "TREBLE"@, 0);
            assert forall|j: int| 0 <= j < 3 implies !(#[trigger] param_named(name)(ps[j])) by {
                if j == 0 { lemma_case_same(name, "TREBLE"@, ps[0].name@); } else if j == 1 { lemma_case_same(name, "TREBLE"@, ps[1].name@); } else if j == 2 { lemma_case_same(name, "TREBLE"@, ps[2].name@); }
            }
            lemma_case_same(name, "TREBLE"@, ps[3].name@);
            assert(eq_ignore_ascii_case("TREBLE"@, "TREBLE"@));
            assert(is_first(ps, param_named(name), 3));
            lemma_first_at(ps, param_named(name), 3);
        }
        if eq_ignore_ascii_case(name, "BRIGHT VOLUME"@) {

            assert forall|j: int| 0 <= j < 4 implies !(#[trigger] param_named(name)(ps[j])) by {
                if j == 0 { lemma_case_same(name, "BRIGHT VOLUME"@, ps[0].name@); } else if j == 1 { lemma_case_same(name, "BRIGHT VOLUME"@, ps[1].name@); } else if j == 2 { lemma_case_same(name, "BRIGHT VOLUME"@, ps[2].name@); } else if j == 3 { lemma_case_same(name, "BRIGHT VOLUME"@, ps[3].name@); }
            }
            lemma_case_same(name, "BRIGHT VOLUME"@, ps[4].name@);
            assert(eq_ignore_ascii_case("BRIGHT VOLUME"@, "BRIGHT VOLUME"@));
            assert(is_first(ps, param_named(name), 4));
            lemma_first_at(ps, param_named(name), 4);
        }
        if eq_ignore_ascii_case(name, "NORMAL VOLUME"@) {
            lemma_differ_at("BRIGHT VOLUME"@, "NORMAL VOLUME"@, 0);
            assert forall|j: int| 0 <= j < 5 implies !(#[trigger] param_named(name)(ps[j])) by {
                if j == 0 { lemma_case_same(name, "NORMAL VOLUME"@, ps[0].name@); } else if j == 1 { lemma_case_same(name, "NORMAL VOLUME"@, ps[1].name@); } else if j == 2 { lemma_case_same(name, "NORMAL VOLUME"@, ps[2].name@); } else if j == 3 { lemma_case_same(name, "NORMAL VOLUME"@, ps[3].name@); } else if j == 4 { lemma_case_same(name, "NORMAL VOLUME"@, ps[4].name@); }
            }
            lemma_case_same(name, "NORMAL VOLUME"@, ps[5].name@);
            assert(eq_ignore_ascii_case("NORMAL VOLUME"@, "NORMAL VOLUME"@));
            assert(is_first(ps, param_named(name), 5));
            lemma_first_at(ps, param_named(name), 5);
        }
        if eq_ignore_ascii_case(name, "NOISE GATE THRESHOLD"@) {

            assert forall|j: int| 0 <= j < 6 implies !(#[trigger] param_named(name)(ps[j])) by {
                if j == 0 { lemma_case_same(name, "NOISE GATE THRESHOLD"@, ps[0].name@); } else if j == 1 { lemma_case_same(name, "NOISE GATE THRESHOLD"@, ps[1].name@); } else if j == 2 { lemma_case_same(name, "NOISE GATE THRESHOLD"@, ps[2].name@); } else if j == 3 { lemma_case_same(name, "NOISE GATE THRESHOLD"@, ps[3].name@); } else if j == 4 { lemma_case_same(name, "NOISE GATE THRESHOLD"@, ps[4].name@); } else if j == 5 { lemma_case_same(name, "NOISE GATE THRESHOLD"@, ps[5].name@); }
            }
            lemma_case_same(name, "NOISE GATE THRESHOLD"@, ps[6].name@);
            assert(eq_ignore_ascii_case("NOISE GATE THRESHOLD"@, "NOISE GATE THRESHOLD"@));
            assert(is_first(ps, param_named(name), 6));
            lemma_first_at(ps, param_named(name), 6);
        }
        if eq_ignore_ascii_case(name, "NOISE GATE RELEASE"@) {

            assert forall|j: int| 0 <= j < 7 implies !(#[trigger] param_named(name)(ps[j])) by {
                if j == 0 { lemma_case_same(name, "NOISE GATE RELEASE"@, ps[0].name@); } else if j == 1 { lemma_case_same(name, "NOISE GATE RELEASE"@, ps[1].name@); } else if j == 2 { lemma_case_same(name, "NOISE GATE RELEASE"@, ps[2].name@); } else if j == 3 { lemma_case_same(name, "NOISE GATE RELEASE"@, ps[3].name@); } else if j == 4 { lemma_case_same(name, "NOISE GATE RELEASE"@, ps[4].name@); } else if j == 5 { lemma_case_same(name, "NOISE GATE RELEASE"@, ps[5].name@); } else if j == 6 { lemma_case_same(name, "NOISE GATE RELEASE"@, ps[6].name@); }
            }
            lemma_case_same(name, "NOISE GATE RELEASE"@, ps[7].name@);
            assert(eq_ignore_ascii_case("NOISE GATE RELEASE"@, "NOISE GATE RELEASE"@));
            assert(is_first(ps, param_named(name), 7));
            lemma_first_at(ps, param_named(name), 7);
        }
}

/// The User Guide CC chart for the Black Panel Lux Vibrato: with the amp named in any ASCII
/// case, each of its controls, named in any ASCII case, resolves to its chart
/// CC and value kind.
#[verifier::rlimit(40)]
pub proof fn lemma_chart_black_panel_lux_vibrato(name: Seq<char>, amp: Seq<char>)
    requires
        eq_ignore_ascii_case(amp, "Black Panel Lux Vibrato"@),
    ensures
        eq_ignore_ascii_case(name, "VOLUME"@) ==> resolve_cc_spec(name, Some(amp), None) == Some((13u8, Kind::Knob)),
        eq_ignore_ascii_case(name, "TREBLE"@) ==> resolve_cc_spec(name, Some(amp), None) == Some((14u8, Kind::Knob)),
        eq_ignore_ascii_case(name, "BASS"@) ==> resolve_cc_spec(name, Some(amp), None) == Some((15u8, Kind::Knob)),
        eq_ignore_ascii_case(name, "VIBRATO SPEED"@) ==> resolve_cc_spec(name, Some(amp), None) == Some((16u8, Kind::Knob)),
        eq_ignore_ascii_case(name, "VIBRATO SYNC"@) ==> resolve_cc_spec(name, Some(amp), None) == Some((21u8, Kind::Knob)),
        eq_ignore_ascii_case(name, "VIBRATO INTENSITY"@) ==> resolve_cc_spec(name, Some(amp), None) == Some((10u8, Kind::Knob)),
        eq_ignore_ascii_case(name, "VIBRATO ON/OFF"@) ==> resolve_cc_spec(name, Some(amp), None) == Some((112u8, Kind::Switch { off: "Off", on: "On" })),
        eq_ignore_ascii_case(name, "NOISE GATE THRESHOLD"@) ==> resolve_cc_spec(name, Some(amp), None) == Some((3u8, Kind::Knob)),
        eq_ignore_ascii_case(name, "NOISE GATE RELEASE"@) ==> resolve_cc_spec(name, Some(amp), None) == Some((84u8, Kind::Knob)),
{
    reveal_strlit("BASS");
    reveal_strlit("Black Panel Lux Vibrato");
    reveal_strlit("NOISE GATE RELEASE");
    reveal_strlit("NOISE GATE THRESHOLD");
    reveal_strlit("TREBLE");
    reveal_strlit("Tweed Bass");
    reveal_strlit("Tweed Lux");
    reveal_strlit("VIBRATO INTENSITY");
    reveal_strlit("VIBRATO ON/OFF");
    reveal_strlit("VIBRATO SPEED");
    reveal_strlit("VIBRATO SYNC");
    reveal_strlit("VOLUME");
    let t = amp_table();
    assert(t[0].name@ == "Tweed Lux"@);
    assert(t[1].name@ == "Tweed Bass"@);
    assert(t[2].name@ == "Black Panel Lux Vibrato"@);

    assert forall|j: int| 0 <= j < 2 implies !(#[trigger] amp_named(amp)(t[j])) by {
        if j == 0 { lemma_case_same(amp, "Black Panel Lux Vibrato"@, t[0].name@); } else if j == 1 { lemma_case_same(amp, "Black Panel Lux Vibrato"@, t[1].name@); }
    }
    lemma_case_same(amp, "Black Panel Lux Vibrato"@, t[2].name@);
    assert(eq_ignore_ascii_case("Black Panel Lux Vibrato"@, "Black Panel Lux Vibrato"@));
    assert(is_first(t, amp_named(amp), 2));
    lemma_first_at(t, amp_named(amp), 2);
    let ps = t[2].params;
    assert(ps[0].name@ == "VOLUME"@);
    assert(ps[1].name@ == "TREBLE"@);
    assert(ps[2].name@ == "BASS"@);
    assert(ps[3].name@ == "VIBRATO SPEED"@);
    assert(ps[4].name@ == "VIBRATO SYNC"@);
    assert(ps[5].name@ == "VIBRATO INTENSITY"@);
    assert(ps[6].name@ == "VIBRATO ON/OFF"@);
    assert(ps[7].name@ == "NOISE GATE THRESHOLD"@);
    assert(ps[8].name@ == "NOISE GATE RELEASE"@);
        if eq_ignore_ascii_case(name, "VOLUME"@) {

            assert forall|j: int| 0 <= j < 0 implies !(#[trigger] param_named(name)(ps[j])) by {
                
            }
            lemma_case_same(name, "VOLUME"@, ps[0].name@);
            assert(eq_ignore_ascii_case("VOLUME"@, "VOLUME"@));
            assert(is_first(ps, param_named(name), 0));
            lemma_first_at(ps, param_named(name), 0);
        }
        if eq_ignore_ascii_case(name, "TREBLE"@) {
            lemma_differ_at("VOLUME"@, "TREBLE"@, 0);
            assert forall|j: int| 0 <= j < 1 implies !(#[trigger] param_named(name)(ps[j])) by {
                if j == 0 { lemma_case_same(name, "TREBLE"@, ps[0].name@); }
            }
            lemma_case_same(name, "TREBLE"@, ps[1].name@);
            assert(eq_ignore_ascii_case("TREBLE"@, "TREBLE"@));
            assert(is_first(ps, param_named(name), 1));
            lemma_first_at(ps, param_named(name), 1);
        }
        if eq_ignore_ascii_case(name, "BASS"@) {

            assert forall|j: int| 0 <= j < 2 implies !(#[trigger] param_named(name)(ps[j])) by {
                if j == 0 { lemma_case_same(name, "BASS"@, ps[0].name@); } else if j == 1 { lemma_case_same(name, "BASS"@, ps[1].name@); }
            }
            lemma_case_same(name, "BASS"@, ps[2].name@);
            assert(eq_ignore_ascii_case("BASS"@, "BASS"@));
            assert(is_first(ps, param_named(name), 2));
            lemma_first_at(ps, param_named(name), 2);
        }
        if eq_ignore_ascii_case(name, "VIBRATO SPEED"@) {

            assert forall|j: int| 0 <= j < 3 implies !(#[trigger] param_named(name)(ps[j])) by {
                if j == 0 { lemma_case_same(name, "VIBRATO SPEED"@, ps[0].name@); } else if j == 1 { lemma_case_same(name, "VIBRATO SPEED"@, ps[1].name@); } else if j == 2 { lemma_case_same(name, "VIBRATO SPEED"@, ps[2].name@); }
            }
            lemma_case_same(name, "VIBRATO SPEED"@, ps[3].name@);
            assert(eq_ignore_ascii_case("VIBRATO SPEED"@, "VIBRATO SPEED"@));
            assert(is_first(ps, param_named(name), 3));
            lemma_first_at(ps, param_named(name), 3);
        }
        if eq_ignore_ascii_case(name, "VIBRATO SYNC"@) {

            assert forall|j: int| 0 <= j < 4 implies !(#[trigger] param_named(name)(ps[j])) by {
                if j == 0 { lemma_case_same(name, "VIBRATO SYNC"@, ps[0].name@); } else if j == 1 { lemma_case_same(name, "VIBRATO SYNC"@, ps[1].name@); } else if j == 2 { lemma_case_same(name, "VIBRATO SYNC"@, ps[2].name@); } else if j == 3 { lemma_case_same(name, "VIBRATO SYNC"@, ps[3].name@); }
            }
            lemma_case_same(name, "VIBRATO SYNC"@, ps[4].name@);
            assert(eq_ignore_ascii_case("VIBRATO SYNC"@, "VIBRATO SYNC"@));
            assert(is_first(ps, param_named(name), 4));
            lemma_first_at(ps, param_named(name), 4);
        }
        if eq_ignore_ascii_case(name, "VIBRATO INTENSITY"@) {

            assert forall|j: int| 0 <= j < 5 implies !(#[trigger] param_named(name)(ps[j])) by {
                if j == 0 { lemma_case_same(name, "VIBRATO INTENSITY"@, ps[0].name@); } else if j == 1 { lemma_case_same(name, "VIBRATO INTENSITY"@, ps[1].name@); } else if j == 2 { lemma_case_same(name, "VIBRATO INTENSITY"@, ps[2].name@); } else if j == 3 { lemma_case_same(name, "VIBRATO INTENSITY"@, ps[3].name@); } else if j == 4 { lemma_case_same(name, "VIBRATO INTENSITY"@, ps[4].name@); }
            }
            lemma_case_same(name, "VIBRATO INTENSITY"@, ps[5].name@);
            assert(eq_ignore_ascii_case("VIBRATO INTENSITY"@, "VIBRATO INTENSITY"@));
            assert(is_first(ps, param_named(name), 5));
            lemma_first_at(ps, param_named(name), 5);
        }
        if eq_ignore_ascii_case(name, "VIBRATO ON/OFF"@) {

            assert forall|j: int| 0 <= j < 6 implies !(#[trigger] param_named(name)(ps[j])) by {
                if j == 0 { lemma_case_same(name, "VIBRATO ON/OFF"@, ps[0].name@); } else if j == 1 { lemma_case_same(name, "VIBRATO ON/OFF"@, ps[1].name@); } else if j == 2 { lemma_case_same(name, "VIBRATO ON/OFF"@, ps[2].name@); } else if j == 3 { lemma_case_same(name, "VIBRATO ON/OFF"@, ps[3].name@); } else if j == 4 { lemma_case_same(name, "VIBRATO ON/OFF"@, ps[4].name@); } else if j == 5 { lemma_case_same(name, "VIBRATO ON/OFF"@, ps[5].name@); }
            }
            lemma_case_same(name, "VIBRATO ON/OFF"@, ps[6].name@);
            assert(eq_ignore_ascii_case("VIBRATO ON/OFF"@, "VIBRATO ON/OFF"@));
            assert(is_first(ps, param_named(name), 6));
            lemma_first_at(ps, param_named(name), 6);
        }
        if eq_ignore_ascii_case(name, "NOISE GATE THRESHOLD"@) {

            assert forall|j: int| 0 <= j < 7 implies !(#[trigger] param_named(name)(ps[j])) by {
                if j == 0 { lemma_case_same(name, "NOISE GATE THRESHOLD"@, ps[0].name@); } else if j == 1 { lemma_case_same(name, "NOISE GATE THRESHOLD"@, ps[1].name@); } else if j == 2 { lemma_case_same(name, "NOISE GATE THRESHOLD"@, ps[2].name@); } else if j == 3 { lemma_case_same(name, "NOISE GATE THRESHOLD"@, ps[3].name@); } else if j == 4 { lemma_case_same(name, "NOISE GATE THRESHOLD"@, ps[4].name@); } else if j == 5 { lemma_case_same(name, "NOISE GATE THRESHOLD"@, ps[5].name@); } else if j == 6 { lemma_case_same(name, "NOISE GATE THRESHOLD"@, ps[6].name@); }
            }
            lemma_case_same(name, "NOISE GATE THRESHOLD"@, ps[7].name@);
            assert(eq_ignore_ascii_case("NOISE GATE THRESHOLD"@, "NOISE GATE THRESHOLD"@));
            assert(is_first(ps, param_named(name), 7));
            lemma_first_at(ps, param_named(name), 7);
        }
        if eq_ignore_ascii_case(name, "NOISE GATE RELEASE"@) {

            assert forall|j: int| 0 <= j < 8 implies !(#[trigger] param_named(name)(ps[j])) by {
                if j == 0 { lemma_case_same(name, "NOISE GATE RELEASE"@, ps[0].name@); } else if j == 1 { lemma_case_same(name, "NOISE GATE RELEASE"@, ps[1].name@); } else if j == 2 { lemma_case_same(name, "NOISE GATE RELEASE"@, ps[2].name@); } else if j == 3 { lemma_case_same(name, "NOISE GATE RELEASE"@, ps[3].name@); } else if j == 4 { lemma_case_same(name, "NOISE GATE RELEASE"@, ps[4].name@); } else if j == 5 { lemma_case_same(name, "NOISE GATE RELEASE"@, ps[5].name@); } else if j == 6 { lemma_case_same(name, "NOISE GATE RELEASE"@, ps[6].name@); } else if j == 7 { lemma_case_same(name, "NOISE GATE RELEASE"@, ps[7].name@); }
            }
            lemma_case_same(name, "NOISE GATE RELEASE"@, ps[8].name@);
            assert(eq_ignore_ascii_case("NOISE GATE RELEASE"@, "NOISE GATE RELEASE"@));
            assert(is_first(ps, param_named(name), 8));
            lemma_first_at(ps, param_named(name), 8);
        }
}

/// The User Guide CC chart for the Black Panel Lux Normal: with the amp named in any ASCII
/// case, each of its controls, named in any ASCII case, resolves to its chart
/// CC and value kind.
#[verifier::rlimit(40)]
pub proof fn lemma_chart_black_panel_lux_normal(name: Seq<char>, amp: Seq<char>)
    requires
        eq_ignore_ascii_case(amp, "Black Panel Lux Normal"@),
    ensures
        eq_ignore_ascii_case(name, "VOLUME"@) ==> resolve_cc_spec(name, Some(amp), None) == Some((13u8, Kind::Knob)),
        eq_ignore_ascii_case(name, "TREBLE"@) ==> resolve_cc_spec(name, Some(amp), None) == Some((14u8, Kind::Knob)),
        eq_ignore_ascii_case(name, "BASS"@) ==> resolve_cc_spec(name, Some(amp), None) == Some((15u8, Kind::Knob)),
        eq_ignore_ascii_case(name, "VIBRATO SPEED"@) ==> resolve_cc_spec(name, Some(amp), None) == Some((16u8, Kind::Knob)),
        eq_ignore_ascii_case(name, "VIBRATO SYNC"@) ==> resolve_cc_spec(name, Some(amp), None) == Some((21u8, Kind::Knob)),
        eq_ignore_ascii_case(name, "VIBRATO INTENSITY"@) ==> resolve_cc_spec(name, Some(amp), None) == Some((10u8, Kind::Knob)),
        eq_ignore_ascii_case(name, "NOISE GATE THRESHOLD"@) ==> resolve_cc_spec(name, Some(amp), None) == Some((3u8, Kind::Knob)),
        eq_ignore_ascii_case(name, "NOISE GATE RELEASE"@) ==> resolve_cc_spec(name, Some(amp), None) == Some((84u8, Kind::Knob)),
{
    reveal_strlit("BASS");
    reveal_strlit("Black Panel Lux Normal");
    reveal_strlit("Black Panel Lux Vibrato");
    reveal_strlit("NOISE GATE RELEASE");
    reveal_strlit("NOISE GATE THRESHOLD");
    reveal_strlit("TREBLE");
    reveal_strlit("Tweed Bass");
    reveal_strlit("Tweed Lux");
    reveal_strlit("VIBRATO INTENSITY");
    reveal_strlit("VIBRATO SPEED");
    reveal_strlit("VIBRATO SYNC");
    reveal_strlit("VOLUME");
    let t = amp_table();
    assert(t[0].name@ == "Tweed Lux"@);
    assert(t[1].name@ == "Tweed Bass"@);
    assert(t[2].name@ == "Black Panel Lux Vibrato"@);
    assert(t[3].name@ == "Black Panel Lux Normal"@);

    assert forall|j: int| 0 <= j < 3 implies !(#[trigger] amp_named(amp)(t[j])) by {
        if j == 0 { lemma_case_same(amp, "Black Panel Lux Normal"@, t[0].name@); } else if j == 1 { lemma_case_same(amp, "Black Panel Lux Normal"@, t[1].name@); } else if j == 2 { lemma_case_same(amp, "Black Panel Lux Normal"@, t[2].name@); }
    }
    lemma_case_same(amp, "Black Panel Lux Normal"@, t[3].name@);
    assert(eq_ignore_ascii_case("Black Panel Lux Normal"@, "Black Panel Lux Normal"@));
    assert(is_first(t, amp_named(amp), 3));
    lemma_first_at(t, amp_named(amp), 3);
    let ps = t[3].params;
    assert(ps[0].name@ == "VOLUME"@);
    assert(ps[1].name@ == "TREBLE"@);
    assert(ps[2].name@ == "BASS"@);
    assert(ps[3].name@ == "VIBRATO SPEED"@);
    assert(ps[4].name@ == "VIBRATO SYNC"@);
    assert(ps[5].name@ == "VIBRATO INTENSITY"@);
    assert(ps[6].name@ == "NOISE GATE THRESHOLD"@);
    assert(ps[7].name@ == "NOISE GATE RELEASE"@);
        if eq_ignore_ascii_case(name, "VOLUME"@) {

            assert forall|j: int| 0 <= j < 0 implies !(#[trigger] param_named(name)(ps[j])) by {
                
            }
            lemma_case_same(name, "VOLUME"@, ps[0].name@);
            assert(eq_ignore_ascii_case("VOLUME"@, "VOLUME"@));
            assert(is_first(ps, param_named(name), 0));
            lemma_first_at(ps, param_named(name), 0);
        }
        if eq_ignore_ascii_case(name, "TREBLE"@) {
            lemma_differ_at("VOLUME"@, "TREBLE"@, 0);
            assert forall|j: int| 0 <= j < 1 implies !(#[trigger] param_named(name)(ps[j])) by {
                if j == 0 { lemma_case_same(name, "TREBLE"@, ps[0].name@); }
            }
            lemma_case_same(name, "TREBLE"@, ps[1].name@);
            assert(eq_ignore_ascii_case("TREBLE"@, "TREBLE"@));
            assert(is_first(ps, param_named(name), 1));
            lemma_first_at(ps, param_named(name), 1);
        }
        if eq_ignore_ascii_case(name, "BASS"@) {

            assert forall|j: int| 0 <= j < 2 implies !(#[trigger] param_named(name)(ps[j])) by {
                if j == 0 { lemma_case_same(name, "BASS"@, ps[0].name@); } else if j == 1 { lemma_case_same(name, "BASS"@, ps[1].name@); }
            }
            lemma_case_same(name, "BASS"@, ps[2].name@);
            assert(eq_ignore_ascii_case("BASS"@, "BASS"@));
            assert(is_first(ps, param_named(name), 2));
            lemma_first_at(ps, param_named(name), 2);
        }
        if eq_ignore_ascii_case(name, "VIBRATO SPEED"@) {

            assert forall|j: int| 0 <= j < 3 implies !(#[trigger] param_named(name)(ps[j])) by {
                if j == 0 { lemma_case_same(name, "VIBRATO SPEED"@, ps[0].name@); } else if j == 1 { lemma_case_same(name, "VIBRATO SPEED"@, ps[1].name@); } else if j == 2 { lemma_case_same(name, "VIBRATO SPEED"@, ps[2].name@); }
            }
            lemma_case_same(name, "VIBRATO SPEED"@, ps[3].name@);
            assert(eq_ignore_ascii_case("VIBRATO SPEED"@, "VIBRATO SPEED"@));
            assert(is_first(ps, param_named(name), 3));
            lemma_first_at(ps, param_named(name), 3);
        }
        if eq_ignore_ascii_case(name, "VIBRATO SYNC"@) {

            assert forall|j: int| 0 <= j < 4 implies !(#[trigger] param_named(name)(ps[j])) by {
                if j == 0 { lemma_case_same(name, "VIBRATO SYNC"@, ps[0].name@); } else if j == 1 { lemma_case_same(name, "VIBRATO SYNC"@, ps[1].name@); } else if j == 2 { lemma_case_same(name, "VIBRATO SYNC"@, ps[2].name@); } else if j == 3 { lemma_case_same(name, "VIBRATO SYNC"@, ps[3].name@); }
            }
            lemma_case_same(name, "VIBRATO SYNC"@, ps[4].name@);
            assert(eq_ignore_ascii_case("VIBRATO SYNC"@, "VIBRATO SYNC"@));
            assert(is_first(ps, param_named(name), 4));
            lemma_first_at(ps, param_named(name), 4);
        }
        if eq_ignore_ascii_case(name, "VIBRATO INTENSITY"@) {

            assert forall|j: int| 0 <= j < 5 implies !(#[trigger] param_named(name)(ps[j])) by {
                if j == 0 { lemma_case_same(name, "VIBRATO INTENSITY"@, ps[0].name@); } else if j == 1 { lemma_case_same(name, "VIBRATO INTENSITY"@, ps[1].name@); } else if j == 2 { lemma_case_same(name, "VIBRATO INTENSITY"@, ps[2].name@); } else if j == 3 { lemma_case_same(name, "VIBRATO INTENSITY"@, ps[3].name@); } else if j == 4 { lemma_case_same(name, "VIBRATO INTENSITY"@, ps[4].name@); }
            }
            lemma_case_same(name, "VIBRATO INTENSITY"@, ps[5].name@);
            assert(eq_ignore_ascii_case("VIBRATO INTENSITY"@, "VIBRATO INTENSITY"@));
            assert(is_first(ps, param_named(name), 5));
            lemma_first_at(ps, param_named(name), 5);
        }
        if eq_ignore_ascii_case(name, "NOISE GATE THRESHOLD"@) {

            assert forall|j: int| 0 <= j < 6 implies !(#[trigger] param_named(name)(ps[j])) by {
                if j == 0 { lemma_case_same(name, "NOISE GATE THRESHOLD"@, ps[0].name@); } else if j == 1 { lemma_case_same(name, "NOISE GATE THRESHOLD"@, ps[1].name@); } else if j == 2 { lemma_case_same(name, "NOISE GATE THRESHOLD"@, ps[2].name@); } else if j == 3 { lemma_case_same(name, "NOISE GATE THRESHOLD"@, ps[3].name@); } else if j == 4 { lemma_case_same(name, "NOISE GATE THRESHOLD"@, ps[4].name@); } else if j == 5 { lemma_case_same(name, "NOISE GATE THRESHOLD"@, ps[5].name@); }
            }
            lemma_case_same(name, "NOISE GATE THRESHOLD"@, ps[6].name@);
            assert(eq_ignore_ascii_case("NOISE GATE THRESHOLD"@, "NOISE GATE THRESHOLD"@));
            assert(is_first(ps, param_named(name), 6));
            lemma_first_at(ps, param_named(name), 6);
        }
        if eq_ignore_ascii_case(name, "NOISE GATE RELEASE"@) {

            assert forall|j: int| 0 <= j < 7 implies !(#[trigger] param_named(name)(ps[j])) by {
                if j == 0 { lemma_case_same(name, "NOISE GATE RELEASE"@, ps[0].name@); } else if j == 1 { lemma_case_same(name, "NOISE GATE RELEASE"@, ps[1].name@); } else if j == 2 { lemma_case_same(name, "NOISE GATE RELEASE"@, ps[2].name@); } else if j == 3 { lemma_case_same(name, "NOISE GATE RELEASE"@, ps[3].name@); } else if j == 4 { lemma_case_same(name, "NOISE GATE RELEASE"@, ps[4].name@); } else if j == 5 { lemma_case_same(name, "NOISE GATE RELEASE"@, ps[5].name@); } else if j == 6 { lemma_case_same(name, "NOISE GATE RELEASE"@, ps[6].name@); }
            }
            lemma_case_same(name, "NOISE GATE RELEASE"@, ps[7].name@);
            assert(eq_ignore_ascii_case("NOISE GATE RELEASE"@, "NOISE GATE RELEASE"@));
            assert(is_first(ps, param_named(name), 7));
            lemma_first_at(ps, param_named(name), 7);
        }
}

/// The User Guide CC chart for the AC Hi Boost: with the amp named in any ASCII
/// case, each of its controls, named in any ASCII case, resolves to its chart
/// CC and value kind.
#[verifier::rlimit(40)]
pub proof fn lemma_chart_ac_hi_boost(name: Seq<char>, amp: Seq<char>)
    requires
        eq_ignore_ascii_case(amp, "AC Hi Boost"@),
    ensures
        eq_ignore_ascii_case(name, "NORMAL VOLUME"@) ==> resolve_cc_spec(name, Some(amp), None) == Some((13u8, Kind::Knob)),
        eq_ignore_ascii_case(name, "BRILLIANT VOLUME"@) ==> resolve_cc_spec(name, Some(amp), None) == Some((14u8, Kind::Knob)),
        eq_ignore_ascii_case(name, "BASS"@) ==> resolve_cc_spec(name, Some(amp), None) == Some((15u8, Kind::Knob)),
        eq_ignore_ascii_case(name, "TREBLE"@) ==> resolve_cc_spec(name, Some(amp), None) == Some((16u8, Kind::Knob)),
        eq_ignore_ascii_case(name, "CUT"@) ==> resolve_cc_spec(name, Some(amp), None) == Some((21u8, Kind::Knob)),
        eq_ignore_ascii_case(name, "TREMOLO SPEED"@) ==> resolve_cc_spec(name, Some(amp), None) == Some((10u8, Kind::Knob)),
        eq_ignore_ascii_case(name, "TREMOLO SYNC"@) ==> resolve_cc_spec(name, Some(amp), None) == Some((112u8, Kind::Knob)),
        eq_ignore_ascii_case(name, "TREMOLO DEPTH"@) ==> resolve_cc_spec(name, Some(amp), None) == Some((3u8, Kind::Knob)),
        eq_ignore_ascii_case(name, "TREMOLO ON/OFF"@) ==> resolve_cc_spec(name, Some(amp), None) == Some((22u8, Kind::Switch { off: "Off", on: "On" })),
        eq_ignore_ascii_case(name, "NOISE GATE THRESHOLD"@) ==> resolve_cc_spec(name, Some(amp), None) == Some((84u8, Kind::Knob)),
        eq_ignore_ascii_case(name, "NOISE GATE RELEASE"@) ==> resolve_cc_spec(name, Some(amp), None) == Some((24u8, Kind::Knob)),
{
    reveal_strlit("AC Hi Boost");
    reveal_strlit("BASS");
    reveal_strlit("BRILLIANT VOLUME");
    reveal_strlit("Black Panel Lux Normal");
    reveal_strlit("Black Panel Lux Vibrato");
    reveal_strlit("CUT");
    reveal_strlit("NOISE GATE RELEASE");
    reveal_strlit("NOISE GATE THRESHOLD");
    reveal_strlit("NORMAL VOLUME");
    reveal_strlit("TREBLE");
    reveal_strlit("TREMOLO DEPTH");
    reveal_strlit("TREMOLO ON/OFF");
    reveal_strlit("TREMOLO SPEED");
    reveal_strlit("TREMOLO SYNC");
    reveal_strlit("Tweed Bass");
    reveal_strlit("Tweed Lux");
    let t = amp_table();
    assert(t[0].name@ == "Tweed Lux"@);
    assert(t[1].name@ == "Tweed Bass"@);
    assert(t[2].name@ == "Black Panel Lux Vibrato"@);
    assert(t[3].name@ == "Black Panel Lux Normal"@);
    assert(t[4].name@ == "AC Hi Boost"@);

    assert forall|j: int| 0 <= j < 4 implies !(#[trigger] amp_named(amp)(t[j])) by {
        if j == 0 { lemma_case_same(amp, "AC Hi Boost"@, t[0].name@); } else if j == 1 { lemma_case_same(amp, "AC Hi Boost"@, t[1].name@); } else if j == 2 { lemma_case_same(amp, "AC Hi Boost"@, t[2].name@); } else if j == 3 { lemma_case_same(amp, "AC Hi Boost"@, t[3].name@); }
    }
    lemma_case_same(amp, "AC Hi Boost"@, t[4].name@);
    assert(eq_ignore_ascii_case("AC Hi Boost"@, "AC Hi Boost"@));
    assert(is_first(t, amp_named(amp), 4));
    lemma_first_at(t, amp_named(amp), 4);
    let ps = t[4].params;
    assert(ps[0].name@ == "NORMAL VOLUME"@);
    assert(ps[1].name@ == "BRILLIANT VOLUME"@);
    assert(ps[2].name@ == "BASS"@);
    assert(ps[3].name@ == "TREBLE"@);
    assert(ps[4].name@ == "CUT"@);
    assert(ps[5].name@ == "TREMOLO SPEED"@);
    assert(ps[6].name@ == "TREMOLO SYNC"@);
    assert(ps[7].name@ == "TREMOLO DEPTH"@);
    assert(ps[8].name@ == "TREMOLO ON/OFF"@);
    assert(ps[9].name@ == "NOISE GATE THRESHOLD"@);
    assert(ps[10].name@ == "NOISE GATE RELEASE"@);
        if eq_ignore_ascii_case(name, "NORMAL VOLUME"@) {

            assert forall|j: int| 0 <= j < 0 implies !(#[trigger] param_named(name)(ps[j])) by {
                
            }
            lemma_case_same(name, "NORMAL VOLUME"@, ps[0].name@);
            assert(eq_ignore_ascii_case("NORMAL VOLUME"@, "NORMAL VOLUME"@));
            assert(is_first(ps, param_named(name), 0));
            lemma_first_at(ps, param_named(name), 0);
        }
        if eq_ignore_ascii_case(name, "BRILLIANT VOLUME"@) {

            assert forall|j: int| 0 <= j < 1 implies !(#[trigger] param_named(name)(ps[j])) by {
                if j == 0 { lemma_case_same(name, "BRILLIANT VOLUME"@, ps[0].name@); }
            }
            lemma_case_same(name, "BRILLIANT VOLUME"@, ps[1].name@);
            assert(eq_ignore_ascii_case("BRILLIANT VOLUME"@, "BRILLIANT VOLUME"@));
            assert(is_first(ps, param_named(name), 1));
            lemma_first_at(ps, param_named(name), 1);
        }
        if eq_ignore_ascii_case(name, "BASS"@) {

            assert forall|j: int| 0 <= j < 2 implies !(#[trigger] param_named(name)(ps[j])) by {
                if j == 0 { lemma_case_same(name, "BASS"@, ps[0].name@); } else if j == 1 { lemma_case_same(name, "BASS"@, ps[1].name@); }
            }
            lemma_case_same(name, "BASS"@, ps[2].name@);
            assert(eq_ignore_ascii_case("BASS"@, "BASS"@));
            assert(is_first(ps, param_named(name), 2));
            lemma_first_at(ps, param_named(name), 2);
        }
        if eq_ignore_ascii_case(name, "TREBLE"@) {

            assert forall|j: int| 0 <= j < 3 implies !(#[trigger] param_named(name)(ps[j])) by {
                if j == 0 { lemma_case_same(name, "TREBLE"@, ps[0].name@); } else if j == 1 { lemma_case_same(name, "TREBLE"@, ps[1].name@); } else if j == 2 { lemma_case_same(name, "TREBLE"@, ps[2].name@); }
            }
            lemma_case_same(name, "TREBLE"@, ps[3].name@);
            assert(eq_ignore_ascii_case("TREBLE"@, "TREBLE"@));
            assert(is_first(ps, param_named(name), 3));
            lemma_first_at(ps, param_named(name), 3);
        }
        if eq_ignore_ascii_case(name, "CUT"@) {

            assert forall|j: int| 0 <= j < 4 implies !(#[trigger] param_named(name)(ps[j])) by {
                if j == 0 { lemma_case_same(name, "CUT"@, ps[0].name@); } else if j == 1 { lemma_case_same(name, "CUT"@, ps[1].name@); } else if j == 2 { lemma_case_same(name, "CUT"@, ps[2].name@); } else if j == 3 { lemma_case_same(name, "CUT"@, ps[3].name@); }
            }
            lemma_case_same(name, "CUT"@, ps[4].name@);
            assert(eq_ignore_ascii_case("CUT"@, "CUT"@));
            assert(is_first(ps, param_named(name), 4));
            lemma_first_at(ps, param_named(name), 4);
        }
        if eq_ignore_ascii_case(name, "TREMOLO SPEED"@) {
            lemma_differ_at("NORMAL VOLUME"@, "TREMOLO SPEED"@, 0);
            assert forall|j: int| 0 <= j < 5 implies !(#[trigger] param_named(name)(ps[j])) by {
                if j == 0 { lemma_case_same(name, "TREMOLO SPEED"@, ps[0].name@); } else if j == 1 { lemma_case_same(name, "TREMOLO SPEED"@, ps[1].name@); } else if j == 2 { lemma_case_same(name, "TREMOLO SPEED"@, ps[2].name@); } else if j == 3 { lemma_case_same(name, "TREMOLO SPEED"@, ps[3].name@); } else if j == 4 { lemma_case_same(name, "TREMOLO SPEED"@, ps[4].name@); }
            }
            lemma_case_same(name, "TREMOLO SPEED"@, ps[5].name@);
            assert(eq_ignore_ascii_case("TREMOLO SPEED"@, "TREMOLO SPEED"@));
            assert(is_first(ps, param_named(name), 5));
            lemma_first_at(ps, param_named(name), 5);
        }
        if eq_ignore_ascii_case(name, "TREMOLO SYNC"@) {

            assert forall|j: int| 0 <= j < 6 implies !(#[trigger] param_named(name)(ps[j])) by {
                if j == 0 { lemma_case_same(name, "TREMOLO SYNC"@, ps[0].name@); } else if j == 1 { lemma_case_same(name, "TREMOLO SYNC"@, ps[1].name@); } else if j == 2 { lemma_case_same(name, "TREMOLO SYNC"@, ps[2].name@); } else if j == 3 { lemma_case_same(name, "TREMOLO SYNC"@, ps[3].name@); } else if j == 4 { lemma_case_same(name, "TREMOLO SYNC"@, ps[4].name@); } else if j == 5 { lemma_case_same(name, "TREMOLO SYNC"@, ps[5].name@); }
            }
            lemma_case_same(name, "TREMOLO SYNC"@, ps[6].name@);
            assert(eq_ignore_ascii_case("TREMOLO SYNC"@, "TREMOLO SYNC"@));
            assert(is_first(ps, param_named(name), 6));
            lemma_first_at(ps, param_named(name), 6);
        }
        if eq_ignore_ascii_case(name, "TREMOLO DEPTH"@) {
            lemma_differ_at("NORMAL VOLUME"@, "TREMOLO DEPTH"@, 0);
            lemma_differ_at("TREMOLO SPEED"@, "TREMOLO DEPTH"@, 8);
            assert forall|j: int| 0 <= j < 7 implies !(#[trigger] param_named(name)(ps[j])) by {
                if j == 0 { lemma_case_same(name, "TREMOLO DEPTH"@, ps[0].name@); } else if j == 1 { lemma_case_same(name, "TREMOLO DEPTH"@, ps[1].name@); } else if j == 2 { lemma_case_same(name, "TREMOLO DEPTH"@, ps[2].name@); } else if j == 3 { lemma_case_same(name, "TREMOLO DEPTH"@, ps[3].name@); } else if j == 4 { lemma_case_same(name, "TREMOLO DEPTH"@, ps[4].name@); } else if j == 5 { lemma_case_same(name, "TREMOLO DEPTH"@, ps[5].name@); } else if j == 6 { lemma_case_same(name, "TREMOLO DEPTH"@, ps[6].name@); }
            }
            lemma_case_same(name, "TREMOLO DEPTH"@, ps[7].name@);
            assert(eq_ignore_ascii_case("TREMOLO DEPTH"@, "TREMOLO DEPTH"@));
            assert(is_first(ps, param_named(name), 7));
            lemma_first_at(ps, param_named(name), 7);
        }
        if eq_ignore_ascii_case(name, "TREMOLO ON/OFF"@) {

            assert forall|j: int| 0 <= j < 8 implies !(#[trigger] param_named(name)(ps[j])) by {
                if j == 0 { lemma_case_same(name, "TREMOLO ON/OFF"@, ps[0].name@); } else if j == 1 { lemma_case_same(name, "TREMOLO ON/OFF"@, ps[1].name@); } else if j == 2 { lemma_case_same(name, "TREMOLO ON/OFF"@, ps[2].name@); } else if j == 3 { lemma_case_same(name, "TREMOLO ON/OFF"@, ps[3].name@); } else if j == 4 { lemma_case_same(name, "TREMOLO ON/OFF"@, ps[4].name@); } else if j == 5 { lemma_case_same(name, "TREMOLO ON/OFF"@, ps[5].name@); } else if j == 6 { lemma_case_same(name, "TREMOLO ON/OFF"@, ps[6].name@); } else if j == 7 { lemma_case_same(name, "TREMOLO ON/OFF"@, ps[7].name@); }
            }
            lemma_case_same(name, "TREMOLO ON/OFF"@, ps[8].name@);
            assert(eq_ignore_ascii_case("TREMOLO ON/OFF"@, "TREMOLO ON/OFF"@));
            assert(is_first(ps, param_named(name), 8));
            lemma_first_at(ps, param_named(name), 8);
        }
        if eq_ignore_ascii_case(name, "NOISE GATE THRESHOLD"@) {

            assert forall|j: int| 0 <= j < 9 implies !(#[trigger] param_named(name)(ps[j])) by {
                if j == 0 { lemma_case_same(name, "NOISE GATE THRESHOLD"@, ps[0].name@); } else if j == 1 { lemma_case_same(name, "NOISE GATE THRESHOLD"@, ps[1].name@); } else if j == 2 { lemma_case_same(name, "NOISE GATE THRESHOLD"@, ps[2].name@); } else if j == 3 { lemma_case_same(name, "NOISE GATE THRESHOLD"@, ps[3].name@); } else if j == 4 { lemma_case_same(name, "NOISE GATE THRESHOLD"@, ps[4].name@); } else if j == 5 { lemma_case_same(name, "NOISE GATE THRESHOLD"@, ps[5].name@); } else if j == 6 { lemma_case_same(name, "NOISE GATE THRESHOLD"@, ps[6].name@); } else if j == 7 { lemma_case_same(name, "NOISE GATE THRESHOLD"@, ps[7].name@); } else if j == 8 { lemma_case_same(name, "NOISE GATE THRESHOLD"@, ps[8].name@); }
            }
            lemma_case_same(name, "NOISE GATE THRESHOLD"@, ps[9].name@);
            assert(eq_ignore_ascii_case("NOISE GATE THRESHOLD"@, "NOISE GATE THRESHOLD"@));
            assert(is_first(ps, param_named(name), 9));
            lemma_first_at(ps, param_named(name), 9);
        }
        if eq_ignore_ascii_case(name, "NOISE GATE RELEASE"@) {

            assert forall|j: int| 0 <= j < 10 implies !(#[trigger] param_named(name)(ps[j])) by {
                if j == 0 { lemma_case_same(name, "NOISE GATE RELEASE"@, ps[0].name@); } else if j == 1 { lemma_case_same(name, "NOISE GATE RELEASE"@, ps[1].name@); } else if j == 2 { lemma_case_same(name, "NOISE GATE RELEASE"@, ps[2].name@); } else if j == 3 { lemma_case_same(name, "NOISE GATE RELEASE"@, ps[3].name@); } else if j == 4 { lemma_case_same(name, "NOISE GATE RELEASE"@, ps[4].name@); } else if j == 5 { lemma_case_same(name, "NOISE GATE RELEASE"@, ps[5].name@); } else if j == 6 { lemma_case_same(name, "NOISE GATE RELEASE"@, ps[6].name@); } else if j == 7 { lemma_case_same(name, "NOISE GATE RELEASE"@, ps[7].name@); } else if j == 8 { lemma_case_same(name, "NOISE GATE RELEASE"@, ps[8].name@); } else if j == 9 { lemma_case_same(name, "NOISE GATE RELEASE"@, ps[9].name@); }
            }
            lemma_case_same(name, "NOISE GATE RELEASE"@, ps[10].name@);
            assert(eq_ignore_ascii_case("NOISE GATE RELEASE"@, "NOISE GATE RELEASE"@));
            assert(is_first(ps, param_named(name), 10));
            lemma_first_at(ps, param_named(name), 10);
        }
}

/// The User Guide CC chart for the Black Panel Duo: with the amp named in any ASCII
/// case, each of its controls, named in any ASCII case, resolves to its chart
/// CC and value kind.
#[verifier::rlimit(40)]
pub proof fn lemma_chart_black_panel_duo(name: Seq<char>, amp: Seq<char>)
    requires
        eq_ignore_ascii_case(amp, "Black Panel Duo"@),
    ensures
        eq_ignore_ascii_case(name, "VOLUME"@) ==> resolve_cc_spec(name, Some(amp), None) == Some((13u8, Kind::Knob)),
        eq_ignore_ascii_case(name, "TREBLE"@) ==> resolve_cc_spec(name, Some(amp), None) == Some((14u8, Kind::Knob)),
        eq_ignore_ascii_case(name, "MIDDLE"@) ==> resolve_cc_spec(name, Some(amp), None) == Some((15u8, Kind::Knob)),
        eq_ignore_ascii_case(name, "BASS"@) ==> resolve_cc_spec(name, Some(amp), None) == Some((16u8, Kind::Knob)),
        eq_ignore_ascii_case(name, "BRIGHT"@) ==> resolve_cc_spec(name, Some(amp), None) == Some((21u8, Kind::Switch { off: "Off", on: "On" })),
        eq_ignore_ascii_case(name, "VIBRATO SPEED"@) ==> resolve_cc_spec(name, Some(amp), None) == Some((10u8, Kind::Knob)),
        eq_ignore_ascii_case(name, "VIBRATO SYNC"@) ==> resolve_cc_spec(name, Some(amp), None) == Some((112u8, Kind::Knob)),
        eq_ignore_ascii_case(name, "VIBRATO INTENSITY"@) ==> resolve_cc_spec(name, Some(amp), None) == Some((3u8, Kind::Knob)),
        eq_ignore_ascii_case(name, "VIBRATO ON/OFF"@) ==> resolve_cc_spec(name, Some(amp), None) == Some((22u8, Kind::Switch { off: "Off", on: "On" })),
        eq_ignore_ascii_case(name, "NOISE GATE THRESHOLD"@) ==> resolve_cc_spec(name, Some(amp), None) == Some((84u8, Kind::Knob)),
        eq_ignore_ascii_case(name, "NOISE GATE RELEASE"@) ==> resolve_cc_spec(name, Some(amp), None) == Some((24u8, Kind::Knob)),
{
    reveal_strlit("AC Hi Boost");
    reveal_strlit("BASS");
    reveal_strlit("BRIGHT");
    reveal_strlit("Black Panel Duo");
    reveal_strlit("Black Panel Lux Normal");
    reveal_strlit("Black Panel Lux Vibrato");
    reveal_strlit("MIDDLE");
    reveal_strlit("NOISE GATE RELEASE");
    reveal_strlit("NOISE GATE THRESHOLD");
    reveal_strlit("TREBLE");
    reveal_strlit("Tweed Bass");
    reveal_strlit("Tweed Lux");
    reveal_strlit("VIBRATO INTENSITY");
    reveal_strlit("VIBRATO ON/OFF");
    reveal_strlit("VIBRATO SPEED");
    reveal_strlit("VIBRATO SYNC");
    reveal_strlit("VOLUME");
    let t = amp_table();
    assert(t[0].name@ == "Tweed Lux"@);
    assert(t[1].name@ == "Tweed Bass"@);
    assert(t[2].name@ == "Black Panel Lux Vibrato"@);
    assert(t[3].name@ == "Black Panel Lux Normal"@);
    assert(t[4].name@ == "AC Hi Boost"@);
    assert(t[5].name@ == "Black Panel Duo"@);

    assert forall|j: int| 0 <= j < 5 implies !(#[trigger] amp_named(amp)(t[j])) by {
        if j == 0 { lemma_case_same(amp, "Black Panel Duo"@, t[0].name@); } else if j == 1 { lemma_case_same(amp, "Black Panel Duo"@, t[1].name@); } else if j == 2 { lemma_case_same(amp, "Black Panel Duo"@, t[2].name@); } else if j == 3 { lemma_case_same(amp, "Black Panel Duo"@, t[3].name@); } else if j == 4 { lemma_case_same(amp, "Black Panel Duo"@, t[4].name@); }
    }
    lemma_case_same(amp, "Black Panel Duo"@, t[5].name@);
    assert(eq_ignore_ascii_case("Black Panel Duo"@, "Black Panel Duo"@));
    assert(is_first(t, amp_named(amp), 5));
    lemma_first_at(t, amp_named(amp), 5);
    let ps = t[5].params;
    assert(ps[0].name@ == "VOLUME"@);
    assert(ps[1].name@ == "TREBLE"@);
    assert(ps[2].name@ == "MIDDLE"@);
    assert(ps[3].name@ == "BASS"@);
    assert(ps[4].name@ == "BRIGHT"@);
    assert(ps[5].name@ == "VIBRATO SPEED"@);
    assert(ps[6].name@ == "VIBRATO SYNC"@);
    assert(ps[7].name@ == "VIBRATO INTENSITY"@);
    assert(ps[8].name@ == "VIBRATO ON/OFF"@);
    assert(ps[9].name@ == "NOISE GATE THRESHOLD"@);
    assert(ps[10].name@ == "NOISE GATE RELEASE"@);
        if eq_ignore_ascii_case(name, "VOLUME"@) {

            assert forall|j: int| 0 <= j < 0 implies !(#[trigger] param_named(name)(ps[j])) by {
                
            }
            lemma_case_same(name, "VOLUME"@, ps[0].name@);
            assert(eq_ignore_ascii_case("VOLUME"@, "VOLUME"@));
            assert(is_first(ps, param_named(name), 0));
            lemma_first_at(ps, param_named(name), 0);
        }
        if eq_ignore_ascii_case(name, "TREBLE"@) {
            lemma_differ_at("VOLUME"@, "TREBLE"@, 0);
            assert forall|j: int| 0 <= j < 1 implies !(#[trigger] param_named(name)(ps[j])) by {
                if j == 0 { lemma_case_same(name, "TREBLE"@, ps[0].name@); }
            }
            lemma_case_same(name, "TREBLE"@, ps[1].name@);
            assert(eq_ignore_ascii_case("TREBLE"@, "TREBLE"@));
            assert(is_first(ps, param_named(name), 1));
            lemma_first_at(ps, param_named(name), 1);
        }
        if eq_ignore_ascii_case(name, "MIDDLE"@) {
            lemma_differ_at("VOLUME"@, "MIDDLE"@, 0);
            lemma_differ_at("TREBLE"@, "MIDDLE"@, 0);
            assert forall|j: int| 0 <= j < 2 implies !(#[trigger] param_named(name)(ps[j])) by {
                if j == 0 { lemma_case_same(name, "MIDDLE"@, ps[0].name@); } else if j == 1 { lemma_case_same(name, "MIDDLE"@, ps[1].name@); }
            }
            lemma_case_same(name, "MIDDLE"@, ps[2].name@);
            assert(eq_ignore_ascii_case("MIDDLE"@, "MIDDLE"@));
            assert(is_first(ps, param_named(name), 2));
            lemma_first_at(ps, param_named(name), 2);
        }
        if eq_ignore_ascii_case(name, "BASS"@) {

            assert forall|j: int| 0 <= j < 3 implies !(#[trigger] param_named(name)(ps[j])) by {
                if j == 0 { lemma_case_same(name, "BASS"@, ps[0].name@); } else if j == 1 { lemma_case_same(name, "BASS"@, ps[1].name@); } else if j == 2 { lemma_case_same(name, "BASS"@, ps[2].name@); }
            }
            lemma_case_same(name, "BASS"@, ps[3].name@);
            assert(eq_ignore_ascii_case("BASS"@, "BASS"@));
            assert(is_first(ps, param_named(name), 3));
            lemma_first_at(ps, param_named(name), 3);
        }
        if eq_ignore_ascii_case(name, "BRIGHT"@) {
            lemma_differ_at("VOLUME"@, "BRIGHT"@, 0);
            lemma_differ_at("TREBLE"@, "BRIGHT"@, 0);
            lemma_differ_at("MIDDLE"@, "BRIGHT"@, 0);
            assert forall|j: int| 0 <= j < 4 implies !(#[trigger] param_named(name)(ps[j])) by {
                if j == 0 { lemma_case_same(name, "BRIGHT"@, ps[0].name@); } else if j == 1 { lemma_case_same(name, "BRIGHT"@, ps[1].name@); } else if j == 2 { lemma_case_same(name, "BRIGHT"@, ps[2].name@); } else if j == 3 { lemma_case_same(name, "BRIGHT"@, ps[3].name@); }
            }
            lemma_case_same(name, "BRIGHT"@, ps[4].name@);
            assert(eq_ignore_ascii_case("BRIGHT"@, "BRIGHT"@));
            assert(is_first(ps, param_named(name), 4));
            lemma_first_at(ps, param_named(name), 4);
        }
        if eq_ignore_ascii_case(name, "VIBRATO SPEED"@) {

            assert forall|j: int| 0 <= j < 5 implies !(#[trigger] param_named(name)(ps[j])) by {
                if j == 0 { lemma_case_same(name, "VIBRATO SPEED"@, ps[0].name@); } else if j == 1 { lemma_case_same(name, "VIBRATO SPEED"@, ps[1].name@); } else if j == 2 { lemma_case_same(name, "VIBRATO SPEED"@, ps[2].name@); } else if j == 3 { lemma_case_same(name, "VIBRATO SPEED"@, ps[3].name@); } else if j == 4 { lemma_case_same(name, "VIBRATO SPEED"@, ps[4].name@); }
            }
            lemma_case_same(name, "VIBRATO SPEED"@, ps[5].name@);
            assert(eq_ignore_ascii_case("VIBRATO SPEED"@, "VIBRATO SPEED"@));
            assert(is_first(ps, param_named(name), 5));
            lemma_first_at(ps, param_named(name), 5);
        }
        if eq_ignore_ascii_case(name, "VIBRATO SYNC"@) {

            assert forall|j: int| 0 <= j < 6 implies !(#[trigger] param_named(name)(ps[j])) by {
                if j == 0 { lemma_case_same(name, "VIBRATO SYNC"@, ps[0].name@); } else if j == 1 { lemma_case_same(name, "VIBRATO SYNC"@, ps[1].name@); } else if j == 2 { lemma_case_same(name, "VIBRATO SYNC"@, ps[2].name@); } else if j == 3 { lemma_case_same(name, "VIBRATO SYNC"@, ps[3].name@); } else if j == 4 { lemma_case_same(name, "VIBRATO SYNC"@, ps[4].name@); } else if j == 5 { lemma_case_same(name, "VIBRATO SYNC"@, ps[5].name@); }
            }
            lemma_case_same(name, "VIBRATO SYNC"@, ps[6].name@);
            assert(eq_ignore_ascii_case("VIBRATO SYNC"@, "VIBRATO SYNC"@));
            assert(is_first(ps, param_named(name), 6));
            lemma_first_at(ps, param_named(name), 6);
        }
        if eq_ignore_ascii_case(name, "VIBRATO INTENSITY"@) {

            assert forall|j: int| 0 <= j < 7 implies !(#[trigger] param_named(name)(ps[j])) by {
                if j == 0 { lemma_case_same(name, "VIBRATO INTENSITY"@, ps[0].name@); } else if j == 1 { lemma_case_same(name, "VIBRATO INTENSITY"@, ps[1].name@); } else if j == 2 { lemma_case_same(name, "VIBRATO INTENSITY"@, ps[2].name@); } else if j == 3 { lemma_case_same(name, "VIBRATO INTENSITY"@, ps[3].name@); } else if j == 4 { lemma_case_same(name, "VIBRATO INTENSITY"@, ps[4].name@); } else if j == 5 { lemma_case_same(name, "VIBRATO INTENSITY"@, ps[5].name@); } else if j == 6 { lemma_case_same(name, "VIBRATO INTENSITY"@, ps[6].name@); }
            }
            lemma_case_same(name, "VIBRATO INTENSITY"@, ps[7].name@);
            assert(eq_ignore_ascii_case("VIBRATO INTENSITY"@, "VIBRATO INTENSITY"@));
            assert(is_first(ps, param_named(name), 7));
            lemma_first_at(ps, param_named(name), 7);
        }
        if eq_ignore_ascii_case(name, "VIBRATO ON/OFF"@) {

            assert forall|j: int| 0 <= j < 8 implies !(#[trigger] param_named(name)(ps[j])) by {
                if j == 0 { lemma_case_same(name, "VIBRATO ON/OFF"@, ps[0].name@); } else if j == 1 { lemma_case_same(name, "VIBRATO ON/OFF"@, ps[1].name@); } else if j == 2 { lemma_case_same(name, "VIBRATO ON/OFF"@, ps[2].name@); } else if j == 3 { lemma_case_same(name, "VIBRATO ON/OFF"@, ps[3].name@); } else if j == 4 { lemma_case_same(name, "VIBRATO ON/OFF"@, ps[4].name@); } else if j == 5 { lemma_case_same(name, "VIBRATO ON/OFF"@, ps[5].name@); } else if j == 6 { lemma_case_same(name, "VIBRATO ON/OFF"@, ps[6].name@); } else if j == 7 { lemma_case_same(name, "VIBRATO ON/OFF"@, ps[7].name@); }
            }
            lemma_case_same(name, "VIBRATO ON/OFF"@, ps[8].name@);
            assert(eq_ignore_ascii_case("VIBRATO ON/OFF"@, "VIBRATO ON/OFF"@));
            assert(is_first(ps, param_named(name), 8));
            lemma_first_at(ps, param_named(name), 8);
        }
        if eq_ignore_ascii_case(name, "NOISE GATE THRESHOLD"@) {

            assert forall|j: int| 0 <= j < 9 implies !(#[trigger] param_named(name)(ps[j])) by {
                if j == 0 { lemma_case_same(name, "NOISE GATE THRESHOLD"@, ps[0].name@); } else if j == 1 { lemma_case_same(name, "NOISE GATE THRESHOLD"@, ps[1].name@); } else if j == 2 { lemma_case_same(name, "NOISE GATE THRESHOLD"@, ps[2].name@); } else if j == 3 { lemma_case_same(name, "NOISE GATE THRESHOLD"@, ps[3].name@); } else if j == 4 { lemma_case_same(name, "NOISE GATE THRESHOLD"@, ps[4].name@); } else if j == 5 { lemma_case_same(name, "NOISE GATE THRESHOLD"@, ps[5].name@); } else if j == 6 { lemma_case_same(name, "NOISE GATE THRESHOLD"@, ps[6].name@); } else if j == 7 { lemma_case_same(name, "NOISE GATE THRESHOLD"@, ps[7].name@); } else if j == 8 { lemma_case_same(name, "NOISE GATE THRESHOLD"@, ps[8].name@); }
            }
            lemma_case_same(name, "NOISE GATE THRESHOLD"@, ps[9].name@);
            assert(eq_ignore_ascii_case("NOISE GATE THRESHOLD"@, "NOISE GATE THRESHOLD"@));
            assert(is_first(ps, param_named(name), 9));
            lemma_first_at(ps, param_named(name), 9);
        }
        if eq_ignore_ascii_case(name, "NOISE GATE RELEASE"@) {

            assert forall|j: int| 0 <= j < 10 implies !(#[trigger] param_named(name)(ps[j])) by {
                if j == 0 { lemma_case_same(name, "NOISE GATE RELEASE"@, ps[0].name@); } else if j == 1 { lemma_case_same(name, "NOISE GATE RELEASE"@, ps[1].name@); } else if j == 2 { lemma_case_same(name, "NOISE GATE RELEASE"@, ps[2].name@); } else if j == 3 { lemma_case_same(name, "NOISE GATE RELEASE"@, ps[3].name@); } else if j == 4 { lemma_case_same(name, "NOISE GATE RELEASE"@, ps[4].name@); } else if j == 5 { lemma_case_same(name, "NOISE GATE RELEASE"@, ps[5].name@); } else if j == 6 { lemma_case_same(name, "NOISE GATE RELEASE"@, ps[6].name@); } else if j == 7 { lemma_case_same(name, "NOISE GATE RELEASE"@, ps[7].name@); } else if j == 8 { lemma_case_same(name, "NOISE GATE RELEASE"@, ps[8].name@); } else if j == 9 { lemma_case_same(name, "NOISE GATE RELEASE"@, ps[9].name@); }
            }
            lemma_case_same(name, "NOISE GATE RELEASE"@, ps[10].name@);
            assert(eq_ignore_ascii_case("NOISE GATE RELEASE"@, "NOISE GATE RELEASE"@));
            assert(is_first(ps, param_named(name), 10));
            lemma_first_at(ps, param_named(name), 10);
        }
}

/// The User Guide CC chart for the Plexiglas - 100W: with the amp named in any ASCII
/// case, each of its controls, named in any ASCII case, resolves to its chart
/// CC and value kind.
#[verifier::rlimit(40)]
pub proof fn lemma_chart_plexiglas_100w(name: Seq<char>, amp: Seq<char>)
    requires
        eq_ignore_ascii_case(amp, "Plexiglas - 100W"@),
    ensures
        eq_ignore_ascii_case(name, "PRESENCE"@) ==> resolve_cc_spec(name, Some(amp), None) == Some((13u8, Kind::Knob)),
        eq_ignore_ascii_case(name, "BASS"@) ==> resolve_cc_spec(name, Some(amp), None) == Some((14u8, Kind::Knob)),
        eq_ignore_ascii_case(name, "MIDDLE"@) ==> resolve_cc_spec(name, Some(amp), None) == Some((15u8, Kind::Knob)),
        eq_ignore_ascii_case(name, "TREBLE"@) ==> resolve_cc_spec(name, Some(amp), None) == Some((16u8, Kind::Knob)),
        eq_ignore_ascii_case(name, "VOLUME 1"@) ==> resolve_cc_spec(name, Some(amp), None) == Some((21u8, Kind::Knob)),
        eq_ignore_ascii_case(name, "VOLUME 2"@) ==> resolve_cc_spec(name, Some(amp), None) == Some((10u8, Kind::Knob)),
        eq_ignore_ascii_case(name, "NOISE GATE THRESHOLD"@) ==> resolve_cc_spec(name, Some(amp), None) == Some((112u8, Kind::Knob)),
        eq_ignore_ascii_case(name, "NOISE GATE RELEASE"@) ==> resolve_cc_spec(name, Some(amp), None) == Some((3u8, Kind::Knob)),
{
    reveal_strlit("AC Hi Boost");
    reveal_strlit("BASS");
    reveal_strlit("Black Panel Duo");
    reveal_strlit("Black Panel Lux Normal");
    reveal_strlit("Black Panel Lux Vibrato");
    reveal_strlit("MIDDLE");
    reveal_strlit("NOISE GATE RELEASE");
    reveal_strlit("NOISE GATE THRESHOLD");
    reveal_strlit("PRESENCE");
    reveal_strlit("Plexiglas - 100W");
    reveal_strlit("TREBLE");
    reveal_strlit("Tweed Bass");
    reveal_strlit("Tweed Lux");
    reveal_strlit("VOLUME 1");
    reveal_strlit("VOLUME 2");
    let t = amp_table();
    assert(t[0].name@ == "Tweed Lux"@);
    assert(t[1].name@ == "Tweed Bass"@);
    assert(t[2].name@ == "Black Panel Lux Vibrato"@);
    assert(t[3].name@ == "Black Panel Lux Normal"@);
    assert(t[4].name@ == "AC Hi Boost"@);
    assert(t[5].name@ == "Black Panel Duo"@);
    assert(t[6].name@ == "Plexiglas - 100W"@);

    assert forall|j: int| 0 <= j < 6 implies !(#[trigger] amp_named(amp)(t[j])) by {
        if j == 0 { lemma_case_same(amp, "Plexiglas - 100W"@, t[0].name@); } else if j == 1 { lemma_case_same(amp, "Plexiglas - 100W"@, t[1].name@); } else if j == 2 { lemma_case_same(amp, "Plexiglas - 100W"@, t[2].name@); } else if j == 3 { lemma_case_same(amp, "Plexiglas - 100W"@, t[3].name@); } else if j == 4 { lemma_case_same(amp, "Plexiglas - 100W"@, t[4].name@); } else if j == 5 { lemma_case_same(amp, "Plexiglas - 100W"@, t[5].name@); }
    }
    lemma_case_same(amp, "Plexiglas - 100W"@, t[6].name@);
    assert(eq_ignore_ascii_case("Plexiglas - 100W"@, "Plexiglas - 100W"@));
    assert(is_first(t, amp_named(amp), 6));
    lemma_first_at(t, amp_named(amp), 6);
    let ps = t[6].params;
    assert(ps[0].name@ == "PRESENCE"@);
    assert(ps[1].name@ == "BASS"@);
    assert(ps[2].name@ == "MIDDLE"@);
    assert(ps[3].name@ == "TREBLE"@);
    assert(ps[4].name@ == "VOLUME 1"@);
    assert(ps[5].name@ == "VOLUME 2"@);
    assert(ps[6].name@ == "NOISE GATE THRESHOLD"@);
    assert(ps[7].name@ == "NOISE GATE RELEASE"@);
        if eq_ignore_ascii_case(name, "PRESENCE"@) {

            assert forall|j: int| 0 <= j < 0 implies !(#[trigger] param_named(name)(ps[j])) by {
                
            }
            lemma_case_same(name, "PRESENCE"@, ps[0].name@);
            assert(eq_ignore_ascii_case("PRESENCE"@, "PRESENCE"@));
            assert(is_first(ps, param_named(name), 0));
            lemma_first_at(ps, param_named(name), 0);
        }
        if eq_ignore_ascii_case(name, "BASS"@) {

            assert forall|j: int| 0 <= j < 1 implies !(#[trigger] param_named(name)(ps[j])) by {
                if j == 0 { lemma_case_same(name, "BASS"@, ps[0].name@); }
            }
            lemma_case_same(name, "BASS"@, ps[1].name@);
            assert(eq_ignore_ascii_case("BASS"@, "BASS"@));
            assert(is_first(ps, param_named(name), 1));
            lemma_first_at(ps, param_named(name), 1);
        }
        if eq_ignore_ascii_case(name, "MIDDLE"@) {

            assert forall|j: int| 0 <= j < 2 implies !(#[trigger] param_named(name)(ps[j])) by {
                if j == 0 { lemma_case_same(name, "MIDDLE"@, ps[0].name@); } else if j == 1 { lemma_case_same(name, "MIDDLE"@, ps[1].name@); }
            }
            lemma_case_same(name, "MIDDLE"@, ps[2].name@);
            assert(eq_ignore_ascii_case("MIDDLE"@, "MIDDLE"@));
            assert(is_first(ps, param_named(name), 2));
            lemma_first_at(ps, param_named(name), 2);
        }
        if eq_ignore_ascii_case(name, "TREBLE"@) {
            lemma_differ_at("MIDDLE"@, "TREBLE"@, 0);
            assert forall|j: int| 0 <= j < 3 implies !(#[trigger] param_named(name)(ps[j])) by {
                if j == 0 { lemma_case_same(name, "TREBLE"@, ps[0].name@); } else if j == 1 { lemma_case_same(name, "TREBLE"@, ps[1].name@); } else if j == 2 { lemma_case_same(name, "TREBLE"@, ps[2].name@); }
            }
            lemma_case_same(name, "TREBLE"@, ps[3].name@);
            assert(eq_ignore_ascii_case("TREBLE"@, "TREBLE"@));
            assert(is_first(ps, param_named(name), 3));
            lemma_first_at(ps, param_named(name), 3);
        }
        if eq_ignore_ascii_case(name, "VOLUME 1"@) {
            lemma_differ_at("PRESENCE"@, "VOLUME 1"@, 0);
            assert forall|j: int| 0 <= j < 4 implies !(#[trigger] param_named(name)(ps[j])) by {
                if j == 0 { lemma_case_same(name, "VOLUME 1"@, ps[0].name@); } else if j == 1 { lemma_case_same(name, "VOLUME 1"@, ps[1].name@); } else if j == 2 { lemma_case_same(name, "VOLUME 1"@, ps[2].name@); } else if j == 3 { lemma_case_same(name, "VOLUME 1"@, ps[3].name@); }
            }
            lemma_case_same(name, "VOLUME 1"@, ps[4].name@);
            assert(eq_ignore_ascii_case("VOLUME 1"@, "VOLUME 1"@));
            assert(is_first(ps, param_named(name), 4));
            lemma_first_at(ps, param_named(name), 4);
        }
        if eq_ignore_ascii_case(name, "VOLUME 2"@) {
            lemma_differ_at("PRESENCE"@, "VOLUME 2"@, 0);
            lemma_differ_at("VOLUME 1"@, "VOLUME 2"@, 7);
            assert forall|j: int| 0 <= j < 5 implies !(#[trigger] param_named(name)(ps[j])) by {
                if j == 0 { lemma_case_same(name, "VOLUME 2"@, ps[0].name@); } else if j == 1 { lemma_case_same(name, "VOLUME 2"@, ps[1].name@); } else if j == 2 { lemma_case_same(name, "VOLUME 2"@, ps[2].name@); } else if j == 3 { lemma_case_same(name, "VOLUME 2"@, ps[3].name@); } else if j == 4 { lemma_case_same(name, "VOLUME 2"@, ps[4].name@); }
            }
            lemma_case_same(name, "VOLUME 2"@, ps[5].name@);
            assert(eq_ignore_ascii_case("VOLUME 2"@, "VOLUME 2"@));
            assert(is_first(ps, param_named(name), 5));
            lemma_first_at(ps, param_named(name), 5);
        }
        if eq_ignore_ascii_case(name, "NOISE GATE THRESHOLD"@) {

            assert forall|j: int| 0 <= j < 6 implies !(#[trigger] param_named(name)(ps[j])) by {
                if j == 0 { lemma_case_same(name, "NOISE GATE THRESHOLD"@, ps[0].name@); } else if j == 1 { lemma_case_same(name, "NOISE GATE THRESHOLD"@, ps[1].name@); } else if j == 2 { lemma_case_same(name, "NOISE GATE THRESHOLD"@, ps[2].name@); } else if j == 3 { lemma_case_same(name, "NOISE GATE THRESHOLD"@, ps[3].name@); } else if j == 4 { lemma_case_same(name, "NOISE GATE THRESHOLD"@, ps[4].name@); } else if j == 5 { lemma_case_same(name, "NOISE GATE THRESHOLD"@, ps[5].name@); }
            }
            lemma_case_same(name, "NOISE GATE THRESHOLD"@, ps[6].name@);
            assert(eq_ignore_ascii_case("NOISE GATE THRESHOLD"@, "NOISE GATE THRESHOLD"@));
            assert(is_first(ps, param_named(name), 6));
            lemma_first_at(ps, param_named(name), 6);
        }
        if eq_ignore_ascii_case(name, "NOISE GATE RELEASE"@) {

            assert forall|j: int| 0 <= j < 7 implies !(#[trigger] param_named(name)(ps[j])) by {
                if j == 0 { lemma_case_same(name, "NOISE GATE RELEASE"@, ps[0].name@); } else if j == 1 { lemma_case_same(name, "NOISE GATE RELEASE"@, ps[1].name@); } else if j == 2 { lemma_case_same(name, "NOISE GATE RELEASE"@, ps[2].name@); } else if j == 3 { lemma_case_same(name, "NOISE GATE RELEASE"@, ps[3].name@); } else if j == 4 { lemma_case_same(name, "NOISE GATE RELEASE"@, ps[4].name@); } else if j == 5 { lemma_case_same(name, "NOISE GATE RELEASE"@, ps[5].name@); } else if j == 6 { lemma_case_same(name, "NOISE GATE RELEASE"@, ps[6].name@); }
            }
            lemma_case_same(name, "NOISE GATE RELEASE"@, ps[7].name@);
            assert(eq_ignore_ascii_case("NOISE GATE RELEASE"@, "NOISE GATE RELEASE"@));
            assert(is_first(ps, param_named(name), 7));
            lemma_first_at(ps, param_named(name), 7);
        }
}

/// The User Guide CC chart for the Lead 800 - 100W: with the amp named in any ASCII
/// case, each of its controls, named in any ASCII case, resolves to its chart
/// CC and value kind.
#[verifier::rlimit(40)]
pub proof fn lemma_chart_lead_800_100w(name: Seq<char>, amp: Seq<char>)
    requires
        eq_ignore_ascii_case(amp, "Lead 800 - 100W"@),
    ensures
        eq_ignore_ascii_case(name, "PRESENCE"@) ==> resolve_cc_spec(name, Some(amp), None) == Some((13u8, Kind::Knob)),
        eq_ignore_ascii_case(name, "BASS"@) ==> resolve_cc_spec(name, Some(amp), None) == Some((14u8, Kind::Knob)),
        eq_ignore_ascii_case(name, "MIDDLE"@) ==> resolve_cc_spec(name, Some(amp), None) == Some((15u8, Kind::Knob)),
        eq_ignore_ascii_case(name, "TREBLE"@) ==> resolve_cc_spec(name, Some(amp), None) == Some((16u8, Kind::Knob)),
        eq_ignore_ascii_case(name, "PREAMP VOLUME"@) ==> resolve_cc_spec(name, Some(amp), None) == Some((10u8, Kind::Knob)),
        eq_ignore_ascii_case(name, "MASTER VOLUME"@) ==> resolve_cc_spec(name, Some(amp), None) == Some((21u8, Kind::Knob)),
        eq_ignore_ascii_case(name, "NOISE GATE THRESHOLD"@) ==> resolve_cc_spec(name, Some(amp), None) == Some((112u8, Kind::Knob)),
        eq_ignore_ascii_case(name, "NOISE GATE RELEASE"@) ==> resolve_cc_spec(name, Some(amp), None) == Some((3u8, Kind::Knob)),
{
    reveal_strlit("AC Hi Boost");
    reveal_strlit("BASS");
    reveal_strlit("Black Panel Duo");
    reveal_strlit("Black Panel Lux Normal");
    reveal_strlit("Black Panel Lux Vibrato");
    reveal_strlit("Lead 800 - 100W");
    reveal_strlit("MASTER VOLUME");
    reveal_strlit("MIDDLE");
    reveal_strlit("NOISE GATE RELEASE");
    reveal_strlit("NOISE GATE THRESHOLD");
    reveal_strlit("PREAMP VOLUME");
    reveal_strlit("PRESENCE");
    reveal_strlit("Plexiglas - 100W");
    reveal_strlit("TREBLE");
    reveal_strlit("Tweed Bass");
    reveal_strlit("Tweed Lux");
    let t = amp_table();
    assert(t[0].name@ == "Tweed Lux"@);
    assert(t[1].name@ == "Tweed Bass"@);
    assert(t[2].name@ == "Black Panel Lux Vibrato"@);
    assert(t[3].name@ == "Black Panel Lux Normal"@);
    assert(t[4].name@ == "AC Hi Boost"@);
    assert(t[5].name@ == "Black Panel Duo"@);
    assert(t[6].name@ == "Plexiglas - 100W"@);
    assert(t[7].name@ == "Lead 800 - 100W"@);
    lemma_differ_at("Black Panel Duo"@, "Lead 800 - 100W"@, 0);
    assert forall|j: int| 0 <= j < 7 implies !(#[trigger] amp_named(amp)(t[j])) by {
        if j == 0 { lemma_case_same(amp, "Lead 800 - 100W"@, t[0].name@); } else if j == 1 { lemma_case_same(amp, "Lead 800 - 100W"@, t[1].name@); } else if j == 2 { lemma_case_same(amp, "Lead 800 - 100W"@, t[2].name@); } else if j == 3 { lemma_case_same(amp, "Lead 800 - 100W"@, t[3].name@); } else if j == 4 { lemma_case_same(amp, "Lead 800 - 100W"@, t[4].name@); } else if j == 5 { lemma_case_same(amp, "Lead 800 - 100W"@, t[5].name@); } else if j == 6 { lemma_case_same(amp, "Lead 800 - 100W"@, t[6].name@); }
    }
    lemma_case_same(amp, "Lead 800 - 100W"@, t[7].name@);
    assert(eq_ignore_ascii_case("Lead 800 - 100W"@, "Lead 800 - 100W"@));
    assert(is_first(t, amp_named(amp), 7));
    lemma_first_at(t, amp_named(amp), 7);
    let ps = t[7].params;
    assert(ps[0].name@ == "PRESENCE"@);
    assert(ps[1].name@ == "BASS"@);
    assert(ps[2].name@ == "MIDDLE"@);
    assert(ps[3].name@ == "TREBLE"@);
    assert(ps[4].name@ == "PREAMP VOLUME"@);
    assert(ps[5].name@ == "MASTER VOLUME"@);
    assert(ps[6].name@ == "NOISE GATE THRESHOLD"@);
    assert(ps[7].name@ == "NOISE GATE RELEASE"@);
        if eq_ignore_ascii_case(name, "PRESENCE"@) {

            assert forall|j: int| 0 <= j < 0 implies !(#[trigger] param_named(name)(ps[j])) by {
                
            }
            lemma_case_same(name, "PRESENCE"@, ps[0].name@);
            assert(eq_ignore_ascii_case("PRESENCE"@, "PRESENCE"@));
            assert(is_first(ps, param_named(name), 0));
            lemma_first_at(ps, param_named(name), 0);
        }
        if eq_ignore_ascii_case(name, "BASS"@) {

            assert forall|j: int| 0 <= j < 1 implies !(#[trigger] param_named(name)(ps[j])) by {
                if j == 0 { lemma_case_same(name, "BASS"@, ps[0].name@); }
            }
            lemma_case_same(name, "BASS"@, ps[1].name@);
            assert(eq_ignore_ascii_case("BASS"@, "BASS"@));
            assert(is_first(ps, param_named(name), 1));
            lemma_first_at(ps, param_named(name), 1);
        }
        if eq_ignore_ascii_case(name, "MIDDLE"@) {

            assert forall|j: int| 0 <= j < 2 implies !(#[trigger] param_named(name)(ps[j])) by {
                if j == 0 { lemma_case_same(name, "MIDDLE"@, ps[0].name@); } else if j == 1 { lemma_case_same(name, "MIDDLE"@, ps[1].name@); }
            }
            lemma_case_same(name, "MIDDLE"@, ps[2].name@);
            assert(eq_ignore_ascii_case("MIDDLE"@, "MIDDLE"@));
            assert(is_first(ps, param_named(name), 2));
            lemma_first_at(ps, param_named(name), 2);
        }
        if eq_ignore_ascii_case(name, "TREBLE"@) {
            lemma_differ_at("MIDDLE"@, "TREBLE"@, 0);
            assert forall|j: int| 0 <= j < 3 implies !(#[trigger] param_named(name)(ps[j])) by {
                if j == 0 { lemma_case_same(name, "TREBLE"@, ps[0].name@); } else if j == 1 { lemma_case_same(name, "TREBLE"@, ps[1].name@); } else if j == 2 { lemma_case_same(name, "TREBLE"@, ps[2].name@); }
            }
            lemma_case_same(name, "TREBLE"@, ps[3].name@);
            assert(eq_ignore_ascii_case("TREBLE"@, "TREBLE"@));
            assert(is_first(ps, param_named(name), 3));
            lemma_first_at(ps, param_named(name), 3);
        }
        if eq_ignore_ascii_case(name, "PREAMP VOLUME"@) {

            assert forall|j: int| 0 <= j < 4 implies !(#[trigger] param_named(name)(ps[j])) by {
                if j == 0 { lemma_case_same(name, "PREAMP VOLUME"@, ps[0].name@); } else if j == 1 { lemma_case_same(name, "PREAMP VOLUME"@, ps[1].name@); } else if j == 2 { lemma_case_same(name, "PREAMP VOLUME"@, ps[2].name@); } else if j == 3 { lemma_case_same(name, "PREAMP VOLUME"@, ps[3].name@); }
            }
            lemma_case_same(name, "PREAMP VOLUME"@, ps[4].name@);
            assert(eq_ignore_ascii_case("PREAMP VOLUME"@, "PREAMP VOLUME"@));
            assert(is_first(ps, param_named(name), 4));
            lemma_first_at(ps, param_named(name), 4);
        }
        if eq_ignore_ascii_case(name, "MASTER VOLUME"@) {
            lemma_differ_at("PREAMP VOLUME"@, "MASTER VOLUME"@, 0);
            assert forall|j: int| 0 <= j < 5 implies !(#[trigger] param_named(name)(ps[j])) by {
                if j == 0 { lemma_case_same(name, "MASTER VOLUME"@, ps[0].name@); } else if j == 1 { lemma_case_same(name, "MASTER VOLUME"@, ps[1].name@); } else if j == 2 { lemma_case_same(name, "MASTER VOLUME"@, ps[2].name@); } else if j == 3 { lemma_case_same(name, "MASTER VOLUME"@, ps[3].name@); } else if j == 4 { lemma_case_same(name, "MASTER VOLUME"@, ps[4].name@); }
            }
            lemma_case_same(name, "MASTER VOLUME"@, ps[5].name@);
            assert(eq_ignore_ascii_case("MASTER VOLUME"@, "MASTER VOLUME"@));
            assert(is_first(ps, param_named(name), 5));
            lemma_first_at(ps, param_named(name), 5);
        }
        if eq_ignore_ascii_case(name, "NOISE GATE THRESHOLD"@) {

            assert forall|j: int| 0 <= j < 6 implies !(#[trigger] param_named(name)(ps[j])) by {
                if j == 0 { lemma_case_same(name, "NOISE GATE THRESHOLD"@, ps[0].name@); } else if j == 1 { lemma_case_same(name, "NOISE GATE THRESHOLD"@, ps[1].name@); } else if j == 2 { lemma_case_same(name, "NOISE GATE THRESHOLD"@, ps[2].name@); } else if j == 3 { lemma_case_same(name, "NOISE GATE THRESHOLD"@, ps[3].name@); } else if j == 4 { lemma_case_same(name, "NOISE GATE THRESHOLD"@, ps[4].name@); } else if j == 5 { lemma_case_same(name, "NOISE GATE THRESHOLD"@, ps[5].name@); }
            }
            lemma_case_same(name, "NOISE GATE THRESHOLD"@, ps[6].name@);
            assert(eq_ignore_ascii_case("NOISE GATE THRESHOLD"@, "NOISE GATE THRESHOLD"@));
            assert(is_first(ps, param_named(name), 6));
            lemma_first_at(ps, param_named(name), 6);
        }
        if eq_ignore_ascii_case(name, "NOISE GATE RELEASE"@) {

            assert forall|j: int| 0 <= j < 7 implies !(#[trigger] param_named(name)(ps[j])) by {
                if j == 0 { lemma_case_same(name, "NOISE GATE RELEASE"@, ps[0].name@); } else if j == 1 { lemma_case_same(name, "NOISE GATE RELEASE"@, ps[1].name@); } else if j == 2 { lemma_case_same(name, "NOISE GATE RELEASE"@, ps[2].name@); } else if j == 3 { lemma_case_same(name, "NOISE GATE RELEASE"@, ps[3].name@); } else if j == 4 { lemma_case_same(name, "NOISE GATE RELEASE"@, ps[4].name@); } else if j == 5 { lemma_case_same(name, "NOISE GATE RELEASE"@, ps[5].name@); } else if j == 6 { lemma_case_same(name, "NOISE GATE RELEASE"@, ps[6].name@); }
            }
            lemma_case_same(name, "NOISE GATE RELEASE"@, ps[7].name@);
            assert(eq_ignore_ascii_case("NOISE GATE RELEASE"@, "NOISE GATE RELEASE"@));
            assert(is_first(ps, param_named(name), 7));
            lemma_first_at(ps, param_named(name), 7);
        }
}

/// The User Guide CC chart for the M-2 Lead: with the amp named in any ASCII
/// case, each of its controls, named in any ASCII case, resolves to its chart
/// CC and value kind.
#[verifier::rlimit(40)]
pub proof fn lemma_chart_m_2_lead(name: Seq<char>, amp: Seq<char>)
    requires
        eq_ignore_ascii_case(amp, "M-2 Lead"@),
    ensures
        eq_ignore_ascii_case(name, "VOLUME"@) ==> resolve_cc_spec(name, Some(amp), None) == Some((13u8, Kind::Knob)),
        eq_ignore_ascii_case(name, "TREBLE"@) ==> resolve_cc_spec(name, Some(amp), None) == Some((14u8, Kind::Knob)),
        eq_ignore_ascii_case(name, "BASS"@) ==> resolve_cc_spec(name, Some(amp), None) == Some((15u8, Kind::Knob)),
        eq_ignore_ascii_case(name, "MIDDLE"@) ==> resolve_cc_spec(name, Some(amp), None) == Some((16u8, Kind::Knob)),
        eq_ignore_ascii_case(name, "DRIVE"@) ==> resolve_cc_spec(name, Some(amp), None) == Some((21u8, Kind::Knob)),
        eq_ignore_ascii_case(name, "MASTER"@) ==> resolve_cc_spec(name, Some(amp), None) == Some((10u8, Kind::Knob)),
        eq_ignore_ascii_case(name, "BRIGHT"@) ==> resolve_cc_spec(name, Some(amp), None) == Some((112u8, Kind::Switch { off: "Off", on: "On" })),
        eq_ignore_ascii_case(name, "PRESENCE"@) ==> resolve_cc_spec(name, Some(amp), None) == Some((3u8, Kind::Knob)),
        eq_ignore_ascii_case(name, "NOISE GATE THRESHOLD"@) ==> resolve_cc_spec(name, Some(amp), None) == Some((84u8, Kind::Knob)),
        eq_ignore_ascii_case(name, "NOISE GATE RELEASE"@) ==> resolve_cc_spec(name, Some(amp), None) == Some((24u8, Kind::Knob)),
{
    reveal_strlit("AC Hi Boost");
    reveal_strlit("BASS");
    reveal_strlit("BRIGHT");
    reveal_strlit("Black Panel Duo");
    reveal_strlit("Black Panel Lux Normal");
    reveal_strlit("Black Panel Lux Vibrato");
    reveal_strlit("DRIVE");
    reveal_strlit("Lead 800 - 100W");
    reveal_strlit("M-2 Lead");
    reveal_strlit("MASTER");
    reveal_strlit("MIDDLE");
    reveal_strlit("NOISE GATE RELEASE");
    reveal_strlit("NOISE GATE THRESHOLD");
    reveal_strlit("PRESENCE");
    reveal_strlit("Plexiglas - 100W");
    reveal_strlit("TREBLE");
    reveal_strlit("Tweed Bass");
    reveal_strlit("Tweed Lux");
    reveal_strlit("VOLUME");
    let t = amp_table();
    assert(t[0].name@ == "Tweed Lux"@);
    assert(t[1].name@ == "Tweed Bass"@);
    assert(t[2].name@ == "Black Panel Lux Vibrato"@);
    assert(t[3].name@ == "Black Panel Lux Normal"@);
    assert(t[4].name@ == "AC Hi Boost"@);
    assert(t[5].name@ == "Black Panel Duo"@);
    assert(t[6].name@ == "Plexiglas - 100W"@);
    assert(t[7].name@ == "Lead 800 - 100W"@);
    assert(t[8].name@ == "M-2 Lead"@);

    assert forall|j: int| 0 <= j < 8 implies !(#[trigger] amp_named(amp)(t[j])) by {
        if j == 0 { lemma_case_same(amp, "M-2 Lead"@, t[0].name@); } else if j == 1 { lemma_case_same(amp, "M-2 Lead"@, t[1].name@); } else if j == 2 { lemma_case_same(amp, "M-2 Lead"@, t[2].name@); } else if j == 3 { lemma_case_same(amp, "M-2 Lead"@, t[3].name@); } else if j == 4 { lemma_case_same(amp, "M-2 Lead"@, t[4].name@); } else if j == 5 { lemma_case_same(amp, "M-2 Lead"@, t[5].name@); } else if j == 6 { lemma_case_same(amp, "M-2 Lead"@, t[6].name@); } else if j == 7 { lemma_case_same(amp, "M-2 Lead"@, t[7].name@); }
    }
    lemma_case_same(amp, "M-2 Lead"@, t[8].name@);
    assert(eq_ignore_ascii_case("M-2 Lead"@, "M-2 Lead"@));
    assert(is_first(t, amp_named(amp), 8));
    lemma_first_at(t, amp_named(amp), 8);
    let ps = t[8].params;
    assert(ps[0].name@ == "VOLUME"@);
    assert(ps[1].name@ == "TREBLE"@);
    assert(ps[2].name@ == "BASS"@);
    assert(ps[3].name@ == "MIDDLE"@);
    assert(ps[4].name@ == "DRIVE"@);
    assert(ps[5].name@ == "MASTER"@);
    assert(ps[6].name@ == "BRIGHT"@);
    assert(ps[7].name@ == "PRESENCE"@);
    assert(ps[8].name@ == "NOISE GATE THRESHOLD"@);
    assert(ps[9].name@ == "NOISE GATE RELEASE"@);
        if eq_ignore_ascii_case(name, "VOLUME"@) {

            assert forall|j: int| 0 <= j < 0 implies !(#[trigger] param_named(name)(ps[j])) by {
                
            }
            lemma_case_same(name, "VOLUME"@, ps[0].name@);
            assert(eq_ignore_ascii_case("VOLUME"@, "VOLUME"@));
            assert(is_first(ps, param_named(name), 0));
            lemma_first_at(ps, param_named(name), 0);
        }
        if eq_ignore_ascii_case(name, "TREBLE"@) {
            lemma_differ_at("VOLUME"@, "TREBLE"@, 0);
            assert forall|j: int| 0 <= j < 1 implies !(#[trigger] param_named(name)(ps[j])) by {
                if j == 0 { lemma_case_same(name, "TREBLE"@, ps[0].name@); }
            }
            lemma_case_same(name, "TREBLE"@, ps[1].name@);
            assert(eq_ignore_ascii_case("TREBLE"@, "TREBLE"@));
            assert(is_first(ps, param_named(name), 1));
            lemma_first_at(ps, param_named(name), 1);
        }
        if eq_ignore_ascii_case(name, "BASS"@) {

            assert forall|j: int| 0 <= j < 2 implies !(#[trigger] param_named(name)(ps[j])) by {
                if j == 0 { lemma_case_same(name, "BASS"@, ps[0].name@); } else if j == 1 { lemma_case_same(name, "BASS"@, ps[1].name@); }
            }
            lemma_case_same(name, "BASS"@, ps[2].name@);
            assert(eq_ignore_ascii_case("BASS"@, "BASS"@));
            assert(is_first(ps, param_named(name), 2));
            lemma_first_at(ps, param_named(name), 2);
        }
        if eq_ignore_ascii_case(name, "MIDDLE"@) {
            lemma_differ_at("VOLUME"@, "MIDDLE"@, 0);
            lemma_differ_at("TREBLE"@, "MIDDLE"@, 0);
            assert forall|j: int| 0 <= j < 3 implies !(#[trigger] param_named(name)(ps[j])) by {
                if j == 0 { lemma_case_same(name, "MIDDLE"@, ps[0].name@); } else if j == 1 { lemma_case_same(name, "MIDDLE"@, ps[1].name@); } else if j == 2 { lemma_case_same(name, "MIDDLE"@, ps[2].name@); }
            }
            lemma_case_same(name, "MIDDLE"@, ps[3].name@);
            assert(eq_ignore_ascii_case("MIDDLE"@, "MIDDLE"@));
            assert(is_first(ps, param_named(name), 3));
            lemma_first_at(ps, param_named(name), 3);
        }
        if eq_ignore_ascii_case(name, "DRIVE"@) {

            assert forall|j: int| 0 <= j < 4 implies !(#[trigger] param_named(name)(ps[j])) by {
                if j == 0 { lemma_case_same(name, "DRIVE"@, ps[0].name@); } else if j == 1 { lemma_case_same(name, "DRIVE"@, ps[1].name@); } else if j == 2 { lemma_case_same(name, "DRIVE"@, ps[2].name@); } else if j == 3 { lemma_case_same(name, "DRIVE"@, ps[3].name@); }
            }
            lemma_case_same(name, "DRIVE"@, ps[4].name@);
            assert(eq_ignore_ascii_case("DRIVE"@, "DRIVE"@));
            assert(is_first(ps, param_named(name), 4));
            lemma_first_at(ps, param_named(name), 4);
        }
        if eq_ignore_ascii_case(name, "MASTER"@) {
            lemma_differ_at("VOLUME"@, "MASTER"@, 0);
            lemma_differ_at("TREBLE"@, "MASTER"@, 0);
            lemma_differ_at("MIDDLE"@, "MASTER"@, 1);
            assert forall|j: int| 0 <= j < 5 implies !(#[trigger] param_named(name)(ps[j])) by {
                if j == 0 { lemma_case_same(name, "MASTER"@, ps[0].name@); } else if j == 1 { lemma_case_same(name, "MASTER"@, ps[1].name@); } else if j == 2 { lemma_case_same(name, "MASTER"@, ps[2].name@); } else if j == 3 { lemma_case_same(name, "MASTER"@, ps[3].name@); } else if j == 4 { lemma_case_same(name, "MASTER"@, ps[4].name@); }
            }
            lemma_case_same(name, "MASTER"@, ps[5].name@);
            assert(eq_ignore_ascii_case("MASTER"@, "MASTER"@));
            assert(is_first(ps, param_named(name), 5));
            lemma_first_at(ps, param_named(name), 5);
        }
        if eq_ignore_ascii_case(name, "BRIGHT"@) {
            lemma_differ_at("VOLUME"@, "BRIGHT"@, 0);
            lemma_differ_at("TREBLE"@, "BRIGHT"@, 0);
            lemma_differ_at("MIDDLE"@, "BRIGHT"@, 0);
            lemma_differ_at("MASTER"@, "BRIGHT"@, 0);
            assert forall|j: int| 0 <= j < 6 implies !(#[trigger] param_named(name)(ps[j])) by {
                if j == 0 { lemma_case_same(name, "BRIGHT"@, ps[0].name@); } else if j == 1 { lemma_case_same(name, "BRIGHT"@, ps[1].name@); } else if j == 2 { lemma_case_same(name, "BRIGHT"@, ps[2].name@); } else if j == 3 { lemma_case_same(name, "BRIGHT"@, ps[3].name@); } else if j == 4 { lemma_case_same(name, "BRIGHT"@, ps[4].name@); } else if j == 5 { lemma_case_same(name, "BRIGHT"@, ps[5].name@); }
            }
            lemma_case_same(name, "BRIGHT"@, ps[6].name@);
            assert(eq_ignore_ascii_case("BRIGHT"@, "BRIGHT"@));
            assert(is_first(ps, param_named(name), 6));
            lemma_first_at(ps, param_named(name), 6);
        }
        if eq_ignore_ascii_case(name, "PRESENCE"@) {

            assert forall|j: int| 0 <= j < 7 implies !(#[trigger] param_named(name)(ps[j])) by {
                if j == 0 { lemma_case_same(name, "PRESENCE"@, ps[0].name@); } else if j == 1 { lemma_case_same(name, "PRESENCE"@, ps[1].name@); } else if j == 2 { lemma_case_same(name, "PRESENCE"@, ps[2].name@); } else if j == 3 { lemma_case_same(name, "PRESENCE"@, ps[3].name@); } else if j == 4 { lemma_case_same(name, "PRESENCE"@, ps[4].name@); } else if j == 5 { lemma_case_same(name, "PRESENCE"@, ps[5].name@); } else if j == 6 { lemma_case_same(name, "PRESENCE"@, ps[6].name@); }
            }
            lemma_case_same(name, "PRESENCE"@, ps[7].name@);
            assert(eq_ignore_ascii_case("PRESENCE"@, "PRESENCE"@));
            assert(is_first(ps, param_named(name), 7));
            lemma_first_at(ps, param_named(name), 7);
        }
        if eq_ignore_ascii_case(name, "NOISE GATE THRESHOLD"@) {

            assert forall|j: int| 0 <= j < 8 implies !(#[trigger] param_named(name)(ps[j])) by {
                if j == 0 { lemma_case_same(name, "NOISE GATE THRESHOLD"@, ps[0].name@); } else if j == 1 { lemma_case_same(name, "NOISE GATE THRESHOLD"@, ps[1].name@); } else if j == 2 { lemma_case_same(name, "NOISE GATE THRESHOLD"@, ps[2].name@); } else if j == 3 { lemma_case_same(name, "NOISE GATE THRESHOLD"@, ps[3].name@); } else if j == 4 { lemma_case_same(name, "NOISE GATE THRESHOLD"@, ps[4].name@); } else if j == 5 { lemma_case_same(name, "NOISE GATE THRESHOLD"@, ps[5].name@); } else if j == 6 { lemma_case_same(name, "NOISE GATE THRESHOLD"@, ps[6].name@); } else if j == 7 { lemma_case_same(name, "NOISE GATE THRESHOLD"@, ps[7].name@); }
            }
            lemma_case_same(name, "NOISE GATE THRESHOLD"@, ps[8].name@);
            assert(eq_ignore_ascii_case("NOISE GATE THRESHOLD"@, "NOISE GATE THRESHOLD"@));
            assert(is_first(ps, param_named(name), 8));
            lemma_first_at(ps, param_named(name), 8);
        }
        if eq_ignore_ascii_case(name, "NOISE GATE RELEASE"@) {

            assert forall|j: int| 0 <= j < 9 implies !(#[trigger] param_named(name)(ps[j])) by {
                if j == 0 { lemma_case_same(name, "NOISE GATE RELEASE"@, ps[0].name@); } else if j == 1 { lemma_case_same(name, "NOISE GATE RELEASE"@, ps[1].name@); } else if j == 2 { lemma_case_same(name, "NOISE GATE RELEASE"@, ps[2].name@); } else if j == 3 { lemma_case_same(name, "NOISE GATE RELEASE"@, ps[3].name@); } else if j == 4 { lemma_case_same(name, "NOISE GATE RELEASE"@, ps[4].name@); } else if j == 5 { lemma_case_same(name, "NOISE GATE RELEASE"@, ps[5].name@); } else if j == 6 { lemma_case_same(name, "NOISE GATE RELEASE"@, ps[6].name@); } else if j == 7 { lemma_case_same(name, "NOISE GATE RELEASE"@, ps[7].name@); } else if j == 8 { lemma_case_same(name, "NOISE GATE RELEASE"@, ps[8].name@); }
            }
            lemma_case_same(name, "NOISE GATE RELEASE"@, ps[9].name@);
            assert(eq_ignore_ascii_case("NOISE GATE RELEASE"@, "NOISE GATE RELEASE"@));
            assert(is_first(ps, param_named(name), 9));
            lemma_first_at(ps, param_named(name), 9);
        }
}

/// The User Guide CC chart for the SL-100 Drive: with the amp named in any ASCII
/// case, each of its controls, named in any ASCII case, resolves to its chart
/// CC and value kind.
#[verifier::rlimit(40)]
pub proof fn lemma_chart_sl_100_drive(name: Seq<char>, amp: Seq<char>)
    requires
        eq_ignore_ascii_case(amp, "SL-100 Drive"@),
    ensures
        eq_ignore_ascii_case(name, "PREAMP"@) ==> resolve_cc_spec(name, Some(amp), None) == Some((13u8, Kind::Knob)),
        eq_ignore_ascii_case(name, "BASS"@) ==> resolve_cc_spec(name, Some(amp), None) == Some((14u8, Kind::Knob)),
        eq_ignore_ascii_case(name, "MIDDLE"@) ==> resolve_cc_spec(name, Some(amp), None) == Some((15u8, Kind::Knob)),
        eq_ignore_ascii_case(name, "TREBLE"@) ==> resolve_cc_spec(name, Some(amp), None) == Some((16u8, Kind::Knob)),
        eq_ignore_ascii_case(name, "PRESENCE"@) ==> resolve_cc_spec(name, Some(amp), None) == Some((21u8, Kind::Knob)),
        eq_ignore_ascii_case(name, "MASTER"@) ==> resolve_cc_spec(name, Some(amp), None) == Some((10u8, Kind::Knob)),
        eq_ignore_ascii_case(name, "MOD"@) ==> resolve_cc_spec(name, Some(amp), None) == Some((112u8, Kind::Switch { off: "Off", on: "On" })),
        eq_ignore_ascii_case(name, "NOISE GATE THRESHOLD"@) ==> resolve_cc_spec(name, Some(amp), None) == Some((3u8, Kind::Knob)),
        eq_ignore_ascii_case(name, "NOISE GATE RELEASE"@) ==> resolve_cc_spec(name, Some(amp), None) == Some((84u8, Kind::Knob)),
{
    reveal_strlit("AC Hi Boost");
    reveal_strlit("BASS");
    reveal_strlit("Black Panel Duo");
    reveal_strlit("Black Panel Lux Normal");
    reveal_strlit("Black Panel Lux Vibrato");
    reveal_strlit("Lead 800 - 100W");
    reveal_strlit("M-2 Lead");
    reveal_strlit("MASTER");
    reveal_strlit("MIDDLE");
    reveal_strlit("MOD");
    reveal_strlit("NOISE GATE RELEASE");
    reveal_strlit("NOISE GATE THRESHOLD");
    reveal_strlit("PREAMP");
    reveal_strlit("PRESENCE");
    reveal_strlit("Plexiglas - 100W");
    reveal_strlit("SL-100 Drive");
    reveal_strlit("TREBLE");
    reveal_strlit("Tweed Bass");
    reveal_strlit("Tweed Lux");
    let t = amp_table();
    assert(t[0].name@ == "Tweed Lux"@);
    assert(t[1].name@ == "Tweed Bass"@);
    assert(t[2].name@ == "Black Panel Lux Vibrato"@);
    assert(t[3].name@ == "Black Panel Lux Normal"@);
    assert(t[4].name@ == "AC Hi Boost"@);
    assert(t[5].name@ == "Black Panel Duo"@);
    assert(t[6].name@ == "Plexiglas - 100W"@);
    assert(t[7].name@ == "Lead 800 - 100W"@);
    assert(t[8].name@ == "M-2 Lead"@);
    assert(t[9].name@ == "SL-100 Drive"@);

    assert forall|j: int| 0 <= j < 9 implies !(#[trigger] amp_named(amp)(t[j])) by {
        if j == 0 { lemma_case_same(amp, "SL-100 Drive"@, t[0].name@); } else if j == 1 { lemma_case_same(amp, "SL-100 Drive"@, t[1].name@); } else if j == 2 { lemma_case_same(amp, "SL-100 Drive"@, t[2].name@); } else if j == 3 { lemma_case_same(amp, "SL-100 Drive"@, t[3].name@); } else if j == 4 { lemma_case_same(amp, "SL-100 Drive"@, t[4].name@); } else if j == 5 { lemma_case_same(amp, "SL-100 Drive"@, t[5].name@); } else if j == 6 { lemma_case_same(amp, "SL-100 Drive"@, t[6].name@); } else if j == 7 { lemma_case_same(amp, "SL-100 Drive"@, t[7].name@); } else if j == 8 { lemma_case_same(amp, "SL-100 Drive"@, t[8].name@); }
    }
    lemma_case_same(amp, "SL-100 Drive"@, t[9].name@);
    assert(eq_ignore_ascii_case("SL-100 Drive"@, "SL-100 Drive"@));
    assert(is_first(t, amp_named(amp), 9));
    lemma_first_at(t, amp_named(amp), 9);
    let ps = t[9].params;
    assert(ps[0].name@ == "PREAMP"@);
    assert(ps[1].name@ == "BASS"@);
    assert(ps[2].name@ == "MIDDLE"@);
    assert(ps[3].name@ == "TREBLE"@);
    assert(ps[4].name@ == "PRESENCE"@);
    assert(ps[5].name@ == "MASTER"@);
    assert(ps[6].name@ == "MOD"@);
    assert(ps[7].name@ == "NOISE GATE THRESHOLD"@);
    assert(ps[8].name@ == "NOISE GATE RELEASE"@);
        if eq_ignore_ascii_case(name, "PREAMP"@) {

            assert forall|j: int| 0 <= j < 0 implies !(#[trigger] param_named(name)(ps[j])) by {
                
            }
            lemma_case_same(name, "PREAMP"@, ps[0].name@);
            assert(eq_ignore_ascii_case("PREAMP"@, "PREAMP"@));
            assert(is_first(ps, param_named(name), 0));
            lemma_first_at(ps, param_named(name), 0);
        }
        if eq_ignore_ascii_case(name, "BASS"@) {

            assert forall|j: int| 0 <= j < 1 implies !(#[trigger] param_named(name)(ps[j])) by {
                if j == 0 { lemma_case_same(name, "BASS"@, ps[0].name@); }
            }
            lemma_case_same(name, "BASS"@, ps[1].name@);
            assert(eq_ignore_ascii_case("BASS"@, "BASS"@));
            assert(is_first(ps, param_named(name), 1));
            lemma_first_at(ps, param_named(name), 1);
        }
        if eq_ignore_ascii_case(name, "MIDDLE"@) {
            lemma_differ_at("PREAMP"@, "MIDDLE"@, 0);
            assert forall|j: int| 0 <= j < 2 implies !(#[trigger] param_named(name)(ps[j])) by {
                if j == 0 { lemma_case_same(name, "MIDDLE"@, ps[0].name@); } else if j == 1 { lemma_case_same(name, "MIDDLE"@, ps[1].name@); }
            }
            lemma_case_same(name, "MIDDLE"@, ps[2].name@);
            assert(eq_ignore_ascii_case("MIDDLE"@, "MIDDLE"@));
            assert(is_first(ps, param_named(name), 2));
            lemma_first_at(ps, param_named(name), 2);
        }
        if eq_ignore_ascii_case(name, "TREBLE"@) {
            lemma_differ_at("PREAMP"@, "TREBLE"@, 0);
            lemma_differ_at("MIDDLE"@, "TREBLE"@, 0);
            assert forall|j: int| 0 <= j < 3 implies !(#[trigger] param_named(name)(ps[j])) by {
                if j == 0 { lemma_case_same(name, "TREBLE"@, ps[0].name@); } else if j == 1 { lemma_case_same(name, "TREBLE"@, ps[1].name@); } else if j == 2 { lemma_case_same(name, "TREBLE"@, ps[2].name@); }
            }
            lemma_case_same(name, "TREBLE"@, ps[3].name@);
            assert(eq_ignore_ascii_case("TREBLE"@, "TREBLE"@));
            assert(is_first(ps, param_named(name), 3));
            lemma_first_at(ps, param_named(name), 3);
        }
        if eq_ignore_ascii_case(name, "PRESENCE"@) {

            assert forall|j: int| 0 <= j < 4 implies !(#[trigger] param_named(name)(ps[j])) by {
                if j == 0 { lemma_case_same(name, "PRESENCE"@, ps[0].name@); } else if j == 1 { lemma_case_same(name, "PRESENCE"@, ps[1].name@); } else if j == 2 { lemma_case_same(name, "PRESENCE"@, ps[2].name@); } else if j == 3 { lemma_case_same(name, "PRESENCE"@, ps[3].name@); }
            }
            lemma_case_same(name, "PRESENCE"@, ps[4].name@);
            assert(eq_ignore_ascii_case("PRESENCE"@, "PRESENCE"@));
            assert(is_first(ps, param_named(name), 4));
            lemma_first_at(ps, param_named(name), 4);
        }
        if eq_ignore_ascii_case(name, "MASTER"@) {
            lemma_differ_at("PREAMP"@, "MASTER"@, 0);
            lemma_differ_at("MIDDLE"@, "MASTER"@, 1);
            lemma_differ_at("TREBLE"@, "MASTER"@, 0);
            assert forall|j: int| 0 <= j < 5 implies !(#[trigger] param_named(name)(ps[j])) by {
                if j == 0 { lemma_case_same(name, "MASTER"@, ps[0].name@); } else if j == 1 { lemma_case_same(name, "MASTER"@, ps[1].name@); } else if j == 2 { lemma_case_same(name, "MASTER"@, ps[2].name@); } else if j == 3 { lemma_case_same(name, "MASTER"@, ps[3].name@); } else if j == 4 { lemma_case_same(name, "MASTER"@, ps[4].name@); }
            }
            lemma_case_same(name, "MASTER"@, ps[5].name@);
            assert(eq_ignore_ascii_case("MASTER"@, "MASTER"@));
            assert(is_first(ps, param_named(name), 5));
            lemma_first_at(ps, param_named(name), 5);
        }
        if eq_ignore_ascii_case(name, "MOD"@) {

            assert forall|j: int| 0 <= j < 6 implies !(#[trigger] param_named(name)(ps[j])) by {
                if j == 0 { lemma_case_same(name, "MOD"@, ps[0].name@); } else if j == 1 { lemma_case_same(name, "MOD"@, ps[1].name@); } else if j == 2 { lemma_case_same(name, "MOD"@, ps[2].name@); } else if j == 3 { lemma_case_same(name, "MOD"@, ps[3].name@); } else if j == 4 { lemma_case_same(name, "MOD"@, ps[4].name@); } else if j == 5 { lemma_case_same(name, "MOD"@, ps[5].name@); }
            }
            lemma_case_same(name, "MOD"@, ps[6].name@);
            assert(eq_ignore_ascii_case("MOD"@, "MOD"@));
            assert(is_first(ps, param_named(name), 6));
            lemma_first_at(ps, param_named(name), 6);
        }
        if eq_ignore_ascii_case(name, "NOISE GATE THRESHOLD"@) {

            assert forall|j: int| 0 <= j < 7 implies !(#[trigger] param_named(name)(ps[j])) by {
                if j == 0 { lemma_case_same(name, "NOISE GATE THRESHOLD"@, ps[0].name@); } else if j == 1 { lemma_case_same(name, "NOISE GATE THRESHOLD"@, ps[1].name@); } else if j == 2 { lemma_case_same(name, "NOISE GATE THRESHOLD"@, ps[2].name@); } else if j == 3 { lemma_case_same(name, "NOISE GATE THRESHOLD"@, ps[3].name@); } else if j == 4 { lemma_case_same(name, "NOISE GATE THRESHOLD"@, ps[4].name@); } else if j == 5 { lemma_case_same(name, "NOISE GATE THRESHOLD"@, ps[5].name@); } else if j == 6 { lemma_case_same(name, "NOISE GATE THRESHOLD"@, ps[6].name@); }
            }
            lemma_case_same(name, "NOISE GATE THRESHOLD"@, ps[7].name@);
            assert(eq_ignore_ascii_case("NOISE GATE THRESHOLD"@, "NOISE GATE THRESHOLD"@));
            assert(is_first(ps, param_named(name), 7));
            lemma_first_at(ps, param_named(name), 7);
        }
        if eq_ignore_ascii_case(name, "NOISE GATE RELEASE"@) {

            assert forall|j: int| 0 <= j < 8 implies !(#[trigger] param_named(name)(ps[j])) by {
                if j == 0 { lemma_case_same(name, "NOISE GATE RELEASE"@, ps[0].name@); } else if j == 1 { lemma_case_same(name, "NOISE GATE RELEASE"@, ps[1].name@); } else if j == 2 { lemma_case_same(name, "NOISE GATE RELEASE"@, ps[2].name@); } else if j == 3 { lemma_case_same(name, "NOISE GATE RELEASE"@, ps[3].name@); } else if j == 4 { lemma_case_same(name, "NOISE GATE RELEASE"@, ps[4].name@); } else if j == 5 { lemma_case_same(name, "NOISE GATE RELEASE"@, ps[5].name@); } else if j == 6 { lemma_case_same(name, "NOISE GATE RELEASE"@, ps[6].name@); } else if j == 7 { lemma_case_same(name, "NOISE GATE RELEASE"@, ps[7].name@); }
            }
            lemma_case_same(name, "NOISE GATE RELEASE"@, ps[8].name@);
            assert(eq_ignore_ascii_case("NOISE GATE RELEASE"@, "NOISE GATE RELEASE"@));
            assert(is_first(ps, param_named(name), 8));
            lemma_first_at(ps, param_named(name), 8);
        }
}

/// The User Guide CC chart for the SL-100 Crunch: with the amp named in any ASCII
/// case, each of its controls, named in any ASCII case, resolves to its chart
/// CC and value kind.
#[verifier::rlimit(40)]
pub proof fn lemma_chart_sl_100_crunch(name: Seq<char>, amp: Seq<char>)
    requires
        eq_ignore_ascii_case(amp, "SL-100 Crunch"@),
    ensures
        eq_ignore_ascii_case(name, "PREAMP"@) ==> resolve_cc_spec(name, Some(amp), None) == Some((13u8, Kind::Knob)),
        eq_ignore_ascii_case(name, "BASS"@) ==> resolve_cc_spec(name, Some(amp), None) == Some((14u8, Kind::Knob)),
        eq_ignore_ascii_case(name, "MIDDLE"@) ==> resolve_cc_spec(name, Some(amp), None) == Some((15u8, Kind::Knob)),
        eq_ignore_ascii_case(name, "TREBLE"@) ==> resolve_cc_spec(name, Some(amp), None) == Some((16u8, Kind::Knob)),
        eq_ignore_ascii_case(name, "PRESENCE"@) ==> resolve_cc_spec(name, Some(amp), None) == Some((21u8, Kind::Knob)),
        eq_ignore_ascii_case(name, "MASTER"@) ==> resolve_cc_spec(name, Some(amp), None) == Some((10u8, Kind::Knob)),
        eq_ignore_ascii_case(name, "BRIGHT"@) ==> resolve_cc_spec(name, Some(amp), None) == Some((112u8, Kind::Switch { off: "Off", on: "On" })),
        eq_ignore_ascii_case(name, "NOISE GATE THRESHOLD"@) ==> resolve_cc_spec(name, Some(amp), None) == Some((3u8, Kind::Knob)),
        eq_ignore_ascii_case(name, "NOISE GATE RELEASE"@) ==> resolve_cc_spec(name, Some(amp), None) == Some((84u8, Kind::Knob)),
{
    reveal_strlit("AC Hi Boost");
    reveal_strlit("BASS");
    reveal_strlit("BRIGHT");
    reveal_strlit("Black Panel Duo");
    reveal_strlit("Black Panel Lux Normal");
    reveal_strlit("Black Panel Lux Vibrato");
    reveal_strlit("Lead 800 - 100W");
    reveal_strlit("M-2 Lead");
    reveal_strlit("MASTER");
    reveal_strlit("MIDDLE");
    reveal_strlit("NOISE GATE RELEASE");
    reveal_strlit("NOISE GATE THRESHOLD");
    reveal_strlit("PREAMP");
    reveal_strlit("PRESENCE");
    reveal_strlit("Plexiglas - 100W");
    reveal_strlit("SL-100 Crunch");
    reveal_strlit("SL-100 Drive");
    reveal_strlit("TREBLE");
    reveal_strlit("Tweed Bass");
    reveal_strlit("Tweed Lux");
    let t = amp_table();
    assert(t[0].name@ == "Tweed Lux"@);
    assert(t[1].name@ == "Tweed Bass"@);
    assert(t[2].name@ == "Black Panel Lux Vibrato"@);
    assert(t[3].name@ == "Black Panel Lux Normal"@);
    assert(t[4].name@ == "AC Hi Boost"@);
    assert(t[5].name@ == "Black Panel Duo"@);
    assert(t[6].name@ == "Plexiglas - 100W"@);
    assert(t[7].name@ == "Lead 800 - 100W"@);
    assert(t[8].name@ == "M-2 Lead"@);
    assert(t[9].name@ == "SL-100 Drive"@);
    assert(t[10].name@ == "SL-100 Crunch"@);

    assert forall|j: int| 0 <= j < 10 implies !(#[trigger] amp_named(amp)(t[j])) by {
        if j == 0 { lemma_case_same(amp, "SL-100 Crunch"@, t[0].name@); } else if j == 1 { lemma_case_same(amp, "SL-100 Crunch"@, t[1].name@); } else if j == 2 { lemma_case_same(amp, "SL-100 Crunch"@, t[2].name@); } else if j == 3 { lemma_case_same(amp, "SL-100 Crunch"@, t[3].name@); } else if j == 4 { lemma_case_same(amp, "SL-100 Crunch"@, t[4].name@); } else if j == 5 { lemma_case_same(amp, "SL-100 Crunch"@, t[5].name@); } else if j == 6 { lemma_case_same(amp, "SL-100 Crunch"@, t[6].name@); } else if j == 7 { lemma_case_same(amp, "SL-100 Crunch"@, t[7].name@); } else if j == 8 { lemma_case_same(amp, "SL-100 Crunch"@, t[8].name@); } else if j == 9 { lemma_case_same(amp, "SL-100 Crunch"@, t[9].name@); }
    }
    lemma_case_same(amp, "SL-100 Crunch"@, t[10].name@);
    assert(eq_ignore_ascii_case("SL-100 Crunch"@, "SL-100 Crunch"@));
    assert(is_first(t, amp_named(amp), 10));
    lemma_first_at(t, amp_named(amp), 10);
    let ps = t[10].params;
    assert(ps[0].name@ == "PREAMP"@);
    assert(ps[1].name@ == "BASS"@);
    assert(ps[2].name@ == "MIDDLE"@);
    assert(ps[3].name@ == "TREBLE"@);
    assert(ps[4].name@ == "PRESENCE"@);
    assert(ps[5].name@ == "MASTER"@);
    assert(ps[6].name@ == "BRIGHT"@);
    assert(ps[7].name@ == "NOISE GATE THRESHOLD"@);
    assert(ps[8].name@ == "NOISE GATE RELEASE"@);
        if eq_ignore_ascii_case(name, "PREAMP"@) {

            assert forall|j: int| 0 <= j < 0 implies !(#[trigger] param_named(name)(ps[j])) by {
                
            }
            lemma_case_same(name, "PREAMP"@, ps[0].name@);
            assert(eq_ignore_ascii_case("PREAMP"@, "PREAMP"@));
            assert(is_first(ps, param_named(name), 0));
            lemma_first_at(ps, param_named(name), 0);
        }
        if eq_ignore_ascii_case(name, "BASS"@) {

            assert forall|j: int| 0 <= j < 1 implies !(#[trigger] param_named(name)(ps[j])) by {
                if j == 0 { lemma_case_same(name, "BASS"@, ps[0].name@); }
            }
            lemma_case_same(name, "BASS"@, ps[1].name@);
            assert(eq_ignore_ascii_case("BASS"@, "BASS"@));
            assert(is_first(ps, param_named(name), 1));
            lemma_first_at(ps, param_named(name), 1);
        }
        if eq_ignore_ascii_case(name, "MIDDLE"@) {
            lemma_differ_at("PREAMP"@, "MIDDLE"@, 0);
            assert forall|j: int| 0 <= j < 2 implies !(#[trigger] param_named(name)(ps[j])) by {
                if j == 0 { lemma_case_same(name, "MIDDLE"@, ps[0].name@); } else if j == 1 { lemma_case_same(name, "MIDDLE"@, ps[1].name@); }
            }
            lemma_case_same(name, "MIDDLE"@, ps[2].name@);
            assert(eq_ignore_ascii_case("MIDDLE"@, "MIDDLE"@));
            assert(is_first(ps, param_named(name), 2));
            lemma_first_at(ps, param_named(name), 2);
        }
        if eq_ignore_ascii_case(name, "TREBLE"@) {
            lemma_differ_at("PREAMP"@, "TREBLE"@, 0);
            lemma_differ_at("MIDDLE"@, "TREBLE"@, 0);
            assert forall|j: int| 0 <= j < 3 implies !(#[trigger] param_named(name)(ps[j])) by {
                if j == 0 { lemma_case_same(name, "TREBLE"@, ps[0].name@); } else if j == 1 { lemma_case_same(name, "TREBLE"@, ps[1].name@); } else if j == 2 { lemma_case_same(name, "TREBLE"@, ps[2].name@); }
            }
            lemma_case_same(name, "TREBLE"@, ps[3].name@);
            assert(eq_ignore_ascii_case("TREBLE"@, "TREBLE"@));
            assert(is_first(ps, param_named(name), 3));
            lemma_first_at(ps, param_named(name), 3);
        }
        if eq_ignore_ascii_case(name, "PRESENCE"@) {

            assert forall|j: int| 0 <= j < 4 implies !(#[trigger] param_named(name)(ps[j])) by {
                if j == 0 { lemma_case_same(name, "PRESENCE"@, ps[0].name@); } else if j == 1 { lemma_case_same(name, "PRESENCE"@, ps[1].name@); } else if j == 2 { lemma_case_same(name, "PRESENCE"@, ps[2].name@); } else if j == 3 { lemma_case_same(name, "PRESENCE"@, ps[3].name@); }
            }
            lemma_case_same(name, "PRESENCE"@, ps[4].name@);
            assert(eq_ignore_ascii_case("PRESENCE"@, "PRESENCE"@));
            assert(is_first(ps, param_named(name), 4));
            lemma_first_at(ps, param_named(name), 4);
        }
        if eq_ignore_ascii_case(name, "MASTER"@) {
            lemma_differ_at("PREAMP"@, "MASTER"@, 0);
            lemma_differ_at("MIDDLE"@, "MASTER"@, 1);
            lemma_differ_at("TREBLE"@, "MASTER"@, 0);
            assert forall|j: int| 0 <= j < 5 implies !(#[trigger] param_named(name)(ps[j])) by {
                if j == 0 { lemma_case_same(name, "MASTER"@, ps[0].name@); } else if j == 1 { lemma_case_same(name, "MASTER"@, ps[1].name@); } else if j == 2 { lemma_case_same(name, "MASTER"@, ps[2].name@); } else if j == 3 { lemma_case_same(name, "MASTER"@, ps[3].name@); } else if j == 4 { lemma_case_same(name, "MASTER"@, ps[4].name@); }
            }
            lemma_case_same(name, "MASTER"@, ps[5].name@);
            assert(eq_ignore_ascii_case("MASTER"@, "MASTER"@));
            assert(is_first(ps, param_named(name), 5));
            lemma_first_at(ps, param_named(name), 5);
        }
        if eq_ignore_ascii_case(name, "BRIGHT"@) {
            lemma_differ_at("PREAMP"@, "BRIGHT"@, 0);
            lemma_differ_at("MIDDLE"@, "BRIGHT"@, 0);
            lemma_differ_at("TREBLE"@, "BRIGHT"@, 0);
            lemma_differ_at("MASTER"@, "BRIGHT"@, 0);
            assert forall|j: int| 0 <= j < 6 implies !(#[trigger] param_named(name)(ps[j])) by {
                if j == 0 { lemma_case_same(name, "BRIGHT"@, ps[0].name@); } else if j == 1 { lemma_case_same(name, "BRIGHT"@, ps[1].name@); } else if j == 2 { lemma_case_same(name, "BRIGHT"@, ps[2].name@); } else if j == 3 { lemma_case_same(name, "BRIGHT"@, ps[3].name@); } else if j == 4 { lemma_case_same(name, "BRIGHT"@, ps[4].name@); } else if j == 5 { lemma_case_same(name, "BRIGHT"@, ps[5].name@); }
            }
            lemma_case_same(name, "BRIGHT"@, ps[6].name@);
            assert(eq_ignore_ascii_case("BRIGHT"@, "BRIGHT"@));
            assert(is_first(ps, param_named(name), 6));
            lemma_first_at(ps, param_named(name), 6);
        }
        if eq_ignore_ascii_case(name, "NOISE GATE THRESHOLD"@) {

            assert forall|j: int| 0 <= j < 7 implies !(#[trigger] param_named(name)(ps[j])) by {
                if j == 0 { lemma_case_same(name, "NOISE GATE THRESHOLD"@, ps[0].name@); } else if j == 1 { lemma_case_same(name, "NOISE GATE THRESHOLD"@, ps[1].name@); } else if j == 2 { lemma_case_same(name, "NOISE GATE THRESHOLD"@, ps[2].name@); } else if j == 3 { lemma_case_same(name, "NOISE GATE THRESHOLD"@, ps[3].name@); } else if j == 4 { lemma_case_same(name, "NOISE GATE THRESHOLD"@, ps[4].name@); } else if j == 5 { lemma_case_same(name, "NOISE GATE THRESHOLD"@, ps[5].name@); } else if j == 6 { lemma_case_same(name, "NOISE GATE THRESHOLD"@, ps[6].name@); }
            }
            lemma_case_same(name, "NOISE GATE THRESHOLD"@, ps[7].name@);
            assert(eq_ignore_ascii_case("NOISE GATE THRESHOLD"@, "NOISE GATE THRESHOLD"@));
            assert(is_first(ps, param_named(name), 7));
            lemma_first_at(ps, param_named(name), 7);
        }
        if eq_ignore_ascii_case(name, "NOISE GATE RELEASE"@) {

            assert forall|j: int| 0 <= j < 8 implies !(#[trigger] param_named(name)(ps[j])) by {
                if j == 0 { lemma_case_same(name, "NOISE GATE RELEASE"@, ps[0].name@); } else if j == 1 { lemma_case_same(name, "NOISE GATE RELEASE"@, ps[1].name@); } else if j == 2 { lemma_case_same(name, "NOISE GATE RELEASE"@, ps[2].name@); } else if j == 3 { lemma_case_same(name, "NOISE GATE RELEASE"@, ps[3].name@); } else if j == 4 { lemma_case_same(name, "NOISE GATE RELEASE"@, ps[4].name@); } else if j == 5 { lemma_case_same(name, "NOISE GATE RELEASE"@, ps[5].name@); } else if j == 6 { lemma_case_same(name, "NOISE GATE RELEASE"@, ps[6].name@); } else if j == 7 { lemma_case_same(name, "NOISE GATE RELEASE"@, ps[7].name@); }
            }
            lemma_case_same(name, "NOISE GATE RELEASE"@, ps[8].name@);
            assert(eq_ignore_ascii_case("NOISE GATE RELEASE"@, "NOISE GATE RELEASE"@));
            assert(is_first(ps, param_named(name), 8));
            lemma_first_at(ps, param_named(name), 8);
        }
}

/// The User Guide CC chart for the SL-100 Clean: with the amp named in any ASCII
/// case, each of its controls, named in any ASCII case, resolves to its chart
/// CC and value kind.
#[verifier::rlimit(40)]
pub proof fn lemma_chart_sl_100_clean(name: Seq<char>, amp: Seq<char>)
    requires
        eq_ignore_ascii_case(amp, "SL-100 Clean"@),
    ensures
        eq_ignore_ascii_case(name, "PREAMP"@) ==> resolve_cc_spec(name, Some(amp), None) == Some((13u8, Kind::Knob)),
        eq_ignore_ascii_case(name, "BASS"@) ==> resolve_cc_spec(name, Some(amp), None) == Some((14u8, Kind::Knob)),
        eq_ignore_ascii_case(name, "MIDDLE"@) ==> resolve_cc_spec(name, Some(amp), None) == Some((15u8, Kind::Knob)),
        eq_ignore_ascii_case(name, "TREBLE"@) ==> resolve_cc_spec(name, Some(amp), None) == Some((16u8, Kind::Knob)),
        eq_ignore_ascii_case(name, "PRESENCE"@) ==> resolve_cc_spec(name, Some(amp), None) == Some((21u8, Kind::Knob)),
        eq_ignore_ascii_case(name, "MASTER"@) ==> resolve_cc_spec(name, Some(amp), None) == Some((10u8, Kind::Knob)),
        eq_ignore_ascii_case(name, "BRIGHT"@) ==> resolve_cc_spec(name, Some(amp), None) == Some((112u8, Kind::Switch { off: "Off", on: "On" })),
        eq_ignore_ascii_case(name, "NOISE GATE THRESHOLD"@) ==> resolve_cc_spec(name, Some(amp), None) == Some((3u8, Kind::Knob)),
        eq_ignore_ascii_case(name, "NOISE GATE RELEASE"@) ==> resolve_cc_spec(name, Some(amp), None) == Some((84u8, Kind::Knob)),
{
    reveal_strlit("AC Hi Boost");
    reveal_strlit("BASS");
    reveal_strlit("BRIGHT");
    reveal_strlit("Black Panel Duo");
    reveal_strlit("Black Panel Lux Normal");
    reveal_strlit("Black Panel Lux Vibrato");
    reveal_strlit("Lead 800 - 100W");
    reveal_strlit("M-2 Lead");
    reveal_strlit("MASTER");
    reveal_strlit("MIDDLE");
    reveal_strlit("NOISE GATE RELEASE");
    reveal_strlit("NOISE GATE THRESHOLD");
    reveal_strlit("PREAMP");
    reveal_strlit("PRESENCE");
    reveal_strlit("Plexiglas - 100W");
    reveal_strlit("SL-100 Clean");
    reveal_strlit("SL-100 Crunch");
    reveal_strlit("SL-100 Drive");
    reveal_strlit("TREBLE");
    reveal_strlit("Tweed Bass");
    reveal_strlit("Tweed Lux");
    let t = amp_table();
    assert(t[0].name@ == "Tweed Lux"@);
    assert(t[1].name@ == "Tweed Bass"@);
    assert(t[2].name@ == "Black Panel Lux Vibrato"@);
    assert(t[3].name@ == "Black Panel Lux Normal"@);
    assert(t[4].name@ == "AC Hi Boost"@);
    assert(t[5].name@ == "Black Panel Duo"@);
    assert(t[6].name@ == "Plexiglas - 100W"@);
    assert(t[7].name@ == "Lead 800 - 100W"@);
    assert(t[8].name@ == "M-2 Lead"@);
    assert(t[9].name@ == "SL-100 Drive"@);
    assert(t[10].name@ == "SL-100 Crunch"@);
    assert(t[11].name@ == "SL-100 Clean"@);
    lemma_differ_at("SL-100 Drive"@, "SL-100 Clean"@, 7);
    assert forall|j: int| 0 <= j < 11 implies !(#[trigger] amp_named(amp)(t[j])) by {
        if j == 0 { lemma_case_same(amp, "SL-100 Clean"@, t[0].name@); } else if j == 1 { lemma_case_same(amp, "SL-100 Clean"@, t[1].name@); } else if j == 2 { lemma_case_same(amp, "SL-100 Clean"@, t[2].name@); } else if j == 3 { lemma_case_same(amp, "SL-100 Clean"@, t[3].name@); } else if j == 4 { lemma_case_same(amp, "SL-100 Clean"@, t[4].name@); } else if j == 5 { lemma_case_same(amp, "SL-100 Clean"@, t[5].name@); } else if j == 6 { lemma_case_same(amp, "SL-100 Clean"@, t[6].name@); } else if j == 7 { lemma_case_same(amp, "SL-100 Clean"@, t[7].name@); } else if j == 8 { lemma_case_same(amp, "SL-100 Clean"@, t[8].name@); } else if j == 9 { lemma_case_same(amp, "SL-100 Clean"@, t[9].name@); } else if j == 10 { lemma_case_same(amp, "SL-100 Clean"@, t[10].name@); }
    }
    lemma_case_same(amp, "SL-100 Clean"@, t[11].name@);
    assert(eq_ignore_ascii_case("SL-100 Clean"@, "SL-100 Clean"@));
    assert(is_first(t, amp_named(amp), 11));
    lemma_first_at(t, amp_named(amp), 11);
    let ps = t[11].params;
    assert(ps[0].name@ == "PREAMP"@);
    assert(ps[1].name@ == "BASS"@);
    assert(ps[2].name@ == "MIDDLE"@);
    assert(ps[3].name@ == "TREBLE"@);
    assert(ps[4].name@ == "PRESENCE"@);
    assert(ps[5].name@ == "MASTER"@);
    assert(ps[6].name@ == "BRIGHT"@);
    assert(ps[7].name@ == "NOISE GATE THRESHOLD"@);
    assert(ps[8].name@ == "NOISE GATE RELEASE"@);
        if eq_ignore_ascii_case(name, "PREAMP"@) {

            assert forall|j: int| 0 <= j < 0 implies !(#[trigger] param_named(name)(ps[j])) by {
                
            }
            lemma_case_same(name, "PREAMP"@, ps[0].name@);
            assert(eq_ignore_ascii_case("PREAMP"@, "PREAMP"@));
            assert(is_first(ps, param_named(name), 0));
            lemma_first_at(ps, param_named(name), 0);
        }
        if eq_ignore_ascii_case(name, "BASS"@) {

            assert forall|j: int| 0 <= j < 1 implies !(#[trigger] param_named(name)(ps[j])) by {
                if j == 0 { lemma_case_same(name, "BASS"@, ps[0].name@); }
            }
            lemma_case_same(name, "BASS"@, ps[1].name@);
            assert(eq_ignore_ascii_case("BASS"@, "BASS"@));
            assert(is_first(ps, param_named(name), 1));
            lemma_first_at(ps, param_named(name), 1);
        }
        if eq_ignore_ascii_case(name, "MIDDLE"@) {
            lemma_differ_at("PREAMP"@, "MIDDLE"@, 0);
            assert forall|j: int| 0 <= j < 2 implies !(#[trigger] param_named(name)(ps[j])) by {
                if j == 0 { lemma_case_same(name, "MIDDLE"@, ps[0].name@); } else if j == 1 { lemma_case_same(name, "MIDDLE"@, ps[1].name@); }
            }
            lemma_case_same(name, "MIDDLE"@, ps[2].name@);
            assert(eq_ignore_ascii_case("MIDDLE"@, "MIDDLE"@));
            assert(is_first(ps, param_named(name), 2));
            lemma_first_at(ps, param_named(name), 2);
        }
        if eq_ignore_ascii_case(name, "TREBLE"@) {
            lemma_differ_at("PREAMP"@, "TREBLE"@, 0);
            lemma_differ_at("MIDDLE"@, "TREBLE"@, 0);
            assert forall|j: int| 0 <= j < 3 implies !(#[trigger] param_named(name)(ps[j])) by {
                if j == 0 { lemma_case_same(name, "TREBLE"@, ps[0].name@); } else if j == 1 { lemma_case_same(name, "TREBLE"@, ps[1].name@); } else if j == 2 { lemma_case_same(name, "TREBLE"@, ps[2].name@); }
            }
            lemma_case_same(name, "TREBLE"@, ps[3].name@);
            assert(eq_ignore_ascii_case("TREBLE"@, "TREBLE"@));
            assert(is_first(ps, param_named(name), 3));
            lemma_first_at(ps, param_named(name), 3);
        }
        if eq_ignore_ascii_case(name, "PRESENCE"@) {

            assert forall|j: int| 0 <= j < 4 implies !(#[trigger] param_named(name)(ps[j])) by {
                if j == 0 { lemma_case_same(name, "PRESENCE"@, ps[0].name@); } else if j == 1 { lemma_case_same(name, "PRESENCE"@, ps[1].name@); } else if j == 2 { lemma_case_same(name, "PRESENCE"@, ps[2].name@); } else if j == 3 { lemma_case_same(name, "PRESENCE"@, ps[3].name@); }
            }
            lemma_case_same(name, "PRESENCE"@, ps[4].name@);
            assert(eq_ignore_ascii_case("PRESENCE"@, "PRESENCE"@));
            assert(is_first(ps, param_named(name), 4));
            lemma_first_at(ps, param_named(name), 4);
        }
        if eq_ignore_ascii_case(name, "MASTER"@) {
            lemma_differ_at("PREAMP"@, "MASTER"@, 0);
            lemma_differ_at("MIDDLE"@, "MASTER"@, 1);
            lemma_differ_at("TREBLE"@, "MASTER"@, 0);
            assert forall|j: int| 0 <= j < 5 implies !(#[trigger] param_named(name)(ps[j])) by {
                if j == 0 { lemma_case_same(name, "MASTER"@, ps[0].name@); } else if j == 1 { lemma_case_same(name, "MASTER"@, ps[1].name@); } else if j == 2 { lemma_case_same(name, "MASTER"@, ps[2].name@); } else if j == 3 { lemma_case_same(name, "MASTER"@, ps[3].name@); } else if j == 4 { lemma_case_same(name, "MASTER"@, ps[4].name@); }
            }
            lemma_case_same(name, "MASTER"@, ps[5].name@);
            assert(eq_ignore_ascii_case("MASTER"@, "MASTER"@));
            assert(is_first(ps, param_named(name), 5));
            lemma_first_at(ps, param_named(name), 5);
        }
        if eq_ignore_ascii_case(name, "BRIGHT"@) {
            lemma_differ_at("PREAMP"@, "BRIGHT"@, 0);
            lemma_differ_at("MIDDLE"@, "BRIGHT"@, 0);
            lemma_differ_at("TREBLE"@, "BRIGHT"@, 0);
            lemma_differ_at("MASTER"@, "BRIGHT"@, 0);
            assert forall|j: int| 0 <= j < 6 implies !(#[trigger] param_named(name)(ps[j])) by {
                if j == 0 { lemma_case_same(name, "BRIGHT"@, ps[0].name@); } else if j == 1 { lemma_case_same(name, "BRIGHT"@, ps[1].name@); } else if j == 2 { lemma_case_same(name, "BRIGHT"@, ps[2].name@); } else if j == 3 { lemma_case_same(name, "BRIGHT"@, ps[3].name@); } else if j == 4 { lemma_case_same(name, "BRIGHT"@, ps[4].name@); } else if j == 5 { lemma_case_same(name, "BRIGHT"@, ps[5].name@); }
            }
            lemma_case_same(name, "BRIGHT"@, ps[6].name@);
            assert(eq_ignore_ascii_case("BRIGHT"@, "BRIGHT"@));
            assert(is_first(ps, param_named(name), 6));
            lemma_first_at(ps, param_named(name), 6);
        }
        if eq_ignore_ascii_case(name, "NOISE GATE THRESHOLD"@) {

            assert forall|j: int| 0 <= j < 7 implies !(#[trigger] param_named(name)(ps[j])) by {
                if j == 0 { lemma_case_same(name, "NOISE GATE THRESHOLD"@, ps[0].name@); } else if j == 1 { lemma_case_same(name, "NOISE GATE THRESHOLD"@, ps[1].name@); } else if j == 2 { lemma_case_same(name, "NOISE GATE THRESHOLD"@, ps[2].name@); } else if j == 3 { lemma_case_same(name, "NOISE GATE THRESHOLD"@, ps[3].name@); } else if j == 4 { lemma_case_same(name, "NOISE GATE THRESHOLD"@, ps[4].name@); } else if j == 5 { lemma_case_same(name, "NOISE GATE THRESHOLD"@, ps[5].name@); } else if j == 6 { lemma_case_same(name, "NOISE GATE THRESHOLD"@, ps[6].name@); }
            }
            lemma_case_same(name, "NOISE GATE THRESHOLD"@, ps[7].name@);
            assert(eq_ignore_ascii_case("NOISE GATE THRESHOLD"@, "NOISE GATE THRESHOLD"@));
            assert(is_first(ps, param_named(name), 7));
            lemma_first_at(ps, param_named(name), 7);
        }
        if eq_ignore_ascii_case(name, "NOISE GATE RELEASE"@) {

            assert forall|j: int| 0 <= j < 8 implies !(#[trigger] param_named(name)(ps[j])) by {
                if j == 0 { lemma_case_same(name, "NOISE GATE RELEASE"@, ps[0].name@); } else if j == 1 { lemma_case_same(name, "NOISE GATE RELEASE"@, ps[1].name@); } else if j == 2 { lemma_case_same(name, "NOISE GATE RELEASE"@, ps[2].name@); } else if j == 3 { lemma_case_same(name, "NOISE GATE RELEASE"@, ps[3].name@); } else if j == 4 { lemma_case_same(name, "NOISE GATE RELEASE"@, ps[4].name@); } else if j == 5 { lemma_case_same(name, "NOISE GATE RELEASE"@, ps[5].name@); } else if j == 6 { lemma_case_same(name, "NOISE GATE RELEASE"@, ps[6].name@); } else if j == 7 { lemma_case_same(name, "NOISE GATE RELEASE"@, ps[7].name@); }
            }
            lemma_case_same(name, "NOISE GATE RELEASE"@, ps[8].name@);
            assert(eq_ignore_ascii_case("NOISE GATE RELEASE"@, "NOISE GATE RELEASE"@));
            assert(is_first(ps, param_named(name), 8));
            lemma_first_at(ps, param_named(name), 8);
        }
}

/// The User Guide CC chart for the Treadplate Modern: with the amp named in any ASCII
/// case, each of its controls, named in any ASCII case, resolves to its chart
/// CC and value kind.
#[verifier::rlimit(40)]
pub proof fn lemma_chart_treadplate_modern(name: Seq<char>, amp: Seq<char>)
    requires
        eq_ignore_ascii_case(amp, "Treadplate Modern"@),
    ensures
        eq_ignore_ascii_case(name, "MASTER"@) ==> resolve_cc_spec(name, Some(amp), None) == Some((13u8, Kind::Knob)),
        eq_ignore_ascii_case(name, "PRESENCE"@) ==> resolve_cc_spec(name, Some(amp), None) == Some((14u8, Kind::Knob)),
        eq_ignore_ascii_case(name, "BASS"@) ==> resolve_cc_spec(name, Some(amp), None) == Some((15u8, Kind::Knob)),
        eq_ignore_ascii_case(name, "MIDDLE"@) ==> resolve_cc_spec(name, Some(amp), None) == Some((16u8, Kind::Knob)),
        eq_ignore_ascii_case(name, "TREBLE"@) ==> resolve_cc_spec(name, Some(amp), None) == Some((21u8, Kind::Knob)),
        eq_ignore_ascii_case(name, "GAIN"@) ==> resolve_cc_spec(name, Some(amp), None) == Some((10u8, Kind::Knob)),
        eq_ignore_ascii_case(name, "NOISE GATE THRESHOLD"@) ==> resolve_cc_spec(name, Some(amp), None) == Some((112u8, Kind::Knob)),
        eq_ignore_ascii_case(name, "NOISE GATE RELEASE"@) ==> resolve_cc_spec(name, Some(amp), None) == Some((3u8, Kind::Knob)),
{
    reveal_strlit("AC Hi Boost");
    reveal_strlit("BASS");
    reveal_strlit("Black Panel Duo");
    reveal_strlit("Black Panel Lux Normal");
    reveal_strlit("Black Panel Lux Vibrato");
    reveal_strlit("GAIN");
    reveal_strlit("Lead 800 - 100W");
    reveal_strlit("M-2 Lead");
    reveal_strlit("MASTER");
    reveal_strlit("MIDDLE");
    reveal_strlit("NOISE GATE RELEASE");
    reveal_strlit("NOISE GATE THRESHOLD");
    reveal_strlit("PRESENCE");
    reveal_strlit("Plexiglas - 100W");
    reveal_strlit("SL-100 Clean");
    reveal_strlit("SL-100 Crunch");
    reveal_strlit("SL-100 Drive");
    reveal_strlit("TREBLE");
    reveal_strlit("Treadplate Modern");
    reveal_strlit("Tweed Bass");
    reveal_strlit("Tweed Lux");
    let t = amp_table();
    assert(t[0].name@ == "Tweed Lux"@);
    assert(t[1].name@ == "Tweed Bass"@);
    assert(t[2].name@ == "Black Panel Lux Vibrato"@);
    assert(t[3].name@ == "Black Panel Lux Normal"@);
    assert(t[4].name@ == "AC Hi Boost"@);
    assert(t[5].name@ == "Black Panel Duo"@);
    assert(t[6].name@ == "Plexiglas - 100W"@);
    assert(t[7].name@ == "Lead 800 - 100W"@);
    assert(t[8].name@ == "M-2 Lead"@);
    assert(t[9].name@ == "SL-100 Drive"@);
    assert(t[10].name@ == "SL-100 Crunch"@);
    assert(t[11].name@ == "SL-100 Clean"@);
    assert(t[12].name@ == "Treadplate Modern"@);

    assert forall|j: int| 0 <= j < 12 implies !(#[trigger] amp_named(amp)(t[j])) by {
        if j == 0 { lemma_case_same(amp, "Treadplate Modern"@, t[0].name@); } else if j == 1 { lemma_case_same(amp, "Treadplate Modern"@, t[1].name@); } else if j == 2 { lemma_case_same(amp, "Treadplate Modern"@, t[2].name@); } else if j == 3 { lemma_case_same(amp, "Treadplate Modern"@, t[3].name@); } else if j == 4 { lemma_case_same(amp, "Treadplate Modern"@, t[4].name@); } else if j == 5 { lemma_case_same(amp, "Treadplate Modern"@, t[5].name@); } else if j == 6 { lemma_case_same(amp, "Treadplate Modern"@, t[6].name@); } else if j == 7 { lemma_case_same(amp, "Treadplate Modern"@, t[7].name@); } else if j == 8 { lemma_case_same(amp, "Treadplate Modern"@, t[8].name@); } else if j == 9 { lemma_case_same(amp, "Treadplate Modern"@, t[9].name@); } else if j == 10 { lemma_case_same(amp, "Treadplate Modern"@, t[10].name@); } else if j == 11 { lemma_case_same(amp, "Treadplate Modern"@, t[11].name@); }
    }
    lemma_case_same(amp, "Treadplate Modern"@, t[12].name@);
    assert(eq_ignore_ascii_case("Treadplate Modern"@, "Treadplate Modern"@));
    assert(is_first(t, amp_named(amp), 12));
    lemma_first_at(t, amp_named(amp), 12);
    let ps = t[12].params;
    assert(ps[0].name@ == "MASTER"@);
    assert(ps[1].name@ == "PRESENCE"@);
    assert(ps[2].name@ == "BASS"@);
    assert(ps[3].name@ == "MIDDLE"@);
    assert(ps[4].name@ == "TREBLE"@);
    assert(ps[5].name@ == "GAIN"@);
    assert(ps[6].name@ == "NOISE GATE THRESHOLD"@);
    assert(ps[7].name@ == "NOISE GATE RELEASE"@);
        if eq_ignore_ascii_case(name, "MASTER"@) {

            assert forall|j: int| 0 <= j < 0 implies !(#[trigger] param_named(name)(ps[j])) by {
                
            }
            lemma_case_same(name, "MASTER"@, ps[0].name@);
            assert(eq_ignore_ascii_case("MASTER"@, "MASTER"@));
            assert(is_first(ps, param_named(name), 0));
            lemma_first_at(ps, param_named(name), 0);
        }
        if eq_ignore_ascii_case(name, "PRESENCE"@) {

            assert forall|j: int| 0 <= j < 1 implies !(#[trigger] param_named(name)(ps[j])) by {
                if j == 0 { lemma_case_same(name, "PRESENCE"@, ps[0].name@); }
            }
            lemma_case_same(name, "PRESENCE"@, ps[1].name@);
            assert(eq_ignore_ascii_case("PRESENCE"@, "PRESENCE"@));
            assert(is_first(ps, param_named(name), 1));
            lemma_first_at(ps, param_named(name), 1);
        }
        if eq_ignore_ascii_case(name, "BASS"@) {

            assert forall|j: int| 0 <= j < 2 implies !(#[trigger] param_named(name)(ps[j])) by {
                if j == 0 { lemma_case_same(name, "BASS"@, ps[0].name@); } else if j == 1 { lemma_case_same(name, "BASS"@, ps[1].name@); }
            }
            lemma_case_same(name, "BASS"@, ps[2].name@);
            assert(eq_ignore_ascii_case("BASS"@, "BASS"@));
            assert(is_first(ps, param_named(name), 2));
            lemma_first_at(ps, param_named(name), 2);
        }
        if eq_ignore_ascii_case(name, "MIDDLE"@) {
            lemma_differ_at("MASTER"@, "MIDDLE"@, 1);
            assert forall|j: int| 0 <= j < 3 implies !(#[trigger] param_named(name)(ps[j])) by {
                if j == 0 { lemma_case_same(name, "MIDDLE"@, ps[0].name@); } else if j == 1 { lemma_case_same(name, "MIDDLE"@, ps[1].name@); } else if j == 2 { lemma_case_same(name, "MIDDLE"@, ps[2].name@); }
            }
            lemma_case_same(name, "MIDDLE"@, ps[3].name@);
            assert(eq_ignore_ascii_case("MIDDLE"@, "MIDDLE"@));
            assert(is_first(ps, param_named(name), 3));
            lemma_first_at(ps, param_named(name), 3);
        }
        if eq_ignore_ascii_case(name, "TREBLE"@) {
            lemma_differ_at("MASTER"@, "TREBLE"@, 0);
            lemma_differ_at("MIDDLE"@, "TREBLE"@, 0);
            assert forall|j: int| 0 <= j < 4 implies !(#[trigger] param_named(name)(ps[j])) by {
                if j == 0 { lemma_case_same(name, "TREBLE"@, ps[0].name@); } else if j == 1 { lemma_case_same(name, "TREBLE"@, ps[1].name@); } else if j == 2 { lemma_case_same(name, "TREBLE"@, ps[2].name@); } else if j == 3 { lemma_case_same(name, "TREBLE"@, ps[3].name@); }
            }
            lemma_case_same(name, "TREBLE"@, ps[4].name@);
            assert(eq_ignore_ascii_case("TREBLE"@, "TREBLE"@));
            assert(is_first(ps, param_named(name), 4));
            lemma_first_at(ps, param_named(name), 4);
        }
        if eq_ignore_ascii_case(name, "GAIN"@) {
            lemma_differ_at("BASS"@, "GAIN"@, 0);
            assert forall|j: int| 0 <= j < 5 implies !(#[trigger] param_named(name)(ps[j])) by {
                if j == 0 { lemma_case_same(name, "GAIN"@, ps[0].name@); } else if j == 1 { lemma_case_same(name, "GAIN"@, ps[1].name@); } else if j == 2 { lemma_case_same(name, "GAIN"@, ps[2].name@); } else if j == 3 { lemma_case_same(name, "GAIN"@, ps[3].name@); } else if j == 4 { lemma_case_same(name, "GAIN"@, ps[4].name@); }
            }
            lemma_case_same(name, "GAIN"@, ps[5].name@);
            assert(eq_ignore_ascii_case("GAIN"@, "GAIN"@));
            assert(is_first(ps, param_named(name), 5));
            lemma_first_at(ps, param_named(name), 5);
        }
        if eq_ignore_ascii_case(name, "NOISE GATE THRESHOLD"@) {

            assert forall|j: int| 0 <= j < 6 implies !(#[trigger] param_named(name)(ps[j])) by {
                if j == 0 { lemma_case_same(name, "NOISE GATE THRESHOLD"@, ps[0].name@); } else if j == 1 { lemma_case_same(name, "NOISE GATE THRESHOLD"@, ps[1].name@); } else if j == 2 { lemma_case_same(name, "NOISE GATE THRESHOLD"@, ps[2].name@); } else if j == 3 { lemma_case_same(name, "NOISE GATE THRESHOLD"@, ps[3].name@); } else if j == 4 { lemma_case_same(name, "NOISE GATE THRESHOLD"@, ps[4].name@); } else if j == 5 { lemma_case_same(name, "NOISE GATE THRESHOLD"@, ps[5].name@); }
            }
            lemma_case_same(name, "NOISE GATE THRESHOLD"@, ps[6].name@);
            assert(eq_ignore_ascii_case("NOISE GATE THRESHOLD"@, "NOISE GATE THRESHOLD"@));
            assert(is_first(ps, param_named(name), 6));
            lemma_first_at(ps, param_named(name), 6);
        }
        if eq_ignore_ascii_case(name, "NOISE GATE RELEASE"@) {

            assert forall|j: int| 0 <= j < 7 implies !(#[trigger] param_named(name)(ps[j])) by {
                if j == 0 { lemma_case_same(name, "NOISE GATE RELEASE"@, ps[0].name@); } else if j == 1 { lemma_case_same(name, "NOISE GATE RELEASE"@, ps[1].name@); } else if j == 2 { lemma_case_same(name, "NOISE GATE RELEASE"@, ps[2].name@); } else if j == 3 { lemma_case_same(name, "NOISE GATE RELEASE"@, ps[3].name@); } else if j == 4 { lemma_case_same(name, "NOISE GATE RELEASE"@, ps[4].name@); } else if j == 5 { lemma_case_same(name, "NOISE GATE RELEASE"@, ps[5].name@); } else if j == 6 { lemma_case_same(name, "NOISE GATE RELEASE"@, ps[6].name@); }
            }
            lemma_case_same(name, "NOISE GATE RELEASE"@, ps[7].name@);
            assert(eq_ignore_ascii_case("NOISE GATE RELEASE"@, "NOISE GATE RELEASE"@));
            assert(is_first(ps, param_named(name), 7));
            lemma_first_at(ps, param_named(name), 7);
        }
}

/// The User Guide CC chart for the Treadplate Vintage: with the amp named in any ASCII
/// case, each of its controls, named in any ASCII case, resolves to its chart
/// CC and value kind.
#[verifier::rlimit(40)]
pub proof fn lemma_chart_treadplate_vintage(name: Seq<char>, amp: Seq<char>)
    requires
        eq_ignore_ascii_case(amp, "Treadplate Vintage"@),
    ensures
        eq_ignore_ascii_case(name, "MASTER"@) ==> resolve_cc_spec(name, Some(amp), None) == Some((13u8, Kind::Knob)),
        eq_ignore_ascii_case(name, "PRESENCE"@) ==> resolve_cc_spec(name, Some(amp), None) == Some((14u8, Kind::Knob)),
        eq_ignore_ascii_case(name, "BASS"@) ==> resolve_cc_spec(name, Some(amp), None) == Some((15u8, Kind::Knob)),
        eq_ignore_ascii_case(name, "MIDDLE"@) ==> resolve_cc_spec(name, Some(amp), None) == Some((16u8, Kind::Knob)),
        eq_ignore_ascii_case(name, "TREBLE"@) ==> resolve_cc_spec(name, Some(amp), None) == Some((21u8, Kind::Knob)),
        eq_ignore_ascii_case(name, "GAIN"@) ==> resolve_cc_spec(name, Some(amp), None) == Some((10u8, Kind::Knob)),
        eq_ignore_ascii_case(name, "NOISE GATE THRESHOLD"@) ==> resolve_cc_spec(name, Some(amp), None) == Some((112u8, Kind::Knob)),
        eq_ignore_ascii_case(name, "NOISE GATE RELEASE"@) ==> resolve_cc_spec(name, Some(amp), None) == Some((3u8, Kind::Knob)),
{
    reveal_strlit("AC Hi Boost");
    reveal_strlit("BASS");
    reveal_strlit("Black Panel Duo");
    reveal_strlit("Black Panel Lux Normal");
    reveal_strlit("Black Panel Lux Vibrato");
    reveal_strlit("GAIN");
    reveal_strlit("Lead 800 - 100W");
    reveal_strlit("M-2 Lead");
    reveal_strlit("MASTER");
    reveal_strlit("MIDDLE");
    reveal_strlit("NOISE GATE RELEASE");
    reveal_strlit("NOISE GATE THRESHOLD");
    reveal_strlit("PRESENCE");
    reveal_strlit("Plexiglas - 100W");
    reveal_strlit("SL-100 Clean");
    reveal_strlit("SL-100 Crunch");
    reveal_strlit("SL-100 Drive");
    reveal_strlit("TREBLE");
    reveal_strlit("Treadplate Modern");
    reveal_strlit("Treadplate Vintage");
    reveal_strlit("Tweed Bass");
    reveal_strlit("Tweed Lux");
    let t = amp_table();
    assert(t[0].name@ == "Tweed Lux"@);
    assert(t[1].name@ == "Tweed Bass"@);
    assert(t[2].name@ == "Black Panel Lux Vibrato"@);
    assert(t[3].name@ == "Black Panel Lux Normal"@);
    assert(t[4].name@ == "AC Hi Boost"@);
    assert(t[5].name@ == "Black Panel Duo"@);
    assert(t[6].name@ == "Plexiglas - 100W"@);
    assert(t[7].name@ == "Lead 800 - 100W"@);
    assert(t[8].name@ == "M-2 Lead"@);
    assert(t[9].name@ == "SL-100 Drive"@);
    assert(t[10].name@ == "SL-100 Crunch"@);
    assert(t[11].name@ == "SL-100 Clean"@);
    assert(t[12].name@ == "Treadplate Modern"@);
    assert(t[13].name@ == "Treadplate Vintage"@);

    assert forall|j: int| 0 <= j < 13 implies !(#[trigger] amp_named(amp)(t[j])) by {
        if j == 0 { lemma_case_same(amp, "Treadplate Vintage"@, t[0].name@); } else if j == 1 { lemma_case_same(amp, "Treadplate Vintage"@, t[1].name@); } else if j == 2 { lemma_case_same(amp, "Treadplate Vintage"@, t[2].name@); } else if j == 3 { lemma_case_same(amp, "Treadplate Vintage"@, t[3].name@); } else if j == 4 { lemma_case_same(amp, "Treadplate Vintage"@, t[4].name@); } else if j == 5 { lemma_case_same(amp, "Treadplate Vintage"@, t[5].name@); } else if j == 6 { lemma_case_same(amp, "Treadplate Vintage"@, t[6].name@); } else if j == 7 { lemma_case_same(amp, "Treadplate Vintage"@, t[7].name@); } else if j == 8 { lemma_case_same(amp, "Treadplate Vintage"@, t[8].name@); } else if j == 9 { lemma_case_same(amp, "Treadplate Vintage"@, t[9].name@); } else if j == 10 { lemma_case_same(amp, "Treadplate Vintage"@, t[10].name@); } else if j == 11 { lemma_case_same(amp, "Treadplate Vintage"@, t[11].name@); } else if j == 12 { lemma_case_same(amp, "Treadplate Vintage"@, t[12].name@); }
    }
    lemma_case_same(amp, "Treadplate Vintage"@, t[13].name@);
    assert(eq_ignore_ascii_case("Treadplate Vintage"@, "Treadplate Vintage"@));
    assert(is_first(t, amp_named(amp), 13));
    lemma_first_at(t, amp_named(amp), 13);
    let ps = t[13].params;
    assert(ps[0].name@ == "MASTER"@);
    assert(ps[1].name@ == "PRESENCE"@);
    assert(ps[2].name@ == "BASS"@);
    assert(ps[3].name@ == "MIDDLE"@);
    assert(ps[4].name@ == "TREBLE"@);
    assert(ps[5].name@ == "GAIN"@);
    assert(ps[6].name@ == "NOISE GATE THRESHOLD"@);
    assert(ps[7].name@ == "NOISE GATE RELEASE"@);
        if eq_ignore_ascii_case(name, "MASTER"@) {

            assert forall|j: int| 0 <= j < 0 implies !(#[trigger] param_named(name)(ps[j])) by {
                
            }
            lemma_case_same(name, "MASTER"@, ps[0].name@);
            assert(eq_ignore_ascii_case("MASTER"@, "MASTER"@));
            assert(is_first(ps, param_named(name), 0));
            lemma_first_at(ps, param_named(name), 0);
        }
        if eq_ignore_ascii_case(name, "PRESENCE"@) {

            assert forall|j: int| 0 <= j < 1 implies !(#[trigger] param_named(name)(ps[j])) by {
                if j == 0 { lemma_case_same(name, "PRESENCE"@, ps[0].name@); }
            }
            lemma_case_same(name, "PRESENCE"@, ps[1].name@);
            assert(eq_ignore_ascii_case("PRESENCE"@, "PRESENCE"@));
            assert(is_first(ps, param_named(name), 1));
            lemma_first_at(ps, param_named(name), 1);
        }
        if eq_ignore_ascii_case(name, "BASS"@) {

            assert forall|j: int| 0 <= j < 2 implies !(#[trigger] param_named(name)(ps[j])) by {
                if j == 0 { lemma_case_same(name, "BASS"@, ps[0].name@); } else if j == 1 { lemma_case_same(name, "BASS"@, ps[1].name@); }
            }
            lemma_case_same(name, "BASS"@, ps[2].name@);
            assert(eq_ignore_ascii_case("BASS"@, "BASS"@));
            assert(is_first(ps, param_named(name), 2));
            lemma_first_at(ps, param_named(name), 2);
        }
        if eq_ignore_ascii_case(name, "MIDDLE"@) {
            lemma_differ_at("MASTER"@, "MIDDLE"@, 1);
            assert forall|j: int| 0 <= j < 3 implies !(#[trigger] param_named(name)(ps[j])) by {
                if j == 0 { lemma_case_same(name, "MIDDLE"@, ps[0].name@); } else if j == 1 { lemma_case_same(name, "MIDDLE"@, ps[1].name@); } else if j == 2 { lemma_case_same(name, "MIDDLE"@, ps[2].name@); }
            }
            lemma_case_same(name, "MIDDLE"@, ps[3].name@);
            assert(eq_ignore_ascii_case("MIDDLE"@, "MIDDLE"@));
            assert(is_first(ps, param_named(name), 3));
            lemma_first_at(ps, param_named(name), 3);
        }
        if eq_ignore_ascii_case(name, "TREBLE"@) {
            lemma_differ_at("MASTER"@, "TREBLE"@, 0);
            lemma_differ_at("MIDDLE"@, "TREBLE"@, 0);
            assert forall|j: int| 0 <= j < 4 implies !(#[trigger] param_named(name)(ps[j])) by {
                if j == 0 { lemma_case_same(name, "TREBLE"@, ps[0].name@); } else if j == 1 { lemma_case_same(name, "TREBLE"@, ps[1].name@); } else if j == 2 { lemma_case_same(name, "TREBLE"@, ps[2].name@); } else if j == 3 { lemma_case_same(name, "TREBLE"@, ps[3].name@); }
            }
            lemma_case_same(name, "TREBLE"@, ps[4].name@);
            assert(eq_ignore_ascii_case("TREBLE"@, "TREBLE"@));
            assert(is_first(ps, param_named(name), 4));
            lemma_first_at(ps, param_named(name), 4);
        }
        if eq_ignore_ascii_case(name, "GAIN"@) {
            lemma_differ_at("BASS"@, "GAIN"@, 0);
            assert forall|j: int| 0 <= j < 5 implies !(#[trigger] param_named(name)(ps[j])) by {
                if j == 0 { lemma_case_same(name, "GAIN"@, ps[0].name@); } else if j == 1 { lemma_case_same(name, "GAIN"@, ps[1].name@); } else if j == 2 { lemma_case_same(name, "GAIN"@, ps[2].name@); } else if j == 3 { lemma_case_same(name, "GAIN"@, ps[3].name@); } else if j == 4 { lemma_case_same(name, "GAIN"@, ps[4].name@); }
            }
            lemma_case_same(name, "GAIN"@, ps[5].name@);
            assert(eq_ignore_ascii_case("GAIN"@, "GAIN"@));
            assert(is_first(ps, param_named(name), 5));
            lemma_first_at(ps, param_named(name), 5);
        }
        if eq_ignore_ascii_case(name, "NOISE GATE THRESHOLD"@) {

            assert forall|j: int| 0 <= j < 6 implies !(#[trigger] param_named(name)(ps[j])) by {
                if j == 0 { lemma_case_same(name, "NOISE GATE THRESHOLD"@, ps[0].name@); } else if j == 1 { lemma_case_same(name, "NOISE GATE THRESHOLD"@, ps[1].name@); } else if j == 2 { lemma_case_same(name, "NOISE GATE THRESHOLD"@, ps[2].name@); } else if j == 3 { lemma_case_same(name, "NOISE GATE THRESHOLD"@, ps[3].name@); } else if j == 4 { lemma_case_same(name, "NOISE GATE THRESHOLD"@, ps[4].name@); } else if j == 5 { lemma_case_same(name, "NOISE GATE THRESHOLD"@, ps[5].name@); }
            }
            lemma_case_same(name, "NOISE GATE THRESHOLD"@, ps[6].name@);
            assert(eq_ignore_ascii_case("NOISE GATE THRESHOLD"@, "NOISE GATE THRESHOLD"@));
            assert(is_first(ps, param_named(name), 6));
            lemma_first_at(ps, param_named(name), 6);
        }
        if eq_ignore_ascii_case(name, "NOISE GATE RELEASE"@) {

            assert forall|j: int| 0 <= j < 7 implies !(#[trigger] param_named(name)(ps[j])) by {
                if j == 0 { lemma_case_same(name, "NOISE GATE RELEASE"@, ps[0].name@); } else if j == 1 { lemma_case_same(name, "NOISE GATE RELEASE"@, ps[1].name@); } else if j == 2 { lemma_case_same(name, "NOISE GATE RELEASE"@, ps[2].name@); } else if j == 3 { lemma_case_same(name, "NOISE GATE RELEASE"@, ps[3].name@); } else if j == 4 { lemma_case_same(name, "NOISE GATE RELEASE"@, ps[4].name@); } else if j == 5 { lemma_case_same(name, "NOISE GATE RELEASE"@, ps[5].name@); } else if j == 6 { lemma_case_same(name, "NOISE GATE RELEASE"@, ps[6].name@); }
            }
            lemma_case_same(name, "NOISE GATE RELEASE"@, ps[7].name@);
            assert(eq_ignore_ascii_case("NOISE GATE RELEASE"@, "NOISE GATE RELEASE"@));
            assert(is_first(ps, param_named(name), 7));
            lemma_first_at(ps, param_named(name), 7);
        }
}

/// The User Guide CC chart for the DC Modern Crunch: with the amp named in any ASCII
/// case, each of its controls, named in any ASCII case, resolves to its chart
/// CC and value kind.
#[verifier::rlimit(40)]
pub proof fn lemma_chart_dc_modern_crunch(name: Seq<char>, amp: Seq<char>)
    requires
        eq_ignore_ascii_case(amp, "DC Modern Crunch"@),
    ensures
        eq_ignore_ascii_case(name, "GAIN"@) ==> resolve_cc_spec(name, Some(amp), None) == Some((13u8, Kind::Knob)),
        eq_ignore_ascii_case(name, "BASS"@) ==> resolve_cc_spec(name, Some(amp), None) == Some((14u8, Kind::Knob)),
        eq_ignore_ascii_case(name, "MIDDLE"@) ==> resolve_cc_spec(name, Some(amp), None) == Some((15u8, Kind::Knob)),
        eq_ignore_ascii_case(name, "TREBLE"@) ==> resolve_cc_spec(name, Some(amp), None) == Some((16u8, Kind::Knob)),
        eq_ignore_ascii_case(name, "PRESENCE"@) ==> resolve_cc_spec(name, Some(amp), None) == Some((21u8, Kind::Knob)),
        eq_ignore_ascii_case(name, "MASTER"@) ==> resolve_cc_spec(name, Some(amp), None) == Some((10u8, Kind::Knob)),
        eq_ignore_ascii_case(name, "BRIGHT"@) ==> resolve_cc_spec(name, Some(amp), None) == Some((112u8, Kind::Switch { off: "Off", on: "On" })),
        eq_ignore_ascii_case(name, "TREMOLO SPEED"@) ==> resolve_cc_spec(name, Some(amp), None) == Some((3u8, Kind::Knob)),
        eq_ignore_ascii_case(name, "TREMOLO SYNC"@) ==> resolve_cc_spec(name, Some(amp), None) == Some((84u8, Kind::Knob)),
        eq_ignore_ascii_case(name, "TREMOLO DEPTH"@) ==> resolve_cc_spec(name, Some(amp), None) == Some((24u8, Kind::Knob)),
        eq_ignore_ascii_case(name, "TREMOLO ON/OFF"@) ==> resolve_cc_spec(name, Some(amp), None) == Some((45u8, Kind::Switch { off: "Off", on: "On" })),
        eq_ignore_ascii_case(name, "NOISE GATE THRESHOLD"@) ==> resolve_cc_spec(name, Some(amp), None) == Some((23u8, Kind::Knob)),
        eq_ignore_ascii_case(name, "NOISE GATE RELEASE"@) ==> resolve_cc_spec(name, Some(amp), None) == Some((22u8, Kind::Knob)),
{
    reveal_strlit("AC Hi Boost");
    reveal_strlit("BASS");
    reveal_strlit("BRIGHT");
    reveal_strlit("Black Panel Duo");
    reveal_strlit("Black Panel Lux Normal");
    reveal_strlit("Black Panel Lux Vibrato");
    reveal_strlit("DC Modern Crunch");
    reveal_strlit("GAIN");
    reveal_strlit("Lead 800 - 100W");
    reveal_strlit("M-2 Lead");
    reveal_strlit("MASTER");
    reveal_strlit("MIDDLE");
    reveal_strlit("NOISE GATE RELEASE");
    reveal_strlit("NOISE GATE THRESHOLD");
    reveal_strlit("PRESENCE");
    reveal_strlit("Plexiglas - 100W");
    reveal_strlit("SL-100 Clean");
    reveal_strlit("SL-100 Crunch");
    reveal_strlit("SL-100 Drive");
    reveal_strlit("TREBLE");
    reveal_strlit("TREMOLO DEPTH");
    reveal_strlit("TREMOLO ON/OFF");
    reveal_strlit("TREMOLO SPEED");
    reveal_strlit("TREMOLO SYNC");
    reveal_strlit("Treadplate Modern");
    reveal_strlit("Treadplate Vintage");
    reveal_strlit("Tweed Bass");
    reveal_strlit("Tweed Lux");
    let t = amp_table();
    assert(t[0].name@ == "Tweed Lux"@);
    assert(t[1].name@ == "Tweed Bass"@);
    assert(t[2].name@ == "Black Panel Lux Vibrato"@);
    assert(t[3].name@ == "Black Panel Lux Normal"@);
    assert(t[4].name@ == "AC Hi Boost"@);
    assert(t[5].name@ == "Black Panel Duo"@);
    assert(t[6].name@ == "Plexiglas - 100W"@);
    assert(t[7].name@ == "Lead 800 - 100W"@);
    assert(t[8].name@ == "M-2 Lead"@);
    assert(t[9].name@ == "SL-100 Drive"@);
    assert(t[10].name@ == "SL-100 Crunch"@);
    assert(t[11].name@ == "SL-100 Clean"@);
    assert(t[12].name@ == "Treadplate Modern"@);
    assert(t[13].name@ == "Treadplate Vintage"@);
    assert(t[14].name@ == "DC Modern Crunch"@);
    lemma_differ_at("Plexiglas - 100W"@, "DC Modern Crunch"@, 0);
    assert forall|j: int| 0 <= j < 14 implies !(#[trigger] amp_named(amp)(t[j])) by {
        if j == 0 { lemma_case_same(amp, "DC Modern Crunch"@, t[0].name@); } else if j == 1 { lemma_case_same(amp, "DC Modern Crunch"@, t[1].name@); } else if j == 2 { lemma_case_same(amp, "DC Modern Crunch"@, t[2].name@); } else if j == 3 { lemma_case_same(amp, "DC Modern Crunch"@, t[3].name@); } else if j == 4 { lemma_case_same(amp, "DC Modern Crunch"@, t[4].name@); } else if j == 5 { lemma_case_same(amp, "DC Modern Crunch"@, t[5].name@); } else if j == 6 { lemma_case_same(amp, "DC Modern Crunch"@, t[6].name@); } else if j == 7 { lemma_case_same(amp, "DC Modern Crunch"@, t[7].name@); } else if j == 8 { lemma_case_same(amp, "DC Modern Crunch"@, t[8].name@); } else if j == 9 { lemma_case_same(amp, "DC Modern Crunch"@, t[9].name@); } else if j == 10 { lemma_case_same(amp, "DC Modern Crunch"@, t[10].name@); } else if j == 11 { lemma_case_same(amp, "DC Modern Crunch"@, t[11].name@); } else if j == 12 { lemma_case_same(amp, "DC Modern Crunch"@, t[12].name@); } else if j == 13 { lemma_case_same(amp, "DC Modern Crunch"@, t[13].name@); }
    }
    lemma_case_same(amp, "DC Modern Crunch"@, t[14].name@);
    assert(eq_ignore_ascii_case("DC Modern Crunch"@, "DC Modern Crunch"@));
    assert(is_first(t, amp_named(amp), 14));
    lemma_first_at(t, amp_named(amp), 14);
    let ps = t[14].params;
    assert(ps[0].name@ == "GAIN"@);
    assert(ps[1].name@ == "BASS"@);
    assert(ps[2].name@ == "MIDDLE"@);
    assert(ps[3].name@ == "TREBLE"@);
    assert(ps[4].name@ == "PRESENCE"@);
    assert(ps[5].name@ == "MASTER"@);
    assert(ps[6].name@ == "BRIGHT"@);
    assert(ps[7].name@ == "TREMOLO SPEED"@);
    assert(ps[8].name@ == "TREMOLO SYNC"@);
    assert(ps[9].name@ == "TREMOLO DEPTH"@);
    assert(ps[10].name@ == "TREMOLO ON/OFF"@);
    assert(ps[11].name@ == "NOISE GATE THRESHOLD"@);
    assert(ps[12].name@ == "NOISE GATE RELEASE"@);
        if eq_ignore_ascii_case(name, "GAIN"@) {

            assert forall|j: int| 0 <= j < 0 implies !(#[trigger] param_named(name)(ps[j])) by {
                
            }
            lemma_case_same(name, "GAIN"@, ps[0].name@);
            assert(eq_ignore_ascii_case("GAIN"@, "GAIN"@));
            assert(is_first(ps, param_named(name), 0));
            lemma_first_at(ps, param_named(name), 0);
        }
        if eq_ignore_ascii_case(name, "BASS"@) {
            lemma_differ_at("GAIN"@, "BASS"@, 0);
            assert forall|j: int| 0 <= j < 1 implies !(#[trigger] param_named(name)(ps[j])) by {
                if j == 0 { lemma_case_same(name, "BASS"@, ps[0].name@); }
            }
            lemma_case_same(name, "BASS"@, ps[1].name@);
            assert(eq_ignore_ascii_case("BASS"@, "BASS"@));
            assert(is_first(ps, param_named(name), 1));
            lemma_first_at(ps, param_named(name), 1);
        }
        if eq_ignore_ascii_case(name, "MIDDLE"@) {

            assert forall|j: int| 0 <= j < 2 implies !(#[trigger] param_named(name)(ps[j])) by {
                if j == 0 { lemma_case_same(name, "MIDDLE"@, ps[0].name@); } else if j == 1 { lemma_case_same(name, "MIDDLE"@, ps[1].name@); }
            }
            lemma_case_same(name, "MIDDLE"@, ps[2].name@);
            assert(eq_ignore_ascii_case("MIDDLE"@, "MIDDLE"@));
            assert(is_first(ps, param_named(name), 2));
            lemma_first_at(ps, param_named(name), 2);
        }
        if eq_ignore_ascii_case(name, "TREBLE"@) {
            lemma_differ_at("MIDDLE"@, "TREBLE"@, 0);
            assert forall|j: int| 0 <= j < 3 implies !(#[trigger] param_named(name)(ps[j])) by {
                if j == 0 { lemma_case_same(name, "TREBLE"@, ps[0].name@); } else if j == 1 { lemma_case_same(name, "TREBLE"@, ps[1].name@); } else if j == 2 { lemma_case_same(name, "TREBLE"@, ps[2].name@); }
            }
            lemma_case_same(name, "TREBLE"@, ps[3].name@);
            assert(eq_ignore_ascii_case("TREBLE"@, "TREBLE"@));
            assert(is_first(ps, param_named(name), 3));
            lemma_first_at(ps, param_named(name), 3);
        }
        if eq_ignore_ascii_case(name, "PRESENCE"@) {

            assert forall|j: int| 0 <= j < 4 implies !(#[trigger] param_named(name)(ps[j])) by {
                if j == 0 { lemma_case_same(name, "PRESENCE"@, ps[0].name@); } else if j == 1 { lemma_case_same(name, "PRESENCE"@, ps[1].name@); } else if j == 2 { lemma_case_same(name, "PRESENCE"@, ps[2].name@); } else if j == 3 { lemma_case_same(name, "PRESENCE"@, ps[3].name@); }
            }
            lemma_case_same(name, "PRESENCE"@, ps[4].name@);
            assert(eq_ignore_ascii_case("PRESENCE"@, "PRESENCE"@));
            assert(is_first(ps, param_named(name), 4));
            lemma_first_at(ps, param_named(name), 4);
        }
        if eq_ignore_ascii_case(name, "MASTER"@) {
            lemma_differ_at("MIDDLE"@, "MASTER"@, 1);
            lemma_differ_at("TREBLE"@, "MASTER"@, 0);
            assert forall|j: int| 0 <= j < 5 implies !(#[trigger] param_named(name)(ps[j])) by {
                if j == 0 { lemma_case_same(name, "MASTER"@, ps[0].name@); } else if j == 1 { lemma_case_same(name, "MASTER"@, ps[1].name@); } else if j == 2 { lemma_case_same(name, "MASTER"@, ps[2].name@); } else if j == 3 { lemma_case_same(name, "MASTER"@, ps[3].name@); } else if j == 4 { lemma_case_same(name, "MASTER"@, ps[4].name@); }
            }
            lemma_case_same(name, "MASTER"@, ps[5].name@);
            assert(eq_ignore_ascii_case("MASTER"@, "MASTER"@));
            assert(is_first(ps, param_named(name), 5));
            lemma_first_at(ps, param_named(name), 5);
        }
        if eq_ignore_ascii_case(name, "BRIGHT"@) {
            lemma_differ_at("MIDDLE"@, "BRIGHT"@, 0);
            lemma_differ_at("TREBLE"@, "BRIGHT"@, 0);
            lemma_differ_at("MASTER"@, "BRIGHT"@, 0);
            assert forall|j: int| 0 <= j < 6 implies !(#[trigger] param_named(name)(ps[j])) by {
                if j == 0 { lemma_case_same(name, "BRIGHT"@, ps[0].name@); } else if j == 1 { lemma_case_same(name, "BRIGHT"@, ps[1].name@); } else if j == 2 { lemma_case_same(name, "BRIGHT"@, ps[2].name@); } else if j == 3 { lemma_case_same(name, "BRIGHT"@, ps[3].name@); } else if j == 4 { lemma_case_same(name, "BRIGHT"@, ps[4].name@); } else if j == 5 { lemma_case_same(name, "BRIGHT"@, ps[5].name@); }
            }
            lemma_case_same(name, "BRIGHT"@, ps[6].name@);
            assert(eq_ignore_ascii_case("BRIGHT"@, "BRIGHT"@));
            assert(is_first(ps, param_named(name), 6));
            lemma_first_at(ps, param_named(name), 6);
        }
        if eq_ignore_ascii_case(name, "TREMOLO SPEED"@) {

            assert forall|j: int| 0 <= j < 7 implies !(#[trigger] param_named(name)(ps[j])) by {
                if j == 0 { lemma_case_same(name, "TREMOLO SPEED"@, ps[0].name@); } else if j == 1 { lemma_case_same(name, "TREMOLO SPEED"@, ps[1].name@); } else if j == 2 { lemma_case_same(name, "TREMOLO SPEED"@, ps[2].name@); } else if j == 3 { lemma_case_same(name, "TREMOLO SPEED"@, ps[3].name@); } else if j == 4 { lemma_case_same(name, "TREMOLO SPEED"@, ps[4].name@); } else if j == 5 { lemma_case_same(name, "TREMOLO SPEED"@, ps[5].name@); } else if j == 6 { lemma_case_same(name, "TREMOLO SPEED"@, ps[6].name@); }
            }
            lemma_case_same(name, "TREMOLO SPEED"@, ps[7].name@);
            assert(eq_ignore_ascii_case("TREMOLO SPEED"@, "TREMOLO SPEED"@));
            assert(is_first(ps, param_named(name), 7));
            lemma_first_at(ps, param_named(name), 7);
        }
        if eq_ignore_ascii_case(name, "TREMOLO SYNC"@) {

            assert forall|j: int| 0 <= j < 8 implies !(#[trigger] param_named(name)(ps[j])) by {
                if j == 0 { lemma_case_same(name, "TREMOLO SYNC"@, ps[0].name@); } else if j == 1 { lemma_case_same(name, "TREMOLO SYNC"@, ps[1].name@); } else if j == 2 { lemma_case_same(name, "TREMOLO SYNC"@, ps[2].name@); } else if j == 3 { lemma_case_same(name, "TREMOLO SYNC"@, ps[3].name@); } else if j == 4 { lemma_case_same(name, "TREMOLO SYNC"@, ps[4].name@); } else if j == 5 { lemma_case_same(name, "TREMOLO SYNC"@, ps[5].name@); } else if j == 6 { lemma_case_same(name, "TREMOLO SYNC"@, ps[6].name@); } else if j == 7 { lemma_case_same(name, "TREMOLO SYNC"@, ps[7].name@); }
            }
            lemma_case_same(name, "TREMOLO SYNC"@, ps[8].name@);
            assert(eq_ignore_ascii_case("TREMOLO SYNC"@, "TREMOLO SYNC"@));
            assert(is_first(ps, param_named(name), 8));
            lemma_first_at(ps, param_named(name), 8);
        }
        if eq_ignore_ascii_case(name, "TREMOLO DEPTH"@) {
            lemma_differ_at("TREMOLO SPEED"@, "TREMOLO DEPTH"@, 8);
            assert forall|j: int| 0 <= j < 9 implies !(#[trigger] param_named(name)(ps[j])) by {
                if j == 0 { lemma_case_same(name, "TREMOLO DEPTH"@, ps[0].name@); } else if j == 1 { lemma_case_same(name, "TREMOLO DEPTH"@, ps[1].name@); } else if j == 2 { lemma_case_same(name, "TREMOLO DEPTH"@, ps[2].name@); } else if j == 3 { lemma_case_same(name, "TREMOLO DEPTH"@, ps[3].name@); } else if j == 4 { lemma_case_same(name, "TREMOLO DEPTH"@, ps[4].name@); } else if j == 5 { lemma_case_same(name, "TREMOLO DEPTH"@, ps[5].name@); } else if j == 6 { lemma_case_same(name, "TREMOLO DEPTH"@, ps[6].name@); } else if j == 7 { lemma_case_same(name, "TREMOLO DEPTH"@, ps[7].name@); } else if j == 8 { lemma_case_same(name, "TREMOLO DEPTH"@, ps[8].name@); }
            }
            lemma_case_same(name, "TREMOLO DEPTH"@, ps[9].name@);
            assert(eq_ignore_ascii_case("TREMOLO DEPTH"@, "TREMOLO DEPTH"@));
            assert(is_first(ps, param_named(name), 9));
            lemma_first_at(ps, param_named(name), 9);
        }
        if eq_ignore_ascii_case(name, "TREMOLO ON/OFF"@) {

            assert forall|j: int| 0 <= j < 10 implies !(#[trigger] param_named(name)(ps[j])) by {
                if j == 0 { lemma_case_same(name, "TREMOLO ON/OFF"@, ps[0].name@); } else if j == 1 { lemma_case_same(name, "TREMOLO ON/OFF"@, ps[1].name@); } else if j == 2 { lemma_case_same(name, "TREMOLO ON/OFF"@, ps[2].name@); } else if j == 3 { lemma_case_same(name, "TREMOLO ON/OFF"@, ps[3].name@); } else if j == 4 { lemma_case_same(name, "TREMOLO ON/OFF"@, ps[4].name@); } else if j == 5 { lemma_case_same(name, "TREMOLO ON/OFF"@, ps[5].name@); } else if j == 6 { lemma_case_same(name, "TREMOLO ON/OFF"@, ps[6].name@); } else if j == 7 { lemma_case_same(name, "TREMOLO ON/OFF"@, ps[7].name@); } else if j == 8 { lemma_case_same(name, "TREMOLO ON/OFF"@, ps[8].name@); } else if j == 9 { lemma_case_same(name, "TREMOLO ON/OFF"@, ps[9].name@); }
            }
            lemma_case_same(name, "TREMOLO ON/OFF"@, ps[10].name@);
            assert(eq_ignore_ascii_case("TREMOLO ON/OFF"@, "TREMOLO ON/OFF"@));
            assert(is_first(ps, param_named(name), 10));
            lemma_first_at(ps, param_named(name), 10);
        }
        if eq_ignore_ascii_case(name, "NOISE GATE THRESHOLD"@) {

            assert forall|j: int| 0 <= j < 11 implies !(#[trigger] param_named(name)(ps[j])) by {
                if j == 0 { lemma_case_same(name, "NOISE GATE THRESHOLD"@, ps[0].name@); } else if j == 1 { lemma_case_same(name, "NOISE GATE THRESHOLD"@, ps[1].name@); } else if j == 2 { lemma_case_same(name, "NOISE GATE THRESHOLD"@, ps[2].name@); } else if j == 3 { lemma_case_same(name, "NOISE GATE THRESHOLD"@, ps[3].name@); } else if j == 4 { lemma_case_same(name, "NOISE GATE THRESHOLD"@, ps[4].name@); } else if j == 5 { lemma_case_same(name, "NOISE GATE THRESHOLD"@, ps[5].name@); } else if j == 6 { lemma_case_same(name, "NOISE GATE THRESHOLD"@, ps[6].name@); } else if j == 7 { lemma_case_same(name, "NOISE GATE THRESHOLD"@, ps[7].name@); } else if j == 8 { lemma_case_same(name, "NOISE GATE THRESHOLD"@, ps[8].name@); } else if j == 9 { lemma_case_same(name, "NOISE GATE THRESHOLD"@, ps[9].name@); } else if j == 10 { lemma_case_same(name, "NOISE GATE THRESHOLD"@, ps[10].name@); }
            }
            lemma_case_same(name, "NOISE GATE THRESHOLD"@, ps[11].name@);
            assert(eq_ignore_ascii_case("NOISE GATE THRESHOLD"@, "NOISE GATE THRESHOLD"@));
            assert(is_first(ps, param_named(name), 11));
            lemma_first_at(ps, param_named(name), 11);
        }
        if eq_ignore_ascii_case(name, "NOISE GATE RELEASE"@) {

            assert forall|j: int| 0 <= j < 12 implies !(#[trigger] param_named(name)(ps[j])) by {
                if j == 0 { lemma_case_same(name, "NOISE GATE RELEASE"@, ps[0].name@); } else if j == 1 { lemma_case_same(name, "NOISE GATE RELEASE"@, ps[1].name@); } else if j == 2 { lemma_case_same(name, "NOISE GATE RELEASE"@, ps[2].name@); } else if j == 3 { lemma_case_same(name, "NOISE GATE RELEASE"@, ps[3].name@); } else if j == 4 { lemma_case_same(name, "NOISE GATE RELEASE"@, ps[4].name@); } else if j == 5 { lemma_case_same(name, "NOISE GATE RELEASE"@, ps[5].name@); } else if j == 6 { lemma_case_same(name, "NOISE GATE RELEASE"@, ps[6].name@); } else if j == 7 { lemma_case_same(name, "NOISE GATE RELEASE"@, ps[7].name@); } else if j == 8 { lemma_case_same(name, "NOISE GATE RELEASE"@, ps[8].name@); } else if j == 9 { lemma_case_same(name, "NOISE GATE RELEASE"@, ps[9].name@); } else if j == 10 { lemma_case_same(name, "NOISE GATE RELEASE"@, ps[10].name@); } else if j == 11 { lemma_case_same(name, "NOISE GATE RELEASE"@, ps[11].name@); }
            }
            lemma_case_same(name, "NOISE GATE RELEASE"@, ps[12].name@);
            assert(eq_ignore_ascii_case("NOISE GATE RELEASE"@, "NOISE GATE RELEASE"@));
            assert(is_first(ps, param_named(name), 12));
            lemma_first_at(ps, param_named(name), 12);
        }
}

/// The User Guide CC chart for the DC Vintage Overdrive: with the amp named in any ASCII
/// case, each of its controls, named in any ASCII case, resolves to its chart
/// CC and value kind.
#[verifier::rlimit(40)]
pub proof fn lemma_chart_dc_vintage_overdrive(name: Seq<char>, amp: Seq<char>)
    requires
        eq_ignore_ascii_case(amp, "DC Vintage Overdrive"@),
    ensures
        eq_ignore_ascii_case(name, "GAIN"@) ==> resolve_cc_spec(name, Some(amp), None) == Some((13u8, Kind::Knob)),
        eq_ignore_ascii_case(name, "BASS"@) ==> resolve_cc_spec(name, Some(amp), None) == Some((14u8, Kind::Knob)),
        eq_ignore_ascii_case(name, "MIDDLE"@) ==> resolve_cc_spec(name, Some(amp), None) == Some((15u8, Kind::Knob)),
        eq_ignore_ascii_case(name, "TREBLE"@) ==> resolve_cc_spec(name, Some(amp), None) == Some((16u8, Kind::Knob)),
        eq_ignore_ascii_case(name, "PRESENCE"@) ==> resolve_cc_spec(name, Some(amp), None) == Some((21u8, Kind::Knob)),
        eq_ignore_ascii_case(name, "MASTER"@) ==> resolve_cc_spec(name, Some(amp), None) == Some((10u8, Kind::Knob)),
        eq_ignore_ascii_case(name, "BRIGHT"@) ==> resolve_cc_spec(name, Some(amp), None) == Some((112u8, Kind::Switch { off: "Off", on: "On" })),
        eq_ignore_ascii_case(name, "TREMOLO SPEED"@) ==> resolve_cc_spec(name, Some(amp), None) == Some((3u8, Kind::Knob)),
        eq_ignore_ascii_case(name, "TREMOLO SYNC"@) ==> resolve_cc_spec(name, Some(amp), None) == Some((84u8, Kind::Knob)),
        eq_ignore_ascii_case(name, "TREMOLO DEPTH"@) ==> resolve_cc_spec(name, Some(amp), None) == Some((24u8, Kind::Knob)),
        eq_ignore_ascii_case(name, "TREMOLO ON/OFF"@) ==> resolve_cc_spec(name, Some(amp), None) == Some((45u8, Kind::Switch { off: "Off", on: "On" })),
        eq_ignore_ascii_case(name, "NOISE GATE THRESHOLD"@) ==> resolve_cc_spec(name, Some(amp), None) == Some((23u8, Kind::Knob)),
        eq_ignore_ascii_case(name, "NOISE GATE RELEASE"@) ==> resolve_cc_spec(name, Some(amp), None) == Some((22u8, Kind::Knob)),
{
    reveal_strlit("AC Hi Boost");
    reveal_strlit("BASS");
    reveal_strlit("BRIGHT");
    reveal_strlit("Black Panel Duo");
    reveal_strlit("Black Panel Lux Normal");
    reveal_strlit("Black Panel Lux Vibrato");
    reveal_strlit("DC Modern Crunch");
    reveal_strlit("DC Vintage Overdrive");
    reveal_strlit("GAIN");
    reveal_strlit("Lead 800 - 100W");
    reveal_strlit("M-2 Lead");
    reveal_strlit("MASTER");
    reveal_strlit("MIDDLE");
    reveal_strlit("NOISE GATE RELEASE");
    reveal_strlit("NOISE GATE THRESHOLD");
    reveal_strlit("PRESENCE");
    reveal_strlit("Plexiglas - 100W");
    reveal_strlit("SL-100 Clean");
    reveal_strlit("SL-100 Crunch");
    reveal_strlit("SL-100 Drive");
    reveal_strlit("TREBLE");
    reveal_strlit("TREMOLO DEPTH");
    reveal_strlit("TREMOLO ON/OFF");
    reveal_strlit("TREMOLO SPEED");
    reveal_strlit("TREMOLO SYNC");
    reveal_strlit("Treadplate Modern");
    reveal_strlit("Treadplate Vintage");
    reveal_strlit("Tweed Bass");
    reveal_strlit("Tweed Lux");
    let t = amp_table();
    assert(t[0].name@ == "Tweed Lux"@);
    assert(t[1].name@ == "Tweed Bass"@);
    assert(t[2].name@ == "Black Panel Lux Vibrato"@);
    assert(t[3].name@ == "Black Panel Lux Normal"@);
    assert(t[4].name@ == "AC Hi Boost"@);
    assert(t[5].name@ == "Black Panel Duo"@);
    assert(t[6].name@ == "Plexiglas - 100W"@);
    assert(t[7].name@ == "Lead 800 - 100W"@);
    assert(t[8].name@ == "M-2 Lead"@);
    assert(t[9].name@ == "SL-100 Drive"@);
    assert(t[10].name@ == "SL-100 Crunch"@);
    assert(t[11].name@ == "SL-100 Clean"@);
    assert(t[12].name@ == "Treadplate Modern"@);
    assert(t[13].name@ == "Treadplate Vintage"@);
    assert(t[14].name@ == "DC Modern Crunch"@);
    assert(t[15].name@ == "DC Vintage Overdrive"@);

    assert forall|j: int| 0 <= j < 15 implies !(#[trigger] amp_named(amp)(t[j])) by {
        if j == 0 { lemma_case_same(amp, "DC Vintage Overdrive"@, t[0].name@); } else if j == 1 { lemma_case_same(amp, "DC Vintage Overdrive"@, t[1].name@); } else if j == 2 { lemma_case_same(amp, "DC Vintage Overdrive"@, t[2].name@); } else if j == 3 { lemma_case_same(amp, "DC Vintage Overdrive"@, t[3].name@); } else if j == 4 { lemma_case_same(amp, "DC Vintage Overdrive"@, t[4].name@); } else if j == 5 { lemma_case_same(amp, "DC Vintage Overdrive"@, t[5].name@); } else if j == 6 { lemma_case_same(amp, "DC Vintage Overdrive"@, t[6].name@); } else if j == 7 { lemma_case_same(amp, "DC Vintage Overdrive"@, t[7].name@); } else if j == 8 { lemma_case_same(amp, "DC Vintage Overdrive"@, t[8].name@); } else if j == 9 { lemma_case_same(amp, "DC Vintage Overdrive"@, t[9].name@); } else if j == 10 { lemma_case_same(amp, "DC Vintage Overdrive"@, t[10].name@); } else if j == 11 { lemma_case_same(amp, "DC Vintage Overdrive"@, t[11].name@); } else if j == 12 { lemma_case_same(amp, "DC Vintage Overdrive"@, t[12].name@); } else if j == 13 { lemma_case_same(amp, "DC Vintage Overdrive"@, t[13].name@); } else if j == 14 { lemma_case_same(amp, "DC Vintage Overdrive"@, t[14].name@); }
    }
    lemma_case_same(amp, "DC Vintage Overdrive"@, t[15].name@);
    assert(eq_ignore_ascii_case("DC Vintage Overdrive"@, "DC Vintage Overdrive"@));
    assert(is_first(t, amp_named(amp), 15));
    lemma_first_at(t, amp_named(amp), 15);
    let ps = t[15].params;
    assert(ps[0].name@ == "GAIN"@);
    assert(ps[1].name@ == "BASS"@);
    assert(ps[2].name@ == "MIDDLE"@);
    assert(ps[3].name@ == "TREBLE"@);
    assert(ps[4].name@ == "PRESENCE"@);
    assert(ps[5].name@ == "MASTER"@);
    assert(ps[6].name@ == "BRIGHT"@);
    assert(ps[7].name@ == "TREMOLO SPEED"@);
    assert(ps[8].name@ == "TREMOLO SYNC"@);
    assert(ps[9].name@ == "TREMOLO DEPTH"@);
    assert(ps[10].name@ == "TREMOLO ON/OFF"@);
    assert(ps[11].name@ == "NOISE GATE THRESHOLD"@);
    assert(ps[12].name@ == "NOISE GATE RELEASE"@);
        if eq_ignore_ascii_case(name, "GAIN"@) {

            assert forall|j: int| 0 <= j < 0 implies !(#[trigger] param_named(name)(ps[j])) by {
                
            }
            lemma_case_same(name, "GAIN"@, ps[0].name@);
            assert(eq_ignore_ascii_case("GAIN"@, "GAIN"@));
            assert(is_first(ps, param_named(name), 0));
            lemma_first_at(ps, param_named(name), 0);
        }
        if eq_ignore_ascii_case(name, "BASS"@) {
            lemma_differ_at("GAIN"@, "BASS"@, 0);
            assert forall|j: int| 0 <= j < 1 implies !(#[trigger] param_named(name)(ps[j])) by {
                if j == 0 { lemma_case_same(name, "BASS"@, ps[0].name@); }
            }
            lemma_case_same(name, "BASS"@, ps[1].name@);
            assert(eq_ignore_ascii_case("BASS"@, "BASS"@));
            assert(is_first(ps, param_named(name), 1));
            lemma_first_at(ps, param_named(name), 1);
        }
        if eq_ignore_ascii_case(name, "MIDDLE"@) {

            assert forall|j: int| 0 <= j < 2 implies !(#[trigger] param_named(name)(ps[j])) by {
                if j == 0 { lemma_case_same(name, "MIDDLE"@, ps[0].name@); } else if j == 1 { lemma_case_same(name, "MIDDLE"@, ps[1].name@); }
            }
            lemma_case_same(name, "MIDDLE"@, ps[2].name@);
            assert(eq_ignore_ascii_case("MIDDLE"@, "MIDDLE"@));
            assert(is_first(ps, param_named(name), 2));
            lemma_first_at(ps, param_named(name), 2);
        }
        if eq_ignore_ascii_case(name, "TREBLE"@) {
            lemma_differ_at("MIDDLE"@, "TREBLE"@, 0);
            assert forall|j: int| 0 <= j < 3 implies !(#[trigger] param_named(name)(ps[j])) by {
                if j == 0 { lemma_case_same(name, "TREBLE"@, ps[0].name@); } else if j == 1 { lemma_case_same(name, "TREBLE"@, ps[1].name@); } else if j == 2 { lemma_case_same(name, "TREBLE"@, ps[2].name@); }
            }
            lemma_case_same(name, "TREBLE"@, ps[3].name@);
            assert(eq_ignore_ascii_case("TREBLE"@, "TREBLE"@));
            assert(is_first(ps, param_named(name), 3));
            lemma_first_at(ps, param_named(name), 3);
        }
        if eq_ignore_ascii_case(name, "PRESENCE"@) {

            assert forall|j: int| 0 <= j < 4 implies !(#[trigger] param_named(name)(ps[j])) by {
                if j == 0 { lemma_case_same(name, "PRESENCE"@, ps[0].name@); } else if j == 1 { lemma_case_same(name, "PRESENCE"@, ps[1].name@); } else if j == 2 { lemma_case_same(name, "PRESENCE"@, ps[2].name@); } else if j == 3 { lemma_case_same(name, "PRESENCE"@, ps[3].name@); }
            }
            lemma_case_same(name, "PRESENCE"@, ps[4].name@);
            assert(eq_ignore_ascii_case("PRESENCE"@, "PRESENCE"@));
            assert(is_first(ps, param_named(name), 4));
            lemma_first_at(ps, param_named(name), 4);
        }
        if eq_ignore_ascii_case(name, "MASTER"@) {
            lemma_differ_at("MIDDLE"@, "MASTER"@, 1);
            lemma_differ_at("TREBLE"@, "MASTER"@, 0);
            assert forall|j: int| 0 <= j < 5 implies !(#[trigger] param_named(name)(ps[j])) by {
                if j == 0 { lemma_case_same(name, "MASTER"@, ps[0].name@); } else if j == 1 { lemma_case_same(name, "MASTER"@, ps[1].name@); } else if j == 2 { lemma_case_same(name, "MASTER"@, ps[2].name@); } else if j == 3 { lemma_case_same(name, "MASTER"@, ps[3].name@); } else if j == 4 { lemma_case_same(name, "MASTER"@, ps[4].name@); }
            }
            lemma_case_same(name, "MASTER"@, ps[5].name@);
            assert(eq_ignore_ascii_case("MASTER"@, "MASTER"@));
            assert(is_first(ps, param_named(name), 5));
            lemma_first_at(ps, param_named(name), 5);
        }
        if eq_ignore_ascii_case(name, "BRIGHT"@) {
            lemma_differ_at("MIDDLE"@, "BRIGHT"@, 0);
            lemma_differ_at("TREBLE"@, "BRIGHT"@, 0);
            lemma_differ_at("MASTER"@, "BRIGHT"@, 0);
            assert forall|j: int| 0 <= j < 6 implies !(#[trigger] param_named(name)(ps[j])) by {
                if j == 0 { lemma_case_same(name, "BRIGHT"@, ps[0].name@); } else if j == 1 { lemma_case_same(name, "BRIGHT"@, ps[1].name@); } else if j == 2 { lemma_case_same(name, "BRIGHT"@, ps[2].name@); } else if j == 3 { lemma_case_same(name, "BRIGHT"@, ps[3].name@); } else if j == 4 { lemma_case_same(name, "BRIGHT"@, ps[4].name@); } else if j == 5 { lemma_case_same(name, "BRIGHT"@, ps[5].name@); }
            }
            lemma_case_same(name, "BRIGHT"@, ps[6].name@);
            assert(eq_ignore_ascii_case("BRIGHT"@, "BRIGHT"@));
            assert(is_first(ps, param_named(name), 6));
            lemma_first_at(ps, param_named(name), 6);
        }
        if eq_ignore_ascii_case(name, "TREMOLO SPEED"@) {

            assert forall|j: int| 0 <= j < 7 implies !(#[trigger] param_named(name)(ps[j])) by {
                if j == 0 { lemma_case_same(name, "TREMOLO SPEED"@, ps[0].name@); } else if j == 1 { lemma_case_same(name, "TREMOLO SPEED"@, ps[1].name@); } else if j == 2 { lemma_case_same(name, "TREMOLO SPEED"@, ps[2].name@); } else if j == 3 { lemma_case_same(name, "TREMOLO SPEED"@, ps[3].name@); } else if j == 4 { lemma_case_same(name, "TREMOLO SPEED"@, ps[4].name@); } else if j == 5 { lemma_case_same(name, "TREMOLO SPEED"@, ps[5].name@); } else if j == 6 { lemma_case_same(name, "TREMOLO SPEED"@, ps[6].name@); }
            }
            lemma_case_same(name, "TREMOLO SPEED"@, ps[7].name@);
            assert(eq_ignore_ascii_case("TREMOLO SPEED"@, "TREMOLO SPEED"@));
            assert(is_first(ps, param_named(name), 7));
            lemma_first_at(ps, param_named(name), 7);
        }
        if eq_ignore_ascii_case(name, "TREMOLO SYNC"@) {

            assert forall|j: int| 0 <= j < 8 implies !(#[trigger] param_named(name)(ps[j])) by {
                if j == 0 { lemma_case_same(name, "TREMOLO SYNC"@, ps[0].name@); } else if j == 1 { lemma_case_same(name, "TREMOLO SYNC"@, ps[1].name@); } else if j == 2 { lemma_case_same(name, "TREMOLO SYNC"@, ps[2].name@); } else if j == 3 { lemma_case_same(name, "TREMOLO SYNC"@, ps[3].name@); } else if j == 4 { lemma_case_same(name, "TREMOLO SYNC"@, ps[4].name@); } else if j == 5 { lemma_case_same(name, "TREMOLO SYNC"@, ps[5].name@); } else if j == 6 { lemma_case_same(name, "TREMOLO SYNC"@, ps[6].name@); } else if j == 7 { lemma_case_same(name, "TREMOLO SYNC"@, ps[7].name@); }
            }
            lemma_case_same(name, "TREMOLO SYNC"@, ps[8].name@);
            assert(eq_ignore_ascii_case("TREMOLO SYNC"@, "TREMOLO SYNC"@));
            assert(is_first(ps, param_named(name), 8));
            lemma_first_at(ps, param_named(name), 8);
        }
        if eq_ignore_ascii_case(name, "TREMOLO DEPTH"@) {
            lemma_differ_at("TREMOLO SPEED"@, "TREMOLO DEPTH"@, 8);
            assert forall|j: int| 0 <= j < 9 implies !(#[trigger] param_named(name)(ps[j])) by {
                if j == 0 { lemma_case_same(name, "TREMOLO DEPTH"@, ps[0].name@); } else if j == 1 { lemma_case_same(name, "TREMOLO DEPTH"@, ps[1].name@); } else if j == 2 { lemma_case_same(name, "TREMOLO DEPTH"@, ps[2].name@); } else if j == 3 { lemma_case_same(name, "TREMOLO DEPTH"@, ps[3].name@); } else if j == 4 { lemma_case_same(name, "TREMOLO DEPTH"@, ps[4].name@); } else if j == 5 { lemma_case_same(name, "TREMOLO DEPTH"@, ps[5].name@); } else if j == 6 { lemma_case_same(name, "TREMOLO DEPTH"@, ps[6].name@); } else if j == 7 { lemma_case_same(name, "TREMOLO DEPTH"@, ps[7].name@); } else if j == 8 { lemma_case_same(name, "TREMOLO DEPTH"@, ps[8].name@); }
            }
            lemma_case_same(name, "TREMOLO DEPTH"@, ps[9].name@);
            assert(eq_ignore_ascii_case("TREMOLO DEPTH"@, "TREMOLO DEPTH"@));
            assert(is_first(ps, param_named(name), 9));
            lemma_first_at(ps, param_named(name), 9);
        }
        if eq_ignore_ascii_case(name, "TREMOLO ON/OFF"@) {

            assert forall|j: int| 0 <= j < 10 implies !(#[trigger] param_named(name)(ps[j])) by {
                if j == 0 { lemma_case_same(name, "TREMOLO ON/OFF"@, ps[0].name@); } else if j == 1 { lemma_case_same(name, "TREMOLO ON/OFF"@, ps[1].name@); } else if j == 2 { lemma_case_same(name, "TREMOLO ON/OFF"@, ps[2].name@); } else if j == 3 { lemma_case_same(name, "TREMOLO ON/OFF"@, ps[3].name@); } else if j == 4 { lemma_case_same(name, "TREMOLO ON/OFF"@, ps[4].name@); } else if j == 5 { lemma_case_same(name, "TREMOLO ON/OFF"@, ps[5].name@); } else if j == 6 { lemma_case_same(name, "TREMOLO ON/OFF"@, ps[6].name@); } else if j == 7 { lemma_case_same(name, "TREMOLO ON/OFF"@, ps[7].name@); } else if j == 8 { lemma_case_same(name, "TREMOLO ON/OFF"@, ps[8].name@); } else if j == 9 { lemma_case_same(name, "TREMOLO ON/OFF"@, ps[9].name@); }
            }
            lemma_case_same(name, "TREMOLO ON/OFF"@, ps[10].name@);
            assert(eq_ignore_ascii_case("TREMOLO ON/OFF"@, "TREMOLO ON/OFF"@));
            assert(is_first(ps, param_named(name), 10));
            lemma_first_at(ps, param_named(name), 10);
        }
        if eq_ignore_ascii_case(name, "NOISE GATE THRESHOLD"@) {

            assert forall|j: int| 0 <= j < 11 implies !(#[trigger] param_named(name)(ps[j])) by {
                if j == 0 { lemma_case_same(name, "NOISE GATE THRESHOLD"@, ps[0].name@); } else if j == 1 { lemma_case_same(name, "NOISE GATE THRESHOLD"@, ps[1].name@); } else if j == 2 { lemma_case_same(name, "NOISE GATE THRESHOLD"@, ps[2].name@); } else if j == 3 { lemma_case_same(name, "NOISE GATE THRESHOLD"@, ps[3].name@); } else if j == 4 { lemma_case_same(name, "NOISE GATE THRESHOLD"@, ps[4].name@); } else if j == 5 { lemma_case_same(name, "NOISE GATE THRESHOLD"@, ps[5].name@); } else if j == 6 { lemma_case_same(name, "NOISE GATE THRESHOLD"@, ps[6].name@); } else if j == 7 { lemma_case_same(name, "NOISE GATE THRESHOLD"@, ps[7].name@); } else if j == 8 { lemma_case_same(name, "NOISE GATE THRESHOLD"@, ps[8].name@); } else if j == 9 { lemma_case_same(name, "NOISE GATE THRESHOLD"@, ps[9].name@); } else if j == 10 { lemma_case_same(name, "NOISE GATE THRESHOLD"@, ps[10].name@); }
            }
            lemma_case_same(name, "NOISE GATE THRESHOLD"@, ps[11].name@);
            assert(eq_ignore_ascii_case("NOISE GATE THRESHOLD"@, "NOISE GATE THRESHOLD"@));
            assert(is_first(ps, param_named(name), 11));
            lemma_first_at(ps, param_named(name), 11);
        }
        if eq_ignore_ascii_case(name, "NOISE GATE RELEASE"@) {

            assert forall|j: int| 0 <= j < 12 implies !(#[trigger] param_named(name)(ps[j])) by {
                if j == 0 { lemma_case_same(name, "NOISE GATE RELEASE"@, ps[0].name@); } else if j == 1 { lemma_case_same(name, "NOISE GATE RELEASE"@, ps[1].name@); } else if j == 2 { lemma_case_same(name, "NOISE GATE RELEASE"@, ps[2].name@); } else if j == 3 { lemma_case_same(name, "NOISE GATE RELEASE"@, ps[3].name@); } else if j == 4 { lemma_case_same(name, "NOISE GATE RELEASE"@, ps[4].name@); } else if j == 5 { lemma_case_same(name, "NOISE GATE RELEASE"@, ps[5].name@); } else if j == 6 { lemma_case_same(name, "NOISE GATE RELEASE"@, ps[6].name@); } else if j == 7 { lemma_case_same(name, "NOISE GATE RELEASE"@, ps[7].name@); } else if j == 8 { lemma_case_same(name, "NOISE GATE RELEASE"@, ps[8].name@); } else if j == 9 { lemma_case_same(name, "NOISE GATE RELEASE"@, ps[9].name@); } else if j == 10 { lemma_case_same(name, "NOISE GATE RELEASE"@, ps[10].name@); } else if j == 11 { lemma_case_same(name, "NOISE GATE RELEASE"@, ps[11].name@); }
            }
            lemma_case_same(name, "NOISE GATE RELEASE"@, ps[12].name@);
            assert(eq_ignore_ascii_case("NOISE GATE RELEASE"@, "NOISE GATE RELEASE"@));
            assert(is_first(ps, param_named(name), 12));
            lemma_first_at(ps, param_named(name), 12);
        }
}

/// The User Guide CC chart for the J45: with the amp named in any ASCII
/// case, each of its controls, named in any ASCII case, resolves to its chart
/// CC and value kind.
#[verifier::rlimit(40)]
pub proof fn lemma_chart_j45(name: Seq<char>, amp: Seq<char>)
    requires
        eq_ignore_ascii_case(amp, "J45"@),
    ensures
        eq_ignore_ascii_case(name, "PRESENCE"@) ==> resolve_cc_spec(name, Some(amp), None) == Some((13u8, Kind::Knob)),
        eq_ignore_ascii_case(name, "BASS"@) ==> resolve_cc_spec(name, Some(amp), None) == Some((14u8, Kind::Knob)),
        eq_ignore_ascii_case(name, "MIDDLE"@) ==> resolve_cc_spec(name, Some(amp), None) == Some((15u8, Kind::Knob)),
        eq_ignore_ascii_case(name, "TREBLE"@) ==> resolve_cc_spec(name, Some(amp), None) == Some((16u8, Kind::Knob)),
        eq_ignore_ascii_case(name, "VOLUME 1"@) ==> resolve_cc_spec(name, Some(amp), None) == Some((21u8, Kind::Knob)),
        eq_ignore_ascii_case(name, "VOLUME 2"@) ==> resolve_cc_spec(name, Some(amp), None) == Some((10u8, Kind::Knob)),
        eq_ignore_ascii_case(name, "NOISE GATE THRESHOLD"@) ==> resolve_cc_spec(name, Some(amp), None) == Some((112u8, Kind::Knob)),
        eq_ignore_ascii_case(name, "NOISE GATE RELEASE"@) ==> resolve_cc_spec(name, Some(amp), None) == Some((3u8, Kind::Knob)),
{
    reveal_strlit("AC Hi Boost");
    reveal_strlit("BASS");
    reveal_strlit("Black Panel Duo");
    reveal_strlit("Black Panel Lux Normal");
    reveal_strlit("Black Panel Lux Vibrato");
    reveal_strlit("DC Modern Crunch");
    reveal_strlit("DC Vintage Overdrive");
    reveal_strlit("J45");
    reveal_strlit("Lead 800 - 100W");
    reveal_strlit("M-2 Lead");
    reveal_strlit("MIDDLE");
    reveal_strlit("NOISE GATE RELEASE");
    reveal_strlit("NOISE GATE THRESHOLD");
    reveal_strlit("PRESENCE");
    reveal_strlit("Plexiglas - 100W");
    reveal_strlit("SL-100 Clean");
    reveal_strlit("SL-100 Crunch");
    reveal_strlit("SL-100 Drive");
    reveal_strlit("TREBLE");
    reveal_strlit("Treadplate Modern");
    reveal_strlit("Treadplate Vintage");
    reveal_strlit("Tweed Bass");
    reveal_strlit("Tweed Lux");
    reveal_strlit("VOLUME 1");
    reveal_strlit("VOLUME 2");
    let t = amp_table();
    assert(t[0].name@ == "Tweed Lux"@);
    assert(t[1].name@ == "Tweed Bass"@);
    assert(t[2].name@ == "Black Panel Lux Vibrato"@);
    assert(t[3].name@ == "Black Panel Lux Normal"@);
    assert(t[4].name@ == "AC Hi Boost"@);
    assert(t[5].name@ == "Black Panel Duo"@);
    assert(t[6].name@ == "Plexiglas - 100W"@);
    assert(t[7].name@ == "Lead 800 - 100W"@);
    assert(t[8].name@ == "M-2 Lead"@);
    assert(t[9].name@ == "SL-100 Drive"@);
    assert(t[10].name@ == "SL-100 Crunch"@);
    assert(t[11].name@ == "SL-100 Clean"@);
    assert(t[12].name@ == "Treadplate Modern"@);
    assert(t[13].name@ == "Treadplate Vintage"@);
    assert(t[14].name@ == "DC Modern Crunch"@);
    assert(t[15].name@ == "DC Vintage Overdrive"@);
    assert(t[16].name@ == "J45"@);

    assert forall|j: int| 0 <= j < 16 implies !(#[trigger] amp_named(amp)(t[j])) by {
        if j == 0 { lemma_case_same(amp, "J45"@, t[0].name@); } else if j == 1 { lemma_case_same(amp, "J45"@, t[1].name@); } else if j == 2 { lemma_case_same(amp, "J45"@, t[2].name@); } else if j == 3 { lemma_case_same(amp, "J45"@, t[3].name@); } else if j == 4 { lemma_case_same(amp, "J45"@, t[4].name@); } else if j == 5 { lemma_case_same(amp, "J45"@, t[5].name@); } else if j == 6 { lemma_case_same(amp, "J45"@, t[6].name@); } else if j == 7 { lemma_case_same(amp, "J45"@, t[7].name@); } else if j == 8 { lemma_case_same(amp, "J45"@, t[8].name@); } else if j == 9 { lemma_case_same(amp, "J45"@, t[9].name@); } else if j == 10 { lemma_case_same(amp, "J45"@, t[10].name@); } else if j == 11 { lemma_case_same(amp, "J45"@, t[11].name@); } else if j == 12 { lemma_case_same(amp, "J45"@, t[12].name@); } else if j == 13 { lemma_case_same(amp, "J45"@, t[13].name@); } else if j == 14 { lemma_case_same(amp, "J45"@, t[14].name@); } else if j == 15 { lemma_case_same(amp, "J45"@, t[15].name@); }
    }
    lemma_case_same(amp, "J45"@, t[16].name@);
    assert(eq_ignore_ascii_case("J45"@, "J45"@));
    assert(is_first(t, amp_named(amp), 16));
    lemma_first_at(t, amp_named(amp), 16);
    let ps = t[16].params;
    assert(ps[0].name@ == "PRESENCE"@);
    assert(ps[1].name@ == "BASS"@);
    assert(ps[2].name@ == "MIDDLE"@);
    assert(ps[3].name@ == "TREBLE"@);
    assert(ps[4].name@ == "VOLUME 1"@);
    assert(ps[5].name@ == "VOLUME 2"@);
    assert(ps[6].name@ == "NOISE GATE THRESHOLD"@);
    assert(ps[7].name@ == "NOISE GATE RELEASE"@);
        if eq_ignore_ascii_case(name, "PRESENCE"@) {

            assert forall|j: int| 0 <= j < 0 implies !(#[trigger] param_named(name)(ps[j])) by {
                
            }
            lemma_case_same(name, "PRESENCE"@, ps[0].name@);
            assert(eq_ignore_ascii_case("PRESENCE"@, "PRESENCE"@));
            assert(is_first(ps, param_named(name), 0));
            lemma_first_at(ps, param_named(name), 0);
        }
        if eq_ignore_ascii_case(name, "BASS"@) {

            assert forall|j: int| 0 <= j < 1 implies !(#[trigger] param_named(name)(ps[j])) by {
                if j == 0 { lemma_case_same(name, "BASS"@, ps[0].name@); }
            }
            lemma_case_same(name, "BASS"@, ps[1].name@);
            assert(eq_ignore_ascii_case("BASS"@, "BASS"@));
            assert(is_first(ps, param_named(name), 1));
            lemma_first_at(ps, param_named(name), 1);
        }
        if eq_ignore_ascii_case(name, "MIDDLE"@) {

            assert forall|j: int| 0 <= j < 2 implies !(#[trigger] param_named(name)(ps[j])) by {
                if j == 0 { lemma_case_same(name, "MIDDLE"@, ps[0].name@); } else if j == 1 { lemma_case_same(name, "MIDDLE"@, ps[1].name@); }
            }
            lemma_case_same(name, "MIDDLE"@, ps[2].name@);
            assert(eq_ignore_ascii_case("MIDDLE"@, "MIDDLE"@));
            assert(is_first(ps, param_named(name), 2));
            lemma_first_at(ps, param_named(name), 2);
        }
        if eq_ignore_ascii_case(name, "TREBLE"@) {
            lemma_differ_at("MIDDLE"@, "TREBLE"@, 0);
            assert forall|j: int| 0 <= j < 3 implies !(#[trigger] param_named(name)(ps[j])) by {
                if j == 0 { lemma_case_same(name, "TREBLE"@, ps[0].name@); } else if j == 1 { lemma_case_same(name, "TREBLE"@, ps[1].name@); } else if j == 2 { lemma_case_same(name, "TREBLE"@, ps[2].name@); }
            }
            lemma_case_same(name, "TREBLE"@, ps[3].name@);
            assert(eq_ignore_ascii_case("TREBLE"@, "TREBLE"@));
            assert(is_first(ps, param_named(name), 3));
            lemma_first_at(ps, param_named(name), 3);
        }
        if eq_ignore_ascii_case(name, "VOLUME 1"@) {
            lemma_differ_at("PRESENCE"@, "VOLUME 1"@, 0);
            assert forall|j: int| 0 <= j < 4 implies !(#[trigger] param_named(name)(ps[j])) by {
                if j == 0 { lemma_case_same(name, "VOLUME 1"@, ps[0].name@); } else if j == 1 { lemma_case_same(name, "VOLUME 1"@, ps[1].name@); } else if j == 2 { lemma_case_same(name, "VOLUME 1"@, ps[2].name@); } else if j == 3 { lemma_case_same(name, "VOLUME 1"@, ps[3].name@); }
            }
            lemma_case_same(name, "VOLUME 1"@, ps[4].name@);
            assert(eq_ignore_ascii_case("VOLUME 1"@, "VOLUME 1"@));
            assert(is_first(ps, param_named(name), 4));
            lemma_first_at(ps, param_named(name), 4);
        }
        if eq_ignore_ascii_case(name, "VOLUME 2"@) {
            lemma_differ_at("PRESENCE"@, "VOLUME 2"@, 0);
            lemma_differ_at("VOLUME 1"@, "VOLUME 2"@, 7);
            assert forall|j: int| 0 <= j < 5 implies !(#[trigger] param_named(name)(ps[j])) by {
                if j == 0 { lemma_case_same(name, "VOLUME 2"@, ps[0].name@); } else if j == 1 { lemma_case_same(name, "VOLUME 2"@, ps[1].name@); } else if j == 2 { lemma_case_same(name, "VOLUME 2"@, ps[2].name@); } else if j == 3 { lemma_case_same(name, "VOLUME 2"@, ps[3].name@); } else if j == 4 { lemma_case_same(name, "VOLUME 2"@, ps[4].name@); }
            }
            lemma_case_same(name, "VOLUME 2"@, ps[5].name@);
            assert(eq_ignore_ascii_case("VOLUME 2"@, "VOLUME 2"@));
            assert(is_first(ps, param_named(name), 5));
            lemma_first_at(ps, param_named(name), 5);
        }
        if eq_ignore_ascii_case(name, "NOISE GATE THRESHOLD"@) {

            assert forall|j: int| 0 <= j < 6 implies !(#[trigger] param_named(name)(ps[j])) by {
                if j == 0 { lemma_case_same(name, "NOISE GATE THRESHOLD"@, ps[0].name@); } else if j == 1 { lemma_case_same(name, "NOISE GATE THRESHOLD"@, ps[1].name@); } else if j == 2 { lemma_case_same(name, "NOISE GATE THRESHOLD"@, ps[2].name@); } else if j == 3 { lemma_case_same(name, "NOISE GATE THRESHOLD"@, ps[3].name@); } else if j == 4 { lemma_case_same(name, "NOISE GATE THRESHOLD"@, ps[4].name@); } else if j == 5 { lemma_case_same(name, "NOISE GATE THRESHOLD"@, ps[5].name@); }
            }
            lemma_case_same(name, "NOISE GATE THRESHOLD"@, ps[6].name@);
            assert(eq_ignore_ascii_case("NOISE GATE THRESHOLD"@, "NOISE GATE THRESHOLD"@));
            assert(is_first(ps, param_named(name), 6));
            lemma_first_at(ps, param_named(name), 6);
        }
        if eq_ignore_ascii_case(name, "NOISE GATE RELEASE"@) {

            assert forall|j: int| 0 <= j < 7 implies !(#[trigger] param_named(name)(ps[j])) by {
                if j == 0 { lemma_case_same(name, "NOISE GATE RELEASE"@, ps[0].name@); } else if j == 1 { lemma_case_same(name, "NOISE GATE RELEASE"@, ps[1].name@); } else if j == 2 { lemma_case_same(name, "NOISE GATE RELEASE"@, ps[2].name@); } else if j == 3 { lemma_case_same(name, "NOISE GATE RELEASE"@, ps[3].name@); } else if j == 4 { lemma_case_same(name, "NOISE GATE RELEASE"@, ps[4].name@); } else if j == 5 { lemma_case_same(name, "NOISE GATE RELEASE"@, ps[5].name@); } else if j == 6 { lemma_case_same(name, "NOISE GATE RELEASE"@, ps[6].name@); }
            }
            lemma_case_same(name, "NOISE GATE RELEASE"@, ps[7].name@);
            assert(eq_ignore_ascii_case("NOISE GATE RELEASE"@, "NOISE GATE RELEASE"@));
            assert(is_first(ps, param_named(name), 7));
            lemma_first_at(ps, param_named(name), 7);
        }
}

/// The User Guide CC chart for the Black SR: with the amp named in any ASCII
/// case, each of its controls, named in any ASCII case, resolves to its chart
/// CC and value kind.
#[verifier::rlimit(40)]
pub proof fn lemma_chart_black_sr(name: Seq<char>, amp: Seq<char>)
    requires
        eq_ignore_ascii_case(amp, "Black SR"@),
    ensures
        eq_ignore_ascii_case(name, "VOLUME"@) ==> resolve_cc_spec(name, Some(amp), None) == Some((13u8, Kind::Knob)),
        eq_ignore_ascii_case(name, "TREBLE"@) ==> resolve_cc_spec(name, Some(amp), None) == Some((14u8, Kind::Knob)),
        eq_ignore_ascii_case(name, "MIDDLE"@) ==> resolve_cc_spec(name, Some(amp), None) == Some((15u8, Kind::Knob)),
        eq_ignore_ascii_case(name, "BASS"@) ==> resolve_cc_spec(name, Some(amp), None) == Some((16u8, Kind::Knob)),
        eq_ignore_ascii_case(name, "BRIGHT"@) ==> resolve_cc_spec(name, Some(amp), None) == Some((21u8, Kind::Switch { off: "Off", on: "On" })),
        eq_ignore_ascii_case(name, "VIBRATO SPEED"@) ==> resolve_cc_spec(name, Some(amp), None) == Some((10u8, Kind::Knob)),
        eq_ignore_ascii_case(name, "VIBRATO SYNC"@) ==> resolve_cc_spec(name, Some(amp), None) == Some((112u8, Kind::Knob)),
        eq_ignore_ascii_case(name, "VIBRATO DEPTH"@) ==> resolve_cc_spec(name, Some(amp), None) == Some((3u8, Kind::Knob)),
        eq_ignore_ascii_case(name, "VIBRATO ON/OFF"@) ==> resolve_cc_spec(name, Some(amp), None) == Some((22u8, Kind::Switch { off: "Off", on: "On" })),
        eq_ignore_ascii_case(name, "NOISE GATE THRESHOLD"@) ==> resolve_cc_spec(name, Some(amp), None) == Some((84u8, Kind::Knob)),
        eq_ignore_ascii_case(name, "NOISE GATE RELEASE"@) ==> resolve_cc_spec(name, Some(amp), None) == Some((24u8, Kind::Knob)),
{
    reveal_strlit("AC Hi Boost");
    reveal_strlit("BASS");
    reveal_strlit("BRIGHT");
    reveal_strlit("Black Panel Duo");
    reveal_strlit("Black Panel Lux Normal");
    reveal_strlit("Black Panel Lux Vibrato");
    reveal_strlit("Black SR");
    reveal_strlit("DC Modern Crunch");
    reveal_strlit("DC Vintage Overdrive");
    reveal_strlit("J45");
    reveal_strlit("Lead 800 - 100W");
    reveal_strlit("M-2 Lead");
    reveal_strlit("MIDDLE");
    reveal_strlit("NOISE GATE RELEASE");
    reveal_strlit("NOISE GATE THRESHOLD");
    reveal_strlit("Plexiglas - 100W");
    reveal_strlit("SL-100 Clean");
    reveal_strlit("SL-100 Crunch");
    reveal_strlit("SL-100 Drive");
    reveal_strlit("TREBLE");
    reveal_strlit("Treadplate Modern");
    reveal_strlit("Treadplate Vintage");
    reveal_strlit("Tweed Bass");
    reveal_strlit("Tweed Lux");
    reveal_strlit("VIBRATO DEPTH");
    reveal_strlit("VIBRATO ON/OFF");
    reveal_strlit("VIBRATO SPEED");
    reveal_strlit("VIBRATO SYNC");
    reveal_strlit("VOLUME");
    let t = amp_table();
    assert(t[0].name@ == "Tweed Lux"@);
    assert(t[1].name@ == "Tweed Bass"@);
    assert(t[2].name@ == "Black Panel Lux Vibrato"@);
    assert(t[3].name@ == "Black Panel Lux Normal"@);
    assert(t[4].name@ == "AC Hi Boost"@);
    assert(t[5].name@ == "Black Panel Duo"@);
    assert(t[6].name@ == "Plexiglas - 100W"@);
    assert(t[7].name@ == "Lead 800 - 100W"@);
    assert(t[8].name@ == "M-2 Lead"@);
    assert(t[9].name@ == "SL-100 Drive"@);
    assert(t[10].name@ == "SL-100 Crunch"@);
    assert(t[11].name@ == "SL-100 Clean"@);
    assert(t[12].name@ == "Treadplate Modern"@);
    assert(t[13].name@ == "Treadplate Vintage"@);
    assert(t[14].name@ == "DC Modern Crunch"@);
    assert(t[15].name@ == "DC Vintage Overdrive"@);
    assert(t[16].name@ == "J45"@);
    assert(t[17].name@ == "Black SR"@);
    lemma_differ_at("M-2 Lead"@, "Black SR"@, 0);
    assert forall|j: int| 0 <= j < 17 implies !(#[trigger] amp_named(amp)(t[j])) by {
        if j == 0 { lemma_case_same(amp, "Black SR"@, t[0].name@); } else if j == 1 { lemma_case_same(amp, "Black SR"@, t[1].name@); } else if j == 2 { lemma_case_same(amp, "Black SR"@, t[2].name@); } else if j == 3 { lemma_case_same(amp, "Black SR"@, t[3].name@); } else if j == 4 { lemma_case_same(amp, "Black SR"@, t[4].name@); } else if j == 5 { lemma_case_same(amp, "Black SR"@, t[5].name@); } else if j == 6 { lemma_case_same(amp, "Black SR"@, t[6].name@); } else if j == 7 { lemma_case_same(amp, "Black SR"@, t[7].name@); } else if j == 8 { lemma_case_same(amp, "Black SR"@, t[8].name@); } else if j == 9 { lemma_case_same(amp, "Black SR"@, t[9].name@); } else if j == 10 { lemma_case_same(amp, "Black SR"@, t[10].name@); } else if j == 11 { lemma_case_same(amp, "Black SR"@, t[11].name@); } else if j == 12 { lemma_case_same(amp, "Black SR"@, t[12].name@); } else if j == 13 { lemma_case_same(amp, "Black SR"@, t[13].name@); } else if j == 14 { lemma_case_same(amp, "Black SR"@, t[14].name@); } else if j == 15 { lemma_case_same(amp, "Black SR"@, t[15].name@); } else if j == 16 { lemma_case_same(amp, "Black SR"@, t[16].name@); }
    }
    lemma_case_same(amp, "Black SR"@, t[17].name@);
    assert(eq_ignore_ascii_case("Black SR"@, "Black SR"@));
    assert(is_first(t, amp_named(amp), 17));
    lemma_first_at(t, amp_named(amp), 17);
    let ps = t[17].params;
    assert(ps[0].name@ == "VOLUME"@);
    assert(ps[1].name@ == "TREBLE"@);
    assert(ps[2].name@ == "MIDDLE"@);
    assert(ps[3].name@ == "BASS"@);
    assert(ps[4].name@ == "BRIGHT"@);
    assert(ps[5].name@ == "VIBRATO SPEED"@);
    assert(ps[6].name@ == "VIBRATO SYNC"@);
    assert(ps[7].name@ == "VIBRATO DEPTH"@);
    assert(ps[8].name@ == "VIBRATO ON/OFF"@);
    assert(ps[9].name@ == "NOISE GATE THRESHOLD"@);
    assert(ps[10].name@ == "NOISE GATE RELEASE"@);
        if eq_ignore_ascii_case(name, "VOLUME"@) {

            assert forall|j: int| 0 <= j < 0 implies !(#[trigger] param_named(name)(ps[j])) by {
                
            }
            lemma_case_same(name, "VOLUME"@, ps[0].name@);
            assert(eq_ignore_ascii_case("VOLUME"@, "VOLUME"@));
            assert(is_first(ps, param_named(name), 0));
            lemma_first_at(ps, param_named(name), 0);
        }
        if eq_ignore_ascii_case(name, "TREBLE"@) {
            lemma_differ_at("VOLUME"@, "TREBLE"@, 0);
            assert forall|j: int| 0 <= j < 1 implies !(#[trigger] param_named(name)(ps[j])) by {
                if j == 0 { lemma_case_same(name, "TREBLE"@, ps[0].name@); }
            }
            lemma_case_same(name, "TREBLE"@, ps[1].name@);
            assert(eq_ignore_ascii_case("TREBLE"@, "TREBLE"@));
            assert(is_first(ps, param_named(name), 1));
            lemma_first_at(ps, param_named(name), 1);
        }
        if eq_ignore_ascii_case(name, "MIDDLE"@) {
            lemma_differ_at("VOLUME"@, "MIDDLE"@, 0);
            lemma_differ_at("TREBLE"@, "MIDDLE"@, 0);
            assert forall|j: int| 0 <= j < 2 implies !(#[trigger] param_named(name)(ps[j])) by {
                if j == 0 { lemma_case_same(name, "MIDDLE"@, ps[0].name@); } else if j == 1 { lemma_case_same(name, "MIDDLE"@, ps[1].name@); }
            }
            lemma_case_same(name, "MIDDLE"@, ps[2].name@);
            assert(eq_ignore_ascii_case("MIDDLE"@, "MIDDLE"@));
            assert(is_first(ps, param_named(name), 2));
            lemma_first_at(ps, param_named(name), 2);
        }
        if eq_ignore_ascii_case(name, "BASS"@) {

            assert forall|j: int| 0 <= j < 3 implies !(#[trigger] param_named(name)(ps[j])) by {
                if j == 0 { lemma_case_same(name, "BASS"@, ps[0].name@); } else if j == 1 { lemma_case_same(name, "BASS"@, ps[1].name@); } else if j == 2 { lemma_case_same(name, "BASS"@, ps[2].name@); }
            }
            lemma_case_same(name, "BASS"@, ps[3].name@);
            assert(eq_ignore_ascii_case("BASS"@, "BASS"@));
            assert(is_first(ps, param_named(name), 3));
            lemma_first_at(ps, param_named(name), 3);
        }
        if eq_ignore_ascii_case(name, "BRIGHT"@) {
            lemma_differ_at("VOLUME"@, "BRIGHT"@, 0);
            lemma_differ_at("TREBLE"@, "BRIGHT"@, 0);
            lemma_differ_at("MIDDLE"@, "BRIGHT"@, 0);
            assert forall|j: int| 0 <= j < 4 implies !(#[trigger] param_named(name)(ps[j])) by {
                if j == 0 { lemma_case_same(name, "BRIGHT"@, ps[0].name@); } else if j == 1 { lemma_case_same(name, "BRIGHT"@, ps[1].name@); } else if j == 2 { lemma_case_same(name, "BRIGHT"@, ps[2].name@); } else if j == 3 { lemma_case_same(name, "BRIGHT"@, ps[3].name@); }
            }
            lemma_case_same(name, "BRIGHT"@, ps[4].name@);
            assert(eq_ignore_ascii_case("BRIGHT"@, "BRIGHT"@));
            assert(is_first(ps, param_named(name), 4));
            lemma_first_at(ps, param_named(name), 4);
        }
        if eq_ignore_ascii_case(name, "VIBRATO SPEED"@) {

            assert forall|j: int| 0 <= j < 5 implies !(#[trigger] param_named(name)(ps[j])) by {
                if j == 0 { lemma_case_same(name, "VIBRATO SPEED"@, ps[0].name@); } else if j == 1 { lemma_case_same(name, "VIBRATO SPEED"@, ps[1].name@); } else if j == 2 { lemma_case_same(name, "VIBRATO SPEED"@, ps[2].name@); } else if j == 3 { lemma_case_same(name, "VIBRATO SPEED"@, ps[3].name@); } else if j == 4 { lemma_case_same(name, "VIBRATO SPEED"@, ps[4].name@); }
            }
            lemma_case_same(name, "VIBRATO SPEED"@, ps[5].name@);
            assert(eq_ignore_ascii_case("VIBRATO SPEED"@, "VIBRATO SPEED"@));
            assert(is_first(ps, param_named(name), 5));
            lemma_first_at(ps, param_named(name), 5);
        }
        if eq_ignore_ascii_case(name, "VIBRATO SYNC"@) {

            assert forall|j: int| 0 <= j < 6 implies !(#[trigger] param_named(name)(ps[j])) by {
                if j == 0 { lemma_case_same(name, "VIBRATO SYNC"@, ps[0].name@); } else if j == 1 { lemma_case_same(name, "VIBRATO SYNC"@, ps[1].name@); } else if j == 2 { lemma_case_same(name, "VIBRATO SYNC"@, ps[2].name@); } else if j == 3 { lemma_case_same(name, "VIBRATO SYNC"@, ps[3].name@); } else if j == 4 { lemma_case_same(name, "VIBRATO SYNC"@, ps[4].name@); } else if j == 5 { lemma_case_same(name, "VIBRATO SYNC"@, ps[5].name@); }
            }
            lemma_case_same(name, "VIBRATO SYNC"@, ps[6].name@);
            assert(eq_ignore_ascii_case("VIBRATO SYNC"@, "VIBRATO SYNC"@));
            assert(is_first(ps, param_named(name), 6));
            lemma_first_at(ps, param_named(name), 6);
        }
        if eq_ignore_ascii_case(name, "VIBRATO DEPTH"@) {
            lemma_differ_at("VIBRATO SPEED"@, "VIBRATO DEPTH"@, 8);
            assert forall|j: int| 0 <= j < 7 implies !(#[trigger] param_named(name)(ps[j])) by {
                if j == 0 { lemma_case_same(name, "VIBRATO DEPTH"@, ps[0].name@); } else if j == 1 { lemma_case_same(name, "VIBRATO DEPTH"@, ps[1].name@); } else if j == 2 { lemma_case_same(name, "VIBRATO DEPTH"@, ps[2].name@); } else if j == 3 { lemma_case_same(name, "VIBRATO DEPTH"@, ps[3].name@); } else if j == 4 { lemma_case_same(name, "VIBRATO DEPTH"@, ps[4].name@); } else if j == 5 { lemma_case_same(name, "VIBRATO DEPTH"@, ps[5].name@); } else if j == 6 { lemma_case_same(name, "VIBRATO DEPTH"@, ps[6].name@); }
            }
            lemma_case_same(name, "VIBRATO DEPTH"@, ps[7].name@);
            assert(eq_ignore_ascii_case("VIBRATO DEPTH"@, "VIBRATO DEPTH"@));
            assert(is_first(ps, param_named(name), 7));
            lemma_first_at(ps, param_named(name), 7);
        }
        if eq_ignore_ascii_case(name, "VIBRATO ON/OFF"@) {

            assert forall|j: int| 0 <= j < 8 implies !(#[trigger] param_named(name)(ps[j])) by {
                if j == 0 { lemma_case_same(name, "VIBRATO ON/OFF"@, ps[0].name@); } else if j == 1 { lemma_case_same(name, "VIBRATO ON/OFF"@, ps[1].name@); } else if j == 2 { lemma_case_same(name, "VIBRATO ON/OFF"@, ps[2].name@); } else if j == 3 { lemma_case_same(name, "VIBRATO ON/OFF"@, ps[3].name@); } else if j == 4 { lemma_case_same(name, "VIBRATO ON/OFF"@, ps[4].name@); } else if j == 5 { lemma_case_same(name, "VIBRATO ON/OFF"@, ps[5].name@); } else if j == 6 { lemma_case_same(name, "VIBRATO ON/OFF"@, ps[6].name@); } else if j == 7 { lemma_case_same(name, "VIBRATO ON/OFF"@, ps[7].name@); }
            }
            lemma_case_same(name, "VIBRATO ON/OFF"@, ps[8].name@);
            assert(eq_ignore_ascii_case("VIBRATO ON/OFF"@, "VIBRATO ON/OFF"@));
            assert(is_first(ps, param_named(name), 8));
            lemma_first_at(ps, param_named(name), 8);
        }
        if eq_ignore_ascii_case(name, "NOISE GATE THRESHOLD"@) {

            assert forall|j: int| 0 <= j < 9 implies !(#[trigger] param_named(name)(ps[j])) by {
                if j == 0 { lemma_case_same(name, "NOISE GATE THRESHOLD"@, ps[0].name@); } else if j == 1 { lemma_case_same(name, "NOISE GATE THRESHOLD"@, ps[1].name@); } else if j == 2 { lemma_case_same(name, "NOISE GATE THRESHOLD"@, ps[2].name@); } else if j == 3 { lemma_case_same(name, "NOISE GATE THRESHOLD"@, ps[3].name@); } else if j == 4 { lemma_case_same(name, "NOISE GATE THRESHOLD"@, ps[4].name@); } else if j == 5 { lemma_case_same(name, "NOISE GATE THRESHOLD"@, ps[5].name@); } else if j == 6 { lemma_case_same(name, "NOISE GATE THRESHOLD"@, ps[6].name@); } else if j == 7 { lemma_case_same(name, "NOISE GATE THRESHOLD"@, ps[7].name@); } else if j == 8 { lemma_case_same(name, "NOISE GATE THRESHOLD"@, ps[8].name@); }
            }
            lemma_case_same(name, "NOISE GATE THRESHOLD"@, ps[9].name@);
            assert(eq_ignore_ascii_case("NOISE GATE THRESHOLD"@, "NOISE GATE THRESHOLD"@));
            assert(is_first(ps, param_named(name), 9));
            lemma_first_at(ps, param_named(name), 9);
        }
        if eq_ignore_ascii_case(name, "NOISE GATE RELEASE"@) {

            assert forall|j: int| 0 <= j < 10 implies !(#[trigger] param_named(name)(ps[j])) by {
                if j == 0 { lemma_case_same(name, "NOISE GATE RELEASE"@, ps[0].name@); } else if j == 1 { lemma_case_same(name, "NOISE GATE RELEASE"@, ps[1].name@); } else if j == 2 { lemma_case_same(name, "NOISE GATE RELEASE"@, ps[2].name@); } else if j == 3 { lemma_case_same(name, "NOISE GATE RELEASE"@, ps[3].name@); } else if j == 4 { lemma_case_same(name, "NOISE GATE RELEASE"@, ps[4].name@); } else if j == 5 { lemma_case_same(name, "NOISE GATE RELEASE"@, ps[5].name@); } else if j == 6 { lemma_case_same(name, "NOISE GATE RELEASE"@, ps[6].name@); } else if j == 7 { lemma_case_same(name, "NOISE GATE RELEASE"@, ps[7].name@); } else if j == 8 { lemma_case_same(name, "NOISE GATE RELEASE"@, ps[8].name@); } else if j == 9 { lemma_case_same(name, "NOISE GATE RELEASE"@, ps[9].name@); }
            }
            lemma_case_same(name, "NOISE GATE RELEASE"@, ps[10].name@);
            assert(eq_ignore_ascii_case("NOISE GATE RELEASE"@, "NOISE GATE RELEASE"@));
            assert(is_first(ps, param_named(name), 10));
            lemma_first_at(ps, param_named(name), 10);
        }
}

/// The User Guide CC chart for the Black Vib: with the amp named in any ASCII
/// case, each of its controls, named in any ASCII case, resolves to its chart
/// CC and value kind.
#[verifier::rlimit(40)]
pub proof fn lemma_chart_black_vib(name: Seq<char>, amp: Seq<char>)
    requires
        eq_ignore_ascii_case(amp, "Black Vib"@),
    ensures
        eq_ignore_ascii_case(name, "VOLUME"@) ==> resolve_cc_spec(name, Some(amp), None) == Some((13u8, Kind::Knob)),
        eq_ignore_ascii_case(name, "TREBLE"@) ==> resolve_cc_spec(name, Some(amp), None) == Some((14u8, Kind::Knob)),
        eq_ignore_ascii_case(name, "MIDDLE"@) ==> resolve_cc_spec(name, Some(amp), None) == Some((15u8, Kind::Knob)),
        eq_ignore_ascii_case(name, "BASS"@) ==> resolve_cc_spec(name, Some(amp), None) == Some((16u8, Kind::Knob)),
        eq_ignore_ascii_case(name, "BRIGHT"@) ==> resolve_cc_spec(name, Some(amp), None) == Some((21u8, Kind::Switch { off: "Off", on: "On" })),
        eq_ignore_ascii_case(name, "VIBRATO SPEED"@) ==> resolve_cc_spec(name, Some(amp), None) == Some((10u8, Kind::Knob)),
        eq_ignore_ascii_case(name, "VIBRATO SYNC"@) ==> resolve_cc_spec(name, Some(amp), None) == Some((112u8, Kind::Knob)),
        eq_ignore_ascii_case(name, "VIBRATO DEPTH"@) ==> resolve_cc_spec(name, Some(amp), None) == Some((3u8, Kind::Knob)),
        eq_ignore_ascii_case(name, "VIBRATO ON/OFF"@) ==> resolve_cc_spec(name, Some(amp), None) == Some((22u8, Kind::Switch { off: "Off", on: "On" })),
        eq_ignore_ascii_case(name, "NOISE GATE THRESHOLD"@) ==> resolve_cc_spec(name, Some(amp), None) == Some((84u8, Kind::Knob)),
        eq_ignore_ascii_case(name, "NOISE GATE RELEASE"@) ==> resolve_cc_spec(name, Some(amp), None) == Some((24u8, Kind::Knob)),
{
    reveal_strlit("AC Hi Boost");
    reveal_strlit("BASS");
    reveal_strlit("BRIGHT");
    reveal_strlit("Black Panel Duo");
    reveal_strlit("Black Panel Lux Normal");
    reveal_strlit("Black Panel Lux Vibrato");
    reveal_strlit("Black SR");
    reveal_strlit("Black Vib");
    reveal_strlit("DC Modern Crunch");
    reveal_strlit("DC Vintage Overdrive");
    reveal_strlit("J45");
    reveal_strlit("Lead 800 - 100W");
    reveal_strlit("M-2 Lead");
    reveal_strlit("MIDDLE");
    reveal_strlit("NOISE GATE RELEASE");
    reveal_strlit("NOISE GATE THRESHOLD");
    reveal_strlit("Plexiglas - 100W");
    reveal_strlit("SL-100 Clean");
    reveal_strlit("SL-100 Crunch");
    reveal_strlit("SL-100 Drive");
    reveal_strlit("TREBLE");
    reveal_strlit("Treadplate Modern");
    reveal_strlit("Treadplate Vintage");
    reveal_strlit("Tweed Bass");
    reveal_strlit("Tweed Lux");
    reveal_strlit("VIBRATO DEPTH");
    reveal_strlit("VIBRATO ON/OFF");
    reveal_strlit("VIBRATO SPEED");
    reveal_strlit("VIBRATO SYNC");
    reveal_strlit("VOLUME");
    let t = amp_table();
    assert(t[0].name@ == "Tweed Lux"@);
    assert(t[1].name@ == "Tweed Bass"@);
    assert(t[2].name@ == "Black Panel Lux Vibrato"@);
    assert(t[3].name@ == "Black Panel Lux Normal"@);
    assert(t[4].name@ == "AC Hi Boost"@);
    assert(t[5].name@ == "Black Panel Duo"@);
    assert(t[6].name@ == "Plexiglas - 100W"@);
    assert(t[7].name@ == "Lead 800 - 100W"@);
    assert(t[8].name@ == "M-2 Lead"@);
    assert(t[9].name@ == "SL-100 Drive"@);
    assert(t[10].name@ == "SL-100 Crunch"@);
    assert(t[11].name@ == "SL-100 Clean"@);
    assert(t[12].name@ == "Treadplate Modern"@);
    assert(t[13].name@ == "Treadplate Vintage"@);
    assert(t[14].name@ == "DC Modern Crunch"@);
    assert(t[15].name@ == "DC Vintage Overdrive"@);
    assert(t[16].name@ == "J45"@);
    assert(t[17].name@ == "Black SR"@);
    assert(t[18].name@ == "Black Vib"@);
    lemma_differ_at("Tweed Lux"@, "Black Vib"@, 0);
    assert forall|j: int| 0 <= j < 18 implies !(#[trigger] amp_named(amp)(t[j])) by {
        if j == 0 { lemma_case_same(amp, "Black Vib"@, t[0].name@); } else if j == 1 { lemma_case_same(amp, "Black Vib"@, t[1].name@); } else if j == 2 { lemma_case_same(amp, "Black Vib"@, t[2].name@); } else if j == 3 { lemma_case_same(amp, "Black Vib"@, t[3].name@); } else if j == 4 { lemma_case_same(amp, "Black Vib"@, t[4].name@); } else if j == 5 { lemma_case_same(amp, "Black Vib"@, t[5].name@); } else if j == 6 { lemma_case_same(amp, "Black Vib"@, t[6].name@); } else if j == 7 { lemma_case_same(amp, "Black Vib"@, t[7].name@); } else if j == 8 { lemma_case_same(amp, "Black Vib"@, t[8].name@); } else if j == 9 { lemma_case_same(amp, "Black Vib"@, t[9].name@); } else if j == 10 { lemma_case_same(amp, "Black Vib"@, t[10].name@); } else if j == 11 { lemma_case_same(amp, "Black Vib"@, t[11].name@); } else if j == 12 { lemma_case_same(amp, "Black Vib"@, t[12].name@); } else if j == 13 { lemma_case_same(amp, "Black Vib"@, t[13].name@); } else if j == 14 { lemma_case_same(amp, "Black Vib"@, t[14].name@); } else if j == 15 { lemma_case_same(amp, "Black Vib"@, t[15].name@); } else if j == 16 { lemma_case_same(amp, "Black Vib"@, t[16].name@); } else if j == 17 { lemma_case_same(amp, "Black Vib"@, t[17].name@); }
    }
    lemma_case_same(amp, "Black Vib"@, t[18].name@);
    assert(eq_ignore_ascii_case("Black Vib"@, "Black Vib"@));
    assert(is_first(t, amp_named(amp), 18));
    lemma_first_at(t, amp_named(amp), 18);
    let ps = t[18].params;
    assert(ps[0].name@ == "VOLUME"@);
    assert(ps[1].name@ == "TREBLE"@);
    assert(ps[2].name@ == "MIDDLE"@);
    assert(ps[3].name@ == "BASS"@);
    assert(ps[4].name@ == "BRIGHT"@);
    assert(ps[5].name@ == "VIBRATO SPEED"@);
    assert(ps[6].name@ == "VIBRATO SYNC"@);
    assert(ps[7].name@ == "VIBRATO DEPTH"@);
    assert(ps[8].name@ == "VIBRATO ON/OFF"@);
    assert(ps[9].name@ == "NOISE GATE THRESHOLD"@);
    assert(ps[10].name@ == "NOISE GATE RELEASE"@);
        if eq_ignore_ascii_case(name, "VOLUME"@) {

            assert forall|j: int| 0 <= j < 0 implies !(#[trigger] param_named(name)(ps[j])) by {
                
            }
            lemma_case_same(name, "VOLUME"@, ps[0].name@);
            assert(eq_ignore_ascii_case("VOLUME"@, "VOLUME"@));
            assert(is_first(ps, param_named(name), 0));
            lemma_first_at(ps, param_named(name), 0);
        }
        if eq_ignore_ascii_case(name, "TREBLE"@) {
            lemma_differ_at("VOLUME"@, "TREBLE"@, 0);
            assert forall|j: int| 0 <= j < 1 implies !(#[trigger] param_named(name)(ps[j])) by {
                if j == 0 { lemma_case_same(name, "TREBLE"@, ps[0].name@); }
            }
            lemma_case_same(name, "TREBLE"@, ps[1].name@);
            assert(eq_ignore_ascii_case("TREBLE"@, "TREBLE"@));
            assert(is_first(ps, param_named(name), 1));
            lemma_first_at(ps, param_named(name), 1);
        }
        if eq_ignore_ascii_case(name, "MIDDLE"@) {
            lemma_differ_at("VOLUME"@, "MIDDLE"@, 0);
            lemma_differ_at("TREBLE"@, "MIDDLE"@, 0);
            assert forall|j: int| 0 <= j < 2 implies !(#[trigger] param_named(name)(ps[j])) by {
                if j == 0 { lemma_case_same(name, "MIDDLE"@, ps[0].name@); } else if j == 1 { lemma_case_same(name, "MIDDLE"@, ps[1].name@); }
            }
            lemma_case_same(name, "MIDDLE"@, ps[2].name@);
            assert(eq_ignore_ascii_case("MIDDLE"@, "MIDDLE"@));
            assert(is_first(ps, param_named(name), 2));
            lemma_first_at(ps, param_named(name), 2);
        }
        if eq_ignore_ascii_case(name, "BASS"@) {

            assert forall|j: int| 0 <= j < 3 implies !(#[trigger] param_named(name)(ps[j])) by {
                if j == 0 { lemma_case_same(name, "BASS"@, ps[0].name@); } else if j == 1 { lemma_case_same(name, "BASS"@, ps[1].name@); } else if j == 2 { lemma_case_same(name, "BASS"@, ps[2].name@); }
            }
            lemma_case_same(name, "BASS"@, ps[3].name@);
            assert(eq_ignore_ascii_case("BASS"@, "BASS"@));
            assert(is_first(ps, param_named(name), 3));
            lemma_first_at(ps, param_named(name), 3);
        }
        if eq_ignore_ascii_case(name, "BRIGHT"@) {
            lemma_differ_at("VOLUME"@, "BRIGHT"@, 0);
            lemma_differ_at("TREBLE"@, "BRIGHT"@, 0);
            lemma_differ_at("MIDDLE"@, "BRIGHT"@, 0);
            assert forall|j: int| 0 <= j < 4 implies !(#[trigger] param_named(name)(ps[j])) by {
                if j == 0 { lemma_case_same(name, "BRIGHT"@, ps[0].name@); } else if j == 1 { lemma_case_same(name, "BRIGHT"@, ps[1].name@); } else if j == 2 { lemma_case_same(name, "BRIGHT"@, ps[2].name@); } else if j == 3 { lemma_case_same(name, "BRIGHT"@, ps[3].name@); }
            }
            lemma_case_same(name, "BRIGHT"@, ps[4].name@);
            assert(eq_ignore_ascii_case("BRIGHT"@, "BRIGHT"@));
            assert(is_first(ps, param_named(name), 4));
            lemma_first_at(ps, param_named(name), 4);
        }
        if eq_ignore_ascii_case(name, "VIBRATO SPEED"@) {

            assert forall|j: int| 0 <= j < 5 implies !(#[trigger] param_named(name)(ps[j])) by {
                if j == 0 { lemma_case_same(name, "VIBRATO SPEED"@, ps[0].name@); } else if j == 1 { lemma_case_same(name, "VIBRATO SPEED"@, ps[1].name@); } else if j == 2 { lemma_case_same(name, "VIBRATO SPEED"@, ps[2].name@); } else if j == 3 { lemma_case_same(name, "VIBRATO SPEED"@, ps[3].name@); } else if j == 4 { lemma_case_same(name, "VIBRATO SPEED"@, ps[4].name@); }
            }
            lemma_case_same(name, "VIBRATO SPEED"@, ps[5].name@);
            assert(eq_ignore_ascii_case("VIBRATO SPEED"@, "VIBRATO SPEED"@));
            assert(is_first(ps, param_named(name), 5));
            lemma_first_at(ps, param_named(name), 5);
        }
        if eq_ignore_ascii_case(name, "VIBRATO SYNC"@) {

            assert forall|j: int| 0 <= j < 6 implies !(#[trigger] param_named(name)(ps[j])) by {
                if j == 0 { lemma_case_same(name, "VIBRATO SYNC"@, ps[0].name@); } else if j == 1 { lemma_case_same(name, "VIBRATO SYNC"@, ps[1].name@); } else if j == 2 { lemma_case_same(name, "VIBRATO SYNC"@, ps[2].name@); } else if j == 3 { lemma_case_same(name, "VIBRATO SYNC"@, ps[3].name@); } else if j == 4 { lemma_case_same(name, "VIBRATO SYNC"@, ps[4].name@); } else if j == 5 { lemma_case_same(name, "VIBRATO SYNC"@, ps[5].name@); }
            }
            lemma_case_same(name, "VIBRATO SYNC"@, ps[6].name@);
            assert(eq_ignore_ascii_case("VIBRATO SYNC"@, "VIBRATO SYNC"@));
            assert(is_first(ps, param_named(name), 6));
            lemma_first_at(ps, param_named(name), 6);
        }
        if eq_ignore_ascii_case(name, "VIBRATO DEPTH"@) {
            lemma_differ_at("VIBRATO SPEED"@, "VIBRATO DEPTH"@, 8);
            assert forall|j: int| 0 <= j < 7 implies !(#[trigger] param_named(name)(ps[j])) by {
                if j == 0 { lemma_case_same(name, "VIBRATO DEPTH"@, ps[0].name@); } else if j == 1 { lemma_case_same(name, "VIBRATO DEPTH"@, ps[1].name@); } else if j == 2 { lemma_case_same(name, "VIBRATO DEPTH"@, ps[2].name@); } else if j == 3 { lemma_case_same(name, "VIBRATO DEPTH"@, ps[3].name@); } else if j == 4 { lemma_case_same(name, "VIBRATO DEPTH"@, ps[4].name@); } else if j == 5 { lemma_case_same(name, "VIBRATO DEPTH"@, ps[5].name@); } else if j == 6 { lemma_case_same(name, "VIBRATO DEPTH"@, ps[6].name@); }
            }
            lemma_case_same(name, "VIBRATO DEPTH"@, ps[7].name@);
            assert(eq_ignore_ascii_case("VIBRATO DEPTH"@, "VIBRATO DEPTH"@));
            assert(is_first(ps, param_named(name), 7));
            lemma_first_at(ps, param_named(name), 7);
        }
        if eq_ignore_ascii_case(name, "VIBRATO ON/OFF"@) {

            assert forall|j: int| 0 <= j < 8 implies !(#[trigger] param_named(name)(ps[j])) by {
                if j == 0 { lemma_case_same(name, "VIBRATO ON/OFF"@, ps[0].name@); } else if j == 1 { lemma_case_same(name, "VIBRATO ON/OFF"@, ps[1].name@); } else if j == 2 { lemma_case_same(name, "VIBRATO ON/OFF"@, ps[2].name@); } else if j == 3 { lemma_case_same(name, "VIBRATO ON/OFF"@, ps[3].name@); } else if j == 4 { lemma_case_same(name, "VIBRATO ON/OFF"@, ps[4].name@); } else if j == 5 { lemma_case_same(name, "VIBRATO ON/OFF"@, ps[5].name@); } else if j == 6 { lemma_case_same(name, "VIBRATO ON/OFF"@, ps[6].name@); } else if j == 7 { lemma_case_same(name, "VIBRATO ON/OFF"@, ps[7].name@); }
            }
            lemma_case_same(name, "VIBRATO ON/OFF"@, ps[8].name@);
            assert(eq_ignore_ascii_case("VIBRATO ON/OFF"@, "VIBRATO ON/OFF"@));
            assert(is_first(ps, param_named(name), 8));
            lemma_first_at(ps, param_named(name), 8);
        }
        if eq_ignore_ascii_case(name, "NOISE GATE THRESHOLD"@) {

            assert forall|j: int| 0 <= j < 9 implies !(#[trigger] param_named(name)(ps[j])) by {
                if j == 0 { lemma_case_same(name, "NOISE GATE THRESHOLD"@, ps[0].name@); } else if j == 1 { lemma_case_same(name, "NOISE GATE THRESHOLD"@, ps[1].name@); } else if j == 2 { lemma_case_same(name, "NOISE GATE THRESHOLD"@, ps[2].name@); } else if j == 3 { lemma_case_same(name, "NOISE GATE THRESHOLD"@, ps[3].name@); } else if j == 4 { lemma_case_same(name, "NOISE GATE THRESHOLD"@, ps[4].name@); } else if j == 5 { lemma_case_same(name, "NOISE GATE THRESHOLD"@, ps[5].name@); } else if j == 6 { lemma_case_same(name, "NOISE GATE THRESHOLD"@, ps[6].name@); } else if j == 7 { lemma_case_same(name, "NOISE GATE THRESHOLD"@, ps[7].name@); } else if j == 8 { lemma_case_same(name, "NOISE GATE THRESHOLD"@, ps[8].name@); }
            }
            lemma_case_same(name, "NOISE GATE THRESHOLD"@, ps[9].name@);
            assert(eq_ignore_ascii_case("NOISE GATE THRESHOLD"@, "NOISE GATE THRESHOLD"@));
            assert(is_first(ps, param_named(name), 9));
            lemma_first_at(ps, param_named(name), 9);
        }
        if eq_ignore_ascii_case(name, "NOISE GATE RELEASE"@) {

            assert forall|j: int| 0 <= j < 10 implies !(#[trigger] param_named(name)(ps[j])) by {
                if j == 0 { lemma_case_same(name, "NOISE GATE RELEASE"@, ps[0].name@); } else if j == 1 { lemma_case_same(name, "NOISE GATE RELEASE"@, ps[1].name@); } else if j == 2 { lemma_case_same(name, "NOISE GATE RELEASE"@, ps[2].name@); } else if j == 3 { lemma_case_same(name, "NOISE GATE RELEASE"@, ps[3].name@); } else if j == 4 { lemma_case_same(name, "NOISE GATE RELEASE"@, ps[4].name@); } else if j == 5 { lemma_case_same(name, "NOISE GATE RELEASE"@, ps[5].name@); } else if j == 6 { lemma_case_same(name, "NOISE GATE RELEASE"@, ps[6].name@); } else if j == 7 { lemma_case_same(name, "NOISE GATE RELEASE"@, ps[7].name@); } else if j == 8 { lemma_case_same(name, "NOISE GATE RELEASE"@, ps[8].name@); } else if j == 9 { lemma_case_same(name, "NOISE GATE RELEASE"@, ps[9].name@); }
            }
            lemma_case_same(name, "NOISE GATE RELEASE"@, ps[10].name@);
            assert(eq_ignore_ascii_case("NOISE GATE RELEASE"@, "NOISE GATE RELEASE"@));
            assert(is_first(ps, param_named(name), 10));
            lemma_first_at(ps, param_named(name), 10);
        }
}

/// The User Guide CC chart for the Blue Line Bass: with the amp named in any ASCII
/// case, each of its controls, named in any ASCII case, resolves to its chart
/// CC and value kind.
#[verifier::rlimit(40)]
pub proof fn lemma_chart_blue_line_bass(name: Seq<char>, amp: Seq<char>)
    requires
        eq_ignore_ascii_case(amp, "Blue Line Bass"@),
    ensures
        eq_ignore_ascii_case(name, "VOLUME"@) ==> resolve_cc_spec(name, Some(amp), None) == Some((13u8, Kind::Knob)),
        eq_ignore_ascii_case(name, "TREBLE"@) ==> resolve_cc_spec(name, Some(amp), None) == Some((14u8, Kind::Knob)),
        eq_ignore_ascii_case(name, "MIDDLE"@) ==> resolve_cc_spec(name, Some(amp), None) == Some((15u8, Kind::Knob)),
        eq_ignore_ascii_case(name, "BASS"@) ==> resolve_cc_spec(name, Some(amp), None) == Some((16u8, Kind::Knob)),
        eq_ignore_ascii_case(name, "ULTRA HI"@) ==> resolve_cc_spec(name, Some(amp), None) == Some((21u8, Kind::Knob)),
        eq_ignore_ascii_case(name, "ULTRA LO"@) ==> resolve_cc_spec(name, Some(amp), None) == Some((10u8, Kind::Knob)),
        eq_ignore_ascii_case(name, "BRIGHT"@) ==> resolve_cc_spec(name, Some(amp), None) == Some((112u8, Kind::Switch { off: "Off", on: "On" })),
        eq_ignore_ascii_case(name, "MID FREQ"@) ==> resolve_cc_spec(name, Some(amp), None) == Some((3u8, Kind::Knob)),
        eq_ignore_ascii_case(name, "NOISE GATE THRESHOLD"@) ==> resolve_cc_spec(name, Some(amp), None) == Some((84u8, Kind::Knob)),
        eq_ignore_ascii_case(name, "NOISE GATE RELEASE"@) ==> resolve_cc_spec(name, Some(amp), None) == Some((24u8, Kind::Knob)),
{
    reveal_strlit("AC Hi Boost");
    reveal_strlit("BASS");
    reveal_strlit("BRIGHT");
    reveal_strlit("Black Panel Duo");
    reveal_strlit("Black Panel Lux Normal");
    reveal_strlit("Black Panel Lux Vibrato");
    reveal_strlit("Black SR");
    reveal_strlit("Black Vib");
    reveal_strlit("Blue Line Bass");
    reveal_strlit("DC Modern Crunch");
    reveal_strlit("DC Vintage Overdrive");
    reveal_strlit("J45");
    reveal_strlit("Lead 800 - 100W");
    reveal_strlit("M-2 Lead");
    reveal_strlit("MID FREQ");
    reveal_strlit("MIDDLE");
    reveal_strlit("NOISE GATE RELEASE");
    reveal_strlit("NOISE GATE THRESHOLD");
    reveal_strlit("Plexiglas - 100W");
    reveal_strlit("SL-100 Clean");
    reveal_strlit("SL-100 Crunch");
    reveal_strlit("SL-100 Drive");
    reveal_strlit("TREBLE");
    reveal_strlit("Treadplate Modern");
    reveal_strlit("Treadplate Vintage");
    reveal_strlit("Tweed Bass");
    reveal_strlit("Tweed Lux");
    reveal_strlit("ULTRA HI");
    reveal_strlit("ULTRA LO");
    reveal_strlit("VOLUME");
    let t = amp_table();
    assert(t[0].name@ == "Tweed Lux"@);
    assert(t[1].name@ == "Tweed Bass"@);
    assert(t[2].name@ == "Black Panel Lux Vibrato"@);
    assert(t[3].name@ == "Black Panel Lux Normal"@);
    assert(t[4].name@ == "AC Hi Boost"@);
    assert(t[5].name@ == "Black Panel Duo"@);
    assert(t[6].name@ == "Plexiglas - 100W"@);
    assert(t[7].name@ == "Lead 800 - 100W"@);
    assert(t[8].name@ == "M-2 Lead"@);
    assert(t[9].name@ == "SL-100 Drive"@);
    assert(t[10].name@ == "SL-100 Crunch"@);
    assert(t[11].name@ == "SL-100 Clean"@);
    assert(t[12].name@ == "Treadplate Modern"@);
    assert(t[13].name@ == "Treadplate Vintage"@);
    assert(t[14].name@ == "DC Modern Crunch"@);
    assert(t[15].name@ == "DC Vintage Overdrive"@);
    assert(t[16].name@ == "J45"@);
    assert(t[17].name@ == "Black SR"@);
    assert(t[18].name@ == "Black Vib"@);
    assert(t[19].name@ == "Blue Line Bass"@);

    assert forall|j: int| 0 <= j < 19 implies !(#[trigger] amp_named(amp)(t[j])) by {
        if j == 0 { lemma_case_same(amp, "Blue Line Bass"@, t[0].name@); } else if j == 1 { lemma_case_same(amp, "Blue Line Bass"@, t[1].name@); } else if j == 2 { lemma_case_same(amp, "Blue Line Bass"@, t[2].name@); } else if j == 3 { lemma_case_same(amp, "Blue Line Bass"@, t[3].name@); } else if j == 4 { lemma_case_same(amp, "Blue Line Bass"@, t[4].name@); } else if j == 5 { lemma_case_same(amp, "Blue Line Bass"@, t[5].name@); } else if j == 6 { lemma_case_same(amp, "Blue Line Bass"@, t[6].name@); } else if j == 7 { lemma_case_same(amp, "Blue Line Bass"@, t[7].name@); } else if j == 8 { lemma_case_same(amp, "Blue Line Bass"@, t[8].name@); } else if j == 9 { lemma_case_same(amp, "Blue Line Bass"@, t[9].name@); } else if j == 10 { lemma_case_same(amp, "Blue Line Bass"@, t[10].name@); } else if j == 11 { lemma_case_same(amp, "Blue Line Bass"@, t[11].name@); } else if j == 12 { lemma_case_same(amp, "Blue Line Bass"@, t[12].name@); } else if j == 13 { lemma_case_same(amp, "Blue Line Bass"@, t[13].name@); } else if j == 14 { lemma_case_same(amp, "Blue Line Bass"@, t[14].name@); } else if j == 15 { lemma_case_same(amp, "Blue Line Bass"@, t[15].name@); } else if j == 16 { lemma_case_same(amp, "Blue Line Bass"@, t[16].name@); } else if j == 17 { lemma_case_same(amp, "Blue Line Bass"@, t[17].name@); } else if j == 18 { lemma_case_same(amp, "Blue Line Bass"@, t[18].name@); }
    }
    lemma_case_same(amp, "Blue Line Bass"@, t[19].name@);
    assert(eq_ignore_ascii_case("Blue Line Bass"@, "Blue Line Bass"@));
    assert(is_first(t, amp_named(amp), 19));
    lemma_first_at(t, amp_named(amp), 19);
    let ps = t[19].params;
    assert(ps[0].name@ == "VOLUME"@);
    assert(ps[1].name@ == "TREBLE"@);
    assert(ps[2].name@ == "MIDDLE"@);
    assert(ps[3].name@ == "BASS"@);
    assert(ps[4].name@ == "ULTRA HI"@);
    assert(ps[5].name@ == "ULTRA LO"@);
    assert(ps[6].name@ == "BRIGHT"@);
    assert(ps[7].name@ == "MID FREQ"@);
    assert(ps[8].name@ == "NOISE GATE THRESHOLD"@);
    assert(ps[9].name@ == "NOISE GATE RELEASE"@);
        if eq_ignore_ascii_case(name, "VOLUME"@) {

            assert forall|j: int| 0 <= j < 0 implies !(#[trigger] param_named(name)(ps[j])) by {
                
            }
            lemma_case_same(name, "VOLUME"@, ps[0].name@);
            assert(eq_ignore_ascii_case("VOLUME"@, "VOLUME"@));
            assert(is_first(ps, param_named(name), 0));
            lemma_first_at(ps, param_named(name), 0);
        }
        if eq_ignore_ascii_case(name, "TREBLE"@) {
            lemma_differ_at("VOLUME"@, "TREBLE"@, 0);
            assert forall|j: int| 0 <= j < 1 implies !(#[trigger] param_named(name)(ps[j])) by {
                if j == 0 { lemma_case_same(name, "TREBLE"@, ps[0].name@); }
            }
            lemma_case_same(name, "TREBLE"@, ps[1].name@);
            assert(eq_ignore_ascii_case("TREBLE"@, "TREBLE"@));
            assert(is_first(ps, param_named(name), 1));
            lemma_first_at(ps, param_named(name), 1);
        }
        if eq_ignore_ascii_case(name, "MIDDLE"@) {
            lemma_differ_at("VOLUME"@, "MIDDLE"@, 0);
            lemma_differ_at("TREBLE"@, "MIDDLE"@, 0);
            assert forall|j: int| 0 <= j < 2 implies !(#[trigger] param_named(name)(ps[j])) by {
                if j == 0 { lemma_case_same(name, "MIDDLE"@, ps[0].name@); } else if j == 1 { lemma_case_same(name, "MIDDLE"@, ps[1].name@); }
            }
            lemma_case_same(name, "MIDDLE"@, ps[2].name@);
            assert(eq_ignore_ascii_case("MIDDLE"@, "MIDDLE"@));
            assert(is_first(ps, param_named(name), 2));
            lemma_first_at(ps, param_named(name), 2);
        }
        if eq_ignore_ascii_case(name, "BASS"@) {

            assert forall|j: int| 0 <= j < 3 implies !(#[trigger] param_named(name)(ps[j])) by {
                if j == 0 { lemma_case_same(name, "BASS"@, ps[0].name@); } else if j == 1 { lemma_case_same(name, "BASS"@, ps[1].name@); } else if j == 2 { lemma_case_same(name, "BASS"@, ps[2].name@); }
            }
            lemma_case_same(name, "BASS"@, ps[3].name@);
            assert(eq_ignore_ascii_case("BASS"@, "BASS"@));
            assert(is_first(ps, param_named(name), 3));
            lemma_first_at(ps, param_named(name), 3);
        }
        if eq_ignore_ascii_case(name, "ULTRA HI"@) {

            assert forall|j: int| 0 <= j < 4 implies !(#[trigger] param_named(name)(ps[j])) by {
                if j == 0 { lemma_case_same(name, "ULTRA HI"@, ps[0].name@); } else if j == 1 { lemma_case_same(name, "ULTRA HI"@, ps[1].name@); } else if j == 2 { lemma_case_same(name, "ULTRA HI"@, ps[2].name@); } else if j == 3 { lemma_case_same(name, "ULTRA HI"@, ps[3].name@); }
            }
            lemma_case_same(name, "ULTRA HI"@, ps[4].name@);
            assert(eq_ignore_ascii_case("ULTRA HI"@, "ULTRA HI"@));
            assert(is_first(ps, param_named(name), 4));
            lemma_first_at(ps, param_named(name), 4);
        }
        if eq_ignore_ascii_case(name, "ULTRA LO"@) {
            lemma_differ_at("ULTRA HI"@, "ULTRA LO"@, 6);
            assert forall|j: int| 0 <= j < 5 implies !(#[trigger] param_named(name)(ps[j])) by {
                if j == 0 { lemma_case_same(name, "ULTRA LO"@, ps[0].name@); } else if j == 1 { lemma_case_same(name, "ULTRA LO"@, ps[1].name@); } else if j == 2 { lemma_case_same(name, "ULTRA LO"@, ps[2].name@); } else if j == 3 { lemma_case_same(name, "ULTRA LO"@, ps[3].name@); } else if j == 4 { lemma_case_same(name, "ULTRA LO"@, ps[4].name@); }
            }
            lemma_case_same(name, "ULTRA LO"@, ps[5].name@);
            assert(eq_ignore_ascii_case("ULTRA LO"@, "ULTRA LO"@));
            assert(is_first(ps, param_named(name), 5));
            lemma_first_at(ps, param_named(name), 5);
        }
        if eq_ignore_ascii_case(name, "BRIGHT"@) {
            lemma_differ_at("VOLUME"@, "BRIGHT"@, 0);
            lemma_differ_at("TREBLE"@, "BRIGHT"@, 0);
            lemma_differ_at("MIDDLE"@, "BRIGHT"@, 0);
            assert forall|j: int| 0 <= j < 6 implies !(#[trigger] param_named(name)(ps[j])) by {
                if j == 0 { lemma_case_same(name, "BRIGHT"@, ps[0].name@); } else if j == 1 { lemma_case_same(name, "BRIGHT"@, ps[1].name@); } else if j == 2 { lemma_case_same(name, "BRIGHT"@, ps[2].name@); } else if j == 3 { lemma_case_same(name, "BRIGHT"@, ps[3].name@); } else if j == 4 { lemma_case_same(name, "BRIGHT"@, ps[4].name@); } else if j == 5 { lemma_case_same(name, "BRIGHT"@, ps[5].name@); }
            }
            lemma_case_same(name, "BRIGHT"@, ps[6].name@);
            assert(eq_ignore_ascii_case("BRIGHT"@, "BRIGHT"@));
            assert(is_first(ps, param_named(name), 6));
            lemma_first_at(ps, param_named(name), 6);
        }
        if eq_ignore_ascii_case(name, "MID FREQ"@) {
            lemma_differ_at("ULTRA HI"@, "MID FREQ"@, 0);
            lemma_differ_at("ULTRA LO"@, "MID FREQ"@, 0);
            assert forall|j: int| 0 <= j < 7 implies !(#[trigger] param_named(name)(ps[j])) by {
                if j == 0 { lemma_case_same(name, "MID FREQ"@, ps[0].name@); } else if j == 1 { lemma_case_same(name, "MID FREQ"@, ps[1].name@); } else if j == 2 { lemma_case_same(name, "MID FREQ"@, ps[2].name@); } else if j == 3 { lemma_case_same(name, "MID FREQ"@, ps[3].name@); } else if j == 4 { lemma_case_same(name, "MID FREQ"@, ps[4].name@); } else if j == 5 { lemma_case_same(name, "MID FREQ"@, ps[5].name@); } else if j == 6 { lemma_case_same(name, "MID FREQ"@, ps[6].name@); }
            }
            lemma_case_same(name, "MID FREQ"@, ps[7].name@);
            assert(eq_ignore_ascii_case("MID FREQ"@, "MID FREQ"@));
            assert(is_first(ps, param_named(name), 7));
            lemma_first_at(ps, param_named(name), 7);
        }
        if eq_ignore_ascii_case(name, "NOISE GATE THRESHOLD"@) {

            assert forall|j: int| 0 <= j < 8 implies !(#[trigger] param_named(name)(ps[j])) by {
                if j == 0 { lemma_case_same(name, "NOISE GATE THRESHOLD"@, ps[0].name@); } else if j == 1 { lemma_case_same(name, "NOISE GATE THRESHOLD"@, ps[1].name@); } else if j == 2 { lemma_case_same(name, "NOISE GATE THRESHOLD"@, ps[2].name@); } else if j == 3 { lemma_case_same(name, "NOISE GATE THRESHOLD"@, ps[3].name@); } else if j == 4 { lemma_case_same(name, "NOISE GATE THRESHOLD"@, ps[4].name@); } else if j == 5 { lemma_case_same(name, "NOISE GATE THRESHOLD"@, ps[5].name@); } else if j == 6 { lemma_case_same(name, "NOISE GATE THRESHOLD"@, ps[6].name@); } else if j == 7 { lemma_case_same(name, "NOISE GATE THRESHOLD"@, ps[7].name@); }
            }
            lemma_case_same(name, "NOISE GATE THRESHOLD"@, ps[8].name@);
            assert(eq_ignore_ascii_case("NOISE GATE THRESHOLD"@, "NOISE GATE THRESHOLD"@));
            assert(is_first(ps, param_named(name), 8));
            lemma_first_at(ps, param_named(name), 8);
        }
        if eq_ignore_ascii_case(name, "NOISE GATE RELEASE"@) {

            assert forall|j: int| 0 <= j < 9 implies !(#[trigger] param_named(name)(ps[j])) by {
                if j == 0 { lemma_case_same(name, "NOISE GATE RELEASE"@, ps[0].name@); } else if j == 1 { lemma_case_same(name, "NOISE GATE RELEASE"@, ps[1].name@); } else if j == 2 { lemma_case_same(name, "NOISE GATE RELEASE"@, ps[2].name@); } else if j == 3 { lemma_case_same(name, "NOISE GATE RELEASE"@, ps[3].name@); } else if j == 4 { lemma_case_same(name, "NOISE GATE RELEASE"@, ps[4].name@); } else if j == 5 { lemma_case_same(name, "NOISE GATE RELEASE"@, ps[5].name@); } else if j == 6 { lemma_case_same(name, "NOISE GATE RELEASE"@, ps[6].name@); } else if j == 7 { lemma_case_same(name, "NOISE GATE RELEASE"@, ps[7].name@); } else if j == 8 { lemma_case_same(name, "NOISE GATE RELEASE"@, ps[8].name@); }
            }
            lemma_case_same(name, "NOISE GATE RELEASE"@, ps[9].name@);
            assert(eq_ignore_ascii_case("NOISE GATE RELEASE"@, "NOISE GATE RELEASE"@));
            assert(is_first(ps, param_named(name), 9));
            lemma_first_at(ps, param_named(name), 9);
        }
}

/// The User Guide CC chart for the MS-30: with the amp named in any ASCII
/// case, each of its controls, named in any ASCII case, resolves to its chart
/// CC and value kind.
#[verifier::rlimit(40)]
pub proof fn lemma_chart_ms_30(name: Seq<char>, amp: Seq<char>)
    requires
        eq_ignore_ascii_case(amp, "MS-30"@),
    ensures
        eq_ignore_ascii_case(name, "VOLUME"@) ==> resolve_cc_spec(name, Some(amp), None) == Some((13u8, Kind::Knob)),
        eq_ignore_ascii_case(name, "BASS"@) ==> resolve_cc_spec(name, Some(amp), None) == Some((14u8, Kind::Knob)),
        eq_ignore_ascii_case(name, "TREBLE"@) ==> resolve_cc_spec(name, Some(amp), None) == Some((15u8, Kind::Knob)),
        eq_ignore_ascii_case(name, "CUT"@) ==> resolve_cc_spec(name, Some(amp), None) == Some((16u8, Kind::Knob)),
        eq_ignore_ascii_case(name, "MASTER"@) ==> resolve_cc_spec(name, Some(amp), None) == Some((21u8, Kind::Knob)),
        eq_ignore_ascii_case(name, "NOISE GATE THRESHOLD"@) ==> resolve_cc_spec(name, Some(amp), None) == Some((10u8, Kind::Knob)),
        eq_ignore_ascii_case(name, "NOISE GATE RELEASE"@) ==> resolve_cc_spec(name, Some(amp), None) == Some((112u8, Kind::Knob)),
{
    reveal_strlit("AC Hi Boost");
    reveal_strlit("BASS");
    reveal_strlit("Black Panel Duo");
    reveal_strlit("Black Panel Lux Normal");
    reveal_strlit("Black Panel Lux Vibrato");
    reveal_strlit("Black SR");
    reveal_strlit("Black Vib");
    reveal_strlit("Blue Line Bass");
    reveal_strlit("CUT");
    reveal_strlit("DC Modern Crunch");
    reveal_strlit("DC Vintage Overdrive");
    reveal_strlit("J45");
    reveal_strlit("Lead 800 - 100W");
    reveal_strlit("M-2 Lead");
    reveal_strlit("MASTER");
    reveal_strlit("MS-30");
    reveal_strlit("NOISE GATE RELEASE");
    reveal_strlit("NOISE GATE THRESHOLD");
    reveal_strlit("Plexiglas - 100W");
    reveal_strlit("SL-100 Clean");
    reveal_strlit("SL-100 Crunch");
    reveal_strlit("SL-100 Drive");
    reveal_strlit("TREBLE");
    reveal_strlit("Treadplate Modern");
    reveal_strlit("Treadplate Vintage");
    reveal_strlit("Tweed Bass");
    reveal_strlit("Tweed Lux");
    reveal_strlit("VOLUME");
    let t = amp_table();
    assert(t[0].name@ == "Tweed Lux"@);
    assert(t[1].name@ == "Tweed Bass"@);
    assert(t[2].name@ == "Black Panel Lux Vibrato"@);
    assert(t[3].name@ == "Black Panel Lux Normal"@);
    assert(t[4].name@ == "AC Hi Boost"@);
    assert(t[5].name@ == "Black Panel Duo"@);
    assert(t[6].name@ == "Plexiglas - 100W"@);
    assert(t[7].name@ == "Lead 800 - 100W"@);
    assert(t[8].name@ == "M-2 Lead"@);
    assert(t[9].name@ == "SL-100 Drive"@);
    assert(t[10].name@ == "SL-100 Crunch"@);
    assert(t[11].name@ == "SL-100 Clean"@);
    assert(t[12].name@ == "Treadplate Modern"@);
    assert(t[13].name@ == "Treadplate Vintage"@);
    assert(t[14].name@ == "DC Modern Crunch"@);
    assert(t[15].name@ == "DC Vintage Overdrive"@);
    assert(t[16].name@ == "J45"@);
    assert(t[17].name@ == "Black SR"@);
    assert(t[18].name@ == "Black Vib"@);
    assert(t[19].name@ == "Blue Line Bass"@);
    assert(t[20].name@ == "MS-30"@);

    assert forall|j: int| 0 <= j < 20 implies !(#[trigger] amp_named(amp)(t[j])) by {
        if j == 0 { lemma_case_same(amp, "MS-30"@, t[0].name@); } else if j == 1 { lemma_case_same(amp, "MS-30"@, t[1].name@); } else if j == 2 { lemma_case_same(amp, "MS-30"@, t[2].name@); } else if j == 3 { lemma_case_same(amp, "MS-30"@, t[3].name@); } else if j == 4 { lemma_case_same(amp, "MS-30"@, t[4].name@); } else if j == 5 { lemma_case_same(amp, "MS-30"@, t[5].name@); } else if j == 6 { lemma_case_same(amp, "MS-30"@, t[6].name@); } else if j == 7 { lemma_case_same(amp, "MS-30"@, t[7].name@); } else if j == 8 { lemma_case_same(amp, "MS-30"@, t[8].name@); } else if j == 9 { lemma_case_same(amp, "MS-30"@, t[9].name@); } else if j == 10 { lemma_case_same(amp, "MS-30"@, t[10].name@); } else if j == 11 { lemma_case_same(amp, "MS-30"@, t[11].name@); } else if j == 12 { lemma_case_same(amp, "MS-30"@, t[12].name@); } else if j == 13 { lemma_case_same(amp, "MS-30"@, t[13].name@); } else if j == 14 { lemma_case_same(amp, "MS-30"@, t[14].name@); } else if j == 15 { lemma_case_same(amp, "MS-30"@, t[15].name@); } else if j == 16 { lemma_case_same(amp, "MS-30"@, t[16].name@); } else if j == 17 { lemma_case_same(amp, "MS-30"@, t[17].name@); } else if j == 18 { lemma_case_same(amp, "MS-30"@, t[18].name@); } else if j == 19 { lemma_case_same(amp, "MS-30"@, t[19].name@); }
    }
    lemma_case_same(amp, "MS-30"@, t[20].name@);
    assert(eq_ignore_ascii_case("MS-30"@, "MS-30"@));
    assert(is_first(t, amp_named(amp), 20));
    lemma_first_at(t, amp_named(amp), 20);
    let ps = t[20].params;
    assert(ps[0].name@ == "VOLUME"@);
    assert(ps[1].name@ == "BASS"@);
    assert(ps[2].name@ == "TREBLE"@);
    assert(ps[3].name@ == "CUT"@);
    assert(ps[4].name@ == "MASTER"@);
    assert(ps[5].name@ == "NOISE GATE THRESHOLD"@);
    assert(ps[6].name@ == "NOISE GATE RELEASE"@);
        if eq_ignore_ascii_case(name, "VOLUME"@) {

            assert forall|j: int| 0 <= j < 0 implies !(#[trigger] param_named(name)(ps[j])) by {
                
            }
            lemma_case_same(name, "VOLUME"@, ps[0].name@);
            assert(eq_ignore_ascii_case("VOLUME"@, "VOLUME"@));
            assert(is_first(ps, param_named(name), 0));
            lemma_first_at(ps, param_named(name), 0);
        }
        if eq_ignore_ascii_case(name, "BASS"@) {

            assert forall|j: int| 0 <= j < 1 implies !(#[trigger] param_named(name)(ps[j])) by {
                if j == 0 { lemma_case_same(name, "BASS"@, ps[0].name@); }
            }
            lemma_case_same(name, "BASS"@, ps[1].name@);
            assert(eq_ignore_ascii_case("BASS"@, "BASS"@));
            assert(is_first(ps, param_named(name), 1));
            lemma_first_at(ps, param_named(name), 1);
        }
        if eq_ignore_ascii_case(name, "TREBLE"@) {
            lemma_differ_at("VOLUME"@, "TREBLE"@, 0);
            assert forall|j: int| 0 <= j < 2 implies !(#[trigger] param_named(name)(ps[j])) by {
                if j == 0 { lemma_case_same(name, "TREBLE"@, ps[0].name@); } else if j == 1 { lemma_case_same(name, "TREBLE"@, ps[1].name@); }
            }
            lemma_case_same(name, "TREBLE"@, ps[2].name@);
            assert(eq_ignore_ascii_case("TREBLE"@, "TREBLE"@));
            assert(is_first(ps, param_named(name), 2));
            lemma_first_at(ps, param_named(name), 2);
        }
        if eq_ignore_ascii_case(name, "CUT"@) {

            assert forall|j: int| 0 <= j < 3 implies !(#[trigger] param_named(name)(ps[j])) by {
                if j == 0 { lemma_case_same(name, "CUT"@, ps[0].name@); } else if j == 1 { lemma_case_same(name, "CUT"@, ps[1].name@); } else if j == 2 { lemma_case_same(name, "CUT"@, ps[2].name@); }
            }
            lemma_case_same(name, "CUT"@, ps[3].name@);
            assert(eq_ignore_ascii_case("CUT"@, "CUT"@));
            assert(is_first(ps, param_named(name), 3));
            lemma_first_at(ps, param_named(name), 3);
        }
        if eq_ignore_ascii_case(name, "MASTER"@) {
            lemma_differ_at("VOLUME"@, "MASTER"@, 0);
            lemma_differ_at("TREBLE"@, "MASTER"@, 0);
            assert forall|j: int| 0 <= j < 4 implies !(#[trigger] param_named(name)(ps[j])) by {
                if j == 0 { lemma_case_same(name, "MASTER"@, ps[0].name@); } else if j == 1 { lemma_case_same(name, "MASTER"@, ps[1].name@); } else if j == 2 { lemma_case_same(name, "MASTER"@, ps[2].name@); } else if j == 3 { lemma_case_same(name, "MASTER"@, ps[3].name@); }
            }
            lemma_case_same(name, "MASTER"@, ps[4].name@);
            assert(eq_ignore_ascii_case("MASTER"@, "MASTER"@));
            assert(is_first(ps, param_named(name), 4));
            lemma_first_at(ps, param_named(name), 4);
        }
        if eq_ignore_ascii_case(name, "NOISE GATE THRESHOLD"@) {

            assert forall|j: int| 0 <= j < 5 implies !(#[trigger] param_named(name)(ps[j])) by {
                if j == 0 { lemma_case_same(name, "NOISE GATE THRESHOLD"@, ps[0].name@); } else if j == 1 { lemma_case_same(name, "NOISE GATE THRESHOLD"@, ps[1].name@); } else if j == 2 { lemma_case_same(name, "NOISE GATE THRESHOLD"@, ps[2].name@); } else if j == 3 { lemma_case_same(name, "NOISE GATE THRESHOLD"@, ps[3].name@); } else if j == 4 { lemma_case_same(name, "NOISE GATE THRESHOLD"@, ps[4].name@); }
            }
            lemma_case_same(name, "NOISE GATE THRESHOLD"@, ps[5].name@);
            assert(eq_ignore_ascii_case("NOISE GATE THRESHOLD"@, "NOISE GATE THRESHOLD"@));
            assert(is_first(ps, param_named(name), 5));
            lemma_first_at(ps, param_named(name), 5);
        }
        if eq_ignore_ascii_case(name, "NOISE GATE RELEASE"@) {

            assert forall|j: int| 0 <= j < 6 implies !(#[trigger] param_named(name)(ps[j])) by {
                if j == 0 { lemma_case_same(name, "NOISE GATE RELEASE"@, ps[0].name@); } else if j == 1 { lemma_case_same(name, "NOISE GATE RELEASE"@, ps[1].name@); } else if j == 2 { lemma_case_same(name, "NOISE GATE RELEASE"@, ps[2].name@); } else if j == 3 { lemma_case_same(name, "NOISE GATE RELEASE"@, ps[3].name@); } else if j == 4 { lemma_case_same(name, "NOISE GATE RELEASE"@, ps[4].name@); } else if j == 5 { lemma_case_same(name, "NOISE GATE RELEASE"@, ps[5].name@); }
            }
            lemma_case_same(name, "NOISE GATE RELEASE"@, ps[6].name@);
            assert(eq_ignore_ascii_case("NOISE GATE RELEASE"@, "NOISE GATE RELEASE"@));
            assert(is_first(ps, param_named(name), 6));
            lemma_first_at(ps, param_named(name), 6);
        }
}

/// The User Guide CC chart for the RB-01b: with the amp named in any ASCII
/// case, each of its controls, named in any ASCII case, resolves to its chart
/// CC and value kind.
#[verifier::rlimit(40)]
pub proof fn lemma_chart_rb_01b(name: Seq<char>, amp: Seq<char>)
    requires
        eq_ignore_ascii_case(amp, "RB-01b"@),
    ensures
        eq_ignore_ascii_case(name, "PRESENCE"@) ==> resolve_cc_spec(name, Some(amp), None) == Some((13u8, Kind::Knob)),
        eq_ignore_ascii_case(name, "VOLUME"@) ==> resolve_cc_spec(name, Some(amp), None) == Some((14u8, Kind::Knob)),
        eq_ignore_ascii_case(name, "TREBLE"@) ==> resolve_cc_spec(name, Some(amp), None) == Some((15u8, Kind::Knob)),
        eq_ignore_ascii_case(name, "MIDDLE"@) ==> resolve_cc_spec(name, Some(amp), None) == Some((16u8, Kind::Knob)),
        eq_ignore_ascii_case(name, "BASS"@) ==> resolve_cc_spec(name, Some(amp), None) == Some((21u8, Kind::Knob)),
        eq_ignore_ascii_case(name, "GAIN"@) ==> resolve_cc_spec(name, Some(amp), None) == Some((10u8, Kind::Knob)),
        eq_ignore_ascii_case(name, "BRIGHT"@) ==> resolve_cc_spec(name, Some(amp), None) == Some((112u8, Kind::Switch { off: "Off", on: "On" })),
        eq_ignore_ascii_case(name, "BOOST"@) ==> resolve_cc_spec(name, Some(amp), None) == Some((3u8, Kind::Knob)),
        eq_ignore_ascii_case(name, "NOISE GATE THRESHOLD"@) ==> resolve_cc_spec(name, Some(amp), None) == Some((84u8, Kind::Knob)),
        eq_ignore_ascii_case(name, "NOISE GATE RELEASE"@) ==> resolve_cc_spec(name, Some(amp), None) == Some((24u8, Kind::Knob)),
{
    reveal_strlit("AC Hi Boost");
    reveal_strlit("BASS");
    reveal_strlit("BOOST");
    reveal_strlit("BRIGHT");
    reveal_strlit("Black Panel Duo");
    reveal_strlit("Black Panel Lux Normal");
    reveal_strlit("Black Panel Lux Vibrato");
    reveal_strlit("Black SR");
    reveal_strlit("Black Vib");
    reveal_strlit("Blue Line Bass");
    reveal_strlit("DC Modern Crunch");
    reveal_strlit("DC Vintage Overdrive");
    reveal_strlit("GAIN");
    reveal_strlit("J45");
    reveal_strlit("Lead 800 - 100W");
    reveal_strlit("M-2 Lead");
    reveal_strlit("MIDDLE");
    reveal_strlit("MS-30");
    reveal_strlit("NOISE GATE RELEASE");
    reveal_strlit("NOISE GATE THRESHOLD");
    reveal_strlit("PRESENCE");
    reveal_strlit("Plexiglas - 100W");
    reveal_strlit("RB-01b");
    reveal_strlit("SL-100 Clean");
    reveal_strlit("SL-100 Crunch");
    reveal_strlit("SL-100 Drive");
    reveal_strlit("TREBLE");
    reveal_strlit("Treadplate Modern");
    reveal_strlit("Treadplate Vintage");
    reveal_strlit("Tweed Bass");
    reveal_strlit("Tweed Lux");
    reveal_strlit("VOLUME");
    let t = amp_table();
    assert(t[0].name@ == "Tweed Lux"@);
    assert(t[1].name@ == "Tweed Bass"@);
    assert(t[2].name@ == "Black Panel Lux Vibrato"@);
    assert(t[3].name@ == "Black Panel Lux Normal"@);
    assert(t[4].name@ == "AC Hi Boost"@);
    assert(t[5].name@ == "Black Panel Duo"@);
    assert(t[6].name@ == "Plexiglas - 100W"@);
    assert(t[7].name@ == "Lead 800 - 100W"@);
    assert(t[8].name@ == "M-2 Lead"@);
    assert(t[9].name@ == "SL-100 Drive"@);
    assert(t[10].name@ == "SL-100 Crunch"@);
    assert(t[11].name@ == "SL-100 Clean"@);
    assert(t[12].name@ == "Treadplate Modern"@);
    assert(t[13].name@ == "Treadplate Vintage"@);
    assert(t[14].name@ == "DC Modern Crunch"@);
    assert(t[15].name@ == "DC Vintage Overdrive"@);
    assert(t[16].name@ == "J45"@);
    assert(t[17].name@ == "Black SR"@);
    assert(t[18].name@ == "Black Vib"@);
    assert(t[19].name@ == "Blue Line Bass"@);
    assert(t[20].name@ == "MS-30"@);
    assert(t[21].name@ == "RB-01b"@);

    assert forall|j: int| 0 <= j < 21 implies !(#[trigger] amp_named(amp)(t[j])) by {
        if j == 0 { lemma_case_same(amp, "RB-01b"@, t[0].name@); } else if j == 1 { lemma_case_same(amp, "RB-01b"@, t[1].name@); } else if j == 2 { lemma_case_same(amp, "RB-01b"@, t[2].name@); } else if j == 3 { lemma_case_same(amp, "RB-01b"@, t[3].name@); } else if j == 4 { lemma_case_same(amp, "RB-01b"@, t[4].name@); } else if j == 5 { lemma_case_same(amp, "RB-01b"@, t[5].name@); } else if j == 6 { lemma_case_same(amp, "RB-01b"@, t[6].name@); } else if j == 7 { lemma_case_same(amp, "RB-01b"@, t[7].name@); } else if j == 8 { lemma_case_same(amp, "RB-01b"@, t[8].name@); } else if j == 9 { lemma_case_same(amp, "RB-01b"@, t[9].name@); } else if j == 10 { lemma_case_same(amp, "RB-01b"@, t[10].name@); } else if j == 11 { lemma_case_same(amp, "RB-01b"@, t[11].name@); } else if j == 12 { lemma_case_same(amp, "RB-01b"@, t[12].name@); } else if j == 13 { lemma_case_same(amp, "RB-01b"@, t[13].name@); } else if j == 14 { lemma_case_same(amp, "RB-01b"@, t[14].name@); } else if j == 15 { lemma_case_same(amp, "RB-01b"@, t[15].name@); } else if j == 16 { lemma_case_same(amp, "RB-01b"@, t[16].name@); } else if j == 17 { lemma_case_same(amp, "RB-01b"@, t[17].name@); } else if j == 18 { lemma_case_same(amp, "RB-01b"@, t[18].name@); } else if j == 19 { lemma_case_same(amp, "RB-01b"@, t[19].name@); } else if j == 20 { lemma_case_same(amp, "RB-01b"@, t[20].name@); }
    }
    lemma_case_same(amp, "RB-01b"@, t[21].name@);
    assert(eq_ignore_ascii_case("RB-01b"@, "RB-01b"@));
    assert(is_first(t, amp_named(amp), 21));
    lemma_first_at(t, amp_named(amp), 21);
    let ps = t[21].params;
    assert(ps[0].name@ == "PRESENCE"@);
    assert(ps[1].name@ == "VOLUME"@);
    assert(ps[2].name@ == "TREBLE"@);
    assert(ps[3].name@ == "MIDDLE"@);
    assert(ps[4].name@ == "BASS"@);
    assert(ps[5].name@ == "GAIN"@);
    assert(ps[6].name@ == "BRIGHT"@);
    assert(ps[7].name@ == "BOOST"@);
    assert(ps[8].name@ == "NOISE GATE THRESHOLD"@);
    assert(ps[9].name@ == "NOISE GATE RELEASE"@);
        if eq_ignore_ascii_case(name, "PRESENCE"@) {

            assert forall|j: int| 0 <= j < 0 implies !(#[trigger] param_named(name)(ps[j])) by {
                
            }
            lemma_case_same(name, "PRESENCE"@, ps[0].name@);
            assert(eq_ignore_ascii_case("PRESENCE"@, "PRESENCE"@));
            assert(is_first(ps, param_named(name), 0));
            lemma_first_at(ps, param_named(name), 0);
        }
        if eq_ignore_ascii_case(name, "VOLUME"@) {

            assert forall|j: int| 0 <= j < 1 implies !(#[trigger] param_named(name)(ps[j])) by {
                if j == 0 { lemma_case_same(name, "VOLUME"@, ps[0].name@); }
            }
            lemma_case_same(name, "VOLUME"@, ps[1].name@);
            assert(eq_ignore_ascii_case("VOLUME"@, "VOLUME"@));
            assert(is_first(ps, param_named(name), 1));
            lemma_first_at(ps, param_named(name), 1);
        }
        if eq_ignore_ascii_case(name, "TREBLE"@) {
            lemma_differ_at("VOLUME"@, "TREBLE"@, 0);
            assert forall|j: int| 0 <= j < 2 implies !(#[trigger] param_named(name)(ps[j])) by {
                if j == 0 { lemma_case_same(name, "TREBLE"@, ps[0].name@); } else if j == 1 { lemma_case_same(name, "TREBLE"@, ps[1].name@); }
            }
            lemma_case_same(name, "TREBLE"@, ps[2].name@);
            assert(eq_ignore_ascii_case("TREBLE"@, "TREBLE"@));
            assert(is_first(ps, param_named(name), 2));
            lemma_first_at(ps, param_named(name), 2);
        }
        if eq_ignore_ascii_case(name, "MIDDLE"@) {
            lemma_differ_at("VOLUME"@, "MIDDLE"@, 0);
            lemma_differ_at("TREBLE"@, "MIDDLE"@, 0);
            assert forall|j: int| 0 <= j < 3 implies !(#[trigger] param_named(name)(ps[j])) by {
                if j == 0 { lemma_case_same(name, "MIDDLE"@, ps[0].name@); } else if j == 1 { lemma_case_same(name, "MIDDLE"@, ps[1].name@); } else if j == 2 { lemma_case_same(name, "MIDDLE"@, ps[2].name@); }
            }
            lemma_case_same(name, "MIDDLE"@, ps[3].name@);
            assert(eq_ignore_ascii_case("MIDDLE"@, "MIDDLE"@));
            assert(is_first(ps, param_named(name), 3));
            lemma_first_at(ps, param_named(name), 3);
        }
        if eq_ignore_ascii_case(name, "BASS"@) {

            assert forall|j: int| 0 <= j < 4 implies !(#[trigger] param_named(name)(ps[j])) by {
                if j == 0 { lemma_case_same(name, "BASS"@, ps[0].name@); } else if j == 1 { lemma_case_same(name, "BASS"@, ps[1].name@); } else if j == 2 { lemma_case_same(name, "BASS"@, ps[2].name@); } else if j == 3 { lemma_case_same(name, "BASS"@, ps[3].name@); }
            }
            lemma_case_same(name, "BASS"@, ps[4].name@);
            assert(eq_ignore_ascii_case("BASS"@, "BASS"@));
            assert(is_first(ps, param_named(name), 4));
            lemma_first_at(ps, param_named(name), 4);
        }
        if eq_ignore_ascii_case(name, "GAIN"@) {
            lemma_differ_at("BASS"@, "GAIN"@, 0);
            assert forall|j: int| 0 <= j < 5 implies !(#[trigger] param_named(name)(ps[j])) by {
                if j == 0 { lemma_case_same(name, "GAIN"@, ps[0].name@); } else if j == 1 { lemma_case_same(name, "GAIN"@, ps[1].name@); } else if j == 2 { lemma_case_same(name, "GAIN"@, ps[2].name@); } else if j == 3 { lemma_case_same(name, "GAIN"@, ps[3].name@); } else if j == 4 { lemma_case_same(name, "GAIN"@, ps[4].name@); }
            }
            lemma_case_same(name, "GAIN"@, ps[5].name@);
            assert(eq_ignore_ascii_case("GAIN"@, "GAIN"@));
            assert(is_first(ps, param_named(name), 5));
            lemma_first_at(ps, param_named(name), 5);
        }
        if eq_ignore_ascii_case(name, "BRIGHT"@) {
            lemma_differ_at("VOLUME"@, "BRIGHT"@, 0);
            lemma_differ_at("TREBLE"@, "BRIGHT"@, 0);
            lemma_differ_at("MIDDLE"@, "BRIGHT"@, 0);
            assert forall|j: int| 0 <= j < 6 implies !(#[trigger] param_named(name)(ps[j])) by {
                if j == 0 { lemma_case_same(name, "BRIGHT"@, ps[0].name@); } else if j == 1 { lemma_case_same(name, "BRIGHT"@, ps[1].name@); } else if j == 2 { lemma_case_same(name, "BRIGHT"@, ps[2].name@); } else if j == 3 { lemma_case_same(name, "BRIGHT"@, ps[3].name@); } else if j == 4 { lemma_case_same(name, "BRIGHT"@, ps[4].name@); } else if j == 5 { lemma_case_same(name, "BRIGHT"@, ps[5].name@); }
            }
            lemma_case_same(name, "BRIGHT"@, ps[6].name@);
            assert(eq_ignore_ascii_case("BRIGHT"@, "BRIGHT"@));
            assert(is_first(ps, param_named(name), 6));
            lemma_first_at(ps, param_named(name), 6);
        }
        if eq_ignore_ascii_case(name, "BOOST"@) {

            assert forall|j: int| 0 <= j < 7 implies !(#[trigger] param_named(name)(ps[j])) by {
                if j == 0 { lemma_case_same(name, "BOOST"@, ps[0].name@); } else if j == 1 { lemma_case_same(name, "BOOST"@, ps[1].name@); } else if j == 2 { lemma_case_same(name, "BOOST"@, ps[2].name@); } else if j == 3 { lemma_case_same(name, "BOOST"@, ps[3].name@); } else if j == 4 { lemma_case_same(name, "BOOST"@, ps[4].name@); } else if j == 5 { lemma_case_same(name, "BOOST"@, ps[5].name@); } else if j == 6 { lemma_case_same(name, "BOOST"@, ps[6].name@); }
            }
            lemma_case_same(name, "BOOST"@, ps[7].name@);
            assert(eq_ignore_ascii_case("BOOST"@, "BOOST"@));
            assert(is_first(ps, param_named(name), 7));
            lemma_first_at(ps, param_named(name), 7);
        }
        if eq_ignore_ascii_case(name, "NOISE GATE THRESHOLD"@) {

            assert forall|j: int| 0 <= j < 8 implies !(#[trigger] param_named(name)(ps[j])) by {
                if j == 0 { lemma_case_same(name, "NOISE GATE THRESHOLD"@, ps[0].name@); } else if j == 1 { lemma_case_same(name, "NOISE GATE THRESHOLD"@, ps[1].name@); } else if j == 2 { lemma_case_same(name, "NOISE GATE THRESHOLD"@, ps[2].name@); } else if j == 3 { lemma_case_same(name, "NOISE GATE THRESHOLD"@, ps[3].name@); } else if j == 4 { lemma_case_same(name, "NOISE GATE THRESHOLD"@, ps[4].name@); } else if j == 5 { lemma_case_same(name, "NOISE GATE THRESHOLD"@, ps[5].name@); } else if j == 6 { lemma_case_same(name, "NOISE GATE THRESHOLD"@, ps[6].name@); } else if j == 7 { lemma_case_same(name, "NOISE GATE THRESHOLD"@, ps[7].name@); }
            }
            lemma_case_same(name, "NOISE GATE THRESHOLD"@, ps[8].name@);
            assert(eq_ignore_ascii_case("NOISE GATE THRESHOLD"@, "NOISE GATE THRESHOLD"@));
            assert(is_first(ps, param_named(name), 8));
            lemma_first_at(ps, param_named(name), 8);
        }
        if eq_ignore_ascii_case(name, "NOISE GATE RELEASE"@) {

            assert forall|j: int| 0 <= j < 9 implies !(#[trigger] param_named(name)(ps[j])) by {
                if j == 0 { lemma_case_same(name, "NOISE GATE RELEASE"@, ps[0].name@); } else if j == 1 { lemma_case_same(name, "NOISE GATE RELEASE"@, ps[1].name@); } else if j == 2 { lemma_case_same(name, "NOISE GATE RELEASE"@, ps[2].name@); } else if j == 3 { lemma_case_same(name, "NOISE GATE RELEASE"@, ps[3].name@); } else if j == 4 { lemma_case_same(name, "NOISE GATE RELEASE"@, ps[4].name@); } else if j == 5 { lemma_case_same(name, "NOISE GATE RELEASE"@, ps[5].name@); } else if j == 6 { lemma_case_same(name, "NOISE GATE RELEASE"@, ps[6].name@); } else if j == 7 { lemma_case_same(name, "NOISE GATE RELEASE"@, ps[7].name@); } else if j == 8 { lemma_case_same(name, "NOISE GATE RELEASE"@, ps[8].name@); }
            }
            lemma_case_same(name, "NOISE GATE RELEASE"@, ps[9].name@);
            assert(eq_ignore_ascii_case("NOISE GATE RELEASE"@, "NOISE GATE RELEASE"@));
            assert(is_first(ps, param_named(name), 9));
            lemma_first_at(ps, param_named(name), 9);
        }
}

} // verus!
