//! The data model: captured backups, the parameter catalog and `.tfx` patches.

use rackctl::backup::{BlockData, ParamRecord, PatchBackup, RestoreAction};
use rackctl::error::Error;
use rackctl::param::{
    amp, amps, cabs, effect, effects, global, knob, mic_position, mics, onoff, resolve_cc, sw, Kind,
    Slot,
};
use rackctl::tfx::{parse, Param, BODY_OFFSET, BLOCK_MARKER, NAME_OFFSET};

fn sample() -> PatchBackup {
    PatchBackup::new(
        "Test Patch",
        vec![
            BlockData { id: 0x01, bytes: vec![1, 2, 3] },
            BlockData { id: 0x05, bytes: b"Test Patch".to_vec() },
            BlockData { id: 0x21, bytes: vec![0x14, 0x6d, 0x07, 0x00] },
            BlockData { id: 0x03, bytes: vec![0, 0] },
        ],
    )
}

#[test]
fn restorable_excludes_aggregate_and_directory_blocks() {
    let ids: Vec<u8> = sample().restorable().iter().map(|b| b.id).collect();
    assert_eq!(ids, vec![0x05, 0x21]);
}

#[test]
fn param_records_parse_and_compare_by_target() {
    let b = BlockData { id: 0x21, bytes: vec![2, 55, 0x56, 0x0b, 43, 0x4c, 0x02] };
    assert_eq!(
        b.param_records(),
        Some(vec![
            ParamRecord { value: 55, index: 0x56, target: 0x0b },
            ParamRecord { value: 43, index: 0x4c, target: 0x02 },
        ])
    );
    let reindexed = BlockData { id: 0x21, bytes: vec![2, 43, 0x1f, 0x02, 55, 0x1e, 0x0b] };
    assert_eq!(b.param_values_by_target(), reindexed.param_values_by_target());
    assert!(!BlockData { id: 0x05, bytes: b"Name".to_vec() }.is_param_table());
    assert!(!BlockData { id: 0x34, bytes: vec![127] }.is_param_table());
}

#[test]
fn volatile_block_is_not_restorable() {
    assert!(!BlockData { id: 0x34, bytes: vec![127] }.is_restorable());
}

#[test]
fn restore_action_only_writes_known_patch_content() {
    let action = |id: u8, bytes: Vec<u8>| BlockData { id, bytes }.restore_action();
    assert_eq!(action(0x21, vec![1, 55, 0x56, 0x0b]), RestoreAction::PerParam);
    assert_eq!(action(0x05, b"Name".to_vec()), RestoreAction::WholeBlock);
    assert_eq!(action(0x08, vec![4, 0, 0x7f]), RestoreAction::WholeBlock);
    assert_eq!(action(0x22, vec![0x41]), RestoreAction::Skip);
    assert_eq!(action(0x07, vec![0x1d, 0x6e]), RestoreAction::Skip);
    assert_eq!(action(0x30, vec![0x00]), RestoreAction::Skip);
    assert_eq!(action(0x34, vec![0x7f]), RestoreAction::Skip);
    assert_eq!(action(0x01, vec![1, 2, 3]), RestoreAction::Skip);
}

#[test]
fn block_lookup_by_id() {
    let b = sample();
    assert_eq!(b.block(0x05), Some(&b"Test Patch"[..]));
    assert_eq!(b.block(0x99), None);
}

#[test]
fn values_by_target_sorts_and_ignores_index() {
    let b = BlockData { id: 0x21, bytes: vec![3, 9, 0, 5, 1, 0, 2, 7, 0, 9] };
    assert_eq!(b.param_values_by_target(), Some(vec![(2, 1), (5, 9), (9, 7)]));
    // A flat block has no parameter table.
    assert_eq!(BlockData { id: 0x05, bytes: b"x".to_vec() }.param_values_by_target(), None);
    // A count that does not match the record area is not a table.
    assert_eq!(BlockData { id: 0x21, bytes: vec![2, 1, 2, 3] }.param_records(), None);
    assert_eq!(BlockData { id: 0x21, bytes: vec![] }.param_records(), None);
}

#[test]
fn duplicate_keeps_every_block() {
    let b = sample();
    assert_eq!(b.duplicate(), b);
    assert_eq!(b.blocks[1].duplicate(), b.blocks[1]);
}

#[test]
fn amp_param_lookup_returns_documented_cc() {
    let dc = amp("DC Modern Crunch").unwrap();
    assert_eq!(dc.param("GAIN").unwrap().cc, 13);
    assert_eq!(dc.param("MASTER").unwrap().cc, 10);
    assert_eq!(dc.param("PRESENCE").unwrap().cc, 21);
    assert!(dc.param("missing").is_none());
}

#[test]
fn every_amp_cc_is_a_valid_7bit_value() {
    for a in amps() {
        for p in &a.params {
            assert!(p.cc <= 127, "{} {} cc out of range", a.name, p.name);
        }
    }
}

#[test]
fn effect_per_slot_cc_and_alignment() {
    for e in effects() {
        for p in &e.params {
            assert_eq!(p.cc.len(), e.slots.len(), "{} / {} slot/cc mismatch", e.name, p.name);
            for &c in &p.cc {
                assert!(c <= 127, "{} / {} cc {c} out of range", e.name, p.name);
            }
        }
    }
    let c1 = effect("C1 Chorus/Vibrato").unwrap();
    let byp = c1.param("Bypass").unwrap();
    assert_eq!(c1.cc_in(byp, Slot::Mod), Some(50));
    assert_eq!(c1.cc_in(byp, Slot::Fx1), Some(63));
    assert_eq!(c1.cc_in(byp, Slot::Fx2), Some(86));
}

#[test]
fn stepped_describe_picks_the_right_label() {
    let rev = effect("Eleven SR (Stereo Reverb)").unwrap();
    let ty = rev.param("Type").unwrap();
    assert_eq!(ty.kind.describe(70), "Concert Hall");
    assert_eq!(ty.kind.describe(0), "Echo Room");
    assert_eq!(ty.kind.describe(127), "Early Reflect 2");
}

#[test]
fn expansion_effects_now_fully_catalogued() {
    let peq = effect("Parametric EQ").unwrap();
    assert_eq!(peq.slots, [Slot::Fx1, Slot::Fx2]);
    assert_eq!(peq.params.len(), 14);
    assert_eq!(peq.cc_in(peq.param("H Q").unwrap(), Slot::Fx2), Some(70));
    let mc = effect("Multi Chorus").unwrap();
    let lo = mc.param("Lo Cut").unwrap();
    assert_eq!(mc.cc_in(lo, Slot::Mod), Some(89));
    assert_eq!(mc.cc_in(lo, Slot::Fx2), Some(89));
    assert_eq!(effect("DC Distortion").unwrap().slots, [Slot::Fixed]);
    assert_eq!(effect("White Boost").unwrap().param("Volume").unwrap().cc, [80]);
}

#[test]
fn amp_section_models_are_populated() {
    assert_eq!(cabs().len(), 7);
    assert_eq!(mics().len(), 7);
    assert_eq!(mic_position(), ["On-axis", "Off-axis"]);
    assert!(cabs().contains(&"4x12 Green 25Watt"));
    assert!(mics().contains(&"Ribbon 121"));
}

#[test]
fn resolve_cc_uses_context() {
    assert_eq!(resolve_cc("PRESENCE", Some("Tweed Bass"), None).unwrap().0, 13);
    assert_eq!(resolve_cc("PRESENCE", Some("M-2 Lead"), None).unwrap().0, 3);
    assert_eq!(resolve_cc("Rate", None, Some(("Multi Chorus", Slot::Fx1))).unwrap().0, 20);
    assert_eq!(resolve_cc("Rate", None, Some(("Multi Chorus", Slot::Fx2))).unwrap().0, 113);
    assert_eq!(resolve_cc("DIST BYPASS", None, None).unwrap().0, 25);
    assert_eq!(resolve_cc("AMP OUTPUT", None, None).unwrap().0, 92);
    assert!(resolve_cc("PRESENCE", None, None).is_none());
    assert!(resolve_cc("nope", Some("Tweed Bass"), None).is_none());
}

#[test]
fn switch_describe_splits_at_64() {
    let p = onoff("X", 1);
    assert_eq!(p.kind.describe(63), "Off");
    assert_eq!(p.kind.describe(64), "On");
}

#[test]
fn lookups_ignore_ascii_case() {
    assert!(amp("dc modern crunch").is_some());
    assert!(effect("MULTI CHORUS").is_some());
    assert_eq!(global("dist bypass").map(|p| p.cc), Some(25));
    assert!(global("no such control").is_none());
    assert!(matches!(global("DIST BYPASS").unwrap().kind, Kind::Switch { .. }));
    assert_eq!(Slot::Fx2.label(), "FX2");
    assert_eq!(Slot::Fixed.label(), "fixed");
}

/// Build a synthetic `.tfx` byte image.
fn build(name: &str, blocks: &[(u8, &[(&str, u32)])]) -> Vec<u8> {
    let mut d = vec![0u8; BODY_OFFSET];
    let nb = name.as_bytes();
    assert!(nb.len() <= BODY_OFFSET - NAME_OFFSET - 4, "test name too long");
    for (i, chunk) in nb.chunks(4).enumerate() {
        let mut w = [0u8; 4];
        w[..chunk.len()].copy_from_slice(chunk);
        let off = NAME_OFFSET + i * 4;
        d[off..off + 4].copy_from_slice(&[w[3], w[2], w[1], w[0]]);
    }
    for (id, params) in blocks {
        let size = params.len() * 8;
        d.push((size & 0xff) as u8);
        d.push(((size >> 8) & 0xff) as u8);
        d.push(BLOCK_MARKER);
        d.push(*id);
        for (tag, val) in *params {
            let t = tag.as_bytes();
            assert_eq!(t.len(), 4, "test tags must be 4 chars");
            d.extend_from_slice(&[t[3], t[2], t[1], t[0]]);
            d.extend_from_slice(&val.to_le_bytes());
        }
    }
    let total = d.len() as u32;
    d[0..4].copy_from_slice(&total.to_be_bytes());
    d
}

#[test]
fn parses_name_blocks_and_values() {
    let img = build(
        "DC Modern",
        &[(0x41, &[("Tmpo", 500_000), ("PIGI", 125)]), (0x49, &[("sld1", 0x1234_5678)])],
    );
    let patch = parse(&img).unwrap();
    assert_eq!(patch.name, "DC Modern");
    assert_eq!(patch.blocks.len(), 2);
    let g = &patch.blocks[0];
    assert_eq!(g.id, 0x41);
    assert_eq!(g.params[0], Param { tag: "Tmpo".into(), value: 500_000 });
    assert_eq!(g.params[1].tag, "PIGI");
    assert_eq!(g.params[1].value, 125);
    let amp = &patch.blocks[1];
    assert_eq!(amp.id, 0x49);
    assert_eq!(amp.params[0].tag, "sld1");
    assert_eq!(amp.params[0].value, 0x1234_5678);
}

#[test]
fn name_not_multiple_of_four_round_trips() {
    let img = build("A is A 800", &[(0x41, &[("RVol", 1)])]);
    assert_eq!(parse(&img).unwrap().name, "A is A 800");
}

#[test]
fn float_values_reinterpret() {
    let bits = 0.5f32.to_bits();
    let img = build("x", &[(0x45, &[("Driv", bits)])]);
    let patch = parse(&img).unwrap();
    assert!((f32::from_bits(patch.blocks[0].params[0].value) - 0.5).abs() < f32::EPSILON);
}

#[test]
fn too_short_is_an_error() {
    assert!(matches!(parse(&[0u8; 10]), Err(Error::Tfx(_))));
}

#[test]
fn too_short_error_names_the_length() {
    match parse(&[0u8; 10]) {
        Err(e) => assert_eq!(e.message(), "tfx error: file too short: 10 bytes (need at least 92)"),
        Ok(_) => panic!("a ten-byte file parsed"),
    }
}

#[test]
fn error_messages_match_their_variants() {
    assert_eq!(Error::Timeout.message(), "timed out waiting for a device reply");
    assert_eq!(Error::PortNotFound("hw:1,0".into()).message(), "MIDI port not found: hw:1,0");
    assert_eq!(
        Error::PortBusy("hw:1,0".into()).message(),
        "MIDI port hw:1,0 is in use by another rackctl process"
    );
    assert_eq!(Error::Sysex("bad".into()).message(), "sysex error: bad");
    assert_eq!(Error::Transport("gone".into()).message(), "transport error: gone");
}

#[test]
fn parameter_builders_set_their_kind() {
    let s = sw("Mode", 70, "Mono", "Stereo");
    assert_eq!(s.cc, 70);
    assert_eq!(s.kind.describe(10), "Mono");
    assert_eq!(s.kind.describe(100), "Stereo");
    assert_eq!(knob("Gain", 13).kind.describe(99), "99");
}
