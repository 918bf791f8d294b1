//! The library conventions, the management layer over the mock, the command-line
//! grammar and the editors' pure helpers.

use rackctl::bank::{mock_patch, ElevenDevice, MockEleven};
use rackctl::backup::{BlockData, PatchBackup};
use rackctl::cli::{
    kind_label, kind_summary, parse_addr, parse_byte, parse_cc_value, parse_slot, to_ascii_lower,
    trailing_name,
};
use rackctl::eleven_gui;
use rackctl::eleven_gui::Tab as ElevenTab;
use rackctl::gx700::{self, chain_block_id, chain_token, hex4};
use rackctl::gx700_gui::{self, move_within, speaker_cab_desc, Tab};
use rackctl::library::{
    check_envelope, json_stem, sorted_json_stems, decode_header, decode_payload, device_dir, envelope_header, located, item_file, item_path, library_dir, no_dir, plain_stem, sanitize,
    EnvelopeHeader,
};
use rackctl::manage::{
    block_name, capture, capture_scene, copy_slot, patch_directory, restore, restore_scene,
    resolve_named_cc, send_named_cc, slot_label, ProgressLog, verify_aggregate, verify_blocks, Scene,
    VerifyReport, FACTORY_BANK,
};
use rackctl::param::{onoff, Kind, Slot};
use rackctl::text::hex;

#[test]
fn sanitize_keeps_safe_chars_and_defaults() {
    assert_eq!(sanitize("My Tone-1.json"), "My Tone-1.json");
    assert_eq!(sanitize("a/b:c"), "a_b_c");
    assert_eq!(sanitize("   "), "untitled");
}

#[test]
fn item_path_layout() {
    if let Some(p) = item_path("gx700", "blocks/distortion", "Lead Boost") {
        let p = p.to_path_buf();
        assert!(p.ends_with("rackctl/gx700/blocks/distortion/Lead Boost.json"), "{p:?}");
    }
}

#[test]
fn library_locations_nest_device_kind_and_file() {
    if let Some(d) = device_dir("eleven") {
        assert_eq!(d.parts, vec!["eleven".to_string()]);
    }
    if let Some(d) = library_dir("eleven", "scenes") {
        assert_eq!(d.parts, vec!["eleven".to_string(), "scenes".to_string()]);
    }
    if let Some(d) = item_path("eleven", "backups", " x ") {
        assert_eq!(d.parts[2], "x.json");
    }
    assert_eq!(item_file("é ok?"), "é ok_.json");
    assert_eq!(sanitize("\t\u{3000}"), "__");
    assert_eq!(sanitize("  ab  "), "ab");
    assert_eq!(plain_stem("a.b c/d"), "a_b c_d");
    assert_eq!(no_dir(), "no config directory available");
}

#[test]
fn envelopes_from_another_device_or_newer_version_are_refused() {
    let header = |is_envelope: bool, device: &str, version: Option<u32>| EnvelopeHeader {
        is_envelope,
        device: device.to_string(),
        version,
    };
    assert_eq!(check_envelope(&header(false, "gx700", Some(1)), "gx700", 1), None);
    assert_eq!(check_envelope(&header(true, "gx700", Some(1)), "gx700", 1), Some(Ok(())));
    assert_eq!(
        check_envelope(&header(true, "gx700", Some(1)), "us16x08", 1),
        Some(Err("saved from a different device (gx700)".to_string()))
    );
    assert_eq!(
        check_envelope(&header(true, "gx700", Some(9)), "gx700", 1),
        Some(Err("saved by a newer version (v9)".to_string()))
    );
    assert_eq!(
        check_envelope(&header(true, "gx700", None), "gx700", 1),
        Some(Err("saved by a newer version (v4294967295)".to_string()))
    );
}

fn sample() -> serde_json::Value {
    let mut m = serde_json::Map::new();
    m.insert("name".to_string(), serde_json::Value::String("tone".to_string()));
    m.insert("n".to_string(), serde_json::Value::from(7u32));
    serde_json::Value::Object(m)
}

fn encode_item(device: &str, version: u64, payload: &serde_json::Value) -> String {
    let mut m = serde_json::Map::new();
    m.insert("version".to_string(), serde_json::Value::from(version));
    m.insert("device".to_string(), serde_json::Value::String(device.to_string()));
    m.insert("payload".to_string(), payload.clone());
    serde_json::to_string_pretty(&serde_json::Value::Object(m)).unwrap()
}

#[test]
fn envelope_round_trips() {
    let text = encode_item("gx700", 1, &sample());
    assert!(text.contains("\"device\": \"gx700\""), "{text}");
    assert!(text.contains("\"version\": 1"), "{text}");
    let payload = decode_payload("gx700", 1, &text).unwrap().unwrap();
    let got: serde_json::Value = serde_json::from_str(&payload).unwrap();
    assert_eq!(got, sample());
    assert_eq!(decode_header("gx700", 1, &text), Some(Ok(())));
}

#[test]
fn rejects_other_device_and_newer_version() {
    let text = encode_item("gx700", 1, &sample());
    let err = decode_payload("us16x08", 1, &text).unwrap().unwrap_err();
    assert!(err.contains("different device"), "{err}");
    let newer = encode_item("gx700", 9, &sample());
    let err = decode_payload("gx700", 1, &newer).unwrap().unwrap_err();
    assert!(err.contains("newer version"), "{err}");
    let huge = encode_item("gx700", 1 << 40, &sample());
    assert_eq!(
        decode_header("gx700", 1, &huge),
        Some(Err("saved by a newer version (v4294967295)".to_string()))
    );
}

#[test]
fn bare_json_is_not_an_envelope() {
    let bare = serde_json::to_string(&sample()).unwrap();
    assert!(decode_payload("gx700", 1, &bare).is_none());
    assert!(decode_header("gx700", 1, "not json").is_none());
    assert!(decode_header("gx700", 1, "[1, 2]").is_none());
    let h = envelope_header(r#"{"version": 2, "device": 5}"#).unwrap();
    assert!(!h.is_envelope);
    assert_eq!(h.device, "");
    assert_eq!(h.version, Some(2));
}

#[test]
fn envelope_header_checks() {
    let header = |is_envelope: bool, device: &str, version: Option<u32>| EnvelopeHeader {
        is_envelope,
        device: device.to_string(),
        version,
    };
    let saved = header(true, "gx700", Some(1));
    let err = check_envelope(&saved, "us16x08", 1).unwrap().unwrap_err();
    assert!(err.contains("different device"), "{err}");
    let bare = header(false, "", None);
    assert!(check_envelope(&bare, "gx700", 1).is_none());
}

#[test]
fn block_name_decodes_from_byte_zero_no_header() {
    let payload = [0x42, 0x69, 0x67, 0x20, 0x42, 0x6C, 0x75, 0x65, 0x00];
    assert_eq!(block_name(&payload), "Big Blue");
    let padded = [0x41, 0x78, 0x65, 0x00, 0xFF, 0x01];
    assert_eq!(block_name(&padded), "Axe");
}

#[test]
fn slot_labels_are_zero_padded() {
    assert_eq!(slot_label(0), "U000");
    assert_eq!(slot_label(7), "U007");
    assert_eq!(slot_label(104), "U104");
    assert_eq!(gx700::slot_label(1), "U001");
    assert_eq!(gx700::slot_label(100), "U100");
    assert_eq!(gx700::slot_label(101), "P001");
    assert_eq!(gx700::slot_label(200), "P100");
    assert_eq!(gx700::slot_label(1234), "P1134");
    assert_eq!(eleven_gui::slot_label(0), "A1");
    assert_eq!(eleven_gui::slot_label(7), "B4");
    assert_eq!(eleven_gui::slot_label(103), "Z4");
    assert_eq!(eleven_gui::slot_label(104), "U104");
}

#[test]
fn verify_compares_tables_by_target_and_flat_blocks_by_bytes() {
    let patch = PatchBackup::new(
        "p",
        vec![
            BlockData { id: 0x01, bytes: vec![1] },
            BlockData { id: 0x05, bytes: b"Name".to_vec() },
            BlockData { id: 0x21, bytes: vec![2, 55, 0x56, 0x0b, 43, 0x4c, 0x02] },
            BlockData { id: 0x08, bytes: vec![4, 0] },
        ],
    );
    let after = PatchBackup::new(
        "p",
        vec![
            BlockData { id: 0x21, bytes: vec![2, 43, 0x1f, 0x02, 55, 0x1e, 0x0b] },
            BlockData { id: 0x05, bytes: b"Name".to_vec() },
            BlockData { id: 0x08, bytes: vec![4, 1] },
        ],
    );
    let r = verify_blocks(&patch, &after);
    assert_eq!(r.written, 3);
    assert_eq!(r.matched, 2);
    assert_eq!(r.mismatched, vec![0x08]);
    assert!(!r.ok());
    assert_eq!(r.summary(), "2 matched, 1 differ (0x08)");
    let same = verify_blocks(&patch, &patch);
    assert!(same.ok());
    assert_eq!(same.summary(), "all 3 blocks match");
    let missing = verify_blocks(&patch, &PatchBackup::new("p", vec![]));
    assert_eq!(missing.summary(), "0 matched, 3 differ (0x05, 0x21, 0x08)");
    assert_eq!(VerifyReport::default().summary(), "all 0 blocks match");
}

#[test]
fn aggregate_verify_needs_a_non_empty_identical_image() {
    assert!(verify_aggregate(&[1, 2], &[1, 2]).ok());
    let r = verify_aggregate(&[], &[]);
    assert_eq!((r.written, r.matched, r.mismatched.clone()), (1, 0, vec![0x01]));
    assert!(!verify_aggregate(&[1, 2], &[1, 3]).ok());
}

#[test]
fn management_over_the_mock_bank() {
    let mut dev = MockEleven::new();
    let dir = patch_directory(&mut dev, 0, 10).unwrap();
    assert_eq!(dir.len(), 10);
    assert_eq!(dir[0], (0, "Big Blue".to_string()));
    assert_eq!(dir[7], (7, "Austin Rotary".to_string()));
    assert_eq!(dir[9], (9, String::new()));

    let p = capture(&mut dev, Some(3)).unwrap();
    assert_eq!(p.name, "Browntown");
    assert_eq!(capture(&mut dev, None).unwrap().name, "Browntown");

    let report = restore(&mut dev, 12, &mock_patch("Saved", 4)).unwrap();
    assert!(report.ok());
    assert_eq!(report.written, 1); // only the name block is restorable

    let copied = copy_slot(&mut dev, FACTORY_BANK, 5, 20).unwrap();
    assert!(copied.ok(), "{}", copied.summary());
    assert_eq!(dev.read_block(&[0x04, 0, 20]).unwrap(), b"Jangly Stereo\0");
}

#[test]
fn scene_capture_stops_when_the_bank_wraps() {
    let mut dev = MockEleven::new();
    // Slot 8 repeats slot 0's name: the bank has wrapped.
    dev.restore_patch(8, &mock_patch("Big Blue", 8)).unwrap();
    let scene = capture_scene(&mut dev, "Gig", 20, &mut ProgressLog::new()).unwrap();
    assert_eq!(scene.name, "Gig");
    let slots: Vec<u8> = scene.patches.keys().copied().collect();
    assert_eq!(slots, vec![0, 1, 2, 3, 4, 5, 6, 7]);
    let short = capture_scene(&mut dev, "Two", 2, &mut ProgressLog::new()).unwrap();
    assert_eq!(short.patches.len(), 2);
    let mut target = MockEleven::new();
    let report = restore_scene(&mut target, &short, &mut ProgressLog::new()).unwrap();
    assert!(report.ok());
    assert_eq!(report.written, 2);
    assert!(Scene::new("empty").patches.is_empty());
}

#[test]
fn named_cc_resolves_with_context_or_explains() {
    assert_eq!(resolve_named_cc("Rate", None, Some("Multi Chorus"), Some(Slot::Fx2)).unwrap().0, 113);
    // With no slot, the effect's first slot is used.
    let first = resolve_named_cc("Rate", None, Some("Multi Chorus"), None).unwrap().0;
    assert!(first > 0);
    assert_eq!(
        resolve_named_cc("Rate", None, Some("Nope"), None).err(),
        Some("no effect named \"Nope\"; see `list`".to_string())
    );
    assert_eq!(
        resolve_named_cc("PRESENCE", None, None, None).err(),
        Some("could not resolve \"PRESENCE\"; give --amp/--fx context, or see `list`".to_string())
    );
    let mut dev = MockEleven::new();
    let (cc, kind) = send_named_cc(&mut dev, "DIST BYPASS", 127, None, None, None, 1).unwrap();
    assert_eq!(cc, 25);
    assert_eq!(kind_summary(kind), "switch");
}

#[test]
fn cli_parses_bytes_addresses_and_values() {
    assert_eq!(parse_byte("0x1F"), Ok(0x1F));
    assert_eq!(parse_byte("ff"), Ok(0xFF));
    assert_eq!(parse_byte("+a"), Ok(0x0A));
    assert_eq!(parse_byte("100"), Err("invalid hex byte \"100\"".to_string()));
    assert_eq!(parse_byte(""), Err("invalid hex byte \"\"".to_string()));
    assert_eq!(parse_byte("0X1"), Err("invalid hex byte \"0X1\"".to_string()));
    assert_eq!(parse_addr("11 21 0D"), Ok(vec![0x11, 0x21, 0x0D]));
    assert_eq!(parse_addr(" 0x11,,21 "), Ok(vec![0x11, 0x21]));
    assert_eq!(parse_addr("11 zz 0D"), Err("invalid hex byte \"zz\"".to_string()));
    assert_eq!(parse_addr(" , "), Err("empty address".to_string()));
    assert_eq!(parse_cc_value("ON"), Ok(127));
    assert_eq!(parse_cc_value("off"), Ok(0));
    assert_eq!(parse_cc_value("64"), Ok(64));
    assert_eq!(parse_cc_value("128"), Err("value 128 out of range (0-127, or on/off)".to_string()));
    assert_eq!(parse_cc_value("x"), Err("bad value \"x\"".to_string()));
    assert_eq!(parse_cc_value("70000"), Err("bad value \"70000\"".to_string()));
    assert_eq!(parse_slot("FX1"), Ok(Slot::Fx1));
    assert_eq!(parse_slot("Mod"), Ok(Slot::Mod));
    assert_eq!(parse_slot("Fx3"), Err("unknown slot \"fx3\" (expected mod, fx1, or fx2)".to_string()));
    assert_eq!(to_ascii_lower("AbÇ"), "abÇ");
}

#[test]
fn cli_labels_names_and_kinds() {
    assert_eq!(trailing_name(&[0x01, b'A', b'b', 0x00, 0x00]), "Ab");
    assert_eq!(trailing_name(&[b'x', 0x02, b'N', b'a', b'm', b'e', 0x00]), "Name");
    assert_eq!(trailing_name(&[0x00, 0x01]), "");
    assert_eq!(kind_label(Kind::Knob), "knob 0-127");
    assert_eq!(kind_label(onoff("X", 1).kind), "switch <64=Off >=64=On");
    assert_eq!(kind_summary(Kind::Knob), "knob");
    assert_eq!(hex(&[0x11, 0x0D]), "11 0D");
    assert_eq!(hex4([0x00, 0x01, 0xAB, 0xFF]), "00 01 AB FF");
}

#[test]
fn chain_tokens_round_trip() {
    for id in 1u8..=13 {
        assert_eq!(chain_block_id(chain_token(id)), Some(id));
    }
    assert_eq!(chain_block_id("Compressor"), Some(0x01));
    assert_eq!(chain_block_id("TREM"), Some(0x0C));
    assert_eq!(chain_block_id("bogus"), None);
    assert_eq!(chain_token(0x2A), "?");
}

#[test]
fn move_within_drags_an_item_down() {
    let mut v = vec![0, 1, 2, 3, 4];
    move_within(&mut v, 1, 3);
    assert_eq!(v, vec![0, 2, 3, 1, 4]);
}

#[test]
fn move_within_drags_an_item_up() {
    let mut v = vec![0, 1, 2, 3, 4];
    move_within(&mut v, 3, 1);
    assert_eq!(v, vec![0, 3, 1, 2, 4]);
}

#[test]
fn move_within_ignores_noop_and_out_of_range() {
    let mut v = vec![0, 1, 2];
    move_within(&mut v, 1, 1);
    assert_eq!(v, vec![0, 1, 2]);
    move_within(&mut v, 0, 9);
    assert_eq!(v, vec![0, 1, 2]);
    move_within(&mut v, 9, 0);
    assert_eq!(v, vec![0, 1, 2]);
}

#[test]
fn tab_keys_round_trip_and_edit_is_transient() {
    for t in [Tab::Patches, Tab::Presets, Tab::Library, Tab::Scene] {
        let key = t.as_key().expect("main tab has a key");
        assert!(Tab::from_key(key) == Some(t));
    }
    assert!(Tab::Edit.as_key().is_none());
    assert!(Tab::from_key("edit").is_none());
    assert!(Tab::from_key("bogus").is_none());
}

#[test]
fn eleven_editor_tabs_round_trip() {
    for t in [
        ElevenTab::Patches,
        ElevenTab::Presets,
        ElevenTab::Library,
        ElevenTab::Scene,
        ElevenTab::Inspect,
    ] {
        assert!(ElevenTab::from_key(t.as_key()) == Some(t));
    }
    assert!(ElevenTab::from_key("Patches").is_none());
}

#[test]
fn speaker_cabinets_are_described() {
    assert_eq!(speaker_cab_desc(0), "Small open-back 1×10, dynamic mic");
    assert_eq!(speaker_cab_desc(11), "Large dual 4×12 stack, condenser mic");
    assert_eq!(speaker_cab_desc(12), "");
    assert_eq!(speaker_cab_desc(-1), "");
}

#[test]
fn settings_locations_are_per_device() {
    if let Some(p) = gx700::patch_path("a.b") {
        assert_eq!(p.parts, vec!["gx700".to_string(), "patches".to_string(), "a_b.json".to_string()]);
    }
    if let Some(p) = gx700::scene_path("Live Set") {
        assert_eq!(p.parts[2], "Live Set.json");
    }
    if let Some(p) = gx700::patches_dir() {
        assert_eq!(p.parts, vec!["gx700".to_string(), "patches".to_string()]);
    }
    if let Some(p) = gx700::scenes_dir() {
        assert_eq!(p.parts[1], "scenes");
    }
    if let Some(p) = gx700::gx700_dir() {
        assert_eq!(p.parts, vec!["gx700".to_string()]);
    }
    if let Some(p) = gx700_gui::blocks_dir() {
        assert_eq!(p.parts[1], "blocks");
    }
    if let Some(p) = gx700_gui::config_path() {
        assert!(p.to_path_buf().ends_with("gx700/gui-config.json"));
    }
    if let Some(p) = gx700_gui::cache_path() {
        assert_eq!(p.parts[1], "bank-cache.json");
    }
    if let Some(p) = eleven_gui::config_path() {
        assert_eq!(p.parts, vec!["eleven".to_string(), "gui-config.json".to_string()]);
    }
    if let Some(p) = eleven_gui::cache_path() {
        assert_eq!(p.parts[1], "bank-cache.json");
    }
}

#[test]
fn located_keeps_the_root_and_joins_each_component() {
    assert!(located(None, vec!["a".to_string()]).is_none());
    let root = std::path::PathBuf::from("/cfg/rackctl");
    let p = located(Some(root.clone()), vec!["gx700".to_string(), "patches".to_string()]).unwrap();
    assert_eq!(p.root, root);
    assert_eq!(p.to_path_buf(), std::path::PathBuf::from("/cfg/rackctl/gx700/patches"));
    let bare = located(Some(root.clone()), Vec::new()).unwrap();
    assert_eq!(bare.to_path_buf(), root);
}

#[test]
fn chain_tokens_round_trip_in_any_case() {
    for id in 1u8..=13 {
        let t = chain_token(id);
        assert_eq!(chain_block_id(t), Some(id));
        assert_eq!(chain_block_id(&t.to_ascii_uppercase()), Some(id));
    }
    assert_eq!(chain_token(0), "?");
    assert_eq!(chain_block_id("?"), None);
}

#[test]
fn patch_directory_leaves_the_edit_buffer() {
    let mut dev = MockEleven::new();
    restore(&mut dev, 12, &mock_patch("Saved", 4)).unwrap();
    let user = patch_directory(&mut dev, 0, 13).unwrap();
    assert_eq!(user[12], (12, "Saved".to_string()));
    restore(&mut dev, 0, &mock_patch("Edited", 2)).unwrap();
    let listed = patch_directory(&mut dev, FACTORY_BANK, 13).unwrap();
    assert_eq!(listed[12], (12, "Saved".to_string()));
    // No Program Change: the edit buffer still holds the last restore.
    assert_eq!(capture(&mut dev, None).unwrap().name, "Edited");
}

#[test]
fn startup_tab_restores_the_saved_tab() {
    assert_eq!(gx700_gui::startup_tab(Some("presets"), false), Tab::Presets);
    assert_eq!(gx700_gui::startup_tab(None, false), Tab::Patches);
    assert_eq!(gx700_gui::startup_tab(Some("bogus"), false), Tab::Patches);
    assert_eq!(gx700_gui::startup_tab(Some("presets"), true), Tab::Scene);
    assert_eq!(gx700_gui::startup_tab(Some("library"), true), Tab::Library);
    assert_eq!(gx700_gui::startup_tab(None, true), Tab::Scene);
}

#[test]
fn library_listing_keeps_json_stems_sorted() {
    let names = vec![
        "b.json".to_string(),
        "notes.txt".to_string(),
        ".json".to_string(),
        "a.b.json".to_string(),
        "A.json".to_string(),
        "x.JSON".to_string(),
        "a.json".to_string(),
    ];
    assert_eq!(sorted_json_stems(names), vec!["A", "a", "a.b", "b"]);
    assert_eq!(json_stem("tone.json"), Some("tone".to_string()));
    assert_eq!(json_stem(".json"), None);
    assert_eq!(json_stem("json"), None);
}

#[test]
fn backup_sweep_stops_when_the_bank_wraps() {
    let mut sweep = rackctl::manage::BackupSweep::new();
    assert!(sweep.captured(0, &"Big Blue".to_string()));
    assert!(sweep.captured(1, &"Crunch".to_string()));
    assert!(!sweep.captured(2, &"Big Blue".to_string()));
    assert_eq!(sweep.saved, 2);
    assert_eq!(sweep.first.as_deref(), Some("Big Blue"));
}

#[test]
fn scene_operations_report_each_slot_in_order() {
    let mut dev = MockEleven::new();
    let mut log = ProgressLog::new();
    let scene = capture_scene(&mut dev, "Gig", 20, &mut log).unwrap();
    assert_eq!(log.entries.len(), scene.patches.len());
    assert_eq!(log.entries[0], (0, "Big Blue".to_string()));
    assert_eq!(log.entries[7], (7, "Austin Rotary".to_string()));
    let mut target = MockEleven::new();
    let mut restored = ProgressLog::new();
    restore_scene(&mut target, &scene, &mut restored).unwrap();
    assert_eq!(restored.entries, log.entries);
}
