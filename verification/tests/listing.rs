use rackctl::listing::{catalog_listing, info_lines};

fn row(name: &str, cc: u8, kind: &str) -> String {
    format!("  {:<22} CC {:>3}   {}", name, cc, kind)
}

fn fx_row(name: &str, ccs: &str, kind: &str) -> String {
    format!("  {:<16} {:<26} {}", name, ccs, kind)
}

#[test]
fn listing_without_filter_starts_with_the_general_section() {
    let lines = catalog_listing(None);
    assert_eq!(lines[0], "General/Frequently Used Controls");
    assert_eq!(lines[1], row("DIST BYPASS", 25, "switch <64=Off >=64=On"));
    assert_eq!(lines[1], "  DIST BYPASS            CC  25   switch <64=Off >=64=On");
    assert!(lines.iter().any(|l| l == "\nAmplifier (applies to all amps)"));
    assert!(lines.iter().any(|l| l.starts_with("\nCabinets:    ")));
    assert!(lines.iter().any(|l| l.starts_with("Microphones: ")));
    assert!(lines.iter().any(|l| l.starts_with("Mic position: ") && l.contains(" / ")));
    assert!(lines.iter().any(|l| l == "\nAmp: Tweed Lux"));
    assert!(lines.iter().any(|l| l == "\nEffect: Roto Speaker   (slots: MOD/FX1/FX2)"));
}

#[test]
fn listing_filter_keeps_matching_effects_only() {
    let lines = catalog_listing(Some("roto"));
    let expected = vec![
        "\nEffect: Roto Speaker   (slots: MOD/FX1/FX2)".to_owned(),
        fx_row("Bypass", "MOD:50 FX1:63 FX2:86", "switch <64=Off >=64=On"),
        fx_row("Speed", "MOD:61 FX1:20 FX2:113", "stepped (3 positions)"),
        fx_row("Balance", "MOD:52 FX1:42 FX2:114", "knob 0-127"),
        fx_row("Type", "MOD:53 FX1:60 FX2:115", "stepped (8 positions)"),
    ];
    assert_eq!(lines, expected);
    assert_eq!(lines[2], "  Speed            MOD:61 FX1:20 FX2:113      stepped (3 positions)");
}

#[test]
fn listing_filter_ignores_ascii_case() {
    assert_eq!(catalog_listing(Some("ROTO")), catalog_listing(Some("roto")));
    assert_eq!(catalog_listing(Some("Tweed LUX")), catalog_listing(Some("tweed lux")));
}

#[test]
fn listing_filter_on_an_amp() {
    let lines = catalog_listing(Some("tweed lux"));
    assert_eq!(lines[0], "\nAmp: Tweed Lux");
    assert_eq!(lines[1], row("TONE", 13, "knob 0-127"));
    assert_eq!(lines.len(), 6);
}

#[test]
fn listing_single_slot_effect_shows_plain_cc() {
    let lines = catalog_listing(Some("black op"));
    assert_eq!(lines[0], "\nEffect: Black Op Distortion   (slots: fixed)");
    assert_eq!(lines[2], fx_row("Distortion", "CC 27", "knob 0-127"));
}

#[test]
fn listing_filter_without_match_is_empty() {
    assert!(catalog_listing(Some("no such model")).is_empty());
}

#[test]
fn info_on_a_stepped_multi_slot_control() {
    let lines = info_lines("speed").unwrap();
    assert_eq!(
        lines,
        vec![
            "Roto Speaker / Speed  (MIDI CC MOD=61 FX1=20 FX2=113)",
            "  stepped:",
            "      0-31   Slow",
            "     32-95   Brake",
            "     96-127  Fast",
        ]
    );
}

#[test]
fn info_on_an_amp_control_and_a_single_slot_effect() {
    let lines = info_lines("TONE").unwrap();
    assert_eq!(lines[0], "Tweed Lux / TONE  (MIDI CC 13)");
    assert_eq!(lines[1], "  knob, raw 0-127");
    assert!(lines.iter().any(|l| l == "Green JRC Overdrive / Tone  (MIDI CC 78)"));
}

#[test]
fn info_on_a_switch() {
    let lines = info_lines("Bypass").unwrap();
    assert_eq!(lines[0], "Black Op Distortion / Bypass  (MIDI CC 25)");
    assert_eq!(lines[1], "  switch: 0-63 = Off, 64-127 = On");
    assert!(lines.iter().any(|l| l == "Roto Speaker / Bypass  (MIDI CC MOD=50 FX1=63 FX2=86)"));
}

#[test]
fn info_on_a_name_only_the_general_section_has_is_an_error() {
    assert_eq!(
        info_lines("amp bypass"),
        Err("no parameter named \"amp bypass\"; try `list` to see the catalog".to_owned())
    );
}

#[test]
fn info_on_an_unknown_name_is_an_error() {
    assert_eq!(
        info_lines("nope"),
        Err("no parameter named \"nope\"; try `list` to see the catalog".to_owned())
    );
}
