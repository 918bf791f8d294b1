//! The device side: the mock bank, the transport facade, the `SysEx` codec and
//! the host messages.

use rackctl::backup::{BlockData, ParamRecord, PatchBackup};
use rackctl::bank::{mock_patch, ElevenDevice, MockEleven};
use rackctl::device::{Eleven, MockTransport, Transport};
use rackctl::error::Error;
use rackctl::sysex::{
    build_identity_request, build_read_request, build_write, parse, parse_identity_reply,
    DEFAULT_DEVICE_ID, DIGIDESIGN_ID, READ_REPLY, READ_REQUEST, WRITE,
};
use rackctl::value::RawValue;
use rackctl::wire::{
    aggregate_image_of, ascii_name, assemble_capture, block_reply, cc_message, format_report,
    param_writes, patch_block_probe, scan_reply, select_messages, store_messages, value_reply,
    write_block_message, write_param_message,
};

const AMP_GAIN: [u8; 3] = [0x11, 0x21, 0x0D];

#[test]
fn mock_bank_selects_captures_and_stores() {
    let mut m = MockEleven::new();
    assert_eq!(m.read_block(&[0x04, 0, 0]).unwrap(), b"Big Blue\0");
    assert_eq!(m.read_block(&[0x04, 0, 2]).unwrap(), b"Bolder Axe\0");
    m.select_rig(0, 2).unwrap();
    assert_eq!(m.capture_patch().unwrap().name, "Bolder Axe");
    m.store(10, "My Patch").unwrap();
    assert_eq!(m.read_block(&[0x04, 0, 10]).unwrap(), b"My Patch\0");
    let want = mock_patch("Bolder Axe", 2).block(0x01).unwrap().to_vec();
    assert_eq!(m.read_block(&[0x00, 2]).unwrap(), want);
}

#[test]
fn mock_patch_fills_to_the_image_length() {
    let p = mock_patch("Big Blue", 0);
    let agg = p.block(0x01).unwrap();
    assert_eq!(agg.len(), 48);
    assert_eq!(&agg[..9], b"Big Blue\0");
    // The fill is the seed plus the byte's position.
    assert_eq!(agg[9], 9);
    assert_eq!(agg[47], 47);
    let q = mock_patch("x", 250);
    assert_eq!(q.block(0x01).unwrap()[2], 252);
    assert_eq!(q.block(0x01).unwrap()[10], 4); // 250 + 10 wraps
    assert_eq!(p.block(0x05).unwrap(), b"Big Blue\0");
}

#[test]
fn mock_restore_then_direct_slot_read_gives_the_aggregate() {
    let mut m = MockEleven::default();
    let p = mock_patch("Restored", 7);
    m.restore_patch(20, &p).unwrap();
    assert_eq!(m.read_block(&[0x00, 20]).unwrap(), p.block(0x01).unwrap());
    assert_eq!(m.capture_patch().unwrap(), p);
    // An unknown slot or an odd address reads as empty.
    assert_eq!(m.read_block(&[0x00, 99]).unwrap(), Vec::<u8>::new());
    assert_eq!(m.read_block(&[0x04, 1, 0]).unwrap(), b"\0");
    assert_eq!(m.read_block(&[1, 2, 3, 4]).unwrap(), Vec::<u8>::new());
    // A slot beyond a byte is not kept.
    m.restore_patch(300, &mock_patch("Far", 1)).unwrap();
    assert_eq!(m.capture_patch().unwrap().name, "Far");
}

#[test]
fn mock_factory_bank_is_selected_by_bank_one() {
    let mut m = MockEleven::new();
    m.store(3, "Renamed").unwrap();
    m.select_rig(1, 3).unwrap();
    assert_eq!(m.capture_patch().unwrap().name, "Browntown");
    m.select_rig(0, 3).unwrap();
    assert_eq!(m.capture_patch().unwrap().name, "Renamed");
    // Selecting an empty slot keeps the buffer.
    m.select_rig(0, 60).unwrap();
    assert_eq!(m.capture_patch().unwrap().name, "Renamed");
    assert!(m.write_param(&[0x49, 0, 1], 5).is_ok());
    assert!(m.send_cc(1, 13, 64).is_ok());
}

#[test]
fn read_after_write_decodes_the_word() {
    let mut dev = Eleven::new(MockTransport::new());
    let addr = [0x11, 0x21, 0x0D];
    dev.write(&addr, 0x6D).unwrap();
    assert_eq!(dev.read(&addr).unwrap(), 0x6D);
    assert_eq!(dev.read_raw(&addr).unwrap().as_bytes(), &[0x6D, 0, 0, 0, 0]);
}

#[test]
fn scan_returns_written_addresses() {
    let mut dev = Eleven::new(MockTransport::new());
    dev.write(&[0x11, 0x21, 0x00], 0x40).unwrap();
    dev.write(&[0x11, 0x21, 0x0D], 0x6D).unwrap();
    let addrs = vec![vec![0x11, 0x21, 0x00], vec![0x11, 0x21, 0x0D]];
    let got = dev.scan(&addrs).unwrap();
    assert_eq!(
        got,
        vec![
            (vec![0x11, 0x21, 0x00], RawValue::encode(0x40)),
            (vec![0x11, 0x21, 0x0D], RawValue::encode(0x6D)),
        ]
    );
}

#[test]
fn unwritten_address_times_out_and_rewrite_replaces() {
    let mut t = MockTransport::new();
    assert!(matches!(t.read(&[1, 2]), Err(Error::Timeout)));
    t.write(&[1, 2], &RawValue::encode(5)).unwrap();
    t.write(&[1, 2], &RawValue::encode(9)).unwrap();
    assert_eq!(t.read(&[1, 2]).unwrap().decode(), 9);
    let got = t.scan(&[vec![3], vec![1, 2]]).unwrap();
    assert_eq!(got, vec![(vec![1, 2], RawValue::encode(9))]);
    let mut dev = Eleven::new(t);
    dev.write_raw(&[7], &RawValue::from_bytes([1, 1, 0, 0, 0])).unwrap();
    assert_eq!(dev.read(&[7]).unwrap(), 129);
    let t = dev.into_transport();
    assert_eq!(t.clone().read(&[7]).unwrap().decode(), 129);
}

#[test]
fn value_codec_round_trips() {
    let v = RawValue::encode(0x7_FFFF_FFFF);
    assert_eq!(v.as_bytes(), &[0x7f, 0x7f, 0x7f, 0x7f, 0x7f]);
    assert_eq!(v.decode(), 0x7_FFFF_FFFF);
    assert_eq!(RawValue::from_bytes([0x80, 0, 0, 0, 0]).decode(), 0);
}

#[test]
fn read_request_round_trips_through_parse() {
    let msg = build_read_request(DEFAULT_DEVICE_ID, &AMP_GAIN);
    assert_eq!(msg, vec![0xF0, 0x13, 0x0B, 0x0F, 0x01, 0x11, 0x21, 0x0D, 0xF7]);
    let parsed = parse(&msg).unwrap();
    assert_eq!(parsed.device_id, DEFAULT_DEVICE_ID);
    assert_eq!(parsed.opcode, READ_REQUEST);
    assert_eq!(parsed.payload, AMP_GAIN);
    assert_eq!(parsed.value_at(&AMP_GAIN), None);
}

#[test]
fn read_reply_value_is_extracted() {
    let reply = [
        0xF0, 0x13, 0x0B, 0x0F, 0x12, 0x11, 0x21, 0x0D, 0x6D, 0x00, 0x00, 0x00, 0x10, 0xF7,
    ];
    let parsed = parse(&reply).unwrap();
    assert_eq!(parsed.opcode, READ_REPLY);
    let value = parsed.value_at(&AMP_GAIN).expect("value present");
    assert_eq!(value.as_bytes(), &[0x6D, 0x00, 0x00, 0x00, 0x10]);
    assert_eq!(value.decode(), 0x6D | (0x10u64 << 28));
}

#[test]
fn write_frame_has_value_payload() {
    let value = RawValue::from_bytes([0x6D, 0, 0, 0, 0x10]);
    let msg = build_write(DEFAULT_DEVICE_ID, &AMP_GAIN, &value);
    let parsed = parse(&msg).unwrap();
    assert_eq!(parsed.opcode, WRITE);
    assert_eq!(parsed.value_at(&AMP_GAIN), Some(value));
}

#[test]
fn parse_rejects_wrong_manufacturer() {
    let mut msg = build_read_request(DEFAULT_DEVICE_ID, &AMP_GAIN);
    if let Some(b) = msg.get_mut(1) {
        *b = 0x41;
    }
    assert!(matches!(parse(&msg), Err(Error::Sysex(_))));
}

#[test]
fn parse_rejects_wrong_model() {
    let mut msg = build_read_request(DEFAULT_DEVICE_ID, &AMP_GAIN);
    if let Some(b) = msg.get_mut(2) {
        *b = 0x0C;
    }
    assert!(matches!(parse(&msg), Err(Error::Sysex(_))));
}

#[test]
fn parse_rejects_unframed_and_empty() {
    assert!(matches!(parse(&[0x13, 0x0B]), Err(Error::Sysex(_))));
    assert!(matches!(parse(&[0xF0, 0xF7]), Err(Error::Sysex(_))));
}

#[test]
fn identity_reply_decodes() {
    let reply = [
        0xF0, 0x7E, 0x0F, 0x06, 0x02, 0x13, 0x0B, 0x00, 0x01, 0x00, 0x30, 0x31, 0x35, 0x37, 0xF7,
    ];
    let id = parse_identity_reply(&reply).unwrap();
    assert_eq!(id.device_id, 0x0F);
    assert_eq!(id.manufacturer, DIGIDESIGN_ID);
    assert_eq!(id.family, 0x000B);
    assert_eq!(id.model, 0x0001);
    assert_eq!(id.version, "0157");
    assert!(parse_identity_reply(&build_identity_request()).is_err());
    assert_eq!(build_identity_request(), vec![0xF0, 0x7E, 0x7F, 0x06, 0x01, 0xF7]);
}

#[test]
fn host_messages_have_the_documented_bytes() {
    assert_eq!(cc_message(1, 13, 64), [0xB0, 13, 64]);
    assert_eq!(cc_message(16, 200, 255), [0xBF, 0x48, 0x7F]);
    assert_eq!(cc_message(0, 1, 1), [0xB0, 1, 1]);
    assert_eq!(select_messages(1, 5), ([0xB0, 0x20, 1], [0xC0, 5]));
    assert_eq!(select_messages(0, 200), ([0xB0, 0x20, 0], [0xC0, 0x48]));
    assert_eq!(
        write_block_message(0x0F, 0x05, b"Hi"),
        vec![0xF0, 0x13, 0x0B, 0x0F, 0x00, 0x05, b'H', b'i', 0xF7]
    );
    assert_eq!(
        write_param_message(0x0F, &[0x49, 0x00, 0x0D], 100),
        vec![0xF0, 0x13, 0x0B, 0x0F, 0x00, 0x11, 0x49, 0x00, 0x0D, 100, 0, 0, 0, 0x10, 0xF7]
    );
}

#[test]
fn store_sequence_orders_the_slot_bytes_per_message() {
    let msgs = store_messages(0x0F, 134, "Ab\u{e9}\tc");
    let (hi, lo) = (1u8, 6u8);
    assert_eq!(msgs.len(), 4);
    assert_eq!(msgs[0], vec![0xF0, 0x13, 0x0B, 0x0F, 0x00, 0x05, b'A', b'b', b'c', 0x00, 0xF7]);
    assert_eq!(msgs[1], vec![0xF0, 0x13, 0x0B, 0x0F, 0x00, 0x03, lo, hi, 0xF7]);
    assert_eq!(
        msgs[2],
        vec![0xF0, 0x13, 0x0B, 0x0F, 0x00, 0x04, hi, lo, b'A', b'b', b'c', 0x00, 0xF7]
    );
    assert_eq!(msgs[3], vec![0xF0, 0x13, 0x0B, 0x0F, 0x00, 0x02, hi, lo, 0xF7]);
    let long = store_messages(0x0F, 0, "abcdefghijklmnopqrstuvwxyz");
    assert_eq!(&long[0][6..22], b"abcdefghijklmnop");
    assert_eq!(long[0][22], 0);
}

#[test]
fn replies_match_their_request() {
    let reply = [0xF0, 0x13, 0x0B, 0x0F, 0x12, 0x05, b'B', b'i', b'g', 0x00, 0xF7];
    assert_eq!(block_reply(&reply, &[0x05]), Some(vec![b'B', b'i', b'g', 0x00]));
    assert_eq!(block_reply(&reply, &[0x04]), None);
    assert_eq!(block_reply(&reply, &[0x05, b'B', b'i', b'g', 0, 1]), None);
    let request = build_read_request(0x0F, &[0x05]);
    assert_eq!(block_reply(&request, &[0x05]), None);
    let vr = [0xF0, 0x13, 0x0B, 0x0F, 0x12, 0x11, 0x21, 0x0D, 0x6D, 0, 0, 0, 0x10, 0xF7];
    assert_eq!(value_reply(&vr, &AMP_GAIN), Some(RawValue::from_bytes([0x6D, 0, 0, 0, 0x10])));
    assert_eq!(value_reply(&vr, &[0x11, 0x21, 0x0E]), None);
    assert_eq!(
        scan_reply(&vr),
        Some((vec![0x11, 0x21, 0x0D], RawValue::from_bytes([0x6D, 0, 0, 0, 0x10])))
    );
    assert_eq!(scan_reply(&[0xF0, 0x13, 0x0B, 0x0F, 0x12, 1, 2, 0xF7]), None);
}

#[test]
fn change_reports_format_as_address_value_and_word() {
    assert_eq!(
        format_report(&[0x11, 0x21, 0x0D, 0x6D, 0, 0, 0, 0x10]),
        "11 21 0D -> 6D 00 00 00 10  (word 0x10000006d)"
    );
    assert_eq!(format_report(&[0x01, 0x02]), "(raw) 01 02");
    assert_eq!(format_report(&[0, 0, 0, 0, 0]), " -> 00 00 00 00 00  (word 0x0)");
}

#[test]
fn capture_keeps_answered_blocks_and_names_the_patch() {
    let probe = patch_block_probe();
    assert_eq!(probe.len(), 38);
    assert_eq!(&probe[..5], &[0x01, 0x05, 0x07, 0x08, 0x1E]);
    assert_eq!(probe[37], 0x3F);
    let p = assemble_capture(vec![
        rackctl::backup::BlockData { id: 0x01, bytes: vec![1, 2] },
        rackctl::backup::BlockData { id: 0x05, bytes: b" Big Blue \x00\x7f".to_vec() },
        rackctl::backup::BlockData { id: 0x07, bytes: vec![] },
        rackctl::backup::BlockData { id: 0x21, bytes: vec![1, 5, 6, 7] },
    ]);
    assert_eq!(p.name, "Big Blue");
    let ids: Vec<u8> = p.blocks.iter().map(|b| b.id).collect();
    assert_eq!(ids, vec![0x01, 0x05, 0x21]);
    assert_eq!(assemble_capture(vec![]).name, "");
    assert_eq!(ascii_name(b"\x01Crunch\x00zz"), "Crunch");
}

#[test]
fn restore_prefers_the_aggregate_and_replays_by_target() {
    let with = rackctl::backup::PatchBackup::new("a", vec![rackctl::backup::BlockData { id: 0x01, bytes: vec![9, 9] }]);
    assert_eq!(aggregate_image_of(&with), Some(&[9u8, 9][..]));
    let empty_agg = rackctl::backup::PatchBackup::new("b", vec![rackctl::backup::BlockData { id: 0x01, bytes: vec![] }]);
    assert_eq!(aggregate_image_of(&empty_agg), None);
    let want = vec![
        rackctl::backup::ParamRecord { value: 55, index: 0x56, target: 0x0b },
        rackctl::backup::ParamRecord { value: 43, index: 0x4c, target: 0x02 },
        rackctl::backup::ParamRecord { value: 1, index: 0x10, target: 0x77 },
    ];
    let live = vec![
        rackctl::backup::ParamRecord { value: 0, index: 0x1f, target: 0x02 },
        rackctl::backup::ParamRecord { value: 0, index: 0x1e, target: 0x0b },
    ];
    let writes = param_writes(0x21, &want, &live);
    assert_eq!(
        writes,
        vec![
            ([0x11, 0x21, 0x1e], RawValue::from_bytes([55, 0, 0, 0, 0x10])),
            ([0x11, 0x21, 0x1f], RawValue::from_bytes([43, 0, 0, 0, 0x10])),
        ]
    );
}

#[test]
fn restore_plan_prefers_the_packed_image() {
    let p = rackctl::backup::PatchBackup::new(
        "Lead",
        vec![
            rackctl::backup::BlockData { id: 0x05, bytes: b"Lead\0".to_vec() },
            rackctl::backup::BlockData { id: 0x01, bytes: vec![1, 2, 3] },
        ],
    );
    assert_eq!(rackctl::wire::restore_plan(&p), rackctl::wire::RestorePlan::Image(vec![1, 2, 3]));
}

#[test]
fn restore_plan_replays_only_restorable_blocks() {
    let p = rackctl::backup::PatchBackup::new(
        "Lead",
        vec![
            rackctl::backup::BlockData { id: 0x01, bytes: Vec::new() },
            rackctl::backup::BlockData { id: 0x05, bytes: b"Lead\0".to_vec() },
            rackctl::backup::BlockData { id: 0x22, bytes: vec![9, 9] },
            rackctl::backup::BlockData { id: 0x04, bytes: vec![1] },
            rackctl::backup::BlockData { id: 0x21, bytes: vec![1, 64, 3, 7] },
            rackctl::backup::BlockData { id: 0x21, bytes: vec![0] },
            rackctl::backup::BlockData { id: 0x08, bytes: vec![4, 5] },
            rackctl::backup::BlockData { id: 0x34, bytes: vec![2, 1, 1, 1, 2, 2, 2] },
        ],
    );
    assert_eq!(
        rackctl::wire::restore_plan(&p),
        rackctl::wire::RestorePlan::Blocks(vec![
            rackctl::wire::BlockStep::Whole { id: 0x05, bytes: b"Lead\0".to_vec() },
            rackctl::wire::BlockStep::Params { id: 0x21, want: vec![rackctl::backup::ParamRecord { value: 64, index: 3, target: 7 }] },
            rackctl::wire::BlockStep::Whole { id: 0x08, bytes: vec![4, 5] },
        ])
    );
}
