//! The Eleven Rack's management protocol as bytes: the MIDI messages a host
//! sends (Control Change, Bank Select + Program Change, the store sequence,
//! block and parameter writes), how read replies are matched to their request,
//! what a patch capture keeps, and how a backup is written back.

use vstd::prelude::*;
use vstd::slice::slice_to_vec;
use vstd::utf8::encode_utf8;

use crate::backup::{
    block_views, block_with_id, param_records_spec, restorable_id, restore_action_spec,
    safe_flat_block, BlockData, BlockView, ParamRecord, PatchBackup, PatchBackupView,
    RestoreAction, AGGREGATE_BLOCK, NAME_BLOCK,
};
use crate::manage::{block_name, payload_name, printable_byte};
use crate::search::{find_first, lemma_first_at, lemma_first_none};
use crate::sysex::{
    build, frame, parse, parse_spec, value_at_spec, DigiMessageView, READ_REPLY, WRITE,
};
use crate::text::{hex, hex_lower_digit, hex_spaced, push_char};
use crate::value::{word_of, RawValue, VALUE_LEN};

verus! {

// ---- the blocks a capture reads ----

/// The block ids probed when capturing a patch: the aggregate `0x01` (kept
/// for reference), name `0x05`, config `0x07`, FX chain `0x08`, then the
/// model-dependent parameter blocks `0x1E..=0x3F`.
pub open spec fn probe_ids() -> Seq<u8> {
    seq![0x01u8, 0x05u8, 0x07u8, 0x08u8] + Seq::new(34, |i: int| (0x1E + i) as u8)
}

/// The block ids probed when capturing a patch.
pub fn patch_block_probe() -> (r: Vec<u8>)
    ensures
        r@ == probe_ids(),
{
    let mut ids: Vec<u8> = vec![0x01, 0x05, 0x07, 0x08];
    let mut b: u8 = 0x1E;
    while b <= 0x3F
        invariant
            0x1E <= b <= 0x40,
            ids@ =~= seq![0x01u8, 0x05u8, 0x07u8, 0x08u8] + Seq::new(
                (b - 0x1E) as nat,
                |i: int| (0x1E + i) as u8,
            ),
        decreases 0x40 - b,
    {
        ids.push(b);
        b += 1;
    }
    ids
}

/// Extract a printable-ASCII patch name from a name-block payload (trailing NUL
/// and padding dropped).
pub fn ascii_name(payload: &[u8]) -> (r: String)
    ensures
        r@ == payload_name(payload@),
{
    block_name(payload)
}

/// The blocks a capture keeps: the ones that answered with a payload, in probe
/// order.
pub open spec fn non_empty_block() -> spec_fn(BlockView) -> bool {
    |b: BlockView| b.bytes.len() > 0
}

/// The patch a capture builds from the blocks that answered: the non-empty
/// ones, named by the first name block.
pub open spec fn captured(answers: Seq<BlockView>) -> PatchBackupView {
    let blocks = answers.filter(non_empty_block());
    PatchBackupView {
        name: match find_first(blocks, block_with_id(NAME_BLOCK)) {
            Some(b) => payload_name(b.bytes),
            None => Seq::empty(),
        },
        blocks,
    }
}

/// Assemble a captured patch from the blocks that answered the probe, in probe
/// order: empty answers are dropped, and the name comes from the name block.
pub fn assemble_capture(answers: Vec<BlockData>) -> (r: PatchBackup)
    ensures
        r@ == captured(block_views(answers@)),
{
    let ghost all = block_views(answers@);
    let mut blocks: Vec<BlockData> = Vec::new();
    let mut i: usize = 0;
    while i < answers.len()
        invariant
            i <= answers@.len(),
            all == block_views(answers@),
            all.len() == answers@.len(),
            block_views(blocks@) =~= all.take(i as int).filter(non_empty_block()),
        decreases answers@.len() - i,
    {
        proof {
            reveal_with_fuel(Seq::filter, 1);
            assert(all.take(i + 1).drop_last() =~= all.take(i as int));
            assert(all.take(i + 1).last() == answers@[i as int]@);
        }
        if answers[i].bytes.len() > 0 {
            blocks.push(answers[i].duplicate());
        }
        i += 1;
    }
    assert(all.take(all.len() as int) =~= all);
    let staged = PatchBackup::new("", blocks);
    let name = match staged.block(NAME_BLOCK) {
        Some(b) => ascii_name(b),
        None => String::new(),
    };
    let r = PatchBackup { name, blocks: staged.blocks };
    assert(r@ =~= captured(all));
    r
}

// ---- host messages ----

/// A Control Change on `channel` (`1..=16`; `0` is taken as `1`): `Bn <cc>
/// <value>`, data masked to seven bits.
pub open spec fn cc_message_spec(channel: u8, cc: u8, value: u8) -> Seq<u8> {
    let ch: u8 = if channel == 0 { 0 } else { (channel - 1) as u8 };
    seq![0xB0u8 | (ch & 0x0fu8), cc & 0x7fu8, value & 0x7fu8]
}

/// The MIDI Control Change message for `cc` = `value` on `channel`.
pub fn cc_message(channel: u8, cc: u8, value: u8) -> (r: [u8; 3])
    ensures
        r@ == cc_message_spec(channel, cc, value),
{
    let status: u8 = 0xB0 | (channel.saturating_sub(1) & 0x0f);
    let r = [status, cc & 0x7f, value & 0x7f];
    assert(r@ =~= cc_message_spec(channel, cc, value));
    r
}

/// Bank Select (`CC 32`; `1` is Factory, `0` User) then Program Change.
pub open spec fn select_messages_spec(bank: u8, program: u8) -> (Seq<u8>, Seq<u8>) {
    (seq![0xB0u8, 0x20u8, bank & 0x7fu8], seq![0xC0u8, program & 0x7fu8])
}

/// The two messages that select a patch.
pub fn select_messages(bank: u8, program: u8) -> (r: ([u8; 3], [u8; 2]))
    ensures
        (r.0@, r.1@) == select_messages_spec(bank, program),
{
    let a = [0xB0, 0x20, bank & 0x7f];
    let b = [0xC0, program & 0x7f];
    assert(a@ =~= select_messages_spec(bank, program).0);
    assert(b@ =~= select_messages_spec(bank, program).1);
    (a, b)
}

/// At most the first `n` elements of `s`.
pub open spec fn first_n<T>(s: Seq<T>, n: nat) -> Seq<T> {
    if s.len() <= n {
        s
    } else {
        s.take(n as int)
    }
}

/// The longest slot name the unit keeps.
pub const SLOT_NAME_LEN: usize = 16;

/// A slot name as stored: its printable-ASCII bytes, at most
/// [`SLOT_NAME_LEN`] of them.
pub open spec fn slot_name_bytes(name: Seq<char>) -> Seq<u8> {
    first_n(encode_utf8(name).filter(printable_byte()), SLOT_NAME_LEN as nat)
}

/// The slot's high and low seven-bit address bytes.
pub open spec fn slot_hi(slot: u16) -> u8 {
    ((slot >> 7u16) & 0x7fu16) as u8
}

/// The slot's low seven-bit address byte.
pub open spec fn slot_lo(slot: u16) -> u8 {
    (slot & 0x7fu16) as u8
}

/// The store sequence for `slot` under `name`: set the edit-buffer name
/// (`00 05 <name> 00`), save the content (`00 03 <lo> <hi>`, low byte first),
/// write the directory entry (`00 04 <hi> <lo> <name> 00`), commit (`00 02 <hi>
/// <lo>`).
pub open spec fn store_messages_spec(device_id: u8, slot: u16, name: Seq<char>) -> Seq<Seq<u8>> {
    let nm = slot_name_bytes(name);
    let hi = slot_hi(slot);
    let lo = slot_lo(slot);
    seq![
        frame(device_id, WRITE, seq![0x05u8] + nm + seq![0u8]),
        frame(device_id, WRITE, seq![0x03u8, lo, hi]),
        frame(device_id, WRITE, seq![0x04u8, hi, lo] + nm + seq![0u8]),
        frame(device_id, WRITE, seq![0x02u8, hi, lo]),
    ]
}

/// The printable-ASCII bytes of a name, at most [`SLOT_NAME_LEN`].
fn name_bytes(name: &str) -> (r: Vec<u8>)
    ensures
        r@ == slot_name_bytes(name@),
{
    let bytes = name.as_bytes();
    let ghost all = bytes@;
    let ghost pr = printable_byte();
    let mut out: Vec<u8> = Vec::new();
    let mut i: usize = 0;
    while i < bytes.len() && out.len() < SLOT_NAME_LEN
        invariant
            i <= bytes@.len(),
            all == bytes@,
            all == encode_utf8(name@),
            pr == printable_byte(),
            out@ == all.take(i as int).filter(pr),
            out@.len() <= SLOT_NAME_LEN,
        decreases bytes@.len() - i,
    {
        proof {
            reveal_with_fuel(Seq::filter, 1);
            assert(all.take(i + 1).drop_last() =~= all.take(i as int));
        }
        let b = bytes[i];
        if 0x20 <= b && b < 0x7f {
            out.push(b);
        }
        i += 1;
    }
    proof {
        lemma_filter_prefix_grows(all, pr, i as int, SLOT_NAME_LEN as nat);
    }
    out
}

/// Filtering a longer prefix keeps the shorter prefix's filter as a prefix; once
/// the filter of a prefix is `n` long, the first `n` kept elements are settled.
proof fn lemma_filter_prefix_grows(s: Seq<u8>, p: spec_fn(u8) -> bool, i: int, n: nat)
    requires
        0 <= i <= s.len(),
        s.take(i).filter(p).len() <= n,
        i == s.len() || s.take(i).filter(p).len() == n,
    ensures
        first_n(s.filter(p), n) == s.take(i).filter(p),
    decreases s.len() - i,
{
    if i == s.len() {
        assert(s.take(i) =~= s);
    } else {
        lemma_filter_take_prefix(s, p, i, s.len() as int);
        let a = s.take(i).filter(p);
        let b = s.filter(p);
        assert(s.take(s.len() as int) =~= s);
        assert(b.take(n as int) =~= a);
    }
}

/// The filter of a shorter prefix is a prefix of the filter of a longer one.
proof fn lemma_filter_take_prefix(s: Seq<u8>, p: spec_fn(u8) -> bool, i: int, j: int)
    requires
        0 <= i <= j <= s.len(),
    ensures
        s.take(i).filter(p).len() <= s.take(j).filter(p).len(),
        s.take(j).filter(p).take(s.take(i).filter(p).len() as int) == s.take(i).filter(p),
    decreases j - i,
{
    if i < j {
        lemma_filter_take_prefix(s, p, i, j - 1);
        reveal_with_fuel(Seq::filter, 1);
        assert(s.take(j).drop_last() =~= s.take(j - 1));
        let a = s.take(i).filter(p);
        let b = s.take(j - 1).filter(p);
        let c = s.take(j).filter(p);
        if p(s[j - 1]) {
            assert(c == b.push(s[j - 1]));
            assert(c.take(a.len() as int) =~= b.take(a.len() as int));
        } else {
            assert(c == b);
        }
    } else {
        assert(s.take(i).filter(p).take(s.take(i).filter(p).len() as int) =~= s.take(i).filter(p));
    }
}

/// The four messages of the store sequence for `slot` under `name`.
pub fn store_messages(device_id: u8, slot: u16, name: &str) -> (r: Vec<Vec<u8>>)
    ensures
        r@.map_values(|m: Vec<u8>| m@) == store_messages_spec(device_id, slot, name@),
{
    let hi: u8 = ((slot >> 7u16) & 0x7f) as u8;
    let lo: u8 = (slot & 0x7f) as u8;
    let nm = name_bytes(name);
    let mut named: Vec<u8> = nm.clone();
    named.push(0);
    let empty: [u8; 0] = [];
    let set_name: [u8; 1] = [0x05];
    let save: [u8; 3] = [0x03, lo, hi];
    let dir: [u8; 3] = [0x04, hi, lo];
    let commit: [u8; 3] = [0x02, hi, lo];
    let a = build(device_id, WRITE, &set_name, named.as_slice());
    let b = build(device_id, WRITE, &save, &empty);
    let c = build(device_id, WRITE, &dir, named.as_slice());
    let d = build(device_id, WRITE, &commit, &empty);
    let ghost nm = slot_name_bytes(name@);
    proof {
        assert(named@ =~= nm + seq![0u8]);
        assert(set_name@ + named@ =~= seq![0x05u8] + nm + seq![0u8]);
        assert(dir@ + named@ =~= seq![0x04u8, hi, lo] + nm + seq![0u8]);
        assert(save@ + empty@ =~= seq![0x03u8, lo, hi]);
        assert(commit@ + empty@ =~= seq![0x02u8, hi, lo]);
        assert(hi == slot_hi(slot));
        assert(lo == slot_lo(slot));
    }
    let r = vec![a, b, c, d];
    proof {
        let spec = store_messages_spec(device_id, slot, name@);
        assert(r@.map_values(|m: Vec<u8>| m@)[0] == spec[0]);
        assert(r@.map_values(|m: Vec<u8>| m@)[1] == spec[1]);
        assert(r@.map_values(|m: Vec<u8>| m@)[2] == spec[2]);
        assert(r@.map_values(|m: Vec<u8>| m@)[3] == spec[3]);
        assert(r@.map_values(|m: Vec<u8>| m@) =~= spec);
    }
    r
}

/// Write a whole block into the edit buffer: `00 <block> <payload>`.
pub fn write_block_message(device_id: u8, block: u8, payload: &[u8]) -> (r: Vec<u8>)
    ensures
        r@ == frame(device_id, WRITE, seq![block] + payload@),
{
    build(device_id, WRITE, &[block], payload)
}

/// The wire value of a knob setting: the value in the low byte, with the `0x10`
/// type tag in the last.
pub open spec fn knob_value(value: u8) -> Seq<u8> {
    seq![value, 0u8, 0u8, 0u8, 0x10u8]
}

/// The knob-setting wire value.
pub fn knob_raw(value: u8) -> (r: RawValue)
    ensures
        r@ == knob_value(value),
{
    let r = RawValue::from_bytes([value, 0, 0, 0, 0x10]);
    assert(r@ =~= knob_value(value));
    r
}

/// Set a live parameter by the address bytes after the `0x11` parameter prefix.
pub fn write_param_message(device_id: u8, addr: &[u8], value: u8) -> (r: Vec<u8>)
    ensures
        r@ == frame(device_id, WRITE, seq![0x11u8] + addr@ + knob_value(value)),
{
    let word = knob_raw(value);
    let mut full: Vec<u8> = vec![0x11];
    let mut i: usize = 0;
    while i < addr.len()
        invariant
            i <= addr@.len(),
            full@ == seq![0x11u8] + addr@.take(i as int),
        decreases addr@.len() - i,
    {
        full.push(addr[i]);
        i += 1;
        assert(full@ =~= seq![0x11u8] + addr@.take(i as int));
    }
    assert(addr@.take(addr@.len() as int) =~= addr@);
    crate::sysex::build_write(device_id, full.as_slice(), &word)
}

// ---- matching replies ----

/// The block payload a message answers for `addr`: a read reply whose payload
/// starts with the address, minus the address.
pub open spec fn block_reply_spec(msg: Seq<u8>, addr: Seq<u8>) -> Option<Seq<u8>> {
    match parse_spec(msg) {
        Ok(m) => if m.opcode == READ_REPLY && addr.len() <= m.payload.len() && m.payload.take(
            addr.len() as int,
        ) == addr {
            Some(m.payload.skip(addr.len() as int))
        } else {
            None
        },
        Err(_) => None,
    }
}

/// If `msg` is the read reply to a block read of `addr`, its payload.
pub fn block_reply(msg: &[u8], addr: &[u8]) -> (r: Option<Vec<u8>>)
    ensures
        match r {
            Some(v) => block_reply_spec(msg@, addr@) == Some(v@),
            None => block_reply_spec(msg@, addr@) is None,
        },
{
    let m = match parse(msg) {
        Ok(m) => m,
        Err(_) => return None,
    };
    if m.opcode != READ_REPLY || addr.len() > m.payload.len() {
        return None;
    }
    let mut i: usize = 0;
    while i < addr.len()
        invariant
            i <= addr@.len(),
            addr@.len() <= m.payload@.len(),
            m.opcode == READ_REPLY,
            parse_spec(msg@) == Ok::<DigiMessageView, Seq<char>>(m@),
            forall|j: int| 0 <= j < i ==> m.payload@[j] == addr@[j],
        decreases addr@.len() - i,
    {
        if m.payload[i] != addr[i] {
            assert(m.payload@.take(addr@.len() as int)[i as int] != addr@[i as int]);
            assert(m.payload@.take(addr@.len() as int) != addr@);
            return None;
        }
        i += 1;
    }
    assert(m.payload@.take(addr@.len() as int) =~= addr@);
    let rest = slice_to_vec(vstd::slice::slice_subrange(
        m.payload.as_slice(),
        addr.len(),
        m.payload.len(),
    ));
    assert(rest@ =~= m.payload@.skip(addr@.len() as int));
    Some(rest)
}

/// The value a message answers for a parameter read of `addr`.
pub open spec fn value_reply_spec(msg: Seq<u8>, addr: Seq<u8>) -> Option<Seq<u8>> {
    match parse_spec(msg) {
        Ok(m) => if m.opcode == READ_REPLY {
            value_at_spec(m.payload, addr)
        } else {
            None
        },
        Err(_) => None,
    }
}

/// If `msg` is the read reply to a parameter read of `addr`, its value.
pub fn value_reply(msg: &[u8], addr: &[u8]) -> (r: Option<RawValue>)
    ensures
        match r {
            Some(v) => value_reply_spec(msg@, addr@) == Some(v@),
            None => value_reply_spec(msg@, addr@) is None,
        },
{
    match parse(msg) {
        Ok(m) => if m.opcode == READ_REPLY {
            m.value_at(addr)
        } else {
            None
        },
        Err(_) => None,
    }
}

/// A batch-scan reply split into its address (all but the last five payload
/// bytes) and value.
pub open spec fn scan_reply_spec(msg: Seq<u8>) -> Option<(Seq<u8>, Seq<u8>)> {
    match parse_spec(msg) {
        Ok(m) => if m.opcode == READ_REPLY && m.payload.len() >= VALUE_LEN {
            let split = m.payload.len() - VALUE_LEN;
            Some((m.payload.take(split), m.payload.skip(split)))
        } else {
            None
        },
        Err(_) => None,
    }
}

/// If `msg` is a read reply carrying a value, its address and value.
pub fn scan_reply(msg: &[u8]) -> (r: Option<(Vec<u8>, RawValue)>)
    ensures
        match r {
            Some(x) => scan_reply_spec(msg@) == Some((x.0@, x.1@)),
            None => scan_reply_spec(msg@) is None,
        },
{
    let m = match parse(msg) {
        Ok(m) => m,
        Err(_) => return None,
    };
    if m.opcode != READ_REPLY || m.payload.len() < VALUE_LEN {
        return None;
    }
    let split = m.payload.len() - VALUE_LEN;
    let p = m.payload.as_slice();
    let addr = slice_to_vec(vstd::slice::slice_subrange(p, 0, split));
    let v = RawValue::from_bytes([p[split], p[split + 1], p[split + 2], p[split + 3], p[split + 4]]);
    assert(addr@ =~= m.payload@.take(split as int));
    assert(v@ =~= m.payload@.skip(split as int));
    Some((addr, v))
}

// ---- change reports ----

/// A natural number in lower-case hex, without leading zeros.
pub open spec fn hex_digits(n: nat) -> Seq<char>
    decreases n,
{
    if n < 16 {
        seq![hex_lower_digit(n)]
    } else {
        hex_digits(n / 16).push(hex_lower_digit(n % 16))
    }
}

/// Append `n` in lower-case hex, without leading zeros.
fn push_hex_digits(s: &mut String, n: u64)
    ensures
        final(s)@ == old(s)@ + hex_digits(n as nat),
    decreases n,
{
    if n >= 16 {
        push_hex_digits(s, n / 16);
    }
    let d: u8 = (n % 16) as u8;
    let c: u8 = if d < 10 { d + 48 } else { d + 87 };
    push_char(s, c as char);
    proof {
        assert(s@ =~= old(s)@ + hex_digits(n as nat));
    }
}

/// A change report as one line: `<addr> -> <value>  (word 0x..)`, or `(raw)`
/// and the bytes when it is too short to carry a value.
pub open spec fn report_line(payload: Seq<u8>) -> Seq<char> {
    if payload.len() >= VALUE_LEN {
        let split = payload.len() - VALUE_LEN;
        let value = payload.skip(split);
        hex_spaced(payload.take(split)) + " -> "@ + hex_spaced(value) + "  (word 0x"@
            + hex_digits(word_of(value) as nat) + ")"@
    } else {
        "(raw) "@ + hex_spaced(payload)
    }
}

/// Format a change-report payload for display.
pub fn format_report(payload: &[u8]) -> (r: String)
    ensures
        r@ == report_line(payload@),
{
    if payload.len() >= VALUE_LEN {
        let split = payload.len() - VALUE_LEN;
        let addr = vstd::slice::slice_subrange(payload, 0, split);
        let value = vstd::slice::slice_subrange(payload, split, payload.len());
        let v = RawValue::from_bytes([
            payload[split],
            payload[split + 1],
            payload[split + 2],
            payload[split + 3],
            payload[split + 4],
        ]);
        assert(v@ =~= payload@.skip(split as int));
        assert(addr@ =~= payload@.take(split as int));
        assert(value@ =~= payload@.skip(split as int));
        let mut s = hex(addr);
        s.append(" -> ");
        let hv = hex(value);
        s.append(hv.as_str());
        s.append("  (word 0x");
        let w = v.decode();
        push_hex_digits(&mut s, w);
        s.append(")");
        assert(s@ =~= report_line(payload@));
        s
    } else {
        let mut s = String::from_str("(raw) ");
        let h = hex(payload);
        s.append(h.as_str());
        s
    }
}

// ---- restore ----

/// The packed image a restore writes whole: the first aggregate block, when it
/// is non-empty. Without one, restore replays the blocks one by one.
pub open spec fn aggregate_image(p: PatchBackupView) -> Option<Seq<u8>> {
    match find_first(p.blocks, block_with_id(AGGREGATE_BLOCK)) {
        Some(b) => if b.bytes.len() > 0 {
            Some(b.bytes)
        } else {
            None
        },
        None => None,
    }
}

/// The packed image a restore writes whole, if the backup has one.
pub fn aggregate_image_of(p: &PatchBackup) -> (r: Option<&[u8]>)
    ensures
        match r {
            Some(b) => aggregate_image(p@) == Some(b@),
            None => aggregate_image(p@) is None,
        },
{
    match p.block(AGGREGATE_BLOCK) {
        Some(b) => if b.len() > 0 {
            Some(b)
        } else {
            None
        },
        None => None,
    }
}

/// One step of a block-by-block restore.
#[derive(Debug, PartialEq, Eq)]
pub enum BlockStep {
    /// Write the block whole (a safe flat block: the name or the FX chain).
    Whole { id: u8, bytes: Vec<u8> },
    /// Replay the block's parameter records onto the live table, which is read
    /// first (see [`param_writes`]).
    Params { id: u8, want: Vec<ParamRecord> },
}

/// The mathematical form of a [`BlockStep`].
pub enum BlockStepView {
    /// Write the block whole.
    Whole { id: u8, bytes: Seq<u8> },
    /// Replay the records.
    Params { id: u8, want: Seq<ParamRecord> },
}

impl View for BlockStep {
    type V = BlockStepView;

    open spec fn view(&self) -> BlockStepView {
        match self {
            BlockStep::Whole { id, bytes } => BlockStepView::Whole { id: *id, bytes: bytes@ },
            BlockStep::Params { id, want } => BlockStepView::Params { id: *id, want: want@ },
        }
    }
}

/// How a backup is written back before the store.
#[derive(Debug, PartialEq, Eq)]
pub enum RestorePlan {
    /// Write the packed image (the aggregate block) whole.
    Image(Vec<u8>),
    /// Replay the blocks, in order.
    Blocks(Vec<BlockStep>),
}

/// The mathematical form of a [`RestorePlan`].
pub enum RestorePlanView {
    /// Write the packed image whole.
    Image(Seq<u8>),
    /// Replay these steps.
    Blocks(Seq<BlockStepView>),
}

impl View for RestorePlan {
    type V = RestorePlanView;

    open spec fn view(&self) -> RestorePlanView {
        match self {
            RestorePlan::Image(b) => RestorePlanView::Image(b@),
            RestorePlan::Blocks(v) => RestorePlanView::Blocks(v@.map_values(|x: BlockStep| x@)),
        }
    }
}

/// The step a captured block gives in a block-by-block restore: none for a
/// skipped block, or a parameter table whose records do not parse; the whole
/// block for a safe flat one; its records for a parameter table.
pub open spec fn block_step(b: BlockView) -> Option<BlockStepView> {
    match restore_action_spec(b) {
        RestoreAction::Skip => None,
        RestoreAction::WholeBlock => Some(BlockStepView::Whole { id: b.id, bytes: b.bytes }),
        RestoreAction::PerParam => match param_records_spec(b.bytes) {
            Some(w) => Some(BlockStepView::Params { id: b.id, want: w }),
            None => None,
        },
    }
}

/// The steps of a block-by-block restore, in block order.
pub open spec fn block_steps(blocks: Seq<BlockView>) -> Seq<BlockStepView>
    decreases blocks.len(),
{
    if blocks.len() == 0 {
        Seq::empty()
    } else {
        let rest = block_steps(blocks.drop_last());
        match block_step(blocks.last()) {
            Some(st) => rest.push(st),
            None => rest,
        }
    }
}

/// How a backup is restored: its packed image whole where it has a non-empty
/// one, else block by block.
pub open spec fn restore_plan_spec(p: PatchBackupView) -> RestorePlanView {
    match aggregate_image(p) {
        Some(img) => RestorePlanView::Image(img),
        None => RestorePlanView::Blocks(block_steps(p.blocks)),
    }
}

/// The step of one block.
fn step_of(b: &BlockData) -> (r: Option<BlockStep>)
    ensures
        match r {
            Some(st) => block_step(b@) == Some(st@),
            None => block_step(b@) is None,
        },
{
    match b.restore_action() {
        RestoreAction::Skip => None,
        RestoreAction::WholeBlock => Some(BlockStep::Whole { id: b.id, bytes: b.bytes.clone() }),
        RestoreAction::PerParam => match b.param_records() {
            Some(w) => Some(BlockStep::Params { id: b.id, want: w }),
            None => None,
        },
    }
}

/// Plan the restore of a backup: write its packed image whole when it has a
/// non-empty aggregate block (a complete, byte-exact load); otherwise replay
/// its blocks in order, writing the safe flat ones whole and the parameter
/// tables per parameter, and never writing any other block.
pub fn restore_plan(p: &PatchBackup) -> (r: RestorePlan)
    ensures
        r@ == restore_plan_spec(p@),
{
    match aggregate_image_of(p) {
        Some(img) => RestorePlan::Image(slice_to_vec(img)),
        None => {
            let mut steps: Vec<BlockStep> = Vec::new();
            let mut i: usize = 0;
            while i < p.blocks.len()
                invariant
                    i <= p.blocks@.len(),
                    steps@.map_values(|x: BlockStep| x@) == block_steps(
                        block_views(p.blocks@).take(i as int),
                    ),
                decreases p.blocks@.len() - i,
            {
                let ghost before = steps@;
                let ghost bv = block_views(p.blocks@);
                assert(bv.take(i + 1).drop_last() =~= bv.take(i as int));
                assert(bv.take(i + 1).last() == p.blocks@[i as int]@);
                match step_of(&p.blocks[i]) {
                    Some(st) => {
                        steps.push(st);
                        assert(steps@.map_values(|x: BlockStep| x@) =~= before.map_values(
                            |x: BlockStep| x@,
                        ).push(st@));
                    },
                    None => {},
                }
                i += 1;
            }
            assert(block_views(p.blocks@).take(p.blocks@.len() as int) =~= p@.blocks);
            RestorePlan::Blocks(steps)
        },
    }
}

/// The block a step writes.
pub open spec fn step_block(st: BlockStepView) -> u8 {
    match st {
        BlockStepView::Whole { id, .. } => id,
        BlockStepView::Params { id, .. } => id,
    }
}

/// A block-by-block restore never writes a block that restore skips: every
/// step writes a restorable block, a whole-block write only the name or the
/// FX chain, and a replay only a parameter table, from records it carries.
pub proof fn lemma_steps_never_write_skipped(blocks: Seq<BlockView>)
    ensures
        forall|k: int|
            0 <= k < block_steps(blocks).len() ==> {
                let st = #[trigger] block_steps(blocks)[k];
                &&& restorable_id(step_block(st))
                &&& (st matches BlockStepView::Whole { id, .. } ==> safe_flat_block(id))
                &&& (st matches BlockStepView::Params { want, .. } ==> want.len() > 0)
            },
    decreases blocks.len(),
{
    if blocks.len() > 0 {
        lemma_steps_never_write_skipped(blocks.drop_last());
    }
}

/// A record with the given target.
pub open spec fn record_for(target: u8) -> spec_fn(ParamRecord) -> bool {
    |r: ParamRecord| r.target == target
}

/// The writes that replay a parameter table onto the live one: for each
/// wanted record, in order, whose target the live table has, its value at the
/// live index (`11 <block> <index>`, knob value form).
pub open spec fn param_writes_spec(block: u8, want: Seq<ParamRecord>, live: Seq<ParamRecord>) -> Seq<
    (Seq<u8>, Seq<u8>),
>
    decreases want.len(),
{
    if want.len() == 0 {
        Seq::empty()
    } else {
        let rest = param_writes_spec(block, want.drop_last(), live);
        let r = want.last();
        match find_first(live, record_for(r.target)) {
            Some(l) => rest.push((seq![0x11u8, block, l.index], knob_value(r.value))),
            None => rest,
        }
    }
}

/// The live index of the first live record with `target`.
fn live_index(live: &Vec<ParamRecord>, target: u8) -> (r: Option<u8>)
    ensures
        match r {
            Some(i) => find_first(live@, record_for(target)) matches Some(l) && l.index == i,
            None => find_first(live@, record_for(target)) is None,
        },
{
    let ghost pr = record_for(target);
    let mut i: usize = 0;
    while i < live.len()
        invariant
            i <= live@.len(),
            pr == record_for(target),
            forall|j: int| 0 <= j < i ==> !pr(#[trigger] live@[j]),
        decreases live@.len() - i,
    {
        if live[i].target == target {
            proof {
                lemma_first_at(live@, pr, i as int);
            }
            return Some(live[i].index);
        }
        i += 1;
    }
    proof {
        lemma_first_none(live@, pr);
    }
    None
}

/// The per-parameter writes that replay `want` onto the live table of `block`.
pub fn param_writes(block: u8, want: &Vec<ParamRecord>, live: &Vec<ParamRecord>) -> (r: Vec<
    ([u8; 3], RawValue),
>)
    ensures
        r@.map_values(|w: ([u8; 3], RawValue)| (w.0@, w.1@)) == param_writes_spec(
            block,
            want@,
            live@,
        ),
{
    let mut out: Vec<([u8; 3], RawValue)> = Vec::new();
    let mut i: usize = 0;
    while i < want.len()
        invariant
            i <= want@.len(),
            out@.map_values(|w: ([u8; 3], RawValue)| (w.0@, w.1@)) =~= param_writes_spec(
                block,
                want@.take(i as int),
                live@,
            ),
        decreases want@.len() - i,
    {
        let r = want[i];
        proof {
            assert(want@.take(i + 1).drop_last() =~= want@.take(i as int));
            assert(want@.take(i + 1).last() == r);
        }
        match live_index(live, r.target) {
            Some(idx) => {
                let addr = [0x11u8, block, idx];
                let v = knob_raw(r.value);
                let ghost prev = out@;
                out.push((addr, v));
                assert(addr@ =~= seq![0x11u8, block, idx]);
                assert(out@.map_values(|w: ([u8; 3], RawValue)| (w.0@, w.1@)) =~= prev.map_values(
                    |w: ([u8; 3], RawValue)| (w.0@, w.1@),
                ).push((addr@, v@)));
            },
            None => {},
        }
        i += 1;
    }
    assert(want@.take(want@.len() as int) =~= want@);
    out
}

} // verus!
