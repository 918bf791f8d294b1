//! The System Exclusive codec for the Eleven Rack, with no I/O.
//!
//! The Eleven Rack speaks Digidesign address-mapped `SysEx`:
//! `F0 13 0B <dev> <opcode> <addr..> <value..> F7`. This module builds those
//! frames, parses them back, and decodes the Universal Identity reply.

use vstd::prelude::*;
use vstd::slice::slice_subrange;

use crate::error::{Error, Result};
use crate::text::{hex_prefixed, lossy_utf8, push_all, push_hex_prefixed, utf8_lossy};
use crate::value::{RawValue, VALUE_LEN};

verus! {

/// Start of a System Exclusive message.
pub const SYSEX_START: u8 = 0xF0;
/// End of a System Exclusive message.
pub const SYSEX_END: u8 = 0xF7;
/// Digidesign's MIDI manufacturer id.
pub const DIGIDESIGN_ID: u8 = 0x13;
/// The Eleven Rack's model id in the Digidesign header.
pub const ELEVEN_RACK_MODEL: u8 = 0x0B;
/// The device id the unit ships with.
pub const DEFAULT_DEVICE_ID: u8 = 0x0F;
/// Opcode: read request (host to unit).
pub const READ_REQUEST: u8 = 0x01;
/// Opcode: read reply (unit to host), the answer to a read request.
pub const READ_REPLY: u8 = 0x12;
/// Opcode: change report (unit to host), unsolicited when a knob moves.
pub const CHANGE_REPORT: u8 = 0x02;
/// Opcode: write/set (host to unit).
pub const WRITE: u8 = 0x00;
/// Universal Non-Realtime `SysEx` id.
pub const UNIVERSAL_NON_REALTIME: u8 = 0x7E;
/// Sub-id 1 of a Universal Identity message (General Information).
pub const ID_GENERAL_INFO: u8 = 0x06;
/// Sub-id 2 of an Identity Request.
pub const ID_REQUEST: u8 = 0x01;
/// Sub-id 2 of an Identity Reply.
pub const ID_REPLY: u8 = 0x02;

/// The Universal Identity Request, `F0 7E 7F 06 01 F7`.
pub open spec fn identity_request() -> Seq<u8> {
    seq![SYSEX_START, UNIVERSAL_NON_REALTIME, 0x7Fu8, ID_GENERAL_INFO, ID_REQUEST, SYSEX_END]
}

/// A Digidesign Eleven Rack frame: `F0 13 0B <dev> <opcode> <payload..> F7`.
pub open spec fn frame(device_id: u8, opcode: u8, payload: Seq<u8>) -> Seq<u8> {
    seq![SYSEX_START, DIGIDESIGN_ID, ELEVEN_RACK_MODEL, device_id, opcode] + payload + seq![
        SYSEX_END,
    ]
}

/// Build the Universal Identity Request (`F0 7E 7F 06 01 F7`), the safe first
/// probe.
pub fn build_identity_request() -> (r: Vec<u8>)
    ensures
        r@ == identity_request(),
{
    let r = vec![SYSEX_START, UNIVERSAL_NON_REALTIME, 0x7F, ID_GENERAL_INFO, ID_REQUEST, SYSEX_END];
    assert(r@ =~= identity_request());
    r
}

/// Shared body of the frame builders.
pub(crate) fn build(device_id: u8, opcode: u8, addr: &[u8], value: &[u8]) -> (r: Vec<u8>)
    ensures
        r@ == frame(device_id, opcode, addr@ + value@),
{
    let mut msg: Vec<u8> = Vec::new();
    msg.push(SYSEX_START);
    msg.push(DIGIDESIGN_ID);
    msg.push(ELEVEN_RACK_MODEL);
    msg.push(device_id);
    msg.push(opcode);
    push_all(&mut msg, addr);
    push_all(&mut msg, value);
    msg.push(SYSEX_END);
    assert(msg@ =~= frame(device_id, opcode, addr@ + value@));
    msg
}

/// Build a read request: `F0 13 0B <dev> 01 <addr> F7`.
pub fn build_read_request(device_id: u8, addr: &[u8]) -> (r: Vec<u8>)
    ensures
        r@ == frame(device_id, READ_REQUEST, addr@),
{
    let empty: [u8; 0] = [];
    let r = build(device_id, READ_REQUEST, addr, &empty);
    assert(addr@ + empty@ =~= addr@);
    r
}

/// Build a write/set: `F0 13 0B <dev> 00 <addr> <value> F7`.
pub fn build_write(device_id: u8, addr: &[u8], value: &RawValue) -> (r: Vec<u8>)
    ensures
        r@ == frame(device_id, WRITE, addr@ + value@),
{
    build(device_id, WRITE, addr, value.as_bytes())
}

/// A parsed Digidesign Eleven Rack message. `payload` is everything between the
/// opcode and the closing `F7` (for a read reply, `<addr..> <value..>`).
#[derive(Debug, Clone, PartialEq, Eq)]
pub struct DigiMessage {
    /// The device id from the message header.
    pub device_id: u8,
    /// The opcode byte.
    pub opcode: u8,
    /// Address-plus-value region, framing and header removed.
    pub payload: Vec<u8>,
}

/// The mathematical form of a [`DigiMessage`].
#[verifier::ext_equal]
pub struct DigiMessageView {
    /// The device id.
    pub device_id: u8,
    /// The opcode.
    pub opcode: u8,
    /// The payload.
    pub payload: Seq<u8>,
}

impl View for DigiMessage {
    type V = DigiMessageView;

    open spec fn view(&self) -> DigiMessageView {
        DigiMessageView { device_id: self.device_id, opcode: self.opcode, payload: self.payload@ }
    }
}

/// The value a payload reports for `addr`: the payload must be `addr` followed by
/// exactly five value bytes.
pub open spec fn value_at_spec(payload: Seq<u8>, addr: Seq<u8>) -> Option<Seq<u8>> {
    if payload.len() == addr.len() + VALUE_LEN && payload.take(addr.len() as int) == addr {
        Some(payload.skip(addr.len() as int))
    } else {
        None
    }
}

impl DigiMessage {
    /// If this message reports a value for `addr` (its payload is `addr` followed
    /// by exactly five value bytes), that value.
    pub fn value_at(&self, addr: &[u8]) -> (r: Option<RawValue>)
        ensures
            match r {
                Some(v) => value_at_spec(self.payload@, addr@) == Some(v@),
                None => value_at_spec(self.payload@, addr@) is None,
            },
    {
        let n = addr.len();
        if self.payload.len() < n || self.payload.len() - n != VALUE_LEN {
            return None;
        }
        let mut i: usize = 0;
        while i < n
            invariant
                i <= n,
                n == addr@.len(),
                self.payload@.len() == n + VALUE_LEN,
                forall|j: int| 0 <= j < i ==> self.payload@[j] == addr@[j],
            decreases n - i,
        {
            if self.payload[i] != addr[i] {
                assert(self.payload@.take(n as int)[i as int] != addr@[i as int]);
                return None;
            }
            i += 1;
        }
        assert(self.payload@.take(n as int) =~= addr@);
        let bytes: [u8; 5] = [
            self.payload[n],
            self.payload[n + 1],
            self.payload[n + 2],
            self.payload[n + 3],
            self.payload[n + 4],
        ];
        let v = RawValue::from_bytes(bytes);
        assert(bytes@ =~= self.payload@.skip(n as int));
        Some(v)
    }
}

/// Whether `msg` is framed by `F0 .. F7` (start and end bytes distinct).
pub open spec fn is_framed(msg: Seq<u8>) -> bool {
    msg.len() >= 2 && msg[0] == SYSEX_START && msg[msg.len() - 1] == SYSEX_END
}

/// What [`parse`] answers for `msg`: the parsed message, or the error text.
pub open spec fn parse_spec(msg: Seq<u8>) -> core::result::Result<DigiMessageView, Seq<char>> {
    if !is_framed(msg) {
        Err("message is not framed by F0..F7"@)
    } else {
        let inner = msg.subrange(1, msg.len() - 1);
        if inner.len() == 0 {
            Err("empty sysex message"@)
        } else if inner[0] != DIGIDESIGN_ID {
            Err("manufacturer id "@ + hex_prefixed(inner[0]) + " is not Digidesign (0x13)"@)
        } else if inner.len() < 2 {
            Err("missing model id"@)
        } else if inner[1] != ELEVEN_RACK_MODEL {
            Err("model id "@ + hex_prefixed(inner[1]) + " is not the Eleven Rack (0x0b)"@)
        } else if inner.len() < 3 {
            Err("missing device id"@)
        } else if inner.len() < 4 {
            Err("missing opcode byte"@)
        } else {
            Ok(DigiMessageView { device_id: inner[2], opcode: inner[3], payload: inner.skip(4) })
        }
    }
}

/// A `SysEx` error carrying `text`.
pub open spec fn is_sysex_error(e: Error, text: Seq<char>) -> bool {
    e matches Error::Sysex(m) && m@ == text
}

fn sysex_err(text: &str) -> (e: Error)
    ensures
        is_sysex_error(e, text@),
{
    Error::Sysex(String::from_str(text))
}

/// Parse a complete `F0..F7` message as a Digidesign Eleven Rack frame,
/// validating the framing, the manufacturer id and the model id.
pub fn parse(msg: &[u8]) -> (r: Result<DigiMessage>)
    ensures
        match (r, parse_spec(msg@)) {
            (Ok(m), Ok(v)) => m@ == v,
            (Err(e), Err(t)) => is_sysex_error(e, t),
            _ => false,
        },
{
    let n = msg.len();
    if n < 2 || msg[0] != SYSEX_START || msg[n - 1] != SYSEX_END {
        return Err(sysex_err("message is not framed by F0..F7"));
    }
    let inner = slice_subrange(msg, 1, n - 1);
    let m = inner.len();
    if m == 0 {
        return Err(sysex_err("empty sysex message"));
    }
    let manufacturer = inner[0];
    if manufacturer != DIGIDESIGN_ID {
        let mut s = String::from_str("manufacturer id ");
        push_hex_prefixed(&mut s, manufacturer);
        s.append(" is not Digidesign (0x13)");
        return Err(Error::Sysex(s));
    }
    if m < 2 {
        return Err(sysex_err("missing model id"));
    }
    let model = inner[1];
    if model != ELEVEN_RACK_MODEL {
        let mut s = String::from_str("model id ");
        push_hex_prefixed(&mut s, model);
        s.append(" is not the Eleven Rack (0x0b)");
        return Err(Error::Sysex(s));
    }
    if m < 3 {
        return Err(sysex_err("missing device id"));
    }
    if m < 4 {
        return Err(sysex_err("missing opcode byte"));
    }
    let payload = vstd::slice::slice_to_vec(slice_subrange(inner, 4, m));
    assert(payload@ =~= inner@.skip(4));
    Ok(DigiMessage { device_id: inner[2], opcode: inner[3], payload })
}

/// Parsing a frame built by this codec gives back its device id, opcode and
/// payload, whatever the payload holds.
pub proof fn lemma_parse_frame(device_id: u8, opcode: u8, payload: Seq<u8>)
    ensures
        parse_spec(frame(device_id, opcode, payload)) == Ok::<DigiMessageView, Seq<char>>(
            DigiMessageView { device_id, opcode, payload },
        ),
{
    let f = frame(device_id, opcode, payload);
    let inner = f.subrange(1, f.len() - 1);
    assert(inner.skip(4) =~= payload);
    assert(inner[0] == DIGIDESIGN_ID);
    assert(inner[1] == ELEVEN_RACK_MODEL);
}

/// A write built for `addr` reports exactly the written value for that address.
pub proof fn lemma_write_value_round_trip(addr: Seq<u8>, value: Seq<u8>)
    requires
        value.len() == VALUE_LEN,
    ensures
        value_at_spec(addr + value, addr) == Some(value),
{
    assert((addr + value).take(addr.len() as int) =~= addr);
    assert((addr + value).skip(addr.len() as int) =~= value);
}

/// A bare read request carries no value for its address.
pub proof fn lemma_request_has_no_value(addr: Seq<u8>)
    ensures
        value_at_spec(addr, addr) is None,
{
}

/// A decoded Universal Identity reply.
#[derive(Debug, Clone, PartialEq, Eq)]
pub struct Identity {
    /// The responding device id.
    pub device_id: u8,
    /// Manufacturer id (Digidesign reports `0x13`).
    pub manufacturer: u8,
    /// Device family code.
    pub family: u16,
    /// Device model number.
    pub model: u16,
    /// Firmware/version field, as text (e.g. `"0157"`).
    pub version: String,
}

/// Whether `inner` (a frame with `F0`/`F7` removed) is a Universal Identity
/// reply with the manufacturer, family and model fields present.
pub open spec fn identity_shape(inner: Seq<u8>) -> bool {
    &&& inner.len() >= 9
    &&& inner[0] == UNIVERSAL_NON_REALTIME
    &&& inner[2] == ID_GENERAL_INFO
    &&& inner[3] == ID_REPLY
}

/// A 14-bit number from two 7-bit-field bytes, low first (`lo | hi << 7`).
pub open spec fn join7(lo: u8, hi: u8) -> u16 {
    (lo as u16 | ((hi as u16) << 7u16)) as u16
}

/// What [`parse_identity_reply`] answers for `msg`: `None` where it fails.
pub open spec fn identity_ok(msg: Seq<u8>) -> bool {
    is_framed(msg) && identity_shape(msg.subrange(1, msg.len() - 1))
}

/// Parse a Universal Identity reply
/// (`F0 7E <dev> 06 02 <mfr> <family lo hi> <model lo hi> <version..> F7`).
pub fn parse_identity_reply(msg: &[u8]) -> (r: Result<Identity>)
    ensures
        identity_ok(msg@) <==> r is Ok,
        r matches Ok(id) ==> {
            let inner = msg@.subrange(1, msg@.len() - 1);
            &&& id.device_id == inner[1]
            &&& id.manufacturer == inner[4]
            &&& id.family == join7(inner[5], inner[6])
            &&& id.model == join7(inner[7], inner[8])
            &&& id.version@ == utf8_lossy(inner.skip(9))
        },
        r matches Err(e) ==> (if is_framed(msg@) {
            is_sysex_error(e, "not a Universal Identity reply"@)
        } else {
            is_sysex_error(e, "message is not framed by F0..F7"@)
        }),
{
    let n = msg.len();
    if n < 2 || msg[0] != SYSEX_START || msg[n - 1] != SYSEX_END {
        return Err(sysex_err("message is not framed by F0..F7"));
    }
    let inner = slice_subrange(msg, 1, n - 1);
    let m = inner.len();
    if m < 9 || inner[0] != UNIVERSAL_NON_REALTIME || inner[2] != ID_GENERAL_INFO || inner[3]
        != ID_REPLY {
        return Err(sysex_err("not a Universal Identity reply"));
    }
    let fam_lo = inner[5];
    let fam_hi = inner[6];
    let mod_lo = inner[7];
    let mod_hi = inner[8];
    let version_bytes = slice_subrange(inner, 9, m);
    assert(version_bytes@ =~= inner@.skip(9));
    Ok(Identity {
        device_id: inner[1],
        manufacturer: inner[4],
        family: (fam_lo as u16) | ((fam_hi as u16) << 7u16),
        model: (mod_lo as u16) | ((mod_hi as u16) << 7u16),
        version: lossy_utf8(version_bytes),
    })
}

} // verus!
