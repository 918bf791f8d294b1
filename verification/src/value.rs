//! The address-mapped parameter value codec: the five-MIDI-byte, little-endian,
//! 7-bit-packed wire word.
//!
//! Each wire byte carries seven bits of the word, least significant first, so a
//! value holds a 35-bit word.

use vstd::prelude::*;

verus! {

/// Number of wire bytes in one parameter value.
pub const VALUE_LEN: usize = 5;

/// One more than the largest word a value can carry (`2^35`).
pub const WORD_LIMIT: u64 = 0x8_0000_0000;

/// A raw five-byte parameter value, as it crosses the wire.
#[derive(Debug, Clone, Copy, PartialEq, Eq)]
pub struct RawValue {
    bytes: [u8; 5],
}

/// The word carried by five wire bytes: seven low bits of each, least
/// significant byte first.
pub open spec fn word_of(b: Seq<u8>) -> int {
    (b[0] % 128) as int + 128 * (b[1] % 128) as int + 16384 * (b[2] % 128) as int + 2097152 * (
    b[3] % 128) as int + 268435456 * (b[4] % 128) as int
}

/// The five wire bytes of a word: its low 35 bits, seven per byte, least
/// significant first.
pub open spec fn bytes_of(w: u64) -> Seq<u8> {
    seq![
        (w % 128) as u8,
        ((w / 128) % 128) as u8,
        ((w / 16384) % 128) as u8,
        ((w / 2097152) % 128) as u8,
        ((w / 268435456) % 128) as u8,
    ]
}

/// Every byte is a 7-bit MIDI data byte.
pub open spec fn seven_bit(b: Seq<u8>) -> bool {
    forall|i: int| 0 <= i < b.len() ==> #[trigger] b[i] < 128
}

impl View for RawValue {
    type V = Seq<u8>;

    closed spec fn view(&self) -> Seq<u8> {
        self.bytes@
    }
}

impl RawValue {
    /// Wrap five wire bytes.
    pub fn from_bytes(bytes: [u8; 5]) -> (r: RawValue)
        ensures
            r@ == bytes@,
    {
        RawValue { bytes }
    }

    /// The five wire bytes.
    pub fn as_bytes(&self) -> (r: &[u8; 5])
        ensures
            r@ == self@,
    {
        &self.bytes
    }

    /// The word this value carries.
    pub fn decode(&self) -> (w: u64)
        ensures
            w == word_of(self@),
    {
        let b = self.bytes;
        (b[0] % 128) as u64 + 128 * ((b[1] % 128) as u64) + 16384 * ((b[2] % 128) as u64) + 2097152
            * ((b[3] % 128) as u64) + 268435456 * ((b[4] % 128) as u64)
    }

    /// The value carrying the low 35 bits of `word`.
    pub fn encode(word: u64) -> (r: RawValue)
        ensures
            r@ == bytes_of(word),
    {
        let bytes: [u8; 5] = [
            (word % 128) as u8,
            ((word / 128) % 128) as u8,
            ((word / 16384) % 128) as u8,
            ((word / 2097152) % 128) as u8,
            ((word / 268435456) % 128) as u8,
        ];
        let r = RawValue { bytes };
        assert(r@ =~= bytes_of(word));
        r
    }
}

/// A value always has five wire bytes.
pub proof fn lemma_value_len(v: RawValue)
    ensures
        v@.len() == VALUE_LEN,
{
}

/// Encoding then decoding gives back every word below `2^35`.
pub proof fn lemma_decode_encode(w: u64)
    requires
        w < WORD_LIMIT,
    ensures
        word_of(bytes_of(w)) == w,
{
    assert(w < 0x8_0000_0000u64 ==> (w % 128) + 128 * ((w / 128) % 128) + 16384 * ((w / 16384)
        % 128) + 2097152 * ((w / 2097152) % 128) + 268435456 * ((w / 268435456) % 128) == w)
        by (bit_vector);
}

/// Every five wire bytes carry a word below `2^35`: only the seven low bits of
/// each byte count.
pub proof fn lemma_word_bound(b: Seq<u8>)
    requires
        b.len() == VALUE_LEN,
    ensures
        0 <= word_of(b) < WORD_LIMIT,
{
}

/// Decoding then encoding gives back every value whose bytes are 7-bit.
#[verifier::spinoff_prover]
#[verifier::rlimit(40)]
pub proof fn lemma_encode_decode(b: Seq<u8>)
    requires
        b.len() == VALUE_LEN,
        seven_bit(b),
    ensures
        word_of(b) < WORD_LIMIT,
        word_of(b) >= 0,
        bytes_of(word_of(b) as u64) == b,
{
    let b0 = b[0];
    let b1 = b[1];
    let b2 = b[2];
    let b3 = b[3];
    let b4 = b[4];
    assert(b0 < 128 && b1 < 128 && b2 < 128 && b3 < 128 && b4 < 128);
    assert(b0 < 128 && b1 < 128 && b2 < 128 && b3 < 128 && b4 < 128 ==> {
        let x: u64 = (b0 as u64) | ((b1 as u64) << 7u64) | ((b2 as u64) << 14u64) | ((b3 as u64)
            << 21u64) | ((b4 as u64) << 28u64);
        &&& x < 0x8_0000_0000u64
        &&& x == (b0 as u64) + 128 * (b1 as u64) + 16384 * (b2 as u64) + 2097152 * (b3 as u64)
            + 268435456 * (b4 as u64)
        &&& (x % 128) as u8 == b0
        &&& ((x / 128) % 128) as u8 == b1
        &&& ((x / 16384) % 128) as u8 == b2
        &&& ((x / 2097152) % 128) as u8 == b3
        &&& ((x / 268435456) % 128) as u8 == b4
    }) by (bit_vector);
    let w: u64 = (b0 as u64) | ((b1 as u64) << 7u64) | ((b2 as u64) << 14u64) | ((b3 as u64)
        << 21u64) | ((b4 as u64) << 28u64);
    assert(bytes_of(w) =~= b);
}

} // verus!
