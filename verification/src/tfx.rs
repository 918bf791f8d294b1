//! Parser for the Eleven Rack binary patch file format (`.tfx`).
//!
//! A patch file is a header, the patch name (word-swapped ASCII from offset 64),
//! then from offset 92 a sequence of blocks. Each block is a header word
//! `[size_lo size_hi 0x20 block_id]` followed by `size / 8` entries, each a
//! four-byte `FourCC` tag (stored little-endian, so its ASCII reads byte-swapped)
//! and a 32-bit value. The parser keeps each value's raw 32 bits; whether it is an
//! integer or a float depends on the block and is the caller's business.

use vstd::prelude::*;
use vstd::slice::slice_subrange;

use crate::error::{Error, Result};
use crate::search::{first_index, lemma_first_at, lemma_first_none};
use crate::text::{dec, lossy_utf8, push_char, push_decimal, trim, trim_spec, utf8_lossy};

verus! {

/// Offset where the patch name begins (word-swapped ASCII).
pub const NAME_OFFSET: usize = 64;
/// Offset where the block table begins.
pub const BODY_OFFSET: usize = 92;
/// The constant marker byte (third) of a block header word.
pub const BLOCK_MARKER: u8 = 0x20;

/// One keyed parameter: a four-character tag and its raw 32-bit value.
#[derive(Debug, Clone, PartialEq, Eq)]
pub struct Param {
    /// The `FourCC` tag (e.g. `"Tmpo"`), in logical (de-byte-swapped) order.
    pub tag: String,
    /// The raw little-endian 32-bit value.
    pub value: u32,
}

/// The mathematical form of a [`Param`].
#[verifier::ext_equal]
pub struct ParamView {
    /// The tag.
    pub tag: Seq<char>,
    /// The raw value.
    pub value: u32,
}

impl View for Param {
    type V = ParamView;

    open spec fn view(&self) -> ParamView {
        ParamView { tag: self.tag@, value: self.value }
    }
}

/// One block of a patch (a signal-chain slot).
#[derive(Debug, Clone, PartialEq, Eq)]
pub struct Block {
    /// The block id (`0x41` global, `0x49` amp, ...).
    pub id: u8,
    /// The block's parameters, in file order.
    pub params: Vec<Param>,
}

/// The mathematical form of a [`Block`].
#[verifier::ext_equal]
pub struct BlockView {
    /// The block id.
    pub id: u8,
    /// Its parameters, in file order.
    pub params: Seq<ParamView>,
}

impl View for Block {
    type V = BlockView;

    open spec fn view(&self) -> BlockView {
        BlockView { id: self.id, params: self.params@.map_values(|p: Param| p@) }
    }
}

/// A parsed Eleven Rack patch.
#[derive(Debug, Clone, PartialEq, Eq)]
pub struct Patch {
    /// The patch name.
    pub name: String,
    /// The signal-chain blocks, in file order.
    pub blocks: Vec<Block>,
}

/// The mathematical form of a [`Patch`].
#[verifier::ext_equal]
pub struct PatchView {
    /// The name.
    pub name: Seq<char>,
    /// The blocks, in file order.
    pub blocks: Seq<BlockView>,
}

impl View for Patch {
    type V = PatchView;

    open spec fn view(&self) -> PatchView {
        PatchView { name: self.name@, blocks: self.blocks@.map_values(|b: Block| b@) }
    }
}

/// An ASCII letter.
pub open spec fn ascii_alpha(b: u8) -> bool {
    (65 <= b && b <= 90) || (97 <= b && b <= 122)
}

/// Printable ASCII (`0x20..0x7f`).
pub open spec fn printable(b: u8) -> bool {
    0x20 <= b && b < 0x7f
}

/// A four-byte little-endian word is a `FourCC` tag: its logical first character
/// (the last byte) is a letter and every byte is printable ASCII.
pub open spec fn is_tag_spec(w: Seq<u8>) -> bool {
    &&& w.len() == 4
    &&& ascii_alpha(w[3])
    &&& printable(w[0]) && printable(w[1]) && printable(w[2]) && printable(w[3])
}

/// The logical tag of a stored word: its bytes in reverse order, one character
/// each.
pub open spec fn tag_chars(w: Seq<u8>) -> Seq<char> {
    seq![w[3] as char, w[2] as char, w[1] as char, w[0] as char]
}

/// The little-endian 32-bit word at `off`.
pub open spec fn le32(data: Seq<u8>, off: int) -> u32 {
    (data[off] as int + 256 * data[off + 1] as int + 65536 * data[off + 2] as int + 16777216
        * data[off + 3] as int) as u32
}

/// The parameters of a block body `data[off..end]`: consecutive eight-byte
/// `[tag][value]` entries, stopping at the first word that is not a tag or when
/// fewer than eight bytes remain.
pub open spec fn params_from(data: Seq<u8>, off: int, end: int) -> Seq<ParamView>
    decreases end - off,
{
    if off + 8 > end || off < 0 || end > data.len() {
        Seq::empty()
    } else {
        let w = data.subrange(off, off + 4);
        if !is_tag_spec(w) {
            Seq::empty()
        } else {
            seq![ParamView { tag: tag_chars(w), value: le32(data, off + 4) }] + params_from(
                data,
                off + 8,
                end,
            )
        }
    }
}

/// The blocks of the table from `off`: a tag where a header is expected ends the
/// table; a header without the marker byte is skipped; a block spans `size`
/// bytes after its header (clipped to the data) and the next header follows it.
pub open spec fn blocks_from(data: Seq<u8>, off: int) -> Seq<BlockView>
    decreases data.len() - off,
{
    if off < 0 || off + 4 > data.len() {
        Seq::empty()
    } else {
        let h = data.subrange(off, off + 4);
        if is_tag_spec(h) {
            Seq::empty()
        } else if h[2] != BLOCK_MARKER {
            blocks_from(data, off + 4)
        } else {
            let start = off + 4;
            let size = h[0] as int + 256 * h[1] as int;
            let end = if start + size < data.len() { start + size } else { data.len() as int };
            seq![BlockView { id: h[3], params: params_from(data, start, end) }] + blocks_from(
                data,
                end,
            )
        }
    }
}

/// The raw name bytes from name word `k` on: each word byte-swapped, stopping at
/// an all-zero word or at the block table.
pub open spec fn name_bytes_from(data: Seq<u8>, k: int) -> Seq<u8>
    decreases 7 - k,
{
    if k < 0 || k >= 7 {
        Seq::empty()
    } else {
        let off = NAME_OFFSET + 4 * k;
        let w = data.subrange(off, off + 4);
        if w == seq![0u8, 0u8, 0u8, 0u8] {
            Seq::empty()
        } else {
            seq![w[3], w[2], w[1], w[0]] + name_bytes_from(data, k + 1)
        }
    }
}

/// A zero byte.
pub open spec fn zero_byte() -> spec_fn(u8) -> bool {
    |b: u8| b == 0
}

/// The bytes before the first zero byte.
pub open spec fn before_nul(b: Seq<u8>) -> Seq<u8> {
    match first_index(b, zero_byte()) {
        Some(e) => b.take(e),
        None => b,
    }
}

/// The patch name of a file: the name bytes up to the first NUL, decoded as
/// UTF-8 (invalid sequences replaced) and trimmed.
pub open spec fn name_spec(data: Seq<u8>) -> Seq<char> {
    trim_spec(utf8_lossy(before_nul(name_bytes_from(data, 0))))
}

/// The error text for a file too short to hold the header and block table.
pub open spec fn too_short_text(len: nat) -> Seq<char> {
    "file too short: "@ + dec(len) + " bytes (need at least 92)"@
}

fn is_tag(w: &[u8]) -> (r: bool)
    requires
        w@.len() == 4,
    ensures
        r == is_tag_spec(w@),
{
    let b3 = w[3];
    ((65 <= b3 && b3 <= 90) || (97 <= b3 && b3 <= 122)) && 0x20 <= w[0] && w[0] < 0x7f && 0x20
        <= w[1] && w[1] < 0x7f && 0x20 <= w[2] && w[2] < 0x7f && 0x20 <= w[3] && w[3] < 0x7f
}

fn tag_string(w: &[u8]) -> (r: String)
    requires
        w@.len() == 4,
    ensures
        r@ == tag_chars(w@),
{
    let mut s = String::new();
    push_char(&mut s, w[3] as char);
    push_char(&mut s, w[2] as char);
    push_char(&mut s, w[1] as char);
    push_char(&mut s, w[0] as char);
    assert(s@ =~= tag_chars(w@));
    s
}

/// Parse a `.tfx` patch file. Fails only when the data is too short to hold the
/// header and block table.
pub fn parse(data: &[u8]) -> (r: Result<Patch>)
    ensures
        match r {
            Ok(p) => data@.len() >= BODY_OFFSET && p@ == (PatchView {
                name: name_spec(data@),
                blocks: blocks_from(data@, BODY_OFFSET as int),
            }),
            Err(e) => data@.len() < BODY_OFFSET && (e matches Error::Tfx(m) && m@ == too_short_text(
                data@.len(),
            )),
        },
{
    if data.len() < BODY_OFFSET {
        let mut s = String::from_str("file too short: ");
        push_decimal(&mut s, data.len() as u64);
        s.append(" bytes (need at least 92)");
        return Err(Error::Tfx(s));
    }
    let name = parse_name(data);
    let blocks = parse_blocks(data);
    let p = Patch { name, blocks };
    assert(p@ =~= PatchView { name: name_spec(data@), blocks: blocks_from(data@, BODY_OFFSET as int) });
    Ok(p)
}

/// Read the patch name: word-swapped ASCII from the name offset up to the first
/// zero word or the block table, cut at the first NUL, decoded and trimmed.
fn parse_name(data: &[u8]) -> (r: String)
    requires
        data@.len() >= BODY_OFFSET,
    ensures
        r@ == name_spec(data@),
{
    let mut bytes: Vec<u8> = Vec::new();
    let mut k: usize = 0;
    while k < 7
        invariant
            k <= 7,
            data@.len() >= BODY_OFFSET,
            bytes@ + name_bytes_from(data@, k as int) == name_bytes_from(data@, 0),
        ensures
            bytes@ == name_bytes_from(data@, 0),
        decreases 7 - k,
    {
        let off = NAME_OFFSET + 4 * k;
        let w = slice_subrange(data, off, off + 4);
        if w[0] == 0 && w[1] == 0 && w[2] == 0 && w[3] == 0 {
            assert(w@ =~= seq![0u8, 0u8, 0u8, 0u8]);
            assert(name_bytes_from(data@, k as int) =~= Seq::<u8>::empty());
            assert(bytes@ + name_bytes_from(data@, k as int) =~= bytes@);
            break;
        }
        assert(w@ != seq![0u8, 0u8, 0u8, 0u8]) by {
            if w@ == seq![0u8, 0u8, 0u8, 0u8] {
                assert(w@[0] == 0 && w@[1] == 0 && w@[2] == 0 && w@[3] == 0);
            }
        }
        let ghost before = bytes@;
        bytes.push(w[3]);
        bytes.push(w[2]);
        bytes.push(w[1]);
        bytes.push(w[0]);
        assert(bytes@ =~= before + seq![w@[3], w@[2], w@[1], w@[0]]);
        assert(bytes@ + name_bytes_from(data@, k + 1) =~= before + name_bytes_from(data@, k as int));
        k += 1;
        proof {
            if k == 7 {
                assert(bytes@ + name_bytes_from(data@, k as int) =~= bytes@);
            }
        }
    }
    let ghost z = zero_byte();
    let mut end: usize = 0;
    while end < bytes.len() && bytes[end] != 0
        invariant
            end <= bytes@.len(),
            z == zero_byte(),
            forall|j: int| 0 <= j < end ==> !z(#[trigger] bytes@[j]),
        decreases bytes@.len() - end,
    {
        end += 1;
    }
    proof {
        if end < bytes@.len() {
            lemma_first_at(bytes@, z, end as int);
        } else {
            lemma_first_none(bytes@, z);
            assert(bytes@.take(end as int) =~= bytes@);
        }
    }
    let text = lossy_utf8(slice_subrange(bytes.as_slice(), 0, end));
    assert(bytes@.subrange(0, end as int) =~= before_nul(bytes@));
    trim(text.as_str())
}

/// The little-endian 32-bit word at `off`.
fn read_le32(data: &[u8], off: usize) -> (r: u32)
    requires
        off + 4 <= data@.len(),
    ensures
        r == le32(data@, off as int),
{
    (data[off] as u32) + 256 * (data[off + 1] as u32) + 65536 * (data[off + 2] as u32) + 16777216
        * (data[off + 3] as u32)
}

/// Read the parameters of a block body `data[start..end]`.
fn parse_params(data: &[u8], start: usize, end: usize) -> (r: Vec<Param>)
    requires
        start <= end <= data@.len(),
    ensures
        r@.map_values(|p: Param| p@) == params_from(data@, start as int, end as int),
{
    let mut params: Vec<Param> = Vec::new();
    let mut off = start;
    while end - off >= 8
        invariant
            start <= off <= end <= data@.len(),
            params@.map_values(|p: Param| p@) + params_from(data@, off as int, end as int)
                == params_from(data@, start as int, end as int),
        ensures
            params@.map_values(|p: Param| p@) == params_from(data@, start as int, end as int),
        decreases end - off,
    {
        let w = slice_subrange(data, off, off + 4);
        if !is_tag(w) {
            assert(params@.map_values(|p: Param| p@) + params_from(data@, off as int, end as int)
                =~= params@.map_values(|p: Param| p@));
            break;
        }
        let value = read_le32(data, off + 4);
        let p = Param { tag: tag_string(w), value };
        let ghost before = params@.map_values(|p: Param| p@);
        params.push(p);
        assert(params@.map_values(|p: Param| p@) =~= before.push(p@));
        assert(params_from(data@, off as int, end as int) =~= seq![p@] + params_from(
            data@,
            off + 8,
            end as int,
        ));
        assert(params@.map_values(|p: Param| p@) + params_from(data@, off + 8, end as int) =~= before
            + params_from(data@, off as int, end as int));
        off += 8;
    }
    params
}

/// Walk the block table from the body offset.
fn parse_blocks(data: &[u8]) -> (r: Vec<Block>)
    requires
        data@.len() >= BODY_OFFSET,
    ensures
        r@.map_values(|b: Block| b@) == blocks_from(data@, BODY_OFFSET as int),
{
    let n = data.len();
    let mut blocks: Vec<Block> = Vec::new();
    let mut off: usize = BODY_OFFSET;
    while n - off >= 4
        invariant
            BODY_OFFSET <= off <= n,
            n == data@.len(),
            blocks@.map_values(|b: Block| b@) + blocks_from(data@, off as int) == blocks_from(
                data@,
                BODY_OFFSET as int,
            ),
        ensures
            blocks@.map_values(|b: Block| b@) == blocks_from(data@, BODY_OFFSET as int),
        decreases n - off,
    {
        let header = slice_subrange(data, off, off + 4);
        if is_tag(header) {
            assert(blocks@.map_values(|b: Block| b@) + blocks_from(data@, off as int)
                =~= blocks@.map_values(|b: Block| b@));
            break;
        }
        if header[2] != BLOCK_MARKER {
            off += 4;
        } else {
            let size = (header[1] as usize) * 256 + (header[0] as usize);
            let id = header[3];
            let start = off + 4;
            let end = if size < n - start { start + size } else { n };
            let params = parse_params(data, start, end);
            let b = Block { id, params };
            let ghost before = blocks@.map_values(|b: Block| b@);
            blocks.push(b);
            assert(blocks@.map_values(|b: Block| b@) =~= before.push(b@));
            assert(blocks_from(data@, off as int) =~= seq![b@] + blocks_from(data@, end as int));
            assert(blocks@.map_values(|b: Block| b@) + blocks_from(data@, end as int) =~= before
                + blocks_from(data@, off as int));
            off = end;
        }
    }
    if n - off < 4 {
        assert(blocks_from(data@, off as int) =~= Seq::<BlockView>::empty());
        assert(blocks@.map_values(|b: Block| b@) + blocks_from(data@, off as int)
            =~= blocks@.map_values(|b: Block| b@));
    }
    blocks
}

/// The `n` parameters read from `n` consecutive eight-byte entries at `start`.
pub open spec fn entries_at(data: Seq<u8>, start: int, n: nat) -> Seq<ParamView> {
    Seq::new(
        n,
        |k: int|
            ParamView {
                tag: tag_chars(data.subrange(start + 8 * k, start + 8 * k + 4)),
                value: le32(data, start + 8 * k + 4),
            },
    )
}

/// `n` consecutive eight-byte entries at `start`, each starting with a tag.
pub open spec fn tagged_entries(data: Seq<u8>, start: int, n: nat) -> bool {
    &&& 0 <= start
    &&& start + 8 * n <= data.len()
    &&& forall|k: int|
        0 <= k < n ==> is_tag_spec(#[trigger] data.subrange(start + 8 * k, start + 8 * k + 4))
}

/// A body of `n` tagged entries gives exactly those `n` parameters, in order.
proof fn lemma_params_of_entries(data: Seq<u8>, start: int, n: nat)
    requires
        tagged_entries(data, start, n),
    ensures
        params_from(data, start, start + 8 * n) == entries_at(data, start, n),
    decreases n,
{
    if n == 0 {
        assert(entries_at(data, start, 0) =~= Seq::<ParamView>::empty());
    } else {
        let m = (n - 1) as nat;
        assert(tagged_entries(data, start + 8, m)) by {
            assert forall|k: int| 0 <= k < m implies is_tag_spec(
                #[trigger] data.subrange(start + 8 + 8 * k, start + 8 + 8 * k + 4),
            ) by {
                assert(data.subrange(start + 8 * (k + 1), start + 8 * (k + 1) + 4) == data.subrange(
                    start + 8 + 8 * k,
                    start + 8 + 8 * k + 4,
                ));
            }
        }
        lemma_params_of_entries(data, start + 8, m);
        assert(start + 8 + 8 * m == start + 8 * n);
        assert(is_tag_spec(data.subrange(start + 8 * 0, start + 8 * 0 + 4)));
        assert forall|k: int| 0 <= k < m implies #[trigger] entries_at(data, start + 8, m)[k]
            == entries_at(data, start, n)[k + 1] by {
            assert(start + 8 + 8 * k == start + 8 * (k + 1));
        }
        assert(params_from(data, start, start + 8 * n) =~= entries_at(data, start, n));
    }
}

/// A block's body spans `size_lo + 256 * size_hi` bytes after its header: a
/// block header whose size field is `8 * n`, followed by `n` tagged entries,
/// gives one block with the header's id and exactly those `n` parameters, in
/// order, and the table goes on right after them.
pub proof fn lemma_block_keeps_every_entry(data: Seq<u8>, off: int, n: nat)
    requires
        0 <= off,
        off + 4 <= data.len(),
        !is_tag_spec(data.subrange(off, off + 4)),
        data[off + 2] == BLOCK_MARKER,
        data[off] as int + 256 * data[off + 1] as int == 8 * n,
        tagged_entries(data, off + 4, n),
    ensures
        blocks_from(data, off) == seq![BlockView { id: data[off + 3], params: entries_at(data, off + 4, n) }]
            + blocks_from(data, off + 4 + 8 * n),
{
    lemma_params_of_entries(data, off + 4, n);
    let h = data.subrange(off, off + 4);
    assert(h[0] == data[off] && h[1] == data[off + 1] && h[2] == data[off + 2] && h[3] == data[off + 3]);
}

} // verus!
