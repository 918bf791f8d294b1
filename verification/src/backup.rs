//! A captured patch as raw `SysEx` block payloads: the unit of MIDI library
//! backup and restore.
//!
//! A [`PatchBackup`] is a device-faithful snapshot: the bytes the unit returned
//! for each block read (`01 <block>` answered by `12 <block> <payload>`).
//! Restoring writes those payloads back into the edit buffer (`00 <block>
//! <payload>`) and runs the store sequence. The read-only aggregate block
//! (`0x01`), the directory/commit blocks (`0x02..=0x04`) and the volatile store
//! counter (`0x34`) are not patch content and are never written back.

use vstd::prelude::*;
use vstd::relations::{sorted_by, total_ordering};

use crate::search::{find_first, lemma_first_at, lemma_first_none};

verus! {

/// The aggregate full-patch blob block: read-only, captured for reference only.
pub const AGGREGATE_BLOCK: u8 = 0x01;

/// The name block of the current sound.
pub const NAME_BLOCK: u8 = 0x05;

/// The FX-chain routing block.
pub const CHAIN_BLOCK: u8 = 0x08;

/// The store/revision counter block: it ticks on every store, so it never
/// round-trips and is neither restored nor verified.
pub const VOLATILE_BLOCK: u8 = 0x34;

/// The directory/commit blocks driven by the store sequence (`0x02` commit,
/// `0x03` begin, `0x04` directory entry).
pub open spec fn is_directory_block(id: u8) -> bool {
    id == 0x02 || id == 0x03 || id == 0x04
}

/// Whether a block is written back on restore: everything but the aggregate, the
/// directory/commit blocks and the volatile counter.
pub open spec fn restorable_id(id: u8) -> bool {
    id != AGGREGATE_BLOCK && !is_directory_block(id) && id != VOLATILE_BLOCK
}

/// The flat blocks known to be safe patch content: the name and the FX chain.
/// Every other flat block is device/system state and must never be written.
pub open spec fn safe_flat_block(id: u8) -> bool {
    id == NAME_BLOCK || id == CHAIN_BLOCK
}

/// What restore should do with a captured block.
#[derive(Debug, Clone, Copy, PartialEq, Eq, Structural)]
pub enum RestoreAction {
    /// Not written (read-only, directory/commit, volatile, or system state).
    Skip,
    /// Written whole: a safe flat patch-content block.
    WholeBlock,
    /// Replayed per parameter, keyed by target onto the live index.
    PerParam,
}

/// One record of a parameter-table block. `target` is the stable logical
/// parameter id; `index` is the physical slot, which the unit reassigns when it
/// rebuilds the table.
#[derive(Debug, Clone, Copy, PartialEq, Eq, Structural)]
pub struct ParamRecord {
    /// The current `0..=127` value.
    pub value: u8,
    /// The physical index in the live table (unstable across reloads).
    pub index: u8,
    /// The stable logical parameter id.
    pub target: u8,
}

/// One captured block: its id and the raw payload the unit returned.
#[derive(Debug, Clone, PartialEq, Eq)]
pub struct BlockData {
    /// The block id (the address byte in `01 <block>` / `00 <block> ...`).
    pub id: u8,
    /// The block payload bytes.
    pub bytes: Vec<u8>,
}

/// The mathematical form of a [`BlockData`].
#[verifier::ext_equal]
pub struct BlockView {
    /// The block id.
    pub id: u8,
    /// The payload.
    pub bytes: Seq<u8>,
}

impl View for BlockData {
    type V = BlockView;

    open spec fn view(&self) -> BlockView {
        BlockView { id: self.id, bytes: self.bytes@ }
    }
}

/// The record at position `k` of a parameter table's record area.
pub open spec fn record_at(records: Seq<u8>, k: int) -> ParamRecord {
    ParamRecord { value: records[3 * k], index: records[3 * k + 1], target: records[3 * k + 2] }
}

/// The records of a parameter table: a leading `count` byte, then exactly `count`
/// three-byte `[value][index][target]` records, with `count > 0`.
pub open spec fn param_records_spec(bytes: Seq<u8>) -> Option<Seq<ParamRecord>> {
    if bytes.len() == 0 {
        None
    } else {
        let count = bytes[0] as int;
        let records = bytes.skip(1);
        if count == 0 || records.len() != count * 3 {
            None
        } else {
            Some(Seq::new(count as nat, |k: int| record_at(records, k)))
        }
    }
}

/// How restore treats a block: parameter tables replay per parameter, safe flat
/// blocks are written whole, everything else is skipped.
pub open spec fn restore_action_spec(b: BlockView) -> RestoreAction {
    if !restorable_id(b.id) {
        RestoreAction::Skip
    } else if param_records_spec(b.bytes) is Some {
        RestoreAction::PerParam
    } else if safe_flat_block(b.id) {
        RestoreAction::WholeBlock
    } else {
        RestoreAction::Skip
    }
}

/// Lexicographic order on `(target, value)` pairs.
pub open spec fn pair_leq(a: (u8, u8), b: (u8, u8)) -> bool {
    a.0 < b.0 || (a.0 == b.0 && a.1 <= b.1)
}

/// The pair order as a relation value.
pub open spec fn pair_order() -> spec_fn((u8, u8), (u8, u8)) -> bool {
    |a: (u8, u8), b: (u8, u8)| pair_leq(a, b)
}

/// A record keyed by its stable target: `(target, value)`.
pub open spec fn target_value(r: ParamRecord) -> (u8, u8) {
    (r.target, r.value)
}

/// The `(target, value)` pairs of a parameter table, sorted: the reload-stable
/// form for comparing two captures of the same block.
pub open spec fn values_by_target_spec(bytes: Seq<u8>) -> Option<Seq<(u8, u8)>> {
    match param_records_spec(bytes) {
        Some(recs) => Some(recs.map_values(|r: ParamRecord| target_value(r)).sort_by(pair_order())),
        None => None,
    }
}

/// The pair order is a total order.
pub proof fn lemma_pair_leq_total()
    ensures
        total_ordering(pair_order()),
{
}

/// Whether `a` precedes or equals `b` in the pair order.
fn pair_le(a: (u8, u8), b: (u8, u8)) -> (r: bool)
    ensures
        r == pair_leq(a, b),
{
    a.0 < b.0 || (a.0 == b.0 && a.1 <= b.1)
}

/// Insert `x` into the sorted `v`, keeping it sorted.
fn insert_sorted(v: &mut Vec<(u8, u8)>, x: (u8, u8))
    requires
        sorted_by(old(v)@, pair_order()),
    ensures
        sorted_by(final(v)@, pair_order()),
        final(v)@.to_multiset() == old(v)@.to_multiset().insert(x),
{
    let ghost leq = pair_order();
    let mut pos: usize = 0;
    while pos < v.len() && !pair_le(x, v[pos])
        invariant
            pos <= v@.len(),
            v@ == old(v)@,
            forall|j: int| 0 <= j < pos ==> pair_leq(#[trigger] v@[j], x),
        decreases v@.len() - pos,
    {
        pos += 1;
    }
    proof {
        vstd::seq_lib::to_multiset_insert(v@, pos as int, x);
    }
    let ghost before = v@;
    v.insert(pos, x);
    assert forall|i: int, j: int| 0 <= i < j < v@.len() implies #[trigger] leq(v@[i], v@[j]) by {
        if j < pos {
        } else if j == pos {
            assert(pair_leq(before[i], x));
        } else if i == pos {
            assert(pos < before.len());
            assert(pair_leq(x, before[pos as int]));
            assert(leq(before[pos as int], before[j - 1]) || pos as int == j - 1);
        } else if i < pos {
            assert(leq(before[i], before[j - 1]));
        } else {
            assert(leq(before[i - 1], before[j - 1]));
        }
    }
}

impl BlockData {
    /// A copy of this block.
    pub fn duplicate(&self) -> (r: BlockData)
        ensures
            r@ == self@,
    {
        let bytes = self.bytes.clone();
        assert(bytes@ =~= self.bytes@);
        BlockData { id: self.id, bytes }
    }

    /// Whether this block is written back on restore (not the aggregate, not a
    /// directory/commit block, not the volatile counter).
    pub fn is_restorable(&self) -> (r: bool)
        ensures
            r == restorable_id(self.id),
    {
        self.id != AGGREGATE_BLOCK && !(self.id == 0x02 || self.id == 0x03 || self.id == 0x04)
            && self.id != VOLATILE_BLOCK
    }

    /// If this block is a parameter table (a leading `count` byte then `count`
    /// three-byte `[value][index][target]` records), its records.
    pub fn param_records(&self) -> (r: Option<Vec<ParamRecord>>)
        ensures
            match r {
                Some(v) => param_records_spec(self.bytes@) == Some(v@),
                None => param_records_spec(self.bytes@) is None,
            },
    {
        let n = self.bytes.len();
        if n == 0 {
            return None;
        }
        let count = self.bytes[0] as usize;
        if count == 0 || n - 1 != count * 3 {
            return None;
        }
        let ghost records = self.bytes@.skip(1);
        let mut out: Vec<ParamRecord> = Vec::new();
        let mut k: usize = 0;
        while k < count
            invariant
                k <= count,
                n == self.bytes@.len(),
                n - 1 == count * 3,
                records == self.bytes@.skip(1),
                out@.len() == k,
                forall|j: int| 0 <= j < k ==> #[trigger] out@[j] == record_at(records, j),
            decreases count - k,
        {
            let base = 1 + 3 * k;
            let rec = ParamRecord {
                value: self.bytes[base],
                index: self.bytes[base + 1],
                target: self.bytes[base + 2],
            };
            out.push(rec);
            k += 1;
        }
        assert(out@ =~= Seq::new(count as nat, |j: int| record_at(records, j)));
        Some(out)
    }

    /// Whether this block is a parameter table.
    pub fn is_param_table(&self) -> (r: bool)
        ensures
            r == param_records_spec(self.bytes@) is Some,
    {
        self.param_records().is_some()
    }

    /// How restore should write this block.
    pub fn restore_action(&self) -> (r: RestoreAction)
        ensures
            r == restore_action_spec(self@),
    {
        if !self.is_restorable() {
            RestoreAction::Skip
        } else if self.is_param_table() {
            RestoreAction::PerParam
        } else if self.id == NAME_BLOCK || self.id == CHAIN_BLOCK {
            RestoreAction::WholeBlock
        } else {
            RestoreAction::Skip
        }
    }

    /// The `(target, value)` pairs of a parameter table, sorted: the reload-stable
    /// form for comparing two captures of the same block.
    pub fn param_values_by_target(&self) -> (r: Option<Vec<(u8, u8)>>)
        ensures
            match r {
                Some(v) => values_by_target_spec(self.bytes@) == Some(v@),
                None => values_by_target_spec(self.bytes@) is None,
            },
    {
        let recs = match self.param_records() {
            Some(v) => v,
            None => return None,
        };
        let ghost leq = pair_order();
        let ghost pairs = recs@.map_values(|r: ParamRecord| target_value(r));
        let mut out: Vec<(u8, u8)> = Vec::new();
        let mut i: usize = 0;
        proof {
            assert(pairs.take(0) =~= Seq::<(u8, u8)>::empty());
            broadcast use vstd::multiset::group_multiset_axioms;
            assert(out@ =~= Seq::<(u8, u8)>::empty());
        }
        while i < recs.len()
            invariant
                i <= recs@.len(),
                leq == pair_order(),
                pairs == recs@.map_values(|r: ParamRecord| target_value(r)),
                sorted_by(out@, leq),
                out@.to_multiset() == pairs.take(i as int).to_multiset(),
            decreases recs@.len() - i,
        {
            let r = recs[i];
            insert_sorted(&mut out, (r.target, r.value));
            proof {
                assert(pairs.take(i + 1) =~= pairs.take(i as int).push(pairs[i as int]));
                vstd::seq_lib::to_multiset_build(pairs.take(i as int), pairs[i as int]);
            }
            i += 1;
        }
        proof {
            assert(pairs.take(recs@.len() as int) =~= pairs);
            lemma_pair_leq_total();
            pairs.lemma_sort_by_ensures(leq);
            vstd::seq_lib::lemma_sorted_unique(out@, pairs.sort_by(leq), leq);
        }
        Some(out)
    }
}

/// The reload-stable comparison ignores physical indices and record order: two
/// parameter tables whose records carry the same `(target, value)` pairs, in any
/// order and at any indices, give the same sorted pairs.
pub proof fn lemma_values_by_target_ignores_order_and_index(a: Seq<u8>, b: Seq<u8>)
    requires
        param_records_spec(a) is Some,
        param_records_spec(b) is Some,
        param_records_spec(a).unwrap().map_values(|r: ParamRecord| target_value(r)).to_multiset()
            == param_records_spec(b).unwrap().map_values(|r: ParamRecord| target_value(r)).to_multiset(),
    ensures
        values_by_target_spec(a) == values_by_target_spec(b),
{
    let leq = pair_order();
    let pa = param_records_spec(a).unwrap().map_values(|r: ParamRecord| target_value(r));
    let pb = param_records_spec(b).unwrap().map_values(|r: ParamRecord| target_value(r));
    lemma_pair_leq_total();
    pa.lemma_sort_by_ensures(leq);
    pb.lemma_sort_by_ensures(leq);
    vstd::seq_lib::lemma_sorted_unique(pa.sort_by(leq), pb.sort_by(leq), leq);
}

/// A device-faithful snapshot of one patch: its name and captured block payloads.
#[derive(Debug, Clone, PartialEq, Eq)]
pub struct PatchBackup {
    /// The patch name (from the name block at capture time).
    pub name: String,
    /// Captured blocks, in capture order.
    pub blocks: Vec<BlockData>,
}

/// The mathematical form of a [`PatchBackup`].
#[verifier::ext_equal]
pub struct PatchBackupView {
    /// The patch name.
    pub name: Seq<char>,
    /// The captured blocks, in order.
    pub blocks: Seq<BlockView>,
}

/// The views of a sequence of blocks.
pub open spec fn block_views(s: Seq<BlockData>) -> Seq<BlockView> {
    s.map_values(|b: BlockData| b@)
}

impl View for PatchBackup {
    type V = PatchBackupView;

    open spec fn view(&self) -> PatchBackupView {
        PatchBackupView { name: self.name@, blocks: block_views(self.blocks@) }
    }
}

/// A block that is written back on restore.
pub open spec fn restorable_block() -> spec_fn(BlockView) -> bool {
    |b: BlockView| restorable_id(b.id)
}

/// A block with the given id.
pub open spec fn block_with_id(id: u8) -> spec_fn(BlockView) -> bool {
    |b: BlockView| b.id == id
}

/// Copy a sequence of blocks.
pub fn duplicate_blocks(blocks: &Vec<BlockData>) -> (r: Vec<BlockData>)
    ensures
        block_views(r@) == block_views(blocks@),
{
    let mut out: Vec<BlockData> = Vec::new();
    let mut i: usize = 0;
    while i < blocks.len()
        invariant
            i <= blocks@.len(),
            out@.len() == i,
            block_views(out@) =~= block_views(blocks@).take(i as int),
        decreases blocks@.len() - i,
    {
        let d = blocks[i].duplicate();
        let ghost prev = out@;
        out.push(d);
        assert(out@ == prev.push(d));
        assert forall|k: int| 0 <= k < i + 1 implies #[trigger] block_views(out@)[k] == block_views(
            blocks@,
        ).take(i + 1)[k] by {
            if k < i {
                assert(block_views(prev)[k] == block_views(blocks@).take(i as int)[k]);
            } else {
                assert(d@ == blocks@[i as int]@);
            }
        }
        assert(block_views(out@) =~= block_views(blocks@).take(i + 1));
        i += 1;
    }
    assert(block_views(blocks@).take(blocks@.len() as int) =~= block_views(blocks@));
    out
}

impl PatchBackup {
    /// Build a backup from a name and its captured blocks.
    pub fn new(name: &str, blocks: Vec<BlockData>) -> (r: PatchBackup)
        ensures
            r.name@ == name@,
            r.blocks == blocks,
    {
        PatchBackup { name: String::from_str(name), blocks }
    }

    /// A copy of this backup.
    pub fn duplicate(&self) -> (r: PatchBackup)
        ensures
            r@ == self@,
    {
        PatchBackup { name: self.name.clone(), blocks: duplicate_blocks(&self.blocks) }
    }

    /// The blocks that are written back on restore, in capture order (the
    /// aggregate, directory/commit and volatile blocks left out).
    pub fn restorable(&self) -> (r: Vec<BlockData>)
        ensures
            block_views(r@) == self@.blocks.filter(restorable_block()),
    {
        let ghost all = self@.blocks;
        let mut out: Vec<BlockData> = Vec::new();
        let mut i: usize = 0;
        while i < self.blocks.len()
            invariant
                i <= self.blocks@.len(),
                all == self@.blocks,
                all.len() == self.blocks@.len(),
                block_views(out@) =~= all.take(i as int).filter(restorable_block()),
            decreases self.blocks@.len() - i,
        {
            proof {
                reveal_with_fuel(Seq::filter, 1);
                assert(all.take(i + 1).drop_last() =~= all.take(i as int));
                assert(all.take(i + 1).last() == all[i as int]);
            }
            if self.blocks[i].is_restorable() {
                out.push(self.blocks[i].duplicate());
            }
            i += 1;
        }
        assert(all.take(all.len() as int) =~= all);
        out
    }

    /// The captured payload of a given block, if present (the first block with
    /// that id).
    pub fn block(&self, id: u8) -> (r: Option<&[u8]>)
        ensures
            match r {
                Some(bytes) => exists|b: BlockView|
                    find_first(self@.blocks, block_with_id(id)) == Some(b) && b.bytes == bytes@,
                None => find_first(self@.blocks, block_with_id(id)) is None,
            },
    {
        let ghost all = self@.blocks;
        let ghost pr = block_with_id(id);
        let mut i: usize = 0;
        while i < self.blocks.len()
            invariant
                i <= self.blocks@.len(),
                all == self@.blocks,
                all.len() == self.blocks@.len(),
                pr == block_with_id(id),
                forall|j: int| 0 <= j < i ==> !pr(#[trigger] all[j]),
            decreases self.blocks@.len() - i,
        {
            if self.blocks[i].id == id {
                proof {
                    lemma_first_at(all, pr, i as int);
                }
                let r = self.blocks[i].bytes.as_slice();
                assert(find_first(all, pr) == Some(all[i as int]) && all[i as int].bytes == r@);
                return Some(r);
            }
            i += 1;
        }
        proof {
            lemma_first_none(all, pr);
        }
        None
    }
}

} // verus!
