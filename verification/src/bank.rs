//! The patch-bank device interface: the management-level operations (Program
//! Change, capture / restore, store, block reads, MIDI CC) over which the
//! management layer drives either real hardware or the in-memory [`MockEleven`].

use vstd::prelude::*;
use vstd::slice::slice_to_vec;
use vstd::utf8::encode_utf8;
use std::collections::BTreeMap;

use crate::backup::{
    block_views, block_with_id, BlockData, BlockView, PatchBackup, PatchBackupView,
    AGGREGATE_BLOCK, NAME_BLOCK,
};
use crate::error::Result;
use crate::search::{find_first, first_index, lemma_first_at, lemma_first_none};

verus! {

broadcast use vstd::laws_cmp::group_laws_cmp;

/// Block id of the on-device directory (`04 <hi> <lo>` names a User slot).
pub const DIRECTORY_BLOCK: u8 = 0x04;

/// Block id of a slot's whole packed patch, read with no Program Change
/// (`00 <slot>`).
pub const SLOT_PATCH_BLOCK: u8 = 0x00;

/// The length of a mock aggregate image.
pub const MOCK_IMAGE_LEN: usize = 48;

/// One management operation as the device carried it out, with its outcome.
pub enum DeviceOp {
    /// Bank Select and Program Change, and whether they went through.
    Select { bank: u8, slot: u8, ok: bool },
    /// An edit-buffer capture and the patch it returned, if any.
    Capture { result: Option<PatchBackupView> },
    /// A restore of a patch into a User slot.
    Restore { slot: u16, patch: PatchBackupView, ok: bool },
    /// A store of the edit buffer to a User slot under a name.
    Store { slot: u16, name: Seq<char>, ok: bool },
    /// A block read and the payload it returned, if any.
    ReadBlock { addr: Seq<u8>, result: Option<Seq<u8>> },
    /// A live parameter write.
    WriteParam { addr: Seq<u8>, value: u8, ok: bool },
    /// A MIDI Control Change.
    SendCc { channel: u8, cc: u8, value: u8, ok: bool },
}

/// The outcome of a unit result as a flag.
pub open spec fn went_through(r: Result<()>) -> bool {
    r is Ok
}

/// The management-level device operations, over real hardware or a mock. Each
/// operation is recorded in the device's history with what it was handed and
/// what came back.
pub trait ElevenDevice {
    /// The operations carried out so far, oldest first.
    spec fn history(&self) -> Seq<DeviceOp>;

    /// Select a patch: Bank Select (`bank`) then Program Change (`slot`).
    fn select_rig(&mut self, bank: u8, slot: u8) -> (r: Result<()>)
        ensures
            final(self).history() == old(self).history().push(
                DeviceOp::Select { bank, slot, ok: went_through(r) },
            ),
    ;

    /// Capture the current edit buffer as a [`PatchBackup`].
    fn capture_patch(&mut self) -> (r: Result<PatchBackup>)
        ensures
            final(self).history() == old(self).history().push(
                DeviceOp::Capture {
                    result: match r {
                        Ok(p) => Some(p@),
                        Err(_) => None,
                    },
                },
            ),
    ;

    /// Restore a [`PatchBackup`] into User `slot` (edit-buffer write + store).
    fn restore_patch(&mut self, slot: u16, patch: &PatchBackup) -> (r: Result<()>)
        ensures
            final(self).history() == old(self).history().push(
                DeviceOp::Restore { slot, patch: patch@, ok: went_through(r) },
            ),
    ;

    /// Persist the current edit buffer to User `slot`, naming it `name`.
    fn store(&mut self, slot: u16, name: &str) -> (r: Result<()>)
        ensures
            final(self).history() == old(self).history().push(
                DeviceOp::Store { slot, name: name@, ok: went_through(r) },
            ),
    ;

    /// Read a block: `01 <addr>` gives the payload after the echoed address.
    fn read_block(&mut self, addr: &[u8]) -> (r: Result<Vec<u8>>)
        ensures
            final(self).history() == old(self).history().push(
                DeviceOp::ReadBlock {
                    addr: addr@,
                    result: match r {
                        Ok(v) => Some(v@),
                        Err(_) => None,
                    },
                },
            ),
    ;

    /// Set a live parameter (edit buffer only); `addr` is the bytes after the
    /// `0x11` parameter prefix.
    fn write_param(&mut self, addr: &[u8], value: u8) -> (r: Result<()>)
        ensures
            final(self).history() == old(self).history().push(
                DeviceOp::WriteParam { addr: addr@, value, ok: went_through(r) },
            ),
    ;

    /// Send a MIDI Control Change (`Bn <cc> <value>`).
    fn send_cc(&mut self, channel: u8, cc: u8, value: u8) -> (r: Result<()>)
        ensures
            final(self).history() == old(self).history().push(
                DeviceOp::SendCc { channel, cc, value, ok: went_through(r) },
            ),
    ;
}

/// The names of the eight factory presets, in slot order.
pub open spec fn preset_names() -> Seq<Seq<char>> {
    seq![
        "Big Blue"@,
        "Chorus Clean"@,
        "Bolder Axe"@,
        "Browntown"@,
        "Basie Phase"@,
        "Jangly Stereo"@,
        "Sandstage"@,
        "Austin Rotary"@,
    ]
}

/// The NUL-terminated UTF-8 bytes of a name.
pub open spec fn name_payload(name: Seq<char>) -> Seq<u8> {
    encode_utf8(name).push(0)
}

/// The mock aggregate image: the NUL-terminated name, then (up to
/// [`MOCK_IMAGE_LEN`] bytes) a fill of `seed` plus the byte's position, wrapping.
pub open spec fn mock_image(name: Seq<char>, seed: u8) -> Seq<u8> {
    let base = name_payload(name);
    let n = if base.len() < MOCK_IMAGE_LEN { MOCK_IMAGE_LEN as int } else { base.len() as int };
    Seq::new(n as nat, |i: int| if i < base.len() { base[i] } else { ((seed + i) % 256) as u8 })
}

/// The deterministic mock patch: a name block and an aggregate block.
pub open spec fn mock_patch_spec(name: Seq<char>, seed: u8) -> PatchBackupView {
    PatchBackupView {
        name,
        blocks: seq![
            BlockView { id: NAME_BLOCK, bytes: name_payload(name) },
            BlockView { id: AGGREGATE_BLOCK, bytes: mock_image(name, seed) },
        ],
    }
}

/// The payload of the first block with `id`, or nothing.
pub open spec fn block_payload(p: PatchBackupView, id: u8) -> Seq<u8> {
    match find_first(p.blocks, block_with_id(id)) {
        Some(b) => b.bytes,
        None => Seq::empty(),
    }
}

/// The views of a map of patches.
pub open spec fn bank_views(m: Map<u8, PatchBackup>) -> Map<u8, PatchBackupView> {
    m.map_values(|p: PatchBackup| p@)
}

/// The mathematical form of a [`MockEleven`].
#[verifier::ext_equal]
pub struct MockView {
    /// The User bank.
    pub user: Map<u8, PatchBackupView>,
    /// The Factory bank.
    pub factory: Map<u8, PatchBackupView>,
    /// The edit buffer.
    pub buffer: PatchBackupView,
}

/// The directory index addressed by `04 <hi> <lo>`.
pub open spec fn directory_index(hi: u8, lo: u8) -> u16 {
    ((hi as u16) << 7u16) | (lo as u16)
}

/// The bank a Bank Select value names: `1` is Factory, anything else User.
pub open spec fn bank_of(m: MockView, bank: u8) -> Map<u8, PatchBackupView> {
    if bank == 1 {
        m.factory
    } else {
        m.user
    }
}

/// What the mock answers to a block read of `addr`.
pub open spec fn mock_read(m: MockView, addr: Seq<u8>) -> Seq<u8> {
    if addr.len() == 3 && addr[0] == DIRECTORY_BLOCK {
        let idx = directory_index(addr[1], addr[2]);
        if idx < 256 && m.user.contains_key(idx as u8) {
            name_payload(m.user[idx as u8].name)
        } else {
            seq![0u8]
        }
    } else if addr.len() == 2 && addr[0] == SLOT_PATCH_BLOCK {
        if m.user.contains_key(addr[1]) {
            block_payload(m.user[addr[1]], AGGREGATE_BLOCK)
        } else {
            Seq::empty()
        }
    } else if addr.len() == 1 {
        block_payload(m.buffer, addr[0])
    } else {
        Seq::empty()
    }
}

/// The edit buffer after a store under `name`: renamed, and its first name block
/// (if any) rewritten to the new name.
pub open spec fn renamed(buf: PatchBackupView, name: Seq<char>) -> PatchBackupView {
    PatchBackupView {
        name,
        blocks: match first_index(buf.blocks, block_with_id(NAME_BLOCK)) {
            Some(i) => buf.blocks.update(i, BlockView { id: NAME_BLOCK, bytes: name_payload(name) }),
            None => buf.blocks,
        },
    }
}

/// The User bank after persisting `p` to `slot` (a slot beyond a byte is not
/// kept).
pub open spec fn persisted(user: Map<u8, PatchBackupView>, slot: u16, p: PatchBackupView) -> Map<
    u8,
    PatchBackupView,
> {
    if slot < 256 {
        user.insert(slot as u8, p)
    } else {
        user
    }
}

/// An in-memory Eleven Rack: a User and a Factory bank and an edit buffer, seeded
/// with the factory preset names so the whole management layer runs with no
/// hardware.
#[derive(Clone)]
pub struct MockEleven {
    user: BTreeMap<u8, PatchBackup>,
    factory: BTreeMap<u8, PatchBackup>,
    buffer: PatchBackup,
    log: Ghost<Seq<DeviceOp>>,
}

impl View for MockEleven {
    type V = MockView;

    closed spec fn view(&self) -> MockView {
        MockView {
            user: bank_views(self.user@),
            factory: bank_views(self.factory@),
            buffer: self.buffer@,
        }
    }
}

/// The name of factory preset `i`.
fn preset_name(i: u8) -> (r: &'static str)
    requires
        i < 8,
    ensures
        r@ == preset_names()[i as int],
{
    match i {
        0 => "Big Blue",
        1 => "Chorus Clean",
        2 => "Bolder Axe",
        3 => "Browntown",
        4 => "Basie Phase",
        5 => "Jangly Stereo",
        6 => "Sandstage",
        _ => "Austin Rotary",
    }
}

/// The seeded banks: the factory presets in slots `0..8`.
pub open spec fn seeded_bank() -> Map<u8, PatchBackupView> {
    Map::new(|k: u8| k < 8, |k: u8| mock_patch_spec(preset_names()[k as int], k))
}

/// Build a deterministic mock patch: a name block and an aggregate block whose
/// bytes embed the name and a per-slot fill, so distinct patches differ.
pub fn mock_patch(name: &str, seed: u8) -> (r: PatchBackup)
    ensures
        r@ == mock_patch_spec(name@, seed),
{
    let mut agg: Vec<u8> = slice_to_vec(name.as_bytes());
    agg.push(0);
    let ghost base = agg@;
    assert(base =~= name_payload(name@));
    while agg.len() < MOCK_IMAGE_LEN
        invariant
            base == name_payload(name@),
            base.len() <= agg@.len(),
            agg@.len() <= MOCK_IMAGE_LEN || agg@.len() == base.len(),
            forall|i: int|
                0 <= i < agg@.len() ==> #[trigger] agg@[i] == (if i < base.len() {
                    base[i]
                } else {
                    ((seed + i) % 256) as u8
                }),
        decreases MOCK_IMAGE_LEN - agg@.len(),
    {
        let n: u8 = agg.len() as u8;
        let b: u8 = seed.wrapping_add(n);
        assert(b == ((seed + agg@.len()) % 256) as u8);
        agg.push(b);
    }
    assert(agg@ =~= mock_image(name@, seed));
    let mut nm: Vec<u8> = slice_to_vec(name.as_bytes());
    nm.push(0);
    let blocks = vec![
        BlockData { id: NAME_BLOCK, bytes: nm },
        BlockData { id: AGGREGATE_BLOCK, bytes: agg },
    ];
    let r = PatchBackup::new(name, blocks);
    assert(r@.blocks =~= mock_patch_spec(name@, seed).blocks);
    r
}

/// A copy of a payload, or nothing.
fn payload_or_empty(b: Option<&[u8]>) -> (r: Vec<u8>)
    ensures
        r@ == (match b {
            Some(s) => s@,
            None => Seq::empty(),
        }),
{
    match b {
        Some(s) => slice_to_vec(s),
        None => Vec::new(),
    }
}

impl MockEleven {
    /// A mock seeded with the eight factory-preset names in slots `0..8` of both
    /// banks; the remaining User slots are empty and the buffer holds slot `0`.
    pub fn new() -> (r: MockEleven)
        ensures
            r.history() == Seq::<DeviceOp>::empty(),
            r@.user == seeded_bank(),
            r@.factory == seeded_bank(),
            r@.buffer == mock_patch_spec(preset_names()[0], 0),
    {
        let mut user: BTreeMap<u8, PatchBackup> = BTreeMap::new();
        let mut factory: BTreeMap<u8, PatchBackup> = BTreeMap::new();
        let mut i: u8 = 0;
        while i < 8
            invariant
                i <= 8,
                bank_views(user@) =~= Map::new(
                    |k: u8| k < i,
                    |k: u8| mock_patch_spec(preset_names()[k as int], k),
                ),
                bank_views(factory@) =~= Map::new(
                    |k: u8| k < i,
                    |k: u8| mock_patch_spec(preset_names()[k as int], k),
                ),
            decreases 8 - i,
        {
            let name = preset_name(i);
            let pu = mock_patch(name, i);
            let pf = mock_patch(name, i);
            let ghost before_user = bank_views(user@);
            let ghost before_factory = bank_views(factory@);
            user.insert(i, pu);
            factory.insert(i, pf);
            assert(bank_views(user@) =~= before_user.insert(i, pu@));
            assert(bank_views(factory@) =~= before_factory.insert(i, pf@));
            i += 1;
        }
        assert(bank_views(user@).contains_key(0u8));
        let buffer = match user.get(&0) {
            Some(p) => p.duplicate(),
            None => mock_patch("Empty", 0),
        };
        assert(buffer@ == bank_views(user@)[0u8]);
        let r = MockEleven { user, factory, buffer, log: Ghost(Seq::empty()) };
        assert(r@.user =~= seeded_bank());
        assert(r@.factory =~= seeded_bank());
        r
    }

    /// The bank named by a Bank Select value: `1` is Factory, any other User.
    fn bank(&self, bank: u8) -> (r: &BTreeMap<u8, PatchBackup>)
        ensures
            bank_views(r@) == bank_of(self@, bank),
    {
        if bank == 1 {
            &self.factory
        } else {
            &self.user
        }
    }
}

impl Default for MockEleven {
    fn default() -> (r: MockEleven)
        ensures
            r.history() == Seq::<DeviceOp>::empty(),
            r@.user == seeded_bank(),
            r@.factory == seeded_bank(),
            r@.buffer == mock_patch_spec(preset_names()[0], 0),
    {
        MockEleven::new()
    }
}

/// The position of the first name block, if any.
fn name_block_index(blocks: &Vec<BlockData>) -> (r: Option<usize>)
    ensures
        match r {
            Some(i) => first_index(block_views(blocks@), block_with_id(NAME_BLOCK)) == Some(
                i as int,
            ),
            None => first_index(block_views(blocks@), block_with_id(NAME_BLOCK)) is None,
        },
{
    let ghost all = block_views(blocks@);
    let ghost pr = block_with_id(NAME_BLOCK);
    let mut i: usize = 0;
    while i < blocks.len()
        invariant
            i <= blocks@.len(),
            all == block_views(blocks@),
            pr == block_with_id(NAME_BLOCK),
            forall|j: int| 0 <= j < i ==> !pr(#[trigger] all[j]),
        decreases blocks@.len() - i,
    {
        if blocks[i].id == NAME_BLOCK {
            proof {
                assert(all[i as int] == blocks@[i as int]@);
                lemma_first_at(all, pr, i as int);
            }
            return Some(i);
        }
        assert(all[i as int] == blocks@[i as int]@);
        i += 1;
    }
    proof {
        lemma_first_none(all, pr);
        assert(first_index(all, pr) is None) by {
            if exists|k: int| crate::search::is_first(all, pr, k) {
                let k = choose|k: int| crate::search::is_first(all, pr, k);
                assert(pr(all[k]));
            }
        }
    }
    None
}

impl ElevenDevice for MockEleven {
    closed spec fn history(&self) -> Seq<DeviceOp> {
        self.log@
    }

    /// Load the slot (if the bank has it) into the edit buffer.
    fn select_rig(&mut self, bank: u8, slot: u8) -> (r: Result<()>)
        ensures
            r is Ok,
            final(self)@.user == old(self)@.user,
            final(self)@.factory == old(self)@.factory,
            final(self)@.buffer == (if bank_of(old(self)@, bank).contains_key(slot) {
                bank_of(old(self)@, bank)[slot]
            } else {
                old(self)@.buffer
            }),
    {
        let found = match self.bank(bank).get(&slot) {
            Some(p) => Some(p.duplicate()),
            None => None,
        };
        if let Some(p) = found {
            self.buffer = p;
        }
        self.log = Ghost(self.log@.push(DeviceOp::Select { bank, slot, ok: true }));
        Ok(())
    }

    /// The edit buffer.
    fn capture_patch(&mut self) -> (r: Result<PatchBackup>)
        ensures
            final(self)@ == old(self)@,
            match r {
                Ok(p) => p@ == old(self)@.buffer,
                Err(_) => false,
            },
    {
        let p = self.buffer.duplicate();
        self.log = Ghost(self.log@.push(DeviceOp::Capture { result: Some(p@) }));
        Ok(p)
    }

    /// The patch becomes the edit buffer and is persisted to `slot`.
    fn restore_patch(&mut self, slot: u16, patch: &PatchBackup) -> (r: Result<()>)
        ensures
            r is Ok,
            final(self)@.buffer == patch@,
            final(self)@.user == persisted(old(self)@.user, slot, patch@),
            final(self)@.factory == old(self)@.factory,
    {
        self.buffer = patch.duplicate();
        if slot < 256 {
            self.user.insert(slot as u8, patch.duplicate());
            assert(bank_views(self.user@) =~= old(self)@.user.insert(slot as u8, patch@));
        }
        self.log = Ghost(self.log@.push(DeviceOp::Restore { slot, patch: patch@, ok: true }));
        Ok(())
    }

    /// The edit buffer, renamed, is persisted to `slot` and stays the buffer.
    fn store(&mut self, slot: u16, name: &str) -> (r: Result<()>)
        ensures
            r is Ok,
            final(self)@.buffer == renamed(old(self)@.buffer, name@),
            final(self)@.user == persisted(old(self)@.user, slot, renamed(old(self)@.buffer, name@)),
            final(self)@.factory == old(self)@.factory,
    {
        let mut p = self.buffer.duplicate();
        p.name = String::from_str(name);
        let mut nm: Vec<u8> = slice_to_vec(name.as_bytes());
        nm.push(0);
        let ghost before = p.blocks@;
        match name_block_index(&p.blocks) {
            Some(i) => {
                p.blocks.set(i, BlockData { id: NAME_BLOCK, bytes: nm });
                assert(block_views(p.blocks@) =~= block_views(before).update(
                    i as int,
                    BlockView { id: NAME_BLOCK, bytes: name_payload(name@) },
                ));
            },
            None => {},
        }
        assert(p@ =~= renamed(old(self)@.buffer, name@));
        self.buffer = p.duplicate();
        if slot < 256 {
            self.user.insert(slot as u8, p);
            assert(bank_views(self.user@) =~= old(self)@.user.insert(
                slot as u8,
                renamed(old(self)@.buffer, name@),
            ));
        }
        self.log = Ghost(self.log@.push(DeviceOp::Store { slot, name: name@, ok: true }));
        Ok(())
    }

    /// Serve the directory, direct-slot and edit-buffer blocks.
    fn read_block(&mut self, addr: &[u8]) -> (r: Result<Vec<u8>>)
        ensures
            final(self)@ == old(self)@,
            match r {
                Ok(v) => v@ == mock_read(old(self)@, addr@),
                Err(_) => false,
            },
    {
        let v = self.answer(addr);
        self.log = Ghost(self.log@.push(DeviceOp::ReadBlock { addr: addr@, result: Some(v@) }));
        Ok(v)
    }

    /// Accepted; the mock keeps no live parameters.
    fn write_param(&mut self, addr: &[u8], value: u8) -> (r: Result<()>)
        ensures
            r is Ok,
            final(self)@ == old(self)@,
    {
        self.log = Ghost(self.log@.push(DeviceOp::WriteParam { addr: addr@, value, ok: true }));
        Ok(())
    }

    /// Accepted; the mock has no MIDI output.
    fn send_cc(&mut self, channel: u8, cc: u8, value: u8) -> (r: Result<()>)
        ensures
            r is Ok,
            final(self)@ == old(self)@,
    {
        self.log = Ghost(self.log@.push(DeviceOp::SendCc { channel, cc, value, ok: true }));
        Ok(())
    }
}

impl MockEleven {
    /// What the mock answers to a block read of `addr`.
    fn answer(&self, addr: &[u8]) -> (r: Vec<u8>)
        ensures
            r@ == mock_read(self@, addr@),
    {
        if addr.len() == 3 && addr[0] == DIRECTORY_BLOCK {
            let idx: u16 = ((addr[1] as u16) << 7u16) | (addr[2] as u16);
            let mut v: Vec<u8> = Vec::new();
            if idx < 256 {
                match self.user.get(&(idx as u8)) {
                    Some(p) => {
                        v = slice_to_vec(p.name.as_str().as_bytes());
                    },
                    None => {},
                }
            }
            v.push(0);
            assert(v@ =~= mock_read(self@, addr@));
            v
        } else if addr.len() == 2 && addr[0] == SLOT_PATCH_BLOCK {
            let v = match self.user.get(&addr[1]) {
                Some(p) => payload_or_empty(p.block(AGGREGATE_BLOCK)),
                None => Vec::new(),
            };
            proof {
                if self@.user.contains_key(addr@[1]) {
                    assert(self.user@.contains_key(addr@[1]));
                }
            }
            assert(v@ =~= mock_read(self@, addr@));
            v
        } else if addr.len() == 1 {
            let v = payload_or_empty(self.buffer.block(addr[0]));
            assert(v@ =~= mock_read(self@, addr@));
            v
        } else {
            Vec::new()
        }
    }
}

/// The mock after a store of its edit buffer to `slot` under `name`.
pub open spec fn after_store(m: MockView, slot: u16, name: Seq<char>) -> MockView {
    MockView {
        user: persisted(m.user, slot, renamed(m.buffer, name)),
        factory: m.factory,
        buffer: renamed(m.buffer, name),
    }
}

/// The mock after a restore of `p` to `slot`.
pub open spec fn after_restore(m: MockView, slot: u16, p: PatchBackupView) -> MockView {
    MockView { user: persisted(m.user, slot, p), factory: m.factory, buffer: p }
}

/// After restoring a patch to a User slot, a direct read of that slot's packed
/// patch (`00 <slot>`) gives the patch's aggregate block, with no Program
/// Change.
pub proof fn lemma_restore_then_slot_read(m: MockView, slot: u8, p: PatchBackupView)
    ensures
        mock_read(after_restore(m, slot as u16, p), seq![SLOT_PATCH_BLOCK, slot]) == block_payload(
            p,
            AGGREGATE_BLOCK,
        ),
{
    let a = after_restore(m, slot as u16, p);
    assert(a.user.contains_key(slot));
}

/// A store renames the edit buffer and leaves the Factory bank alone.
pub proof fn lemma_store_renames(m: MockView, slot: u16, name: Seq<char>)
    ensures
        after_store(m, slot, name).buffer.name == name,
        after_store(m, slot, name).factory == m.factory,
        slot < 256 ==> after_store(m, slot, name).user[slot as u8] == after_store(
            m,
            slot,
            name,
        ).buffer,
{
}

} // verus!
