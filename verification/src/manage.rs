//! Device-touching management operations shared by every frontend: capture,
//! restore with read-back verify, the patch directory, whole-bank scenes, preset
//! copy and named MIDI-CC remote control, over any [`ElevenDevice`].
//!
//! Errors are `String` messages; each names the step that failed and carries the
//! device error's text.

use vstd::prelude::*;
use vstd::slice::slice_to_vec;
use std::collections::BTreeMap;

use crate::backup::{
    block_with_id, lemma_pair_leq_total, pair_order, param_records_spec, restorable_id,
    target_value, values_by_target_spec, restore_action_spec, BlockData, ParamRecord,
    BlockView, PatchBackup, PatchBackupView, RestoreAction, AGGREGATE_BLOCK, NAME_BLOCK,
};
use crate::bank::{
    after_restore, after_store, bank_views, directory_index, mock_read, name_payload, DeviceOp, ElevenDevice,
    MockView, DIRECTORY_BLOCK,
};
use crate::device::bytes_equal;
use crate::error::{error_message, Error};
use crate::param::{effect, effect_spec, resolve_cc, resolve_cc_spec, Kind, Slot};
use crate::search::{find_first, is_first, lemma_first_at, lemma_first_none};
use crate::text::{
    debug_str, debug_text, dec, digit, digit_char, hex_prefixed_upper, push_char,
    push_decimal, push_hex_prefixed_upper, trim, trim_spec,
};
use crate::tfx::{before_nul, printable, zero_byte};

verus! {

broadcast use vstd::laws_cmp::group_laws_cmp;

/// The User bank (Bank Select `0`).
pub const USER_BANK: u8 = 0;

/// The Factory bank (Bank Select `1`; read-only presets).
pub const FACTORY_BANK: u8 = 1;

// ---- slot labels and names ----

/// `U` and the slot number as three decimal digits.
pub open spec fn slot_label_spec(slot: u8) -> Seq<char> {
    seq![
        'U',
        digit_char((slot / 100) as nat),
        digit_char(((slot / 10) % 10) as nat),
        digit_char((slot % 10) as nat),
    ]
}

/// A User patch slot as a stable library name: slot `0` is `"U000"`.
pub fn slot_label(slot: u8) -> (r: String)
    ensures
        r@ == slot_label_spec(slot),
{
    let mut s = String::new();
    push_char(&mut s, 'U');
    push_char(&mut s, digit((slot / 100) as u64));
    push_char(&mut s, digit(((slot / 10) % 10) as u64));
    push_char(&mut s, digit((slot % 10) as u64));
    assert(s@ =~= slot_label_spec(slot));
    s
}

/// A printable ASCII byte.
pub open spec fn printable_byte() -> spec_fn(u8) -> bool {
    |b: u8| printable(b)
}

/// The patch name a name or directory payload carries: the printable ASCII
/// bytes before the first NUL, as characters, trimmed.
pub open spec fn payload_name(payload: Seq<u8>) -> Seq<char> {
    trim_spec(before_nul(payload).filter(printable_byte()).map_values(|b: u8| b as char))
}

/// Extract a printable-ASCII patch name from a name or directory block payload:
/// the NUL-terminated name from byte 0, non-printable bytes dropped, trimmed.
pub fn block_name(payload: &[u8]) -> (r: String)
    ensures
        r@ == payload_name(payload@),
{
    let ghost pr = printable_byte();
    let ghost z = zero_byte();
    let mut s = String::new();
    let mut i: usize = 0;
    while i < payload.len() && payload[i] != 0
        invariant
            i <= payload@.len(),
            pr == printable_byte(),
            z == zero_byte(),
            forall|j: int| 0 <= j < i ==> !z(#[trigger] payload@[j]),
            s@ == payload@.take(i as int).filter(pr).map_values(|b: u8| b as char),
        decreases payload@.len() - i,
    {
        let b = payload[i];
        proof {
            reveal_with_fuel(Seq::filter, 1);
            assert(payload@.take(i + 1).drop_last() =~= payload@.take(i as int));
            assert(payload@.take(i + 1).last() == b);
        }
        let ghost prev = payload@.take(i as int).filter(pr);
        if 0x20 <= b && b < 0x7f {
            push_char(&mut s, b as char);
            assert(payload@.take(i + 1).filter(pr) == prev.push(b));
            assert(prev.push(b).map_values(|b: u8| b as char) =~= prev.map_values(
                |b: u8| b as char,
            ).push(b as char));
        } else {
            assert(payload@.take(i + 1).filter(pr) == prev);
        }
        i += 1;
    }
    proof {
        if i < payload.len() {
            lemma_first_at(payload@, z, i as int);
            assert(before_nul(payload@) == payload@.take(i as int));
        } else {
            lemma_first_none(payload@, z);
            assert(payload@.take(i as int) =~= payload@);
        }
    }
    trim(s.as_str())
}

// ---- verify reports ----

/// The outcome of a restore's read-back verify.
#[derive(Debug, Clone)]
pub struct VerifyReport {
    /// Blocks written back (the restorable ones).
    pub written: usize,
    /// Of those, how many read back matching.
    pub matched: usize,
    /// Block ids that did not match on read-back.
    pub mismatched: Vec<u8>,
}

/// The mathematical form of a [`VerifyReport`].
#[verifier::ext_equal]
pub struct ReportView {
    /// Blocks written back.
    pub written: nat,
    /// Blocks that matched.
    pub matched: nat,
    /// Ids of the blocks that differed, in patch order.
    pub mismatched: Seq<u8>,
}

impl View for VerifyReport {
    type V = ReportView;

    open spec fn view(&self) -> ReportView {
        ReportView {
            written: self.written as nat,
            matched: self.matched as nat,
            mismatched: self.mismatched@,
        }
    }
}

/// The empty report.
pub open spec fn empty_report() -> ReportView {
    ReportView { written: 0, matched: 0, mismatched: Seq::empty() }
}

impl Default for VerifyReport {
    fn default() -> (r: VerifyReport)
        ensures
            r@ == empty_report(),
    {
        VerifyReport { written: 0, matched: 0, mismatched: Vec::new() }
    }
}

/// The ids of the differing blocks as `0x..` upper-case hex, comma-separated.
pub open spec fn ids_text(ids: Seq<u8>) -> Seq<char>
    decreases ids.len(),
{
    if ids.len() == 0 {
        Seq::empty()
    } else if ids.len() == 1 {
        hex_prefixed_upper(ids[0])
    } else {
        ids_text(ids.drop_last()) + ", "@ + hex_prefixed_upper(ids.last())
    }
}

/// The one-line human summary of a report.
pub open spec fn report_text(r: ReportView) -> Seq<char> {
    if r.mismatched.len() == 0 {
        "all "@ + dec(r.matched) + " blocks match"@
    } else {
        dec(r.matched) + " matched, "@ + dec(r.mismatched.len()) + " differ ("@ + ids_text(
            r.mismatched,
        ) + ")"@
    }
}

impl VerifyReport {
    /// Whether every written block verified.
    pub fn ok(&self) -> (r: bool)
        ensures
            r == (self@.mismatched.len() == 0),
    {
        self.mismatched.len() == 0
    }

    /// The one-line human summary: `all N blocks match`, or how many matched and
    /// which block ids differ.
    pub fn summary(&self) -> (r: String)
        ensures
            r@ == report_text(self@),
    {
        let mut s = String::new();
        if self.mismatched.len() == 0 {
            s.append("all ");
            push_decimal(&mut s, self.matched as u64);
            s.append(" blocks match");
            assert(s@ =~= report_text(self@));
        } else {
            push_decimal(&mut s, self.matched as u64);
            s.append(" matched, ");
            push_decimal(&mut s, self.mismatched.len() as u64);
            s.append(" differ (");
            let ghost head = s@;
            let mut i: usize = 0;
            while i < self.mismatched.len()
                invariant
                    i <= self.mismatched@.len(),
                    s@ == head + ids_text(self.mismatched@.take(i as int)),
                decreases self.mismatched@.len() - i,
            {
                proof {
                    assert(self.mismatched@.take(i + 1).drop_last() =~= self.mismatched@.take(
                        i as int,
                    ));
                }
                if i > 0 {
                    s.append(", ");
                }
                push_hex_prefixed_upper(&mut s, self.mismatched[i]);
                proof {
                    if i == 0 {
                        assert(s@ =~= head + ids_text(self.mismatched@.take(1)));
                    } else {
                        assert(s@ =~= head + ids_text(self.mismatched@.take(i + 1)));
                    }
                }
                i += 1;
            }
            assert(self.mismatched@.take(self.mismatched@.len() as int) =~= self.mismatched@);
            s.append(")");
            assert(s@ =~= report_text(self@));
        }
        s
    }
}

/// Whether a restored block `b` reads back in `after`: a parameter table must
/// carry the same value for every target (its physical index is reassigned on
/// reload); a flat block must be byte-identical. A block missing from `after`
/// does not match.
pub open spec fn block_matches(b: BlockView, after: Seq<BlockView>) -> bool {
    match find_first(after, block_with_id(b.id)) {
        Some(a) => match values_by_target_spec(b.bytes) {
            Some(want) => values_by_target_spec(a.bytes) == Some(want),
            None => a.bytes == b.bytes,
        },
        None => false,
    }
}

/// The read-back verify of `blocks` against a fresh capture `after`: every
/// block that restore writes counts as written, and as matched or mismatched.
pub open spec fn verify_spec(blocks: Seq<BlockView>, after: Seq<BlockView>) -> ReportView
    decreases blocks.len(),
{
    if blocks.len() == 0 {
        empty_report()
    } else {
        let r = verify_spec(blocks.drop_last(), after);
        let b = blocks.last();
        if restore_action_spec(b) == RestoreAction::Skip {
            r
        } else if block_matches(b, after) {
            ReportView { written: r.written + 1, matched: r.matched + 1, ..r }
        } else {
            ReportView { written: r.written + 1, mismatched: r.mismatched.push(b.id), ..r }
        }
    }
}

/// Every written block is either matched or listed as mismatched.
pub proof fn lemma_verify_accounts(blocks: Seq<BlockView>, after: Seq<BlockView>)
    ensures
        verify_spec(blocks, after).matched + verify_spec(blocks, after).mismatched.len()
            == verify_spec(blocks, after).written,
        verify_spec(blocks, after).written <= blocks.len(),
    decreases blocks.len(),
{
    if blocks.len() > 0 {
        lemma_verify_accounts(blocks.drop_last(), after);
    }
}

/// A restored parameter-table block whose read-back lost one of its
/// `(target, value)` settings is reported as mismatched: if the restored table
/// holds `value` for `target` and the read-back of that block (the first block
/// of `after` with its id) holds no record with that target and value (or is
/// not a parameter table at all), the block counts as written, not as matched,
/// and its id joins the mismatched list.
pub proof fn lemma_verify_catches_lost_setting(
    blocks: Seq<BlockView>,
    b: BlockView,
    after: Seq<BlockView>,
    j: int,
    i: int,
)
    requires
        restorable_id(b.id),
        param_records_spec(b.bytes) is Some,
        0 <= i < param_records_spec(b.bytes).unwrap().len(),
        0 <= j < after.len(),
        after[j].id == b.id,
        forall|k: int| 0 <= k < j ==> #[trigger] after[k].id != b.id,
        param_records_spec(after[j].bytes) is Some ==> forall|k: int|
            0 <= k < param_records_spec(after[j].bytes).unwrap().len() ==> !(
            #[trigger] param_records_spec(after[j].bytes).unwrap()[k].target
                == param_records_spec(b.bytes).unwrap()[i].target && param_records_spec(
                after[j].bytes,
            ).unwrap()[k].value == param_records_spec(b.bytes).unwrap()[i].value),
    ensures
        verify_spec(blocks.push(b), after).written == verify_spec(blocks, after).written + 1,
        verify_spec(blocks.push(b), after).matched == verify_spec(blocks, after).matched,
        verify_spec(blocks.push(b), after).mismatched == verify_spec(blocks, after).mismatched.push(
            b.id,
        ),
{
    broadcast use vstd::seq_lib::to_multiset_contains;

    let all = blocks.push(b);
    assert(all.drop_last() =~= blocks);
    assert(restore_action_spec(b) == RestoreAction::PerParam);
    assert(is_first(after, block_with_id(b.id), j));
    lemma_first_at(after, block_with_id(b.id), j);
    let want = param_records_spec(b.bytes).unwrap();
    let pw = want.map_values(|r: ParamRecord| target_value(r));
    let tv = pw[i];
    assert(pw.contains(tv));
    let leq = pair_order();
    lemma_pair_leq_total();
    pw.lemma_sort_by_ensures(leq);
    match param_records_spec(after[j].bytes) {
        Some(got) => {
            let pg = got.map_values(|r: ParamRecord| target_value(r));
            pg.lemma_sort_by_ensures(leq);
            if pw.sort_by(leq) == pg.sort_by(leq) {
                assert(pw.to_multiset().count(tv) > 0);
                assert(pg.to_multiset().count(tv) > 0);
                assert(pg.contains(tv));
                let k = choose|k: int| 0 <= k < pg.len() && pg[k] == tv;
                assert(got[k].target == want[i].target && got[k].value == want[i].value);
                assert(false);
            }
            assert(!block_matches(b, after));
        },
        None => {
            assert(!block_matches(b, after));
        },
    }
}

/// Whether two value-by-target tables are equal.
fn pairs_equal(a: &Vec<(u8, u8)>, b: &Vec<(u8, u8)>) -> (r: bool)
    ensures
        r == (a@ == b@),
{
    if a.len() != b.len() {
        return false;
    }
    let mut i: usize = 0;
    while i < a.len()
        invariant
            i <= a@.len(),
            a@.len() == b@.len(),
            forall|j: int| 0 <= j < i ==> a@[j] == b@[j],
        decreases a@.len() - i,
    {
        if a[i].0 != b[i].0 || a[i].1 != b[i].1 {
            return false;
        }
        i += 1;
    }
    assert(a@ =~= b@);
    true
}

/// Whether one restored block reads back in `after`.
fn block_verifies(b: &BlockData, after: &PatchBackup) -> (r: bool)
    ensures
        r == block_matches(b@, after@.blocks),
{
    let found = after.block(b.id);
    match found {
        None => false,
        Some(bytes) => {
            let ghost a = find_first(after@.blocks, block_with_id(b.id))->0;
            match b.param_values_by_target() {
                Some(want) => {
                    let got = BlockData { id: b.id, bytes: slice_to_vec(bytes) };
                    match got.param_values_by_target() {
                        Some(g) => pairs_equal(&g, &want),
                        None => false,
                    }
                },
                None => bytes_equal(bytes, b.bytes.as_slice()),
            }
        },
    }
}

/// Compare a restored `patch` against a fresh capture `after`, keyed by the
/// stable target for parameter-table blocks and byte-exact for flat blocks.
pub fn verify_blocks(patch: &PatchBackup, after: &PatchBackup) -> (r: VerifyReport)
    ensures
        r@ == verify_spec(patch@.blocks, after@.blocks),
{
    let ghost all = patch@.blocks;
    let mut report = VerifyReport::default();
    let mut i: usize = 0;
    while i < patch.blocks.len()
        invariant
            i <= patch.blocks@.len(),
            all == patch@.blocks,
            all.len() == patch.blocks@.len(),
            report@ == verify_spec(all.take(i as int), after@.blocks),
        decreases patch.blocks@.len() - i,
    {
        let b = &patch.blocks[i];
        proof {
            assert(all.take(i + 1).drop_last() =~= all.take(i as int));
            assert(all.take(i + 1).last() == b@);
            lemma_verify_accounts(all.take(i as int), after@.blocks);
        }
        let action = b.restore_action();
        match action {
            RestoreAction::Skip => {},
            _ => {
                report.written += 1;
                if block_verifies(b, after) {
                    report.matched += 1;
                } else {
                    report.mismatched.push(b.id);
                }
            },
        }
        assert(report@ =~= verify_spec(all.take(i + 1), after@.blocks));
        i += 1;
    }
    assert(all.take(all.len() as int) =~= all);
    report
}

/// The verify of a native full-buffer copy: the target's packed image must be
/// non-empty and equal the source's; reported as the single aggregate block.
pub open spec fn verify_aggregate_spec(source: Seq<u8>, after: Seq<u8>) -> ReportView {
    if source.len() > 0 && source == after {
        ReportView { written: 1, matched: 1, mismatched: Seq::empty() }
    } else {
        ReportView { written: 1, matched: 0, mismatched: seq![AGGREGATE_BLOCK] }
    }
}

/// Verify a native full-buffer copy by its packed image.
pub fn verify_aggregate(source: &[u8], after: &[u8]) -> (r: VerifyReport)
    ensures
        r@ == verify_aggregate_spec(source@, after@),
{
    let mut report = VerifyReport { written: 1, matched: 0, mismatched: Vec::new() };
    if source.len() > 0 && bytes_equal(source, after) {
        report.matched = 1;
    } else {
        report.mismatched.push(AGGREGATE_BLOCK);
    }
    assert(report@ =~= verify_aggregate_spec(source@, after@));
    report
}

// ---- error texts ----

/// `prefix` then the device error's message.
pub open spec fn step_error(prefix: Seq<char>, e: Error) -> Seq<char> {
    prefix + error_message(e)
}

/// The text of a failed Bank Select / Program Change.
pub open spec fn select_error(bank: u8, slot: u8, e: Error) -> Seq<char> {
    step_error("selecting bank "@ + dec(bank as nat) + " slot "@ + dec(slot as nat) + ": "@, e)
}

/// Append the device error's message.
fn push_error(s: &mut String, e: &Error)
    ensures
        final(s)@ == old(s)@ + error_message(*e),
{
    let m = e.message();
    s.append(m.as_str());
}

/// Select `bank`/`slot` (the frontend's device adapter waits for the unit to
/// load it).
fn select_settle<D: ElevenDevice>(dev: &mut D, bank: u8, slot: u8) -> (r: Result<(), String>)
    ensures
        final(dev).history() == old(dev).history().push(
            DeviceOp::Select { bank, slot, ok: r is Ok },
        ),
        r matches Err(m) ==> exists|e: Error| m@ == select_error(bank, slot, e),
{
    match dev.select_rig(bank, slot) {
        Ok(()) => Ok(()),
        Err(e) => {
            let mut s = String::from_str("selecting bank ");
            push_decimal(&mut s, bank as u64);
            s.append(" slot ");
            push_decimal(&mut s, slot as u64);
            s.append(": ");
            push_error(&mut s, &e);
            assert(s@ =~= select_error(bank, slot, e));
            Err(s)
        },
    }
}

/// The device error's message alone.
fn message_of(e: &Error) -> (r: String)
    ensures
        r@ == error_message(*e),
{
    e.message()
}

// ---- capture and restore ----

/// Capture the current sound, or User `slot` if given, as a [`PatchBackup`].
pub fn capture<D: ElevenDevice>(dev: &mut D, slot: Option<u8>) -> (r: Result<PatchBackup, String>)
    ensures
        r matches Ok(p) ==> final(dev).history() == old(dev).history() + selected(slot) + seq![
            DeviceOp::Capture { result: Some(p@) },
        ],
        r matches Err(m) ==> capture_failed(old(dev).history(), final(dev).history(), slot, m@),
{
    let ghost h0 = dev.history();
    if let Some(s) = slot {
        match select_settle(dev, USER_BANK, s) {
            Ok(()) => {},
            Err(m) => return Err(m),
        }
    }
    assert(dev.history() =~= h0 + selected(slot));
    match dev.capture_patch() {
        Ok(p) => {
            assert(dev.history() =~= h0 + selected(slot) + seq![DeviceOp::Capture { result: Some(p@) }]);
            Ok(p)
        },
        Err(e) => {
            assert(dev.history() =~= h0 + selected(slot) + seq![DeviceOp::Capture { result: None }]);
            Err(message_of(&e))
        },
    }
}

/// A capture of the current sound or of User `slot` that stopped at a
/// failure, with text `m`: the selection of the slot failed, or the capture
/// after it did; nothing was carried out after the failure.
pub open spec fn capture_failed(
    before: Seq<DeviceOp>,
    after: Seq<DeviceOp>,
    slot: Option<u8>,
    m: Seq<char>,
) -> bool {
    ||| (slot matches Some(s) && after == before.push(
        DeviceOp::Select { bank: USER_BANK, slot: s, ok: false },
    ) && exists|e: Error| m == select_error(USER_BANK, s, e))
    ||| (after == before + selected(slot) + seq![DeviceOp::Capture { result: None }] && exists|
        e: Error,
    | m == error_message(e))
}

/// The decisions of a bank backup sweep, slot by slot: save each captured
/// slot until one repeats the first slot's name (the bank wrapped).
pub struct BackupSweep {
    /// The first slot's name, once captured.
    pub first: Option<String>,
    /// How many slots were passed for saving.
    pub saved: u32,
}

/// The view of an optional name.
pub open spec fn name_view(n: Option<String>) -> Option<Seq<char>> {
    match n {
        Some(s) => Some(s@),
        None => None,
    }
}

impl BackupSweep {
    /// A sweep before its first slot.
    pub fn new() -> (r: BackupSweep)
        ensures
            r.first is None,
            r.saved == 0,
    {
        BackupSweep { first: None, saved: 0 }
    }

    /// Slot `slot` was captured under `name`: whether to save it. `false`
    /// means the bank wrapped and the sweep ends, with nothing changed.
    pub fn captured(&mut self, slot: u8, name: &String) -> (save: bool)
        requires
            old(self).saved < u32::MAX,
        ensures
            save == !wrapped_spec(slot, name_view(old(self).first), name@),
            save ==> final(self).saved == old(self).saved + 1,
            save ==> name_view(final(self).first) == (if old(self).first is None {
                Some(name@)
            } else {
                name_view(old(self).first)
            }),
            !save ==> final(self).saved == old(self).saved && name_view(final(self).first)
                == name_view(old(self).first),
    {
        if bank_wrapped(slot, &self.first, name) {
            return false;
        }
        if self.first.is_none() {
            self.first = Some(name.clone());
        }
        self.saved = self.saved + 1;
        true
    }
}

/// The selection a capture of an optional User slot makes first.
pub open spec fn selected(slot: Option<u8>) -> Seq<DeviceOp> {
    match slot {
        Some(s) => seq![DeviceOp::Select { bank: USER_BANK, slot: s, ok: true }],
        None => Seq::empty(),
    }
}

/// The text of a failed restore write.
pub open spec fn restore_error(slot: u8, e: Error) -> Seq<char> {
    step_error("restoring to slot "@ + dec(slot as nat) + ": "@, e)
}

/// The texts a failed restore of `slot` gives: the failed select's, the
/// failed write's, or the failed capture's device error.
pub open spec fn restore_failure_message(slot: u8, m: Seq<char>) -> bool {
    exists|e: Error|
        m == select_error(USER_BANK, slot, e) || m == restore_error(slot, e) || m
            == error_message(e)
}

/// The operations of a restore of `patch` into `slot` that stopped at a
/// failure: the select, the write, the re-select or the capture failed, and
/// nothing was carried out after it.
pub open spec fn restore_failed(
    before: Seq<DeviceOp>,
    after: Seq<DeviceOp>,
    slot: u8,
    patch: PatchBackupView,
) -> bool {
    let sel = DeviceOp::Select { bank: USER_BANK, slot, ok: true };
    let put = DeviceOp::Restore { slot: slot as u16, patch, ok: true };
    ||| after == before.push(DeviceOp::Select { bank: USER_BANK, slot, ok: false })
    ||| after == before + seq![sel, DeviceOp::Restore { slot: slot as u16, patch, ok: false }]
    ||| after == before + seq![sel, put, DeviceOp::Select { bank: USER_BANK, slot, ok: false }]
    ||| after == before + seq![sel, put, sel, DeviceOp::Capture { result: None }]
}

/// Restore `patch` into User `slot` (select, write the restorable blocks,
/// store), then re-select, re-capture and verify against what was written.
pub fn restore<D: ElevenDevice>(dev: &mut D, slot: u8, patch: &PatchBackup) -> (r: Result<
    VerifyReport,
    String,
>)
    ensures
        r matches Ok(rep) ==> restored(
            old(dev).history(),
            final(dev).history(),
            slot,
            patch@,
            rep@,
        ),
        r matches Err(m) ==> restore_failed(old(dev).history(), final(dev).history(), slot, patch@)
            && restore_failure_message(slot, m@),
{
    let ghost h0 = dev.history();
    let ghost sel = DeviceOp::Select { bank: USER_BANK, slot, ok: true };
    let ghost put = DeviceOp::Restore { slot: slot as u16, patch: patch@, ok: true };
    match select_settle(dev, USER_BANK, slot) {
        Ok(()) => {},
        Err(m) => {
            assert(restore_failure_message(slot, m@));
            return Err(m);
        },
    }
    match dev.restore_patch(slot as u16, patch) {
        Ok(()) => {},
        Err(e) => {
            let mut s = String::from_str("restoring to slot ");
            push_decimal(&mut s, slot as u64);
            s.append(": ");
            push_error(&mut s, &e);
            assert(s@ =~= restore_error(slot, e));
            assert(dev.history() =~= h0 + seq![
                sel,
                DeviceOp::Restore { slot: slot as u16, patch: patch@, ok: false },
            ]);
            return Err(s);
        },
    }
    match select_settle(dev, USER_BANK, slot) {
        Ok(()) => {},
        Err(m) => {
            assert(restore_failure_message(slot, m@));
            assert(dev.history() =~= h0 + seq![
                sel,
                put,
                DeviceOp::Select { bank: USER_BANK, slot, ok: false },
            ]);
            return Err(m);
        },
    }
    let after = match dev.capture_patch() {
        Ok(p) => p,
        Err(e) => {
            let m = message_of(&e);
            assert(restore_failure_message(slot, m@));
            assert(dev.history() =~= h0 + seq![sel, put, sel, DeviceOp::Capture { result: None }]);
            return Err(m);
        },
    };
    let rep = verify_blocks(patch, &after);
    assert(dev.history().take(h0.len() + 3int) =~= h0 + seq![
        DeviceOp::Select { bank: USER_BANK, slot, ok: true },
        DeviceOp::Restore { slot: slot as u16, patch: patch@, ok: true },
        DeviceOp::Select { bank: USER_BANK, slot, ok: true },
    ]);
    Ok(rep)
}

/// A restore to `slot` went as planned: select the slot, restore the patch,
/// select it again and capture it; the report verifies the patch against that
/// capture.
pub open spec fn restored(
    before: Seq<DeviceOp>,
    after: Seq<DeviceOp>,
    slot: u8,
    patch: PatchBackupView,
    rep: ReportView,
) -> bool {
    &&& after.len() == before.len() + 4
    &&& after.take(before.len() + 3int) == before + seq![
        DeviceOp::Select { bank: USER_BANK, slot, ok: true },
        DeviceOp::Restore { slot: slot as u16, patch, ok: true },
        DeviceOp::Select { bank: USER_BANK, slot, ok: true },
    ]
    &&& (after.last() matches DeviceOp::Capture { result: Some(a) } && rep == verify_spec(
        patch.blocks,
        a.blocks,
    ))
}

// ---- the on-device directory ----

/// The directory address of a slot: `04 <hi> <lo>`, seven bits each.
pub open spec fn directory_address(slot: u8) -> Seq<u8> {
    seq![DIRECTORY_BLOCK, ((slot >> 7u8) & 0x7fu8) as u8, (slot & 0x7fu8) as u8]
}

/// The address of a slot's directory entry.
pub fn directory_addr(slot: u8) -> (r: [u8; 3])
    ensures
        r@ == directory_address(slot),
{
    let r = [DIRECTORY_BLOCK, (slot >> 7u8) & 0x7f, slot & 0x7f];
    assert(r@ =~= directory_address(slot));
    r
}

/// The reads of a directory sweep: one per slot, in slot order, each at the
/// slot's directory address.
pub open spec fn directory_reads(ops: Seq<DeviceOp>, count: u8) -> bool {
    &&& ops.len() == count
    &&& forall|i: int|
        0 <= i < ops.len() ==> (#[trigger] ops[i] matches DeviceOp::ReadBlock { addr, .. } && addr
            == directory_address(i as u8))
}

/// The directory a sweep's reads give: each slot that answered, with the name
/// its payload carries.
pub open spec fn directory_entries(ops: Seq<DeviceOp>) -> Seq<(u8, Seq<char>)>
    decreases ops.len(),
{
    if ops.len() == 0 {
        Seq::empty()
    } else {
        let rest = directory_entries(ops.drop_last());
        match ops.last() {
            DeviceOp::ReadBlock { result: Some(p), .. } => rest.push(
                ((ops.len() - 1) as u8, payload_name(p)),
            ),
            _ => rest,
        }
    }
}

/// The views of directory entries.
pub open spec fn entry_views(v: Seq<(u8, String)>) -> Seq<(u8, Seq<char>)> {
    v.map_values(|e: (u8, String)| (e.0, e.1@))
}

/// Read a bank's on-device patch directory (block `0x04`): `(slot, name)` for
/// each slot below `count` that answers, in slot order. A slot that does not
/// answer is skipped, so the listing never fails. It sends no Bank Select or
/// Program Change, so the edit buffer is left as it is: the directory block is
/// addressed by slot alone (`04 <hi> <lo>`), and the unit answers each read
/// from its directory; the reads are the same whichever `bank` is named.
pub fn patch_directory<D: ElevenDevice>(dev: &mut D, bank: u8, count: u8) -> (r: Result<
    Vec<(u8, String)>,
    String,
>)
    ensures
        r is Ok,
        final(dev).history().take(old(dev).history().len() as int) == old(dev).history(),
        r matches Ok(v) ==> directory_reads(
            final(dev).history().skip(old(dev).history().len() as int),
            count,
        ) && entry_views(v@) == directory_entries(
            final(dev).history().skip(old(dev).history().len() as int),
        ) && (forall|i: int, j: int|
            0 <= i < j < v@.len() ==> #[trigger] v@[i].0 < #[trigger] v@[j].0) && (forall|i: int|
            0 <= i < v@.len() ==> #[trigger] v@[i].0 < count),
{
    let ghost h0 = dev.history();
    let mut out: Vec<(u8, String)> = Vec::new();
    let mut slot: u8 = 0;
    assert(dev.history().skip(h0.len() as int) =~= Seq::<DeviceOp>::empty());
    assert(dev.history().take(h0.len() as int) =~= h0);
    assert(entry_views(out@) =~= Seq::<(u8, Seq<char>)>::empty());
    while slot < count
        invariant
            slot <= count,
            dev.history().len() == h0.len() + slot,
            dev.history().take(h0.len() as int) == h0,
            directory_reads(dev.history().skip(h0.len() as int), slot),
            entry_views(out@) == directory_entries(dev.history().skip(h0.len() as int)),
            forall|i: int, j: int|
                0 <= i < j < out@.len() ==> #[trigger] out@[i].0 < #[trigger] out@[j].0,
            forall|i: int| 0 <= i < out@.len() ==> #[trigger] out@[i].0 < slot,
        decreases count - slot,
    {
        let addr = directory_addr(slot);
        let ghost before = dev.history();
        let ghost prev = out@;
        let answer = dev.read_block(&addr);
        let ghost added = dev.history().skip(h0.len() as int);
        assert(added =~= before.skip(h0.len() as int).push(dev.history().last()));
        assert(added.drop_last() =~= before.skip(h0.len() as int));
        assert(dev.history().take(h0.len() as int) =~= h0);
        match answer {
            Ok(payload) => {
                let name = block_name(payload.as_slice());
                out.push((slot, name));
                assert(entry_views(out@) =~= entry_views(prev).push((slot, name@)));
            },
            Err(_) => {},
        }
        slot += 1;
    }
    Ok(out)
}

// ---- progress ----

/// Where a whole-bank operation reports each slot it handles, with that
/// slot's patch name, as it goes (a frontend prints these).
pub trait Progress {
    /// The reports so far, oldest first.
    spec fn reported(&self) -> Seq<(u8, Seq<char>)>;

    /// Report slot `slot`, holding a patch named `name`.
    fn report(&mut self, slot: u8, name: &str)
        ensures
            final(self).reported() == old(self).reported().push((slot, name@)),
    ;
}

/// Reports kept in order, for a caller that reads them afterwards.
pub struct ProgressLog {
    /// The `(slot, name)` reports, oldest first.
    pub entries: Vec<(u8, String)>,
}

impl ProgressLog {
    /// A log with no reports.
    pub fn new() -> (r: ProgressLog)
        ensures
            r.reported() == Seq::<(u8, Seq<char>)>::empty(),
    {
        let r = ProgressLog { entries: Vec::new() };
        assert(r.reported() =~= Seq::<(u8, Seq<char>)>::empty());
        r
    }
}

impl Progress for ProgressLog {
    open spec fn reported(&self) -> Seq<(u8, Seq<char>)> {
        self.entries@.map_values(|e: (u8, String)| (e.0, e.1@))
    }

    fn report(&mut self, slot: u8, name: &str) {
        let ghost before = self.entries@;
        self.entries.push((slot, String::from_str(name)));
        assert(self.entries@.map_values(|e: (u8, String)| (e.0, e.1@)) =~= before.map_values(
            |e: (u8, String)| (e.0, e.1@),
        ).push((slot, name@)));
    }
}

/// The reports of a bank operation over the slots below `n`: each slot the
/// map holds, in slot order, with its patch's name.
pub open spec fn slot_reports(patches: Map<u8, PatchBackupView>, n: nat) -> Seq<(u8, Seq<char>)>
    decreases n,
{
    if n == 0 {
        Seq::empty()
    } else {
        let k = (n - 1) as u8;
        let rest = slot_reports(patches, (n - 1) as nat);
        if patches.contains_key(k) {
            rest.push((k, patches[k].name))
        } else {
            rest
        }
    }
}

/// Adding a slot at or above `n` leaves the reports below `n` as they were.
proof fn lemma_slot_reports_insert(
    patches: Map<u8, PatchBackupView>,
    k: u8,
    v: PatchBackupView,
    n: nat,
)
    requires
        n <= k,
    ensures
        slot_reports(patches.insert(k, v), n) == slot_reports(patches, n),
    decreases n,
{
    if n > 0 {
        lemma_slot_reports_insert(patches, k, v, (n - 1) as nat);
    }
}

/// Slots the map does not hold add no reports.
proof fn lemma_slot_reports_gap(patches: Map<u8, PatchBackupView>, m: nat, n: nat)
    requires
        m <= n <= 256,
        forall|k: u8| m <= k < n ==> !#[trigger] patches.contains_key(k),
    ensures
        slot_reports(patches, n) == slot_reports(patches, m),
    decreases n,
{
    if n > m {
        assert(!patches.contains_key((n - 1) as u8));
        lemma_slot_reports_gap(patches, m, (n - 1) as nat);
    }
}

/// When the map holds exactly the slots below `n`, the reports are one per
/// slot, in slot order.
proof fn lemma_slot_reports_dense(patches: Map<u8, PatchBackupView>, n: nat)
    requires
        n <= 256,
        forall|k: u8| k < n ==> #[trigger] patches.contains_key(k),
    ensures
        slot_reports(patches, n).len() == n,
        forall|k: int| 0 <= k < n ==> #[trigger] slot_reports(patches, n)[k].0 == k,
    decreases n,
{
    if n > 0 {
        lemma_slot_reports_dense(patches, (n - 1) as nat);
        assert(patches.contains_key((n - 1) as u8));
        let r = slot_reports(patches, n);
        assert forall|k: int| 0 <= k < n implies #[trigger] r[k].0 == k by {
            if k < n - 1 {
                assert(r[k] == slot_reports(patches, (n - 1) as nat)[k]);
            }
        }
    }
}

// ---- scenes ----

/// A whole-bank snapshot: a name and the captured patch of each User slot.
#[derive(Debug, Clone)]
pub struct Scene {
    /// The scene's name.
    pub name: String,
    /// The captured patches, by User slot.
    pub patches: BTreeMap<u8, PatchBackup>,
}

/// The mathematical form of a [`Scene`].
#[verifier::ext_equal]
pub struct SceneView {
    /// The scene's name.
    pub name: Seq<char>,
    /// The patches by slot.
    pub patches: Map<u8, PatchBackupView>,
}

impl View for Scene {
    type V = SceneView;

    open spec fn view(&self) -> SceneView {
        SceneView { name: self.name@, patches: bank_views(self.patches@) }
    }
}

impl Scene {
    /// An empty scene named `name`.
    pub fn new(name: &str) -> (r: Scene)
        ensures
            r@.name == name@,
            r@.patches == Map::<u8, PatchBackupView>::empty(),
    {
        let r = Scene { name: String::from_str(name), patches: BTreeMap::new() };
        assert(r@.patches =~= Map::<u8, PatchBackupView>::empty());
        r
    }
}

/// The bank-wrap rule of a whole-bank capture: the captured slots are `0..n`
/// for some `n <= count` (every slot below a captured one is captured), and no slot after the first carries the first slot's
/// name (a repeat of the first name means the bank wrapped, and ends the sweep).
pub open spec fn swept(p: Map<u8, PatchBackupView>, count: u8) -> bool {
    &&& forall|k: u8| #[trigger] p.contains_key(k) ==> k < count
    &&& forall|k: u8, j: u8| #[trigger] p.contains_key(k) && j < k ==> #[trigger] p.contains_key(j)
    &&& forall|k: u8| 0 < k && #[trigger] p.contains_key(k) ==> p[k].name != p[0].name
}

/// Whether a bank sweep has wrapped: a slot after the first carries the first
/// slot's name.
pub open spec fn wrapped_spec(slot: u8, first: Option<Seq<char>>, name: Seq<char>) -> bool {
    slot > 0 && first == Some(name)
}

/// Whether a bank sweep has wrapped at `slot`, given the first slot's name.
pub fn bank_wrapped(slot: u8, first: &Option<String>, name: &String) -> (r: bool)
    ensures
        r == wrapped_spec(
            slot,
            match first {
                Some(f) => Some(f@),
                None => None,
            },
            name@,
        ),
{
    if slot == 0 {
        return false;
    }
    match first {
        Some(f) => f.eq(name),
        None => false,
    }
}

/// The reports a stopped bank sweep made: one per slot from slot 0 on, in
/// slot order, fewer than `count`, after the ones made before.
pub open spec fn first_slots_reported(
    before: Seq<(u8, Seq<char>)>,
    after: Seq<(u8, Seq<char>)>,
    count: u8,
) -> bool {
    &&& before.len() <= after.len() < before.len() + count
    &&& after.take(before.len() as int) == before
    &&& forall|k: int| before.len() <= k < after.len() ==> #[trigger] after[k].0 == k - before.len()
}

/// The reports of a sweep that held the slots below `t < count`.
proof fn lemma_first_slots(
    before: Seq<(u8, Seq<char>)>,
    after: Seq<(u8, Seq<char>)>,
    patches: Map<u8, PatchBackupView>,
    t: u8,
    count: u8,
)
    requires
        t < count,
        after == before + slot_reports(patches, t as nat),
        slot_reports(patches, t as nat).len() == t,
        forall|k: int| 0 <= k < t ==> #[trigger] slot_reports(patches, t as nat)[k].0 == k,
    ensures
        first_slots_reported(before, after, count),
{
    assert(after.take(before.len() as int) =~= before);
    assert forall|k: int| before.len() <= k < after.len() implies #[trigger] after[k].0 == k
        - before.len() by {
        assert(after[k] == slot_reports(patches, t as nat)[k - before.len()]);
    }
}

/// A bank sweep that stopped at a failure, with text `m`: the slots below
/// some `t < count` were each selected and captured, then the selection or
/// the capture of `t` failed, and nothing was carried out after it.
pub open spec fn sweep_failed(before: Seq<DeviceOp>, after: Seq<DeviceOp>, count: u8, m: Seq<char>) -> bool {
    exists|t: u8|
        {
            &&& t < count
            &&& before.len() + 2 * t <= after.len()
            &&& after.take(before.len() as int) == before
            &&& forall|x: u8|
                x < t ==> #[trigger] after[before.len() + 2 * x] == (DeviceOp::Select {
                    bank: USER_BANK,
                    slot: x,
                    ok: true,
                }) && (after[before.len() + 2 * x + 1] matches DeviceOp::Capture { result: Some(_) })
            &&& #[trigger] capture_failed(
                after.take(before.len() + 2 * t),
                after,
                Some(t),
                m,
            )
        }
}

/// A sweep that had selected and captured the slots below `t` and then
/// failed at `t` is a failed sweep.
proof fn lemma_sweep_failed(
    h0: Seq<DeviceOp>,
    h1: Seq<DeviceOp>,
    h2: Seq<DeviceOp>,
    count: u8,
    t: u8,
    m: Seq<char>,
)
    requires
        t < count,
        h1.len() == h0.len() + 2 * t,
        h1.take(h0.len() as int) == h0,
        forall|k: u8|
            k < t ==> #[trigger] h1[h0.len() + 2 * k] == (DeviceOp::Select {
                bank: USER_BANK,
                slot: k,
                ok: true,
            }) && (h1[h0.len() + 2 * k + 1] matches DeviceOp::Capture { result: Some(_) }),
        capture_failed(h1, h2, Some(t), m),
    ensures
        sweep_failed(h0, h2, count, m),
{
    assert(h2.take(h1.len() as int) =~= h1);
    assert(h2.take(h0.len() + 2 * t) == h1);
    assert(h2.take(h0.len() as int) =~= h0);
    assert forall|x: u8| x < t implies #[trigger] h2[h0.len() + 2 * x] == (DeviceOp::Select {
        bank: USER_BANK,
        slot: x,
        ok: true,
    }) && (h2[h0.len() + 2 * x + 1] matches DeviceOp::Capture { result: Some(_) }) by {
        assert(h2[h0.len() + 2 * x] == h1[h0.len() + 2 * x]);
        assert(h2[h0.len() + 2 * x + 1] == h1[h0.len() + 2 * x + 1]);
    }
}

/// Capture the whole User bank into a [`Scene`] named `name` (not yet saved):
/// slot by slot from `0`, stopping after `count` slots or when the bank wraps.
pub fn capture_scene<D: ElevenDevice, P: Progress>(
    dev: &mut D,
    name: &str,
    count: u8,
    progress: &mut P,
) -> (r: Result<Scene, String>)
    ensures
        r matches Ok(sc) ==> final(progress).reported() == old(progress).reported() + slot_reports(
            sc@.patches,
            count as nat,
        ),
        r is Err ==> first_slots_reported(old(progress).reported(), final(progress).reported(), count),
        r matches Ok(sc) ==> sc@.name == name@ && swept(sc@.patches, count),
        r matches Ok(sc) ==> scene_captured(
            old(dev).history(),
            final(dev).history(),
            sc@.patches,
        ),
        r matches Err(m) ==> sweep_failed(old(dev).history(), final(dev).history(), count, m@),
{
    let ghost h0 = dev.history();
    let mut scene = Scene::new(name);
    let mut first: Option<String> = None;
    let mut slot: u8 = 0;
    assert(dev.history().take(h0.len() as int) =~= h0);
    while slot < count
        invariant_except_break
            slot <= count,
            dev.history().len() == h0.len() + 2 * slot,
        invariant
            h0 == old(dev).history(),
            scene@.name == name@,
            forall|k: u8| #[trigger] scene@.patches.contains_key(k) <==> k < slot,
            slot == 0 ==> first is None,
            slot > 0 ==> (first matches Some(f) && f@ == scene@.patches[0].name),
            forall|k: u8|
                0 < k && #[trigger] scene@.patches.contains_key(k) ==> scene@.patches[k].name
                    != scene@.patches[0].name,
            slot <= count,
            dev.history().len() >= h0.len() + 2 * slot,
            scene_captured(h0, dev.history(), scene@.patches),
            progress.reported() == old(progress).reported() + slot_reports(scene@.patches, slot as nat),
        ensures
            scene@.name == name@,
            swept(scene@.patches, count),
            scene_captured(h0, dev.history(), scene@.patches),
            progress.reported() == old(progress).reported() + slot_reports(scene@.patches, count as nat),
        decreases count - slot,
    {
        let ghost h1 = dev.history();
        proof {
            lemma_slot_reports_dense(scene@.patches, slot as nat);
            assert forall|k: u8| k < slot implies #[trigger] h1[h0.len() + 2 * k] == (DeviceOp::Select {
                bank: USER_BANK,
                slot: k,
                ok: true,
            }) && (h1[h0.len() + 2 * k + 1] matches DeviceOp::Capture { result: Some(_) }) by {
                assert(scene@.patches.contains_key(k));
            }
        }
        match select_settle(dev, USER_BANK, slot) {
            Ok(()) => {},
            Err(m) => {
                proof {
                    lemma_sweep_failed(h0, h1, dev.history(), count, slot, m@);
                    lemma_first_slots(old(progress).reported(), progress.reported(), scene@.patches, slot, count);
                }
                return Err(m);
            },
        }
        let patch = match dev.capture_patch() {
            Ok(p) => p,
            Err(e) => {
                let m = message_of(&e);
                proof {
                    assert(dev.history() =~= h1 + selected(Some(slot)) + seq![
                        DeviceOp::Capture { result: None },
                    ]);
                    lemma_sweep_failed(h0, h1, dev.history(), count, slot, m@);
                    lemma_first_slots(old(progress).reported(), progress.reported(), scene@.patches, slot, count);
                }
                return Err(m);
            },
        };
        let ghost h2 = dev.history();
        assert(h2 == h1.push(DeviceOp::Select { bank: USER_BANK, slot, ok: true }).push(
            DeviceOp::Capture { result: Some(patch@) },
        ));
        assert forall|i: int| 0 <= i < h1.len() implies #[trigger] h2[i] == h1[i] by {}
        assert(h2.take(h0.len() as int) =~= h1.take(h0.len() as int));
        if bank_wrapped(slot, &first, &patch.name) {
            assert(forall|k: u8| #[trigger] scene@.patches.contains_key(k) <==> k < slot);
            assert(scene_captured(h0, h2, scene@.patches));
            proof {
                lemma_slot_reports_gap(scene@.patches, slot as nat, count as nat);
            }
            break;
        }
        progress.report(slot, patch.name.as_str());
        if first.is_none() {
            first = Some(patch.name.clone());
        }
        let ghost before = scene@.patches;
        let ghost pv = patch@;
        scene.patches.insert(slot, patch);
        assert(scene@.patches =~= before.insert(slot, pv));
        proof {
            if slot > 0 {
                assert(before.contains_key(0u8));
                assert(scene@.patches[0u8] == before[0u8]);
            } else {
                assert(scene@.patches[0u8] == pv);
            }
            assert(h2[h0.len() + 2 * slot] == DeviceOp::Select { bank: USER_BANK, slot, ok: true });
            assert(h2[h0.len() + 2 * slot + 1] == DeviceOp::Capture { result: Some(pv) });
            lemma_slot_reports_insert(before, slot, pv, slot as nat);
            assert(scene@.patches.contains_key(slot));
            assert(slot_reports(scene@.patches, slot as nat + 1) == slot_reports(before, slot as nat).push(
                (slot, pv.name),
            ));
        }
        slot += 1;
    }
    Ok(scene)
}

/// Each captured slot's patch is what the device returned when that slot was
/// selected: the sweep's operations are a select and a capture per slot, in
/// slot order, after the ones that came before.
pub open spec fn scene_captured(
    before: Seq<DeviceOp>,
    after: Seq<DeviceOp>,
    patches: Map<u8, PatchBackupView>,
) -> bool {
    &&& before.len() <= after.len()
    &&& after.take(before.len() as int) == before
    &&& forall|k: u8|
        #[trigger] patches.contains_key(k) ==> before.len() + 2 * k + 1 < after.len() && after[before.len()
            + 2 * k] == DeviceOp::Select { bank: USER_BANK, slot: k, ok: true } && after[before.len() + 2
            * k + 1] == DeviceOp::Capture { result: Some(patches[k]) }
}

/// A count capped at the largest `usize`.
pub open spec fn capped(n: nat) -> nat {
    if n > usize::MAX {
        usize::MAX as nat
    } else {
        n
    }
}

/// Two reports added up (counts capped at the largest `usize`).
pub open spec fn report_sum(a: ReportView, b: ReportView) -> ReportView {
    ReportView {
        written: capped(a.written + b.written),
        matched: capped(a.matched + b.matched),
        mismatched: a.mismatched + b.mismatched,
    }
}

/// Add a slot's report to a running total (saturating at the counter limits).
fn add_report(agg: &mut VerifyReport, r: VerifyReport)
    ensures
        final(agg)@ == report_sum(old(agg)@, r@),
{
    agg.written = agg.written.saturating_add(r.written);
    agg.matched = agg.matched.saturating_add(r.matched);
    let mut m = r.mismatched;
    agg.mismatched.append(&mut m);
}

/// How many of the scene's slots lie below `n`.
pub open spec fn slots_below(patches: Map<u8, PatchBackupView>, n: nat) -> nat
    decreases n,
{
    if n == 0 {
        0
    } else {
        slots_below(patches, (n - 1) as nat) + if patches.contains_key((n - 1) as u8) {
            1nat
        } else {
            0nat
        }
    }
}

/// The capture a scene restore took of slot `s`: the last of the four
/// operations restoring it, `start` being where the scene's operations begin.
pub open spec fn slot_capture(
    ops: Seq<DeviceOp>,
    start: int,
    patches: Map<u8, PatchBackupView>,
    s: u8,
) -> PatchBackupView {
    ops[start + 4 * slots_below(patches, s as nat) + 3]->Capture_result->0
}

/// The totals of a scene restore over the slots below `n`: each restored
/// slot's patch verified against the capture taken after restoring it.
pub open spec fn scene_report(
    ops: Seq<DeviceOp>,
    start: int,
    patches: Map<u8, PatchBackupView>,
    n: nat,
) -> ReportView
    decreases n,
{
    if n == 0 {
        empty_report()
    } else {
        let r = scene_report(ops, start, patches, (n - 1) as nat);
        let s = (n - 1) as u8;
        if patches.contains_key(s) {
            report_sum(
                r,
                verify_spec(patches[s].blocks, slot_capture(ops, start, patches, s).blocks),
            )
        } else {
            r
        }
    }
}

/// The four operations that restore slot `s` with `patch`, from position `at`:
/// a select, the restore, a select and a capture.
pub open spec fn slot_ops(ops: Seq<DeviceOp>, at: int, s: u8, patch: PatchBackupView) -> bool {
    &&& 0 <= at
    &&& at + 4 <= ops.len()
    &&& ops[at] == DeviceOp::Select { bank: USER_BANK, slot: s, ok: true }
    &&& ops[at + 1] == DeviceOp::Restore { slot: s as u16, patch, ok: true }
    &&& ops[at + 2] == DeviceOp::Select { bank: USER_BANK, slot: s, ok: true }
    &&& ops[at + 3] matches DeviceOp::Capture { result: Some(_) }
}

/// The operations of a scene restore over the slots below `n`, from `start`:
/// for each of the scene's slots, in slot order, a select, the restore, a
/// select and a capture.
pub open spec fn scene_restored(
    ops: Seq<DeviceOp>,
    start: int,
    patches: Map<u8, PatchBackupView>,
    n: nat,
) -> bool {
    &&& 0 <= start
    &&& ops.len() == start + 4 * slots_below(patches, n)
    &&& forall|s: u8|
        s < n && #[trigger] patches.contains_key(s) ==> slot_ops(
            ops,
            start + 4 * slots_below(patches, s as nat),
            s,
            patches[s],
        )
}

/// Operations already recorded stay as they were when more are appended.
proof fn lemma_slot_ops_kept(
    ops: Seq<DeviceOp>,
    longer: Seq<DeviceOp>,
    at: int,
    s: u8,
    patch: PatchBackupView,
)
    requires
        slot_ops(ops, at, s, patch),
        ops.len() <= longer.len(),
        longer.take(ops.len() as int) == ops,
    ensures
        slot_ops(longer, at, s, patch),
{
    assert(longer.take(ops.len() as int)[at] == longer[at]);
    assert(longer.take(ops.len() as int)[at + 1] == longer[at + 1]);
    assert(longer.take(ops.len() as int)[at + 2] == longer[at + 2]);
    assert(longer.take(ops.len() as int)[at + 3] == longer[at + 3]);
}

/// Counting the scene's slots is monotone.
proof fn lemma_slots_below_mono(patches: Map<u8, PatchBackupView>, a: nat, b: nat)
    requires
        a <= b,
    ensures
        slots_below(patches, a) <= slots_below(patches, b),
        a < b && patches.contains_key(a as u8) && a < 256 ==> slots_below(patches, a) + 1
            <= slots_below(patches, b),
    decreases b - a,
{
    if a < b {
        lemma_slots_below_mono(patches, a, (b - 1) as nat);
    }
}

/// The totals over the slots below `n` depend only on the operations before
/// the end of those slots' segments.
proof fn lemma_scene_report_prefix(
    ops: Seq<DeviceOp>,
    longer: Seq<DeviceOp>,
    start: int,
    patches: Map<u8, PatchBackupView>,
    n: nat,
)
    requires
        n <= 256,
        0 <= start,
        start + 4 * slots_below(patches, n) <= ops.len() <= longer.len(),
        longer.take(ops.len() as int) == ops,
    ensures
        scene_report(longer, start, patches, n) == scene_report(ops, start, patches, n),
    decreases n,
{
    if n > 0 {
        lemma_slots_below_mono(patches, (n - 1) as nat, n);
        lemma_scene_report_prefix(ops, longer, start, patches, (n - 1) as nat);
        let s = (n - 1) as u8;
        if patches.contains_key(s) {
            let at = start + 4 * slots_below(patches, s as nat) + 3;
            assert(longer.take(ops.len() as int)[at] == ops[at]);
        }
    }
}

/// A slot the scene does not hold adds no operations and nothing to the
/// totals.
proof fn lemma_scene_skip(ops: Seq<DeviceOp>, start: int, patches: Map<u8, PatchBackupView>, s: u8)
    requires
        scene_restored(ops, start, patches, s as nat),
        !patches.contains_key(s),
    ensures
        scene_restored(ops, start, patches, s as nat + 1),
        scene_report(ops, start, patches, s as nat + 1) == scene_report(
            ops,
            start,
            patches,
            s as nat,
        ),
{
    assert(slots_below(patches, s as nat + 1) == slots_below(patches, s as nat));
}

/// Restoring the scene's next slot extends both the operations and the
/// totals by that slot.
proof fn lemma_scene_step(
    h1: Seq<DeviceOp>,
    h2: Seq<DeviceOp>,
    start: int,
    patches: Map<u8, PatchBackupView>,
    s: u8,
    rep: ReportView,
)
    requires
        scene_restored(h1, start, patches, s as nat),
        patches.contains_key(s),
        restored(h1, h2, s, patches[s], rep),
    ensures
        h2.take(h1.len() as int) == h1,
        scene_restored(h2, start, patches, s as nat + 1),
        scene_report(h2, start, patches, s as nat + 1) == report_sum(
            scene_report(h1, start, patches, s as nat),
            rep,
        ),
{
    let n = h1.len() as int;
    lemma_restored_extends(h1, h2, s, patches[s], rep);
    assert(slots_below(patches, s as nat + 1) == slots_below(patches, s as nat) + 1);
    lemma_scene_report_prefix(h1, h2, start, patches, s as nat);
    assert(slot_capture(h2, start, patches, s) == h2.last()->Capture_result->0);
    assert forall|t: u8|
        t < s as nat + 1 && #[trigger] patches.contains_key(t) implies slot_ops(
            h2,
            start + 4 * slots_below(patches, t as nat),
            t,
            patches[t],
        ) by {
        if t < s {
            lemma_slots_below_mono(patches, t as nat, s as nat);
            lemma_slot_ops_kept(h1, h2, start + 4 * slots_below(patches, t as nat), t, patches[t]);
        }
    }
}

/// A restore appends its four operations after the ones before it.
proof fn lemma_restored_extends(
    h1: Seq<DeviceOp>,
    h2: Seq<DeviceOp>,
    s: u8,
    patch: PatchBackupView,
    rep: ReportView,
)
    requires
        restored(h1, h2, s, patch, rep),
    ensures
        h2.take(h1.len() as int) == h1,
        slot_ops(h2, h1.len() as int, s, patch),
{
    let n = h1.len() as int;
    assert(h2.take(n) =~= h1) by {
        assert forall|i: int| 0 <= i < n implies h2[i] == h1[i] by {
            assert(h2.take(n + 3)[i] == h2[i]);
        }
    }
    assert(h2[n] == h2.take(n + 3)[n]);
    assert(h2[n + 1] == h2.take(n + 3)[n + 1]);
    assert(h2[n + 2] == h2.take(n + 3)[n + 2]);
}

/// A scene restore that stopped at a failure: the scene's slots below some
/// slot `t` it holds were restored in slot order, then the restore of `t`
/// failed with text `m`, and nothing was carried out after it.
pub open spec fn scene_failed(
    before: Seq<DeviceOp>,
    after: Seq<DeviceOp>,
    patches: Map<u8, PatchBackupView>,
    m: Seq<char>,
) -> bool {
    exists|t: u8|
        {
            let done = after.take((before.len() + 4 * slots_below(patches, t as nat)) as int);
            &&& #[trigger] patches.contains_key(t)
            &&& after.take(before.len() as int) == before
            &&& scene_restored(done, before.len() as int, patches, t as nat)
            &&& restore_failed(done, after, t, patches[t])
            &&& restore_failure_message(t, m)
        }
}

/// Restore a whole [`Scene`] to the device, overwriting each captured User
/// slot in slot order; returns the verify reports of all slots added up.
pub fn restore_scene<D: ElevenDevice, P: Progress>(dev: &mut D, scene: &Scene, progress: &mut P) -> (r:
    Result<VerifyReport, String>)
    ensures
        r is Ok ==> final(progress).reported() == old(progress).reported() + slot_reports(
            scene@.patches,
            256,
        ),
        r is Err ==> exists|t: u8|
            #[trigger] scene@.patches.contains_key(t) && final(progress).reported() == old(
                progress,
            ).reported() + slot_reports(scene@.patches, t as nat + 1),
        r matches Ok(rep) ==> final(dev).history().take(old(dev).history().len() as int) == old(
            dev,
        ).history() && scene_restored(
            final(dev).history(),
            old(dev).history().len() as int,
            scene@.patches,
            256,
        ) && rep@ == scene_report(
            final(dev).history(),
            old(dev).history().len() as int,
            scene@.patches,
            256,
        ),
        r matches Err(m) ==> scene_failed(
            old(dev).history(),
            final(dev).history(),
            scene@.patches,
            m@,
        ),
{
    let ghost h0 = dev.history();
    let ghost start = h0.len() as int;
    let ghost patches = scene@.patches;
    let mut agg = VerifyReport::default();
    let mut slot: u16 = 0;
    assert(dev.history().take(start) =~= h0);
    while slot < 256
        invariant
            slot <= 256,
            start == h0.len(),
            h0 == old(dev).history(),
            patches == scene@.patches,
            dev.history().take(start) == h0,
            scene_restored(dev.history(), start, patches, slot as nat),
            agg@ == scene_report(dev.history(), start, patches, slot as nat),
            progress.reported() == old(progress).reported() + slot_reports(patches, slot as nat),
        decreases 256 - slot,
    {
        let s = slot as u8;
        let ghost h1 = dev.history();
        match scene.patches.get(&s) {
            Some(patch) => {
                assert(patches.contains_key(s) && patches[s] == patch@);
                progress.report(s, patch.name.as_str());
                assert(progress.reported() =~= old(progress).reported() + slot_reports(
                    patches,
                    s as nat + 1,
                ));
                let r = match restore(dev, s, patch) {
                    Ok(r) => r,
                    Err(m) => {
                        proof {
                            let h2 = dev.history();
                            assert(h2.take(h1.len() as int) =~= h1);
                            assert(h2.take(start) =~= h0) by {
                                assert(h1.take(start) == h0);
                            }
                            let done = h2.take((h0.len() + 4 * slots_below(patches, s as nat)) as int);
                            assert(done == h1);
                            assert(patches.contains_key(s));
                            assert(h2.take(h0.len() as int) == h0);
                            assert(scene_restored(done, h0.len() as int, patches, s as nat));
                            assert(restore_failed(done, h2, s, patches[s]));
                            assert(restore_failure_message(s, m@));
                            assert(scene_failed(h0, h2, patches, m@));
                            assert(scene@.patches.contains_key(s));
                        }
                        return Err(m);
                    },
                };
                proof {
                    lemma_scene_step(h1, dev.history(), start, patches, s, r@);
                }
                add_report(&mut agg, r);
            },
            None => {
                proof {
                    lemma_scene_skip(h1, start, patches, s);
                    assert(slot_reports(patches, s as nat + 1) == slot_reports(patches, s as nat));
                }
            },
        }
        slot += 1;
    }
    Ok(agg)
}

// ---- preset copy ----

/// The text of a failed name-block read.
pub open spec fn name_read_error(e: Error) -> Seq<char> {
    step_error("reading name block: "@, e)
}

/// The text of a failed aggregate-block read.
pub open spec fn aggregate_read_error(e: Error) -> Seq<char> {
    step_error("reading aggregate block: "@, e)
}

/// Read the current edit buffer's name (the name block).
fn read_name<D: ElevenDevice>(dev: &mut D) -> (r: Result<String, String>)
    ensures
        final(dev).history().drop_last() == old(dev).history(),
        final(dev).history().len() == old(dev).history().len() + 1,
        final(dev).history().last() matches DeviceOp::ReadBlock { addr, result } && addr == seq![
            NAME_BLOCK,
        ] && (r is Ok <==> result is Some) && (r matches Ok(n) ==> n@ == payload_name(result->0)),
        r matches Err(m) ==> exists|e: Error| m@ == name_read_error(e),
{
    let addr: [u8; 1] = [NAME_BLOCK];
    assert(addr@ =~= seq![NAME_BLOCK]);
    match dev.read_block(&addr) {
        Ok(b) => Ok(block_name(b.as_slice())),
        Err(e) => {
            let mut s = String::from_str("reading name block: ");
            push_error(&mut s, &e);
            assert(s@ =~= name_read_error(e));
            Err(s)
        },
    }
}

/// Read the current edit buffer's full packed patch image (the aggregate
/// block).
fn read_aggregate<D: ElevenDevice>(dev: &mut D) -> (r: Result<Vec<u8>, String>)
    ensures
        final(dev).history().drop_last() == old(dev).history(),
        final(dev).history().len() == old(dev).history().len() + 1,
        final(dev).history().last() matches DeviceOp::ReadBlock { addr, result } && addr == seq![
            AGGREGATE_BLOCK,
        ] && (r is Ok <==> result is Some) && (r matches Ok(b) ==> b@ == result->0),
        r matches Err(m) ==> exists|e: Error| m@ == aggregate_read_error(e),
{
    let addr: [u8; 1] = [AGGREGATE_BLOCK];
    assert(addr@ =~= seq![AGGREGATE_BLOCK]);
    match dev.read_block(&addr) {
        Ok(b) => Ok(b),
        Err(e) => {
            let mut s = String::from_str("reading aggregate block: ");
            push_error(&mut s, &e);
            assert(s@ =~= aggregate_read_error(e));
            Err(s)
        },
    }
}

/// The text of a failed store.
pub open spec fn store_error(slot: u8, e: Error) -> Seq<char> {
    step_error("storing to slot "@ + dec(slot as nat) + ": "@, e)
}

/// Copy the patch at `from_bank`/`from_slot` (a Factory preset, say) into User
/// `to_slot` with the device's native store of the whole edit buffer, then
/// verify by re-reading the target's packed image.
pub fn copy_slot<D: ElevenDevice>(dev: &mut D, from_bank: u8, from_slot: u8, to_slot: u8) -> (r:
    Result<VerifyReport, String>)
    ensures
        r matches Ok(rep) ==> final(dev).history().take(old(dev).history().len() as int) == old(
            dev,
        ).history() && copied(
            final(dev).history().skip(old(dev).history().len() as int),
            from_bank,
            from_slot,
            to_slot,
            rep@,
        ),
        r matches Err(m) ==> final(dev).history().take(old(dev).history().len() as int) == old(
            dev,
        ).history() && copy_failed(
            final(dev).history().skip(old(dev).history().len() as int),
            from_bank,
            from_slot,
            to_slot,
            m@,
        ),
{
    let ghost h0 = dev.history();
    match select_settle(dev, from_bank, from_slot) {
        Ok(()) => {},
        Err(m) => {
            proof {
                assert(dev.history().take(h0.len() as int) =~= h0);
                assert(dev.history().skip(h0.len() as int) =~= seq![dev.history().last()]);
            }
            return Err(m);
        },
    }
    let ghost h1 = dev.history();
    let name = match read_name(dev) {
        Ok(n) => n,
        Err(m) => {
            proof {
                assert(dev.history() =~= h1.push(dev.history().last()));
                assert(dev.history().take(h0.len() as int) =~= h0);
                assert(dev.history().skip(h0.len() as int) =~= seq![h1.last(), dev.history().last()]);
            }
            return Err(m);
        },
    };
    let ghost h2 = dev.history();
    let source = match read_aggregate(dev) {
        Ok(b) => b,
        Err(m) => {
            proof {
                assert(h2 =~= h1.push(h2.last()));
                assert(dev.history() =~= h2.push(dev.history().last()));
                assert(dev.history().take(h0.len() as int) =~= h0);
                assert(dev.history().skip(h0.len() as int) =~= seq![h1.last(), h2.last(), dev.history().last()]);
            }
            return Err(m);
        },
    };
    let ghost h3 = dev.history();
    match dev.store(to_slot as u16, name.as_str()) {
        Ok(()) => {},
        Err(e) => {
            let mut s = String::from_str("storing to slot ");
            push_decimal(&mut s, to_slot as u64);
            s.append(": ");
            push_error(&mut s, &e);
            assert(s@ =~= store_error(to_slot, e));
            proof {
                assert(h2 =~= h1.push(h2.last()));
                assert(h3 =~= h2.push(h3.last()));
                assert(dev.history().take(h0.len() as int) =~= h0);
                assert(dev.history().skip(h0.len() as int) =~= seq![h1.last(), h2.last(), h3.last(), dev.history().last()]);
            }
            return Err(s);
        },
    }
    let ghost h4 = dev.history();
    match select_settle(dev, USER_BANK, to_slot) {
        Ok(()) => {},
        Err(m) => {
            proof {
                assert(h2 =~= h1.push(h2.last()));
                assert(h3 =~= h2.push(h3.last()));
                assert(dev.history().take(h0.len() as int) =~= h0);
                assert(dev.history().skip(h0.len() as int) =~= seq![h1.last(), h2.last(), h3.last(), h4.last(), dev.history().last()]);
            }
            return Err(m);
        },
    }
    let ghost h5 = dev.history();
    let after = match read_aggregate(dev) {
        Ok(b) => b,
        Err(m) => {
            proof {
                assert(h2 =~= h1.push(h2.last()));
                assert(h3 =~= h2.push(h3.last()));
                assert(dev.history() =~= h5.push(dev.history().last()));
                assert(dev.history().take(h0.len() as int) =~= h0);
                assert(dev.history().skip(h0.len() as int) =~= seq![h1.last(), h2.last(), h3.last(), h4.last(), h5.last(), dev.history().last()]);
            }
            return Err(m);
        },
    };
    let rep = verify_aggregate(source.as_slice(), after.as_slice());
    proof {
        let h6 = dev.history();
        assert(h1 =~= h0.push(h1.last()));
        assert(h2 =~= h1.push(h2.last()));
        assert(h3 =~= h2.push(h3.last()));
        assert(h4 =~= h3.push(h4.last()));
        assert(h5 =~= h4.push(h5.last()));
        assert(h6 =~= h5.push(h6.last()));
        assert(h6 =~= h0 + seq![h1.last(), h2.last(), h3.last(), h4.last(), h5.last(), h6.last()]);
        assert(h6.take(h0.len() as int) =~= h0);
        assert(h6.skip(h0.len() as int) =~= seq![
            h1.last(),
            h2.last(),
            h3.last(),
            h4.last(),
            h5.last(),
            h6.last(),
        ]);
    }
    Ok(rep)
}

/// The first `n` operations of a native copy went as planned: the source
/// select, the name read, the image read, the store under the name read and
/// the target select, in that order.
pub open spec fn copy_ok_prefix(
    ops: Seq<DeviceOp>,
    from_bank: u8,
    from_slot: u8,
    to_slot: u8,
    n: int,
) -> bool {
    &&& n > 0 ==> ops[0] == DeviceOp::Select { bank: from_bank, slot: from_slot, ok: true }
    &&& n > 1 ==> (ops[1] matches DeviceOp::ReadBlock { addr, result: Some(_) } && addr == seq![
        NAME_BLOCK,
    ])
    &&& n > 2 ==> (ops[2] matches DeviceOp::ReadBlock { addr, result: Some(_) } && addr == seq![
        AGGREGATE_BLOCK,
    ])
    &&& n > 3 ==> ops[3] == DeviceOp::Store {
        slot: to_slot as u16,
        name: payload_name(ops[1]->ReadBlock_result->0),
        ok: true,
    }
    &&& n > 4 ==> ops[4] == DeviceOp::Select { bank: USER_BANK, slot: to_slot, ok: true }
}

/// Operation `k` of a native copy failed, with text `m`.
pub open spec fn copy_step_failed(
    ops: Seq<DeviceOp>,
    from_bank: u8,
    from_slot: u8,
    to_slot: u8,
    k: int,
    m: Seq<char>,
) -> bool {
    if k == 0 {
        ops[0] == DeviceOp::Select { bank: from_bank, slot: from_slot, ok: false } && exists|
            e: Error,
        | m == select_error(from_bank, from_slot, e)
    } else if k == 1 {
        ops[1] == DeviceOp::ReadBlock { addr: seq![NAME_BLOCK], result: None } && exists|e: Error|
            m == name_read_error(e)
    } else if k == 2 {
        ops[2] == DeviceOp::ReadBlock { addr: seq![AGGREGATE_BLOCK], result: None } && exists|
            e: Error,
        | m == aggregate_read_error(e)
    } else if k == 3 {
        ops[3] == DeviceOp::Store {
            slot: to_slot as u16,
            name: payload_name(ops[1]->ReadBlock_result->0),
            ok: false,
        } && exists|e: Error| m == store_error(to_slot, e)
    } else if k == 4 {
        ops[4] == DeviceOp::Select { bank: USER_BANK, slot: to_slot, ok: false } && exists|
            e: Error,
        | m == select_error(USER_BANK, to_slot, e)
    } else {
        k == 5 && ops[5] == DeviceOp::ReadBlock { addr: seq![AGGREGATE_BLOCK], result: None }
            && exists|e: Error| m == aggregate_read_error(e)
    }
}

/// A native copy that stopped at a failure, with text `m`: the operations
/// before the last went as planned and the last one failed.
pub open spec fn copy_failed(
    ops: Seq<DeviceOp>,
    from_bank: u8,
    from_slot: u8,
    to_slot: u8,
    m: Seq<char>,
) -> bool {
    &&& 1 <= ops.len() <= 6
    &&& copy_ok_prefix(ops, from_bank, from_slot, to_slot, ops.len() - 1)
    &&& copy_step_failed(ops, from_bank, from_slot, to_slot, ops.len() - 1, m)
}

/// A native copy went as planned: select the source, read its name and packed
/// image, store the buffer to the target under that name, select the target
/// and read its image back; the report compares the two images.
pub open spec fn copied(ops: Seq<DeviceOp>, from_bank: u8, from_slot: u8, to_slot: u8, rep: ReportView) -> bool {
    ops.len() == 6 && ops[0] == DeviceOp::Select { bank: from_bank, slot: from_slot, ok: true }
        && ops[4] == DeviceOp::Select { bank: USER_BANK, slot: to_slot, ok: true } && match (
        ops[1],
        ops[2],
        ops[5],
    ) {
        (
            DeviceOp::ReadBlock { addr: a1, result: Some(nb) },
            DeviceOp::ReadBlock { addr: a2, result: Some(src) },
            DeviceOp::ReadBlock { addr: a3, result: Some(back) },
        ) => a1 == seq![NAME_BLOCK] && a2 == seq![AGGREGATE_BLOCK] && a3 == seq![AGGREGATE_BLOCK]
            && ops[3] == DeviceOp::Store { slot: to_slot as u16, name: payload_name(nb), ok: true }
            && rep == verify_aggregate_spec(src, back),
        _ => false,
    }
}

// ---- named MIDI CC ----

/// The text for an unknown effect name.
pub open spec fn no_effect_text(f: Seq<char>) -> Seq<char> {
    "no effect named "@ + debug_text(f) + "; see `list`"@
}

/// The text for an effect that occupies no slot.
pub open spec fn no_slots_text(f: Seq<char>) -> Seq<char> {
    "effect "@ + debug_text(f) + " has no slots"@
}

/// The text for a control name that does not resolve.
pub open spec fn unresolved_text(name: Seq<char>) -> Seq<char> {
    "could not resolve "@ + debug_text(name) + "; give --amp/--fx context, or see `list`"@
}

/// How a named control resolves to `(cc, kind)`: with an effect context, the
/// chain slot defaults to the effect's first slot.
pub open spec fn named_cc_spec(
    name: Seq<char>,
    amp: Option<Seq<char>>,
    fx: Option<Seq<char>>,
    slot: Option<Slot>,
) -> Result<(u8, Kind), Seq<char>> {
    match fx {
        Some(f) => match effect_spec(f) {
            None => Err(no_effect_text(f)),
            Some(e) => {
                let s = match slot {
                    Some(s) => Some(s),
                    None => if e.slots.len() > 0 {
                        Some(e.slots[0])
                    } else {
                        None
                    },
                };
                match s {
                    None => Err(no_slots_text(f)),
                    Some(s) => match resolve_cc_spec(name, amp, Some((f, s))) {
                        Some(x) => Ok(x),
                        None => Err(unresolved_text(name)),
                    },
                }
            },
        },
        None => match resolve_cc_spec(name, amp, None) {
            Some(x) => Ok(x),
            None => Err(unresolved_text(name)),
        },
    }
}

/// The string views of an optional name.
pub open spec fn opt_view(o: Option<&str>) -> Option<Seq<char>> {
    match o {
        Some(s) => Some(s@),
        None => None,
    }
}

/// Resolve a control `name` to its MIDI CC and kind, using the optional amp /
/// effect context (and chain slot, defaulting to the effect's first).
pub fn resolve_named_cc(name: &str, amp: Option<&str>, fx: Option<&str>, slot: Option<Slot>) -> (r:
    Result<(u8, Kind), String>)
    ensures
        match (r, named_cc_spec(name@, opt_view(amp), opt_view(fx), slot)) {
            (Ok(x), Ok(y)) => x == y,
            (Err(m), Err(t)) => m@ == t,
            _ => false,
        },
{
    let fx_ctx: Option<(&str, Slot)> = match fx {
        Some(f) => {
            let e = match effect(f) {
                Some(e) => e,
                None => {
                    let s = String::from_str("no effect named ").concat(debug_str(f).as_str()).concat(
                        "; see `list`",
                    );
                    return Err(s);
                },
            };
            let s = match slot {
                Some(s) => s,
                None => {
                    if e.slots.len() > 0 {
                        e.slots[0]
                    } else {
                        let m = String::from_str("effect ").concat(debug_str(f).as_str()).concat(
                            " has no slots",
                        );
                        return Err(m);
                    }
                },
            };
            Some((f, s))
        },
        None => None,
    };
    match resolve_cc(name, amp, fx_ctx) {
        Some(x) => Ok(x),
        None => {
            let m = String::from_str("could not resolve ").concat(debug_str(name).as_str()).concat(
                "; give --amp/--fx context, or see `list`",
            );
            Err(m)
        },
    }
}

/// The text of a failed CC send.
pub open spec fn send_error(cc: u8, e: Error) -> Seq<char> {
    step_error("sending CC "@ + dec(cc as nat) + ": "@, e)
}

/// Resolve a control `name` to its MIDI CC (via the parameter catalog, with the
/// optional amp / effect context) and send `value` on `channel`. Returns the
/// resolved `(cc, kind)`; a name that does not resolve sends nothing.
pub fn send_named_cc<D: ElevenDevice>(
    dev: &mut D,
    name: &str,
    value: u8,
    amp: Option<&str>,
    fx: Option<&str>,
    slot: Option<Slot>,
    channel: u8,
) -> (r: Result<(u8, Kind), String>)
    ensures
        match named_cc_spec(name@, opt_view(amp), opt_view(fx), slot) {
            Err(t) => r matches Err(m) && m@ == t && final(dev).history() == old(dev).history(),
            Ok(x) => final(dev).history() == old(dev).history().push(
                DeviceOp::SendCc { channel, cc: x.0, value, ok: r is Ok },
            ) && match r {
                Ok(y) => y == x,
                Err(m) => exists|e: Error| m@ == send_error(x.0, e),
            },
        },
{
    let (cc, kind) = resolve_named_cc(name, amp, fx, slot)?;
    match dev.send_cc(channel, cc, value) {
        Ok(()) => Ok((cc, kind)),
        Err(e) => {
            let mut s = String::from_str("sending CC ");
            push_decimal(&mut s, cc as u64);
            s.append(": ");
            push_error(&mut s, &e);
            assert(s@ =~= send_error(cc, e));
            Err(s)
        },
    }
}

/// After a store to User `slot`, that slot's directory entry reads back the
/// new name (as the mock answers it).
pub proof fn lemma_store_then_directory(m: MockView, slot: u8, name: Seq<char>)
    ensures
        mock_read(after_store(m, slot as u16, name), directory_address(slot)) == name_payload(
            name,
        ),
{
    let a = directory_address(slot);
    assert(((((slot >> 7u8) & 0x7fu8) as u16) << 7u16) | (((slot & 0x7fu8) as u8) as u16)
        == slot as u16) by (bit_vector);
    assert(directory_index(a[1], a[2]) == slot as u16);
    assert(after_store(m, slot as u16, name).user.contains_key(slot));
}

/// After a restore to User `slot`, that slot's directory entry reads back the
/// restored patch's name (as the mock answers it).
pub proof fn lemma_restore_then_directory(m: MockView, slot: u8, p: PatchBackupView)
    ensures
        mock_read(after_restore(m, slot as u16, p), directory_address(slot)) == name_payload(
            p.name,
        ),
{
    let a = directory_address(slot);
    assert(((((slot >> 7u8) & 0x7fu8) as u16) << 7u16) | (((slot & 0x7fu8) as u8) as u16)
        == slot as u16) by (bit_vector);
    assert(directory_index(a[1], a[2]) == slot as u16);
    assert(after_restore(m, slot as u16, p).user.contains_key(slot));
}

/// Block ids occur at most once.
pub open spec fn distinct_ids(blocks: Seq<BlockView>) -> bool {
    forall|i: int, j: int| 0 <= i < j < blocks.len() ==> blocks[i].id != blocks[j].id
}

/// A capture whose block ids are distinct verifies against itself: every
/// written block matches.
pub proof fn lemma_verify_self(blocks: Seq<BlockView>)
    requires
        distinct_ids(blocks),
    ensures
        verify_spec(blocks, blocks).mismatched.len() == 0,
        verify_spec(blocks, blocks).matched == verify_spec(blocks, blocks).written,
{
    lemma_verify_prefix_matches(blocks, blocks.len() as int);
    assert(blocks.take(blocks.len() as int) =~= blocks);
    lemma_verify_accounts(blocks, blocks);
}

/// Every block of a prefix of a capture with distinct ids matches the capture.
proof fn lemma_verify_prefix_matches(blocks: Seq<BlockView>, n: int)
    requires
        distinct_ids(blocks),
        0 <= n <= blocks.len(),
    ensures
        verify_spec(blocks.take(n), blocks).mismatched.len() == 0,
    decreases n,
{
    if n > 0 {
        let p = blocks.take(n);
        assert(p.drop_last() =~= blocks.take(n - 1));
        lemma_verify_prefix_matches(blocks, n - 1);
        let b = blocks[n - 1];
        assert(p.last() == b);
        let pr = block_with_id(b.id);
        assert forall|j: int| 0 <= j < n - 1 implies !pr(#[trigger] blocks[j]) by {
            assert(blocks[j].id != blocks[n - 1].id);
        }
        lemma_first_at(blocks, pr, n - 1);
        assert(block_matches(b, blocks));
    }
}

} // verus!
