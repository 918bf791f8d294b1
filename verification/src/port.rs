//! The host side of the MIDI link: how long to keep polling the unit's input
//! for replies, and the line the byte log records for each transfer.

use vstd::prelude::*;

use crate::listing::{pad_left, push_number_right};
use crate::text::{dec, hex, hex_spaced, push_char};

verus! {

/// Consecutive silent polls (about 1.2 s) after which a reply is given up on.
pub const REPLY_POLLS: u32 = 1200;

/// Consecutive silent polls (about 20 ms) that end an input drain.
pub const DRAIN_QUIET_POLLS: u32 = 20;

/// Silence (about 50 ms) that ends collecting a batch scan's replies, once at
/// least one has arrived.
pub const SCAN_QUIET_POLLS: u32 = 50;

/// The idle count after one poll: bytes restart it, silence adds one.
pub open spec fn idle_step(idle: nat, bytes: bool) -> nat {
    if bytes {
        0
    } else {
        idle + 1
    }
}

/// A wait that ends after `limit` consecutive silent polls; bytes arriving
/// restart the count, so a reply streaming in slowly is never abandoned.
pub struct IdleWait {
    /// Consecutive silent polls so far.
    pub idle: u32,
    /// Silent polls that end the wait.
    pub limit: u32,
}

impl IdleWait {
    /// The wait for a reply to a request.
    pub fn reply() -> (w: IdleWait)
        ensures
            w.idle == 0,
            w.limit == REPLY_POLLS,
    {
        IdleWait { idle: 0, limit: REPLY_POLLS }
    }

    /// The wait that drains stale input before a request.
    pub fn drain() -> (w: IdleWait)
        ensures
            w.idle == 0,
            w.limit == DRAIN_QUIET_POLLS,
    {
        IdleWait { idle: 0, limit: DRAIN_QUIET_POLLS }
    }

    /// Whether to poll again.
    pub fn waiting(&self) -> (r: bool)
        ensures
            r == (self.idle < self.limit),
    {
        self.idle < self.limit
    }

    /// A poll brought bytes.
    pub fn bytes(&mut self)
        ensures
            final(self).idle == idle_step(old(self).idle as nat, true),
            final(self).limit == old(self).limit,
    {
        self.idle = 0;
    }

    /// A poll brought nothing (only polled while still waiting).
    pub fn silence(&mut self)
        requires
            old(self).idle < old(self).limit,
        ensures
            final(self).idle == idle_step(old(self).idle as nat, false),
            final(self).limit == old(self).limit,
    {
        self.idle = self.idle + 1;
    }
}

/// The idle count after a run of polls (`true` for one that brought bytes).
pub open spec fn idle_after(idle: nat, polls: Seq<bool>) -> nat
    decreases polls.len(),
{
    if polls.len() == 0 {
        idle
    } else {
        idle_step(idle_after(idle, polls.drop_last()), polls.last())
    }
}

/// The number of silent polls at the end of a run of polls.
pub open spec fn trailing_silence(polls: Seq<bool>) -> nat
    decreases polls.len(),
{
    if polls.len() == 0 {
        0
    } else if polls.last() {
        0
    } else {
        trailing_silence(polls.drop_last()) + 1
    }
}

/// Only silence ends a wait: once any poll has brought bytes, the idle count is
/// exactly the number of silent polls since the last one, whatever came before.
pub proof fn lemma_idle_counts_trailing_silence(idle: nat, polls: Seq<bool>)
    requires
        polls.contains(true),
    ensures
        idle_after(idle, polls) == trailing_silence(polls),
    decreases polls.len(),
{
    if polls.last() {
    } else {
        let i = choose|i: int| 0 <= i < polls.len() && polls[i] == true;
        assert(polls.drop_last()[i] == true);
        lemma_idle_counts_trailing_silence(idle, polls.drop_last());
    }
}

/// The polling state while collecting a batch scan's replies.
pub struct ScanWait {
    /// Consecutive silent polls.
    pub quiet: u32,
    /// Silent polls in all.
    pub waited: u32,
}

/// A counter one up, held at its maximum.
pub open spec fn bump(n: u32) -> u32 {
    if n < u32::MAX {
        (n + 1) as u32
    } else {
        n
    }
}

/// Whether a scan collection stops after a silent poll: after
/// [`SCAN_QUIET_POLLS`] consecutive ones once a reply has arrived, after
/// [`REPLY_POLLS`] in all while none has.
pub open spec fn scan_stops(quiet: u32, waited: u32, have: bool) -> bool {
    (have && quiet >= SCAN_QUIET_POLLS) || (!have && waited >= REPLY_POLLS)
}

impl ScanWait {
    /// The state before the first poll.
    pub fn new() -> (w: ScanWait)
        ensures
            w.quiet == 0,
            w.waited == 0,
    {
        ScanWait { quiet: 0, waited: 0 }
    }

    /// A poll brought bytes.
    pub fn bytes(&mut self)
        ensures
            final(self).quiet == 0,
            final(self).waited == old(self).waited,
    {
        self.quiet = 0;
    }

    /// A poll brought nothing; `have` tells whether a reply has been collected.
    /// Returns whether to stop collecting.
    pub fn silence(&mut self, have: bool) -> (stop: bool)
        ensures
            final(self).quiet == bump(old(self).quiet),
            final(self).waited == bump(old(self).waited),
            stop == scan_stops(final(self).quiet, final(self).waited, have),
    {
        if self.quiet < u32::MAX {
            self.quiet = self.quiet + 1;
        }
        if self.waited < u32::MAX {
            self.waited = self.waited + 1;
        }
        (have && self.quiet >= SCAN_QUIET_POLLS) || (!have && self.waited >= REPLY_POLLS)
    }
}

/// One line of the byte log: milliseconds since the log opened (right-aligned
/// in 8), the direction (`>` out, `<` in), the byte count (right-aligned in 4)
/// and the bytes as hex.
pub open spec fn log_line_spec(ms: u64, dir: char, bytes: Seq<u8>) -> Seq<char> {
    pad_left(dec(ms as nat), 8) + seq![' ', dir, ' '] + pad_left(dec(bytes.len()), 4) + seq![' ']
        + hex_spaced(bytes)
}

/// The byte log's line for one transfer.
pub fn log_line(ms: u64, dir: char, bytes: &[u8]) -> (r: String)
    ensures
        r@ == log_line_spec(ms, dir, bytes@),
{
    let mut s = String::new();
    push_number_right(&mut s, ms, 8);
    push_char(&mut s, ' ');
    push_char(&mut s, dir);
    push_char(&mut s, ' ');
    push_number_right(&mut s, bytes.len() as u64, 4);
    push_char(&mut s, ' ');
    let h = hex(bytes);
    s.append(h.as_str());
    assert(s@ =~= log_line_spec(ms, dir, bytes@));
    s
}

} // verus!
