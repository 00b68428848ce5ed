//! Sliding-window detector for duplicate and stale packet ids.

use vstd::prelude::*;

verus! {

/// Width of the window, in ids, that a tracker remembers below its highest id.
pub const WINDOW: u64 = 64;

/// Outcome of offering a packet id to a tracker.
#[derive(Debug, PartialEq, Eq, Clone, Copy, Structural)]
pub enum UpdateResult {
    /// The id is new: the packet should be processed.
    Success,
    /// The id was seen before: the packet should be discarded.
    Duplicate,
    /// The id lies below the window: the packet should be discarded.
    Old,
}

/// Whether bit `i` of `bits` is set.
pub open spec fn bit_set(bits: u64, i: u64) -> bool {
    (bits >> i) & 1 == 1
}

/// Remembers the highest id seen and, in a bitfield, which of the 64 ids
/// ending at the highest have been seen: bit `i` stands for `highest - i`.
#[derive(Debug, Clone, Copy)]
pub struct PacketTracker {
    highest_packet_id: u64,
    packet_bitfield: u64,
}

impl PacketTracker {
    /// The highest id admitted so far, 0 for a fresh tracker.
    pub closed spec fn highest(self) -> u64 {
        self.highest_packet_id
    }

    /// The bitfield, bit `i` recording `highest - i`.
    pub closed spec fn bitfield(self) -> u64 {
        self.packet_bitfield
    }

    /// The tracker that holds these two values.
    pub closed spec fn from_parts(highest: u64, bitfield: u64) -> PacketTracker {
        PacketTracker { highest_packet_id: highest, packet_bitfield: bitfield }
    }

    /// The state of a tracker before anything was offered.
    pub open spec fn fresh() -> PacketTracker {
        PacketTracker::from_parts(0, 0)
    }

    /// Whether `id` is recorded as seen: it lies in the window and its bit is set.
    pub open spec fn seen(self, id: u64) -> bool {
        &&& id <= self.highest()
        &&& self.highest() - id < WINDOW
        &&& bit_set(self.bitfield(), (self.highest() - id) as u64)
    }

    /// What `update(id)` answers in this state.
    pub open spec fn verdict(self, id: u64) -> UpdateResult {
        if id == self.highest() {
            UpdateResult::Duplicate
        } else if id < self.highest() {
            if self.highest() - id >= WINDOW {
                UpdateResult::Old
            } else if bit_set(self.bitfield(), (self.highest() - id) as u64) {
                UpdateResult::Duplicate
            } else {
                UpdateResult::Success
            }
        } else {
            UpdateResult::Success
        }
    }

    /// The state that `update(id)` leaves behind.
    pub open spec fn after(self, id: u64) -> PacketTracker {
        if self.verdict(id) != UpdateResult::Success {
            self
        } else if id < self.highest() {
            PacketTracker::from_parts(
                self.highest(),
                self.bitfield() | (1u64 << ((self.highest() - id) as u64)),
            )
        } else if id - self.highest() >= WINDOW {
            PacketTracker::from_parts(id, 1)
        } else {
            PacketTracker::from_parts(
                id,
                (self.bitfield() << ((id - self.highest()) as u64)) | 1,
            )
        }
    }

    /// Holds of every tracker built by `new` and `update`: the bitfield is
    /// empty until an id is admitted, and afterwards bit 0 is set.
    pub open spec fn wf(self) -> bool {
        if self.highest() == 0 {
            self.bitfield() == 0
        } else {
            bit_set(self.bitfield(), 0)
        }
    }

    /// A tracker that has seen nothing.
    pub fn new() -> (t: PacketTracker)
        ensures
            t == PacketTracker::fresh(),
            t.wf(),
    {
        assert(!bit_set(0u64, 0u64)) by (bit_vector);
        PacketTracker { highest_packet_id: 0, packet_bitfield: 0 }
    }

    /// Offers `packet_id`. `Success` records it; `Duplicate` and `Old` leave
    /// the tracker as it was.
    pub fn update(&mut self, packet_id: u64) -> (r: UpdateResult)
        ensures
            r == old(self).verdict(packet_id),
            *final(self) == old(self).after(packet_id),
            old(self).wf() ==> final(self).wf(),
    {
        proof {
            if self.wf() {
                lemma_after_wf(*self, packet_id);
            }
        }
        let highest = self.highest_packet_id;
        if packet_id == highest {
            return UpdateResult::Duplicate;
        }
        if packet_id < highest {
            let back: u64 = highest - packet_id;
            if back >= WINDOW {
                return UpdateResult::Old;
            }
            let bits: u64 = self.packet_bitfield;
            let mask: u64 = 1u64 << back;
            if bits & mask != 0 {
                assert(bit_set(bits, back)) by (bit_vector)
                    requires
                        back < 64,
                        bits & (1u64 << back) != 0,
                ;
                return UpdateResult::Duplicate;
            }
            assert(!bit_set(bits, back)) by (bit_vector)
                requires
                    back < 64,
                    bits & (1u64 << back) == 0,
            ;
            self.packet_bitfield = bits | mask;
            return UpdateResult::Success;
        }
        let ahead: u64 = packet_id - highest;
        if ahead >= WINDOW {
            self.packet_bitfield = 1;
        } else {
            self.packet_bitfield = (self.packet_bitfield << ahead) | 1;
        }
        self.highest_packet_id = packet_id;
        UpdateResult::Success
    }

    /// The highest id admitted so far.
    pub fn highest_packet_id(&self) -> (r: u64)
        ensures
            r == self.highest(),
    {
        self.highest_packet_id
    }

    /// The bitfield of ids seen at and below the highest.
    pub fn packet_bitfield(&self) -> (r: u64)
        ensures
            r == self.bitfield(),
    {
        self.packet_bitfield
    }
}

/// Bit `j` of a bitfield moved up by `s` places with bit 0 then set.
proof fn lemma_bit_of_shifted(bits: u64, s: u64, j: u64)
    by (bit_vector)
    requires
        1 <= s < 64,
        j < 64,
    ensures
        bit_set((bits << s) | 1, j) == (j == 0 || (j >= s && bit_set(bits, (j - s) as u64))),
{
}

/// Bit `j` of a bitfield in which bit `b` was set.
proof fn lemma_bit_of_marked(bits: u64, b: u64, j: u64)
    by (bit_vector)
    requires
        b < 64,
        j < 64,
    ensures
        bit_set(bits | (1u64 << b), j) == (j == b || bit_set(bits, j)),
{
}

/// Bit `j` of the bitfield that holds bit 0 alone.
proof fn lemma_bit_of_one(j: u64)
    by (bit_vector)
    requires
        j < 64,
    ensures
        bit_set(1u64, j) == (j == 0),
{
}

/// The tracker after each id of `ids` was offered in turn.
pub open spec fn run(t: PacketTracker, ids: Seq<u64>) -> PacketTracker
    decreases ids.len(),
{
    if ids.len() == 0 {
        t
    } else {
        run(t, ids.drop_last()).after(ids.last())
    }
}

/// The parts of a tracker built from two values are those values.
pub proof fn lemma_parts(highest: u64, bitfield: u64)
    ensures
        PacketTracker::from_parts(highest, bitfield).highest() == highest,
        PacketTracker::from_parts(highest, bitfield).bitfield() == bitfield,
{
}

/// What an update means for the set of ids seen: an admitted id joins the
/// set, ids that fall out of the window leave it, and nothing else changes.
/// The highest id becomes the larger of the old highest and an admitted id.
pub proof fn lemma_after_seen(t: PacketTracker, id: u64, x: u64)
    ensures
        t.verdict(id) != UpdateResult::Success ==> t.after(id) == t,
        t.verdict(id) == UpdateResult::Success ==> t.after(id).highest() == (if id
            > t.highest() {
            id
        } else {
            t.highest()
        }),
        t.verdict(id) == UpdateResult::Success ==> (t.after(id).seen(x) <==> (x == id || (t.seen(
            x,
        ) && t.after(id).highest() - x < WINDOW))),
{
    if t.verdict(id) == UpdateResult::Success {
        let h = t.highest();
        let n = t.after(id);
        if id < h {
            let b = (h - id) as u64;
            lemma_parts(h, t.bitfield() | (1u64 << b));
            if x <= h && h - x < WINDOW {
                lemma_bit_of_marked(t.bitfield(), b, (h - x) as u64);
            }
        } else if id - h >= WINDOW {
            lemma_parts(id, 1);
            if x <= id && id - x < WINDOW {
                lemma_bit_of_one((id - x) as u64);
            }
        } else {
            let s = (id - h) as u64;
            lemma_parts(id, (t.bitfield() << s) | 1);
            if x <= id && id - x < WINDOW {
                lemma_bit_of_shifted(t.bitfield(), s, (id - x) as u64);
            }
        }
    }
}

/// Every update keeps a tracker well formed.
pub proof fn lemma_after_wf(t: PacketTracker, id: u64)
    requires
        t.wf(),
    ensures
        t.after(id).wf(),
{
    if t.verdict(id) == UpdateResult::Success {
        let h = t.highest();
        if id < h {
            let b = (h - id) as u64;
            lemma_parts(h, t.bitfield() | (1u64 << b));
            lemma_bit_of_marked(t.bitfield(), b, 0);
        } else if id - h >= WINDOW {
            lemma_parts(id, 1);
            lemma_bit_of_one(0);
        } else {
            let s = (id - h) as u64;
            lemma_parts(id, (t.bitfield() << s) | 1);
            lemma_bit_of_shifted(t.bitfield(), s, 0);
        }
    }
}

/// The highest id never goes down, whatever is offered.
pub proof fn lemma_run_highest_grows(t: PacketTracker, ids: Seq<u64>)
    ensures
        run(t, ids).highest() >= t.highest(),
    decreases ids.len(),
{
    if ids.len() > 0 {
        lemma_run_highest_grows(t, ids.drop_last());
        lemma_after_seen(run(t, ids.drop_last()), ids.last(), 0);
    }
}

/// Ids offered in strictly increasing order, the first above the tracker's
/// highest, are all admitted, and after each the highest id is that id.
pub proof fn law_increasing_ids_admitted(t: PacketTracker, ids: Seq<u64>, k: int)
    requires
        0 <= k < ids.len(),
        ids[0] > t.highest(),
        forall|i: int, j: int| 0 <= i < j < ids.len() ==> ids[i] < ids[j],
    ensures
        run(t, ids.take(k)).verdict(ids[k]) == UpdateResult::Success,
        run(t, ids.take(k + 1)).highest() == ids[k],
    decreases k,
{
    let before = run(t, ids.take(k));
    if k == 0 {
        assert(ids.take(0).len() == 0);
    } else {
        law_increasing_ids_admitted(t, ids, k - 1);
        assert(ids.take(k - 1 + 1) == ids.take(k));
        assert(before.highest() == ids[k - 1]);
    }
    assert(ids.take(k + 1).drop_last() == ids.take(k));
    assert(ids.take(k + 1).last() == ids[k]);
    lemma_after_seen(before, ids[k], 0);
}

/// An id recorded as seen stays so through any updates for as long as it
/// lies in the window.
pub proof fn lemma_seen_persists(t: PacketTracker, x: u64, later: Seq<u64>)
    requires
        t.seen(x),
        run(t, later).highest() - x < WINDOW,
    ensures
        run(t, later).seen(x),
    decreases later.len(),
{
    if later.len() > 0 {
        let before = run(t, later.drop_last());
        lemma_after_seen(before, later.last(), x);
        lemma_after_seen(before, later.last(), 0);
        lemma_seen_persists(t, x, later.drop_last());
    }
}

/// The highest id after a run is the tracker's own or one of those offered,
/// and no id offered lies above it.
pub proof fn lemma_run_highest_bounds(t: PacketTracker, ids: Seq<u64>)
    ensures
        forall|k: int| 0 <= k < ids.len() ==> ids[k] <= run(t, ids).highest(),
        run(t, ids).highest() == t.highest() || exists|k: int|
            0 <= k < ids.len() && ids[k] == run(t, ids).highest(),
    decreases ids.len(),
{
    if ids.len() > 0 {
        let head = ids.drop_last();
        let before = run(t, head);
        lemma_run_highest_bounds(t, head);
        lemma_after_seen(before, ids.last(), 0);
        let h = run(t, ids).highest();
        assert forall|k: int| 0 <= k < ids.len() implies ids[k] <= h by {
            if k < head.len() {
                assert(head[k] == ids[k]);
            }
        }
        if h != t.highest() {
            if h == before.highest() {
                let k = choose|k: int| 0 <= k < head.len() && head[k] == before.highest();
                assert(ids[k] == h);
            } else {
                assert(ids[ids.len() - 1] == h);
            }
        }
    }
}

/// An id that was just admitted is answered `Duplicate` when offered
/// again, and that answer changes nothing.
pub proof fn lemma_second_offer_is_duplicate(t: PacketTracker, id: u64)
    requires
        t.verdict(id) == UpdateResult::Success,
    ensures
        t.after(id).verdict(id) == UpdateResult::Duplicate,
        t.after(id).after(id) == t.after(id),
{
    lemma_after_seen(t, id, id);
}

/// An id that was admitted is answered `Duplicate` when offered again, as
/// long as the highest id has not moved more than 63 above it, and `Old`
/// once it has. In terms of what was offered in between: `Duplicate` if no
/// id more than 63 above it came, `Old` if one did.
pub proof fn law_admitted_id_is_duplicate(t: PacketTracker, id: u64, later: Seq<u64>)
    requires
        t.verdict(id) == UpdateResult::Success,
    ensures
        run(t.after(id), later).highest() >= id,
        run(t.after(id), later).highest() - id < WINDOW ==> run(t.after(id), later).verdict(id)
            == UpdateResult::Duplicate,
        run(t.after(id), later).highest() - id >= WINDOW ==> run(t.after(id), later).verdict(id)
            == UpdateResult::Old,
        (forall|k: int| 0 <= k < later.len() ==> later[k] - id < WINDOW) ==> run(
            t.after(id),
            later,
        ).verdict(id) == UpdateResult::Duplicate,
        (exists|k: int| 0 <= k < later.len() && later[k] - id >= WINDOW) ==> run(
            t.after(id),
            later,
        ).verdict(id) == UpdateResult::Old,
{
    let first = t.after(id);
    let last = run(first, later);
    lemma_after_seen(t, id, id);
    lemma_run_highest_grows(first, later);
    lemma_run_highest_bounds(first, later);
    if last.highest() - id < WINDOW {
        lemma_seen_persists(first, id, later);
    }
}

} // verus!
