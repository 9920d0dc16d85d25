//! A circular staging buffer with a fixed pool of submissions in flight.
//!
//! Data for the GPU is written into a byte range of the ring and copied from there by
//! a command list. A range is claimed together with one of the pool's slots, stamped
//! with a fence value when its command list is submitted, and given back once that
//! fence value is complete. Ranges are given back in the order they were claimed, so
//! the live ranges form at most two runs: one from `tail` upwards and, once the ring
//! has wrapped, one from offset 0 up to `head`.

use crate::align::{align_data, align_up, is_power_of_two, lemma_align_up_bounds};
use crate::command_queue::{CommandQueue, CommandQueueView, FenceWait, QueueKind};
use crate::error::GpuError;
use crate::heap::{AllocationInfo, Heap};
use crate::resource::{Resource, ResourceDesc, ResourceView, SubResource, SubResourceView};
use vstd::prelude::*;

verus! {

/// How many submissions can be in flight at once.
pub const MAX_NUMBER_SUBMISSIONS: usize = 16;

/// The alignment the device asks of data that is copied into textures: 512 bytes.
pub const UPLOAD_PLACEMENT_ALIGNMENT: usize = 512;

/// The size of a ring for which none was asked: 64 MiB.
pub const DEFAULT_UPLOAD_BUFFER_SIZE: usize = 0x0400_0000;

/// One live byte range of the ring.
pub struct Region {
    pub offset: int,
    /// Bytes the caller asked for.
    pub size: int,
    /// Bytes added to reach the placement alignment.
    pub padding: int,
    /// The fence value of the submission; `None` until it is submitted.
    pub fence: Option<u64>,
}

impl Region {
    /// The first byte after the range, padding included.
    pub open spec fn end(self) -> int {
        self.offset + self.size + self.padding
    }

    /// Whether two ranges share no byte.
    pub open spec fn disjoint(self, other: Region) -> bool {
        self.end() <= other.offset || other.end() <= self.offset
    }
}

/// The ring as numbers.
pub struct RingView {
    /// Bytes in the ring.
    pub capacity: int,
    /// Where the next range is written.
    pub head: int,
    /// Where the oldest live range starts.
    pub tail: int,
    /// The pool slot of the oldest live range.
    pub start: int,
    /// How many of the live ranges belong to the run that starts at `tail`; the others
    /// belong to the run that starts at offset 0.
    pub upper: int,
    /// The live ranges, oldest first.
    pub live: Seq<Region>,
    /// All slots of the pool, by slot number: those in use and those that are not.
    pub slots: Seq<Submission>,
    /// The ring's own transfer queue.
    pub queue: CommandQueueView,
    /// The staging buffer.
    pub buffer: ResourceView,
}

/// `size` rounded up to the placement alignment.
pub open spec fn aligned_size(size: int) -> int {
    align_up(size, UPLOAD_PLACEMENT_ALIGNMENT as int)
}

impl RingView {
    /// Whether the ring has wrapped: some live range lies below `tail`.
    pub open spec fn wrapped(self) -> bool {
        self.upper < self.live.len()
    }

    /// Whether `aligned` contiguous bytes are free: after `head` up to the end of the
    /// buffer or, by wrapping, from offset 0 up to `tail`; once wrapped, only between
    /// `head` and `tail`.
    pub open spec fn has_room(self, aligned: int) -> bool {
        if self.wrapped() {
            self.head + aligned <= self.tail
        } else {
            self.head + aligned <= self.capacity || aligned <= self.tail
        }
    }

    /// Whether a range of `size` bytes can be claimed.
    pub open spec fn can_claim(self, size: int) -> bool {
        &&& self.live.len() < MAX_NUMBER_SUBMISSIONS
        &&& aligned_size(size) <= self.capacity
        &&& self.has_room(aligned_size(size))
    }

    /// Whether a range of `aligned` bytes has to start over at offset 0.
    pub open spec fn wraps(self, aligned: int) -> bool {
        !self.wrapped() && self.head + aligned > self.capacity
    }

    /// The offset a range of `aligned` bytes gets.
    pub open spec fn claim_offset(self, aligned: int) -> int {
        if self.wraps(aligned) {
            0
        } else {
            self.head
        }
    }

    /// The pool slot the next range gets.
    pub open spec fn claim_slot(self) -> int {
        (self.start + self.live.len()) % (MAX_NUMBER_SUBMISSIONS as int)
    }

    /// The range a claim of `size` bytes gets.
    pub open spec fn claim_region(self, size: int) -> Region {
        Region {
            offset: self.claim_offset(aligned_size(size)),
            size,
            padding: aligned_size(size) - size,
            fence: None,
        }
    }

    /// The slot a claim of `size` bytes fills: claimed, not yet stamped.
    pub open spec fn claim_submission(self, size: int) -> Submission {
        Submission {
            state: SubmissionState::Claimed,
            fence_value: 0,
            offset: self.claim_offset(aligned_size(size)) as usize,
            size: size as usize,
            padding: (aligned_size(size) - size) as usize,
        }
    }

    /// The ring after a range of `size` bytes was claimed.
    pub open spec fn claimed(self, size: int) -> RingView {
        let aligned = aligned_size(size);
        let offset = self.claim_offset(aligned);
        RingView {
            head: offset + aligned,
            tail: if self.live.len() == 0 {
                offset
            } else {
                self.tail
            },
            upper: if self.wrapped() || (self.wraps(aligned) && self.live.len() > 0) {
                self.upper
            } else {
                self.upper + 1
            },
            live: self.live.push(self.claim_region(size)),
            slots: self.slots.update(self.claim_slot(), self.claim_submission(size)),
            ..self
        }
    }

    /// The ring after its oldest range was given back: `tail` moves to the next live
    /// range, or to `head` when none is left, and the slot is put out of use.
    pub open spec fn retired(self) -> RingView
        recommends
            self.live.len() > 0,
    {
        let rest = self.live.drop_first();
        RingView {
            tail: if rest.len() > 0 {
                rest[0].offset
            } else {
                self.head
            },
            start: (self.start + 1) % (MAX_NUMBER_SUBMISSIONS as int),
            upper: if self.upper > 1 {
                self.upper - 1
            } else {
                rest.len() as int
            },
            live: rest,
            slots: self.slots.update(self.start, Submission::spec_new()),
            ..self
        }
    }

    /// The bytes, padding included, of the `count` oldest live ranges.
    pub open spec fn oldest_bytes(self, count: int) -> int
        decreases count,
    {
        if count <= 0 || count > self.live.len() {
            0
        } else {
            self.oldest_bytes(count - 1) + self.live[count - 1].size + self.live[count
                - 1].padding
        }
    }

    /// The ring after the queue was asked about `fence_value`.
    pub open spec fn observed(self, fence_value: int, completed: int) -> RingView {
        RingView { queue: self.queue.observed(fence_value, completed), ..self }
    }

    /// The ring after a clean-up in which the device reported `completed`: ranges are
    /// given back oldest first, up to the first one that is not submitted or whose
    /// fence value is not complete.
    pub open spec fn cleaned(self, completed: int) -> RingView
        decreases self.live.len(),
    {
        if self.live.len() == 0 {
            self
        } else {
            match self.live[0].fence {
                None => self,
                Some(fence_value) => {
                    let asked = self.observed(fence_value as int, completed);
                    if asked.queue.covers(fence_value as int) {
                        asked.retired().cleaned(completed)
                    } else {
                        asked
                    }
                },
            }
        }
    }

    /// Whether a clean-up has to ask the device, looking at the live ranges from
    /// position `from` on: it has to once it meets a submitted range whose fence value
    /// the cached bound does not cover, before any range that is not submitted.
    pub open spec fn stalls_from(self, from: int) -> bool
        decreases self.live.len() - from,
    {
        if from < 0 || from >= self.live.len() {
            false
        } else {
            match self.live[from].fence {
                None => false,
                Some(fence_value) => !self.queue.covers(fence_value as int) || self.stalls_from(
                    from + 1,
                ),
            }
        }
    }

    /// Whether a clean-up has to ask the device what its fence has reached.
    pub open spec fn clean_up_polls(self) -> bool {
        self.stalls_from(0)
    }

    /// Whether a claim has to ask the device what its fence has reached: only if it
    /// cleans up.
    pub open spec fn allocate_polls(self) -> bool {
        self.live.len() >= MAX_NUMBER_SUBMISSIONS && self.clean_up_polls()
    }

    /// The ring as a claim finds it: cleaned up first if every slot is in use.
    pub open spec fn made_ready(self, completed: int) -> RingView {
        if self.live.len() >= MAX_NUMBER_SUBMISSIONS {
            self.cleaned(completed)
        } else {
            self
        }
    }

    /// The position among the live ranges of the range in pool slot `slot`.
    pub open spec fn position(self, slot: int) -> int {
        (slot - self.start) % (MAX_NUMBER_SUBMISSIONS as int)
    }

    /// Whether an upload names a live range that is not submitted yet.
    pub open spec fn awaits(self, upload: UploadView) -> bool {
        &&& 0 <= upload.slot < MAX_NUMBER_SUBMISSIONS
        &&& self.position(upload.slot) < self.live.len()
        &&& self.live[self.position(upload.slot)] == (Region {
            offset: upload.offset,
            size: upload.size,
            padding: self.live[self.position(upload.slot)].padding,
            fence: None,
        })
    }

    /// The ring after the range of `upload` was submitted.
    pub open spec fn submitted(self, upload: UploadView) -> RingView {
        let at = self.position(upload.slot);
        RingView {
            live: self.live.update(
                at,
                Region { fence: Some(self.queue.next as u64), ..self.live[at] },
            ),
            slots: self.slots.update(
                upload.slot,
                Submission {
                    state: SubmissionState::Submitted,
                    fence_value: self.queue.next as u64,
                    ..self.slots[upload.slot]
                },
            ),
            queue: self.queue.submitted(),
            ..self
        }
    }

    /// What the invariant says of pool slot `slot`. A slot in use stands for its live
    /// range, is not free, and carries no fence value until it is submitted. A slot
    /// that is not in use is as a fresh one.
    pub open spec fn slot_holds(self, slot: int) -> bool {
        if self.position(slot) < self.live.len() {
            &&& self.slots[slot].region() == self.live[self.position(slot)]
            &&& self.slots[slot].state != SubmissionState::Free
            &&& self.slots[slot].state == SubmissionState::Claimed ==> self.slots[slot].fence_value
                == 0
        } else {
            self.slots[slot] == Submission::spec_new()
        }
    }

    /// The invariant of the pool: there are 16 slots, and each is as `slot_holds` says.
    #[verifier::opaque]
    pub open spec fn slots_wf(self) -> bool {
        &&& self.slots.len() == MAX_NUMBER_SUBMISSIONS
        &&& forall|slot: int|
            0 <= slot < MAX_NUMBER_SUBMISSIONS ==> #[trigger] self.slot_holds(slot)
    }

    /// The invariant of the ring: that of its byte ranges and that of its slots.
    pub open spec fn wf(self) -> bool {
        self.ranges_wf() && self.slots_wf()
    }

    /// The invariant of the byte ranges.
    #[verifier::opaque]
    pub open spec fn ranges_wf(self) -> bool {
        &&& 0 <= self.capacity <= usize::MAX
        &&& self.buffer.size == self.capacity
        &&& 0 <= self.head <= self.capacity
        &&& 0 <= self.tail <= self.capacity
        &&& 0 <= self.start < MAX_NUMBER_SUBMISSIONS
        &&& self.live.len() <= MAX_NUMBER_SUBMISSIONS
        &&& 0 <= self.upper <= self.live.len()
        &&& self.queue.wf()
        &&& forall|i: int|
            0 <= i < self.live.len() ==> {
                &&& 0 <= (#[trigger] self.live[i]).offset
                &&& 0 <= self.live[i].size
                &&& 0 <= self.live[i].padding
            }
        &&& self.live.len() == 0 ==> self.head == self.tail
        &&& self.live.len() > 0 ==> {
            &&& self.upper >= 1
            &&& self.live[0].offset == self.tail
            &&& self.live.last().end() == self.head
        }
        &&& self.wrapped() ==> self.head <= self.tail
        // the run from `tail` upwards
        &&& forall|i: int|
            0 <= i < self.upper ==> {
                &&& self.tail <= (#[trigger] self.live[i]).offset
                &&& self.live[i].end() <= self.capacity
            }
        &&& !self.wrapped() ==> forall|i: int|
            0 <= i < self.live.len() ==> (#[trigger] self.live[i]).end() <= self.head
        // the run from offset 0 upwards
        &&& forall|i: int|
            self.upper <= i < self.live.len() ==> (#[trigger] self.live[i]).end() <= self.head
        &&& self.wrapped() ==> self.live[self.upper].offset == 0
        // inside a run, a later range lies above the earlier ones
        &&& forall|i: int, j: int|
            0 <= i < j < self.live.len() && (j < self.upper || self.upper <= i) ==> (
            #[trigger] self.live[i]).end() <= (#[trigger] self.live[j]).offset
        // and the next range starts where the one before it ends
        &&& forall|i: int, j: int|
            0 <= i && j == i + 1 && j < self.live.len() && j != self.upper ==> (
            #[trigger] self.live[i]).end() == (#[trigger] self.live[j]).offset
    }
}

/// What an upload names: a pool slot and the bytes the caller asked for.
pub struct UploadView {
    pub slot: int,
    pub offset: int,
    pub size: int,
}

/// What the invariant says of the cursors: both lie inside the buffer, `tail` is where
/// the oldest live range starts and `head` is where the youngest ends, and they meet
/// when nothing is live.
pub proof fn lemma_cursors(ring: RingView)
    requires
        ring.wf(),
    ensures
        0 <= ring.tail <= ring.capacity <= usize::MAX,
        0 <= ring.head <= ring.capacity,
        ring.buffer.size == ring.capacity,
        0 <= ring.start < MAX_NUMBER_SUBMISSIONS,
        ring.live.len() <= MAX_NUMBER_SUBMISSIONS,
        0 <= ring.upper <= ring.live.len(),
        ring.queue.wf(),
        ring.live.len() == 0 ==> ring.head == ring.tail,
        ring.live.len() > 0 ==> ring.upper >= 1 && ring.live[0].offset == ring.tail
            && ring.live.last().end() == ring.head,
        ring.wrapped() ==> ring.head <= ring.tail,
        !ring.wrapped() ==> ring.tail <= ring.head,
        ring.slots.len() == MAX_NUMBER_SUBMISSIONS,
{
    reveal(RingView::ranges_wf);
    reveal(RingView::slots_wf);
    if ring.live.len() > 0 && !ring.wrapped() {
        assert(ring.live[0].end() <= ring.head);
    }
}

/// What the invariant says of each slot of the pool: a slot in use stands for its live
/// range, is not free, and carries no fence value until it is submitted; a slot that
/// is not in use is as a fresh one, with every field 0.
pub proof fn lemma_slots(ring: RingView, slot: int)
    requires
        ring.wf(),
        0 <= slot < MAX_NUMBER_SUBMISSIONS,
    ensures
        ring.slot_holds(slot),
        0 <= ring.position(slot) < MAX_NUMBER_SUBMISSIONS,
        ring.position(slot) < ring.live.len() ==> {
            &&& ring.slots[slot].region() == ring.live[ring.position(slot)]
            &&& ring.slots[slot].state != SubmissionState::Free
            &&& ring.slots[slot].state == SubmissionState::Claimed ==> ring.slots[slot].fence_value
                == 0
        },
        ring.position(slot) >= ring.live.len() ==> ring.slots[slot] == Submission::spec_new(),
{
    reveal(RingView::slots_wf);
    assert(ring.slot_holds(slot));
}

/// A ring that differs only in its queue or its buffer has the same slots.
proof fn lemma_same_slots(ring: RingView, other: RingView)
    requires
        ring.slots_wf(),
        other.slots == ring.slots,
        other.live == ring.live,
        other.start == ring.start,
    ensures
        other.slots_wf(),
{
    reveal(RingView::slots_wf);
    assert forall|slot: int| 0 <= slot < MAX_NUMBER_SUBMISSIONS implies #[trigger] other.slot_holds(
        slot,
    ) by {
        assert(ring.slot_holds(slot));
    }
}

/// Where nothing is live, every slot of the pool is free, with every field 0.
pub proof fn lemma_empty_ring_has_free_slots(ring: RingView, slot: int)
    requires
        ring.wf(),
        ring.live.len() == 0,
        0 <= slot < MAX_NUMBER_SUBMISSIONS,
    ensures
        ring.slots[slot] == Submission::spec_new(),
        ring.slots[slot].state == SubmissionState::Free,
        ring.head == ring.tail,
{
    lemma_slots(ring, slot);
    lemma_cursors(ring);
}

/// A claim fills the next slot of the pool and leaves the others as they are.
proof fn lemma_claim_keeps_slots(ring: RingView, size: int)
    requires
        ring.wf(),
        0 <= size,
        ring.can_claim(size),
    ensures
        ring.claimed(size).slots_wf(),
{
    lemma_cursors(ring);
    lemma_align_up_bounds(size, UPLOAD_PLACEMENT_ALIGNMENT as int);
    reveal(RingView::slots_wf);
    let after = ring.claimed(size);
    let n = ring.live.len() as int;
    assert(after.live[n] == ring.claim_region(size));
    assert(ring.claim_submission(size).region() == ring.claim_region(size));
    assert forall|slot: int| 0 <= slot < MAX_NUMBER_SUBMISSIONS implies #[trigger] after.slot_holds(
        slot,
    ) by {
        assert(ring.slot_holds(slot));
        let at = ring.position(slot);
        assert(after.position(slot) == at);
        if slot == ring.claim_slot() {
            assert(at == n);
        } else {
            assert(at != n);
            assert(after.slots[slot] == ring.slots[slot]);
            if at < n {
                assert(after.live[at] == ring.live[at]);
            }
        }
    }
}

/// Giving back the oldest range frees its slot and leaves the others as they are.
proof fn lemma_retire_keeps_slots(ring: RingView)
    requires
        ring.wf(),
        ring.live.len() > 0,
    ensures
        ring.retired().slots_wf(),
{
    lemma_cursors(ring);
    reveal(RingView::slots_wf);
    let after = ring.retired();
    assert forall|slot: int| 0 <= slot < MAX_NUMBER_SUBMISSIONS implies #[trigger] after.slot_holds(
        slot,
    ) by {
        assert(ring.slot_holds(slot));
        let at = ring.position(slot);
        if slot == ring.start {
            assert(at == 0);
            assert(after.position(slot) == MAX_NUMBER_SUBMISSIONS - 1);
        } else {
            assert(at >= 1);
            assert(after.position(slot) == at - 1);
            assert(after.slots[slot] == ring.slots[slot]);
            if at < ring.live.len() {
                assert(after.live[at - 1] == ring.live[at]);
            }
        }
    }
}

/// Submitting stamps the slot of the upload and leaves the others as they are.
proof fn lemma_submit_keeps_slots(ring: RingView, upload: UploadView)
    requires
        ring.wf(),
        ring.awaits(upload),
    ensures
        ring.submitted(upload).slots_wf(),
{
    lemma_cursors(ring);
    reveal(RingView::slots_wf);
    let after = ring.submitted(upload);
    let stamped = ring.position(upload.slot);
    assert forall|slot: int| 0 <= slot < MAX_NUMBER_SUBMISSIONS implies #[trigger] after.slot_holds(
        slot,
    ) by {
        assert(ring.slot_holds(slot));
        let at = ring.position(slot);
        assert(after.position(slot) == at);
        if slot == upload.slot {
            assert(at == stamped);
        } else {
            assert(at != stamped);
            assert(after.slots[slot] == ring.slots[slot]);
            if at < ring.live.len() {
                assert(after.live[at] == ring.live[at]);
            }
        }
    }
}

/// A ring in which nothing is live satisfies the invariant.
pub proof fn lemma_fresh_ring(size: int, queue: CommandQueueView, buffer: ResourceView)
    requires
        0 <= size <= usize::MAX,
        buffer.size == size,
        queue.wf(),
    ensures
        RingView::fresh(size, queue, buffer).wf(),
{
    reveal(RingView::ranges_wf);
    reveal(RingView::slots_wf);
}

/// Asking the queue about a fence value leaves every range as it is.
pub proof fn lemma_observed_keeps_ranges(ring: RingView, fence_value: int, completed: int)
    requires
        ring.wf(),
        0 <= completed <= u64::MAX,
    ensures
        ring.observed(fence_value, completed).wf(),
{
    reveal(RingView::ranges_wf);
    lemma_same_slots(ring, ring.observed(fence_value, completed));
}

/// The ranges do not depend on whether the staging buffer is mapped.
pub proof fn lemma_buffer_mapping_moves_no_range(ring: RingView)
    requires
        ring.wf(),
    ensures
        (RingView { buffer: ResourceView { mapped: false, ..ring.buffer }, ..ring }).wf(),
{
    reveal(RingView::ranges_wf);
    lemma_same_slots(
        ring,
        RingView { buffer: ResourceView { mapped: false, ..ring.buffer }, ..ring },
    );
}

/// The ranges do not depend on the queue's counters.
pub proof fn lemma_queue_moves_no_range(ring: RingView, queue: CommandQueueView)
    requires
        ring.wf(),
        queue.wf(),
    ensures
        (RingView { queue, ..ring }).wf(),
{
    reveal(RingView::ranges_wf);
    lemma_same_slots(ring, RingView { queue, ..ring });
}

/// Submitting stamps one range and moves no byte: every range keeps its place, and
/// the invariant holds afterwards.
pub proof fn lemma_submit_keeps_ranges(ring: RingView, upload: UploadView)
    requires
        ring.wf(),
        ring.awaits(upload),
        ring.queue.next < u64::MAX,
    ensures
        ring.submitted(upload).wf(),
        ring.submitted(upload).live.len() == ring.live.len(),
        forall|i: int|
            0 <= i < ring.live.len() ==> {
                &&& (#[trigger] ring.submitted(upload).live[i]).offset == ring.live[i].offset
                &&& ring.submitted(upload).live[i].size == ring.live[i].size
                &&& ring.submitted(upload).live[i].padding == ring.live[i].padding
            },
        ring.submitted(upload).live[ring.position(upload.slot)].fence == Some(
            ring.queue.next as u64,
        ),
{
    lemma_submit_keeps_slots(ring, upload);
    reveal(RingView::ranges_wf);
    let after = ring.submitted(upload);
    assert forall|i: int| 0 <= i < after.live.len() implies (#[trigger] after.live[i]).end()
        == ring.live[i].end() && after.live[i].offset == ring.live[i].offset by {}
    if after.live.len() > 0 {
        assert(after.live.last().end() == ring.live.last().end());
    }
}

/// No two live ranges of a ring share a byte, and each lies inside the buffer.
pub proof fn lemma_live_ranges_disjoint(ring: RingView, i: int, j: int)
    requires
        ring.wf(),
        0 <= i < ring.live.len(),
        0 <= j < ring.live.len(),
        i != j,
    ensures
        ring.live[i].disjoint(ring.live[j]),
        0 <= ring.live[i].offset,
        ring.live[i].end() <= ring.capacity,
{
    reveal(RingView::ranges_wf);
    if i < ring.upper {
        assert(ring.live[i].end() <= ring.capacity);
    } else {
        assert(ring.live[i].end() <= ring.head);
    }
    if i < j {
        lemma_ordered_pair_disjoint(ring, i, j);
    } else {
        lemma_ordered_pair_disjoint(ring, j, i);
    }
}

proof fn lemma_ordered_pair_disjoint(ring: RingView, i: int, j: int)
    requires
        ring.wf(),
        0 <= i < j < ring.live.len(),
    ensures
        ring.live[i].disjoint(ring.live[j]),
{
    reveal(RingView::ranges_wf);
    if j < ring.upper || ring.upper <= i {
        assert(ring.live[i].end() <= ring.live[j].offset);
    } else {
        assert(ring.live[j].end() <= ring.head);
        assert(ring.tail <= ring.live[i].offset);
    }
}

/// Claiming keeps the invariant, and the claimed range shares no byte with any range
/// that was live before.
pub proof fn lemma_claim_keeps_ranges_apart(ring: RingView, size: int)
    requires
        ring.wf(),
        0 <= size,
        ring.can_claim(size),
    ensures
        ring.claimed(size).wf(),
        ring.claimed(size).live.len() == ring.live.len() + 1,
        ring.claimed(size).live.last() == ring.claim_region(size),
        0 <= ring.claim_region(size).offset,
        ring.claim_region(size).end() <= ring.capacity,
        forall|i: int|
            0 <= i < ring.live.len() ==> {
                &&& ring.claimed(size).live[i] == ring.live[i]
                &&& (#[trigger] ring.live[i]).disjoint(ring.claim_region(size))
            },
{
    lemma_claim_keeps_slots(ring, size);
    reveal(RingView::ranges_wf);
    lemma_align_up_bounds(size, UPLOAD_PLACEMENT_ALIGNMENT as int);
    let after = ring.claimed(size);
    let region = ring.claim_region(size);
    let n = ring.live.len() as int;
    assert(after.live.last() == region);
    assert(region.end() == after.head);
    assert forall|i: int| 0 <= i < n implies after.live[i] == ring.live[i] by {}
    if n > 0 {
        assert(ring.live[0].end() <= ring.head || ring.wrapped());
    }
    assert(after.ranges_wf());
    assert forall|i: int| 0 <= i < n implies (#[trigger] ring.live[i]).disjoint(region) by {
        lemma_ordered_pair_disjoint(after, i, n);
    }
}

/// Giving back the oldest range keeps the invariant and touches no other range.
pub proof fn lemma_retire_keeps_ranges(ring: RingView)
    requires
        ring.wf(),
        ring.live.len() > 0,
    ensures
        ring.retired().wf(),
        ring.retired().live.len() == ring.live.len() - 1,
        forall|i: int|
            0 <= i < ring.live.len() - 1 ==> (#[trigger] ring.retired().live[i]) == ring.live[i
                + 1],
{
    lemma_retire_keeps_slots(ring);
    reveal(RingView::ranges_wf);
    let after = ring.retired();
    assert forall|i: int| 0 <= i < after.live.len() implies (#[trigger] after.live[i])
        == ring.live[i + 1] by {}
    if after.live.len() > 0 {
        assert(after.live.last() == ring.live.last());
        assert(after.live[0] == ring.live[1]);
    }
    if ring.upper > 1 {
        assert(ring.live[0].end() <= ring.live[1].offset);
    }
    assert(after.ranges_wf());
}

/// Giving back the oldest range moves `tail` past its bytes and its padding; where the
/// next range has wrapped, `tail` follows it to offset 0.
pub proof fn lemma_retire_advances_tail(ring: RingView)
    requires
        ring.wf(),
        ring.live.len() > 0,
    ensures
        ring.live[0].offset == ring.tail,
        ring.retired().tail == if ring.upper == 1 && ring.live.len() > 1 {
            0
        } else {
            ring.tail + ring.live[0].size + ring.live[0].padding
        },
        ring.retired().head == ring.head,
        ring.retired().live.len() == 0 ==> ring.retired().tail == ring.retired().head,
{
    reveal(RingView::ranges_wf);
    let after = ring.retired();
    if ring.live.len() > 1 {
        assert(after.live[0] == ring.live[1]);
        if ring.upper > 1 {
            assert(ring.live[0].end() == ring.live[1].offset);
        }
    } else {
        assert(ring.live.last() == ring.live[0]);
    }
}

/// A clean-up keeps the invariant, gives ranges back oldest first and leaves the
/// others as they were: what stays live is a tail end of what was live.
pub proof fn lemma_clean_up_keeps_ranges(ring: RingView, completed: int)
    requires
        ring.wf(),
        0 <= completed <= u64::MAX,
    ensures
        ring.cleaned(completed).wf(),
        ring.cleaned(completed).live.len() <= ring.live.len(),
        ring.cleaned(completed).live =~= ring.live.subrange(
            ring.live.len() - ring.cleaned(completed).live.len(),
            ring.live.len() as int,
        ),
        ring.cleaned(completed).capacity == ring.capacity,
        ring.cleaned(completed).buffer == ring.buffer,
        ring.cleaned(completed).head == ring.head,
        ring.queue.last <= ring.cleaned(completed).queue.last,
    decreases ring.live.len(),
{
    if ring.live.len() > 0 {
        match ring.live[0].fence {
            None => {},
            Some(fence_value) => {
                let asked = ring.observed(fence_value as int, completed);
                lemma_observed_keeps_ranges(ring, fence_value as int, completed);
                if asked.queue.covers(fence_value as int) {
                    lemma_retire_keeps_ranges(asked);
                    lemma_clean_up_keeps_ranges(asked.retired(), completed);
                }
            },
        }
    }
}

/// A clean-up that cannot give the oldest range back gives nothing back: where
/// nothing is live, or the oldest range is not submitted, or its fence value is not
/// complete, the cursors and all 16 slots stay as they are, whatever holds of the
/// later ranges. At most the queue's cached bound moves.
pub proof fn lemma_clean_up_that_retires_nothing(ring: RingView, completed: int)
    requires
        ring.live.len() == 0 || match ring.live[0].fence {
            None => true,
            Some(fence_value) => fence_value > ring.queue.last && fence_value > completed,
        },
    ensures
        ring.cleaned(completed).slots == ring.slots,
        ring.cleaned(completed).live == ring.live,
        ring.cleaned(completed).head == ring.head,
        ring.cleaned(completed).tail == ring.tail,
        ring.cleaned(completed).start == ring.start,
        ring.cleaned(completed).upper == ring.upper,
        ring.cleaned(completed) == (RingView { queue: ring.cleaned(completed).queue, ..ring }),
        ring.queue.last <= ring.cleaned(completed).queue.last,
        ring.cleaned(completed).queue.next == ring.queue.next,
{
}

/// A clean-up that gives nothing back moves nothing but, at most, the queue's cached
/// bound.
proof fn lemma_clean_up_unchanged_without_retirement(ring: RingView, completed: int)
    requires
        ring.wf(),
        0 <= completed <= u64::MAX,
        ring.cleaned(completed).live.len() == ring.live.len(),
    ensures
        ring.cleaned(completed) == (RingView { queue: ring.cleaned(completed).queue, ..ring }),
{
    if ring.live.len() > 0 && ring.live[0].fence is Some {
        let fence_value = ring.live[0].fence->0;
        let asked = ring.observed(fence_value as int, completed);
        if asked.queue.covers(fence_value as int) {
            lemma_observed_keeps_ranges(ring, fence_value as int, completed);
            lemma_retire_keeps_ranges(asked);
            lemma_clean_up_keeps_ranges(asked.retired(), completed);
        }
    }
}

/// The bytes of the oldest ranges, counted from the second one.
proof fn lemma_oldest_bytes_after_retire(ring: RingView, count: int)
    requires
        ring.live.len() > 0,
        0 <= count < ring.live.len(),
    ensures
        ring.oldest_bytes(count + 1) == ring.live[0].size + ring.live[0].padding
            + ring.retired().oldest_bytes(count),
    decreases count,
{
    let after = ring.retired();
    if count > 0 {
        assert(after.live[count - 1] == ring.live[count]);
        lemma_oldest_bytes_after_retire(ring, count - 1);
    } else {
        assert(ring.oldest_bytes(0) == 0);
        assert(after.oldest_bytes(0) == 0);
    }
}

/// A clean-up resets every slot it gives back and touches no other: with `count`
/// ranges given back, the slots of the `count` oldest ranges are free with fence
/// value, offset, size and padding 0, every other slot is as it was, and the pool
/// starts `count` slots further on.
pub proof fn lemma_clean_up_resets_retired_slots(ring: RingView, completed: int)
    requires
        ring.wf(),
        0 <= completed <= u64::MAX,
    ensures
        ({
            let after = ring.cleaned(completed);
            let count = ring.live.len() - after.live.len();
            &&& 0 <= count <= ring.live.len()
            &&& after.start == (ring.start + count) % (MAX_NUMBER_SUBMISSIONS as int)
            &&& after.head == ring.head
            &&& forall|slot: int|
                0 <= slot < MAX_NUMBER_SUBMISSIONS ==> #[trigger] after.slots[slot] == if ring.position(
                    slot,
                ) < count {
                    Submission::spec_new()
                } else {
                    ring.slots[slot]
                }
        }),
    decreases ring.live.len(),
{
    lemma_cursors(ring);
    lemma_clean_up_keeps_ranges(ring, completed);
    let after = ring.cleaned(completed);
    if ring.live.len() > 0 && ring.live[0].fence is Some {
        let fence_value = ring.live[0].fence->0;
        let asked = ring.observed(fence_value as int, completed);
        if asked.queue.covers(fence_value as int) {
            let next = asked.retired();
            lemma_observed_keeps_ranges(ring, fence_value as int, completed);
            lemma_retire_keeps_ranges(asked);
            lemma_cursors(next);
            lemma_clean_up_keeps_ranges(next, completed);
            lemma_clean_up_resets_retired_slots(next, completed);
            lemma_slots_after_one_more(ring, next, after, next.live.len() - after.live.len());
        }
    }
}

/// The step of `lemma_clean_up_resets_retired_slots`: one range given back, then
/// `rest` more.
proof fn lemma_slots_after_one_more(ring: RingView, next: RingView, after: RingView, rest: int)
    requires
        0 <= ring.start < MAX_NUMBER_SUBMISSIONS,
        ring.slots.len() == MAX_NUMBER_SUBMISSIONS,
        0 <= rest < MAX_NUMBER_SUBMISSIONS,
        next.start == (ring.start + 1) % (MAX_NUMBER_SUBMISSIONS as int),
        next.slots == ring.slots.update(ring.start, Submission::spec_new()),
        after.start == (next.start + rest) % (MAX_NUMBER_SUBMISSIONS as int),
        forall|slot: int|
            0 <= slot < MAX_NUMBER_SUBMISSIONS ==> #[trigger] after.slots[slot] == if next.position(
                slot,
            ) < rest {
                Submission::spec_new()
            } else {
                next.slots[slot]
            },
    ensures
        after.start == (ring.start + rest + 1) % (MAX_NUMBER_SUBMISSIONS as int),
        forall|slot: int|
            0 <= slot < MAX_NUMBER_SUBMISSIONS ==> #[trigger] after.slots[slot] == if ring.position(
                slot,
            ) < rest + 1 {
                Submission::spec_new()
            } else {
                ring.slots[slot]
            },
{
    assert forall|slot: int| 0 <= slot < MAX_NUMBER_SUBMISSIONS implies (
    #[trigger] after.slots[slot]) == if ring.position(slot) < rest + 1 {
        Submission::spec_new()
    } else {
        ring.slots[slot]
    } by {
        if slot == ring.start {
            assert(ring.position(slot) == 0);
            assert(next.position(slot) == MAX_NUMBER_SUBMISSIONS - 1);
        } else {
            assert(next.position(slot) == ring.position(slot) - 1);
            assert(next.slots[slot] == ring.slots[slot]);
        }
    }
}

/// Where no range that a clean-up gives back, nor the one after them, has wrapped,
/// `tail` moves by the bytes and padding of the ranges given back.
pub proof fn lemma_clean_up_advances_tail(ring: RingView, completed: int)
    requires
        ring.wf(),
        0 <= completed <= u64::MAX,
    ensures
        ({
            let after = ring.cleaned(completed);
            let count = ring.live.len() - after.live.len();
            count < ring.upper || (count == ring.live.len() && !ring.wrapped()) ==> after.tail
                == ring.tail + ring.oldest_bytes(count)
        }),
    decreases ring.live.len(),
{
    lemma_cursors(ring);
    lemma_clean_up_keeps_ranges(ring, completed);
    let after = ring.cleaned(completed);
    assert(ring.oldest_bytes(0) == 0);
    if ring.live.len() > 0 && ring.live[0].fence is Some {
        let fence_value = ring.live[0].fence->0;
        let asked = ring.observed(fence_value as int, completed);
        if asked.queue.covers(fence_value as int) {
            let next = asked.retired();
            lemma_observed_keeps_ranges(ring, fence_value as int, completed);
            lemma_retire_keeps_ranges(asked);
            lemma_retire_advances_tail(asked);
            lemma_cursors(next);
            lemma_clean_up_keeps_ranges(next, completed);
            lemma_clean_up_advances_tail(next, completed);
            let rest = next.live.len() - after.live.len();
            lemma_oldest_bytes_after_retire(asked, rest);
            lemma_oldest_bytes_ignore_queue(ring, asked, rest + 1);
        }
    }
}

/// The bytes of the oldest ranges depend on the live ranges alone.
proof fn lemma_oldest_bytes_ignore_queue(ring: RingView, other: RingView, count: int)
    requires
        ring.live == other.live,
    ensures
        ring.oldest_bytes(count) == other.oldest_bytes(count),
    decreases count,
{
    if count > 0 && count <= ring.live.len() {
        lemma_oldest_bytes_ignore_queue(ring, other, count - 1);
    }
}

/// Where every live range is submitted and every stamped fence value is complete, a
/// clean-up gives every range back, wrapped ones included: nothing stays in use, the
/// whole buffer can be claimed again, and all 16 slots are free.
pub proof fn lemma_clean_up_of_completed_ring_frees_every_slot(ring: RingView, completed: int)
    requires
        ring.wf(),
        0 <= completed <= u64::MAX,
        forall|i: int|
            0 <= i < ring.live.len() ==> match (#[trigger] ring.live[i]).fence {
                None => false,
                Some(fence_value) => fence_value <= ring.queue.last || fence_value <= completed,
            },
    ensures
        ring.cleaned(completed).wf(),
        ring.cleaned(completed).live.len() == 0,
        ring.cleaned(completed).head == ring.cleaned(completed).tail,
        !ring.cleaned(completed).wrapped(),
        forall|slot: int|
            0 <= slot < MAX_NUMBER_SUBMISSIONS ==> #[trigger] ring.cleaned(completed).slots[slot]
                == Submission::spec_new(),
    decreases ring.live.len(),
{
    let after = ring.cleaned(completed);
    lemma_clean_up_keeps_ranges(ring, completed);
    if ring.live.len() > 0 {
        let first = ring.live[0];
        let fence_value = first.fence->0;
        let asked = ring.observed(fence_value as int, completed);
        lemma_observed_keeps_ranges(ring, fence_value as int, completed);
        assert(asked.queue.covers(fence_value as int));
        let next = asked.retired();
        lemma_retire_keeps_ranges(asked);
        assert forall|i: int| 0 <= i < next.live.len() implies match (#[trigger] next.live[i]).fence {
            None => false,
            Some(f) => f <= next.queue.last || f <= completed,
        } by {
            assert(next.live[i] == ring.live[i + 1]);
        }
        lemma_clean_up_of_completed_ring_frees_every_slot(next, completed);
    }
    assert forall|slot: int| 0 <= slot < MAX_NUMBER_SUBMISSIONS implies (
    #[trigger] after.slots[slot]) == Submission::spec_new() by {
        lemma_empty_ring_has_free_slots(after, slot);
    }
    lemma_cursors(after);
}

/// The ranges that are live after the oldest was given back are the later ones.
proof fn lemma_stalls_after_retire(ring: RingView, from: int)
    requires
        ring.live.len() > 0,
        0 <= from,
    ensures
        ring.retired().stalls_from(from) == ring.stalls_from(from + 1),
    decreases ring.live.len() - from,
{
    let after = ring.retired();
    if from < after.live.len() {
        assert(after.live[from] == ring.live[from + 1]);
        lemma_stalls_after_retire(ring, from + 1);
    }
}

/// Where a clean-up does not have to ask the device, what the device would have
/// reported plays no part: the clean-up gives back the same ranges whatever it is.
pub proof fn lemma_clean_up_without_poll(ring: RingView, completed: int, other: int)
    requires
        !ring.clean_up_polls(),
    ensures
        ring.cleaned(completed) == ring.cleaned(other),
        !ring.allocate_polls(),
        ring.made_ready(completed) == ring.made_ready(other),
    decreases ring.live.len(),
{
    if ring.live.len() > 0 {
        match ring.live[0].fence {
            None => {},
            Some(fence_value) => {
                assert(ring.queue.covers(fence_value as int));
                assert(ring.observed(fence_value as int, completed) == ring);
                assert(ring.observed(fence_value as int, other) == ring);
                lemma_stalls_after_retire(ring, 0);
                lemma_clean_up_without_poll(ring.retired(), completed, other);
            },
        }
    }
}

/// When every slot is in use, a claim cleans up first. If that gives no slot back, the
/// claim is refused whatever its size, and the ring is left with every range where it
/// was and the invariant intact.
pub proof fn lemma_full_pool_pushes_back(ring: RingView, size: int, completed: int)
    requires
        ring.wf(),
        ring.live.len() == MAX_NUMBER_SUBMISSIONS,
        0 <= completed <= u64::MAX,
    ensures
        ring.made_ready(completed) == ring.cleaned(completed),
        ring.made_ready(completed).wf(),
        ring.cleaned(completed).live.len() == MAX_NUMBER_SUBMISSIONS ==> {
            &&& !ring.made_ready(completed).can_claim(size)
            &&& ring.made_ready(completed).live =~= ring.live
            &&& ring.made_ready(completed).head == ring.head
        },
{
    lemma_clean_up_keeps_ranges(ring, completed);
}

/// One call on the ring.
pub enum RingStep {
    /// A claim of `size` bytes, with the device's report at hand.
    Allocate { size: usize, completed: u64 },
    /// The submission of an upload.
    Submit { upload: UploadView },
    /// A clean-up, with the device's report at hand.
    CleanUp { completed: u64 },
}

impl RingView {
    /// The ring after one call. A claim that is refused leaves the ring as its
    /// clean-up left it; a submission that is refused, or for which the transfer
    /// queue has no fence value left, leaves it as it is.
    pub open spec fn step(self, step: RingStep) -> RingView {
        match step {
            RingStep::Allocate { size, completed } => {
                let ready = self.made_ready(completed as int);
                if ready.can_claim(size as int) {
                    ready.claimed(size as int)
                } else {
                    ready
                }
            },
            RingStep::Submit { upload } => if self.awaits(upload) && self.queue.next < u64::MAX {
                self.submitted(upload)
            } else {
                self
            },
            RingStep::CleanUp { completed } => self.cleaned(completed as int),
        }
    }

    /// The ring after a sequence of calls.
    pub open spec fn run(self, steps: Seq<RingStep>) -> RingView
        decreases steps.len(),
    {
        if steps.len() == 0 {
            self
        } else {
            self.step(steps[0]).run(steps.drop_first())
        }
    }
}

/// One call keeps the invariant of the ring.
pub proof fn lemma_step_keeps_ranges_apart(ring: RingView, step: RingStep)
    requires
        ring.wf(),
    ensures
        ring.step(step).wf(),
        ring.step(step).capacity == ring.capacity,
{
    match step {
        RingStep::Allocate { size, completed } => {
            lemma_cursors(ring);
            if ring.live.len() >= MAX_NUMBER_SUBMISSIONS {
                lemma_clean_up_keeps_ranges(ring, completed as int);
            }
            let ready = ring.made_ready(completed as int);
            if ready.can_claim(size as int) {
                lemma_claim_keeps_ranges_apart(ready, size as int);
            }
        },
        RingStep::Submit { upload } => {
            if ring.awaits(upload) && ring.queue.next < u64::MAX {
                lemma_submit_keeps_ranges(ring, upload);
            }
        },
        RingStep::CleanUp { completed } => {
            lemma_clean_up_keeps_ranges(ring, completed as int);
        },
    }
}

/// Whatever is called on a ring, in whatever order: afterwards no two live ranges
/// share a byte, and each lies inside the buffer.
pub proof fn lemma_any_interleaving_keeps_ranges_apart(
    ring: RingView,
    steps: Seq<RingStep>,
    i: int,
    j: int,
)
    requires
        ring.wf(),
        0 <= i < ring.run(steps).live.len(),
        0 <= j < ring.run(steps).live.len(),
        i != j,
    ensures
        ring.run(steps).wf(),
        ring.run(steps).capacity == ring.capacity,
        ring.run(steps).live[i].disjoint(ring.run(steps).live[j]),
        0 <= ring.run(steps).live[i].offset,
        ring.run(steps).live[i].end() <= ring.capacity,
    decreases steps.len(),
{
    if steps.len() > 0 {
        lemma_step_keeps_ranges_apart(ring, steps[0]);
        lemma_any_interleaving_keeps_ranges_apart(ring.step(steps[0]), steps.drop_first(), i, j);
    } else {
        lemma_live_ranges_disjoint(ring, i, j);
    }
}

/// Where a pool slot stands in its life.
#[derive(Clone, Copy, Debug, PartialEq, Eq, Structural)]
pub enum SubmissionState {
    /// Not in use.
    Free,
    /// A byte range is reserved; the caller writes data and records copy commands.
    Claimed,
    /// The command list was submitted; the fence value is stamped.
    Submitted,
}

/// One slot of the pool of submissions.
#[derive(Clone, Copy, Debug, PartialEq, Eq, Structural)]
pub struct Submission {
    pub state: SubmissionState,
    pub fence_value: u64,
    pub offset: usize,
    pub size: usize,
    pub padding: usize,
}

impl Submission {
    /// A slot that is not in use.
    pub open spec fn spec_new() -> Submission {
        Submission { state: SubmissionState::Free, fence_value: 0, offset: 0, size: 0, padding: 0 }
    }

    /// The live range a slot in use stands for.
    pub open spec fn region(self) -> Region {
        Region {
            offset: self.offset as int,
            size: self.size as int,
            padding: self.padding as int,
            fence: if self.state == SubmissionState::Submitted {
                Some(self.fence_value)
            } else {
                None
            },
        }
    }

    /// A slot that is not in use.
    pub fn new() -> (slot: Submission)
        ensures
            slot == Self::spec_new(),
    {
        Submission { state: SubmissionState::Free, fence_value: 0, offset: 0, size: 0, padding: 0 }
    }

    /// Puts the slot out of use.
    pub fn reset(&mut self)
        ensures
            *final(self) == Self::spec_new(),
        no_unwind
    {
        self.state = SubmissionState::Free;
        self.fence_value = 0;
        self.offset = 0;
        self.size = 0;
        self.padding = 0;
    }
}

/// A claimed byte range of the ring, to be handed back with `submit`.
#[derive(Debug)]
pub struct Upload {
    submission: usize,
    offset: usize,
    size: usize,
}

impl View for Upload {
    type V = UploadView;

    closed spec fn view(&self) -> UploadView {
        UploadView {
            slot: self.submission as int,
            offset: self.offset as int,
            size: self.size as int,
        }
    }
}

impl Upload {
    /// The pool slot of the upload; it selects the command list to record into.
    pub fn slot(&self) -> (slot: usize)
        ensures
            slot == self@.slot,
    {
        self.submission
    }

    /// Byte offset of the range in the staging buffer.
    pub fn offset(&self) -> (offset: usize)
        ensures
            offset == self@.offset,
    {
        self.offset
    }

    /// Bytes the caller asked for.
    pub fn size(&self) -> (size: usize)
        ensures
            size == self@.size,
    {
        self.size
    }

    /// Submits the upload on the ring it was claimed from; see
    /// `UploadRingBuffer::submit`.
    pub fn submit(self, ring: &mut UploadRingBuffer, dependent_queue: Option<&CommandQueue>) -> (result:
        Result<SubmittedUpload, GpuError>)
        requires
            old(ring)@.queue.next < u64::MAX,
        ensures
            submit_outcome(old(ring)@, self@, dependent_queue, result, final(ring)@),
            final(ring)@.wf(),
    {
        ring.submit(self, dependent_queue)
    }
}

/// What a submission leaves to do on the device.
#[derive(Clone, Copy, Debug, PartialEq, Eq)]
pub struct SubmittedUpload {
    /// The pool slot whose command list is executed.
    pub slot: usize,
    /// The value the transfer queue signals after the command list.
    pub fence_value: u64,
    /// The wait to enqueue on the dependent queue, if one was given.
    pub dependent_wait: Option<FenceWait>,
}

/// What `submit` does: the range of a pending upload is stamped with the transfer
/// queue's next fence value, and a dependent queue is told to wait for exactly that
/// value; anything else is refused with `InvalidHandle` and changes nothing.
pub open spec fn submit_outcome(
    before: RingView,
    upload: UploadView,
    dependent_queue: Option<&CommandQueue>,
    result: Result<SubmittedUpload, GpuError>,
    after: RingView,
) -> bool {
    match result {
        Ok(done) => {
            &&& before.awaits(upload)
            &&& after == before.submitted(upload)
            &&& done.slot == upload.slot
            &&& done.fence_value == before.queue.next
            &&& done.dependent_wait == match dependent_queue {
                Some(queue) => Some(
                    FenceWait {
                        waiter: queue@.kind,
                        signaller: before.queue.kind,
                        fence_value: done.fence_value,
                    },
                ),
                None => None,
            }
        },
        Err(e) => {
            &&& !before.awaits(upload)
            &&& e == GpuError::InvalidHandle
            &&& after == before
        },
    }
}

/// A dependent queue waits for exactly the transfer of the upload: on success with a
/// dependent queue, the wait names that queue as waiter and the transfer queue as
/// signaller, and its value is the one the slot is stamped with, which is the value
/// the transfer queue signals for this submission. The wait is satisfied exactly when
/// the transfer queue finds that value complete, so work that the dependent queue is
/// given afterwards does not start before the upload has been copied.
pub proof fn lemma_dependent_queue_waits_for_the_transfer(
    before: RingView,
    upload: UploadView,
    dependent_queue: Option<&CommandQueue>,
    result: Result<SubmittedUpload, GpuError>,
    after: RingView,
    completed: int,
)
    requires
        before.wf(),
        submit_outcome(before, upload, dependent_queue, result, after),
        result is Ok,
        dependent_queue is Some,
        before.queue.last <= completed,
    ensures
        result->Ok_0.dependent_wait == Some(
            FenceWait {
                waiter: dependent_queue->0@.kind,
                signaller: before.queue.kind,
                fence_value: result->Ok_0.fence_value,
            },
        ),
        result->Ok_0.fence_value == before.queue.next,
        after.queue.next == before.queue.next + 1,
        after.slots[upload.slot].state == SubmissionState::Submitted,
        after.slots[upload.slot].fence_value == result->Ok_0.fence_value,
        after.live[before.position(upload.slot)].fence == Some(result->Ok_0.fence_value),
        result->Ok_0.dependent_wait->0.satisfied_by(completed) <==> after.queue.observed(
            result->Ok_0.fence_value as int,
            completed,
        ).covers(result->Ok_0.fence_value as int),
{
    lemma_cursors(before);
    lemma_slots(before, upload.slot);
    crate::command_queue::lemma_complete_only_when_reached(
        after.queue,
        result->Ok_0.fence_value as int,
        completed,
    );
}

/// Cursors and slots of the ring.
#[derive(Debug)]
struct RingState {
    buffer_size: usize,
    buffer_head: usize,
    buffer_tail: usize,
    submissions: [Submission; 16],
    submissions_start: usize,
    submissions_used: usize,
    /// How many of the slots in use belong to the run that starts at `buffer_tail`.
    submissions_upper: usize,
}

impl RingState {
    spec fn slot_at(self, k: int) -> int {
        (self.submissions_start + k) % 16
    }

    spec fn live(self) -> Seq<Region> {
        Seq::new(self.submissions_used as nat, |k: int| self.submissions[self.slot_at(k)].region())
    }

    spec fn model(self, queue: CommandQueueView, buffer: ResourceView) -> RingView {
        RingView {
            capacity: self.buffer_size as int,
            head: self.buffer_head as int,
            tail: self.buffer_tail as int,
            start: self.submissions_start as int,
            upper: self.submissions_upper as int,
            live: self.live(),
            slots: self.submissions@,
            queue,
            buffer,
        }
    }

    /// The cursors and slots satisfy the ring's invariant.
    spec fn wf(self, queue: CommandQueueView, buffer: ResourceView) -> bool {
        &&& self.submissions_start < 16
        &&& self.submissions_used <= 16
        &&& self.model(queue, buffer).wf()
    }

    fn new(buffer_size: usize, Ghost(queue): Ghost<CommandQueueView>, Ghost(buffer): Ghost<
        ResourceView,
    >) -> (state: RingState)
        requires
            queue.wf(),
            buffer.size == buffer_size,
        ensures
            state.wf(queue, buffer),
            state.model(queue, buffer) == RingView::fresh(buffer_size as int, queue, buffer),
    {
        let state = RingState {
            buffer_size,
            buffer_head: 0,
            buffer_tail: 0,
            submissions: fresh_submissions(),
            submissions_start: 0,
            submissions_used: 0,
            submissions_upper: 0,
        };
        proof {
            assert(state.live() =~= Seq::empty());
            assert(state.submissions@ =~= RingView::fresh(
                buffer_size as int,
                queue,
                buffer,
            ).slots);
            lemma_fresh_ring(buffer_size as int, queue, buffer);
        }
        state
    }

    /// Where a range of `aligned` bytes would start, if a slot and room are left.
    fn find_room(&self, aligned: usize, Ghost(queue): Ghost<CommandQueueView>, Ghost(buffer): Ghost<
        ResourceView,
    >) -> (found: Option<usize>)
        requires
            self.wf(queue, buffer),
        ensures
            found is Some <==> {
                &&& self.submissions_used < MAX_NUMBER_SUBMISSIONS
                &&& aligned <= self.buffer_size
                &&& self.model(queue, buffer).has_room(aligned as int)
            },
            found is Some ==> found->0 == self.model(queue, buffer).claim_offset(aligned as int),
    {
        proof {
            lemma_cursors(self.model(queue, buffer));
        }
        if self.submissions_used >= MAX_NUMBER_SUBMISSIONS {
            return None;
        }
        if aligned > self.buffer_size {
            return None;
        }
        if self.submissions_upper < self.submissions_used {
            if aligned > self.buffer_tail - self.buffer_head {
                return None;
            }
            Some(self.buffer_head)
        } else if aligned <= self.buffer_size - self.buffer_head {
            Some(self.buffer_head)
        } else if aligned <= self.buffer_tail {
            Some(0)
        } else {
            None
        }
    }

    /// Claims the range of `size` bytes, `aligned` with padding, that starts at
    /// `offset`.
    fn place(
        &mut self,
        size: usize,
        aligned: usize,
        offset: usize,
        Ghost(queue): Ghost<CommandQueueView>,
        Ghost(buffer): Ghost<ResourceView>,
    ) -> (upload: Upload)
        requires
            old(self).wf(queue, buffer),
            aligned == aligned_size(size as int),
            old(self).model(queue, buffer).can_claim(size as int),
            offset == old(self).model(queue, buffer).claim_offset(aligned as int),
        ensures
            final(self).wf(queue, buffer),
            final(self).model(queue, buffer) == old(self).model(queue, buffer).claimed(size as int),
            upload@ == (UploadView {
                slot: old(self).model(queue, buffer).claim_slot(),
                offset: offset as int,
                size: size as int,
            }),
        no_unwind
    {
        let ghost before = self.model(queue, buffer);
        proof {
            lemma_align_up_bounds(size as int, UPLOAD_PLACEMENT_ALIGNMENT as int);
            lemma_claim_keeps_ranges_apart(before, size as int);
            lemma_cursors(before);
            lemma_cursors(before.claimed(size as int));
        }
        let submission_index = (self.submissions_start + self.submissions_used) % 16;
        let wrapped = self.submissions_upper < self.submissions_used;
        let grows_upper = !wrapped && (offset == self.buffer_head || self.submissions_used == 0);
        if self.submissions_used == 0 {
            self.buffer_tail = offset;
        }
        self.buffer_head = offset + aligned;
        if grows_upper {
            self.submissions_upper = self.submissions_upper + 1;
        }
        self.submissions[submission_index] = Submission {
            state: SubmissionState::Claimed,
            fence_value: 0,
            offset,
            size,
            padding: aligned - size,
        };
        self.submissions_used = self.submissions_used + 1;
        proof {
            lemma_place_matches(*old(self), *self, size as int, queue, buffer);
        }
        Upload { submission: submission_index, offset, size }
    }

    /// Gives the oldest range back.
    fn retire(&mut self, Ghost(queue): Ghost<CommandQueueView>, Ghost(buffer): Ghost<ResourceView>)
        requires
            old(self).wf(queue, buffer),
            old(self).submissions_used > 0,
        ensures
            final(self).wf(queue, buffer),
            final(self).model(queue, buffer) == old(self).model(queue, buffer).retired(),
        no_unwind
    {
        proof {
            lemma_cursors(self.model(queue, buffer));
        }
        let oldest = self.submissions_start;
        let next = (self.submissions_start + 1) % 16;
        self.submissions[oldest].reset();
        self.submissions_used = self.submissions_used - 1;
        self.submissions_start = next;
        if self.submissions_used > 0 {
            self.buffer_tail = self.submissions[next].offset;
        } else {
            self.buffer_tail = self.buffer_head;
        }
        if self.submissions_upper > 1 {
            self.submissions_upper = self.submissions_upper - 1;
        } else {
            self.submissions_upper = self.submissions_used;
        }
        proof {
            lemma_retire_matches(*old(self), *self, queue, buffer);
        }
    }

    /// The oldest slot in use.
    fn oldest(&self, Ghost(queue): Ghost<CommandQueueView>, Ghost(buffer): Ghost<ResourceView>) -> (slot:
        Submission)
        requires
            self.wf(queue, buffer),
            self.submissions_used > 0,
        ensures
            slot.region() == self.model(queue, buffer).live[0],
            slot.state != SubmissionState::Free,
    {
        proof {
            lemma_slots(self.model(queue, buffer), self.submissions_start as int);
        }
        assert(self.slot_at(0) == self.submissions_start);
        self.submissions[self.submissions_start]
    }

    /// Whether a clean-up has to ask the device what its fence has reached, given the
    /// bound the queue has cached.
    fn stalls(&self, cached: u64, Ghost(queue): Ghost<CommandQueueView>, Ghost(buffer): Ghost<
        ResourceView,
    >) -> (polls: bool)
        requires
            self.wf(queue, buffer),
            cached == queue.last,
        ensures
            polls == self.model(queue, buffer).clean_up_polls(),
    {
        let ghost ring = self.model(queue, buffer);
        let mut position: usize = 0;
        while position < self.submissions_used
            invariant
                self.wf(queue, buffer),
                ring == self.model(queue, buffer),
                cached == queue.last,
                position <= self.submissions_used,
                ring.stalls_from(0) == ring.stalls_from(position as int),
            decreases self.submissions_used - position,
        {
            let slot = self.submissions[(self.submissions_start + position) % 16];
            assert(slot.region() == ring.live[position as int]);
            if slot.state != SubmissionState::Submitted {
                return false;
            }
            if slot.fence_value > cached {
                return true;
            }
            position = position + 1;
        }
        false
    }

    /// Whether `upload` names a slot in use that is not submitted yet.
    fn awaits(&self, upload: &Upload, Ghost(queue): Ghost<CommandQueueView>, Ghost(buffer): Ghost<
        ResourceView,
    >) -> (pending: bool)
        requires
            self.wf(queue, buffer),
        ensures
            pending == self.model(queue, buffer).awaits(upload@),
    {
        if upload.submission >= MAX_NUMBER_SUBMISSIONS {
            return false;
        }
        let position = (upload.submission + 16 - self.submissions_start) % 16;
        assert(position == self.model(queue, buffer).position(upload.submission as int));
        if position >= self.submissions_used {
            return false;
        }
        assert(self.slot_at(position as int) == upload.submission);
        proof {
            lemma_slots(self.model(queue, buffer), upload.submission as int);
        }
        let slot = self.submissions[upload.submission];
        slot.state == SubmissionState::Claimed && slot.offset == upload.offset && slot.size
            == upload.size
    }

    /// Stamps the slot of a pending upload with its fence value.
    fn stamp(
        &mut self,
        slot: usize,
        fence_value: u64,
        Ghost(upload): Ghost<UploadView>,
        Ghost(queue): Ghost<CommandQueueView>,
        Ghost(buffer): Ghost<ResourceView>,
    )
        requires
            old(self).wf(queue, buffer),
            old(self).model(queue, buffer).awaits(upload),
            slot == upload.slot,
            fence_value == queue.next,
            queue.next < u64::MAX,
        ensures
            final(self).wf(queue.submitted(), buffer),
            final(self).model(queue.submitted(), buffer) == old(self).model(
                queue,
                buffer,
            ).submitted(upload),
        no_unwind
    {
        let stamped = Submission {
            state: SubmissionState::Submitted,
            fence_value,
            ..self.submissions[slot]
        };
        self.submissions[slot] = stamped;
        proof {
            lemma_stamp_matches(*old(self), *self, upload, queue, buffer);
        }
    }
}

/// The slots after a claim stand for the model after the claim.
proof fn lemma_place_matches(
    old_state: RingState,
    new_state: RingState,
    size: int,
    queue: CommandQueueView,
    buffer: ResourceView,
)
    requires
        old_state.submissions_start < 16,
        old_state.submissions_used < 16,
        old_state.model(queue, buffer).claimed(size).wf(),
        0 <= size <= usize::MAX,
        0 <= aligned_size(size) - size <= usize::MAX,
        0 <= old_state.model(queue, buffer).claim_offset(aligned_size(size)) <= usize::MAX,
        new_state.buffer_size == old_state.buffer_size,
        new_state.submissions_start == old_state.submissions_start,
        new_state.submissions_used == old_state.submissions_used + 1,
        new_state.buffer_head == old_state.model(queue, buffer).claimed(size).head,
        new_state.buffer_tail == old_state.model(queue, buffer).claimed(size).tail,
        new_state.submissions_upper == old_state.model(queue, buffer).claimed(size).upper,
        new_state.submissions@ == old_state.submissions@.update(
            old_state.slot_at(old_state.submissions_used as int),
            old_state.model(queue, buffer).claim_submission(size),
        ),
    ensures
        new_state.model(queue, buffer) == old_state.model(queue, buffer).claimed(size),
        new_state.wf(queue, buffer),
{
    let before = old_state.model(queue, buffer);
    let after = new_state.model(queue, buffer);
    let n = old_state.submissions_used as int;
    let index = old_state.slot_at(n);
    assert forall|k: int| 0 <= k < n implies new_state.slot_at(k) != index
        && new_state.submissions[new_state.slot_at(k)] == old_state.submissions[old_state.slot_at(
        k,
    )] by {}
    assert(new_state.slot_at(n) == index);
    assert(index == before.claim_slot());
    assert(before.claim_submission(size).region() == before.claim_region(size));
    assert(after.live =~= before.claimed(size).live);
    assert(after.slots =~= before.claimed(size).slots);
    assert(after == before.claimed(size));
}

/// The slots after the oldest was given back stand for the model after it.
proof fn lemma_retire_matches(
    old_state: RingState,
    new_state: RingState,
    queue: CommandQueueView,
    buffer: ResourceView,
)
    requires
        old_state.wf(queue, buffer),
        old_state.submissions_used > 0,
        new_state.buffer_size == old_state.buffer_size,
        new_state.buffer_head == old_state.buffer_head,
        new_state.submissions_start == (old_state.submissions_start + 1) % 16,
        new_state.submissions_used == old_state.submissions_used - 1,
        new_state.submissions@ == old_state.submissions@.update(
            old_state.submissions_start as int,
            Submission::spec_new(),
        ),
        new_state.buffer_tail == if new_state.submissions_used > 0 {
            old_state.submissions[new_state.submissions_start as int].offset
        } else {
            old_state.buffer_head
        },
        new_state.submissions_upper == if old_state.submissions_upper > 1 {
            old_state.submissions_upper - 1
        } else {
            new_state.submissions_used as int
        },
    ensures
        new_state.model(queue, buffer) == old_state.model(queue, buffer).retired(),
        new_state.wf(queue, buffer),
{
    let before = old_state.model(queue, buffer);
    let after = new_state.model(queue, buffer);
    let oldest = old_state.submissions_start as int;
    lemma_retire_keeps_ranges(before);
    assert forall|k: int| 0 <= k < new_state.submissions_used implies new_state.slot_at(k)
        == old_state.slot_at(k + 1) && new_state.slot_at(k) != oldest by {}
    assert(after.live =~= before.retired().live);
    if new_state.submissions_used > 0 {
        assert(new_state.slot_at(0) == new_state.submissions_start);
        assert(old_state.slot_at(1) == new_state.submissions_start);
        assert(before.retired().live[0] == before.live[1]);
    }
    assert(after.slots =~= before.retired().slots);
    assert(after == before.retired());
}

/// The slots after a stamp stand for the model after the submission.
proof fn lemma_stamp_matches(
    old_state: RingState,
    new_state: RingState,
    upload: UploadView,
    queue: CommandQueueView,
    buffer: ResourceView,
)
    requires
        old_state.wf(queue, buffer),
        old_state.model(queue, buffer).awaits(upload),
        queue.next < u64::MAX,
        new_state.buffer_size == old_state.buffer_size,
        new_state.buffer_head == old_state.buffer_head,
        new_state.buffer_tail == old_state.buffer_tail,
        new_state.submissions_start == old_state.submissions_start,
        new_state.submissions_used == old_state.submissions_used,
        new_state.submissions_upper == old_state.submissions_upper,
        new_state.submissions@ == old_state.submissions@.update(
            upload.slot,
            Submission {
                state: SubmissionState::Submitted,
                fence_value: queue.next as u64,
                ..old_state.submissions[upload.slot]
            },
        ),
    ensures
        new_state.model(queue.submitted(), buffer) == old_state.model(queue, buffer).submitted(
            upload,
        ),
        new_state.wf(queue.submitted(), buffer),
{
    let before = old_state.model(queue, buffer);
    let after = new_state.model(queue.submitted(), buffer);
    let at = before.position(upload.slot);
    lemma_submit_keeps_ranges(before, upload);
    assert(old_state.slot_at(at) == upload.slot);
    assert forall|k: int| 0 <= k < new_state.submissions_used && k != at implies new_state.slot_at(
        k,
    ) != upload.slot by {}
    assert(after.live =~= before.submitted(upload).live);
    assert(after.slots =~= before.submitted(upload).slots);
    assert(after == before.submitted(upload));
}

/// A pool of slots that are not in use. `array_init::array_init` calls the
/// initialiser once per index, lowest first, and stores what it returns at that index;
/// the initialiser here ignores the index, so every element is a fresh slot.
#[verifier::external_body]
fn fresh_submissions() -> (slots: [Submission; 16])
    ensures
        forall|i: int| 0 <= i < 16 ==> slots[i] == Submission::spec_new(),
{
    array_init::array_init(|_| Submission::new())
}

impl RingView {
    /// A ring of `size` bytes in which nothing is live.
    pub open spec fn fresh(size: int, queue: CommandQueueView, buffer: ResourceView) -> RingView {
        RingView {
            capacity: size,
            head: 0,
            tail: 0,
            start: 0,
            upper: 0,
            live: Seq::empty(),
            slots: Seq::new(MAX_NUMBER_SUBMISSIONS as nat, |slot: int| Submission::spec_new()),
            queue,
            buffer,
        }
    }
}

/// A circular staging buffer with a fixed pool of submissions in flight.
#[derive(Debug)]
pub struct UploadRingBuffer {
    buffer: Resource,
    state: RingState,
    upload_queue: CommandQueue,
}

impl View for UploadRingBuffer {
    type V = RingView;

    closed spec fn view(&self) -> RingView {
        self.state.model(self.upload_queue@, self.buffer@)
    }
}

impl UploadRingBuffer {
    /// Holds of every ring that exists.
    #[verifier::type_invariant]
    closed spec fn inv(self) -> bool {
        self.state.wf(self.upload_queue@, self.buffer@)
    }

    /// The description of the staging buffer of a ring of the given size.
    pub fn buffer_desc(size: Option<usize>) -> (desc: ResourceDesc)
        ensures
            desc == ResourceDesc::spec_buffer(
                match size {
                    Some(bytes) => bytes as u64,
                    None => DEFAULT_UPLOAD_BUFFER_SIZE as u64,
                },
            ),
    {
        let bytes = match size {
            Some(bytes) => bytes,
            None => DEFAULT_UPLOAD_BUFFER_SIZE,
        };
        ResourceDesc::buffer(bytes as u64)
    }

    /// A ring of `size` bytes, or of the default size, in which nothing is live. The
    /// staging buffer is mapped; it is placed in `upload_heap` if one is given, where
    /// `info` is what the device requires for the buffer, and has an allocation of
    /// its own otherwise. Fails with `ResourceExhausted` if the heap has no room.
    pub fn new(upload_heap: Option<&mut Heap>, size: Option<usize>, info: AllocationInfo) -> (result:
        Result<UploadRingBuffer, GpuError>)
        requires
            match upload_heap {
                Some(heap) => info.valid() && heap@.num_objects < usize::MAX,
                None => true,
            },
        ensures
            ({
                let bytes = match size {
                    Some(bytes) => bytes as int,
                    None => DEFAULT_UPLOAD_BUFFER_SIZE as int,
                };
                let queue = CommandQueueView {
                    kind: QueueKind::Copy,
                    last: QueueKind::Copy.base(),
                    next: QueueKind::Copy.base() + 1,
                };
                match upload_heap {
                    Some(heap) => match result {
                        Ok(ring) => {
                            &&& heap@.fits(info)
                            &&& final(heap)@ == heap@.placed(info)
                            &&& ring@.wf()
                            &&& ring@ == RingView::fresh(
                                bytes,
                                queue,
                                ResourceView {
                                    size: bytes as nat,
                                    mapped: true,
                                    placement: Some(heap@.place(info)),
                                },
                            )
                        },
                        Err(e) => {
                            &&& !heap@.fits(info)
                            &&& final(heap)@ == heap@.refused()
                            &&& e == GpuError::ResourceExhausted
                        },
                    },
                    None => match result {
                        Ok(ring) => {
                            &&& ring@.wf()
                            &&& ring@ == RingView::fresh(
                                bytes,
                                queue,
                                ResourceView { size: bytes as nat, mapped: true, placement: None },
                            )
                        },
                        Err(_) => false,
                    },
                }
            }),
    {
        let bytes = match size {
            Some(bytes) => bytes,
            None => DEFAULT_UPLOAD_BUFFER_SIZE,
        };
        let buffer_desc = Self::buffer_desc(size);
        let buffer = match upload_heap {
            Some(heap) => match heap.create_resource(&buffer_desc, info, true) {
                Ok(buffer) => buffer,
                Err(e) => {
                    return Err(e);
                },
            },
            None => Resource::create_committed(&buffer_desc, true),
        };
        let upload_queue = CommandQueue::new(QueueKind::Copy);
        let state = RingState::new(bytes, Ghost(upload_queue@), Ghost(buffer@));
        Ok(UploadRingBuffer { buffer, state, upload_queue })
    }

    /// Bytes in the ring.
    pub fn buffer_size(&self) -> (size: usize)
        ensures
            size == self@.capacity,
            self@.wf(),
    {
        proof {
            use_type_invariant(self);
        }
        self.state.buffer_size
    }

    /// Where the next range is written.
    pub fn buffer_head(&self) -> (head: usize)
        ensures
            self@.wf(),
            head == self@.head,
            head <= self@.capacity,
    {
        proof {
            use_type_invariant(self);
            lemma_cursors(self@);
        }
        self.state.buffer_head
    }

    /// Where the oldest live range starts.
    pub fn buffer_tail(&self) -> (tail: usize)
        ensures
            self@.wf(),
            tail == self@.tail,
            tail <= self@.capacity,
    {
        proof {
            use_type_invariant(self);
            lemma_cursors(self@);
        }
        self.state.buffer_tail
    }

    /// How many slots of the pool are in use.
    pub fn submissions_used(&self) -> (used: usize)
        ensures
            self@.wf(),
            used == self@.live.len(),
            used <= MAX_NUMBER_SUBMISSIONS,
    {
        proof {
            use_type_invariant(self);
        }
        self.state.submissions_used
    }

    /// The pool slot of the oldest live range.
    pub fn submissions_start(&self) -> (start: usize)
        ensures
            self@.wf(),
            start == self@.start,
            start < MAX_NUMBER_SUBMISSIONS,
    {
        proof {
            use_type_invariant(self);
        }
        self.state.submissions_start
    }

    /// The staging buffer.
    pub fn buffer(&self) -> (buffer: &Resource)
        ensures
            buffer@ == self@.buffer,
    {
        &self.buffer
    }

    /// Ends the CPU mapping of the staging buffer, once: tells whether the mapping has
    /// to be released now. No range can be written afterwards.
    pub fn release_buffer(&mut self) -> (release: bool)
        ensures
            release == old(self)@.buffer.mapped,
            final(self)@ == (RingView {
                buffer: ResourceView { mapped: false, ..old(self)@.buffer },
                ..old(self)@
            }),
            final(self)@.wf(),
    {
        proof {
            use_type_invariant(&*self);
            lemma_buffer_mapping_moves_no_range(self@);
        }
        self.buffer.unmap()
    }

    /// Whether a clean-up has to ask the device what the transfer fence has reached.
    /// Where it does not, any value can be handed to `clean_up_submissions`.
    pub fn clean_up_needs_poll(&self) -> (polls: bool)
        ensures
            polls == self@.clean_up_polls(),
    {
        proof {
            use_type_invariant(self);
        }
        self.state.stalls(
            self.upload_queue.last_fence_value(),
            Ghost(self.upload_queue@),
            Ghost(self.buffer@),
        )
    }

    /// Whether a claim has to ask the device what the transfer fence has reached.
    /// Where it does not, any value can be handed to `allocate`.
    pub fn allocate_needs_poll(&self) -> (polls: bool)
        ensures
            polls == self@.allocate_polls(),
    {
        proof {
            use_type_invariant(self);
        }
        self.state.submissions_used >= MAX_NUMBER_SUBMISSIONS && self.clean_up_needs_poll()
    }

    /// The ring's own transfer queue.
    pub fn upload_queue(&self) -> (queue: &CommandQueue)
        ensures
            queue@ == self@.queue,
    {
        &self.upload_queue
    }

    /// The slot of the pool with the given number.
    pub fn submission(&self, slot: usize) -> (result: Option<Submission>)
        ensures
            self@.wf(),
            result == if slot < MAX_NUMBER_SUBMISSIONS {
                Some(self@.slots[slot as int])
            } else {
                None
            },
            slot < MAX_NUMBER_SUBMISSIONS && self@.position(slot as int) < self@.live.len() ==> {
                &&& result->0.region() == self@.live[self@.position(slot as int)]
                &&& result->0.state != SubmissionState::Free
                &&& result->0.state == SubmissionState::Claimed ==> result->0.fence_value == 0
            },
            slot < MAX_NUMBER_SUBMISSIONS && self@.position(slot as int) >= self@.live.len()
                ==> result == Some(Submission::spec_new()),
    {
        proof {
            use_type_invariant(self);
        }
        if slot >= MAX_NUMBER_SUBMISSIONS {
            return None;
        }
        proof {
            lemma_slots(self@, slot as int);
        }
        Some(self.state.submissions[slot])
    }

    /// Whether `upload` names a range of this ring that awaits submission, so that
    /// `submit` will take it.
    pub fn awaits(&self, upload: &Upload) -> (pending: bool)
        ensures
            pending == self@.awaits(upload@),
    {
        proof {
            use_type_invariant(self);
        }
        self.state.awaits(upload, Ghost(self.upload_queue@), Ghost(self.buffer@))
    }

    /// The byte range of an upload as a view into the staging buffer.
    pub fn sub_resource(&self, upload: &Upload) -> (result: Result<SubResource<'_>, GpuError>)
        ensures
            match result {
                Ok(sub) => {
                    &&& upload@.offset + upload@.size <= self@.capacity
                    &&& sub@ == (SubResourceView {
                        resource: self@.buffer,
                        size: upload@.size as nat,
                        offset: upload@.offset as nat,
                    })
                },
                Err(e) => upload@.offset + upload@.size > self@.capacity && e
                    == GpuError::PreconditionViolated,
            },
    {
        proof {
            use_type_invariant(self);
            lemma_cursors(self@);
        }
        self.buffer.create_sub_resource(upload.size, upload.offset)
    }

    /// Claims `size` bytes of the ring and a slot of the pool. If every slot is in
    /// use, the ring is cleaned up first, with `completed` as the device's report.
    /// Fails with `ResourceExhausted` if then no slot is free, if the size with its
    /// padding exceeds the buffer, or if no contiguous room is left; the ring is then
    /// as the clean-up left it.
    pub fn allocate(&mut self, size: usize, completed: u64) -> (result: Result<Upload, GpuError>)
        ensures
            old(self)@.wf(),
            final(self)@.wf(),
            ({
                let ready = old(self)@.made_ready(completed as int);
                match result {
                    Ok(upload) => {
                        &&& ready.can_claim(size as int)
                        &&& final(self)@ == ready.claimed(size as int)
                        &&& upload@ == (UploadView {
                            slot: ready.claim_slot(),
                            offset: ready.claim_region(size as int).offset,
                            size: size as int,
                        })
                    },
                    Err(e) => {
                        &&& !ready.can_claim(size as int)
                        &&& e == GpuError::ResourceExhausted
                        &&& final(self)@ == ready
                    },
                }
            }),
    {
        proof {
            use_type_invariant(&*self);
        }
        if self.state.submissions_used >= MAX_NUMBER_SUBMISSIONS {
            self.clean_up_submissions(completed);
        }
        proof {
            use_type_invariant(&*self);
            lemma_align_up_bounds(size as int, UPLOAD_PLACEMENT_ALIGNMENT as int);
        }
        if size > usize::MAX - (UPLOAD_PLACEMENT_ALIGNMENT - 1) {
            assert(aligned_size(size as int) > usize::MAX);
            return Err(GpuError::ResourceExhausted);
        }
        assert(is_power_of_two(UPLOAD_PLACEMENT_ALIGNMENT)) by {
            assert(512usize & 511usize == 0) by (bit_vector);
        }
        let aligned = align_data(size, UPLOAD_PLACEMENT_ALIGNMENT);
        match self.state.find_room(aligned, Ghost(self.upload_queue@), Ghost(self.buffer@)) {
            Some(offset) => Ok(
                self.state.place(
                    size,
                    aligned,
                    offset,
                    Ghost(self.upload_queue@),
                    Ghost(self.buffer@),
                ),
            ),
            None => Err(GpuError::ResourceExhausted),
        }
    }

    /// Stamps the range of `upload` with the value the transfer queue signals next and
    /// takes that value from the queue. If a dependent queue is given, the wait for
    /// that value is to be enqueued on it. Fails with `InvalidHandle` if `upload` names
    /// no range of this ring that awaits submission.
    pub fn submit(&mut self, upload: Upload, dependent_queue: Option<&CommandQueue>) -> (result:
        Result<SubmittedUpload, GpuError>)
        requires
            old(self)@.queue.next < u64::MAX,
        ensures
            old(self)@.wf(),
            submit_outcome(old(self)@, upload@, dependent_queue, result, final(self)@),
            final(self)@.wf(),
    {
        proof {
            use_type_invariant(&*self);
        }
        if !self.state.awaits(&upload, Ghost(self.upload_queue@), Ghost(self.buffer@)) {
            return Err(GpuError::InvalidHandle);
        }
        let ghost queue_before = self.upload_queue@;
        let dependent_wait = match dependent_queue {
            Some(queue) => Some(
                queue.insert_wait_for_queue_fence(
                    &self.upload_queue,
                    self.upload_queue.next_fence_value(),
                ),
            ),
            None => None,
        };
        proof {
            lemma_cursors(self@);
            lemma_queue_moves_no_range(self@, queue_before.submitted());
        }
        let fence_value = self.upload_queue.execute_command_list();
        self.state.stamp(
            upload.submission,
            fence_value,
            Ghost(upload@),
            Ghost(queue_before),
            Ghost(self.buffer@),
        );
        Ok(SubmittedUpload { slot: upload.submission, fence_value, dependent_wait })
    }

    /// Gives back the ranges whose fence value is complete, oldest first, and stops at
    /// the first range that is not submitted or not complete. `completed` is what the
    /// device fence of the transfer queue reports. Returns how many were given back.
    /// Each slot given back is reset; every other slot stays as it is.
    pub fn clean_up_submissions(&mut self, completed: u64) -> (retired: usize)
        ensures
            old(self)@.wf(),
            final(self)@ == old(self)@.cleaned(completed as int),
            final(self)@.wf(),
            retired == old(self)@.live.len() - final(self)@.live.len(),
            final(self)@.start == (old(self)@.start + retired) % (MAX_NUMBER_SUBMISSIONS as int),
            final(self)@.head == old(self)@.head,
            forall|slot: int|
                0 <= slot < MAX_NUMBER_SUBMISSIONS ==> #[trigger] final(self)@.slots[slot]
                    == if old(self)@.position(slot) < retired {
                    Submission::spec_new()
                } else {
                    old(self)@.slots[slot]
                },
            retired == 0 ==> final(self)@ == (RingView {
                queue: final(self)@.queue,
                ..old(self)@
            }),
    {
        proof {
            use_type_invariant(&*self);
        }
        let mut retired: usize = 0;
        while self.state.submissions_used > 0
            invariant
                self.state.wf(self.upload_queue@, self.buffer@),
                self@.cleaned(completed as int) == old(self)@.cleaned(completed as int),
                retired == old(self)@.live.len() - self@.live.len(),
                old(self)@.live.len() <= MAX_NUMBER_SUBMISSIONS,
            ensures
                self.state.wf(self.upload_queue@, self.buffer@),
                self@ == old(self)@.cleaned(completed as int),
                retired == old(self)@.live.len() - self@.live.len(),
            decreases self.state.submissions_used,
        {
            let oldest = self.state.oldest(Ghost(self.upload_queue@), Ghost(self.buffer@));
            if oldest.state != SubmissionState::Submitted {
                break;
            }
            let ghost before = self@;
            proof {
                lemma_observed_keeps_ranges(before, oldest.fence_value as int, completed as int);
            }
            let done = self.upload_queue.is_fence_complete(oldest.fence_value, completed);
            assert(self@ == before.observed(oldest.fence_value as int, completed as int));
            if !done {
                break;
            }
            self.state.retire(Ghost(self.upload_queue@), Ghost(self.buffer@));
            retired = retired + 1;
        }
        proof {
            lemma_clean_up_resets_retired_slots(old(self)@, completed as int);
            if retired == 0 {
                lemma_clean_up_unchanged_without_retirement(old(self)@, completed as int);
            }
        }
        retired
    }
}

} // verus!
