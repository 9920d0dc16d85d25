use d3d12_utils::upload_ring_buffer::{
    DEFAULT_UPLOAD_BUFFER_SIZE, MAX_NUMBER_SUBMISSIONS, UPLOAD_PLACEMENT_ALIGNMENT,
};
use d3d12_utils::{
    AllocationInfo, CommandQueue, FenceWait, GpuError, Heap, PlacedResource, QueueKind,
    ResourceDesc, Submission, SubmissionState, Upload, UploadRingBuffer,
};

const COPY_BASE: u64 = 3u64 << 56;

fn no_info() -> AllocationInfo {
    AllocationInfo { size_in_bytes: 0, alignment: 1 }
}

fn ring(size: usize) -> UploadRingBuffer {
    UploadRingBuffer::new(None, Some(size), no_info()).unwrap()
}

/// Claims and submits in one step; returns offset and fence value.
fn upload(ring: &mut UploadRingBuffer, size: usize, completed: u64) -> Result<(usize, u64), GpuError> {
    let upload = ring.allocate(size, completed)?;
    let offset = upload.offset();
    let done = ring.submit(upload, None)?;
    Ok((offset, done.fence_value))
}

/// The byte ranges of the slots in use, padding included.
fn live_ranges(ring: &UploadRingBuffer) -> Vec<(usize, usize)> {
    let mut ranges = Vec::new();
    for k in 0..ring.submissions_used() {
        let slot = (ring.submissions_start() + k) % MAX_NUMBER_SUBMISSIONS;
        let s = ring.submission(slot).unwrap();
        assert_ne!(s.state, SubmissionState::Free);
        ranges.push((s.offset, s.offset + s.size + s.padding));
    }
    ranges
}

fn assert_no_overlap(ring: &UploadRingBuffer) {
    let ranges = live_ranges(ring);
    for (i, a) in ranges.iter().enumerate() {
        assert!(a.1 <= ring.buffer_size());
        for b in ranges.iter().skip(i + 1) {
            assert!(a.1 <= b.0 || b.1 <= a.0, "ranges {:?} and {:?} overlap", a, b);
        }
    }
}

#[test]
fn constants() {
    assert_eq!(MAX_NUMBER_SUBMISSIONS, 16);
    assert_eq!(UPLOAD_PLACEMENT_ALIGNMENT, 512);
    assert_eq!(DEFAULT_UPLOAD_BUFFER_SIZE, 64 * 1024 * 1024);
}

#[test]
fn new_ring_is_empty_with_free_slots() {
    let ring = ring(8192);
    assert_eq!(ring.buffer_size(), 8192);
    assert_eq!(ring.buffer_head(), 0);
    assert_eq!(ring.buffer_tail(), 0);
    assert_eq!(ring.submissions_used(), 0);
    assert_eq!(ring.submissions_start(), 0);
    for slot in 0..MAX_NUMBER_SUBMISSIONS {
        assert_eq!(ring.submission(slot), Some(Submission::new()));
    }
    assert_eq!(ring.submission(MAX_NUMBER_SUBMISSIONS), None);
    assert_eq!(
        Submission::new(),
        Submission { state: SubmissionState::Free, fence_value: 0, offset: 0, size: 0, padding: 0 }
    );
    assert_eq!(ring.upload_queue().kind(), QueueKind::Copy);
    assert_eq!(ring.upload_queue().next_fence_value(), COPY_BASE + 1);
    assert!(ring.buffer().is_mapped());
    assert_eq!(ring.buffer().size(), 8192);
    assert_eq!(ring.buffer().placement(), None);
}

#[test]
fn default_size_is_64_mib() {
    let ring = UploadRingBuffer::new(None, None, no_info()).unwrap();
    assert_eq!(ring.buffer_size(), 64 * 1024 * 1024);
    assert_eq!(UploadRingBuffer::buffer_desc(None), ResourceDesc::buffer(64 * 1024 * 1024));
    assert_eq!(UploadRingBuffer::buffer_desc(Some(4096)), ResourceDesc::buffer(4096));
}

#[test]
fn ring_in_a_heap_is_placed_there() {
    let mut heap = Heap::create_upload_heap(1024 * 1024, "upload");
    let info = AllocationInfo { size_in_bytes: 65536, alignment: 65536 };
    let ring = UploadRingBuffer::new(Some(&mut heap), Some(65536), info).unwrap();
    assert_eq!(
        ring.buffer().placement(),
        Some(PlacedResource { offset: 0, size: 65536, alignment: 65536, ordinal: 1 })
    );
    assert!(ring.buffer().is_mapped());
    assert_eq!(heap.curr_offset(), 65536);

    let mut small = Heap::create_upload_heap(1000, "small");
    let refused = UploadRingBuffer::new(Some(&mut small), Some(65536), info);
    assert_eq!(refused.unwrap_err(), GpuError::ResourceExhausted);
    assert_eq!(small.curr_offset(), 0);
}

#[test]
fn reset_frees_a_slot() {
    let mut slot = Submission {
        state: SubmissionState::Submitted,
        fence_value: 9,
        offset: 512,
        size: 100,
        padding: 412,
    };
    slot.reset();
    assert_eq!(slot, Submission::new());
}

#[test]
fn allocation_is_padded_to_512_bytes() {
    let mut ring = ring(8192);
    let first = ring.allocate(100, 0).unwrap();
    assert_eq!((first.slot(), first.offset(), first.size()), (0, 0, 100));
    assert_eq!(ring.buffer_head(), 512);
    assert_eq!(
        ring.submission(0),
        Some(Submission {
            state: SubmissionState::Claimed,
            fence_value: 0,
            offset: 0,
            size: 100,
            padding: 412,
        })
    );
    let second = ring.allocate(512, 0).unwrap();
    assert_eq!((second.slot(), second.offset(), second.size()), (1, 512, 512));
    assert_eq!(ring.submission(1).unwrap().padding, 0);
    let third = ring.allocate(513, 0).unwrap();
    assert_eq!((third.slot(), third.offset()), (2, 1024));
    assert_eq!(ring.buffer_head(), 2048);
    assert_eq!(ring.submissions_used(), 3);
    assert_eq!(ring.buffer_tail(), 0);
}

#[test]
fn sub_resource_covers_the_bytes_asked_for() {
    let mut ring = ring(8192);
    ring.allocate(700, 0).unwrap();
    let upload = ring.allocate(100, 0).unwrap();
    let sub = ring.sub_resource(&upload).unwrap();
    assert_eq!((sub.offset(), sub.size()), (1024, 100));
    assert_eq!(sub.get_mapped_data(), Some(1024));
    assert!(sub.copy_from(100).is_ok());
    assert_eq!(sub.copy_from(101), Err(GpuError::PreconditionViolated));
}

#[test]
fn size_larger_than_the_buffer_is_refused() {
    let mut ring = ring(1024);
    assert_eq!(ring.allocate(1025, 0).unwrap_err(), GpuError::ResourceExhausted);
    // 513 bytes need 1024 with padding, which is the whole buffer.
    assert!(ring.allocate(513, 0).is_ok());
    let mut odd = UploadRingBuffer::new(None, Some(1000), no_info()).unwrap();
    assert_eq!(odd.allocate(513, 0).unwrap_err(), GpuError::ResourceExhausted);
    assert_eq!(odd.allocate(usize::MAX, 0).unwrap_err(), GpuError::ResourceExhausted);
    assert_eq!(odd.allocate(usize::MAX - 100, 0).unwrap_err(), GpuError::ResourceExhausted);
    assert_eq!(odd.submissions_used(), 0);
    assert!(odd.allocate(512, 0).is_ok());
}

#[test]
fn seventeenth_allocation_fails_when_nothing_completes() {
    let mut ring = UploadRingBuffer::new(None, None, no_info()).unwrap();
    for i in 0..16u64 {
        let (offset, fence) = upload(&mut ring, 1000, 0).unwrap();
        assert_eq!(offset, (i as usize) * 1024);
        assert_eq!(fence, COPY_BASE + 1 + i);
    }
    assert_eq!(ring.submissions_used(), 16);
    let head = ring.buffer_head();
    assert_eq!(ring.allocate(1000, 0).unwrap_err(), GpuError::ResourceExhausted);
    assert_eq!(ring.allocate(1, COPY_BASE).unwrap_err(), GpuError::ResourceExhausted);
    // The clean-up inside found nothing to give back and the ring is as it was.
    assert_eq!(ring.submissions_used(), 16);
    assert_eq!(ring.submissions_start(), 0);
    assert_eq!(ring.buffer_head(), head);
    assert_eq!(ring.buffer_tail(), 0);
    assert_no_overlap(&ring);
}

#[test]
fn full_pool_is_cleaned_up_by_allocate() {
    let mut ring = UploadRingBuffer::new(None, None, no_info()).unwrap();
    for _ in 0..16 {
        upload(&mut ring, 1000, 0).unwrap();
    }
    // The device has finished the first three submissions.
    let next = ring.allocate(1000, COPY_BASE + 3).unwrap();
    assert_eq!(next.slot(), 0);
    assert_eq!(next.offset(), 16 * 1024);
    assert_eq!(ring.submissions_used(), 14);
    assert_eq!(ring.submissions_start(), 3);
    assert_eq!(ring.buffer_tail(), 3 * 1024);
    assert_eq!(ring.upload_queue().last_fence_value(), COPY_BASE + 3);
    assert_no_overlap(&ring);
}

#[test]
fn pool_that_is_not_full_is_not_cleaned_up_by_allocate() {
    let mut ring = ring(8192);
    upload(&mut ring, 100, 0).unwrap();
    upload(&mut ring, 100, u64::MAX).unwrap();
    assert_eq!(ring.submissions_used(), 2);
    assert_eq!(ring.buffer_tail(), 0);
    assert_eq!(ring.upload_queue().last_fence_value(), COPY_BASE);
}

#[test]
fn clean_up_gives_back_in_order_and_stops_at_the_first_incomplete() {
    let mut ring = ring(8192);
    let fences: Vec<u64> = (0..4).map(|_| upload(&mut ring, 512, 0).unwrap().1).collect();
    assert_eq!(ring.clean_up_submissions(0), 0);
    assert_eq!(ring.clean_up_submissions(fences[1]), 2);
    assert_eq!(ring.submissions_used(), 2);
    assert_eq!(ring.submissions_start(), 2);
    assert_eq!(ring.buffer_tail(), 1024);
    assert_eq!(ring.submission(0), Some(Submission::new()));
    assert_eq!(ring.submission(1), Some(Submission::new()));
    assert_eq!(ring.submission(2).unwrap().state, SubmissionState::Submitted);
    assert_eq!(ring.clean_up_submissions(fences[1]), 0);
    assert_eq!(ring.clean_up_submissions(fences[3]), 2);
    assert_eq!(ring.submissions_used(), 0);
    assert_eq!(ring.buffer_tail(), ring.buffer_head());
    assert_eq!(ring.buffer_head(), 2048);
}

#[test]
fn claimed_range_is_not_given_back_before_it_is_submitted() {
    let mut ring = ring(8192);
    let pending = ring.allocate(512, 0).unwrap();
    let (_, fence) = upload(&mut ring, 512, 0).unwrap();
    // The later range is complete, the earlier one was never submitted.
    assert_eq!(ring.clean_up_submissions(fence), 0);
    assert_eq!(ring.submissions_used(), 2);
    let done = ring.submit(pending, None).unwrap();
    assert_eq!(done.fence_value, fence + 1);
    assert_eq!(ring.clean_up_submissions(fence), 0);
    assert_eq!(ring.clean_up_submissions(fence + 1), 2);
}

#[test]
fn ring_wraps_to_offset_zero_when_the_end_is_too_short() {
    let mut ring = ring(4096);
    let a = upload(&mut ring, 1024, 0).unwrap();
    let b = upload(&mut ring, 1024, 0).unwrap();
    let c = upload(&mut ring, 1024, 0).unwrap();
    assert_eq!((a.0, b.0, c.0), (0, 1024, 2048));
    // 1024 bytes are left at the end, 2048 are asked for, nothing is given back yet.
    assert_eq!(ring.allocate(2048, 0).unwrap_err(), GpuError::ResourceExhausted);
    assert_eq!(ring.clean_up_submissions(b.1), 2);
    assert_eq!(ring.buffer_tail(), 2048);
    let wrapped = ring.allocate(2048, 0).unwrap();
    assert_eq!(wrapped.offset(), 0);
    assert_eq!(ring.buffer_head(), 2048);
    assert_eq!(ring.buffer_tail(), 2048);
    assert_no_overlap(&ring);
    // Wrapped and full: the bytes after the upper run stay unused.
    assert_eq!(ring.allocate(1, 0).unwrap_err(), GpuError::ResourceExhausted);
    ring.submit(wrapped, None).unwrap();
    // Giving back the upper run moves the tail to the wrapped range.
    assert_eq!(ring.clean_up_submissions(c.1), 1);
    assert_eq!(ring.buffer_tail(), 0);
    assert_eq!(ring.buffer_head(), 2048);
    let after = ring.allocate(2048, 0).unwrap();
    assert_eq!(after.offset(), 2048);
    assert_eq!(ring.buffer_head(), 4096);
    assert_no_overlap(&ring);
}

#[test]
fn wrapped_ring_allocates_only_below_the_tail() {
    let mut ring = ring(4096);
    upload(&mut ring, 1024, 0).unwrap();
    let b = upload(&mut ring, 1024, 0).unwrap();
    upload(&mut ring, 1536, 0).unwrap();
    assert_eq!(ring.buffer_head(), 3584);
    ring.clean_up_submissions(b.1);
    assert_eq!(ring.buffer_tail(), 2048);
    // Wraps: 1024 bytes do not fit after the head.
    assert_eq!(upload(&mut ring, 1024, 0).unwrap().0, 0);
    assert_eq!(upload(&mut ring, 512, 0).unwrap().0, 1024);
    // 512 bytes are left below the tail. The span after the old head is not used.
    assert_eq!(ring.allocate(1024, 0).unwrap_err(), GpuError::ResourceExhausted);
    assert_eq!(upload(&mut ring, 512, 0).unwrap().0, 1536);
    assert_eq!(ring.allocate(1, 0).unwrap_err(), GpuError::ResourceExhausted);
    assert!(ring.allocate(0, 0).is_ok());
    assert_no_overlap(&ring);
}

#[test]
fn empty_ring_wraps_only_if_the_span_below_the_tail_is_long_enough() {
    let mut ring = ring(4096);
    let (_, fence) = upload(&mut ring, 2560, 0).unwrap();
    assert_eq!(ring.clean_up_submissions(fence), 1);
    assert_eq!((ring.buffer_head(), ring.buffer_tail()), (2560, 2560));
    // Neither the 1536 bytes after the head nor the 2560 below the tail hold 3072.
    assert_eq!(ring.allocate(3072, fence).unwrap_err(), GpuError::ResourceExhausted);
    let wrapped = ring.allocate(2560, fence).unwrap();
    assert_eq!(wrapped.offset(), 0);
    assert_eq!((ring.buffer_head(), ring.buffer_tail()), (2560, 0));
}

#[test]
fn submit_stamps_the_next_fence_value() {
    let mut ring = ring(8192);
    let first = ring.allocate(10, 0).unwrap();
    let second = ring.allocate(10, 0).unwrap();
    let done = ring.submit(second, None).unwrap();
    assert_eq!(done.slot, 1);
    assert_eq!(done.fence_value, COPY_BASE + 1);
    assert_eq!(done.dependent_wait, None);
    assert_eq!(ring.submission(1).unwrap().state, SubmissionState::Submitted);
    assert_eq!(ring.submission(1).unwrap().fence_value, COPY_BASE + 1);
    assert_eq!(ring.submission(0).unwrap().state, SubmissionState::Claimed);
    let done = first.submit(&mut ring, None).unwrap();
    assert_eq!(done.slot, 0);
    assert_eq!(done.fence_value, COPY_BASE + 2);
    assert_eq!(ring.upload_queue().next_fence_value(), COPY_BASE + 3);
}

#[test]
fn upload_of_another_ring_is_refused() {
    let mut one = ring(8192);
    let mut other = ring(8192);
    let foreign: Upload = one.allocate(100, 0).unwrap();
    assert_eq!(other.submit(foreign, None).unwrap_err(), GpuError::InvalidHandle);
    assert_eq!(other.upload_queue().next_fence_value(), COPY_BASE + 1);

    other.allocate(700, 0).unwrap();
    let mismatched = one.allocate(100, 0).unwrap();
    // Slot 1 of the other ring is not in use, slot 0 holds another range.
    assert_eq!(other.submit(mismatched, None).unwrap_err(), GpuError::InvalidHandle);
    assert_eq!(other.submission(0).unwrap().state, SubmissionState::Claimed);
}

#[test]
fn dependent_queue_waits_for_the_transfer_fence() {
    // A fake device: each fence is a number, a queue runs its work only once every
    // wait enqueued before it is satisfied.
    struct FakeGpu {
        copy_fence: u64,
        graphics_waits: Vec<FenceWait>,
    }
    impl FakeGpu {
        fn graphics_may_begin(&self) -> bool {
            self.graphics_waits.iter().all(|wait| self.copy_fence >= wait.fence_value)
        }
    }

    let mut ring = ring(8192);
    let mut graphics = CommandQueue::new(QueueKind::Direct);
    let mut gpu = FakeGpu { copy_fence: COPY_BASE, graphics_waits: Vec::new() };

    let staged = ring.allocate(256, gpu.copy_fence).unwrap();
    let done = ring.submit(staged, Some(&graphics)).unwrap();
    let wait = done.dependent_wait.unwrap();
    assert_eq!(
        wait,
        FenceWait {
            waiter: QueueKind::Direct,
            signaller: QueueKind::Copy,
            fence_value: done.fence_value,
        }
    );
    assert_eq!(wait.fence_value, ring.submission(done.slot).unwrap().fence_value);
    gpu.graphics_waits.push(wait);

    let draw = graphics.execute_command_list();
    assert_eq!(draw, 1);
    // The copy has not run: the draw may not begin, and the ring agrees.
    assert!(!gpu.graphics_may_begin());
    assert_eq!(ring.clean_up_submissions(gpu.copy_fence), 0);
    gpu.copy_fence = done.fence_value - 1;
    assert!(!gpu.graphics_may_begin());
    // The copy finishes.
    gpu.copy_fence = done.fence_value;
    assert!(gpu.graphics_may_begin());
    assert_eq!(ring.clean_up_submissions(gpu.copy_fence), 1);
    assert!(!graphics.is_fence_complete(draw, 0));
    assert!(graphics.is_fence_complete(draw, draw));
}

#[test]
fn live_ranges_never_overlap() {
    let mut ring = ring(64 * 1024);
    let mut pending: Vec<Upload> = Vec::new();
    let mut issued: Vec<u64> = Vec::new();
    let mut completed = COPY_BASE;
    let mut seed: u64 = 0x2545_F491_4F6C_DD1D;
    let mut successes = 0;
    let mut refusals = 0;
    for _ in 0..20_000 {
        seed ^= seed << 13;
        seed ^= seed >> 7;
        seed ^= seed << 17;
        match seed % 5 {
            0 | 1 => {
                let size = ((seed >> 8) % 20_000) as usize;
                match ring.allocate(size, completed) {
                    Ok(upload) => {
                        assert_eq!(upload.size(), size);
                        assert_eq!(upload.offset() % 512, 0);
                        pending.push(upload);
                        successes += 1;
                    }
                    Err(e) => {
                        assert_eq!(e, GpuError::ResourceExhausted);
                        refusals += 1;
                    }
                }
            }
            2 => {
                if !pending.is_empty() {
                    let at = ((seed >> 8) as usize) % pending.len();
                    let done = ring.submit(pending.remove(at), None).unwrap();
                    issued.push(done.fence_value);
                }
            }
            3 => {
                if let Some(last) = issued.last() {
                    if completed < *last {
                        completed += 1 + (seed >> 8) % (*last - completed);
                    }
                }
            }
            _ => {
                let before = ring.submissions_used();
                let retired = ring.clean_up_submissions(completed);
                assert_eq!(ring.submissions_used(), before - retired);
            }
        }
        assert!(ring.submissions_used() <= MAX_NUMBER_SUBMISSIONS);
        assert!(ring.buffer_head() <= ring.buffer_size());
        assert!(ring.buffer_tail() <= ring.buffer_size());
        assert_no_overlap(&ring);
    }
    assert!(successes > 1000);
    assert!(refusals > 100);
}

#[test]
fn device_is_asked_only_when_the_answer_matters() {
    let mut ring = ring(64 * 1024);
    // Nothing is live.
    assert!(!ring.clean_up_needs_poll());
    assert!(!ring.allocate_needs_poll());
    // A range that is not submitted stops the clean-up before any question.
    let pending = ring.allocate(16, 0).unwrap();
    assert!(!ring.clean_up_needs_poll());
    let first = ring.submit(pending, None).unwrap().fence_value;
    assert!(ring.clean_up_needs_poll());
    // A claim cleans up, and so asks, only if every slot is in use.
    assert!(!ring.allocate_needs_poll());
    for _ in 1..16 {
        upload(&mut ring, 16, 0).unwrap();
    }
    assert!(ring.allocate_needs_poll());
    // Once the cached bound covers every submitted range, nothing is asked.
    assert_eq!(ring.clean_up_submissions(first + 14), 15);
    assert!(ring.clean_up_needs_poll());
    assert_eq!(ring.clean_up_submissions(first + 20), 1);
    assert!(!ring.clean_up_needs_poll());
    let (_, later) = upload(&mut ring, 16, 0).unwrap();
    assert_eq!(later, first + 16);
    assert!(!ring.clean_up_needs_poll());
    assert_eq!(ring.clean_up_submissions(0), 1);
}

fn all_slots(ring: &UploadRingBuffer) -> Vec<Submission> {
    (0..MAX_NUMBER_SUBMISSIONS).map(|slot| ring.submission(slot).unwrap()).collect()
}

#[test]
fn clean_up_that_retires_nothing_leaves_every_slot() {
    let mut ring = ring(64 * 1024);
    // Nothing in use.
    let before = all_slots(&ring);
    assert_eq!(ring.clean_up_submissions(u64::MAX), 0);
    assert_eq!(all_slots(&ring), before);

    // The oldest is not complete, a later one is.
    let first = ring.allocate(100, 0).unwrap();
    let (_, later) = upload(&mut ring, 200, 0).unwrap();
    let before = all_slots(&ring);
    let cursors = (ring.buffer_head(), ring.buffer_tail(), ring.submissions_start());
    assert_eq!(ring.clean_up_submissions(later), 0);
    assert_eq!(all_slots(&ring), before);
    let oldest = ring.submit(first, None).unwrap().fence_value;
    assert!(oldest > later);
    let before = all_slots(&ring);
    assert_eq!(ring.clean_up_submissions(later), 0);
    assert_eq!(all_slots(&ring), before);
    assert_eq!(
        (ring.buffer_head(), ring.buffer_tail(), ring.submissions_start()),
        cursors
    );
    assert_eq!(ring.submissions_used(), 2);
}

#[test]
fn clean_up_resets_exactly_the_slots_it_gives_back() {
    let mut ring = ring(64 * 1024);
    let fences: Vec<u64> = (0..5).map(|i| upload(&mut ring, 100 + i, 0).unwrap().1).collect();
    let before = all_slots(&ring);
    assert_eq!(ring.clean_up_submissions(fences[2]), 3);
    let after = all_slots(&ring);
    for slot in 0..MAX_NUMBER_SUBMISSIONS {
        if slot < 3 {
            assert_eq!(
                after[slot],
                Submission {
                    state: SubmissionState::Free,
                    fence_value: 0,
                    offset: 0,
                    size: 0,
                    padding: 0,
                }
            );
        } else {
            assert_eq!(after[slot], before[slot]);
        }
    }
    assert_eq!(ring.submissions_start(), 3);
    assert_eq!(ring.submissions_used(), 2);
    // Three ranges of 512 bytes with padding were given back.
    assert_eq!(ring.buffer_tail(), 3 * 512);
    assert_eq!(ring.buffer_head(), 5 * 512);
}

#[test]
fn claimed_slot_carries_no_fence_value() {
    let mut ring = ring(64 * 1024);
    let (_, fence) = upload(&mut ring, 10, 0).unwrap();
    ring.clean_up_submissions(fence);
    // The slot after the one given back is claimed next; slot 0 is free again.
    let claim = ring.allocate(700, 0).unwrap();
    assert_eq!(claim.slot(), 1);
    assert_eq!(
        ring.submission(1),
        Some(Submission {
            state: SubmissionState::Claimed,
            fence_value: 0,
            offset: 512,
            size: 700,
            padding: 324,
        })
    );
    assert_eq!(ring.submission(0), Some(Submission::new()));
    assert!(ring.awaits(&claim));
    let done = ring.submit(claim, None).unwrap();
    assert_eq!(
        ring.submission(1),
        Some(Submission {
            state: SubmissionState::Submitted,
            fence_value: done.fence_value,
            offset: 512,
            size: 700,
            padding: 324,
        })
    );
}

#[test]
fn completed_ring_has_sixteen_free_slots_even_after_wrapping() {
    let mut ring = ring(4096);
    upload(&mut ring, 1024, 0).unwrap();
    let b = upload(&mut ring, 1024, 0).unwrap();
    upload(&mut ring, 1024, 0).unwrap();
    ring.clean_up_submissions(b.1);
    // Wraps to offset 0.
    let wrapped = upload(&mut ring, 2048, 0).unwrap();
    assert_eq!(wrapped.0, 0);
    assert_eq!(ring.submissions_used(), 2);
    assert_eq!(ring.clean_up_submissions(wrapped.1), 2);
    assert_eq!(ring.submissions_used(), 0);
    assert_eq!(ring.buffer_head(), ring.buffer_tail());
    for slot in all_slots(&ring) {
        assert_eq!(slot, Submission::new());
    }
    // The whole buffer can be claimed again.
    assert!(ring.allocate(2048, 0).is_ok());
}

#[test]
fn awaits_tells_which_uploads_submit_takes() {
    let mut one = ring(8192);
    let mut other = ring(8192);
    let mine = one.allocate(100, 0).unwrap();
    assert!(one.awaits(&mine));
    assert!(!other.awaits(&mine));
    other.allocate(700, 0).unwrap();
    // Slot 0 of the other ring is in use, but for another range.
    assert!(!other.awaits(&mine));
}
