use d3d12_utils::heap::DEFAULT_RESOURCE_PLACEMENT_ALIGNMENT;
use d3d12_utils::{
    AllocationInfo, GpuError, Heap, HeapType, PlacedResource, Resource, ResourceDesc,
};

const KIB: usize = 1024;
const MIB: usize = 1024 * 1024;

fn buffer(size: usize) -> ResourceDesc {
    ResourceDesc::buffer(size as u64)
}

fn info(size: usize, alignment: u64) -> AllocationInfo {
    AllocationInfo { size_in_bytes: size as u64, alignment }
}

fn place(heap: &mut Heap, size: usize, alignment: u64) -> Result<Resource, GpuError> {
    heap.create_resource(&buffer(size), info(size, alignment), false)
}

#[test]
fn default_alignment_is_64_kib() {
    assert_eq!(Heap::default_alignment(), 65536);
    assert_eq!(DEFAULT_RESOURCE_PLACEMENT_ALIGNMENT, 65536);
}

#[test]
fn named_constructors_choose_memory_and_alignment() {
    let upload = Heap::create_upload_heap(MIB, "staging");
    assert_eq!(upload.heap_type(), HeapType::Upload);
    assert_eq!(upload.alignment(), 65536);
    assert_eq!(upload.size(), MIB);
    assert_eq!(upload.curr_offset(), 0);
    assert_eq!(upload.name(), "staging");
    assert_eq!(upload.num_objects(), 0);

    let default = Heap::create_default_heap(2 * MIB, "textures");
    assert_eq!(default.heap_type(), HeapType::Default);
    assert_eq!(default.alignment(), 65536);
    assert_eq!(default.size(), 2 * MIB);

    let custom = Heap::new(4096, HeapType::Readback, 4096, "readback".to_string());
    assert_eq!(custom.heap_type(), HeapType::Readback);
    assert_eq!(custom.alignment(), 4096);
    assert_eq!(custom.name(), "readback");
}

#[test]
fn second_resource_that_overflows_one_mib_is_refused() {
    let mut heap = Heap::new(MIB, HeapType::Default, 256, "scenario".to_string());
    let first = place(&mut heap, 600 * KIB, 256).unwrap();
    assert_eq!(
        first.placement(),
        Some(PlacedResource { offset: 0, size: 600 * KIB, alignment: 256, ordinal: 1 })
    );
    assert_eq!(heap.curr_offset(), 600 * KIB);

    let second = place(&mut heap, 500 * KIB, 256);
    assert_eq!(second.unwrap_err(), GpuError::ResourceExhausted);
    // The first resource is where it was and the used part did not move.
    assert_eq!(heap.curr_offset(), 600 * KIB);
    assert_eq!(first.placement().unwrap().offset, 0);
    assert_eq!(first.size(), 600 * KIB);
}

#[test]
fn refusal_happens_exactly_on_the_overflowing_call() {
    let mut heap = Heap::create_default_heap(1000, "exact");
    let mut ends = Vec::new();
    for ordinal in 1..=10usize {
        let resource = place(&mut heap, 100, 1).unwrap();
        let placement = resource.placement().unwrap();
        assert_eq!(placement.offset, (ordinal - 1) * 100);
        assert_eq!(placement.ordinal, ordinal);
        ends.push(placement.offset + placement.size);
    }
    assert_eq!(heap.curr_offset(), 1000);
    assert_eq!(place(&mut heap, 1, 1).unwrap_err(), GpuError::ResourceExhausted);
    assert_eq!(ends, vec![100, 200, 300, 400, 500, 600, 700, 800, 900, 1000]);
}

#[test]
fn resource_that_fills_the_heap_exactly_fits() {
    let mut heap = Heap::create_default_heap(4096, "full");
    assert!(place(&mut heap, 4096, 256).is_ok());
    assert_eq!(heap.curr_offset(), 4096);
    assert!(place(&mut heap, 0, 256).is_ok());
    assert_eq!(place(&mut heap, 1, 256).unwrap_err(), GpuError::ResourceExhausted);
}

#[test]
fn padding_counts_against_the_capacity() {
    let mut heap = Heap::create_default_heap(1024, "padded");
    place(&mut heap, 100, 256).unwrap();
    assert_eq!(heap.curr_offset(), 100);
    // Aligned offset 256, so 156 bytes of padding and 768 bytes are consumed.
    let second = place(&mut heap, 768, 256).unwrap();
    assert_eq!(second.placement().unwrap().offset, 256);
    assert_eq!(heap.curr_offset(), 1024);

    let mut tight = Heap::create_default_heap(1023, "tight");
    place(&mut tight, 100, 256).unwrap();
    assert_eq!(place(&mut tight, 768, 256).unwrap_err(), GpuError::ResourceExhausted);
    assert_eq!(tight.curr_offset(), 100);
    // A smaller one still fits after the refusal.
    let third = place(&mut tight, 767, 256).unwrap();
    assert_eq!(third.placement().unwrap().offset, 256);
    assert_eq!(third.placement().unwrap().ordinal, 3);
    assert_eq!(tight.curr_offset(), 1023);
}

#[test]
fn placements_are_aligned_and_do_not_overlap() {
    let mut heap = Heap::create_default_heap(4 * MIB, "mixed");
    let requests: [(usize, u64); 7] = [
        (1000, 256),
        (70_000, 65536),
        (1, 4096),
        (0, 256),
        (300_000, 65536),
        (5, 1),
        (65536, 65536),
    ];
    let mut placed: Vec<PlacedResource> = Vec::new();
    for (size, alignment) in requests {
        let resource = place(&mut heap, size, alignment).unwrap();
        let p = resource.placement().unwrap();
        assert_eq!(p.offset % p.alignment, 0);
        assert_eq!(p.size, size);
        assert!(p.offset + p.size <= heap.size());
        for earlier in &placed {
            assert!(earlier.offset + earlier.size <= p.offset);
        }
        placed.push(p);
    }
    assert_eq!(placed[1].offset, 65536);
    assert_eq!(placed[2].offset, 139264);
    assert_eq!(heap.num_objects(), 7);
}

#[test]
fn refused_requests_are_counted() {
    let mut heap = Heap::create_default_heap(100, "counted");
    assert!(place(&mut heap, 200, 1).is_err());
    assert!(place(&mut heap, 300, 1).is_err());
    assert_eq!(heap.num_objects(), 2);
    let resource = place(&mut heap, 50, 1).unwrap();
    assert_eq!(resource.placement().unwrap().ordinal, 3);
}

#[test]
fn size_beyond_the_address_space_is_refused() {
    let mut heap = Heap::create_default_heap(MIB, "huge");
    let result = heap.create_resource(
        &buffer(16),
        AllocationInfo { size_in_bytes: u64::MAX, alignment: 256 },
        false,
    );
    assert_eq!(result.unwrap_err(), GpuError::ResourceExhausted);
}

#[test]
fn placed_resource_records_size_and_mapping() {
    let mut heap = Heap::create_upload_heap(MIB, "mapped");
    let desc = ResourceDesc { width: 64, height: 4, ..ResourceDesc::buffer(0) };
    let resource =
        heap.create_resource(&desc, AllocationInfo { size_in_bytes: 512, alignment: 256 }, true).unwrap();
    assert_eq!(resource.size(), 256);
    assert!(resource.is_mapped());
    assert_eq!(resource.placement().unwrap().size, 512);
    assert_eq!(heap.curr_offset(), 512);
}

#[test]
fn allocation_info_wants_a_power_of_two() {
    for alignment in [1u64, 2, 256, 4096, 65536, 1 << 22, 1 << 31] {
        assert!(AllocationInfo { size_in_bytes: 1, alignment }.is_valid());
    }
    for alignment in [0u64, 3, 6, 255, 257, 65535, (1 << 22) + 1] {
        assert!(!AllocationInfo { size_in_bytes: 1, alignment }.is_valid());
    }
    assert_eq!(
        AllocationInfo { size_in_bytes: 1, alignment: 1 << 63 }.is_valid(),
        usize::BITS == 64
    );
}

#[test]
fn placement_can_be_known_before_it_is_made() {
    let mut heap = Heap::create_default_heap(1024, "ahead");
    place(&mut heap, 100, 256).unwrap();
    let request = info(768, 256);
    let ahead = heap.placement_for(request).unwrap();
    assert_eq!(ahead, PlacedResource { offset: 256, size: 768, alignment: 256, ordinal: 2 });
    // Asking changes nothing.
    assert_eq!(heap.curr_offset(), 100);
    assert_eq!(heap.num_objects(), 1);
    let made = heap.create_resource(&buffer(768), request, false).unwrap();
    assert_eq!(made.placement(), Some(ahead));
    assert_eq!(heap.placement_for(info(1, 1)), None);
    assert_eq!(heap.placement_for(info(0, 1)).unwrap().offset, 1024);
}

#[test]
fn refusal_only_counts_the_request() {
    let mut heap = Heap::create_default_heap(1024, "counted");
    place(&mut heap, 100, 256).unwrap();
    heap.refuse();
    assert_eq!(heap.num_objects(), 2);
    assert_eq!(heap.curr_offset(), 100);
    let next = place(&mut heap, 100, 256).unwrap();
    assert_eq!(
        next.placement(),
        Some(PlacedResource { offset: 256, size: 100, alignment: 256, ordinal: 3 })
    );
}
