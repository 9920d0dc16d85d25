//! An arena that places resources one after another in a block of GPU memory.
//!
//! The arena only grows: a place is never given back, and all resources of a heap end
//! together with the heap.

use crate::align::{align_up, is_power_of_two};
use crate::error::GpuError;
use crate::resource::{PlacedResource, Resource, ResourceDesc, ResourceView};
use vstd::prelude::*;

verus! {

/// The alignment the device asks of resources without special needs: 64 KiB.
pub const DEFAULT_RESOURCE_PLACEMENT_ALIGNMENT: u32 = 65536;

/// Which memory a heap lies in.
#[derive(Clone, Copy, Debug, PartialEq, Eq, Structural)]
pub enum HeapType {
    /// GPU-local memory.
    Default,
    /// Memory the CPU writes and the GPU reads.
    Upload,
    /// Memory the GPU writes and the CPU reads.
    Readback,
    Custom,
}

impl HeapType {
    /// The device API's number for this kind of memory.
    pub open spec fn spec_code(&self) -> i32 {
        match *self {
            HeapType::Default => 1i32,
            HeapType::Upload => 2i32,
            HeapType::Readback => 3i32,
            HeapType::Custom => 4i32,
        }
    }

    /// The device API's number for this kind of memory.
    #[verifier::when_used_as_spec(spec_code)]
    pub fn code(&self) -> (code: i32)
        ensures
            code == self.spec_code(),
    {
        match self {
            HeapType::Default => 1,
            HeapType::Upload => 2,
            HeapType::Readback => 3,
            HeapType::Custom => 4,
        }
    }
}

/// What the device requires for a resource of some description.
#[derive(Clone, Copy, Debug, PartialEq, Eq, Structural)]
pub struct AllocationInfo {
    pub size_in_bytes: u64,
    pub alignment: u64,
}

impl AllocationInfo {
    /// The alignment is a power of two that fits the address space.
    pub open spec fn valid(self) -> bool {
        self.alignment <= usize::MAX && is_power_of_two(self.alignment as usize)
    }

    /// Tells whether the alignment is a power of two that fits the address space.
    pub fn is_valid(&self) -> (valid: bool)
        ensures
            valid == self.valid(),
    {
        if self.alignment > usize::MAX as u64 {
            return false;
        }
        let alignment = self.alignment as usize;
        alignment != 0 && alignment & (alignment - 1) == 0
    }
}

/// A heap as numbers.
pub struct HeapView {
    /// Bytes in the heap.
    pub size: nat,
    /// Bytes used so far; the next resource is placed at or after this offset.
    pub offset: nat,
    pub heap_type: HeapType,
    /// The alignment of the heap itself.
    pub alignment: u32,
    pub name: Seq<char>,
    /// How many placements were asked for, the refused ones included.
    pub num_objects: nat,
    /// The resources placed so far, oldest first.
    pub placements: Seq<PlacedResource>,
}

impl HeapView {
    /// The offset at which a resource of the given alignment would be placed.
    pub open spec fn aligned_offset(self, info: AllocationInfo) -> int {
        align_up(self.offset as int, info.alignment as int)
    }

    /// Bytes a placement would consume: the padding up to the aligned offset and the
    /// bytes the device requires.
    pub open spec fn total_size(self, info: AllocationInfo) -> int {
        (self.aligned_offset(info) - self.offset) + info.size_in_bytes
    }

    /// Whether a resource with these requirements still fits.
    pub open spec fn fits(self, info: AllocationInfo) -> bool {
        self.total_size(info) <= self.size - self.offset
    }

    /// The place a resource with these requirements gets.
    pub open spec fn place(self, info: AllocationInfo) -> PlacedResource {
        PlacedResource {
            offset: self.aligned_offset(info) as usize,
            size: info.size_in_bytes as usize,
            alignment: info.alignment as usize,
            ordinal: (self.num_objects + 1) as usize,
        }
    }

    /// The heap after a placement was refused: only the count of requests moved.
    pub open spec fn refused(self) -> Self {
        HeapView { num_objects: self.num_objects + 1, ..self }
    }

    /// The heap after a resource with these requirements was placed.
    pub open spec fn placed(self, info: AllocationInfo) -> Self {
        HeapView {
            offset: (self.offset + self.total_size(info)) as nat,
            num_objects: self.num_objects + 1,
            placements: self.placements.push(self.place(info)),
            ..self
        }
    }

    /// The invariant of a heap: the used part lies in the heap, every placed resource
    /// lies in the used part at a multiple of its alignment, and a resource placed
    /// later starts where the earlier ones have ended.
    pub open spec fn wf(self) -> bool {
        &&& self.offset <= self.size <= usize::MAX
        &&& self.num_objects <= usize::MAX
        &&& forall|i: int|
            0 <= i < self.placements.len() ==> {
                &&& (#[trigger] self.placements[i]).end() <= self.offset
                &&& self.placements[i].alignment > 0
                &&& self.placements[i].offset % self.placements[i].alignment == 0
            }
        &&& forall|i: int, j: int|
            0 <= i < j < self.placements.len() ==> (#[trigger] self.placements[i]).end() <= (
            #[trigger] self.placements[j]).offset
    }
}

/// An arena that places resources one after another in a block of GPU memory.
pub struct Heap {
    size: usize,
    curr_offset: usize,
    heap_type: HeapType,
    alignment: u32,
    name: String,
    num_objects: usize,
    placements: Ghost<Seq<PlacedResource>>,
}

impl View for Heap {
    type V = HeapView;

    closed spec fn view(&self) -> HeapView {
        HeapView {
            size: self.size as nat,
            offset: self.curr_offset as nat,
            heap_type: self.heap_type,
            alignment: self.alignment,
            name: self.name@,
            num_objects: self.num_objects as nat,
            placements: self.placements@,
        }
    }
}

impl Heap {
    /// Holds of every heap that exists.
    #[verifier::type_invariant]
    pub open spec fn inv(self) -> bool {
        self@.wf()
    }

    /// The alignment the device asks of resources without special needs.
    pub fn default_alignment() -> (alignment: u32)
        ensures
            alignment == DEFAULT_RESOURCE_PLACEMENT_ALIGNMENT,
    {
        DEFAULT_RESOURCE_PLACEMENT_ALIGNMENT
    }

    /// An empty heap of `size` bytes.
    pub fn new(size: usize, heap_type: HeapType, alignment: u32, name: String) -> (heap: Heap)
        ensures
            heap@ == (HeapView {
                size: size as nat,
                offset: 0,
                heap_type,
                alignment,
                name: name@,
                num_objects: 0,
                placements: Seq::empty(),
            }),
    {
        Heap {
            size,
            curr_offset: 0,
            heap_type,
            alignment,
            name,
            num_objects: 0,
            placements: Ghost(Seq::empty()),
        }
    }

    /// An empty heap of `size` bytes in memory the CPU writes and the GPU reads.
    pub fn create_upload_heap(size: usize, name: &str) -> (heap: Heap)
        ensures
            heap@ == (HeapView {
                size: size as nat,
                offset: 0,
                heap_type: HeapType::Upload,
                alignment: DEFAULT_RESOURCE_PLACEMENT_ALIGNMENT,
                name: name@,
                num_objects: 0,
                placements: Seq::empty(),
            }),
    {
        Self::new(size, HeapType::Upload, DEFAULT_RESOURCE_PLACEMENT_ALIGNMENT, name.to_string())
    }

    /// An empty heap of `size` bytes in GPU-local memory.
    pub fn create_default_heap(size: usize, name: &str) -> (heap: Heap)
        ensures
            heap@ == (HeapView {
                size: size as nat,
                offset: 0,
                heap_type: HeapType::Default,
                alignment: DEFAULT_RESOURCE_PLACEMENT_ALIGNMENT,
                name: name@,
                num_objects: 0,
                placements: Seq::empty(),
            }),
    {
        Self::new(size, HeapType::Default, DEFAULT_RESOURCE_PLACEMENT_ALIGNMENT, name.to_string())
    }

    /// Bytes in the heap.
    pub fn size(&self) -> (size: usize)
        ensures
            size == self@.size,
    {
        self.size
    }

    /// Bytes used so far.
    pub fn curr_offset(&self) -> (offset: usize)
        ensures
            offset == self@.offset,
            offset <= self@.size,
    {
        proof {
            use_type_invariant(self);
        }
        self.curr_offset
    }

    /// Which memory the heap lies in.
    pub fn heap_type(&self) -> (heap_type: HeapType)
        ensures
            heap_type == self@.heap_type,
    {
        self.heap_type
    }

    /// The alignment of the heap itself.
    pub fn alignment(&self) -> (alignment: u32)
        ensures
            alignment == self@.alignment,
    {
        self.alignment
    }

    /// The heap's name; a resource is named after its heap and its ordinal.
    pub fn name(&self) -> (name: &str)
        ensures
            name@ == self@.name,
    {
        self.name.as_str()
    }

    /// How many placements were asked for, the refused ones included.
    pub fn num_objects(&self) -> (count: usize)
        ensures
            count == self@.num_objects,
    {
        self.num_objects
    }

    /// Where a resource with these requirements would be placed, if it fits. Nothing
    /// is placed yet: `create_resource` places it there.
    pub fn placement_for(&self, info: AllocationInfo) -> (placement: Option<PlacedResource>)
        requires
            info.valid(),
            self@.num_objects < usize::MAX,
        ensures
            placement == if self@.fits(info) {
                Some(self@.place(info))
            } else {
                None
            },
    {
        proof {
            use_type_invariant(self);
            crate::align::lemma_align_up_bounds(self.curr_offset as int, info.alignment as int);
        }
        let alignment = info.alignment as usize;
        let remaining = self.size - self.curr_offset;
        let misaligned = self.curr_offset % alignment;
        let padding = if misaligned == 0 {
            0
        } else {
            alignment - misaligned
        };
        if padding > remaining || info.size_in_bytes > (remaining - padding) as u64 {
            return None;
        }
        Some(
            PlacedResource {
                offset: self.curr_offset + padding,
                size: info.size_in_bytes as usize,
                alignment,
                ordinal: self.num_objects + 1,
            },
        )
    }

    /// Counts a request that was not placed, as `create_resource` does for one that
    /// does not fit. The used part and the resources placed stay as they are.
    pub fn refuse(&mut self)
        requires
            old(self)@.num_objects < usize::MAX,
        ensures
            final(self)@ == old(self)@.refused(),
    {
        proof {
            use_type_invariant(&*self);
        }
        self.num_objects = self.num_objects + 1;
    }

    /// Places a resource at the next offset that is a multiple of the alignment the
    /// device requires, and moves the used part past it. `info` is what the device
    /// requires for `desc`. Fails with `ResourceExhausted` if padding and required
    /// bytes together exceed what is left; the resources placed before stay as they
    /// are.
    pub fn create_resource(
        &mut self,
        desc: &ResourceDesc,
        info: AllocationInfo,
        mapped: bool,
    ) -> (result: Result<Resource, GpuError>)
        requires
            info.valid(),
            desc.byte_size() <= usize::MAX,
            old(self)@.num_objects < usize::MAX,
        ensures
            match result {
                Ok(resource) => {
                    &&& old(self)@.fits(info)
                    &&& final(self)@ == old(self)@.placed(info)
                    &&& resource@ == (ResourceView {
                        size: desc.byte_size() as nat,
                        mapped,
                        placement: Some(old(self)@.place(info)),
                    })
                },
                Err(e) => {
                    &&& !old(self)@.fits(info)
                    &&& e == GpuError::ResourceExhausted
                    &&& final(self)@ == old(self)@.refused()
                },
            },
    {
        proof {
            use_type_invariant(&*self);
        }
        self.num_objects = self.num_objects + 1;

        let alignment = info.alignment as usize;
        let remaining = self.size - self.curr_offset;
        let misaligned = self.curr_offset % alignment;
        let padding = if misaligned == 0 {
            0
        } else {
            alignment - misaligned
        };
        if padding > remaining || info.size_in_bytes > (remaining - padding) as u64 {
            return Err(GpuError::ResourceExhausted);
        }
        let aligned_offset = self.curr_offset + padding;
        let required = info.size_in_bytes as usize;
        let placement = PlacedResource {
            offset: aligned_offset,
            size: required,
            alignment,
            ordinal: self.num_objects,
        };
        proof {
            crate::align::lemma_align_up_bounds(self.curr_offset as int, alignment as int);
        }
        self.curr_offset = aligned_offset + required;
        self.placements = Ghost(self.placements@.push(placement));

        let width = desc.width;
        let height = desc.height;
        assert(width <= width * height || height == 0) by (nonlinear_arith);
        let size = if height == 0 {
            0
        } else {
            width as usize * height as usize
        };
        Ok(Resource::placed(size, mapped, placement))
    }
}

/// Resources of one heap never overlap, and each lies inside the heap at a multiple of
/// its alignment.
pub proof fn lemma_placements_disjoint(heap: HeapView, i: int, j: int)
    requires
        heap.wf(),
        0 <= i < heap.placements.len(),
        0 <= j < heap.placements.len(),
        i != j,
    ensures
        heap.placements[i].disjoint(heap.placements[j]),
        heap.placements[i].end() <= heap.size,
        heap.placements[i].offset % heap.placements[i].alignment == 0,
{
}

/// A request is refused exactly when it would take the heap over its size. The place
/// it would get is the least multiple of the alignment at or above the used part; it
/// is refused exactly when that place plus the bytes required exceed the size of the
/// heap, and placed otherwise.
pub proof fn lemma_refused_exactly_when_over_size(heap: HeapView, info: AllocationInfo)
    requires
        heap.wf(),
        info.alignment > 0,
    ensures
        heap.aligned_offset(info) % (info.alignment as int) == 0,
        heap.offset <= heap.aligned_offset(info) < heap.offset + info.alignment,
        heap.fits(info) <==> heap.aligned_offset(info) + info.size_in_bytes <= heap.size,
        heap.requested(info) == if heap.aligned_offset(info) + info.size_in_bytes <= heap.size {
            heap.placed(info)
        } else {
            heap.refused()
        },
{
    crate::align::lemma_align_up_bounds(heap.offset as int, info.alignment as int);
}

/// A request that is refused moves nothing: the used part and every resource placed
/// before stay as they are, so a later request fits exactly if it would have fitted
/// before, and is placed at the same offset.
pub proof fn lemma_refusal_moves_nothing(
    heap: HeapView,
    info: AllocationInfo,
    later: AllocationInfo,
)
    requires
        heap.wf(),
        info.alignment > 0,
        !heap.fits(info),
    ensures
        heap.requested(info) == heap.refused(),
        heap.requested(info).offset == heap.offset,
        heap.requested(info).size == heap.size,
        heap.requested(info).placements == heap.placements,
        heap.requested(info).fits(later) == heap.fits(later),
        heap.requested(info).aligned_offset(later) == heap.aligned_offset(later),
        heap.requested(info).place(later).offset == heap.place(later).offset,
        heap.requested(info).place(later).size == heap.place(later).size,
{
}

/// A request that is placed lies apart from everything placed before: its offset is
/// the least multiple of its alignment at or above the used part, the used part then
/// ends where the resource ends, inside the heap, and the resource shares no byte
/// with any earlier one. The earlier ones stay where they are.
pub proof fn lemma_placement_lies_apart(heap: HeapView, info: AllocationInfo, earlier: int)
    requires
        heap.wf(),
        info.alignment > 0,
        heap.fits(info),
        0 <= earlier < heap.placements.len(),
    ensures
        heap.place(info).offset == heap.aligned_offset(info),
        heap.place(info).size == info.size_in_bytes,
        (heap.place(info).offset as int) % (info.alignment as int) == 0,
        heap.offset <= heap.place(info).offset < heap.offset + info.alignment,
        heap.placed(info).offset == heap.place(info).end(),
        heap.placed(info).offset <= heap.size,
        heap.placed(info).placements == heap.placements.push(heap.place(info)),
        heap.placed(info).placements[earlier] == heap.placements[earlier],
        heap.placements[earlier].end() <= heap.offset,
        heap.placements[earlier].disjoint(heap.place(info)),
{
    crate::align::lemma_align_up_bounds(heap.offset as int, info.alignment as int);
}

impl HeapView {
    /// The heap after a request with the given requirements: placed if it fits,
    /// refused otherwise.
    pub open spec fn requested(self, info: AllocationInfo) -> Self {
        if self.fits(info) {
            self.placed(info)
        } else {
            self.refused()
        }
    }

    /// The heap after a sequence of requests.
    pub open spec fn run(self, requests: Seq<AllocationInfo>) -> Self
        decreases requests.len(),
    {
        if requests.len() == 0 {
            self
        } else {
            self.requested(requests[0]).run(requests.drop_first())
        }
    }
}

/// A request keeps the invariant of the heap.
pub proof fn lemma_request_keeps_heap(heap: HeapView, info: AllocationInfo)
    requires
        heap.wf(),
        info.valid(),
        heap.num_objects < usize::MAX,
    ensures
        heap.requested(info).wf(),
        heap.requested(info).size == heap.size,
        heap.offset <= heap.requested(info).offset,
        heap.requested(info).num_objects == heap.num_objects + 1,
        heap.placements.len() <= heap.requested(info).placements.len(),
        forall|i: int|
            0 <= i < heap.placements.len() ==> heap.requested(info).placements[i]
                == heap.placements[i],
{
    crate::align::lemma_align_up_bounds(heap.offset as int, info.alignment as int);
    if heap.fits(info) {
        let after = heap.placed(info);
        let placed = heap.place(info);
        assert(after.placements.last() == placed);
        assert forall|i: int| 0 <= i < heap.placements.len() implies after.placements[i]
            == heap.placements[i] by {}
    }
}

/// Whatever is requested of a heap, in whatever order: the resources placed before
/// stay where they are, every resource lies inside the heap, and no two resources
/// share a byte. A request is refused exactly when it would exceed what is left.
pub proof fn lemma_requests_keep_heap(heap: HeapView, requests: Seq<AllocationInfo>)
    requires
        heap.wf(),
        heap.num_objects + requests.len() <= usize::MAX,
        forall|i: int| 0 <= i < requests.len() ==> (#[trigger] requests[i]).valid(),
    ensures
        heap.run(requests).wf(),
        heap.run(requests).size == heap.size,
        heap.offset <= heap.run(requests).offset,
        heap.placements.len() <= heap.run(requests).placements.len(),
        forall|i: int|
            0 <= i < heap.placements.len() ==> heap.run(requests).placements[i]
                == heap.placements[i],
        forall|i: int, j: int|
            0 <= i < heap.run(requests).placements.len() && 0 <= j < heap.run(
                requests,
            ).placements.len() && i != j ==> (#[trigger] heap.run(requests).placements[i]).disjoint(
                #[trigger] heap.run(requests).placements[j],
            ),
    decreases requests.len(),
{
    if requests.len() > 0 {
        let next = heap.requested(requests[0]);
        let rest = requests.drop_first();
        lemma_request_keeps_heap(heap, requests[0]);
        assert forall|i: int| 0 <= i < rest.len() implies (#[trigger] rest[i]).valid() by {
            assert(rest[i] == requests[i + 1]);
        }
        lemma_requests_keep_heap(next, rest);
    }
    let last = heap.run(requests);
    assert forall|i: int, j: int|
        0 <= i < last.placements.len() && 0 <= j < last.placements.len() && i != j implies (
    #[trigger] last.placements[i]).disjoint(#[trigger] last.placements[j]) by {
        lemma_placements_disjoint(last, i, j);
    }
}

} // verus!
