//! Typed descriptor handles that are recycled through free lists.
//!
//! The manager owns one descriptor heap per kind of view. A slot that is released goes
//! to a free list and is handed out again before the heap gives a fresh one, so a heap
//! is used up to the largest number of handles that were alive at once.
//!
//! Every slot counts its generations: the count is even while a handle holds the slot
//! and odd while the slot waits in the free list. A handle carries the count it was
//! handed out with, so a handle that was released is told apart from the handle that
//! got the slot after it.

use crate::descriptor_heap::{
    CpuDescriptorHandle,
    DescriptorHeap,
    DescriptorHeapLayout,
    DescriptorHeapView,
    GpuDescriptorHandle,
};
use crate::error::GpuError;
use vstd::prelude::*;

verus! {

/// The kind of view a descriptor describes.
#[derive(Clone, Copy, Debug, PartialEq, Eq, Structural)]
pub enum DescriptorType {
    Unset,
    Resource,
    DepthStencilView,
    RenderTargetView,
}

impl DescriptorType {
    /// Whether shaders read the heap of this kind. Only resource views are bound
    /// through a heap that shaders see.
    pub open spec fn spec_shader_visible(&self) -> bool {
        *self == DescriptorType::Resource
    }

    /// The device API's number of the heap type that holds views of this kind; there
    /// is none for `Unset`.
    pub open spec fn spec_heap_type_code(&self) -> Option<i32> {
        match *self {
            DescriptorType::Unset => None,
            DescriptorType::Resource => Some(0i32),
            DescriptorType::RenderTargetView => Some(2i32),
            DescriptorType::DepthStencilView => Some(3i32),
        }
    }

    /// Whether shaders read the heap of this kind.
    #[verifier::when_used_as_spec(spec_shader_visible)]
    pub fn shader_visible(&self) -> (visible: bool)
        ensures
            visible == self.spec_shader_visible(),
    {
        match self {
            DescriptorType::Resource => true,
            _ => false,
        }
    }

    /// The device API's number of the heap type that holds views of this kind.
    #[verifier::when_used_as_spec(spec_heap_type_code)]
    pub fn heap_type_code(&self) -> (code: Option<i32>)
        ensures
            code == self.spec_heap_type_code(),
    {
        match self {
            DescriptorType::Unset => None,
            DescriptorType::Resource => Some(0),
            DescriptorType::RenderTargetView => Some(2),
            DescriptorType::DepthStencilView => Some(3),
        }
    }
}

impl Default for DescriptorType {
    fn default() -> (kind: DescriptorType)
        ensures
            kind == DescriptorType::Unset,
    {
        DescriptorType::Unset
    }
}

/// Slots of the heap for resource views.
pub const RESOURCE_DESCRIPTOR_CAPACITY: u32 = 500_000;

/// Slots of the heap for depth-stencil views.
pub const DEPTH_STENCIL_DESCRIPTOR_CAPACITY: u32 = 1000;

/// Slots of the heap for render-target views.
pub const RENDER_TARGET_DESCRIPTOR_CAPACITY: u32 = 1000;

/// A handle to one descriptor slot: the kind of view, the slot's index in the heap of
/// that kind, and the slot's generation when the handle was handed out.
#[derive(Clone, Copy, Debug, PartialEq, Eq, Structural)]
pub struct Descriptor {
    tag: DescriptorType,
    index: u32,
    generation: u64,
}

impl Descriptor {
    /// The handle of kind `tag` to slot `index` in generation `generation`.
    pub closed spec fn spec_of(tag: DescriptorType, index: u32, generation: u64) -> Descriptor {
        Descriptor { tag, index, generation }
    }

    /// A handle is its kind, its slot and its generation, and nothing more.
    pub proof fn lemma_parts(self, tag: DescriptorType, index: u32, generation: u64)
        ensures
            Self::spec_of(tag, index, generation).tag() == tag,
            Self::spec_of(tag, index, generation).index() == index,
            Self::spec_of(tag, index, generation).generation() == generation,
            self == Self::spec_of(self.tag(), self.index(), self.generation()),
    {
    }

    /// The kind of view.
    pub closed spec fn spec_tag(&self) -> DescriptorType {
        self.tag
    }

    /// The slot's index in the heap of its kind.
    pub closed spec fn spec_index(&self) -> u32 {
        self.index
    }

    /// The slot's generation when the handle was handed out.
    pub closed spec fn spec_generation(&self) -> u64 {
        self.generation
    }

    /// The kind of view.
    #[verifier::when_used_as_spec(spec_tag)]
    pub fn tag(&self) -> (tag: DescriptorType)
        ensures
            tag == self.spec_tag(),
    {
        self.tag
    }

    /// The slot's index in the heap of its kind.
    #[verifier::when_used_as_spec(spec_index)]
    pub fn index(&self) -> (index: u32)
        ensures
            index == self.spec_index(),
    {
        self.index
    }

    /// The slot's generation when the handle was handed out.
    #[verifier::when_used_as_spec(spec_generation)]
    pub fn generation(&self) -> (generation: u64)
        ensures
            generation == self.spec_generation(),
    {
        self.generation
    }
}

impl Default for Descriptor {
    fn default() -> (descriptor: Descriptor)
        ensures
            descriptor == Descriptor::spec_of(DescriptorType::Unset, 0, 0),
    {
        Descriptor { tag: DescriptorType::Unset, index: 0, generation: 0 }
    }
}

/// One heap with its free list and the generations of its slots, as numbers.
pub struct PoolView {
    pub heap: DescriptorHeapView,
    /// Released slots; the last one is handed out next.
    pub free: Seq<u32>,
    /// The generation of every slot the heap has handed out: even while a handle holds
    /// the slot, odd while it is released.
    pub generations: Seq<u64>,
}

impl PoolView {
    /// Whether the handle to slot `index` of generation `generation` holds its slot:
    /// the slot is in that generation and the generation is one of use.
    pub open spec fn live(self, index: u32, generation: u64) -> bool {
        &&& index < self.generations.len()
        &&& self.generations[index as int] == generation
        &&& generation % 2 == 0
    }

    /// Whether a slot can be handed out.
    pub open spec fn can_allocate(self) -> bool {
        self.free.len() > 0 || self.heap.allocated < self.heap.capacity
    }

    /// The slot that is handed out next: the one released last, or else a fresh one.
    pub open spec fn next_index(self) -> int {
        if self.free.len() > 0 {
            self.free.last() as int
        } else {
            self.heap.allocated as int
        }
    }

    /// The generation the next handle gets: the one after the slot's release, or 0 for
    /// a fresh slot.
    pub open spec fn next_generation(self) -> int {
        if self.free.len() > 0 {
            self.generations[self.free.last() as int] + 1
        } else {
            0
        }
    }

    /// The pool after the next slot was handed out.
    pub open spec fn allocated(self) -> Self {
        if self.free.len() > 0 {
            PoolView {
                free: self.free.drop_last(),
                generations: self.generations.update(
                    self.free.last() as int,
                    self.next_generation() as u64,
                ),
                ..self
            }
        } else {
            PoolView { heap: self.heap.bumped(), generations: self.generations.push(0), ..self }
        }
    }

    /// The pool after the handle to slot `index` of generation `generation` was
    /// released. A handle that does not hold its slot changes nothing. A slot whose
    /// generations are used up is not handed out again.
    pub open spec fn released(self, index: u32, generation: u64) -> Self {
        if self.live(index, generation) {
            PoolView {
                generations: self.generations.update(index as int, (generation + 1) as u64),
                free: if generation + 1 < u64::MAX {
                    self.free.push(index)
                } else {
                    self.free
                },
                ..self
            }
        } else {
            self
        }
    }

    /// The invariant of a pool: every slot the heap handed out has a generation, and
    /// the free list names, once each, exactly the slots of odd generation that can
    /// be handed out again.
    pub open spec fn wf(self) -> bool {
        &&& self.heap.wf()
        &&& self.generations.len() == self.heap.allocated
        &&& self.free.no_duplicates()
        &&& forall|i: int|
            0 <= i < self.free.len() ==> {
                &&& (#[trigger] self.free[i]) < self.generations.len()
                &&& self.generations[self.free[i] as int] % 2 == 1
                &&& self.generations[self.free[i] as int] < u64::MAX
            }
        &&& forall|slot: int|
            0 <= slot < self.generations.len() && (#[trigger] self.generations[slot]) % 2 == 1
                && self.generations[slot] < u64::MAX ==> self.free.contains(slot as u32)
    }
}

/// The three pools of a manager.
pub struct DescriptorManagerView {
    pub resource: PoolView,
    pub depth_stencil: PoolView,
    pub render_target: PoolView,
}

impl DescriptorManagerView {
    /// The pool of `kind`. There is none for `Unset`.
    pub open spec fn pool(self, kind: DescriptorType) -> PoolView
        recommends
            kind != DescriptorType::Unset,
    {
        match kind {
            DescriptorType::DepthStencilView => self.depth_stencil,
            DescriptorType::RenderTargetView => self.render_target,
            _ => self.resource,
        }
    }

    /// The manager with the pool of `kind` replaced; unchanged for `Unset`.
    pub open spec fn with_pool(self, kind: DescriptorType, pool: PoolView) -> Self {
        match kind {
            DescriptorType::Unset => self,
            DescriptorType::Resource => DescriptorManagerView { resource: pool, ..self },
            DescriptorType::DepthStencilView => DescriptorManagerView {
                depth_stencil: pool,
                ..self
            },
            DescriptorType::RenderTargetView => DescriptorManagerView {
                render_target: pool,
                ..self
            },
        }
    }

    /// The invariant of a manager: all three pools are well formed.
    pub open spec fn wf(self) -> bool {
        self.resource.wf() && self.depth_stencil.wf() && self.render_target.wf()
    }

    /// Whether `descriptor` holds its slot: its kind is set and it is live in the pool
    /// of that kind.
    pub open spec fn live(self, descriptor: Descriptor) -> bool {
        descriptor.tag() != DescriptorType::Unset && self.pool(descriptor.tag()).live(
            descriptor.index(),
            descriptor.generation(),
        )
    }

    /// The handle that is handed out next for `kind`.
    pub open spec fn next(self, kind: DescriptorType) -> Descriptor {
        Descriptor::spec_of(
            kind,
            self.pool(kind).next_index() as u32,
            self.pool(kind).next_generation() as u64,
        )
    }

    /// The manager after `descriptor` was released.
    pub open spec fn released(self, descriptor: Descriptor) -> Self {
        self.with_pool(
            descriptor.tag(),
            self.pool(descriptor.tag()).released(descriptor.index(), descriptor.generation()),
        )
    }

    /// The manager after the next handle of `kind` was handed out.
    pub open spec fn allocated(self, kind: DescriptorType) -> Self {
        self.with_pool(kind, self.pool(kind).allocated())
    }
}

/// One heap with its free list and the generations of its slots.
///
/// Both vectors are as long as the heap has slots, so that nothing is allocated while
/// descriptors are handed out. The free list is the first `free_len` entries of its
/// vector; the generations that count are those of the slots the heap has handed out.
#[derive(Debug)]
struct Pool {
    heap: DescriptorHeap,
    free_list: Vec<u32>,
    free_len: usize,
    generations: Vec<u64>,
}

impl Pool {
    spec fn model(self) -> PoolView {
        PoolView {
            heap: self.heap@,
            free: self.free_list@.take(self.free_len as int),
            generations: self.generations@.take(self.heap@.allocated as int),
        }
    }

    spec fn wf(self) -> bool {
        &&& self.free_list@.len() == self.heap@.capacity
        &&& self.generations@.len() == self.heap@.capacity
        &&& self.free_len <= self.free_list@.len()
        &&& self.model().wf()
    }

    /// A pool around a heap that has handed out nothing.
    fn new(heap: DescriptorHeap) -> (pool: Pool)
        requires
            heap@.wf(),
            heap@.allocated == 0,
        ensures
            pool.wf(),
            pool.model() == (PoolView {
                heap: heap@,
                free: Seq::empty(),
                generations: Seq::empty(),
            }),
    {
        let capacity = heap.num_descriptors();
        let mut free_list: Vec<u32> = Vec::new();
        let mut generations: Vec<u64> = Vec::new();
        let mut slot: u32 = 0;
        while slot < capacity
            invariant
                slot <= capacity,
                free_list@.len() == slot,
                generations@.len() == slot,
            decreases capacity - slot,
        {
            free_list.push(0);
            generations.push(0);
            slot = slot + 1;
        }
        let pool = Pool { heap, free_list, free_len: 0, generations };
        assert(pool.model().free =~= Seq::empty());
        assert(pool.model().generations =~= Seq::empty());
        pool
    }

    /// Takes the slot released last, or else a fresh one from the heap; returns the
    /// slot and its new generation.
    fn allocate(&mut self) -> (result: Result<(u32, u64), GpuError>)
        requires
            old(self).wf(),
        ensures
            final(self).wf(),
            match result {
                Ok((index, generation)) => {
                    &&& old(self).model().can_allocate()
                    &&& index == old(self).model().next_index()
                    &&& generation == old(self).model().next_generation()
                    &&& final(self).model() == old(self).model().allocated()
                },
                Err(e) => {
                    &&& !old(self).model().can_allocate()
                    &&& e == GpuError::ResourceExhausted
                    &&& final(self).model() == old(self).model()
                },
            },
        no_unwind
    {
        let ghost before = self.model();
        proof {
            if before.can_allocate() {
                lemma_allocate_never_reissues(before);
            }
        }
        if self.free_len > 0 {
            let last = self.free_len - 1;
            assert(before.free.last() == self.free_list@[last as int]);
            let index = self.free_list[last];
            let generation = self.generations[index as usize] + 1;
            self.free_len = last;
            self.generations[index as usize] = generation;
            proof {
                assert(self.model().free =~= before.allocated().free);
                assert(self.model().generations =~= before.allocated().generations);
            }
            return Ok((index, generation));
        }
        match self.heap.allocate_handle() {
            Ok((index, _)) => {
                self.generations[index as usize] = 0;
                proof {
                    assert(before.free.len() == 0);
                    assert(self.model().heap == before.heap.bumped());
                    assert(self.model().free =~= before.allocated().free);
                    assert(self.model().generations =~= before.allocated().generations);
                    assert(self.model() == before.allocated());
                }
                Ok((index, 0))
            },
            Err(e) => Err(e),
        }
    }

    /// Releases the handle to slot `index` of generation `generation`, if it holds
    /// the slot.
    fn release(&mut self, index: u32, generation: u64)
        requires
            old(self).wf(),
        ensures
            final(self).wf(),
            final(self).model() == old(self).model().released(index, generation),
        no_unwind
    {
        let ghost before = self.model();
        proof {
            lemma_release_keeps_pool(before, index, generation);
        }
        if self.holds(index, generation) {
            self.generations[index as usize] = generation + 1;
            if generation + 1 < u64::MAX {
                proof {
                    assert(!before.free.contains(index)) by {
                        if before.free.contains(index) {
                            let k = choose|k: int| 0 <= k < before.free.len() && before.free[k] == index;
                            assert(before.generations[before.free[k] as int] % 2 == 1);
                        }
                    }
                    lemma_fewer_than_bound(before.free, before.generations.len() as int, index);
                }
                self.free_list[self.free_len] = index;
                self.free_len = self.free_len + 1;
            }
            proof {
                assert(self.model().free =~= before.released(index, generation).free);
                assert(self.model().generations =~= before.released(
                    index,
                    generation,
                ).generations);
            }
        }
    }

    /// Whether the handle to slot `index` of generation `generation` holds its slot.
    fn holds(&self, index: u32, generation: u64) -> (live: bool)
        requires
            self.wf(),
        ensures
            live == self.model().live(index, generation),
        no_unwind
    {
        index < self.heap.num_allocated() && self.generations[index as usize] == generation
            && generation % 2 == 0
    }
}

/// A sequence that names each of its slots once, all of them below `bound` and none of
/// them `missing`, is shorter than `bound`.
proof fn lemma_fewer_than_bound(slots: Seq<u32>, bound: int, missing: u32)
    requires
        slots.no_duplicates(),
        forall|i: int| 0 <= i < slots.len() ==> (#[trigger] slots[i]) < bound,
        !slots.contains(missing),
        0 <= missing < bound,
    ensures
        slots.len() < bound,
{
    let ints = Seq::new(slots.len(), |i: int| slots[i] as int);
    assert(ints.no_duplicates()) by {
        assert forall|i: int, j: int|
            0 <= i < ints.len() && 0 <= j < ints.len() && i != j implies ints[i] != ints[j] by {
            assert(slots[i] != slots[j]);
        }
    }
    ints.unique_seq_to_set();
    let range = vstd::set_lib::set_int_range(0, bound).remove(missing as int);
    vstd::set_lib::lemma_int_range(0, bound);
    assert(ints.to_set().subset_of(range)) by {
        assert forall|x: int| ints.to_set().contains(x) implies range.contains(x) by {
            let k = choose|k: int| 0 <= k < ints.len() && ints[k] == x;
            assert(slots[k] < bound);
            if x == missing as int {
                assert(slots[k] == missing);
                assert(slots.contains(missing));
            }
        }
    }
    vstd::set_lib::lemma_len_subset(ints.to_set(), range);
}

/// Owner of the three descriptor heaps, their free lists and the generations of their
/// slots.
#[derive(Debug)]
pub struct DescriptorManager {
    resource: Pool,
    depth_stencil: Pool,
    render_target: Pool,
}

impl View for DescriptorManager {
    type V = DescriptorManagerView;

    closed spec fn view(&self) -> DescriptorManagerView {
        DescriptorManagerView {
            resource: self.resource.model(),
            depth_stencil: self.depth_stencil.model(),
            render_target: self.render_target.model(),
        }
    }
}

impl DescriptorManager {
    /// Holds of every manager that exists.
    #[verifier::type_invariant]
    closed spec fn inv(self) -> bool {
        self.resource.wf() && self.depth_stencil.wf() && self.render_target.wf()
    }

    /// A manager whose three heaps are empty. Each layout is what the device reported
    /// for the heap of that kind.
    pub fn new(
        resource_layout: DescriptorHeapLayout,
        depth_stencil_layout: DescriptorHeapLayout,
        render_target_layout: DescriptorHeapLayout,
    ) -> (manager: DescriptorManager)
        requires
            resource_layout.holds(RESOURCE_DESCRIPTOR_CAPACITY),
            depth_stencil_layout.holds(DEPTH_STENCIL_DESCRIPTOR_CAPACITY),
            render_target_layout.holds(RENDER_TARGET_DESCRIPTOR_CAPACITY),
        ensures
            manager@.wf(),
            manager@.resource == (PoolView {
                heap: DescriptorHeapView {
                    kind: DescriptorType::Resource,
                    shader_visible: true,
                    layout: resource_layout,
                    capacity: RESOURCE_DESCRIPTOR_CAPACITY as nat,
                    allocated: 0,
                },
                free: Seq::empty(),
                generations: Seq::empty(),
            }),
            manager@.depth_stencil == (PoolView {
                heap: DescriptorHeapView {
                    kind: DescriptorType::DepthStencilView,
                    shader_visible: false,
                    layout: depth_stencil_layout,
                    capacity: DEPTH_STENCIL_DESCRIPTOR_CAPACITY as nat,
                    allocated: 0,
                },
                free: Seq::empty(),
                generations: Seq::empty(),
            }),
            manager@.render_target == (PoolView {
                heap: DescriptorHeapView {
                    kind: DescriptorType::RenderTargetView,
                    shader_visible: false,
                    layout: render_target_layout,
                    capacity: RENDER_TARGET_DESCRIPTOR_CAPACITY as nat,
                    allocated: 0,
                },
                free: Seq::empty(),
                generations: Seq::empty(),
            }),
    {
        DescriptorManager {
            resource: Pool::new(
                DescriptorHeap::shader_resource_view_heap(
                    RESOURCE_DESCRIPTOR_CAPACITY,
                    resource_layout,
                ),
            ),
            depth_stencil: Pool::new(
                DescriptorHeap::depth_stencil_view_heap(
                    DEPTH_STENCIL_DESCRIPTOR_CAPACITY,
                    depth_stencil_layout,
                ),
            ),
            render_target: Pool::new(
                DescriptorHeap::render_target_view_heap(
                    RENDER_TARGET_DESCRIPTOR_CAPACITY,
                    render_target_layout,
                ),
            ),
        }
    }

    /// Hands out a descriptor of the given kind: the slot of that kind released last,
    /// or else a fresh slot of the heap. Fails with `InvalidHandle` for the kind
    /// `Unset`, and with `ResourceExhausted` when nothing was released and the heap is
    /// used up.
    pub fn allocate(&mut self, descriptor_type: DescriptorType) -> (result: Result<
        Descriptor,
        GpuError,
    >)
        ensures
            old(self)@.wf(),
            final(self)@.wf(),
            match result {
                Ok(descriptor) => {
                    &&& descriptor_type != DescriptorType::Unset
                    &&& old(self)@.pool(descriptor_type).can_allocate()
                    &&& descriptor == old(self)@.next(descriptor_type)
                    &&& final(self)@ == old(self)@.allocated(descriptor_type)
                    &&& final(self)@.live(descriptor)
                },
                Err(e) => {
                    &&& final(self)@ == old(self)@
                    &&& e == if descriptor_type == DescriptorType::Unset {
                        GpuError::InvalidHandle
                    } else {
                        GpuError::ResourceExhausted
                    }
                    &&& descriptor_type != DescriptorType::Unset ==> !old(self)@.pool(
                        descriptor_type,
                    ).can_allocate()
                },
            },
    {
        proof {
            use_type_invariant(&*self);
            if descriptor_type != DescriptorType::Unset && self@.pool(
                descriptor_type,
            ).can_allocate() {
                lemma_allocate_never_reissues(self@.pool(descriptor_type));
            }
        }
        let taken = match descriptor_type {
            DescriptorType::Unset => {
                return Err(GpuError::InvalidHandle);
            },
            DescriptorType::Resource => self.resource.allocate(),
            DescriptorType::DepthStencilView => self.depth_stencil.allocate(),
            DescriptorType::RenderTargetView => self.render_target.allocate(),
        };
        match taken {
            Ok((index, generation)) => Ok(Descriptor { tag: descriptor_type, index, generation }),
            Err(e) => Err(e),
        }
    }

    /// Releases a descriptor: its slot is the next one handed out for its kind. The
    /// heap keeps the slot. A descriptor that does not hold its slot, because it was
    /// released before or never handed out, changes nothing; neither does one of kind
    /// `Unset`.
    pub fn free(&mut self, descriptor: Descriptor)
        ensures
            old(self)@.wf(),
            final(self)@.wf(),
            final(self)@ == old(self)@.released(descriptor),
            !final(self)@.live(descriptor),
    {
        proof {
            use_type_invariant(&*self);
            if descriptor.tag() != DescriptorType::Unset {
                lemma_release_keeps_pool(
                    self@.pool(descriptor.tag()),
                    descriptor.index(),
                    descriptor.generation(),
                );
            }
        }
        match descriptor.tag {
            DescriptorType::Unset => (),
            DescriptorType::Resource => self.resource.release(
                descriptor.index,
                descriptor.generation,
            ),
            DescriptorType::DepthStencilView => self.depth_stencil.release(
                descriptor.index,
                descriptor.generation,
            ),
            DescriptorType::RenderTargetView => self.render_target.release(
                descriptor.index,
                descriptor.generation,
            ),
        };
    }

    /// Whether `descriptor` holds its slot.
    pub fn is_live(&self, descriptor: &Descriptor) -> (live: bool)
        ensures
            self@.wf(),
            live == self@.live(*descriptor),
    {
        proof {
            use_type_invariant(self);
        }
        match descriptor.tag {
            DescriptorType::Unset => false,
            DescriptorType::Resource => self.resource.holds(
                descriptor.index,
                descriptor.generation,
            ),
            DescriptorType::DepthStencilView => self.depth_stencil.holds(
                descriptor.index,
                descriptor.generation,
            ),
            DescriptorType::RenderTargetView => self.render_target.holds(
                descriptor.index,
                descriptor.generation,
            ),
        }
    }

    /// CPU address of the slot of `descriptor`. Fails with `InvalidHandle` for a
    /// descriptor that does not hold its slot: one of kind `Unset`, one that was
    /// released, or one that was never handed out.
    pub fn get_cpu_handle(&self, descriptor: &Descriptor) -> (result: Result<
        CpuDescriptorHandle,
        GpuError,
    >)
        ensures
            match result {
                Ok(handle) => {
                    &&& self@.live(*descriptor)
                    &&& handle.ptr == self@.pool(descriptor.tag()).heap.cpu_address(
                        descriptor.index() as int,
                    )
                },
                Err(e) => !self@.live(*descriptor) && e == GpuError::InvalidHandle,
            },
    {
        if !self.is_live(descriptor) {
            return Err(GpuError::InvalidHandle);
        }
        match descriptor.tag {
            DescriptorType::Unset => Err(GpuError::InvalidHandle),
            DescriptorType::Resource => self.resource.heap.get_cpu_handle(descriptor.index),
            DescriptorType::DepthStencilView => self.depth_stencil.heap.get_cpu_handle(
                descriptor.index,
            ),
            DescriptorType::RenderTargetView => self.render_target.heap.get_cpu_handle(
                descriptor.index,
            ),
        }
    }

    /// GPU address of the slot of `descriptor`. Fails with `InvalidHandle` for a
    /// descriptor that does not hold its slot: one of kind `Unset`, one that was
    /// released, or one that was never handed out.
    pub fn get_gpu_handle(&self, descriptor: &Descriptor) -> (result: Result<
        GpuDescriptorHandle,
        GpuError,
    >)
        ensures
            match result {
                Ok(handle) => {
                    &&& self@.live(*descriptor)
                    &&& handle.ptr == self@.pool(descriptor.tag()).heap.gpu_address(
                        descriptor.index() as int,
                    )
                },
                Err(e) => !self@.live(*descriptor) && e == GpuError::InvalidHandle,
            },
    {
        if !self.is_live(descriptor) {
            return Err(GpuError::InvalidHandle);
        }
        match descriptor.tag {
            DescriptorType::Unset => Err(GpuError::InvalidHandle),
            DescriptorType::Resource => self.resource.heap.get_gpu_handle(descriptor.index),
            DescriptorType::DepthStencilView => self.depth_stencil.heap.get_gpu_handle(
                descriptor.index,
            ),
            DescriptorType::RenderTargetView => self.render_target.heap.get_gpu_handle(
                descriptor.index,
            ),
        }
    }

    /// The heap that holds the views of the given kind. Fails with `InvalidHandle` for
    /// the kind `Unset`.
    pub fn get_heap(&self, descriptor_type: DescriptorType) -> (result: Result<
        &DescriptorHeap,
        GpuError,
    >)
        ensures
            match result {
                Ok(heap) => descriptor_type != DescriptorType::Unset && heap@ == self@.pool(
                    descriptor_type,
                ).heap,
                Err(e) => descriptor_type == DescriptorType::Unset && e
                    == GpuError::InvalidHandle,
            },
    {
        match descriptor_type {
            DescriptorType::Unset => Err(GpuError::InvalidHandle),
            DescriptorType::Resource => Ok(&self.resource.heap),
            DescriptorType::DepthStencilView => Ok(&self.depth_stencil.heap),
            DescriptorType::RenderTargetView => Ok(&self.render_target.heap),
        }
    }
}

/// A slot that a handle holds is never handed out again: the pool stays well formed,
/// the handle that is handed out holds its slot afterwards and no handle held that
/// slot before, and every other handle holds its slot afterwards exactly if it did
/// before. In particular a handle that was released stays released when its slot is
/// handed out again.
pub proof fn lemma_allocate_never_reissues(pool: PoolView)
    requires
        pool.wf(),
        pool.can_allocate(),
    ensures
        pool.allocated().wf(),
        0 <= pool.next_index() < pool.heap.capacity,
        0 <= pool.next_generation() < u64::MAX,
        pool.next_generation() % 2 == 0,
        pool.allocated().live(pool.next_index() as u32, pool.next_generation() as u64),
        forall|generation: u64| !(#[trigger] pool.live(pool.next_index() as u32, generation)),
        forall|index: u32, generation: u64|
            index != pool.next_index() || generation != pool.next_generation() ==> (
            #[trigger] pool.allocated().live(index, generation) <==> pool.live(index, generation)),
{
    let after = pool.allocated();
    if pool.free.len() > 0 {
        let last = pool.free.len() - 1;
        let index = pool.free[last];
        assert(pool.free.contains(index));
        assert(after.free =~= pool.free.subrange(0, last));
        assert forall|i: int| 0 <= i < after.free.len() implies (#[trigger] after.free[i]) != index by {
            assert(pool.free[i] == after.free[i]);
        }
        assert forall|slot: int|
            0 <= slot < after.generations.len() && (#[trigger] after.generations[slot]) % 2 == 1
                && after.generations[slot] < u64::MAX implies after.free.contains(
            slot as u32,
        ) by {
            assert(slot != index);
            assert(pool.generations[slot] == after.generations[slot]);
            assert(pool.free.contains(slot as u32));
            let k = choose|k: int| 0 <= k < pool.free.len() && pool.free[k] == slot as u32;
            assert(after.free[k] == slot as u32);
        }
        assert(after.wf());
    } else {
        assert(after.wf());
    }
}

/// Releasing keeps the pool well formed. The released handle no longer holds its slot,
/// every other handle is as before, and a handle that did not hold its slot changes
/// nothing.
pub proof fn lemma_release_keeps_pool(pool: PoolView, index: u32, generation: u64)
    requires
        pool.wf(),
    ensures
        pool.released(index, generation).wf(),
        !pool.released(index, generation).live(index, generation),
        !pool.live(index, generation) ==> pool.released(index, generation) == pool,
        forall|other: u32, other_generation: u64|
            other != index ==> (#[trigger] pool.released(index, generation).live(
                other,
                other_generation,
            ) <==> pool.live(other, other_generation)),
{
    let after = pool.released(index, generation);
    if pool.live(index, generation) {
        assert(!pool.free.contains(index)) by {
            if pool.free.contains(index) {
                let k = choose|k: int| 0 <= k < pool.free.len() && pool.free[k] == index;
                assert(pool.generations[pool.free[k] as int] % 2 == 1);
            }
        }
        if generation + 1 < u64::MAX {
            assert(after.free[pool.free.len() as int] == index);
            assert forall|slot: int|
                0 <= slot < after.generations.len() && (#[trigger] after.generations[slot]) % 2
                    == 1 && after.generations[slot] < u64::MAX implies after.free.contains(
                slot as u32,
            ) by {
                if slot != index {
                    assert(pool.generations[slot] == after.generations[slot]);
                    let k = choose|k: int| 0 <= k < pool.free.len() && pool.free[k] == slot as u32;
                    assert(after.free[k] == slot as u32);
                }
            }
        }
        assert(after.wf());
    }
}

/// A released slot is the next one handed out, in a new generation: the handle that
/// gets it holds it, and the handle that was released does not.
pub proof fn lemma_release_then_allocate(pool: PoolView, index: u32, generation: u64)
    requires
        pool.wf(),
        pool.live(index, generation),
        generation + 2 < u64::MAX,
    ensures
        pool.released(index, generation).can_allocate(),
        pool.released(index, generation).next_index() == index,
        pool.released(index, generation).next_generation() == generation + 2,
        pool.released(index, generation).allocated().live(index, (generation + 2) as u64),
        !pool.released(index, generation).allocated().live(index, generation),
        pool.released(index, generation).allocated().free =~= pool.free,
        pool.released(index, generation).allocated().heap == pool.heap,
{
    let after = pool.released(index, generation);
    assert(after.free.last() == index);
    assert(after.free.drop_last() =~= pool.free);
}

/// A heap is used no further than the number of handles that were alive at once:
/// handing out a slot takes a fresh one from the heap only when no released slot waits.
pub proof fn lemma_fresh_slot_only_when_none_released(pool: PoolView)
    requires
        pool.can_allocate(),
    ensures
        pool.free.len() > 0 ==> pool.allocated().heap == pool.heap,
        pool.free.len() == 0 ==> pool.allocated().heap.allocated == pool.heap.allocated + 1,
{
}

/// Two different handles that hold their slots hold different slots: no slot is held
/// twice.
pub proof fn lemma_live_handles_hold_distinct_slots(
    pool: PoolView,
    index: u32,
    generation: u64,
    other_index: u32,
    other_generation: u64,
)
    requires
        pool.live(index, generation),
        pool.live(other_index, other_generation),
        index != other_index || generation != other_generation,
    ensures
        index != other_index,
{
}

/// One call on a pool.
pub enum PoolStep {
    /// The next slot is handed out, if one can be.
    Allocate,
    /// A handle is released.
    Free { index: u32, generation: u64 },
}

impl PoolView {
    /// The pool after one call.
    pub open spec fn step(self, step: PoolStep) -> PoolView {
        match step {
            PoolStep::Allocate => if self.can_allocate() {
                self.allocated()
            } else {
                self
            },
            PoolStep::Free { index, generation } => self.released(index, generation),
        }
    }

    /// The pool after a sequence of calls.
    pub open spec fn run(self, steps: Seq<PoolStep>) -> PoolView
        decreases steps.len(),
    {
        if steps.len() == 0 {
            self
        } else {
            self.step(steps[0]).run(steps.drop_first())
        }
    }
}

/// Whatever is handed out and released, in whatever order, and whatever handles are
/// released, held or not: the pool stays well formed, so a slot is handed out only
/// while no handle holds it.
pub proof fn lemma_any_order_keeps_pool(pool: PoolView, steps: Seq<PoolStep>)
    requires
        pool.wf(),
    ensures
        pool.run(steps).wf(),
        pool.run(steps).heap.capacity == pool.heap.capacity,
        pool.heap.allocated <= pool.run(steps).heap.allocated,
    decreases steps.len(),
{
    if steps.len() > 0 {
        match steps[0] {
            PoolStep::Allocate => {
                if pool.can_allocate() {
                    lemma_allocate_never_reissues(pool);
                }
            },
            PoolStep::Free { index, generation } => {
                lemma_release_keeps_pool(pool, index, generation);
            },
        }
        lemma_any_order_keeps_pool(pool.step(steps[0]), steps.drop_first());
    }
}

} // verus!
