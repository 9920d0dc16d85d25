//! A fixed-capacity bump allocator of descriptor slots of one kind.

use crate::descriptor_manager::DescriptorType;
use crate::error::GpuError;
use vstd::prelude::*;

verus! {

/// Where the device put a descriptor heap, and how far apart its slots lie.
#[derive(Clone, Copy, Debug, PartialEq, Eq, Structural)]
pub struct DescriptorHeapLayout {
    /// Bytes between two neighbouring descriptors.
    pub descriptor_size: u32,
    /// CPU address of the first descriptor.
    pub cpu_start: usize,
    /// GPU address of the first descriptor.
    pub gpu_start: u64,
}

impl DescriptorHeapLayout {
    /// Whether `num_descriptors` slots of this layout lie inside both address spaces.
    pub open spec fn holds(self, num_descriptors: u32) -> bool {
        &&& self.cpu_start + num_descriptors * self.descriptor_size <= usize::MAX
        &&& self.gpu_start + num_descriptors * self.descriptor_size <= u64::MAX
    }

    /// Tells whether `num_descriptors` slots of this layout lie inside both address
    /// spaces.
    pub fn can_hold(&self, num_descriptors: u32) -> (fits: bool)
        ensures
            fits == self.holds(num_descriptors),
    {
        assert(num_descriptors * self.descriptor_size <= 0xffff_ffff * 0xffff_ffff)
            by (nonlinear_arith)
            requires
                0 <= num_descriptors <= 0xffff_ffff,
                0 <= self.descriptor_size <= 0xffff_ffff,
        ;
        let span: u64 = num_descriptors as u64 * self.descriptor_size as u64;
        span <= u64::MAX - self.gpu_start && span <= (usize::MAX - self.cpu_start) as u64
    }
}

/// CPU address of a descriptor.
#[derive(Clone, Copy, Debug, PartialEq, Eq, Structural)]
pub struct CpuDescriptorHandle {
    pub ptr: usize,
}

/// GPU address of a descriptor.
#[derive(Clone, Copy, Debug, PartialEq, Eq, Structural)]
pub struct GpuDescriptorHandle {
    pub ptr: u64,
}

/// A descriptor heap as numbers.
pub struct DescriptorHeapView {
    pub kind: DescriptorType,
    pub shader_visible: bool,
    pub layout: DescriptorHeapLayout,
    /// How many slots the heap has.
    pub capacity: nat,
    /// How many slots were handed out; they are the indices below this number.
    pub allocated: nat,
}

impl DescriptorHeapView {
    /// CPU address of slot `index`.
    pub open spec fn cpu_address(self, index: int) -> int {
        self.layout.cpu_start + index * self.layout.descriptor_size
    }

    /// GPU address of slot `index`.
    pub open spec fn gpu_address(self, index: int) -> int {
        self.layout.gpu_start + index * self.layout.descriptor_size
    }

    /// The heap after one more slot was handed out.
    pub open spec fn bumped(self) -> Self {
        DescriptorHeapView { allocated: self.allocated + 1, ..self }
    }

    /// The invariant of a heap.
    pub open spec fn wf(self) -> bool {
        &&& self.kind != DescriptorType::Unset
        &&& self.shader_visible == self.kind.shader_visible()
        &&& self.allocated <= self.capacity <= u32::MAX
        &&& self.layout.holds(self.capacity as u32)
    }
}

/// The addresses of all slots of a heap lie inside the address spaces.
pub proof fn lemma_slot_addresses_fit(heap: DescriptorHeapView, index: int)
    requires
        heap.wf(),
        0 <= index <= heap.capacity,
    ensures
        0 <= index * heap.layout.descriptor_size <= heap.capacity * heap.layout.descriptor_size,
        heap.layout.cpu_start <= heap.cpu_address(index) <= usize::MAX,
        heap.layout.gpu_start <= heap.gpu_address(index) <= u64::MAX,
{
    let stride = heap.layout.descriptor_size as int;
    let capacity = heap.capacity as int;
    assert(0 <= index * stride <= capacity * stride) by (nonlinear_arith)
        requires
            0 <= index <= capacity,
            0 <= stride,
    ;
}

/// Two different slots of a heap have different addresses, unless descriptors have no
/// size.
pub proof fn lemma_slot_addresses_differ(heap: DescriptorHeapView, i: int, j: int)
    requires
        heap.layout.descriptor_size > 0,
        0 <= i < j,
    ensures
        heap.cpu_address(i) < heap.cpu_address(j),
        heap.gpu_address(i) < heap.gpu_address(j),
{
    let stride = heap.layout.descriptor_size as int;
    assert(i * stride < j * stride) by (nonlinear_arith)
        requires
            0 <= i < j,
            0 < stride,
    ;
}

/// A fixed-capacity bump allocator of descriptor slots of one kind.
#[derive(Debug)]
pub struct DescriptorHeap {
    kind: DescriptorType,
    shader_visible: bool,
    layout: DescriptorHeapLayout,
    num_descriptors: u32,
    num_allocated: u32,
}

impl View for DescriptorHeap {
    type V = DescriptorHeapView;

    closed spec fn view(&self) -> DescriptorHeapView {
        DescriptorHeapView {
            kind: self.kind,
            shader_visible: self.shader_visible,
            layout: self.layout,
            capacity: self.num_descriptors as nat,
            allocated: self.num_allocated as nat,
        }
    }
}

impl DescriptorHeap {
    /// Holds of every heap that exists.
    #[verifier::type_invariant]
    pub open spec fn inv(self) -> bool {
        self@.wf()
    }

    fn create_heap(kind: DescriptorType, num_descriptors: u32, layout: DescriptorHeapLayout) -> (heap:
        DescriptorHeap)
        requires
            kind != DescriptorType::Unset,
            layout.holds(num_descriptors),
        ensures
            heap@ == (DescriptorHeapView {
                kind,
                shader_visible: kind.shader_visible(),
                layout,
                capacity: num_descriptors as nat,
                allocated: 0,
            }),
    {
        DescriptorHeap {
            kind,
            shader_visible: kind.shader_visible(),
            layout,
            num_descriptors,
            num_allocated: 0,
        }
    }

    /// An empty heap for resource views (constant buffers, shader resources, unordered
    /// access); shaders can see it.
    pub fn shader_resource_view_heap(num_descriptors: u32, layout: DescriptorHeapLayout) -> (heap:
        DescriptorHeap)
        requires
            layout.holds(num_descriptors),
        ensures
            heap@ == (DescriptorHeapView {
                kind: DescriptorType::Resource,
                shader_visible: true,
                layout,
                capacity: num_descriptors as nat,
                allocated: 0,
            }),
    {
        Self::create_heap(DescriptorType::Resource, num_descriptors, layout)
    }

    /// An empty heap for render-target views; shaders cannot see it.
    pub fn render_target_view_heap(num_descriptors: u32, layout: DescriptorHeapLayout) -> (heap:
        DescriptorHeap)
        requires
            layout.holds(num_descriptors),
        ensures
            heap@ == (DescriptorHeapView {
                kind: DescriptorType::RenderTargetView,
                shader_visible: false,
                layout,
                capacity: num_descriptors as nat,
                allocated: 0,
            }),
    {
        Self::create_heap(DescriptorType::RenderTargetView, num_descriptors, layout)
    }

    /// An empty heap for depth-stencil views; shaders cannot see it.
    pub fn depth_stencil_view_heap(num_descriptors: u32, layout: DescriptorHeapLayout) -> (heap:
        DescriptorHeap)
        requires
            layout.holds(num_descriptors),
        ensures
            heap@ == (DescriptorHeapView {
                kind: DescriptorType::DepthStencilView,
                shader_visible: false,
                layout,
                capacity: num_descriptors as nat,
                allocated: 0,
            }),
    {
        Self::create_heap(DescriptorType::DepthStencilView, num_descriptors, layout)
    }

    /// The kind of view this heap holds.
    pub fn kind(&self) -> (kind: DescriptorType)
        ensures
            kind == self@.kind,
            kind != DescriptorType::Unset,
    {
        proof {
            use_type_invariant(self);
        }
        self.kind
    }

    /// Whether shaders can see the heap.
    pub fn is_shader_visible(&self) -> (visible: bool)
        ensures
            visible == self@.shader_visible,
    {
        self.shader_visible
    }

    /// How many slots the heap has.
    pub fn num_descriptors(&self) -> (n: u32)
        ensures
            n == self@.capacity,
        no_unwind
    {
        self.num_descriptors
    }

    /// How many slots were handed out.
    pub fn num_allocated(&self) -> (n: u32)
        ensures
            n == self@.allocated,
            n <= self@.capacity,
        no_unwind
    {
        proof {
            use_type_invariant(self);
        }
        self.num_allocated
    }

    /// Hands out the next slot: its index and CPU address. Fails once every slot was
    /// handed out; slots never come back to the heap.
    pub fn allocate_handle(&mut self) -> (result: Result<(u32, CpuDescriptorHandle), GpuError>)
        ensures
            match result {
                Ok((index, handle)) => {
                    &&& old(self)@.allocated < old(self)@.capacity
                    &&& index == old(self)@.allocated
                    &&& handle.ptr == old(self)@.cpu_address(index as int)
                    &&& final(self)@ == old(self)@.bumped()
                },
                Err(e) => {
                    &&& old(self)@.allocated >= old(self)@.capacity
                    &&& e == GpuError::ResourceExhausted
                    &&& final(self)@ == old(self)@
                },
            },
        no_unwind
    {
        proof {
            use_type_invariant(&*self);
        }
        if self.num_allocated >= self.num_descriptors {
            return Err(GpuError::ResourceExhausted);
        }
        let index = self.num_allocated;
        proof {
            lemma_slot_addresses_fit(self@, index as int);
        }
        let handle = CpuDescriptorHandle {
            ptr: self.layout.cpu_start + index as usize * self.layout.descriptor_size as usize,
        };
        self.num_allocated = self.num_allocated + 1;
        Ok((index, handle))
    }

    /// CPU address of a slot that was handed out.
    pub fn get_cpu_handle(&self, index: u32) -> (result: Result<CpuDescriptorHandle, GpuError>)
        ensures
            match result {
                Ok(handle) => index < self@.allocated && handle.ptr == self@.cpu_address(
                    index as int,
                ),
                Err(e) => index >= self@.allocated && e == GpuError::InvalidHandle,
            },
    {
        proof {
            use_type_invariant(self);
        }
        if index >= self.num_allocated {
            return Err(GpuError::InvalidHandle);
        }
        proof {
            lemma_slot_addresses_fit(self@, index as int);
        }
        Ok(
            CpuDescriptorHandle {
                ptr: self.layout.cpu_start + index as usize * self.layout.descriptor_size as usize,
            },
        )
    }

    /// GPU address of a slot that was handed out.
    pub fn get_gpu_handle(&self, index: u32) -> (result: Result<GpuDescriptorHandle, GpuError>)
        ensures
            match result {
                Ok(handle) => index < self@.allocated && handle.ptr == self@.gpu_address(
                    index as int,
                ),
                Err(e) => index >= self@.allocated && e == GpuError::InvalidHandle,
            },
    {
        proof {
            use_type_invariant(self);
        }
        if index >= self.num_allocated {
            return Err(GpuError::InvalidHandle);
        }
        proof {
            lemma_slot_addresses_fit(self@, index as int);
        }
        Ok(
            GpuDescriptorHandle {
                ptr: self.layout.gpu_start + index as u64 * self.layout.descriptor_size as u64,
            },
        )
    }
}

} // verus!
