//! Vertex and index buffers of meshes, named by handles.
//!
//! The manager keeps the size of each buffer it was given; the buffers themselves stay
//! with whoever talks to the device, at the same positions.

use crate::error::GpuError;
use crate::heap::{Heap, HeapType, HeapView};
use crate::resource::{Resource, ResourceView};
use vstd::prelude::*;

verus! {

/// The size of the heap for mesh buffers: twenty million bytes.
pub const DEFAULT_MESH_HEAP_SIZE: usize = 20_000_000;

/// The device API's number of the format of 32-bit indices.
pub const INDEX_FORMAT_R32_UINT: u32 = 42;

/// How the device reads a vertex buffer.
#[derive(Clone, Copy, Debug, PartialEq, Eq, Structural)]
pub struct VertexBufferView {
    pub buffer_location: u64,
    pub size_in_bytes: u32,
    pub stride_in_bytes: u32,
}

/// How the device reads an index buffer.
#[derive(Clone, Copy, Debug, PartialEq, Eq, Structural)]
pub struct IndexBufferView {
    pub buffer_location: u64,
    pub size_in_bytes: u32,
    pub format: u32,
}

/// Names the two buffers of a mesh by their positions in the manager's lists.
#[derive(Clone, Copy, Debug, Default, PartialEq, Eq)]
pub struct MeshHandle {
    /// The position of the vertex buffer.
    pub vb_index: usize,
    /// The position of the index buffer.
    pub ib_index: usize,
    pub num_vertices: usize,
    pub vbv: Option<VertexBufferView>,
    pub ibv: Option<IndexBufferView>,
}

/// The two buffers of a mesh that is there: their positions and their sizes.
#[derive(Clone, Copy, Debug, PartialEq, Eq, Structural)]
pub struct MeshBuffers {
    pub vb_index: usize,
    pub ib_index: usize,
    pub vertex_buffer_size: usize,
    pub index_buffer_size: usize,
}

/// The lists of a mesh manager.
pub struct MeshManagerView {
    pub heap: HeapView,
    /// The sizes of the vertex buffers, in the order they were added.
    pub vertex_buffers: Seq<usize>,
    /// The sizes of the index buffers, in the order they were added.
    pub index_buffers: Seq<usize>,
}

/// The vertex and index buffers of meshes, with the heap they are placed in.
pub struct MeshManager {
    heap: Heap,
    vertex_buffers: Vec<usize>,
    index_buffers: Vec<usize>,
}

impl View for MeshManager {
    type V = MeshManagerView;

    closed spec fn view(&self) -> MeshManagerView {
        MeshManagerView {
            heap: self.heap@,
            vertex_buffers: self.vertex_buffers@,
            index_buffers: self.index_buffers@,
        }
    }
}

impl MeshManager {
    /// A manager without meshes.
    pub fn new() -> (manager: MeshManager)
        ensures
            manager@ == (MeshManagerView {
                heap: HeapView {
                    size: DEFAULT_MESH_HEAP_SIZE as nat,
                    offset: 0,
                    heap_type: HeapType::Default,
                    alignment: crate::heap::DEFAULT_RESOURCE_PLACEMENT_ALIGNMENT,
                    name: "Mesh Manager Heap"@,
                    num_objects: 0,
                    placements: Seq::empty(),
                },
                vertex_buffers: Seq::empty(),
                index_buffers: Seq::empty(),
            }),
    {
        MeshManager {
            heap: Heap::create_default_heap(DEFAULT_MESH_HEAP_SIZE, "Mesh Manager Heap"),
            vertex_buffers: Vec::new(),
            index_buffers: Vec::new(),
        }
    }

    /// The heap the buffers are placed in.
    pub fn heap(&self) -> (heap: &Heap)
        ensures
            heap@ == self@.heap,
    {
        &self.heap
    }

    /// Places a buffer in the manager's heap; see `Heap::create_resource`.
    pub fn create_buffer(
        &mut self,
        desc: &crate::resource::ResourceDesc,
        info: crate::heap::AllocationInfo,
        mapped: bool,
    ) -> (result: Result<Resource, GpuError>)
        requires
            info.valid(),
            desc.byte_size() <= usize::MAX,
            old(self)@.heap.num_objects < usize::MAX,
        ensures
            final(self)@.vertex_buffers == old(self)@.vertex_buffers,
            final(self)@.index_buffers == old(self)@.index_buffers,
            match result {
                Ok(resource) => {
                    &&& old(self)@.heap.fits(info)
                    &&& final(self)@.heap == old(self)@.heap.placed(info)
                    &&& resource@ == (ResourceView {
                        size: desc.byte_size() as nat,
                        mapped,
                        placement: Some(old(self)@.heap.place(info)),
                    })
                },
                Err(e) => {
                    &&& !old(self)@.heap.fits(info)
                    &&& e == GpuError::ResourceExhausted
                    &&& final(self)@.heap == old(self)@.heap.refused()
                },
            },
    {
        self.heap.create_resource(desc, info, mapped)
    }

    /// Counts a buffer that was asked for and not placed; see `Heap::refuse`.
    pub fn refuse_buffer(&mut self)
        requires
            old(self)@.heap.num_objects < usize::MAX,
        ensures
            final(self)@ == (MeshManagerView { heap: old(self)@.heap.refused(), ..old(self)@ }),
    {
        self.heap.refuse();
    }

    /// Adds a mesh. The addresses are those the device reports for the two buffers.
    /// The views give the buffers' sizes as 32-bit numbers.
    pub fn add(
        &mut self,
        vertex_buffer: &Resource,
        index_buffer: &Resource,
        vertex_buffer_stride: u32,
        num_vertices: usize,
        vertex_buffer_address: u64,
        index_buffer_address: u64,
    ) -> (handle: MeshHandle)
        ensures
            final(self)@ == (MeshManagerView {
                vertex_buffers: old(self)@.vertex_buffers.push(vertex_buffer@.size as usize),
                index_buffers: old(self)@.index_buffers.push(index_buffer@.size as usize),
                ..old(self)@
            }),
            handle == (MeshHandle {
                vb_index: old(self)@.vertex_buffers.len() as usize,
                ib_index: old(self)@.index_buffers.len() as usize,
                num_vertices,
                vbv: Some(
                    VertexBufferView {
                        buffer_location: vertex_buffer_address,
                        stride_in_bytes: vertex_buffer_stride,
                        size_in_bytes: vertex_buffer@.size as u32,
                    },
                ),
                ibv: Some(
                    IndexBufferView {
                        buffer_location: index_buffer_address,
                        size_in_bytes: index_buffer@.size as u32,
                        format: INDEX_FORMAT_R32_UINT,
                    },
                ),
            }),
    {
        let vertex_buffer_size = vertex_buffer.size();
        let index_buffer_size = index_buffer.size();
        let vb_index = self.vertex_buffers.len();
        let ib_index = self.index_buffers.len();
        self.vertex_buffers.push(vertex_buffer_size);
        self.index_buffers.push(index_buffer_size);

        MeshHandle {
            vb_index,
            ib_index,
            num_vertices,
            vbv: Some(
                VertexBufferView {
                    buffer_location: vertex_buffer_address,
                    stride_in_bytes: vertex_buffer_stride,
                    size_in_bytes: #[verifier::truncate]
                    (vertex_buffer_size as u32),
                },
            ),
            ibv: Some(
                IndexBufferView {
                    buffer_location: index_buffer_address,
                    size_in_bytes: #[verifier::truncate]
                    (index_buffer_size as u32),
                    format: INDEX_FORMAT_R32_UINT,
                },
            ),
        }
    }

    /// The positions and sizes of the two buffers of a mesh. Fails with
    /// `InvalidHandle` if the handle names a buffer that is not there.
    pub fn get_buffers(&self, handle: &MeshHandle) -> (result: Result<MeshBuffers, GpuError>)
        ensures
            match result {
                Ok(buffers) => {
                    &&& handle.vb_index < self@.vertex_buffers.len()
                    &&& handle.ib_index < self@.index_buffers.len()
                    &&& buffers == (MeshBuffers {
                        vb_index: handle.vb_index,
                        ib_index: handle.ib_index,
                        vertex_buffer_size: self@.vertex_buffers[handle.vb_index as int],
                        index_buffer_size: self@.index_buffers[handle.ib_index as int],
                    })
                },
                Err(e) => {
                    &&& e == GpuError::InvalidHandle
                    &&& handle.vb_index >= self@.vertex_buffers.len() || handle.ib_index
                        >= self@.index_buffers.len()
                },
            },
    {
        if handle.vb_index >= self.vertex_buffers.len() {
            return Err(GpuError::InvalidHandle);
        }
        if handle.ib_index >= self.index_buffers.len() {
            return Err(GpuError::InvalidHandle);
        }
        Ok(
            MeshBuffers {
                vb_index: handle.vb_index,
                ib_index: handle.ib_index,
                vertex_buffer_size: self.vertex_buffers[handle.vb_index],
                index_buffer_size: self.index_buffers[handle.ib_index],
            },
        )
    }
}

} // verus!
