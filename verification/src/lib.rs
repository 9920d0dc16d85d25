//! Bookkeeping for GPU memory and queue synchronisation.
//!
//! The types here track fence values, descriptor slots, arena offsets and the
//! upload ring's byte ranges as plain numbers. Whoever owns the graphics device
//! performs the device calls and hands the library what the device reported.

pub mod align;
pub mod command_queue;
pub mod descriptor_heap;
pub mod descriptor_manager;
pub mod error;
pub mod heap;
pub mod mesh_manager;
pub mod resource;
pub mod texture_manager;
pub mod texture_upload;
pub mod upload_ring_buffer;

pub use align::align_data;
pub use command_queue::{CommandQueue, FenceWait, QueueKind};
pub use descriptor_heap::{
    CpuDescriptorHandle, DescriptorHeap, DescriptorHeapLayout, GpuDescriptorHandle,
};
pub use descriptor_manager::{Descriptor, DescriptorManager, DescriptorType};
pub use error::GpuError;
pub use heap::{AllocationInfo, Heap, HeapType};
pub use mesh_manager::{IndexBufferView, MeshBuffers, MeshHandle, MeshManager, VertexBufferView};
pub use resource::{
    BufferCopy, MemoryCopy, PlacedResource, Resource, ResourceDesc, ResourceDimension,
    SubResource, TextureLayout,
};
pub use texture_manager::{
    TextureDimension, TextureHandle, TextureInfo, TextureManager, TextureViews,
    ViewDimension,
};
pub use texture_upload::{plan_texture_upload, RowCopy, SubresourceFootprint};
pub use upload_ring_buffer::{
    Submission, SubmissionState, SubmittedUpload, Upload, UploadRingBuffer,
};
