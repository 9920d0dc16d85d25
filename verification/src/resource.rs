//! Byte-range bookkeeping of GPU resources and of views into them.
//!
//! A `Resource` stands for one allocation; a `SubResource` borrows a byte range of it.
//! Copies are planned here and carried out by whoever holds the mapped pointer or
//! records the command list.

use crate::error::GpuError;
use vstd::prelude::*;

verus! {

/// How a resource's memory is addressed.
#[derive(Clone, Copy, Debug, PartialEq, Eq, Structural)]
pub enum ResourceDimension {
    Unknown,
    Buffer,
    Texture1D,
    Texture2D,
    Texture3D,
}

/// How texels are laid out in memory.
#[derive(Clone, Copy, Debug, PartialEq, Eq, Structural)]
pub enum TextureLayout {
    Unknown,
    RowMajor,
    UndefinedSwizzle64Kb,
    StandardSwizzle64Kb,
}

impl ResourceDimension {
    /// The device API's number for this dimension.
    pub open spec fn spec_code(&self) -> i32 {
        match *self {
            ResourceDimension::Unknown => 0i32,
            ResourceDimension::Buffer => 1i32,
            ResourceDimension::Texture1D => 2i32,
            ResourceDimension::Texture2D => 3i32,
            ResourceDimension::Texture3D => 4i32,
        }
    }

    /// The device API's number for this dimension.
    #[verifier::when_used_as_spec(spec_code)]
    pub fn code(&self) -> (code: i32)
        ensures
            code == self.spec_code(),
    {
        match self {
            ResourceDimension::Unknown => 0,
            ResourceDimension::Buffer => 1,
            ResourceDimension::Texture1D => 2,
            ResourceDimension::Texture2D => 3,
            ResourceDimension::Texture3D => 4,
        }
    }

    /// The dimension with the given number; `Unknown` for a number that names none.
    pub fn from_code(code: i32) -> (dimension: ResourceDimension)
        ensures
            1 <= code <= 4 ==> dimension.code() == code,
            !(1 <= code <= 4) ==> dimension == ResourceDimension::Unknown,
    {
        match code {
            1 => ResourceDimension::Buffer,
            2 => ResourceDimension::Texture1D,
            3 => ResourceDimension::Texture2D,
            4 => ResourceDimension::Texture3D,
            _ => ResourceDimension::Unknown,
        }
    }
}

impl TextureLayout {
    /// The device API's number for this layout.
    pub open spec fn spec_code(&self) -> i32 {
        match *self {
            TextureLayout::Unknown => 0i32,
            TextureLayout::RowMajor => 1i32,
            TextureLayout::UndefinedSwizzle64Kb => 2i32,
            TextureLayout::StandardSwizzle64Kb => 3i32,
        }
    }

    /// The device API's number for this layout.
    #[verifier::when_used_as_spec(spec_code)]
    pub fn code(&self) -> (code: i32)
        ensures
            code == self.spec_code(),
    {
        match self {
            TextureLayout::Unknown => 0,
            TextureLayout::RowMajor => 1,
            TextureLayout::UndefinedSwizzle64Kb => 2,
            TextureLayout::StandardSwizzle64Kb => 3,
        }
    }

    /// The layout with the given number; `Unknown` for a number that names none.
    pub fn from_code(code: i32) -> (layout: TextureLayout)
        ensures
            1 <= code <= 3 ==> layout.code() == code,
            !(1 <= code <= 3) ==> layout == TextureLayout::Unknown,
    {
        match code {
            1 => TextureLayout::RowMajor,
            2 => TextureLayout::UndefinedSwizzle64Kb,
            3 => TextureLayout::StandardSwizzle64Kb,
            _ => TextureLayout::Unknown,
        }
    }
}

/// The description the device is given when it creates a resource.
#[derive(Clone, Copy, Debug, PartialEq, Eq, Structural)]
pub struct ResourceDesc {
    pub dimension: ResourceDimension,
    pub alignment: u64,
    pub width: u64,
    pub height: u32,
    pub depth_or_array_size: u16,
    pub mip_levels: u16,
    /// The device API's number of the texel format; 0 is "unknown".
    pub format: u32,
    pub sample_count: u32,
    pub sample_quality: u32,
    pub layout: TextureLayout,
    /// The device API's resource flags, as a bit mask.
    pub flags: u32,
}

impl ResourceDesc {
    /// The byte size this crate records for a resource of this description.
    pub open spec fn byte_size(self) -> int {
        self.width * self.height
    }

    /// Tells whether the byte size fits the address space.
    pub fn is_addressable(&self) -> (fits: bool)
        ensures
            fits == (self.byte_size() <= usize::MAX),
    {
        assert(self.width * self.height <= 0xffff_ffff_ffff_ffff * 0xffff_ffff)
            by (nonlinear_arith)
            requires
                0 <= self.width <= 0xffff_ffff_ffff_ffff,
                0 <= self.height <= 0xffff_ffff,
        ;
        self.width as u128 * self.height as u128 <= usize::MAX as u128
    }

    /// The description of a plain buffer of `size` bytes.
    pub open spec fn spec_buffer(size: u64) -> ResourceDesc {
        ResourceDesc {
            dimension: ResourceDimension::Buffer,
            alignment: 0,
            width: size,
            height: 1,
            depth_or_array_size: 1,
            mip_levels: 1,
            format: 0,
            sample_count: 1,
            sample_quality: 0,
            layout: TextureLayout::RowMajor,
            flags: 0,
        }
    }

    /// The description of a plain buffer of `size` bytes.
    pub fn buffer(size: u64) -> (desc: ResourceDesc)
        ensures
            desc == Self::spec_buffer(size),
            desc.byte_size() == size,
    {
        ResourceDesc {
            dimension: ResourceDimension::Buffer,
            alignment: 0,
            width: size,
            height: 1,
            depth_or_array_size: 1,
            mip_levels: 1,
            format: 0,
            sample_count: 1,
            sample_quality: 0,
            layout: TextureLayout::RowMajor,
            flags: 0,
        }
    }
}

/// Where a heap placed a resource.
#[derive(Clone, Copy, Debug, PartialEq, Eq, Structural)]
pub struct PlacedResource {
    /// Byte offset of the resource in its heap; a multiple of `alignment`.
    pub offset: usize,
    /// Bytes the device requires for the resource.
    pub size: usize,
    /// The alignment the device requires for the resource.
    pub alignment: usize,
    /// The resource's number among those of its heap, counted from 1.
    pub ordinal: usize,
}

impl PlacedResource {
    /// The first byte after the resource.
    pub open spec fn end(self) -> int {
        self.offset + self.size
    }

    /// Whether two placements share no byte.
    pub open spec fn disjoint(self, other: PlacedResource) -> bool {
        self.end() <= other.offset || other.end() <= self.offset
    }
}

/// A CPU copy into mapped memory: `size` bytes to byte `offset` of the mapping.
#[derive(Clone, Copy, Debug, PartialEq, Eq, Structural)]
pub struct MemoryCopy {
    pub offset: usize,
    pub size: usize,
}

/// A GPU copy between buffers: `num_bytes` bytes from byte `src_offset` of the source
/// to byte `dst_offset` of the destination.
#[derive(Clone, Copy, Debug, PartialEq, Eq, Structural)]
pub struct BufferCopy {
    pub dst_offset: u64,
    pub src_offset: u64,
    pub num_bytes: u64,
}

/// One GPU memory allocation.
#[derive(Debug)]
pub struct Resource {
    size: usize,
    mapped: bool,
    placement: Option<PlacedResource>,
}

/// A resource as numbers.
pub struct ResourceView {
    /// Bytes the resource holds.
    pub size: nat,
    /// Whether the resource has a persistent CPU mapping.
    pub mapped: bool,
    /// Where the resource lies in a heap; `None` for an allocation of its own.
    pub placement: Option<PlacedResource>,
}

impl View for Resource {
    type V = ResourceView;

    closed spec fn view(&self) -> ResourceView {
        ResourceView { size: self.size as nat, mapped: self.mapped, placement: self.placement }
    }
}

impl ResourceView {
    /// Whether `data_size` bytes can be copied to byte `offset` of a range of `size`
    /// bytes of this resource.
    pub open spec fn accepts_copy(self, size: int, offset: int, data_size: int) -> bool {
        self.mapped && offset + data_size <= size
    }
}

impl Resource {
    /// A resource with an allocation of its own, outside any heap.
    pub fn create_committed(desc: &ResourceDesc, mapped: bool) -> (resource: Resource)
        requires
            desc.byte_size() <= usize::MAX,
        ensures
            resource@ == (ResourceView {
                size: desc.byte_size() as nat,
                mapped,
                placement: None,
            }),
    {
        Resource { size: resource_size(desc), mapped, placement: None }
    }

    /// A resource at a place in a heap.
    pub(crate) fn placed(size: usize, mapped: bool, placement: PlacedResource) -> (resource:
        Resource)
        ensures
            resource@ == (ResourceView {
                size: size as nat,
                mapped,
                placement: Some(placement),
            }),
    {
        Resource { size, mapped, placement: Some(placement) }
    }

    /// Bytes the resource holds.
    pub fn size(&self) -> (size: usize)
        ensures
            size == self@.size,
    {
        self.size
    }

    /// Whether the resource has a persistent CPU mapping.
    pub fn is_mapped(&self) -> (mapped: bool)
        ensures
            mapped == self@.mapped,
    {
        self.mapped
    }

    /// Where the resource lies in a heap; `None` for an allocation of its own.
    pub fn placement(&self) -> (placement: Option<PlacedResource>)
        ensures
            placement == self@.placement,
    {
        self.placement
    }

    /// Plans a copy of `data_size` bytes to the start of the mapping. Fails with
    /// `PreconditionViolated` if the resource is not mapped or holds fewer bytes.
    pub fn copy_from(&self, data_size: usize) -> (result: Result<MemoryCopy, GpuError>)
        ensures
            match result {
                Ok(copy) => {
                    &&& self@.accepts_copy(self@.size as int, 0, data_size as int)
                    &&& copy == (MemoryCopy { offset: 0, size: data_size })
                },
                Err(e) => {
                    &&& !self@.accepts_copy(self@.size as int, 0, data_size as int)
                    &&& e == GpuError::PreconditionViolated
                },
            },
    {
        if !self.mapped {
            return Err(GpuError::PreconditionViolated);
        }
        if data_size > self.size {
            return Err(GpuError::PreconditionViolated);
        }
        Ok(MemoryCopy { offset: 0, size: data_size })
    }

    /// A view of `size` bytes from byte `offset`. Fails with `PreconditionViolated` if
    /// the range leaves the resource.
    pub fn create_sub_resource(&self, size: usize, offset: usize) -> (result: Result<
        SubResource<'_>,
        GpuError,
    >)
        ensures
            match result {
                Ok(sub) => {
                    &&& offset + size <= self@.size
                    &&& sub@ == (SubResourceView { resource: self@, size: size as nat, offset: offset as nat })
                },
                Err(e) => offset + size > self@.size && e == GpuError::PreconditionViolated,
            },
    {
        if offset > self.size || size > self.size - offset {
            return Err(GpuError::PreconditionViolated);
        }
        Ok(SubResource { resource: self, size, offset })
    }

    /// Ends the CPU mapping, once: tells whether the mapping has to be released now.
    /// It has to be released before the allocation itself is.
    pub fn unmap(&mut self) -> (release: bool)
        ensures
            release == old(self)@.mapped,
            final(self)@ == (ResourceView { mapped: false, ..old(self)@ }),
        no_unwind
    {
        let release = self.mapped;
        self.mapped = false;
        release
    }
}

/// The byte size this crate records for a resource of the given description.
fn resource_size(desc: &ResourceDesc) -> (size: usize)
    requires
        desc.byte_size() <= usize::MAX,
    ensures
        size == desc.byte_size(),
{
    assert(desc.width <= desc.width * desc.height || desc.height == 0) by (nonlinear_arith);
    if desc.height == 0 {
        0
    } else {
        desc.width as usize * desc.height as usize
    }
}

/// A byte range of a resource. It borrows the resource and owns nothing.
#[derive(Debug)]
pub struct SubResource<'resource> {
    resource: &'resource Resource,
    size: usize,
    offset: usize,
}

/// A sub-range as numbers.
pub struct SubResourceView {
    pub resource: ResourceView,
    pub size: nat,
    pub offset: nat,
}

impl SubResourceView {
    /// The range lies inside its resource.
    pub open spec fn wf(self) -> bool {
        self.offset + self.size <= self.resource.size
    }
}

impl<'resource> View for SubResource<'resource> {
    type V = SubResourceView;

    closed spec fn view(&self) -> SubResourceView {
        SubResourceView {
            resource: self.resource@,
            size: self.size as nat,
            offset: self.offset as nat,
        }
    }
}

impl<'resource> SubResource<'resource> {
    /// Holds of every sub-range that exists.
    #[verifier::type_invariant]
    pub open spec fn inv(self) -> bool {
        self@.wf()
    }

    /// The resource the range lies in.
    pub fn resource(&self) -> (resource: &'resource Resource)
        ensures
            resource@ == self@.resource,
    {
        self.resource
    }

    /// Bytes in the range.
    pub fn size(&self) -> (size: usize)
        ensures
            size == self@.size,
    {
        self.size
    }

    /// Byte offset of the range in its resource.
    pub fn offset(&self) -> (offset: usize)
        ensures
            offset == self@.offset,
            self@.wf(),
    {
        proof {
            use_type_invariant(self);
        }
        self.offset
    }

    /// Byte offset of the range in the resource's mapping; `None` if the resource is
    /// not mapped.
    pub fn get_mapped_data(&self) -> (start: Option<usize>)
        ensures
            start == if self@.resource.mapped {
                Some(self@.offset as usize)
            } else {
                None
            },
    {
        if !self.resource.is_mapped() {
            return None;
        }
        Some(self.offset)
    }

    /// Plans a copy of `data_size` bytes to the start of the range.
    pub fn copy_from(&self, data_size: usize) -> (result: Result<MemoryCopy, GpuError>)
        ensures
            match result {
                Ok(copy) => {
                    &&& self@.resource.accepts_copy(self@.size as int, 0, data_size as int)
                    &&& copy == (MemoryCopy { offset: self@.offset as usize, size: data_size })
                },
                Err(e) => {
                    &&& !self@.resource.accepts_copy(self@.size as int, 0, data_size as int)
                    &&& e == GpuError::PreconditionViolated
                },
            },
    {
        self.copy_to_offset_from(0, data_size)
    }

    /// Plans a copy of `data_size` bytes to byte `offset` of the range. Fails with
    /// `PreconditionViolated` if the resource is not mapped or the bytes do not fit
    /// between `offset` and the end of the range.
    pub fn copy_to_offset_from(&self, offset: usize, data_size: usize) -> (result: Result<
        MemoryCopy,
        GpuError,
    >)
        ensures
            match result {
                Ok(copy) => {
                    &&& self@.resource.accepts_copy(
                        self@.size as int,
                        offset as int,
                        data_size as int,
                    )
                    &&& copy == (MemoryCopy {
                        offset: (self@.offset + offset) as usize,
                        size: data_size,
                    })
                    &&& copy.offset + copy.size <= self@.offset + self@.size
                },
                Err(e) => {
                    &&& !self@.resource.accepts_copy(
                        self@.size as int,
                        offset as int,
                        data_size as int,
                    )
                    &&& e == GpuError::PreconditionViolated
                },
            },
    {
        proof {
            use_type_invariant(self);
        }
        if offset > self.size || data_size > self.size - offset {
            return Err(GpuError::PreconditionViolated);
        }
        match self.get_mapped_data() {
            Some(start) => Ok(MemoryCopy { offset: start + offset, size: data_size }),
            None => Err(GpuError::PreconditionViolated),
        }
    }

    /// Plans a GPU copy of the whole range to the start of `resource`. Fails with
    /// `PreconditionViolated` if `resource` holds fewer bytes than the range.
    pub fn copy_to_resource(&self, resource: &Resource) -> (result: Result<BufferCopy, GpuError>)
        ensures
            match result {
                Ok(copy) => {
                    &&& self@.size <= resource@.size
                    &&& copy == (BufferCopy {
                        dst_offset: 0,
                        src_offset: self@.offset as u64,
                        num_bytes: self@.size as u64,
                    })
                },
                Err(e) => self@.size > resource@.size && e == GpuError::PreconditionViolated,
            },
    {
        if self.size > resource.size() {
            return Err(GpuError::PreconditionViolated);
        }
        Ok(BufferCopy { dst_offset: 0, src_offset: self.offset as u64, num_bytes: self.size as u64 })
    }

    /// Plans a GPU copy of the whole range to the start of `sub_resource`. Fails with
    /// `PreconditionViolated` if `sub_resource` holds fewer bytes than the range.
    pub fn copy_to_sub_resource(&self, sub_resource: &SubResource) -> (result: Result<
        BufferCopy,
        GpuError,
    >)
        ensures
            match result {
                Ok(copy) => {
                    &&& self@.size <= sub_resource@.size
                    &&& copy == (BufferCopy {
                        dst_offset: sub_resource@.offset as u64,
                        src_offset: self@.offset as u64,
                        num_bytes: self@.size as u64,
                    })
                },
                Err(e) => self@.size > sub_resource@.size && e
                    == GpuError::PreconditionViolated,
            },
    {
        if self.size > sub_resource.size {
            return Err(GpuError::PreconditionViolated);
        }
        Ok(
            BufferCopy {
                dst_offset: sub_resource.offset as u64,
                src_offset: self.offset as u64,
                num_bytes: self.size as u64,
            },
        )
    }
}

} // verus!
