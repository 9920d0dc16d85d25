//! Textures of one heap with the descriptors of their views.
//!
//! A texture gets a render-target view if it is a render target, a depth-stencil view
//! if it is a depth buffer, a shader-resource view if it is not, and an
//! unordered-access view if it asks for one. A handle names the texture and its views
//! by their positions in the manager's lists. The manager keeps what each texture is;
//! the resources themselves stay with whoever talks to the device, at the same
//! positions.

use crate::descriptor_manager::{
    Descriptor,
    DescriptorManager,
    DescriptorManagerView,
    DescriptorType,
};
use crate::error::GpuError;
use crate::heap::{AllocationInfo, Heap, HeapView};
use crate::resource::{
    Resource,
    ResourceDesc,
    ResourceDimension,
    ResourceView,
    TextureLayout,
};
use vstd::prelude::*;

verus! {

/// The size of a texture heap for which none was asked: a hundred frames of 3840 by
/// 2160 texels of four bytes.
pub const DEFAULT_TEXTURE_HEAP_SIZE: usize = 3_317_760_000;

/// The most subresources (array slices or depth times mip levels) a texture can have.
pub const MAX_NUM_SUBRESOURCES: usize = 32;

/// The device API's resource flag of a render target.
pub const RESOURCE_FLAG_ALLOW_RENDER_TARGET: u32 = 1;

/// The device API's resource flag of a depth buffer.
pub const RESOURCE_FLAG_ALLOW_DEPTH_STENCIL: u32 = 2;

/// The device API's resource flag of unordered access.
pub const RESOURCE_FLAG_ALLOW_UNORDERED_ACCESS: u32 = 4;

/// The extent of a texture: width, then height, then depth.
#[derive(Clone, Copy, Debug, PartialEq, Eq, Structural)]
pub enum TextureDimension {
    One(usize),
    Two(usize, u32),
    Three(usize, u32, u16),
}

/// What a view of a texture addresses.
#[derive(Clone, Copy, Debug, PartialEq, Eq, Structural)]
pub enum ViewDimension {
    Texture1D,
    Texture1DArray,
    Texture2D,
    Texture2DArray,
    Texture3D,
}

/// What a texture is.
#[derive(Clone, Copy, Debug, PartialEq, Eq, Structural)]
pub struct TextureInfo {
    pub dimension: TextureDimension,
    /// The device API's number of the texel format.
    pub format: u32,
    pub array_size: u16,
    pub num_mips: u16,
    pub is_render_target: bool,
    pub is_depth_buffer: bool,
    pub is_unordered_access: bool,
}

/// Which views a texture gets.
#[derive(Clone, Copy, Debug, PartialEq, Eq, Structural)]
pub struct TextureViews {
    pub render_target: bool,
    pub shader_resource: bool,
    pub unordered_access: bool,
    pub depth_stencil: bool,
}

impl TextureInfo {
    /// Width in texels.
    pub open spec fn width(self) -> int {
        match self.dimension {
            TextureDimension::One(width) => width as int,
            TextureDimension::Two(width, _) => width as int,
            TextureDimension::Three(width, _, _) => width as int,
        }
    }

    /// Height in texels; 1 for a texture of one dimension.
    pub open spec fn height(self) -> int {
        match self.dimension {
            TextureDimension::One(_) => 1,
            TextureDimension::Two(_, height) => height as int,
            TextureDimension::Three(_, height, _) => height as int,
        }
    }

    /// Depth of a texture of three dimensions, array slices of one of two, 1 of one of
    /// one.
    pub open spec fn depth(self) -> int {
        match self.dimension {
            TextureDimension::One(_) => 1,
            TextureDimension::Two(_, _) => self.array_size as int,
            TextureDimension::Three(_, _, depth) => depth as int,
        }
    }

    /// The resource dimension of the texture.
    pub open spec fn resource_dimension(self) -> ResourceDimension {
        match self.dimension {
            TextureDimension::One(_) => ResourceDimension::Texture1D,
            TextureDimension::Two(_, _) => ResourceDimension::Texture2D,
            TextureDimension::Three(_, _, _) => ResourceDimension::Texture3D,
        }
    }

    /// How many subresources the texture has.
    pub open spec fn num_subresources(self) -> int {
        self.depth() * self.num_mips
    }

    /// The resource flags the texture's uses ask for.
    pub open spec fn resource_flags(self) -> int {
        (if self.is_depth_buffer {
            RESOURCE_FLAG_ALLOW_DEPTH_STENCIL as int
        } else {
            0
        }) + (if self.is_render_target {
            RESOURCE_FLAG_ALLOW_RENDER_TARGET as int
        } else {
            0
        }) + (if self.is_unordered_access {
            RESOURCE_FLAG_ALLOW_UNORDERED_ACCESS as int
        } else {
            0
        })
    }

    /// The description of the texture's resource, with or without the flags of its
    /// uses.
    pub open spec fn spec_desc(self, with_flags: bool) -> ResourceDesc {
        ResourceDesc {
            dimension: self.resource_dimension(),
            alignment: 0,
            width: self.width() as u64,
            height: self.height() as u32,
            depth_or_array_size: self.depth() as u16,
            mip_levels: self.num_mips,
            format: self.format,
            sample_count: 1,
            sample_quality: 0,
            layout: TextureLayout::Unknown,
            flags: if with_flags {
                self.resource_flags() as u32
            } else {
                0
            },
        }
    }

    /// Which views the texture gets.
    pub open spec fn spec_views(self) -> TextureViews {
        TextureViews {
            render_target: self.is_render_target,
            shader_resource: !self.is_depth_buffer,
            unordered_access: self.is_unordered_access,
            depth_stencil: self.is_depth_buffer,
        }
    }

    /// What a view of the texture addresses: an array where the texture has more than
    /// one slice.
    pub open spec fn spec_view_dimension(self) -> ViewDimension {
        match self.dimension {
            TextureDimension::One(_) => if self.array_size > 1 {
                ViewDimension::Texture1DArray
            } else {
                ViewDimension::Texture1D
            },
            TextureDimension::Two(_, _) => if self.array_size > 1 {
                ViewDimension::Texture2DArray
            } else {
                ViewDimension::Texture2D
            },
            TextureDimension::Three(_, _, _) => ViewDimension::Texture3D,
        }
    }

    /// Which views the texture gets.
    pub fn views(&self) -> (views: TextureViews)
        ensures
            views == self.spec_views(),
    {
        TextureViews {
            render_target: self.is_render_target,
            shader_resource: !self.is_depth_buffer,
            unordered_access: self.is_unordered_access,
            depth_stencil: self.is_depth_buffer,
        }
    }

    /// What a render-target, shader-resource or unordered-access view of the texture
    /// addresses.
    pub fn view_dimension(&self) -> (dimension: ViewDimension)
        ensures
            dimension == self.spec_view_dimension(),
    {
        match self.dimension {
            TextureDimension::One(_) => if self.array_size > 1 {
                ViewDimension::Texture1DArray
            } else {
                ViewDimension::Texture1D
            },
            TextureDimension::Two(_, _) => if self.array_size > 1 {
                ViewDimension::Texture2DArray
            } else {
                ViewDimension::Texture2D
            },
            TextureDimension::Three(_, _, _) => ViewDimension::Texture3D,
        }
    }

    /// What a depth-stencil view of the texture addresses. A texture of three
    /// dimensions cannot be a depth buffer: `PreconditionViolated`.
    pub fn depth_view_dimension(&self) -> (result: Result<ViewDimension, GpuError>)
        ensures
            match result {
                Ok(dimension) => dimension == self.spec_view_dimension() && dimension
                    != ViewDimension::Texture3D,
                Err(e) => self.spec_view_dimension() == ViewDimension::Texture3D && e
                    == GpuError::PreconditionViolated,
            },
    {
        match self.view_dimension() {
            ViewDimension::Texture3D => Err(GpuError::PreconditionViolated),
            dimension => Ok(dimension),
        }
    }

    /// How many subresources the texture has.
    pub fn subresource_count(&self) -> (count: u32)
        ensures
            count == self.num_subresources(),
    {
        let depth: u32 = match self.dimension {
            TextureDimension::One(_) => 1,
            TextureDimension::Two(_, _) => self.array_size as u32,
            TextureDimension::Three(_, _, depth) => depth as u32,
        };
        assert(depth * self.num_mips <= 0xffff * 0xffff) by (nonlinear_arith)
            requires
                0 <= depth <= 0xffff,
                0 <= self.num_mips <= 0xffff,
        ;
        depth * self.num_mips as u32
    }

    /// How many subresources an upload of the texture's data fills: one for each mip
    /// level of each array slice.
    pub fn upload_count(&self) -> (count: u32)
        ensures
            count == self.array_size * self.num_mips,
    {
        assert(self.array_size * self.num_mips <= 0xffff * 0xffff) by (nonlinear_arith)
            requires
                0 <= self.array_size <= 0xffff,
                0 <= self.num_mips <= 0xffff,
        ;
        self.array_size as u32 * self.num_mips as u32
    }

    /// The description of the texture's resource as copies address it: without the
    /// flags of its uses.
    pub fn copy_desc(&self) -> (desc: ResourceDesc)
        ensures
            desc == self.spec_desc(false),
    {
        self.describe(0)
    }

    /// The description of the texture's resource. A texture of more than
    /// `MAX_NUM_SUBRESOURCES` subresources is refused with `PreconditionViolated`.
    pub fn resource_desc(&self) -> (result: Result<ResourceDesc, GpuError>)
        ensures
            match result {
                Ok(desc) => self.num_subresources() <= MAX_NUM_SUBRESOURCES && desc
                    == self.spec_desc(true),
                Err(e) => self.num_subresources() > MAX_NUM_SUBRESOURCES && e
                    == GpuError::PreconditionViolated,
            },
    {
        if self.subresource_count() > MAX_NUM_SUBRESOURCES as u32 {
            return Err(GpuError::PreconditionViolated);
        }
        let mut flags: u32 = 0;
        if self.is_depth_buffer {
            flags = flags + RESOURCE_FLAG_ALLOW_DEPTH_STENCIL;
        }
        if self.is_render_target {
            flags = flags + RESOURCE_FLAG_ALLOW_RENDER_TARGET;
        }
        if self.is_unordered_access {
            flags = flags + RESOURCE_FLAG_ALLOW_UNORDERED_ACCESS;
        }
        Ok(self.describe(flags))
    }

    fn describe(&self, flags: u32) -> (desc: ResourceDesc)
        ensures
            desc == (ResourceDesc { flags, ..self.spec_desc(false) }),
    {
        let (dimension, width, height, depth) = match self.dimension {
            TextureDimension::One(width) => (ResourceDimension::Texture1D, width, 1, 1),
            TextureDimension::Two(width, height) => (
                ResourceDimension::Texture2D,
                width,
                height,
                self.array_size,
            ),
            TextureDimension::Three(width, height, depth) => (
                ResourceDimension::Texture3D,
                width,
                height,
                depth,
            ),
        };
        ResourceDesc {
            dimension,
            alignment: 0,
            width: width as u64,
            height,
            depth_or_array_size: depth,
            mip_levels: self.num_mips,
            format: self.format,
            sample_count: 1,
            sample_quality: 0,
            layout: TextureLayout::Unknown,
            flags,
        }
    }
}

/// Names a texture and its views by their positions in the manager's lists.
#[derive(Clone, Copy, Debug, PartialEq, Eq, Default)]
pub struct TextureHandle {
    pub index: usize,
    pub rtv_index: Option<usize>,
    pub srv_index: Option<usize>,
    pub uav_index: Option<usize>,
    pub dsv_index: Option<usize>,
}

/// The lists of a texture manager.
pub struct TextureManagerView {
    pub heap: HeapView,
    pub rtv: Seq<Descriptor>,
    pub srv: Seq<Descriptor>,
    pub uav: Seq<Descriptor>,
    pub dsv: Seq<Descriptor>,
    /// What each texture is, in the order they were added.
    pub textures: Seq<TextureInfo>,
}

/// Whether a view that is wanted cannot be had.
pub open spec fn view_refused(
    descriptors: DescriptorManagerView,
    wanted: bool,
    kind: DescriptorType,
) -> bool {
    wanted && !descriptors.pool(kind).can_allocate()
}

/// The descriptor manager after a view was allocated, if it was wanted and could be
/// had.
pub open spec fn descriptors_after_view(
    descriptors: DescriptorManagerView,
    wanted: bool,
    kind: DescriptorType,
) -> DescriptorManagerView {
    if wanted && descriptors.pool(kind).can_allocate() {
        descriptors.allocated(kind)
    } else {
        descriptors
    }
}

/// A list of views after a view was allocated, if it was wanted and could be had.
pub open spec fn views_after_view(
    views: Seq<Descriptor>,
    descriptors: DescriptorManagerView,
    wanted: bool,
    kind: DescriptorType,
) -> Seq<Descriptor> {
    if wanted && descriptors.pool(kind).can_allocate() {
        views.push(descriptors.next(kind))
    } else {
        views
    }
}

/// The position of a view that was allocated.
pub open spec fn index_of_view(views: Seq<Descriptor>, wanted: bool) -> Option<usize> {
    if wanted {
        Some(views.len() as usize)
    } else {
        None
    }
}

/// What adding a texture does to both managers.
pub struct Added {
    pub textures: TextureManagerView,
    pub descriptors: DescriptorManagerView,
    /// The handle of the texture; `None` if a view could not be had.
    pub handle: Option<TextureHandle>,
}

impl TextureManagerView {
    /// Adding a texture allocates its views in the order render target, shader resource,
    /// unordered access, depth stencil, and stops at the first that cannot be had; the
    /// views allocated before it stay.
    pub open spec fn adding(self, descriptors: DescriptorManagerView, texture: TextureInfo) -> Added {
        let wanted = texture.spec_views();
        let rtv_kind = DescriptorType::RenderTargetView;
        let dsv_kind = DescriptorType::DepthStencilView;
        let res_kind = DescriptorType::Resource;
        if view_refused(descriptors, wanted.render_target, rtv_kind) {
            Added { textures: self, descriptors, handle: None }
        } else {
            let with_rtv = TextureManagerView {
                rtv: views_after_view(self.rtv, descriptors, wanted.render_target, rtv_kind),
                ..self
            };
            let after_rtv = descriptors_after_view(descriptors, wanted.render_target, rtv_kind);
            if view_refused(after_rtv, wanted.shader_resource, res_kind) {
                Added { textures: with_rtv, descriptors: after_rtv, handle: None }
            } else {
                let with_srv = TextureManagerView {
                    srv: views_after_view(self.srv, after_rtv, wanted.shader_resource, res_kind),
                    ..with_rtv
                };
                let after_srv = descriptors_after_view(after_rtv, wanted.shader_resource, res_kind);
                if view_refused(after_srv, wanted.unordered_access, res_kind) {
                    Added { textures: with_srv, descriptors: after_srv, handle: None }
                } else {
                    let with_uav = TextureManagerView {
                        uav: views_after_view(
                            self.uav,
                            after_srv,
                            wanted.unordered_access,
                            res_kind,
                        ),
                        ..with_srv
                    };
                    let after_uav = descriptors_after_view(
                        after_srv,
                        wanted.unordered_access,
                        res_kind,
                    );
                    if view_refused(after_uav, wanted.depth_stencil, dsv_kind) {
                        Added { textures: with_uav, descriptors: after_uav, handle: None }
                    } else {
                        Added {
                            textures: TextureManagerView {
                                dsv: views_after_view(
                                    self.dsv,
                                    after_uav,
                                    wanted.depth_stencil,
                                    dsv_kind,
                                ),
                                textures: self.textures.push(texture),
                                ..with_uav
                            },
                            descriptors: descriptors_after_view(
                                after_uav,
                                wanted.depth_stencil,
                                dsv_kind,
                            ),
                            handle: Some(
                                TextureHandle {
                                    index: self.textures.len() as usize,
                                    rtv_index: index_of_view(self.rtv, wanted.render_target),
                                    srv_index: index_of_view(self.srv, wanted.shader_resource),
                                    uav_index: index_of_view(self.uav, wanted.unordered_access),
                                    dsv_index: index_of_view(self.dsv, wanted.depth_stencil),
                                },
                            ),
                        }
                    }
                }
            }
        }
    }
}

/// Looks up a view by its position in a list.
pub open spec fn view_at(views: Seq<Descriptor>, index: Option<usize>) -> Option<Descriptor> {
    match index {
        Some(i) => if i < views.len() {
            Some(views[i as int])
        } else {
            None
        },
        None => None,
    }
}

/// The textures of one heap with the descriptors of their views.
pub struct TextureManager {
    texture_heap: Heap,
    rtv_descriptors: Vec<Descriptor>,
    srv_descriptors: Vec<Descriptor>,
    uav_descriptors: Vec<Descriptor>,
    dsv_descriptors: Vec<Descriptor>,
    textures: Vec<TextureInfo>,
}

impl View for TextureManager {
    type V = TextureManagerView;

    closed spec fn view(&self) -> TextureManagerView {
        TextureManagerView {
            heap: self.texture_heap@,
            rtv: self.rtv_descriptors@,
            srv: self.srv_descriptors@,
            uav: self.uav_descriptors@,
            dsv: self.dsv_descriptors@,
            textures: self.textures@,
        }
    }
}

/// Allocates a view if it is wanted and records it in the list.
fn add_view(
    views: &mut Vec<Descriptor>,
    descriptor_manager: &mut DescriptorManager,
    wanted: bool,
    kind: DescriptorType,
) -> (result: Result<Option<usize>, GpuError>)
    requires
        kind != DescriptorType::Unset,
    ensures
        final(descriptor_manager)@ == descriptors_after_view(
            old(descriptor_manager)@,
            wanted,
            kind,
        ),
        final(views)@ == views_after_view(old(views)@, old(descriptor_manager)@, wanted, kind),
        match result {
            Ok(index) => !view_refused(old(descriptor_manager)@, wanted, kind) && index
                == index_of_view(old(views)@, wanted),
            Err(e) => view_refused(old(descriptor_manager)@, wanted, kind) && e
                == GpuError::ResourceExhausted,
        },
{
    if !wanted {
        return Ok(None);
    }
    match descriptor_manager.allocate(kind) {
        Ok(descriptor) => {
            let index = views.len();
            views.push(descriptor);
            Ok(Some(index))
        },
        Err(e) => Err(e),
    }
}

impl TextureManager {
    /// A manager without textures whose heap has `heap_size` bytes, or the default
    /// size.
    pub fn new(heap_size: Option<usize>) -> (manager: TextureManager)
        ensures
            manager@ == (TextureManagerView {
                heap: HeapView {
                    size: match heap_size {
                        Some(size) => size as nat,
                        None => DEFAULT_TEXTURE_HEAP_SIZE as nat,
                    },
                    offset: 0,
                    heap_type: crate::heap::HeapType::Default,
                    alignment: crate::heap::DEFAULT_RESOURCE_PLACEMENT_ALIGNMENT,
                    name: "Texture Manager Heap"@,
                    num_objects: 0,
                    placements: Seq::empty(),
                },
                rtv: Seq::empty(),
                srv: Seq::empty(),
                uav: Seq::empty(),
                dsv: Seq::empty(),
                textures: Seq::empty(),
            }),
    {
        let heap_size = match heap_size {
            Some(size) => size,
            None => DEFAULT_TEXTURE_HEAP_SIZE,
        };
        TextureManager {
            texture_heap: Heap::create_default_heap(heap_size, "Texture Manager Heap"),
            rtv_descriptors: Vec::new(),
            srv_descriptors: Vec::new(),
            uav_descriptors: Vec::new(),
            dsv_descriptors: Vec::new(),
            textures: Vec::new(),
        }
    }

    /// Counts a texture that was asked for and not placed; see `Heap::refuse`.
    pub fn refuse_texture(&mut self)
        requires
            old(self)@.heap.num_objects < usize::MAX,
        ensures
            final(self)@ == (TextureManagerView { heap: old(self)@.heap.refused(), ..old(self)@ }),
    {
        self.texture_heap.refuse();
    }

    /// The heap the textures are placed in.
    pub fn heap(&self) -> (heap: &Heap)
        ensures
            heap@ == self@.heap,
    {
        &self.texture_heap
    }

    /// How many textures the manager holds.
    pub fn len(&self) -> (count: usize)
        ensures
            count == self@.textures.len(),
    {
        self.textures.len()
    }

    /// Adds a texture and allocates the views it gets. Fails with `ResourceExhausted`
    /// at the first view that cannot be had; the texture is then not added and the
    /// views allocated before stay in the lists.
    pub fn add_texture(&mut self, descriptor_manager: &mut DescriptorManager, info: TextureInfo) -> (result:
        Result<TextureHandle, GpuError>)
        ensures
            ({
                let added = old(self)@.adding(old(descriptor_manager)@, info);
                &&& final(self)@ == added.textures
                &&& final(descriptor_manager)@ == added.descriptors
                &&& match result {
                    Ok(handle) => added.handle == Some(handle),
                    Err(e) => added.handle is None && e == GpuError::ResourceExhausted,
                }
            }),
    {
        let wanted = info.views();
        let ghost before = self@;

        let rtv_index = match add_view(
            &mut self.rtv_descriptors,
            descriptor_manager,
            wanted.render_target,
            DescriptorType::RenderTargetView,
        ) {
            Ok(index) => index,
            Err(e) => {
                assert(self@ == before);
                return Err(e);
            },
        };
        let srv_index = match add_view(
            &mut self.srv_descriptors,
            descriptor_manager,
            wanted.shader_resource,
            DescriptorType::Resource,
        ) {
            Ok(index) => index,
            Err(e) => {
                assert(self@ == (TextureManagerView { rtv: self@.rtv, ..before }));
                return Err(e);
            },
        };
        let uav_index = match add_view(
            &mut self.uav_descriptors,
            descriptor_manager,
            wanted.unordered_access,
            DescriptorType::Resource,
        ) {
            Ok(index) => index,
            Err(e) => {
                assert(self@ == (TextureManagerView { rtv: self@.rtv, srv: self@.srv, ..before }));
                return Err(e);
            },
        };
        let dsv_index = match add_view(
            &mut self.dsv_descriptors,
            descriptor_manager,
            wanted.depth_stencil,
            DescriptorType::DepthStencilView,
        ) {
            Ok(index) => index,
            Err(e) => {
                assert(self@ == (TextureManagerView {
                    rtv: self@.rtv,
                    srv: self@.srv,
                    uav: self@.uav,
                    ..before
                }));
                return Err(e);
            },
        };

        let index = self.textures.len();
        self.textures.push(info);
        Ok(TextureHandle { index, rtv_index, srv_index, uav_index, dsv_index })
    }

    /// Places a texture in the manager's heap and adds it; returns its handle and
    /// where it was placed. `allocation` is what the device requires for
    /// `info.resource_desc()`. Fails with `PreconditionViolated` for a texture of too
    /// many subresources, and with `ResourceExhausted` if the heap has no room or a
    /// view cannot be had.
    pub fn create_empty_texture(
        &mut self,
        info: TextureInfo,
        allocation: AllocationInfo,
        descriptor_manager: &mut DescriptorManager,
    ) -> (result: Result<(TextureHandle, Resource), GpuError>)
        requires
            allocation.valid(),
            info.spec_desc(true).byte_size() <= usize::MAX,
            old(self)@.heap.num_objects < usize::MAX,
        ensures
            info.num_subresources() > MAX_NUM_SUBRESOURCES ==> {
                &&& result matches Err(e)
                &&& e == GpuError::PreconditionViolated
                &&& final(self)@ == old(self)@
                &&& final(descriptor_manager)@ == old(descriptor_manager)@
            },
            info.num_subresources() <= MAX_NUM_SUBRESOURCES && !old(self)@.heap.fits(allocation)
                ==> {
                &&& result matches Err(e)
                &&& e == GpuError::ResourceExhausted
                &&& final(self)@ == (TextureManagerView {
                    heap: old(self)@.heap.refused(),
                    ..old(self)@
                })
                &&& final(descriptor_manager)@ == old(descriptor_manager)@
            },
            info.num_subresources() <= MAX_NUM_SUBRESOURCES && old(self)@.heap.fits(allocation)
                ==> {
                let placed = TextureManagerView {
                    heap: old(self)@.heap.placed(allocation),
                    ..old(self)@
                };
                let added = placed.adding(old(descriptor_manager)@, info);
                &&& final(self)@ == added.textures
                &&& final(descriptor_manager)@ == added.descriptors
                &&& match result {
                    Ok((handle, resource)) => {
                        &&& added.handle == Some(handle)
                        &&& resource@ == (ResourceView {
                            size: info.spec_desc(true).byte_size() as nat,
                            mapped: false,
                            placement: Some(old(self)@.heap.place(allocation)),
                        })
                    },
                    Err(e) => added.handle is None && e == GpuError::ResourceExhausted,
                }
            },
    {
        let desc = match info.resource_desc() {
            Ok(desc) => desc,
            Err(e) => {
                return Err(e);
            },
        };
        let resource = match self.texture_heap.create_resource(&desc, allocation, false) {
            Ok(resource) => resource,
            Err(e) => {
                return Err(e);
            },
        };
        match self.add_texture(descriptor_manager, info) {
            Ok(handle) => Ok((handle, resource)),
            Err(e) => Err(e),
        }
    }

    /// What the texture a handle names is. Fails with `InvalidHandle` if there is
    /// none.
    pub fn get_texture(&self, handle: &TextureHandle) -> (result: Result<TextureInfo, GpuError>)
        ensures
            match result {
                Ok(info) => handle.index < self@.textures.len() && info
                    == self@.textures[handle.index as int],
                Err(e) => handle.index >= self@.textures.len() && e == GpuError::InvalidHandle,
            },
    {
        if handle.index < self.textures.len() {
            Ok(self.textures[handle.index])
        } else {
            Err(GpuError::InvalidHandle)
        }
    }

    /// The render-target view of a texture. Fails with `InvalidHandle` if the handle
    /// names none.
    pub fn get_rtv(&self, handle: &TextureHandle) -> (result: Result<Descriptor, GpuError>)
        ensures
            lookup(result, self@.rtv, handle.rtv_index),
    {
        get_view(&self.rtv_descriptors, handle.rtv_index)
    }

    /// The depth-stencil view of a texture. Fails with `InvalidHandle` if the handle
    /// names none.
    pub fn get_dsv(&self, handle: &TextureHandle) -> (result: Result<Descriptor, GpuError>)
        ensures
            lookup(result, self@.dsv, handle.dsv_index),
    {
        get_view(&self.dsv_descriptors, handle.dsv_index)
    }

    /// The unordered-access view of a texture. Fails with `InvalidHandle` if the
    /// handle names none.
    pub fn get_uav(&self, handle: &TextureHandle) -> (result: Result<Descriptor, GpuError>)
        ensures
            lookup(result, self@.uav, handle.uav_index),
    {
        get_view(&self.uav_descriptors, handle.uav_index)
    }

    /// The shader-resource view of a texture. Fails with `InvalidHandle` if the handle
    /// names none.
    pub fn get_srv(&self, handle: &TextureHandle) -> (result: Result<Descriptor, GpuError>)
        ensures
            lookup(result, self@.srv, handle.srv_index),
    {
        get_view(&self.srv_descriptors, handle.srv_index)
    }
}

/// What a lookup of a view returns: the view at the position, or `InvalidHandle`
/// where there is none.
pub open spec fn lookup(
    result: Result<Descriptor, GpuError>,
    views: Seq<Descriptor>,
    index: Option<usize>,
) -> bool {
    match view_at(views, index) {
        Some(descriptor) => result == Ok::<Descriptor, GpuError>(descriptor),
        None => result == Err::<Descriptor, GpuError>(GpuError::InvalidHandle),
    }
}

fn get_view(views: &Vec<Descriptor>, index: Option<usize>) -> (result: Result<Descriptor, GpuError>)
    ensures
        lookup(result, views@, index),
{
    match index {
        Some(i) => if i < views.len() {
            Ok(views[i])
        } else {
            Err(GpuError::InvalidHandle)
        },
        None => Err(GpuError::InvalidHandle),
    }
}

} // verus!
