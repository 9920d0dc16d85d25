use d3d12_utils::texture_manager::{DEFAULT_TEXTURE_HEAP_SIZE, MAX_NUM_SUBRESOURCES};
use d3d12_utils::{
    AllocationInfo, DescriptorHeapLayout, DescriptorManager, DescriptorType, GpuError, HeapType,
    PlacedResource, ResourceDesc, ResourceDimension, TextureDimension, TextureHandle,
    TextureInfo, TextureLayout, TextureManager, TextureViews, ViewDimension,
};
use windows::Win32::Graphics::Direct3D12::{
    D3D12_RESOURCE_FLAG_ALLOW_DEPTH_STENCIL, D3D12_RESOURCE_FLAG_ALLOW_RENDER_TARGET,
    D3D12_RESOURCE_FLAG_ALLOW_UNORDERED_ACCESS,
};

fn descriptors() -> DescriptorManager {
    let layout = DescriptorHeapLayout { descriptor_size: 32, cpu_start: 4096, gpu_start: 8192 };
    DescriptorManager::new(layout, layout, layout)
}

fn info(dimension: TextureDimension) -> TextureInfo {
    TextureInfo {
        dimension,
        format: 28,
        array_size: 1,
        num_mips: 1,
        is_render_target: false,
        is_depth_buffer: false,
        is_unordered_access: false,
    }
}

fn allocation(size: u64) -> AllocationInfo {
    AllocationInfo { size_in_bytes: size, alignment: 65536 }
}

#[test]
fn texture_constants() {
    assert_eq!(DEFAULT_TEXTURE_HEAP_SIZE, 2160 * 3840 * 4 * 100);
    assert_eq!(MAX_NUM_SUBRESOURCES, 32);
}

#[test]
fn views_follow_the_uses() {
    let plain = info(TextureDimension::Two(4, 4));
    assert_eq!(
        plain.views(),
        TextureViews {
            render_target: false,
            shader_resource: true,
            unordered_access: false,
            depth_stencil: false,
        }
    );
    let depth = TextureInfo { is_depth_buffer: true, ..plain };
    assert_eq!(
        depth.views(),
        TextureViews {
            render_target: false,
            shader_resource: false,
            unordered_access: false,
            depth_stencil: true,
        }
    );
    let target = TextureInfo { is_render_target: true, is_unordered_access: true, ..plain };
    assert_eq!(
        target.views(),
        TextureViews {
            render_target: true,
            shader_resource: true,
            unordered_access: true,
            depth_stencil: false,
        }
    );
}

#[test]
fn views_address_arrays_where_there_are_slices() {
    let one = info(TextureDimension::One(16));
    assert_eq!(one.view_dimension(), ViewDimension::Texture1D);
    assert_eq!(TextureInfo { array_size: 2, ..one }.view_dimension(), ViewDimension::Texture1DArray);
    let two = info(TextureDimension::Two(16, 16));
    assert_eq!(two.view_dimension(), ViewDimension::Texture2D);
    assert_eq!(TextureInfo { array_size: 0, ..two }.view_dimension(), ViewDimension::Texture2D);
    assert_eq!(TextureInfo { array_size: 6, ..two }.view_dimension(), ViewDimension::Texture2DArray);
    let three = info(TextureDimension::Three(16, 16, 16));
    assert_eq!(TextureInfo { array_size: 6, ..three }.view_dimension(), ViewDimension::Texture3D);

    assert_eq!(two.depth_view_dimension(), Ok(ViewDimension::Texture2D));
    assert_eq!(one.depth_view_dimension(), Ok(ViewDimension::Texture1D));
    assert_eq!(three.depth_view_dimension(), Err(GpuError::PreconditionViolated));
}

#[test]
fn description_of_a_texture() {
    let cube = TextureInfo {
        dimension: TextureDimension::Two(256, 128),
        format: 28,
        array_size: 6,
        num_mips: 5,
        is_render_target: true,
        is_depth_buffer: false,
        is_unordered_access: true,
    };
    assert_eq!(cube.subresource_count(), 30);
    let expected = ResourceDesc {
        dimension: ResourceDimension::Texture2D,
        alignment: 0,
        width: 256,
        height: 128,
        depth_or_array_size: 6,
        mip_levels: 5,
        format: 28,
        sample_count: 1,
        sample_quality: 0,
        layout: TextureLayout::Unknown,
        flags: D3D12_RESOURCE_FLAG_ALLOW_RENDER_TARGET.0 | D3D12_RESOURCE_FLAG_ALLOW_UNORDERED_ACCESS.0,
    };
    assert_eq!(cube.resource_desc(), Ok(expected));
    assert_eq!(cube.copy_desc(), ResourceDesc { flags: 0, ..expected });

    let line = info(TextureDimension::One(512));
    let desc = TextureInfo { array_size: 9, ..line }.resource_desc().unwrap();
    assert_eq!(desc.dimension, ResourceDimension::Texture1D);
    assert_eq!((desc.width, desc.height, desc.depth_or_array_size), (512, 1, 1));

    let volume = TextureInfo { is_depth_buffer: true, ..info(TextureDimension::Three(8, 4, 2)) };
    let desc = volume.resource_desc().unwrap();
    assert_eq!(desc.dimension, ResourceDimension::Texture3D);
    assert_eq!((desc.width, desc.height, desc.depth_or_array_size), (8, 4, 2));
    assert_eq!(desc.flags, D3D12_RESOURCE_FLAG_ALLOW_DEPTH_STENCIL.0);
}

#[test]
fn too_many_subresources_are_refused() {
    let two = info(TextureDimension::Two(16, 16));
    assert!(TextureInfo { array_size: 4, num_mips: 8, ..two }.resource_desc().is_ok());
    let many = TextureInfo { array_size: 3, num_mips: 11, ..two };
    assert_eq!(many.subresource_count(), 33);
    assert_eq!(many.resource_desc(), Err(GpuError::PreconditionViolated));
    let huge = TextureInfo { array_size: u16::MAX, num_mips: u16::MAX, ..two };
    assert_eq!(huge.subresource_count(), 65535 * 65535);
    assert_eq!(huge.resource_desc(), Err(GpuError::PreconditionViolated));
    // A texture of one dimension has one slice whatever its array size says.
    let line = TextureInfo { array_size: 100, num_mips: 32, ..info(TextureDimension::One(8)) };
    assert!(line.resource_desc().is_ok());
}

#[test]
fn new_texture_manager_has_a_default_heap() {
    let manager = TextureManager::new(None);
    assert_eq!(manager.heap().size(), 3_317_760_000);
    assert_eq!(manager.heap().heap_type(), HeapType::Default);
    assert_eq!(manager.heap().name(), "Texture Manager Heap");
    assert_eq!(manager.len(), 0);
    assert_eq!(TextureManager::new(Some(4096)).heap().size(), 4096);
}

#[test]
fn added_texture_gets_the_views_of_its_uses() {
    let mut manager = TextureManager::new(Some(4096));
    let mut descriptors = descriptors();
    let plain = info(TextureDimension::Two(4, 4));

    let first = manager.add_texture(&mut descriptors, plain).unwrap();
    assert_eq!(
        first,
        TextureHandle { index: 0, rtv_index: None, srv_index: Some(0), uav_index: None, dsv_index: None }
    );
    let depth = TextureInfo { is_depth_buffer: true, ..plain };
    let second = manager.add_texture(&mut descriptors, depth).unwrap();
    assert_eq!(
        second,
        TextureHandle { index: 1, rtv_index: None, srv_index: None, uav_index: None, dsv_index: Some(0) }
    );
    let target = TextureInfo { is_render_target: true, is_unordered_access: true, ..plain };
    let third = manager.add_texture(&mut descriptors, target).unwrap();
    assert_eq!(
        third,
        TextureHandle {
            index: 2,
            rtv_index: Some(0),
            srv_index: Some(1),
            uav_index: Some(0),
            dsv_index: None,
        }
    );
    assert_eq!(manager.len(), 3);

    // The views are descriptors of the matching heaps, allocated in order.
    let srv = manager.get_srv(&third).unwrap();
    assert_eq!((srv.tag(), srv.index()), (DescriptorType::Resource, 1));
    let uav = manager.get_uav(&third).unwrap();
    assert_eq!((uav.tag(), uav.index()), (DescriptorType::Resource, 2));
    let rtv = manager.get_rtv(&third).unwrap();
    assert_eq!((rtv.tag(), rtv.index()), (DescriptorType::RenderTargetView, 0));
    let dsv = manager.get_dsv(&second).unwrap();
    assert_eq!((dsv.tag(), dsv.index()), (DescriptorType::DepthStencilView, 0));

    assert_eq!(manager.get_texture(&second), Ok(depth));
    assert_eq!(manager.get_texture(&third), Ok(target));
}

#[test]
fn lookups_refuse_what_a_handle_does_not_name() {
    let mut manager = TextureManager::new(Some(4096));
    let mut descriptors = descriptors();
    let handle =
        manager.add_texture(&mut descriptors, info(TextureDimension::One(4))).unwrap();
    assert_eq!(manager.get_rtv(&handle), Err(GpuError::InvalidHandle));
    assert_eq!(manager.get_dsv(&handle), Err(GpuError::InvalidHandle));
    assert_eq!(manager.get_uav(&handle), Err(GpuError::InvalidHandle));
    assert!(manager.get_srv(&handle).is_ok());

    let forged = TextureHandle { index: 1, srv_index: Some(1), ..TextureHandle::default() };
    assert_eq!(manager.get_srv(&forged), Err(GpuError::InvalidHandle));
    assert_eq!(manager.get_texture(&forged).unwrap_err(), GpuError::InvalidHandle);
    assert!(manager.get_texture(&TextureHandle::default()).is_ok());
}

#[test]
fn a_view_that_cannot_be_had_stops_the_addition() {
    let mut manager = TextureManager::new(Some(4096));
    let mut descriptors = descriptors();
    for _ in 0..1000 {
        descriptors.allocate(DescriptorType::DepthStencilView).unwrap();
    }
    let both = TextureInfo {
        is_render_target: true,
        is_depth_buffer: true,
        ..info(TextureDimension::Two(4, 4))
    };
    assert_eq!(
        manager.add_texture(&mut descriptors, both),
        Err(GpuError::ResourceExhausted)
    );
    assert_eq!(manager.len(), 0);
    // The render-target view was allocated before the refusal and stays.
    let next = descriptors.allocate(DescriptorType::RenderTargetView).unwrap();
    assert_eq!(next.index(), 1);
    let target = TextureInfo { is_render_target: true, ..info(TextureDimension::Two(4, 4)) };
    let handle = manager.add_texture(&mut descriptors, target).unwrap();
    assert_eq!(handle.rtv_index, Some(1));
    assert_eq!(handle.index, 0);
}

#[test]
fn empty_texture_is_placed_in_the_heap() {
    let mut manager = TextureManager::new(Some(1 << 20));
    let mut descriptors = descriptors();
    let depth = TextureInfo { is_depth_buffer: true, ..info(TextureDimension::Two(64, 32)) };

    let (first, resource) =
        manager.create_empty_texture(depth, allocation(100_000), &mut descriptors).unwrap();
    assert_eq!(first.dsv_index, Some(0));
    assert_eq!(manager.get_texture(&first), Ok(depth));
    assert_eq!(resource.size(), 64 * 32);
    assert!(!resource.is_mapped());
    assert_eq!(
        resource.placement(),
        Some(PlacedResource { offset: 0, size: 100_000, alignment: 65536, ordinal: 1 })
    );

    let (second, resource) =
        manager.create_empty_texture(depth, allocation(100_000), &mut descriptors).unwrap();
    assert_eq!(second.index, 1);
    assert_eq!(resource.placement().unwrap().offset, 131072);
    assert_eq!(manager.heap().curr_offset(), 231_072);

    // No room for a third of one MiB.
    assert_eq!(
        manager.create_empty_texture(depth, allocation(1 << 20), &mut descriptors).unwrap_err(),
        GpuError::ResourceExhausted
    );
    assert_eq!(manager.len(), 2);
    assert_eq!(descriptors.allocate(DescriptorType::DepthStencilView).unwrap().index(), 2);

    let many = TextureInfo { array_size: 40, ..depth };
    assert_eq!(
        manager.create_empty_texture(many, allocation(16), &mut descriptors).unwrap_err(),
        GpuError::PreconditionViolated
    );
    assert_eq!(manager.heap().num_objects(), 3);
}

#[test]
fn upload_fills_every_mip_of_every_slice() {
    let two = info(TextureDimension::Two(16, 16));
    assert_eq!(two.upload_count(), 1);
    assert_eq!(TextureInfo { array_size: 6, num_mips: 5, ..two }.upload_count(), 30);
    assert_eq!(TextureInfo { array_size: 0, num_mips: 5, ..two }.upload_count(), 0);
    let volume = TextureInfo { num_mips: 3, ..info(TextureDimension::Three(8, 8, 8)) };
    assert_eq!(volume.upload_count(), 3);
    assert_eq!(volume.subresource_count(), 24);
}

#[test]
fn texture_that_was_not_placed_is_counted() {
    let mut manager = TextureManager::new(Some(4096));
    let mut descriptors = descriptors();
    assert_eq!(manager.heap().num_objects(), 0);
    assert_eq!(manager.heap().alignment(), 65536);
    manager.refuse_texture();
    assert_eq!(manager.heap().num_objects(), 1);
    assert_eq!(manager.heap().curr_offset(), 0);
    assert_eq!(manager.len(), 0);
    let plain = info(TextureDimension::Two(4, 4));
    let (_, resource) = manager
        .create_empty_texture(plain, AllocationInfo { size_in_bytes: 64, alignment: 256 }, &mut descriptors)
        .unwrap();
    assert_eq!(resource.placement().unwrap().ordinal, 2);
}
