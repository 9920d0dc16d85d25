use d3d12_utils::descriptor_manager::{
    DEPTH_STENCIL_DESCRIPTOR_CAPACITY, RENDER_TARGET_DESCRIPTOR_CAPACITY,
    RESOURCE_DESCRIPTOR_CAPACITY,
};
use d3d12_utils::{
    CpuDescriptorHandle, Descriptor, DescriptorHeap, DescriptorHeapLayout, DescriptorManager,
    DescriptorType, GpuDescriptorHandle, GpuError,
};

fn layout(descriptor_size: u32, cpu_start: usize, gpu_start: u64) -> DescriptorHeapLayout {
    DescriptorHeapLayout { descriptor_size, cpu_start, gpu_start }
}

fn manager() -> DescriptorManager {
    DescriptorManager::new(
        layout(32, 0x1000_0000, 0x2000_0000),
        layout(8, 0x3000_0000, 0),
        layout(16, 0x4000_0000, 0),
    )
}

#[test]
fn heap_constructors_set_kind_and_visibility() {
    let srv = DescriptorHeap::shader_resource_view_heap(4, layout(32, 1000, 2000));
    assert_eq!(srv.kind(), DescriptorType::Resource);
    assert!(srv.is_shader_visible());
    assert_eq!(srv.num_descriptors(), 4);
    assert_eq!(srv.num_allocated(), 0);

    let rtv = DescriptorHeap::render_target_view_heap(2, layout(32, 1000, 0));
    assert_eq!(rtv.kind(), DescriptorType::RenderTargetView);
    assert!(!rtv.is_shader_visible());

    let dsv = DescriptorHeap::depth_stencil_view_heap(2, layout(32, 1000, 0));
    assert_eq!(dsv.kind(), DescriptorType::DepthStencilView);
    assert!(!dsv.is_shader_visible());
}

#[test]
fn heap_bumps_until_exhausted() {
    let mut heap = DescriptorHeap::shader_resource_view_heap(3, layout(32, 1000, 2000));
    assert_eq!(heap.allocate_handle(), Ok((0, CpuDescriptorHandle { ptr: 1000 })));
    assert_eq!(heap.allocate_handle(), Ok((1, CpuDescriptorHandle { ptr: 1032 })));
    assert_eq!(heap.allocate_handle(), Ok((2, CpuDescriptorHandle { ptr: 1064 })));
    assert_eq!(heap.allocate_handle(), Err(GpuError::ResourceExhausted));
    assert_eq!(heap.allocate_handle(), Err(GpuError::ResourceExhausted));
    assert_eq!(heap.num_allocated(), 3);
}

#[test]
fn heap_of_no_slots_is_exhausted_at_once() {
    let mut heap = DescriptorHeap::render_target_view_heap(0, layout(32, 1000, 2000));
    assert_eq!(heap.allocate_handle(), Err(GpuError::ResourceExhausted));
}

#[test]
fn heap_handles_are_start_plus_index_times_stride() {
    let mut heap = DescriptorHeap::shader_resource_view_heap(8, layout(48, 0x10_0000, 0x9000_0000));
    for _ in 0..5 {
        heap.allocate_handle().unwrap();
    }
    assert_eq!(heap.get_cpu_handle(0), Ok(CpuDescriptorHandle { ptr: 0x10_0000 }));
    assert_eq!(heap.get_cpu_handle(4), Ok(CpuDescriptorHandle { ptr: 0x10_0000 + 4 * 48 }));
    assert_eq!(heap.get_gpu_handle(3), Ok(GpuDescriptorHandle { ptr: 0x9000_0000 + 3 * 48 }));
}

#[test]
fn heap_rejects_indices_not_handed_out() {
    let mut heap = DescriptorHeap::shader_resource_view_heap(8, layout(48, 0, 0));
    assert_eq!(heap.get_cpu_handle(0), Err(GpuError::InvalidHandle));
    heap.allocate_handle().unwrap();
    heap.allocate_handle().unwrap();
    assert!(heap.get_cpu_handle(1).is_ok());
    assert_eq!(heap.get_cpu_handle(2), Err(GpuError::InvalidHandle));
    assert_eq!(heap.get_gpu_handle(2), Err(GpuError::InvalidHandle));
    assert_eq!(heap.get_gpu_handle(u32::MAX), Err(GpuError::InvalidHandle));
}

#[test]
fn default_descriptor_is_unset() {
    assert_eq!(DescriptorType::default(), DescriptorType::Unset);
    let descriptor = Descriptor::default();
    assert_eq!(descriptor.tag(), DescriptorType::Unset);
    assert_eq!(descriptor.index(), 0);
}

#[test]
fn manager_heaps_have_the_documented_sizes() {
    assert_eq!(RESOURCE_DESCRIPTOR_CAPACITY, 500_000);
    assert_eq!(DEPTH_STENCIL_DESCRIPTOR_CAPACITY, 1000);
    assert_eq!(RENDER_TARGET_DESCRIPTOR_CAPACITY, 1000);
    let manager = manager();
    let resource = manager.get_heap(DescriptorType::Resource).unwrap();
    assert_eq!(resource.num_descriptors(), 500_000);
    assert!(resource.is_shader_visible());
    let dsv = manager.get_heap(DescriptorType::DepthStencilView).unwrap();
    assert_eq!(dsv.num_descriptors(), 1000);
    assert_eq!(dsv.kind(), DescriptorType::DepthStencilView);
    let rtv = manager.get_heap(DescriptorType::RenderTargetView).unwrap();
    assert_eq!(rtv.num_descriptors(), 1000);
    assert_eq!(rtv.kind(), DescriptorType::RenderTargetView);
    assert!(manager.get_heap(DescriptorType::Unset).is_err());
    assert_eq!(manager.get_heap(DescriptorType::Unset).unwrap_err(), GpuError::InvalidHandle);
}

#[test]
fn freed_descriptor_is_reused_before_a_new_one() {
    let mut manager = manager();
    let a = manager.allocate(DescriptorType::Resource).unwrap();
    let b = manager.allocate(DescriptorType::Resource).unwrap();
    let c = manager.allocate(DescriptorType::Resource).unwrap();
    let d = manager.allocate(DescriptorType::Resource).unwrap();
    assert_eq!((a.index(), b.index(), c.index(), d.index()), (0, 1, 2, 3));
    assert_eq!(c.tag(), DescriptorType::Resource);

    manager.free(c);
    let again = manager.allocate(DescriptorType::Resource).unwrap();
    assert_eq!(again.index(), 2);
    let fresh = manager.allocate(DescriptorType::Resource).unwrap();
    assert_eq!(fresh.index(), 4);
    assert_eq!(manager.get_heap(DescriptorType::Resource).unwrap().num_allocated(), 5);
}

#[test]
fn freed_descriptors_come_back_last_first() {
    let mut manager = manager();
    let handles: Vec<Descriptor> =
        (0..6).map(|_| manager.allocate(DescriptorType::RenderTargetView).unwrap()).collect();
    manager.free(handles[1]);
    manager.free(handles[4]);
    manager.free(handles[2]);
    assert_eq!(manager.allocate(DescriptorType::RenderTargetView).unwrap().index(), 2);
    assert_eq!(manager.allocate(DescriptorType::RenderTargetView).unwrap().index(), 4);
    assert_eq!(manager.allocate(DescriptorType::RenderTargetView).unwrap().index(), 1);
    assert_eq!(manager.allocate(DescriptorType::RenderTargetView).unwrap().index(), 6);
}

#[test]
fn kinds_do_not_share_slots_or_free_lists() {
    let mut manager = manager();
    let r = manager.allocate(DescriptorType::Resource).unwrap();
    let d = manager.allocate(DescriptorType::DepthStencilView).unwrap();
    let t = manager.allocate(DescriptorType::RenderTargetView).unwrap();
    assert_eq!((r.index(), d.index(), t.index()), (0, 0, 0));
    manager.free(d);
    assert_eq!(manager.allocate(DescriptorType::Resource).unwrap().index(), 1);
    assert_eq!(manager.allocate(DescriptorType::RenderTargetView).unwrap().index(), 1);
    assert_eq!(manager.allocate(DescriptorType::DepthStencilView).unwrap().index(), 0);
}

#[test]
fn unset_kind_is_refused() {
    let mut manager = manager();
    assert_eq!(manager.allocate(DescriptorType::Unset), Err(GpuError::InvalidHandle));
    let unset = Descriptor::default();
    assert_eq!(manager.get_cpu_handle(&unset), Err(GpuError::InvalidHandle));
    assert_eq!(manager.get_gpu_handle(&unset), Err(GpuError::InvalidHandle));
    manager.free(unset);
    assert_eq!(manager.allocate(DescriptorType::Resource).unwrap().index(), 0);
}

#[test]
fn exhausted_heap_with_empty_free_list_fails() {
    let mut manager = manager();
    let mut last = Descriptor::default();
    for expected in 0..1000u32 {
        last = manager.allocate(DescriptorType::DepthStencilView).unwrap();
        assert_eq!(last.index(), expected);
    }
    assert_eq!(
        manager.allocate(DescriptorType::DepthStencilView),
        Err(GpuError::ResourceExhausted)
    );
    // Releasing one slot makes exactly one allocation possible again.
    manager.free(last);
    assert_eq!(manager.allocate(DescriptorType::DepthStencilView).unwrap().index(), 999);
    assert_eq!(
        manager.allocate(DescriptorType::DepthStencilView),
        Err(GpuError::ResourceExhausted)
    );
    // The other kinds are not affected.
    assert!(manager.allocate(DescriptorType::RenderTargetView).is_ok());
}

#[test]
fn manager_handles_delegate_to_the_heap_of_the_kind() {
    let mut manager = manager();
    manager.allocate(DescriptorType::Resource).unwrap();
    let r = manager.allocate(DescriptorType::Resource).unwrap();
    let d = manager.allocate(DescriptorType::DepthStencilView).unwrap();
    let t = manager.allocate(DescriptorType::RenderTargetView).unwrap();
    assert_eq!(manager.get_cpu_handle(&r), Ok(CpuDescriptorHandle { ptr: 0x1000_0000 + 32 }));
    assert_eq!(manager.get_gpu_handle(&r), Ok(GpuDescriptorHandle { ptr: 0x2000_0000 + 32 }));
    assert_eq!(manager.get_cpu_handle(&d), Ok(CpuDescriptorHandle { ptr: 0x3000_0000 }));
    assert_eq!(manager.get_cpu_handle(&t), Ok(CpuDescriptorHandle { ptr: 0x4000_0000 }));
}

#[test]
fn handle_of_another_manager_is_out_of_range() {
    let mut busy = manager();
    let fresh = manager();
    let mut handle = Descriptor::default();
    for _ in 0..3 {
        handle = busy.allocate(DescriptorType::RenderTargetView).unwrap();
    }
    assert_eq!(fresh.get_cpu_handle(&handle), Err(GpuError::InvalidHandle));
    assert_eq!(fresh.get_gpu_handle(&handle), Err(GpuError::InvalidHandle));
    assert!(busy.get_cpu_handle(&handle).is_ok());
}

#[test]
fn layout_must_lie_inside_the_address_spaces() {
    assert!(layout(32, 0, 0).can_hold(u32::MAX));
    assert!(layout(32, usize::MAX - 320, 0).can_hold(10));
    assert!(!layout(32, usize::MAX - 319, 0).can_hold(10));
    assert!(layout(32, 0, u64::MAX - 320).can_hold(10));
    assert!(!layout(32, 0, u64::MAX - 319).can_hold(10));
    assert!(layout(0, usize::MAX, u64::MAX).can_hold(u32::MAX));
    assert!(layout(u32::MAX, usize::MAX, u64::MAX).can_hold(0));
}

#[test]
fn handles_carry_the_generation_of_their_slot() {
    let mut manager = manager();
    let first = manager.allocate(DescriptorType::Resource).unwrap();
    assert_eq!((first.index(), first.generation()), (0, 0));
    assert!(manager.is_live(&first));
    manager.free(first);
    assert!(!manager.is_live(&first));
    let second = manager.allocate(DescriptorType::Resource).unwrap();
    assert_eq!((second.index(), second.generation()), (0, 2));
    manager.free(second);
    let third = manager.allocate(DescriptorType::Resource).unwrap();
    assert_eq!((third.index(), third.generation()), (0, 4));
    assert!(manager.is_live(&third));
    assert!(!manager.is_live(&first));
    assert!(!manager.is_live(&second));
    assert_ne!(first, third);
}

#[test]
fn released_handle_is_stale() {
    let mut manager = manager();
    let kept = manager.allocate(DescriptorType::RenderTargetView).unwrap();
    let stale = manager.allocate(DescriptorType::RenderTargetView).unwrap();
    assert!(manager.get_cpu_handle(&stale).is_ok());
    manager.free(stale);
    assert_eq!(manager.get_cpu_handle(&stale), Err(GpuError::InvalidHandle));
    assert_eq!(manager.get_gpu_handle(&stale), Err(GpuError::InvalidHandle));

    // The slot goes to a new handle; the stale one does not alias it.
    let fresh = manager.allocate(DescriptorType::RenderTargetView).unwrap();
    assert_eq!(fresh.index(), stale.index());
    assert!(manager.get_cpu_handle(&fresh).is_ok());
    assert_eq!(manager.get_cpu_handle(&stale), Err(GpuError::InvalidHandle));
    assert_eq!(manager.get_cpu_handle(&kept), Ok(CpuDescriptorHandle { ptr: 0x4000_0000 }));
}

#[test]
fn releasing_twice_hands_the_slot_out_once() {
    let mut manager = manager();
    let a = manager.allocate(DescriptorType::DepthStencilView).unwrap();
    let b = manager.allocate(DescriptorType::DepthStencilView).unwrap();
    manager.free(a);
    manager.free(a);
    let c = manager.allocate(DescriptorType::DepthStencilView).unwrap();
    let d = manager.allocate(DescriptorType::DepthStencilView).unwrap();
    assert_eq!(c.index(), a.index());
    assert_eq!(d.index(), 2);
    // Releasing the stale handle again does not take the slot from its new holder.
    manager.free(a);
    assert!(manager.is_live(&c));
    assert_eq!(manager.allocate(DescriptorType::DepthStencilView).unwrap().index(), 3);
    assert!(manager.is_live(&b));
}

#[test]
fn handle_that_was_never_handed_out_is_not_live() {
    let mut manager = manager();
    let other = {
        let mut busy = self::manager();
        busy.allocate(DescriptorType::Resource).unwrap();
        busy.allocate(DescriptorType::Resource).unwrap()
    };
    assert!(!manager.is_live(&other));
    manager.free(other);
    assert_eq!(manager.allocate(DescriptorType::Resource).unwrap().index(), 0);
    assert!(!manager.is_live(&Descriptor::default()));
}
