use d3d12_utils::{plan_texture_upload, GpuError, RowCopy, SubresourceFootprint};

fn footprint(offset: u64, height: u32, depth: u32, row_pitch: u32, row_size: u64) -> SubresourceFootprint {
    SubresourceFootprint { offset, height, depth, row_pitch, row_size_in_bytes: row_size }
}

fn row(source: usize, destination: usize, size: usize) -> RowCopy {
    RowCopy { source, destination, size }
}

#[test]
fn no_subresource_needs_no_copy() {
    assert_eq!(plan_texture_upload(&vec![], 0, 0), Ok(vec![]));
    assert_eq!(plan_texture_upload(&vec![], 100, 100), Ok(vec![]));
}

#[test]
fn rows_are_packed_in_the_data_and_pitched_in_the_upload() {
    let plan = plan_texture_upload(&vec![footprint(0, 3, 1, 256, 16)], 48, 528).unwrap();
    assert_eq!(plan, vec![row(0, 0, 16), row(16, 256, 16), row(32, 512, 16)]);
}

#[test]
fn subresources_follow_each_other_in_the_data() {
    // A 4x4 mip chain of four-byte texels: 4 rows of 16, 2 rows of 8, 1 row of 4 bytes.
    let footprints = vec![
        footprint(0, 4, 1, 256, 16),
        footprint(1024, 2, 1, 256, 8),
        footprint(1536, 1, 1, 256, 4),
    ];
    let plan = plan_texture_upload(&footprints, 84, 2048).unwrap();
    assert_eq!(
        plan,
        vec![
            row(0, 0, 16),
            row(16, 256, 16),
            row(32, 512, 16),
            row(48, 768, 16),
            row(64, 1024, 8),
            row(72, 1280, 8),
            row(80, 1536, 4),
        ]
    );
}

#[test]
fn slices_continue_the_rows() {
    let plan = plan_texture_upload(&vec![footprint(512, 2, 2, 256, 10)], 40, 2048).unwrap();
    assert_eq!(
        plan,
        vec![row(0, 512, 10), row(10, 768, 10), row(20, 1024, 10), row(30, 1280, 10)]
    );
}

#[test]
fn subresource_without_rows_is_skipped() {
    let footprints = vec![footprint(0, 0, 5, 256, 16), footprint(0, 1, 1, 256, 16)];
    assert_eq!(plan_texture_upload(&footprints, 16, 16), Ok(vec![row(0, 0, 16)]));
}

#[test]
fn data_that_is_too_short_is_refused() {
    let footprints = vec![footprint(0, 3, 1, 256, 16)];
    assert!(plan_texture_upload(&footprints, 48, 4096).is_ok());
    assert_eq!(plan_texture_upload(&footprints, 47, 4096), Err(GpuError::PreconditionViolated));
    assert_eq!(plan_texture_upload(&footprints, 0, 4096), Err(GpuError::PreconditionViolated));
}

#[test]
fn upload_range_that_is_too_short_is_refused() {
    let footprints = vec![footprint(0, 3, 1, 256, 16)];
    assert!(plan_texture_upload(&footprints, 48, 528).is_ok());
    assert_eq!(plan_texture_upload(&footprints, 48, 527), Err(GpuError::PreconditionViolated));
    let far = vec![footprint(u64::MAX, 2, 1, u32::MAX, 1)];
    assert_eq!(plan_texture_upload(&far, 2, usize::MAX), Err(GpuError::PreconditionViolated));
    let wide = vec![footprint(0, 1, 1, 256, u64::MAX)];
    assert_eq!(plan_texture_upload(&wide, 64, 64), Err(GpuError::PreconditionViolated));
}
