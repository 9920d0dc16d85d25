//! Planning the row-by-row copy of texel data into an upload range.
//!
//! The device lays each subresource of a texture out in the upload buffer with rows
//! at a pitch of its own choosing. The texel data holds the rows of all subresources
//! back to back. The plan lists, row by row, where the bytes come from and where
//! they go.

use crate::error::GpuError;
use vstd::prelude::*;

verus! {

/// How the device lays one subresource out in the upload range.
#[derive(Clone, Copy, Debug, PartialEq, Eq, Structural)]
pub struct SubresourceFootprint {
    /// Byte offset of the subresource in the upload range.
    pub offset: u64,
    /// Rows in one slice.
    pub height: u32,
    /// Slices.
    pub depth: u32,
    /// Bytes from the start of one row to the start of the next in the upload range.
    pub row_pitch: u32,
    /// Bytes of texel data in one row.
    pub row_size_in_bytes: u64,
}

/// One row to copy: `size` bytes from byte `source` of the texel data to byte
/// `destination` of the upload range.
#[derive(Clone, Copy, Debug, PartialEq, Eq, Structural)]
pub struct RowCopy {
    pub source: usize,
    pub destination: usize,
    pub size: usize,
}

impl SubresourceFootprint {
    /// Rows in all slices.
    pub open spec fn rows(self) -> int {
        self.depth * self.height
    }

    /// Bytes of texel data in the subresource.
    pub open spec fn data_size(self) -> int {
        self.rows() * self.row_size_in_bytes
    }
}

/// Bytes of texel data in the first `count` subresources.
pub open spec fn data_before(footprints: Seq<SubresourceFootprint>, count: int) -> int
    decreases count,
{
    if count <= 0 {
        0
    } else {
        data_before(footprints, count - 1) + footprints[count - 1].data_size()
    }
}

/// Where row `row` of subresource `index` starts in the texel data.
pub open spec fn row_source(footprints: Seq<SubresourceFootprint>, index: int, row: int) -> int {
    data_before(footprints, index) + row * footprints[index].row_size_in_bytes
}

/// Where row `row` of subresource `index` starts in the upload range.
pub open spec fn row_destination(footprints: Seq<SubresourceFootprint>, index: int, row: int) -> int {
    footprints[index].offset + row * footprints[index].row_pitch
}

/// Whether row `row` of subresource `index` lies inside the texel data and inside the
/// upload range.
pub open spec fn row_fits(
    footprints: Seq<SubresourceFootprint>,
    index: int,
    row: int,
    data_len: int,
    upload_size: int,
) -> bool {
    &&& row_source(footprints, index, row) + footprints[index].row_size_in_bytes <= data_len
    &&& row_destination(footprints, index, row) + footprints[index].row_size_in_bytes
        <= upload_size
}

/// Whether every row of the first `count` subresources fits.
pub open spec fn rows_fit(
    footprints: Seq<SubresourceFootprint>,
    count: int,
    data_len: int,
    upload_size: int,
) -> bool {
    forall|index: int, row: int|
        0 <= index < count && 0 <= row < footprints[index].rows() ==> #[trigger] row_fits(
            footprints,
            index,
            row,
            data_len,
            upload_size,
        )
}

/// The copy of row `row` of subresource `index`.
pub open spec fn planned_row(footprints: Seq<SubresourceFootprint>, index: int, row: int) -> RowCopy {
    RowCopy {
        source: row_source(footprints, index, row) as usize,
        destination: row_destination(footprints, index, row) as usize,
        size: footprints[index].row_size_in_bytes as usize,
    }
}

/// The copies of the first `count` rows of subresource `index`.
pub open spec fn planned_rows_of(footprints: Seq<SubresourceFootprint>, index: int, count: int) -> Seq<
    RowCopy,
> {
    Seq::new(count as nat, |row: int| planned_row(footprints, index, row))
}

/// The copies of all rows of the first `count` subresources, in the order of the
/// texel data.
pub open spec fn planned_rows(footprints: Seq<SubresourceFootprint>, count: int) -> Seq<RowCopy>
    decreases count,
{
    if count <= 0 {
        Seq::empty()
    } else {
        planned_rows(footprints, count - 1) + planned_rows_of(
            footprints,
            count - 1,
            footprints[count - 1].rows(),
        )
    }
}

/// Plans the copy of `data_len` bytes of texel data into an upload range of
/// `upload_size` bytes, one copy per row, subresource after subresource. Fails with
/// `PreconditionViolated` if a row leaves the texel data or the upload range.
pub fn plan_texture_upload(
    footprints: &Vec<SubresourceFootprint>,
    data_len: usize,
    upload_size: usize,
) -> (result: Result<Vec<RowCopy>, GpuError>)
    ensures
        match result {
            Ok(plan) => {
                &&& rows_fit(footprints@, footprints@.len() as int, data_len as int, upload_size as int)
                &&& plan@ == planned_rows(footprints@, footprints@.len() as int)
            },
            Err(e) => {
                &&& !rows_fit(
                    footprints@,
                    footprints@.len() as int,
                    data_len as int,
                    upload_size as int,
                )
                &&& e == GpuError::PreconditionViolated
            },
        },
{
    let mut plan: Vec<RowCopy> = Vec::new();
    let mut data_offset: usize = 0;
    let mut index: usize = 0;
    while index < footprints.len()
        invariant
            index <= footprints@.len(),
            rows_fit(footprints@, index as int, data_len as int, upload_size as int),
            plan@ == planned_rows(footprints@, index as int),
            data_offset == data_before(footprints@, index as int),
            data_offset <= data_len,
        decreases footprints@.len() - index,
    {
        let footprint = footprints[index];
        assert(footprint.depth * footprint.height <= 0xffff_ffff * 0xffff_ffff) by (nonlinear_arith)
            requires
                0 <= footprint.depth <= 0xffff_ffff,
                0 <= footprint.height <= 0xffff_ffff,
        ;
        let rows: u64 = footprint.depth as u64 * footprint.height as u64;
        let mut row: u64 = 0;
        let ghost done = plan@;
        while row < rows
            invariant
                index < footprints@.len(),
                footprint == footprints@[index as int],
                rows == footprint.rows(),
                row <= rows,
                rows_fit(footprints@, index as int, data_len as int, upload_size as int),
                forall|earlier: int|
                    0 <= earlier < row ==> #[trigger] row_fits(
                        footprints@,
                        index as int,
                        earlier,
                        data_len as int,
                        upload_size as int,
                    ),
                done == planned_rows(footprints@, index as int),
                plan@ == done + planned_rows_of(footprints@, index as int, row as int),
                data_offset == row_source(footprints@, index as int, row as int),
                data_offset <= data_len,
            decreases rows - row,
        {
            assert(row * footprint.row_pitch <= 0xffff_ffff_ffff_ffff * 0xffff_ffff)
                by (nonlinear_arith)
                requires
                    0 <= row <= 0xffff_ffff_ffff_ffff,
                    0 <= footprint.row_pitch <= 0xffff_ffff,
            ;
            let destination: u128 = footprint.offset as u128 + row as u128
                * footprint.row_pitch as u128;
            let fits = footprint.row_size_in_bytes <= (data_len - data_offset) as u64
                && destination <= upload_size as u128 && footprint.row_size_in_bytes as u128
                <= upload_size as u128 - destination;
            if !fits {
                assert(!row_fits(
                    footprints@,
                    index as int,
                    row as int,
                    data_len as int,
                    upload_size as int,
                ));
                return Err(GpuError::PreconditionViolated);
            }
            let size = footprint.row_size_in_bytes as usize;
            plan.push(RowCopy { source: data_offset, destination: destination as usize, size });
            proof {
                assert(plan@ =~= done + planned_rows_of(footprints@, index as int, row + 1));
                assert((row + 1) * footprint.row_size_in_bytes == row * footprint.row_size_in_bytes
                    + footprint.row_size_in_bytes) by (nonlinear_arith);
            }
            data_offset = data_offset + size;
            row = row + 1;
        }
        proof {
            assert(data_offset == data_before(footprints@, index + 1));
            assert forall|i: int, r: int|
                0 <= i < index + 1 && 0 <= r < footprints@[i].rows() implies #[trigger] row_fits(
                footprints@,
                i,
                r,
                data_len as int,
                upload_size as int,
            ) by {
                if i < index {
                    assert(rows_fit(footprints@, index as int, data_len as int, upload_size as int));
                }
            }
        }
        index = index + 1;
    }
    Ok(plan)
}

/// Rows of a plan never run into each other in the texel data: each starts where the
/// row before it ends, and the first starts at byte 0.
pub proof fn lemma_rows_are_contiguous(footprints: Seq<SubresourceFootprint>, index: int, row: int)
    requires
        0 <= index < footprints.len(),
        0 <= row < footprints[index].rows(),
    ensures
        row_source(footprints, 0, 0) == 0,
        row + 1 < footprints[index].rows() ==> row_source(footprints, index, row + 1)
            == row_source(footprints, index, row) + footprints[index].row_size_in_bytes,
        row + 1 == footprints[index].rows() ==> data_before(footprints, index + 1) == row_source(
            footprints,
            index,
            row,
        ) + footprints[index].row_size_in_bytes,
{
    let size = footprints[index].row_size_in_bytes as int;
    assert((row + 1) * size == row * size + size) by (nonlinear_arith);
    assert(data_before(footprints, 0) == 0);
}

} // verus!
