//! Cutting an image into bands of whole rows. A band's pixels lie one after
//! the other in a row-major image buffer, so one span of bytes names them.

use crate::dispatcher::{is_job, spans_of};
use crate::model::{
    pixel_count_bound, ByteSpan, FractalDescriptor, FragmentTask, Range, Resolution,
    BYTES_PER_PIXEL,
};
use crate::reassembly::{start_of, tiles};
use vstd::prelude::*;

verus! {

/// A band of rows: its place in the image buffer, its first row and its grid.
#[derive(Clone, Copy, Debug, PartialEq, Eq, Structural)]
pub struct Band {
    pub id: ByteSpan,
    pub first_row: u16,
    pub resolution: Resolution,
}

/// Why an image cannot be cut into bands.
#[derive(Clone, Copy, Debug, PartialEq, Eq, Structural)]
pub enum PartitionError {
    /// The image has no column or no row, or a band is to have no row.
    InvalidResolution,
    /// The image has more bytes than 32 bits address.
    ImageTooLarge,
}

/// Bands that an image of `ny` rows falls into, at `rows` rows a band; the last
/// band holds what is left.
pub open spec fn band_count(ny: int, rows: int) -> int
    recommends
        rows > 0,
{
    (ny + rows - 1) / rows
}

/// Rows of band `k`.
pub open spec fn band_height(ny: int, rows: int, k: int) -> int {
    if ny - k * rows < rows {
        ny - k * rows
    } else {
        rows
    }
}

/// Band `k` of the image.
pub open spec fn band_at(resolution: Resolution, rows: u16, k: int) -> Band {
    let first = k * rows;
    let height = band_height(resolution.ny as int, rows as int, k);
    Band {
        id: ByteSpan {
            offset: (BYTES_PER_PIXEL * resolution.nx * first) as u32,
            count: (BYTES_PER_PIXEL * resolution.nx * height) as u32,
        },
        first_row: first as u16,
        resolution: Resolution { nx: resolution.nx, ny: height as u16 },
    }
}

/// All bands of the image, from the top.
pub open spec fn bands_of(resolution: Resolution, rows: u16) -> Seq<Band> {
    Seq::new(
        band_count(resolution.ny as int, rows as int) as nat,
        |k: int| band_at(resolution, rows, k),
    )
}

/// Whether the image can be cut at `rows` rows a band.
pub open spec fn can_partition(resolution: Resolution, rows: u16) -> bool {
    resolution.wf() && rows > 0 && resolution.spec_byte_count() <= u32::MAX
}

impl Band {
    /// The task that asks for this band.
    pub fn task(self, fractal: FractalDescriptor, max_iteration: u32, range: Range) -> (t:
        FragmentTask)
        ensures
            t == (FragmentTask {
                id: self.id,
                fractal,
                max_iteration,
                resolution: self.resolution,
                range,
            }),
    {
        FragmentTask { id: self.id, fractal, max_iteration, resolution: self.resolution, range }
    }
}

/// The number of bands is the one number `k` with `(k - 1) * rows < ny <= k * rows`.
pub proof fn band_count_is_unique(ny: int, rows: int, k: int)
    requires
        ny >= 1,
        rows >= 1,
    ensures
        ((k - 1) * rows < ny <= k * rows) <==> k == band_count(ny, rows),
{
    let x = ny + rows - 1;
    let q = x / rows;
    let r = x % rows;
    vstd::arithmetic::div_mod::lemma_fundamental_div_mod(x, rows);
    vstd::arithmetic::div_mod::lemma_mod_bound(x, rows);
    assert((q - 1) * rows < ny <= q * rows) by (nonlinear_arith)
        requires
            x == rows * q + r,
            0 <= r < rows,
            x == ny + rows - 1,
    ;
    if (k - 1) * rows < ny <= k * rows {
        assert(k == q) by (nonlinear_arith)
            requires
                (k - 1) * rows < ny <= k * rows,
                (q - 1) * rows < ny <= q * rows,
                rows >= 1,
        ;
    }
}

/// What holds of band `k`: it starts below the image's height, has a row at
/// least, ends within the image, and its bytes are those of its grid.
pub proof fn band_is_in_order(resolution: Resolution, rows: u16, k: int)
    requires
        can_partition(resolution, rows),
        0 <= k < band_count(resolution.ny as int, rows as int),
    ensures
        ({
            let band = band_at(resolution, rows, k);
            let height = band_height(resolution.ny as int, rows as int, k);
            &&& 0 <= k * rows < resolution.ny
            &&& 1 <= height <= rows
            &&& k * rows + height <= resolution.ny
            &&& band.first_row == k * rows
            &&& band.resolution.ny == height
            &&& band.resolution.wf()
            &&& band.id.offset == BYTES_PER_PIXEL * resolution.nx * (k * rows)
            &&& band.id.count == BYTES_PER_PIXEL * resolution.nx * height
            &&& band.id.count == band.resolution.spec_byte_count()
            &&& band.id.spec_end() <= resolution.spec_byte_count()
        }),
{
    let ny = resolution.ny as int;
    let nx = resolution.nx as int;
    let r = rows as int;
    let n = band_count(ny, r);
    band_count_is_unique(ny, r, n);
    assert(0 <= k * r < ny) by (nonlinear_arith)
        requires
            0 <= k <= n - 1,
            (n - 1) * r < ny,
            r >= 1,
    ;
    let first = k * r;
    let height = band_height(ny, r, k);
    assert(3 * nx * first + 3 * nx * height <= 3 * (nx * ny) && 3 * nx * height == 3 * (nx
        * height) && 3 * nx * first >= 0 && 3 * nx * height >= 0) by (nonlinear_arith)
        requires
            0 <= first,
            1 <= height,
            first + height <= ny,
            nx >= 1,
    ;
}

/// Where band `k` starts: behind the bytes of the rows above it.
proof fn band_starts(resolution: Resolution, rows: u16, k: int)
    requires
        can_partition(resolution, rows),
        0 <= k <= band_count(resolution.ny as int, rows as int),
    ensures
        k < band_count(resolution.ny as int, rows as int) ==> start_of(
            band_spans(resolution, rows),
            k,
        ) == BYTES_PER_PIXEL * resolution.nx * (k * rows),
        k == band_count(resolution.ny as int, rows as int) ==> start_of(
            band_spans(resolution, rows),
            k,
        ) == resolution.spec_byte_count(),
    decreases k,
{
    let ny = resolution.ny as int;
    let nx = resolution.nx as int;
    let r = rows as int;
    let n = band_count(ny, r);
    let spans = band_spans(resolution, rows);
    band_count_is_unique(ny, r, n);
    if k == 0 {
        assert(n >= 1) by (nonlinear_arith)
            requires
                ny <= n * r,
                ny >= 1,
                r >= 1,
        ;
        assert(3 * nx * (0 * r) == 0) by (nonlinear_arith);
    } else {
        band_starts(resolution, rows, k - 1);
        band_is_in_order(resolution, rows, k - 1);
        let height = band_height(ny, r, k - 1);
        assert(spans[k - 1] == band_at(resolution, rows, k - 1).id);
        assert(3 * nx * ((k - 1) * r) + 3 * nx * height == 3 * nx * ((k - 1) * r + height))
            by (nonlinear_arith);
        if k < n {
            band_is_in_order(resolution, rows, k);
            assert((k - 1) * r + r == k * r) by (nonlinear_arith);
        } else {
            assert((k - 1) * r + r == k * r) by (nonlinear_arith);
            assert((k - 1) * r + height == ny);
            assert(3 * nx * ny == 3 * (nx * ny)) by (nonlinear_arith);
        }
    }
}

/// The places of the bands in the image buffer.
pub open spec fn band_spans(resolution: Resolution, rows: u16) -> Seq<ByteSpan> {
    Seq::new(
        band_count(resolution.ny as int, rows as int) as nat,
        |k: int| band_at(resolution, rows, k).id,
    )
}

/// The bands take the image buffer apart: they lie back to back from byte 0 to
/// the image's last byte, without gap or overlap.
pub proof fn bands_tile_image(resolution: Resolution, rows: u16)
    requires
        can_partition(resolution, rows),
    ensures
        band_count(resolution.ny as int, rows as int) >= 1,
        tiles(band_spans(resolution, rows), resolution.spec_byte_count()),
{
    let n = band_count(resolution.ny as int, rows as int);
    let spans = band_spans(resolution, rows);
    band_starts(resolution, rows, 0);
    band_starts(resolution, rows, n);
    band_count_is_unique(resolution.ny as int, rows as int, n);
    assert(n >= 1) by (nonlinear_arith)
        requires
            resolution.ny <= n * rows,
            resolution.ny >= 1,
            rows >= 1,
    ;
    assert forall|i: int| 0 <= i < spans.len() implies (#[trigger] spans[i]).offset == start_of(
        spans,
        i,
    ) by {
        band_starts(resolution, rows, i);
        band_is_in_order(resolution, rows, i);
    }
}

/// Tasks made of the bands, each with a rectangle that is in order, make a job.
pub proof fn banded_tasks_make_job(resolution: Resolution, rows: u16, tasks: Seq<FragmentTask>)
    requires
        can_partition(resolution, rows),
        tasks.len() == band_count(resolution.ny as int, rows as int),
        forall|k: int|
            0 <= k < tasks.len() ==> {
                &&& (#[trigger] tasks[k]).id == band_at(resolution, rows, k).id
                &&& tasks[k].resolution == band_at(resolution, rows, k).resolution
                &&& tasks[k].range.wf()
            },
    ensures
        is_job(tasks),
        crate::dispatcher::image_len(tasks) == resolution.spec_byte_count(),
{
    bands_tile_image(resolution, rows);
    assert(spans_of(tasks) =~= band_spans(resolution, rows));
    pixel_count_bound(resolution);
    assert forall|i: int| 0 <= i < tasks.len() implies crate::dispatcher::fragment_in_place(
        tasks,
        i,
    ) by {
        band_is_in_order(resolution, rows, i);
        assert(spans_of(tasks)[i] == tasks[i].id);
    }
}

/// Cuts the image into bands of `rows_per_band` rows, from the top; the last
/// band holds the rows that are left.
pub fn partition_rows(resolution: Resolution, rows_per_band: u16) -> (result: Result<
    Vec<Band>,
    PartitionError,
>)
    ensures
        match result {
            Ok(bands) => can_partition(resolution, rows_per_band) && bands@ == bands_of(
                resolution,
                rows_per_band,
            ),
            Err(PartitionError::InvalidResolution) => !resolution.wf() || rows_per_band == 0,
            Err(PartitionError::ImageTooLarge) => resolution.wf() && rows_per_band > 0
                && resolution.spec_byte_count() > u32::MAX,
        },
{
    if !resolution.is_valid() || rows_per_band == 0 {
        return Err(PartitionError::InvalidResolution);
    }
    if resolution.byte_count() > 0xffff_ffff {
        return Err(PartitionError::ImageTooLarge);
    }
    let ny: u32 = resolution.ny as u32;
    let rows: u32 = rows_per_band as u32;
    let row_bytes: u64 = BYTES_PER_PIXEL * resolution.nx as u64;
    let mut bands: Vec<Band> = Vec::new();
    let mut first: u32 = 0;
    let ghost n = band_count(ny as int, rows as int);
    proof {
        band_count_is_unique(ny as int, rows as int, n);
        assert(0 * (rows as int) == 0) by (nonlinear_arith);
        assert(n >= 1) by (nonlinear_arith)
            requires
                ny <= n * rows,
                ny >= 1,
                rows >= 1,
        ;
    }
    while first < ny
        invariant
            can_partition(resolution, rows_per_band),
            ny == resolution.ny,
            rows == rows_per_band,
            row_bytes == BYTES_PER_PIXEL * resolution.nx,
            n == band_count(ny as int, rows as int),
            0 <= bands@.len() <= n,
            first == bands@.len() * rows,
            bands@.len() < n ==> first < ny,
            bands@.len() == n ==> first >= ny,
            forall|k: int| 0 <= k < bands@.len() ==> bands@[k] == band_at(resolution, rows_per_band, k),
        decreases n - bands@.len(),
    {
        let ghost k = bands@.len() as int;
        proof {
            band_is_in_order(resolution, rows_per_band, k);
        }
        let left: u32 = ny - first;
        let height: u32 = if left < rows {
            left
        } else {
            rows
        };
        proof {
            assert(row_bytes * first + row_bytes * height <= 3 * (resolution.nx * ny)
                && row_bytes * first >= 0 && row_bytes * height >= 0) by (nonlinear_arith)
                requires
                    row_bytes == 3 * resolution.nx,
                    0 <= first,
                    1 <= height,
                    first + height <= ny,
            ;
        }
        let offset: u64 = row_bytes * first as u64;
        let count: u64 = row_bytes * height as u64;
        bands.push(
            Band {
                id: ByteSpan { offset: offset as u32, count: count as u32 },
                first_row: first as u16,
                resolution: Resolution { nx: resolution.nx, ny: height as u16 },
            },
        );
        first = first + rows;
        proof {
            assert(k * rows + rows == (k + 1) * rows) by (nonlinear_arith);
            band_count_is_unique(ny as int, rows as int, n);
            band_count_is_unique(ny as int, rows as int, k + 1);
            if k + 1 < n {
                band_is_in_order(resolution, rows_per_band, k + 1);
            }
        }
    }
    proof {
        let k = bands@.len() as int;
        assert(k == n);
        assert(bands@ =~= bands_of(resolution, rows_per_band));
    }
    Ok(bands)
}

} // verus!
