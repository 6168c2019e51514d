//! The values that messages carry: spans of bytes, the geometry of a fragment,
//! the parameters of the fractal, tasks, results and requests.

use crate::scalar::{Complex, Scalar};
use vstd::prelude::*;

verus! {

/// Bytes that one pixel takes in a pixel buffer.
pub const BYTES_PER_PIXEL: u64 = 3;

/// A run of `count` bytes that starts `offset` bytes into a larger buffer.
#[derive(Clone, Copy, Debug, PartialEq, Eq, Structural)]
pub struct ByteSpan {
    pub offset: u32,
    pub count: u32,
}

/// The pixel grid of a fragment: `nx` columns and `ny` rows.
#[derive(Clone, Copy, Debug, PartialEq, Eq, Structural)]
pub struct Resolution {
    pub nx: u16,
    pub ny: u16,
}

/// A point of the plane.
#[derive(Clone, Copy, Debug, PartialEq, Eq, Structural)]
pub struct Point {
    pub x: Scalar,
    pub y: Scalar,
}

/// The rectangle of the plane between two corners.
#[derive(Clone, Copy, Debug, PartialEq, Eq, Structural)]
pub struct Range {
    pub min: Point,
    pub max: Point,
}

/// Parameters of a Julia set.
#[derive(Clone, Copy, Debug, PartialEq, Eq, Structural)]
pub struct JuliaParams {
    pub c: Complex,
    pub divergence_threshold_sqr: Scalar,
}

/// The fractal that a task asks for. Every family answers `get_c` and
/// `get_divergence_threshold_sqr`, so that code which hands tasks on need not
/// know the families.
#[derive(Clone, Copy, Debug, PartialEq, Eq, Structural)]
pub enum FractalDescriptor {
    Julia(JuliaParams),
}

/// A unit of work: one fragment of the image, with all that is needed to
/// compute it. `id` is the place of the fragment's bytes in the image buffer.
#[derive(Clone, Copy, Debug, PartialEq, Eq, Structural)]
pub struct FragmentTask {
    pub id: ByteSpan,
    pub fractal: FractalDescriptor,
    pub max_iteration: u32,
    pub resolution: Resolution,
    pub range: Range,
}

/// The answer to a task. `id` is the task's `id`; `pixels` is the place of the
/// pixel bytes among the bytes that follow the message on the wire.
#[derive(Clone, Copy, Debug, PartialEq, Eq, Structural)]
pub struct FragmentResult {
    pub id: ByteSpan,
    pub resolution: Resolution,
    pub range: Range,
    pub pixels: ByteSpan,
}

/// A worker's announcement: its name and the most pixels it takes in one task.
#[derive(Clone, Debug, PartialEq, Eq)]
pub struct FragmentRequest {
    pub worker_name: String,
    pub maximal_work_load: u32,
}

/// A message of the protocol.
#[derive(Clone, Debug, PartialEq, Eq)]
pub enum Message {
    FragmentRequest(FragmentRequest),
    FragmentTask(FragmentTask),
    FragmentResult(FragmentResult),
    /// The sender is done and closes the connection in good order.
    Close,
}

/// A request as contracts see it.
pub struct FragmentRequestView {
    pub worker_name: Seq<char>,
    pub maximal_work_load: u32,
}

/// A message as contracts see it.
pub enum MessageView {
    FragmentRequest(FragmentRequestView),
    FragmentTask(FragmentTask),
    FragmentResult(FragmentResult),
    Close,
}

impl View for FragmentRequest {
    type V = FragmentRequestView;

    open spec fn view(&self) -> FragmentRequestView {
        FragmentRequestView {
            worker_name: self.worker_name@,
            maximal_work_load: self.maximal_work_load,
        }
    }
}

impl View for Message {
    type V = MessageView;

    open spec fn view(&self) -> MessageView {
        match *self {
            Message::FragmentRequest(r) => MessageView::FragmentRequest(r@),
            Message::FragmentTask(t) => MessageView::FragmentTask(t),
            Message::FragmentResult(r) => MessageView::FragmentResult(r),
            Message::Close => MessageView::Close,
        }
    }
}

impl ByteSpan {
    /// The offset of the first byte behind the span.
    pub open spec fn spec_end(self) -> int {
        self.offset + self.count
    }

    /// Whether the span lies within a buffer of `len` bytes.
    pub open spec fn spec_fits(self, len: int) -> bool {
        self.spec_end() <= len
    }

    /// Whether byte `k` of the buffer belongs to the span.
    pub open spec fn covers(self, k: int) -> bool {
        self.offset <= k < self.spec_end()
    }

    /// Whether the two spans have no byte in common.
    pub open spec fn disjoint(self, other: ByteSpan) -> bool {
        self.spec_end() <= other.offset || other.spec_end() <= self.offset || self.count == 0
            || other.count == 0
    }

    pub fn new(offset: u32, count: u32) -> (s: ByteSpan)
        ensures
            s.offset == offset,
            s.count == count,
    {
        ByteSpan { offset, count }
    }

    pub fn end(self) -> (e: u64)
        ensures
            e == self.spec_end(),
    {
        self.offset as u64 + self.count as u64
    }

    pub fn fits(self, len: usize) -> (b: bool)
        ensures
            b == self.spec_fits(len as int),
    {
        self.end() <= len as u64
    }
}

impl Resolution {
    /// A grid has at least one column and one row.
    pub open spec fn wf(self) -> bool {
        self.nx > 0 && self.ny > 0
    }

    /// Pixels in the grid.
    pub open spec fn spec_pixel_count(self) -> int {
        self.nx * self.ny
    }

    /// Bytes that the pixels of the grid take.
    pub open spec fn spec_byte_count(self) -> int {
        BYTES_PER_PIXEL * (self.nx * self.ny)
    }

    pub fn new(nx: u16, ny: u16) -> (r: Resolution)
        ensures
            r.nx == nx,
            r.ny == ny,
    {
        Resolution { nx, ny }
    }

    pub fn is_valid(self) -> (b: bool)
        ensures
            b == self.wf(),
    {
        self.nx > 0 && self.ny > 0
    }

    pub fn pixel_count(self) -> (n: u32)
        ensures
            n == self.spec_pixel_count(),
    {
        proof {
            pixel_count_bound(self);
        }
        self.nx as u32 * self.ny as u32
    }

    pub fn byte_count(self) -> (n: u64)
        ensures
            n == self.spec_byte_count(),
    {
        proof {
            pixel_count_bound(self);
        }
        BYTES_PER_PIXEL * (self.nx as u64 * self.ny as u64)
    }
}

/// A grid of 16-bit sides has fewer than 2^32 pixels.
pub proof fn pixel_count_bound(r: Resolution)
    ensures
        0 <= r.spec_pixel_count() <= 0xfffe_0001,
        r.wf() ==> r.spec_pixel_count() >= 1,
{
    let nx = r.nx as int;
    let ny = r.ny as int;
    assert(0 <= nx * ny <= 0xfffe_0001) by (nonlinear_arith)
        requires
            0 <= nx <= 0xffff,
            0 <= ny <= 0xffff,
    ;
    if r.wf() {
        assert(nx * ny >= 1) by (nonlinear_arith)
            requires
                nx >= 1,
                ny >= 1,
        ;
    }
}

impl Point {
    pub fn new(x: Scalar, y: Scalar) -> (p: Point)
        ensures
            p.x == x,
            p.y == y,
    {
        Point { x, y }
    }
}

impl Range {
    /// The lower corner lies strictly below and to the left of the upper one.
    pub open spec fn wf(self) -> bool {
        self.min.x.spec_lt(self.max.x) && self.min.y.spec_lt(self.max.y)
    }

    pub fn new(min: Point, max: Point) -> (r: Range)
        ensures
            r.min == min,
            r.max == max,
    {
        Range { min, max }
    }

    pub fn is_valid(self) -> (b: bool)
        ensures
            b == self.wf(),
    {
        self.min.x.lt(self.max.x) && self.min.y.lt(self.max.y)
    }
}

impl FractalDescriptor {
    pub open spec fn spec_get_c(self) -> Complex {
        match self {
            FractalDescriptor::Julia(p) => p.c,
        }
    }

    pub open spec fn spec_get_divergence_threshold_sqr(self) -> Scalar {
        match self {
            FractalDescriptor::Julia(p) => p.divergence_threshold_sqr,
        }
    }

    /// The constant that each step of the iteration adds.
    #[verifier::when_used_as_spec(spec_get_c)]
    pub fn get_c(self) -> (c: Complex)
        ensures
            c == self.spec_get_c(),
    {
        match self {
            FractalDescriptor::Julia(p) => p.c,
        }
    }

    /// The squared magnitude from which on a point counts as escaped.
    #[verifier::when_used_as_spec(spec_get_divergence_threshold_sqr)]
    pub fn get_divergence_threshold_sqr(self) -> (t: Scalar)
        ensures
            t == self.spec_get_divergence_threshold_sqr(),
    {
        match self {
            FractalDescriptor::Julia(p) => p.divergence_threshold_sqr,
        }
    }
}

impl FragmentTask {
    /// A task names a grid and a rectangle that are in order, and a span of
    /// the image buffer that holds exactly the grid's pixels and ends within
    /// what 32 bits address.
    pub open spec fn wf(self) -> bool {
        &&& self.resolution.wf()
        &&& self.range.wf()
        &&& self.id.count == self.resolution.spec_byte_count()
        &&& self.id.spec_end() <= u32::MAX
    }

    pub fn is_valid(&self) -> (b: bool)
        ensures
            b == self.wf(),
    {
        self.resolution.is_valid() && self.range.is_valid() && self.id.count as u64
            == self.resolution.byte_count() && self.id.end() <= 0xffff_ffff
    }
}

impl FragmentResult {
    /// Bytes behind the message that a reader has to take to hold the pixels.
    pub open spec fn spec_trailing_len(self) -> int {
        self.pixels.spec_end()
    }

    pub fn trailing_len(&self) -> (n: u64)
        ensures
            n == self.spec_trailing_len(),
    {
        self.pixels.end()
    }
}

} // verus!
