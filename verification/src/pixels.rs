//! From iteration counts to pixel bytes, and the bookkeeping of the escape-time
//! loop. The arithmetic that tells whether a point has escaped is the caller's.

use crate::model::FragmentTask;
use vstd::prelude::*;

verus! {

/// The greatest count that three bytes hold.
pub const MAX_PIXEL_COUNT: u32 = 0xff_ffff;

/// Why iteration counts could not be turned into the pixels of a task.
#[derive(Clone, Copy, Debug, PartialEq, Eq, Structural)]
pub enum RenderError {
    /// There is not one count for each pixel of the task.
    WrongPixelCount,
    /// The count of pixel `pixel` is above the task's `max_iteration`; it is
    /// the first such.
    CountAboveLimit { pixel: usize },
}

/// What the escape-time loop does next.
#[derive(Clone, Copy, Debug, PartialEq, Eq, Structural)]
pub enum EscapeStep {
    /// Iterate once more; `next` iterations will then have been made.
    Iterate { next: u32 },
    /// Stop; `count` is the point's iteration count.
    Finished { count: u32 },
}

/// The three bytes of a pixel: the iteration count, most significant byte
/// first. Counts that three bytes do not hold give the greatest that they do.
pub open spec fn pixel_of(count: u32) -> Seq<u8> {
    let c = if count > MAX_PIXEL_COUNT {
        MAX_PIXEL_COUNT
    } else {
        count
    };
    seq![(c / 0x1_0000) as u8, ((c / 0x100) % 0x100) as u8, (c % 0x100) as u8]
}

/// The pixel bytes of a grid whose pixels have the given counts, row by row.
pub open spec fn pixels_of(counts: Seq<u32>) -> Seq<u8> {
    Seq::new(3 * counts.len(), |k: int| pixel_of(counts[k / 3])[k % 3])
}

/// Every count is within the limit.
pub open spec fn counts_within(counts: Seq<u32>, limit: u32) -> bool {
    forall|i: int| 0 <= i < counts.len() ==> counts[i] <= limit
}

/// The counts are not those of the task's pixels, for the reason `error`: there
/// are too few or too many, or the first count above the limit decides.
pub open spec fn render_defect(task: FragmentTask, counts: Seq<u32>, error: RenderError) -> bool {
    match error {
        RenderError::WrongPixelCount => counts.len() != task.resolution.spec_pixel_count(),
        RenderError::CountAboveLimit { pixel } => {
            &&& counts.len() == task.resolution.spec_pixel_count()
            &&& pixel < counts.len()
            &&& counts[pixel as int] > task.max_iteration
            &&& counts_within(counts.take(pixel as int), task.max_iteration)
        },
    }
}

/// Whether the counts are those of the task's pixels: one for each pixel, none
/// above the task's `max_iteration`.
pub open spec fn renders(task: FragmentTask, counts: Seq<u32>) -> bool {
    counts.len() == task.resolution.spec_pixel_count() && counts_within(counts, task.max_iteration)
}

/// Counts with a defect are not those of the task's pixels, and counts have one
/// defect at most.
pub proof fn defect_excludes_render(
    task: FragmentTask,
    counts: Seq<u32>,
    error: RenderError,
    other: RenderError,
)
    requires
        render_defect(task, counts, error),
    ensures
        !renders(task, counts),
        render_defect(task, counts, other) ==> other == error,
{
    if let RenderError::CountAboveLimit { pixel } = error {
        if let RenderError::CountAboveLimit { pixel: second } = other {
            if render_defect(task, counts, other) {
                if pixel < second {
                    assert(counts.take(second as int)[pixel as int] == counts[pixel as int]);
                }
                if second < pixel {
                    assert(counts.take(pixel as int)[second as int] == counts[second as int]);
                }
            }
        }
    }
}

/// The iteration count of a point. `escaped(i)` says whether the point has
/// escaped after `i` iterations. Counting goes on from `made` iterations, and
/// ends at the first count at which the point has escaped, or at
/// `max_iteration`.
pub open spec fn escape_count(escaped: spec_fn(int) -> bool, made: int, max_iteration: int) -> int
    decreases max_iteration - made,
{
    if made >= max_iteration {
        max_iteration
    } else if escaped(made) {
        made
    } else {
        escape_count(escaped, made + 1, max_iteration)
    }
}

/// What the loop does after `iterations` iterations, the point having
/// `escaped` or not.
pub open spec fn spec_escape_step(iterations: u32, max_iteration: u32, escaped: bool) -> EscapeStep {
    if iterations >= max_iteration {
        EscapeStep::Finished { count: max_iteration }
    } else if escaped {
        EscapeStep::Finished { count: iterations }
    } else {
        EscapeStep::Iterate { next: (iterations + 1) as u32 }
    }
}

/// One decision of the escape-time loop: stop at the limit or once the point
/// has escaped, and iterate otherwise.
#[verifier::when_used_as_spec(spec_escape_step)]
pub fn escape_step(iterations: u32, max_iteration: u32, escaped: bool) -> (step: EscapeStep)
    ensures
        step == spec_escape_step(iterations, max_iteration, escaped),
{
    if iterations >= max_iteration {
        EscapeStep::Finished { count: max_iteration }
    } else if escaped {
        EscapeStep::Finished { count: iterations }
    } else {
        EscapeStep::Iterate { next: iterations + 1 }
    }
}

/// The iteration count lies between the iterations made and the limit; the
/// point has not escaped at any count before it; and where it is below the
/// limit, the point has escaped at it.
pub proof fn escape_count_is_first(escaped: spec_fn(int) -> bool, made: int, max_iteration: int)
    requires
        0 <= made <= max_iteration,
    ensures
        made <= escape_count(escaped, made, max_iteration) <= max_iteration,
        forall|i: int|
            made <= i < escape_count(escaped, made, max_iteration) ==> !(#[trigger] escaped(i)),
        escape_count(escaped, made, max_iteration) < max_iteration ==> escaped(
            escape_count(escaped, made, max_iteration),
        ),
    decreases max_iteration - made,
{
    if made < max_iteration && !escaped(made) {
        escape_count_is_first(escaped, made + 1, max_iteration);
    }
}

/// Following the steps of the loop ends with the iteration count: a step that
/// finishes gives it, and a step that iterates leaves it as it was.
pub proof fn escape_step_follows_count(escaped: spec_fn(int) -> bool, made: u32, max_iteration: u32)
    requires
        made <= max_iteration,
    ensures
        match spec_escape_step(made, max_iteration, escaped(made as int)) {
            EscapeStep::Finished { count } => count == escape_count(
                escaped,
                made as int,
                max_iteration as int,
            ),
            EscapeStep::Iterate { next } => next == made + 1 && next <= max_iteration
                && escape_count(escaped, next as int, max_iteration as int) == escape_count(
                escaped,
                made as int,
                max_iteration as int,
            ),
        },
{
}

/// Counts that three bytes hold give different pixels where they differ.
pub proof fn pixel_of_is_injective(a: u32, b: u32)
    requires
        a <= MAX_PIXEL_COUNT,
        b <= MAX_PIXEL_COUNT,
        pixel_of(a) == pixel_of(b),
    ensures
        a == b,
{
    assert(pixel_of(a)[0] == pixel_of(b)[0]);
    assert(pixel_of(a)[1] == pixel_of(b)[1]);
    assert(pixel_of(a)[2] == pixel_of(b)[2]);
}

/// Appends the three bytes of a pixel.
pub fn push_pixel(out: &mut Vec<u8>, count: u32)
    ensures
        final(out)@ == old(out)@ + pixel_of(count),
{
    let c: u32 = if count > MAX_PIXEL_COUNT {
        MAX_PIXEL_COUNT
    } else {
        count
    };
    out.push((c / 0x1_0000) as u8);
    out.push(((c / 0x100) % 0x100) as u8);
    out.push((c % 0x100) as u8);
    assert(out@ =~= old(out)@ + pixel_of(count));
}

/// The pixel bytes of a task from the iteration counts of its pixels, row by
/// row: one count for each pixel, none above the task's `max_iteration`.
pub fn render_pixels(task: &FragmentTask, counts: &[u32]) -> (result: Result<Vec<u8>, RenderError>)
    ensures
        match result {
            Ok(bytes) => renders(*task, counts@) && bytes@ == pixels_of(counts@),
            Err(error) => render_defect(*task, counts@, error),
        },
{
    let n: usize = counts.len();
    if n as u64 != task.resolution.pixel_count() as u64 {
        return Err(RenderError::WrongPixelCount);
    }
    let mut bytes: Vec<u8> = Vec::new();
    let mut i: usize = 0;
    while i < n
        invariant
            n == counts@.len(),
            n == task.resolution.spec_pixel_count(),
            0 <= i <= n,
            counts_within(counts@.take(i as int), task.max_iteration),
            bytes@ == pixels_of(counts@.take(i as int)),
        decreases n - i,
    {
        let count: u32 = counts[i];
        if count > task.max_iteration {
            return Err(RenderError::CountAboveLimit { pixel: i });
        }
        push_pixel(&mut bytes, count);
        proof {
            let before = counts@.take(i as int);
            let after = counts@.take(i + 1);
            assert(after =~= before.push(count));
            assert(pixels_of(after) =~= pixels_of(before) + pixel_of(count));
        }
        i += 1;
    }
    assert(counts@.take(n as int) =~= counts@);
    Ok(bytes)
}

} // verus!
