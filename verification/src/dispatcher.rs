//! The dispatcher's books for one render job: the fragments of the image, which
//! of them are pending, handed out or done, and the image buffer into which the
//! results are written.

use crate::framing::FramingError;
use crate::model::{ByteSpan, FragmentResult, FragmentTask};
use crate::protocol::{ConnectionError, ProtocolError};
use crate::reassembly::{
    order_in_range, order_is_complete, payloads_match, replay, start_of, tiles, write_at,
};
use crate::worker::result_for;
use vstd::prelude::*;

verus! {

/// Where a fragment stands.
#[derive(Clone, Copy, Debug, PartialEq, Eq, Structural)]
pub enum FragmentState {
    /// Not handed out, or handed out and given back.
    Pending,
    /// Handed to a worker whose result has not come.
    InFlight,
    /// Its bytes are in the image buffer.
    Done,
}

/// Why a list of fragments is no job.
#[derive(Clone, Copy, Debug, PartialEq, Eq, Structural)]
pub enum JobError {
    /// The list is empty.
    NoFragments,
    /// The fragment at `index` is not in order by itself.
    InvalidFragment { index: usize },
    /// The fragment at `index` does not start where the one before it ends, or,
    /// if it is the first, at byte 0.
    NotContiguous { index: usize },
}

/// What a worker's request is answered with.
#[derive(Clone, Copy, Debug, PartialEq, Eq, Structural)]
pub enum Assignment {
    /// The fragment at `index` was handed out.
    Task { index: usize, task: FragmentTask },
    /// Fragments are pending, and each of them is more than the worker takes.
    NoSuitableWork,
    /// No fragment is pending.
    NothingPending,
}

/// The places of the fragments in the image buffer.
pub open spec fn spans_of(fragments: Seq<FragmentTask>) -> Seq<ByteSpan> {
    Seq::new(fragments.len(), |i: int| fragments[i].id)
}

/// The fragment at `i` is in order and starts where the one before it ends.
pub open spec fn fragment_in_place(fragments: Seq<FragmentTask>, i: int) -> bool {
    fragments[i].wf() && fragments[i].id.offset == start_of(spans_of(fragments), i)
}

/// The first `n` fragments are in order and lie back to back from byte 0.
pub open spec fn in_place_up_to(fragments: Seq<FragmentTask>, n: int) -> bool {
    forall|i: int| 0 <= i < n ==> fragment_in_place(fragments, i)
}

/// The fragments make a job: there is one at least, each is in order, and
/// together they take the image buffer apart without gap or overlap.
pub open spec fn is_job(fragments: Seq<FragmentTask>) -> bool {
    fragments.len() > 0 && in_place_up_to(fragments, fragments.len() as int)
}

/// Bytes in the image buffer of a job.
pub open spec fn image_len(fragments: Seq<FragmentTask>) -> int {
    start_of(spans_of(fragments), fragments.len() as int)
}

/// The pixel bytes of a result: the bytes that `pixels` names among those that
/// followed the message.
pub open spec fn pixel_bytes(trailing: Seq<u8>, pixels: ByteSpan) -> Seq<u8>
    recommends
        pixels.spec_fits(trailing.len() as int),
{
    trailing.subrange(pixels.offset as int, pixels.spec_end())
}

/// The books as contracts see them.
pub struct DispatcherView {
    pub fragments: Seq<FragmentTask>,
    pub states: Seq<FragmentState>,
    pub buffer: Seq<u8>,
}

impl DispatcherView {
    /// What holds of the books at all times.
    pub open spec fn wf(self) -> bool {
        &&& is_job(self.fragments)
        &&& self.states.len() == self.fragments.len()
        &&& self.buffer.len() == image_len(self.fragments)
        &&& self.buffer.len() <= u32::MAX
    }

    /// The fragment at `i` is pending and within what a worker of capacity
    /// `load` takes.
    pub open spec fn eligible(self, i: int, load: u32) -> bool {
        self.states[i] == FragmentState::Pending && self.fragments[i].resolution.spec_pixel_count()
            <= load
    }

    /// The result answers the fragment at `index`: that fragment is in flight,
    /// the result names its place in the image, and brings as many pixel bytes
    /// as the place holds.
    pub open spec fn answered_by(self, index: int, result: FragmentResult) -> bool {
        &&& 0 <= index < self.fragments.len()
        &&& self.states[index] == FragmentState::InFlight
        &&& result.id == self.fragments[index].id
        &&& result.pixels.count == result.id.count
    }

    /// What handing out a fragment to a worker of capacity `load` does: `answer`
    /// is what the worker is told and `after` are the books then. The first
    /// pending fragment that the worker takes goes in flight; where there is
    /// none, the books stay as they are.
    pub open spec fn assigns(self, load: u32, answer: Assignment, after: DispatcherView) -> bool {
        &&& after.fragments == self.fragments
        &&& after.buffer == self.buffer
        &&& match answer {
            Assignment::Task { index, task } => {
                &&& index < self.fragments.len()
                &&& self.eligible(index as int, load)
                &&& forall|j: int| 0 <= j < index ==> !self.eligible(j, load)
                &&& task == self.fragments[index as int]
                &&& after.states == self.states.update(index as int, FragmentState::InFlight)
            },
            Assignment::NoSuitableWork => {
                &&& after.states == self.states
                &&& forall|j: int| 0 <= j < self.fragments.len() ==> !self.eligible(j, load)
                &&& exists|j: int|
                    0 <= j < self.states.len() && self.states[j] == FragmentState::Pending
            },
            Assignment::NothingPending => {
                &&& after.states == self.states
                &&& forall|j: int|
                    0 <= j < self.states.len() ==> self.states[j] != FragmentState::Pending
            },
        }
    }

    /// The books after the result for the fragment at `index` was taken in: its
    /// pixel bytes stand at the fragment's place, and the fragment is done.
    pub open spec fn written(self, index: int, result: FragmentResult, trailing: Seq<u8>) -> DispatcherView {
        DispatcherView {
            fragments: self.fragments,
            states: self.states.update(index, FragmentState::Done),
            buffer: write_at(
                self.buffer,
                result.id.offset as int,
                pixel_bytes(trailing, result.pixels),
            ),
        }
    }

    /// The books after the fragment at `index` was given back: it is pending
    /// again if it was in flight, and nothing has changed if it was not.
    pub open spec fn released(self, index: int) -> DispatcherView {
        if 0 <= index < self.states.len() && self.states[index] == FragmentState::InFlight {
            DispatcherView {
                fragments: self.fragments,
                states: self.states.update(index, FragmentState::Pending),
                buffer: self.buffer,
            }
        } else {
            self
        }
    }

    /// Every fragment is done.
    pub open spec fn complete(self) -> bool {
        forall|i: int| 0 <= i < self.states.len() ==> self.states[i] == FragmentState::Done
    }
}

/// The books of one render job. The fields are private: books come from `new`
/// alone, which leaves them in order, and every operation keeps them so.
pub struct Dispatcher {
    fragments: Vec<FragmentTask>,
    states: Vec<FragmentState>,
    buffer: Vec<u8>,
}

impl View for Dispatcher {
    type V = DispatcherView;

    closed spec fn view(&self) -> DispatcherView {
        DispatcherView { fragments: self.fragments@, states: self.states@, buffer: self.buffer@ }
    }
}

/// The image buffer of a job has as many bytes as its last fragment's end says,
/// and the fragments' places take it apart.
pub proof fn job_tiles_image(fragments: Seq<FragmentTask>)
    requires
        is_job(fragments),
    ensures
        tiles(spans_of(fragments), image_len(fragments)),
        image_len(fragments) == fragments.last().id.spec_end(),
        0 < image_len(fragments) <= u32::MAX,
{
    let n = fragments.len() as int;
    assert(fragment_in_place(fragments, n - 1));
    assert(spans_of(fragments)[n - 1] == fragments[n - 1].id);
    crate::model::pixel_count_bound(fragments[n - 1].resolution);
    assert forall|i: int| 0 <= i < spans_of(fragments).len() implies (#[trigger] spans_of(
        fragments,
    )[i]).offset == start_of(spans_of(fragments), i) by {
        assert(fragment_in_place(fragments, i));
    }
}

/// The list of fragments is no job for the reason `error`: the first fragment
/// that is not in order, or not in its place, decides.
pub open spec fn job_defect(fragments: Seq<FragmentTask>, error: JobError) -> bool {
    match error {
        JobError::NoFragments => fragments.len() == 0,
        JobError::InvalidFragment { index } => {
            &&& index < fragments.len()
            &&& in_place_up_to(fragments, index as int)
            &&& !fragments[index as int].wf()
        },
        JobError::NotContiguous { index } => {
            &&& index < fragments.len()
            &&& in_place_up_to(fragments, index as int)
            &&& fragments[index as int].wf()
            &&& fragments[index as int].id.offset != start_of(spans_of(fragments), index as int)
        },
    }
}

/// A list with a defect is no job, and a list has one defect at most.
pub proof fn defect_excludes_job(fragments: Seq<FragmentTask>, error: JobError, other: JobError)
    requires
        job_defect(fragments, error),
    ensures
        !is_job(fragments),
        job_defect(fragments, other) ==> other == error,
{
    match error {
        JobError::NoFragments => {},
        JobError::InvalidFragment { index } => {
            assert(!fragment_in_place(fragments, index as int));
        },
        JobError::NotContiguous { index } => {
            assert(!fragment_in_place(fragments, index as int));
        },
    }
    if job_defect(fragments, other) {
        match other {
            JobError::NoFragments => {},
            JobError::InvalidFragment { index } => {
                assert(!fragment_in_place(fragments, index as int));
            },
            JobError::NotContiguous { index } => {
                assert(!fragment_in_place(fragments, index as int));
            },
        }
    }
}

/// Holds a list of fragments against what makes a job, and gives the length of
/// the job's image buffer, or the list's defect.
pub fn check_job(fragments: &Vec<FragmentTask>) -> (result: Result<u32, JobError>)
    ensures
        match result {
            Ok(len) => is_job(fragments@) && len == image_len(fragments@),
            Err(error) => job_defect(fragments@, error),
        },
{
    let n: usize = fragments.len();
    if n == 0 {
        return Err(JobError::NoFragments);
    }
    let mut expected: u32 = 0;
    let mut i: usize = 0;
    while i < n
        invariant
            n == fragments@.len(),
            0 <= i <= n,
            in_place_up_to(fragments@, i as int),
            expected == start_of(spans_of(fragments@), i as int),
        decreases n - i,
    {
        let task = &fragments[i];
        if !task.is_valid() {
            return Err(JobError::InvalidFragment { index: i });
        }
        if task.id.offset != expected {
            return Err(JobError::NotContiguous { index: i });
        }
        proof {
            assert(spans_of(fragments@)[i as int] == fragments@[i as int].id);
            assert(fragment_in_place(fragments@, i as int));
        }
        expected = expected + task.id.count;
        i += 1;
    }
    Ok(expected)
}

impl Dispatcher {
    /// Opens the books for the given fragments: all pending, the image buffer
    /// zeroed. The fragments come in the order of their places in the buffer.
    pub fn new(fragments: Vec<FragmentTask>) -> (result: Result<Dispatcher, JobError>)
        ensures
            match result {
                Ok(d) => {
                    &&& is_job(fragments@)
                    &&& d@.wf()
                    &&& d@.fragments == fragments@
                    &&& d@.states == Seq::new(fragments@.len(), |i: int| FragmentState::Pending)
                    &&& d@.buffer == Seq::new(image_len(fragments@) as nat, |k: int| 0u8)
                },
                Err(error) => job_defect(fragments@, error),
            },
    {
        let len: u32 = match check_job(&fragments) {
            Ok(len) => len,
            Err(error) => {
                return Err(error);
            },
        };
        let n: usize = fragments.len();
        let mut states: Vec<FragmentState> = Vec::new();
        let mut i: usize = 0;
        while i < n
            invariant
                0 <= i <= n,
                states@ == Seq::new(i as nat, |k: int| FragmentState::Pending),
            decreases n - i,
        {
            states.push(FragmentState::Pending);
            i += 1;
            assert(states@ =~= Seq::new(i as nat, |k: int| FragmentState::Pending));
        }
        let buffer: Vec<u8> = vec![0u8; len as usize];
        assert(buffer@ =~= Seq::new(image_len(fragments@) as nat, |k: int| 0u8));
        Ok(Dispatcher { fragments, states, buffer })
    }

    /// Whether the books are in order. Books that came from `new` are, and
    /// stay so under every operation.
    pub fn is_valid(&self) -> (valid: bool)
        ensures
            valid == self@.wf(),
    {
        match check_job(&self.fragments) {
            Ok(len) => self.states.len() == self.fragments.len() && self.buffer.len()
                == len as usize,
            Err(error) => {
                proof {
                    defect_excludes_job(self.fragments@, error, error);
                }
                false
            },
        }
    }

    /// Fragments in the job.
    pub fn fragment_count(&self) -> (n: usize)
        ensures
            n == self@.fragments.len(),
    {
        self.fragments.len()
    }

    /// The image buffer as it stands.
    pub fn buffer(&self) -> (bytes: &Vec<u8>)
        ensures
            bytes@ == self@.buffer,
    {
        &self.buffer
    }

    /// Closes the books and hands out the image buffer.
    pub fn into_buffer(self) -> (bytes: Vec<u8>)
        ensures
            bytes@ == self@.buffer,
    {
        self.buffer
    }

    /// The state of the fragment at `index`, or nothing where there is no such
    /// fragment.
    pub fn state_of(&self, index: usize) -> (state: Option<FragmentState>)
        ensures
            index < self@.states.len() ==> state == Some(self@.states[index as int]),
            index >= self@.states.len() ==> state.is_none(),
    {
        if index < self.states.len() {
            Some(self.states[index])
        } else {
            None
        }
    }

    /// Whether every fragment is done.
    pub fn is_complete(&self) -> (done: bool)
        ensures
            done == self@.complete(),
    {
        let mut i: usize = 0;
        while i < self.states.len()
            invariant
                0 <= i <= self.states@.len(),
                self.states@ == self@.states,
                forall|j: int| 0 <= j < i ==> self.states@[j] == FragmentState::Done,
            decreases self.states@.len() - i,
        {
            if self.states[i] != FragmentState::Done {
                return false;
            }
            i += 1;
        }
        true
    }

    /// Hands out the first pending fragment that a worker of capacity
    /// `maximal_work_load` takes: the first whose pixels are no more than that.
    /// No fragment of more pixels is ever handed to the worker.
    pub fn assign(&mut self, maximal_work_load: u32) -> (answer: Assignment)
        requires
            old(self)@.wf(),
        ensures
            final(self)@.wf(),
            old(self)@.assigns(maximal_work_load, answer, final(self)@),
            answer matches Assignment::Task { task, .. } ==> task.resolution.spec_pixel_count()
                <= maximal_work_load,
    {
        let load: u32 = maximal_work_load;
        let n: usize = self.fragments.len();
        let mut pending: Option<usize> = None;
        let mut i: usize = 0;
        while i < n
            invariant
                self@ == old(self)@,
                self@.wf(),
                load == maximal_work_load,
                n == self.fragments@.len(),
                n == self.states@.len(),
                self.states@ == self@.states,
                self.fragments@ == self@.fragments,
                0 <= i <= n,
                forall|j: int| 0 <= j < i ==> !self@.eligible(j, load),
                pending matches Some(p) ==> p < i && self@.states[p as int]
                    == FragmentState::Pending,
                pending.is_none() ==> forall|j: int|
                    0 <= j < i ==> self@.states[j] != FragmentState::Pending,
            decreases n - i,
        {
            if self.states[i] == FragmentState::Pending {
                if self.fragments[i].resolution.pixel_count() <= load {
                    let task: FragmentTask = self.fragments[i];
                    self.states.set(i, FragmentState::InFlight);
                    assert(self@.states =~= old(self)@.states.update(
                        i as int,
                        FragmentState::InFlight,
                    ));
                    return Assignment::Task { index: i, task };
                }
                pending = Some(i);
            }
            i += 1;
        }
        match pending {
            Some(_) => Assignment::NoSuitableWork,
            None => Assignment::NothingPending,
        }
    }
    /// Takes in the result for the fragment at `index`: where the result answers
    /// that fragment and its pixel bytes are all there, writes them to the
    /// fragment's place in the image buffer and marks the fragment done.
    /// Otherwise the books stay as they are.
    pub fn submit(&mut self, index: usize, result: &FragmentResult, trailing: &[u8]) -> (outcome:
        Result<(), ConnectionError>)
        requires
            old(self)@.wf(),
        ensures
            final(self)@.wf(),
            final(self)@.fragments == old(self)@.fragments,
            match outcome {
                Ok(_) => {
                    &&& old(self)@.answered_by(index as int, *result)
                    &&& result.pixels.spec_fits(trailing@.len() as int)
                    &&& final(self)@ == old(self)@.written(index as int, *result, trailing@)
                },
                Err(ConnectionError::Protocol(e)) => {
                    &&& e == ProtocolError::MismatchedResult
                    &&& !old(self)@.answered_by(index as int, *result)
                    &&& final(self)@ == old(self)@
                },
                Err(ConnectionError::Framing(e)) => {
                    &&& e == FramingError::Truncated
                    &&& old(self)@.answered_by(index as int, *result)
                    &&& !result.pixels.spec_fits(trailing@.len() as int)
                    &&& final(self)@ == old(self)@
                },
            },
    {
        if index >= self.fragments.len() {
            return Err(ConnectionError::Protocol(ProtocolError::MismatchedResult));
        }
        if self.states[index] != FragmentState::InFlight {
            return Err(ConnectionError::Protocol(ProtocolError::MismatchedResult));
        }
        let id: ByteSpan = self.fragments[index].id;
        if result.id != id || result.pixels.count != id.count {
            return Err(ConnectionError::Protocol(ProtocolError::MismatchedResult));
        }
        if !result.pixels.fits(trailing.len()) {
            return Err(ConnectionError::Framing(FramingError::Truncated));
        }
        proof {
            job_tiles_image(self@.fragments);
            let spans = spans_of(self@.fragments);
            assert(spans[index as int] == id);
            crate::reassembly::start_of_is_monotonic(spans, index as int, spans.len() as int);
        }
        let target: usize = id.offset as usize;
        let source: usize = result.pixels.offset as usize;
        let count: usize = id.count as usize;
        let image_len: usize = self.buffer.len();
        let trailing_len: usize = trailing.len();
        let mut t: usize = 0;
        while t < count
            invariant
                0 <= t <= count,
                target + count <= image_len == self.buffer@.len(),
                source + count <= trailing_len == trailing@.len(),
                self.buffer@.len() == old(self).buffer@.len(),
                self.fragments@ == old(self).fragments@,
                self.states@ == old(self).states@,
                forall|k: int|
                    target <= k < target + t ==> self.buffer@[k] == trailing@[source + k - target],
                forall|k: int|
                    0 <= k < self.buffer@.len() && !(target <= k < target + t) ==> self.buffer@[k]
                        == old(self).buffer@[k],
            decreases count - t,
        {
            self.buffer.set(target + t, trailing[source + t]);
            t += 1;
        }
        self.states.set(index, FragmentState::Done);
        proof {
            assert(self@.buffer =~= write_at(
                old(self)@.buffer,
                result.id.offset as int,
                pixel_bytes(trailing@, result.pixels),
            ));
            assert(self@.states =~= old(self)@.states.update(index as int, FragmentState::Done));
        }
        Ok(())
    }

    /// Gives the fragment at `index` back to the pending ones, where it is in
    /// flight: its worker is gone. Any other fragment stays as it is.
    pub fn release(&mut self, index: usize)
        requires
            old(self)@.wf(),
        ensures
            final(self)@.wf(),
            final(self)@ == old(self)@.released(index as int),
    {
        if index < self.states.len() {
            if self.states[index] == FragmentState::InFlight {
                self.states.set(index, FragmentState::Pending);
                assert(self@.states =~= old(self)@.states.update(
                    index as int,
                    FragmentState::Pending,
                ));
            }
        }
    }
}

/// What is done stays done, and what is written stays written: taking in a
/// result leaves every other fragment's state and bytes as they were.
pub proof fn written_touches_one_fragment(
    books: DispatcherView,
    index: int,
    result: FragmentResult,
    trailing: Seq<u8>,
    other: int,
)
    requires
        books.wf(),
        books.answered_by(index, result),
        result.pixels.spec_fits(trailing.len() as int),
        0 <= other < books.fragments.len(),
        other != index,
    ensures
        ({
            let after = books.written(index, result, trailing);
            let place = books.fragments[other].id;
            &&& after.wf()
            &&& after.states[other] == books.states[other]
            &&& after.buffer.subrange(place.offset as int, place.spec_end())
                == books.buffer.subrange(place.offset as int, place.spec_end())
            &&& after.buffer.subrange(result.id.offset as int, result.id.spec_end())
                == pixel_bytes(trailing, result.pixels)
        }),
{
    let after = books.written(index, result, trailing);
    let spans = spans_of(books.fragments);
    job_tiles_image(books.fragments);
    assert(spans[index] == books.fragments[index].id);
    assert(spans[other] == books.fragments[other].id);
    crate::reassembly::tiling_has_no_overlap(spans, image_len(books.fragments), index, other);
    crate::reassembly::tiling_has_no_overlap(spans, image_len(books.fragments), other, index);
    let place = books.fragments[other].id;
    assert(after.buffer.subrange(place.offset as int, place.spec_end())
        =~= books.buffer.subrange(place.offset as int, place.spec_end()));
    assert(after.buffer.subrange(result.id.offset as int, result.id.spec_end()) =~= pixel_bytes(
        trailing,
        result.pixels,
    ));
}

/// No operation of the books takes a fragment out of the done ones: handing
/// out and giving back leave a fragment that is done as it is.
pub proof fn done_stays_done(
    books: DispatcherView,
    load: u32,
    answer: Assignment,
    after: DispatcherView,
    index: int,
    other: int,
)
    requires
        books.wf(),
        0 <= other < books.states.len(),
        books.states[other] == FragmentState::Done,
    ensures
        books.assigns(load, answer, after) ==> after.states[other] == FragmentState::Done,
        books.released(index).states[other] == FragmentState::Done,
        books.released(index).buffer == books.buffer,
{
}

/// The books after the results for the fragments named by `order` were taken
/// in, one after the other, each result followed by its fragment's payload.
pub open spec fn after_results(
    books: DispatcherView,
    payloads: Seq<Seq<u8>>,
    order: Seq<int>,
) -> DispatcherView
    decreases order.len(),
{
    if order.len() == 0 {
        books
    } else {
        let i = order.last();
        after_results(books, payloads, order.drop_last()).written(
            i,
            result_for(books.fragments[i]),
            payloads[i],
        )
    }
}

/// Taking in results is a replay of their payloads on the image buffer: the
/// buffer afterwards is the replay of the payloads in the order in which the
/// results came, the fragments named are done, and the others are as they were.
pub proof fn results_are_a_replay(books: DispatcherView, payloads: Seq<Seq<u8>>, order: Seq<int>)
    requires
        books.wf(),
        payloads_match(spans_of(books.fragments), payloads),
        order_in_range(order, books.fragments.len() as int),
    ensures
        ({
            let after = after_results(books, payloads, order);
            &&& after.wf()
            &&& after.fragments == books.fragments
            &&& after.buffer == replay(books.buffer, spans_of(books.fragments), payloads, order)
            &&& forall|i: int|
                0 <= i < books.states.len() ==> #[trigger] after.states[i] == if order.contains(i) {
                    FragmentState::Done
                } else {
                    books.states[i]
                }
        }),
    decreases order.len(),
{
    if order.len() > 0 {
        let last = order.last();
        let before = order.drop_last();
        assert(order[order.len() - 1] == last);
        assert(order_in_range(before, books.fragments.len() as int)) by {
            assert forall|j: int| 0 <= j < before.len() implies 0 <= #[trigger] before[j]
                < books.fragments.len() by {
                assert(before[j] == order[j]);
            }
        }
        results_are_a_replay(books, payloads, before);
        let earlier = after_results(books, payloads, before);
        let after = after_results(books, payloads, order);
        let spans = spans_of(books.fragments);
        assert(spans[last] == books.fragments[last].id);
        assert(payloads[last].len() == spans[last].count);
        assert(pixel_bytes(payloads[last], result_for(books.fragments[last]).pixels)
            =~= payloads[last]);
        assert(after.buffer =~= replay(books.buffer, spans, payloads, order));
        assert forall|i: int| 0 <= i < books.states.len() implies #[trigger] after.states[i]
            == if order.contains(i) {
            FragmentState::Done
        } else {
            books.states[i]
        } by {
            if i != last {
                assert(order.contains(i) == before.contains(i)) by {
                    if order.contains(i) {
                        let j = choose|j: int| 0 <= j < order.len() && order[j] == i;
                        assert(before[j] == i);
                    }
                    if before.contains(i) {
                        let j = choose|j: int| 0 <= j < before.len() && before[j] == i;
                        assert(order[j] == i);
                    }
                }
            }
        }
    }
}

/// Once the results for all fragments were taken in, in whatever order, the job
/// is complete and each fragment's payload stands at its place in the image:
/// the image does not depend on the order in which the workers finished.
pub proof fn image_is_complete_in_any_order(
    books: DispatcherView,
    payloads: Seq<Seq<u8>>,
    order: Seq<int>,
    other_order: Seq<int>,
)
    requires
        books.wf(),
        payloads_match(spans_of(books.fragments), payloads),
        order_in_range(order, books.fragments.len() as int),
        order_is_complete(order, books.fragments.len() as int),
        order_in_range(other_order, books.fragments.len() as int),
        order_is_complete(other_order, books.fragments.len() as int),
    ensures
        after_results(books, payloads, order).complete(),
        after_results(books, payloads, order).buffer == after_results(
            books,
            payloads,
            other_order,
        ).buffer,
        forall|i: int|
            0 <= i < books.fragments.len() ==> after_results(
                books,
                payloads,
                order,
            ).buffer.subrange(
                (#[trigger] books.fragments[i]).id.offset as int,
                books.fragments[i].id.spec_end(),
            ) == payloads[i],
{
    let spans = spans_of(books.fragments);
    job_tiles_image(books.fragments);
    results_are_a_replay(books, payloads, order);
    results_are_a_replay(books, payloads, other_order);
    crate::reassembly::reassembly_is_order_independent(
        books.buffer,
        books.buffer,
        spans,
        payloads,
        order,
        other_order,
    );
    crate::reassembly::reassembly_holds_every_payload(books.buffer, spans, payloads, order);
    let after = after_results(books, payloads, order);
    assert forall|i: int| 0 <= i < after.states.len() implies after.states[i]
        == FragmentState::Done by {
        assert(order.contains(i));
    }
    assert forall|i: int| 0 <= i < books.fragments.len() implies after.buffer.subrange(
        (#[trigger] books.fragments[i]).id.offset as int,
        books.fragments[i].id.spec_end(),
    ) == payloads[i] by {
        assert(spans[i] == books.fragments[i].id);
    }
}

} // verus!
