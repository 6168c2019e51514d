//! The dispatcher's side of one connection: what is due from the worker, and
//! what each message of the worker is answered with.

use crate::dispatcher::{
    job_tiles_image, spans_of, Assignment, Dispatcher, DispatcherView, FragmentState,
};
use crate::framing::FramingError;
use crate::model::{FragmentTask, Message, MessageView};
use crate::pixels::{pixels_of, renders};
use crate::protocol::{ConnectionError, ProtocolError};
use crate::reassembly::{start_of, write_at};
use crate::worker::{computed_result_is_taken_in, result_for};
use vstd::prelude::*;

verus! {

/// What the dispatcher waits for on a connection.
#[derive(Clone, Copy, Debug, PartialEq, Eq, Structural)]
pub enum SessionState {
    /// The worker has not announced itself.
    AwaitingRequest,
    /// The fragment at `index` is with the worker, who takes `maximal_work_load`
    /// pixels at most.
    AwaitingResult { index: usize, maximal_work_load: u32 },
    /// The connection is over.
    Closed,
}

/// Why the dispatcher closes a connection.
#[derive(Clone, Copy, Debug, PartialEq, Eq, Structural)]
pub enum CloseReason {
    /// No fragment is pending: the worker is not needed any more.
    NothingPending,
    /// Every pending fragment is more than the worker takes.
    NoSuitableWork,
    /// The worker said that it is done.
    PeerClosed,
    /// The worker did not keep to the protocol.
    Failed(ConnectionError),
}

/// What the dispatcher does on a message.
#[derive(Clone, Copy, Debug, PartialEq, Eq, Structural)]
pub enum Reply {
    /// Send the task and wait for its result.
    Task(FragmentTask),
    /// Close the connection.
    Close(CloseReason),
}

/// What follows from the answer to a worker of capacity `load`.
pub open spec fn after_assignment(answer: Assignment, load: u32) -> (SessionState, Reply) {
    match answer {
        Assignment::Task { index, task } => (
            SessionState::AwaitingResult { index, maximal_work_load: load },
            Reply::Task(task),
        ),
        Assignment::NoSuitableWork => (
            SessionState::Closed,
            Reply::Close(CloseReason::NoSuitableWork),
        ),
        Assignment::NothingPending => (
            SessionState::Closed,
            Reply::Close(CloseReason::NothingPending),
        ),
    }
}

/// A worker of capacity `load` is served from the books `before`: it is handed
/// the first pending fragment that it takes and the session waits for the
/// result, or there is none and the session is closed.
pub open spec fn serves(
    before: DispatcherView,
    load: u32,
    after: DispatcherView,
    state: SessionState,
    reply: Reply,
) -> bool {
    exists|answer: Assignment| #[trigger]
        before.assigns(load, answer, after) && (state, reply) == after_assignment(answer, load)
}

/// The session is closed with an error.
pub open spec fn fails_with(error: ConnectionError, state: SessionState, reply: Reply) -> bool {
    state == SessionState::Closed && reply == Reply::Close(CloseReason::Failed(error))
}

/// What a message does to the books and to the session.
pub open spec fn message_handled(
    before: DispatcherView,
    state: SessionState,
    message: MessageView,
    trailing: Seq<u8>,
    after: DispatcherView,
    next: SessionState,
    reply: Reply,
) -> bool {
    match state {
        SessionState::AwaitingRequest => match message {
            MessageView::FragmentRequest(request) => serves(
                before,
                request.maximal_work_load,
                after,
                next,
                reply,
            ),
            MessageView::Close => after == before && next == SessionState::Closed && reply
                == Reply::Close(CloseReason::PeerClosed),
            _ => after == before && fails_with(
                ConnectionError::Protocol(ProtocolError::UnexpectedMessage),
                next,
                reply,
            ),
        },
        SessionState::AwaitingResult { index, maximal_work_load } => match message {
            MessageView::FragmentResult(result) => if !before.answered_by(index as int, result) {
                after == before.released(index as int) && fails_with(
                    ConnectionError::Protocol(ProtocolError::MismatchedResult),
                    next,
                    reply,
                )
            } else if !result.pixels.spec_fits(trailing.len() as int) {
                after == before.released(index as int) && fails_with(
                    ConnectionError::Framing(FramingError::Truncated),
                    next,
                    reply,
                )
            } else {
                serves(
                    before.written(index as int, result, trailing),
                    maximal_work_load,
                    after,
                    next,
                    reply,
                )
            },
            MessageView::Close => after == before.released(index as int) && next
                == SessionState::Closed && reply == Reply::Close(CloseReason::PeerClosed),
            _ => after == before.released(index as int) && fails_with(
                ConnectionError::Protocol(ProtocolError::UnexpectedMessage),
                next,
                reply,
            ),
        },
        SessionState::Closed => after == before && fails_with(
            ConnectionError::Protocol(ProtocolError::UnexpectedMessage),
            next,
            reply,
        ),
    }
}

/// Serves a worker of capacity `load`.
fn serve(dispatcher: &mut Dispatcher, load: u32) -> (out: (SessionState, Reply))
    requires
        old(dispatcher)@.wf(),
    ensures
        final(dispatcher)@.wf(),
        serves(old(dispatcher)@, load, final(dispatcher)@, out.0, out.1),
{
    let answer = dispatcher.assign(load);
    match answer {
        Assignment::Task { index, task } => (
            SessionState::AwaitingResult { index, maximal_work_load: load },
            Reply::Task(task),
        ),
        Assignment::NoSuitableWork => (
            SessionState::Closed,
            Reply::Close(CloseReason::NoSuitableWork),
        ),
        Assignment::NothingPending => (
            SessionState::Closed,
            Reply::Close(CloseReason::NothingPending),
        ),
    }
}

/// Takes a message of the worker, with the bytes that followed it, and says
/// what the dispatcher does: a request is answered with a task or with a
/// close; a result is written to the image, and answered with the next task or
/// with a close; anything out of turn ends the session, and the fragment that
/// was with the worker is pending again.
pub fn on_message(
    dispatcher: &mut Dispatcher,
    state: SessionState,
    message: Message,
    trailing: &[u8],
) -> (out: (SessionState, Reply))
    requires
        old(dispatcher)@.wf(),
    ensures
        final(dispatcher)@.wf(),
        message_handled(
            old(dispatcher)@,
            state,
            message@,
            trailing@,
            final(dispatcher)@,
            out.0,
            out.1,
        ),
        out.1 matches Reply::Task(task) ==> out.0 matches SessionState::AwaitingResult {
            maximal_work_load,
            ..
        } && task.resolution.spec_pixel_count() <= maximal_work_load,
{
    match state {
        SessionState::AwaitingRequest => match message {
            Message::FragmentRequest(request) => serve(dispatcher, request.maximal_work_load),
            Message::Close => (SessionState::Closed, Reply::Close(CloseReason::PeerClosed)),
            _ => (
                SessionState::Closed,
                Reply::Close(
                    CloseReason::Failed(
                        ConnectionError::Protocol(ProtocolError::UnexpectedMessage),
                    ),
                ),
            ),
        },
        SessionState::AwaitingResult { index, maximal_work_load } => match message {
            Message::FragmentResult(result) => match dispatcher.submit(index, &result, trailing) {
                Ok(_) => serve(dispatcher, maximal_work_load),
                Err(error) => {
                    dispatcher.release(index);
                    (SessionState::Closed, Reply::Close(CloseReason::Failed(error)))
                },
            },
            Message::Close => {
                dispatcher.release(index);
                (SessionState::Closed, Reply::Close(CloseReason::PeerClosed))
            },
            _ => {
                dispatcher.release(index);
                (
                    SessionState::Closed,
                    Reply::Close(
                        CloseReason::Failed(
                            ConnectionError::Protocol(ProtocolError::UnexpectedMessage),
                        ),
                    ),
                )
            },
        },
        SessionState::Closed => (
            SessionState::Closed,
            Reply::Close(
                CloseReason::Failed(ConnectionError::Protocol(ProtocolError::UnexpectedMessage)),
            ),
        ),
    }
}

/// The connection broke, or bytes came that are no message: the session is
/// over, and the fragment that was with the worker is pending again.
pub fn on_disconnect(dispatcher: &mut Dispatcher, state: SessionState) -> (next: SessionState)
    requires
        old(dispatcher)@.wf(),
    ensures
        final(dispatcher)@.wf(),
        next == SessionState::Closed,
        final(dispatcher)@ == match state {
            SessionState::AwaitingResult { index, .. } => old(dispatcher)@.released(index as int),
            _ => old(dispatcher)@,
        },
{
    match state {
        SessionState::AwaitingResult { index, .. } => {
            dispatcher.release(index);
        },
        _ => {},
    }
    SessionState::Closed
}

/// A fragment is never with two workers: what is handed out was pending, and
/// is in flight afterwards, where no later request finds it.
pub proof fn handed_out_once(
    before: DispatcherView,
    load: u32,
    answer: Assignment,
    after: DispatcherView,
    later_load: u32,
    later_answer: Assignment,
    later: DispatcherView,
)
    requires
        before.wf(),
        before.assigns(load, answer, after),
        after.assigns(later_load, later_answer, later),
    ensures
        answer matches Assignment::Task { index, .. } ==> (later_answer matches Assignment::Task {
            index: second,
            ..
        } ==> second != index),
{
}

/// A round of the exchange: the fragment at `index` is with a worker, and the
/// worker sends the result for it with the pixels of its counts. Then the
/// pixels stand at the fragment's place in the image, the fragment is done,
/// every other fragment's bytes are as they were, and the worker is served
/// from the books so changed.
pub proof fn round_completes_fragment(
    before: DispatcherView,
    index: usize,
    load: u32,
    counts: Seq<u32>,
    after: DispatcherView,
    next: SessionState,
    reply: Reply,
)
    requires
        before.wf(),
        index < before.fragments.len(),
        before.states[index as int] == FragmentState::InFlight,
        renders(before.fragments[index as int], counts),
        message_handled(
            before,
            SessionState::AwaitingResult { index, maximal_work_load: load },
            MessageView::FragmentResult(result_for(before.fragments[index as int])),
            pixels_of(counts),
            after,
            next,
            reply,
        ),
    ensures
        ({
            let place = before.fragments[index as int].id;
            let written = before.written(
                index as int,
                result_for(before.fragments[index as int]),
                pixels_of(counts),
            );
            &&& serves(written, load, after, next, reply)
            &&& after.states[index as int] == FragmentState::Done
            &&& after.buffer == write_at(before.buffer, place.offset as int, pixels_of(counts))
            &&& after.buffer.subrange(place.offset as int, place.spec_end()) == pixels_of(counts)
        }),
{
    let task = before.fragments[index as int];
    let answer = result_for(task);
    computed_result_is_taken_in(before, index as int, counts);
    let written = before.written(index as int, answer, pixels_of(counts));
    assert(serves(written, load, after, next, reply));
    let picked = choose|picked: Assignment| #[trigger]
        written.assigns(load, picked, after) && (next, reply) == after_assignment(picked, load);
    assert(written.states[index as int] == FragmentState::Done);
    job_tiles_image(before.fragments);
    assert(spans_of(before.fragments)[index as int] == task.id);
    crate::reassembly::start_of_is_monotonic(
        spans_of(before.fragments),
        index as int,
        before.fragments.len() as int,
    );
    assert(after.buffer.subrange(task.id.offset as int, task.id.spec_end()) =~= pixels_of(counts));
}

/// The whole exchange for a job of one fragment: a worker that takes the
/// fragment asks, is sent the task, and answers with the pixels of its counts.
/// Then the job is complete, the image is those pixels, and the session is
/// closed because nothing is pending.
pub proof fn one_fragment_exchange_completes(
    start: DispatcherView,
    load: u32,
    counts: Seq<u32>,
    handed: DispatcherView,
    waiting: SessionState,
    first_reply: Reply,
    done: DispatcherView,
    closed: SessionState,
    last_reply: Reply,
)
    requires
        start.wf(),
        start.fragments.len() == 1,
        start.states[0] == FragmentState::Pending,
        start.fragments[0].resolution.spec_pixel_count() <= load,
        renders(start.fragments[0], counts),
        serves(start, load, handed, waiting, first_reply),
        message_handled(
            handed,
            waiting,
            MessageView::FragmentResult(result_for(start.fragments[0])),
            pixels_of(counts),
            done,
            closed,
            last_reply,
        ),
    ensures
        first_reply == Reply::Task(start.fragments[0]),
        waiting == (SessionState::AwaitingResult { index: 0, maximal_work_load: load }),
        done.complete(),
        done.buffer == pixels_of(counts),
        done.buffer.len() == start.fragments[0].resolution.spec_byte_count(),
        closed == SessionState::Closed,
        last_reply == Reply::Close(CloseReason::NothingPending),
{
    let task = start.fragments[0];
    assert(start.eligible(0, load));
    let picked = choose|picked: Assignment| #[trigger]
        start.assigns(load, picked, handed) && (waiting, first_reply) == after_assignment(
            picked,
            load,
        );
    assert(picked == Assignment::Task { index: 0, task });
    assert(handed.wf());
    round_completes_fragment(handed, 0, load, counts, done, closed, last_reply);
    let written = handed.written(0, result_for(task), pixels_of(counts));
    let last = choose|last: Assignment| #[trigger]
        written.assigns(load, last, done) && (closed, last_reply) == after_assignment(last, load);
    assert(written.states[0] == FragmentState::Done);
    assert(last == Assignment::NothingPending);
    job_tiles_image(start.fragments);
    assert(spans_of(start.fragments)[0] == task.id);
    assert(crate::dispatcher::fragment_in_place(start.fragments, 0));
    assert(start_of(spans_of(start.fragments), 1) == task.id.count) by {
        reveal_with_fuel(start_of, 2);
    }
    assert(done.buffer =~= pixels_of(counts));
}

} // verus!
