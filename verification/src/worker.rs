//! The worker's side of a connection: announce, take a task, compute, submit,
//! and take the next task, until the dispatcher closes the connection.

use crate::dispatcher::{pixel_bytes, DispatcherView, FragmentState};
use crate::model::{
    pixel_count_bound, ByteSpan, FragmentRequest, FragmentRequestView, FragmentResult,
    FragmentTask, Message, MessageView,
};
use crate::pixels::{pixels_of, render_defect, render_pixels, renders, RenderError};
use crate::protocol::ProtocolError;
use crate::reassembly::write_at;
use vstd::prelude::*;

verus! {

/// Where a worker stands in the exchange.
#[derive(Clone, Copy, Debug, PartialEq, Eq, Structural)]
pub enum WorkerState {
    /// No connection yet.
    Connecting,
    /// The connection stands, and the request is being sent.
    Announcing,
    /// A task, or the end of the connection, is due.
    AwaitingTask,
    /// The pixels of `task` are being computed.
    Computing { task: FragmentTask },
    /// The result is being sent.
    Submitting,
    /// The connection is over.
    Closed,
}

/// What a worker does on a message.
#[derive(Clone, Copy, Debug, PartialEq, Eq, Structural)]
pub enum WorkerAction {
    /// Compute the iteration counts of the task's pixels.
    Compute(FragmentTask),
    /// The dispatcher said that it is done: close the connection.
    Close,
}

/// Why a worker gives up.
#[derive(Clone, Copy, Debug, PartialEq, Eq, Structural)]
pub enum WorkerError {
    /// Something was reported that the worker's state does not wait for.
    OutOfTurn,
    /// The dispatcher did not keep to the protocol.
    Protocol(ProtocolError),
    /// The counts handed in are not those of the task's pixels.
    Render(RenderError),
}

/// A worker: its name, the most pixels it takes in one task, and where it
/// stands. The fields are private: only the operations below move the state.
pub struct Worker {
    name: String,
    maximal_work_load: u32,
    state: WorkerState,
}

/// A worker as contracts see it.
pub struct WorkerView {
    pub name: Seq<char>,
    pub maximal_work_load: u32,
    pub state: WorkerState,
}

impl View for Worker {
    type V = WorkerView;

    closed spec fn view(&self) -> WorkerView {
        WorkerView {
            name: self.name@,
            maximal_work_load: self.maximal_work_load,
            state: self.state,
        }
    }
}

impl WorkerView {
    /// The same worker in another state.
    pub open spec fn at(self, state: WorkerState) -> WorkerView {
        WorkerView { name: self.name, maximal_work_load: self.maximal_work_load, state }
    }

    /// The worker takes the task: it is in order and has no more pixels than
    /// the worker announced.
    pub open spec fn takes(self, task: FragmentTask) -> bool {
        task.wf() && task.resolution.spec_pixel_count() <= self.maximal_work_load
    }

    /// What the worker announces.
    pub open spec fn request(self) -> FragmentRequestView {
        FragmentRequestView { worker_name: self.name, maximal_work_load: self.maximal_work_load }
    }
}

/// The result that answers `task`: it names the task's place in the image, and
/// its pixel bytes are the first bytes behind the message.
pub open spec fn result_for(task: FragmentTask) -> FragmentResult {
    FragmentResult {
        id: task.id,
        resolution: task.resolution,
        range: task.range,
        pixels: ByteSpan { offset: 0, count: task.id.count },
    }
}

impl Worker {
    /// A worker that has not connected.
    pub fn new(name: String, maximal_work_load: u32) -> (worker: Worker)
        ensures
            worker@ == (WorkerView { name: name@, maximal_work_load, state: WorkerState::Connecting }),
    {
        Worker { name, maximal_work_load, state: WorkerState::Connecting }
    }

    /// Where the worker stands.
    pub fn state(&self) -> (state: WorkerState)
        ensures
            state == self@.state,
    {
        self.state
    }

    /// The most pixels that the worker takes in one task.
    pub fn maximal_work_load(&self) -> (load: u32)
        ensures
            load == self@.maximal_work_load,
    {
        self.maximal_work_load
    }

    /// The connection stands. A worker that was connecting announces itself
    /// with the request returned; in any other state this is out of turn, and
    /// the worker is closed.
    pub fn connected(&mut self) -> (result: Result<FragmentRequest, WorkerError>)
        ensures
            old(self)@.state == WorkerState::Connecting ==> {
                &&& result matches Ok(request)
                &&& request@ == old(self)@.request()
                &&& final(self)@ == old(self)@.at(WorkerState::Announcing)
            },
            old(self)@.state != WorkerState::Connecting ==> {
                &&& result matches Err(e)
                &&& e == WorkerError::OutOfTurn
                &&& final(self)@ == old(self)@.at(WorkerState::Closed)
            },
    {
        match self.state {
            WorkerState::Connecting => {
                self.state = WorkerState::Announcing;
                Ok(
                    FragmentRequest {
                        worker_name: self.name.clone(),
                        maximal_work_load: self.maximal_work_load,
                    },
                )
            },
            _ => {
                self.state = WorkerState::Closed;
                Err(WorkerError::OutOfTurn)
            },
        }
    }

    /// What was being sent is sent: after the request and after a result the
    /// worker waits for a task. In any other state this is out of turn, and
    /// the worker is closed.
    pub fn sent(&mut self) -> (result: Result<(), WorkerError>)
        ensures
            final(self)@ == old(self)@.at(
                if old(self)@.state == WorkerState::Announcing || old(self)@.state
                    == WorkerState::Submitting {
                    WorkerState::AwaitingTask
                } else {
                    WorkerState::Closed
                },
            ),
            result.is_ok() == (old(self)@.state == WorkerState::Announcing || old(self)@.state
                == WorkerState::Submitting),
            result matches Err(e) ==> e == WorkerError::OutOfTurn,
    {
        match self.state {
            WorkerState::Announcing | WorkerState::Submitting => {
                self.state = WorkerState::AwaitingTask;
                Ok(())
            },
            _ => {
                self.state = WorkerState::Closed;
                Err(WorkerError::OutOfTurn)
            },
        }
    }

    /// A message came. A worker that waits for a task computes the task, if it
    /// takes it, and closes on the dispatcher's close. Any other message, a
    /// task that the worker does not take, and a message in any other state
    /// close the worker with an error.
    pub fn received(&mut self, message: Message) -> (result: Result<WorkerAction, WorkerError>)
        ensures
            result == received_outcome(old(self)@, message@),
            final(self)@ == old(self)@.at(
                match result {
                    Ok(WorkerAction::Compute(task)) => WorkerState::Computing { task },
                    _ => WorkerState::Closed,
                },
            ),
    {
        match self.state {
            WorkerState::AwaitingTask => match message {
                Message::FragmentTask(task) => {
                    if task.is_valid() && task.resolution.pixel_count() <= self.maximal_work_load {
                        self.state = WorkerState::Computing { task };
                        Ok(WorkerAction::Compute(task))
                    } else {
                        self.state = WorkerState::Closed;
                        Err(WorkerError::Protocol(ProtocolError::InvalidTask))
                    }
                },
                Message::Close => {
                    self.state = WorkerState::Closed;
                    Ok(WorkerAction::Close)
                },
                _ => {
                    self.state = WorkerState::Closed;
                    Err(WorkerError::Protocol(ProtocolError::UnexpectedMessage))
                },
            },
            _ => {
                self.state = WorkerState::Closed;
                Err(WorkerError::OutOfTurn)
            },
        }
    }

    /// The iteration counts of the task's pixels are there, row by row. A
    /// worker that was computing hands back the result and the pixel bytes to
    /// send behind it. Counts that are not those of the task's pixels, and
    /// counts in any other state, close the worker with an error.
    pub fn computed(&mut self, counts: &[u32]) -> (result: Result<
        (FragmentResult, Vec<u8>),
        WorkerError,
    >)
        ensures
            match old(self)@.state {
                WorkerState::Computing { task } => match result {
                    Ok((answer, bytes)) => {
                        &&& renders(task, counts@)
                        &&& answer == result_for(task)
                        &&& bytes@ == pixels_of(counts@)
                        &&& final(self)@ == old(self)@.at(WorkerState::Submitting)
                    },
                    Err(WorkerError::Render(error)) => {
                        &&& render_defect(task, counts@, error)
                        &&& final(self)@ == old(self)@.at(WorkerState::Closed)
                    },
                    Err(_) => false,
                },
                _ => {
                    &&& result matches Err(e)
                    &&& e == WorkerError::OutOfTurn
                    &&& final(self)@ == old(self)@.at(WorkerState::Closed)
                },
            },
    {
        match self.state {
            WorkerState::Computing { task } => match render_pixels(&task, counts) {
                Ok(bytes) => {
                    self.state = WorkerState::Submitting;
                    let answer = FragmentResult {
                        id: task.id,
                        resolution: task.resolution,
                        range: task.range,
                        pixels: ByteSpan { offset: 0, count: task.id.count },
                    };
                    Ok((answer, bytes))
                },
                Err(e) => {
                    self.state = WorkerState::Closed;
                    Err(WorkerError::Render(e))
                },
            },
            _ => {
                self.state = WorkerState::Closed;
                Err(WorkerError::OutOfTurn)
            },
        }
    }

    /// The connection is over, by the dispatcher's doing or by a fault.
    pub fn disconnected(&mut self)
        ensures
            final(self)@ == old(self)@.at(WorkerState::Closed),
    {
        self.state = WorkerState::Closed;
    }
}

/// What a worker makes of a message.
pub open spec fn received_outcome(worker: WorkerView, message: MessageView) -> Result<
    WorkerAction,
    WorkerError,
> {
    if worker.state != WorkerState::AwaitingTask {
        Err(WorkerError::OutOfTurn)
    } else {
        match message {
            MessageView::FragmentTask(task) => if worker.takes(task) {
                Ok(WorkerAction::Compute(task))
            } else {
                Err(WorkerError::Protocol(ProtocolError::InvalidTask))
            },
            MessageView::Close => Ok(WorkerAction::Close),
            _ => Err(WorkerError::Protocol(ProtocolError::UnexpectedMessage)),
        }
    }
}

/// What a worker computes for a fragment that is with it, the dispatcher takes
/// in: the result answers the fragment, the pixel bytes are all there, and
/// they come to stand at the fragment's place in the image.
pub proof fn computed_result_is_taken_in(books: DispatcherView, index: int, counts: Seq<u32>)
    requires
        books.wf(),
        0 <= index < books.fragments.len(),
        books.states[index] == FragmentState::InFlight,
        counts.len() == books.fragments[index].resolution.spec_pixel_count(),
    ensures
        ({
            let task = books.fragments[index];
            let answer = result_for(task);
            &&& books.answered_by(index, answer)
            &&& answer.pixels.spec_fits(pixels_of(counts).len() as int)
            &&& pixel_bytes(pixels_of(counts), answer.pixels) == pixels_of(counts)
            &&& books.written(index, answer, pixels_of(counts)).buffer == write_at(
                books.buffer,
                task.id.offset as int,
                pixels_of(counts),
            )
        }),
{
    let task = books.fragments[index];
    assert(crate::dispatcher::fragment_in_place(books.fragments, index));
    pixel_count_bound(task.resolution);
    assert(pixel_bytes(pixels_of(counts), result_for(task).pixels) =~= pixels_of(counts));
}

} // verus!
