use fragment_dispatch::dispatcher::{Dispatcher, FragmentState};
use fragment_dispatch::framing::FramingError;
use fragment_dispatch::model::{
    ByteSpan, FractalDescriptor, FragmentRequest, FragmentResult, FragmentTask, JuliaParams,
    Message, Point, Range, Resolution,
};
use fragment_dispatch::partition::partition_rows;
use fragment_dispatch::pixels::{escape_step, EscapeStep, RenderError};
use fragment_dispatch::protocol::{
    expect_request, expect_result, expect_task, trailing_wanted, ConnectionError, ProtocolError,
};
use fragment_dispatch::scalar::{Complex, Scalar};
use fragment_dispatch::session::{on_disconnect, on_message, CloseReason, Reply, SessionState};
use fragment_dispatch::worker::{Worker, WorkerAction, WorkerError, WorkerState};

fn s(x: f64) -> Scalar {
    Scalar::from_bits(x.to_bits())
}

fn f(x: Scalar) -> f64 {
    f64::from_bits(x.to_bits())
}

fn julia() -> FractalDescriptor {
    FractalDescriptor::Julia(JuliaParams {
        c: Complex::new(s(-0.9), s(0.27015)),
        divergence_threshold_sqr: s(5.0),
    })
}

fn whole() -> Range {
    Range::new(Point::new(s(-1.5), s(-1.0)), Point::new(s(1.5), s(1.0)))
}

fn task_at(offset: u32, nx: u16, ny: u16) -> FragmentTask {
    FragmentTask {
        id: ByteSpan::new(offset, 3 * nx as u32 * ny as u32),
        fractal: julia(),
        max_iteration: 1000,
        resolution: Resolution::new(nx, ny),
        range: whole(),
    }
}

fn request(name: &str, load: u32) -> Message {
    Message::FragmentRequest(FragmentRequest {
        worker_name: name.to_string(),
        maximal_work_load: load,
    })
}

fn failed(e: ProtocolError) -> Reply {
    Reply::Close(CloseReason::Failed(ConnectionError::Protocol(e)))
}

/// The counts of a task's pixels, with the arithmetic of the Julia set.
fn compute(task: &FragmentTask) -> Vec<u32> {
    let c = task.fractal.get_c();
    let threshold = f(task.fractal.get_divergence_threshold_sqr());
    let (nx, ny) = (task.resolution.nx as usize, task.resolution.ny as usize);
    let (min, max) = (task.range.min, task.range.max);
    let mut counts = Vec::new();
    for y in 0..ny {
        for x in 0..nx {
            let mut re = f(min.x) + x as f64 / (nx - 1) as f64 * (f(max.x) - f(min.x));
            let mut im = f(min.y) + y as f64 / (ny - 1) as f64 * (f(max.y) - f(min.y));
            let mut made = 0;
            let count = loop {
                let escaped = re * re + im * im >= threshold;
                match escape_step(made, task.max_iteration, escaped) {
                    EscapeStep::Finished { count } => break count,
                    EscapeStep::Iterate { next } => {
                        let next_re = re * re - im * im + f(c.re);
                        im = 2.0 * re * im + f(c.im);
                        re = next_re;
                        made = next;
                    }
                }
            };
            counts.push(count);
        }
    }
    counts
}

#[test]
fn one_fragment_one_worker_fills_the_image() {
    let bands = partition_rows(Resolution::new(4, 4), 4).unwrap();
    let tasks: Vec<FragmentTask> = bands.iter().map(|b| b.task(julia(), 1000, whole())).collect();
    assert_eq!(tasks, vec![task_at(0, 4, 4)]);
    let mut dispatcher = Dispatcher::new(tasks.clone()).unwrap();
    let mut worker = Worker::new("w1".to_string(), 16);
    assert_eq!(worker.state(), WorkerState::Connecting);
    assert_eq!(worker.maximal_work_load(), 16);

    let announced = worker.connected().unwrap();
    assert_eq!(
        announced,
        FragmentRequest { worker_name: "w1".to_string(), maximal_work_load: 16 }
    );
    assert_eq!(worker.state(), WorkerState::Announcing);
    assert_eq!(worker.sent(), Ok(()));
    assert_eq!(worker.state(), WorkerState::AwaitingTask);

    let (session, reply) = on_message(
        &mut dispatcher,
        SessionState::AwaitingRequest,
        Message::FragmentRequest(announced),
        &[],
    );
    assert_eq!(session, SessionState::AwaitingResult { index: 0, maximal_work_load: 16 });
    assert_eq!(reply, Reply::Task(tasks[0]));
    assert_eq!(dispatcher.state_of(0), Some(FragmentState::InFlight));

    let action = worker.received(Message::FragmentTask(tasks[0])).unwrap();
    assert_eq!(action, WorkerAction::Compute(tasks[0]));
    assert_eq!(worker.state(), WorkerState::Computing { task: tasks[0] });
    let counts = compute(&tasks[0]);
    assert_eq!(counts.len(), 16);
    assert!(counts.iter().all(|c| *c <= 1000));
    let (answer, pixels) = worker.computed(&counts).unwrap();
    assert_eq!(
        answer,
        FragmentResult {
            id: ByteSpan::new(0, 48),
            resolution: Resolution::new(4, 4),
            range: whole(),
            pixels: ByteSpan::new(0, 48),
        }
    );
    assert_eq!(answer.trailing_len(), 48);
    assert_eq!(pixels.len(), 48);
    assert_eq!(worker.state(), WorkerState::Submitting);
    assert_eq!(worker.sent(), Ok(()));
    assert_eq!(worker.state(), WorkerState::AwaitingTask);

    let (session, reply) =
        on_message(&mut dispatcher, session, Message::FragmentResult(answer), &pixels);
    assert_eq!(session, SessionState::Closed);
    assert_eq!(reply, Reply::Close(CloseReason::NothingPending));
    assert!(dispatcher.is_complete());
    assert_eq!(dispatcher.buffer().len(), 48);
    assert_eq!(dispatcher.buffer(), &pixels);
    for (k, c) in counts.iter().enumerate() {
        let px = &dispatcher.buffer()[3 * k..3 * k + 3];
        assert_eq!(px, &[(c >> 16) as u8, (c >> 8) as u8, *c as u8]);
    }

    assert_eq!(worker.received(Message::Close), Ok(WorkerAction::Close));
    assert_eq!(worker.state(), WorkerState::Closed);
}

#[test]
fn a_worker_is_served_fragment_after_fragment() {
    let tasks = vec![task_at(0, 2, 2), task_at(12, 4, 4), task_at(60, 2, 2)];
    let mut dispatcher = Dispatcher::new(tasks.clone()).unwrap();
    let (session, reply) =
        on_message(&mut dispatcher, SessionState::AwaitingRequest, request("small", 4), &[]);
    assert_eq!(reply, Reply::Task(tasks[0]));
    let answer = FragmentResult {
        id: tasks[0].id,
        resolution: tasks[0].resolution,
        range: tasks[0].range,
        pixels: ByteSpan::new(0, 12),
    };
    let (session, reply) =
        on_message(&mut dispatcher, session, Message::FragmentResult(answer), &[1u8; 12]);
    assert_eq!(session, SessionState::AwaitingResult { index: 2, maximal_work_load: 4 });
    assert_eq!(reply, Reply::Task(tasks[2]));
    let answer = FragmentResult {
        id: tasks[2].id,
        resolution: tasks[2].resolution,
        range: tasks[2].range,
        pixels: ByteSpan::new(0, 12),
    };
    let (session, reply) =
        on_message(&mut dispatcher, session, Message::FragmentResult(answer), &[2u8; 12]);
    assert_eq!(session, SessionState::Closed);
    assert_eq!(reply, Reply::Close(CloseReason::NoSuitableWork));
    assert!(!dispatcher.is_complete());
    assert_eq!(dispatcher.state_of(1), Some(FragmentState::Pending));
}

#[test]
fn a_worker_that_is_too_small_is_turned_away_in_good_order() {
    let mut dispatcher = Dispatcher::new(vec![task_at(0, 2, 2)]).unwrap();
    let (session, reply) =
        on_message(&mut dispatcher, SessionState::AwaitingRequest, request("tiny", 3), &[]);
    assert_eq!(session, SessionState::Closed);
    assert_eq!(reply, Reply::Close(CloseReason::NoSuitableWork));
    assert_eq!(dispatcher.state_of(0), Some(FragmentState::Pending));
}

#[test]
fn messages_out_of_turn_end_the_session() {
    let tasks = vec![task_at(0, 2, 2)];
    let answer = FragmentResult {
        id: tasks[0].id,
        resolution: tasks[0].resolution,
        range: tasks[0].range,
        pixels: ByteSpan::new(0, 12),
    };
    let mut dispatcher = Dispatcher::new(tasks.clone()).unwrap();
    // A result where a request is due.
    let (session, reply) = on_message(
        &mut dispatcher,
        SessionState::AwaitingRequest,
        Message::FragmentResult(answer),
        &[0u8; 12],
    );
    assert_eq!(session, SessionState::Closed);
    assert_eq!(reply, failed(ProtocolError::UnexpectedMessage));
    // A task where a request is due.
    let (_, reply) = on_message(
        &mut dispatcher,
        SessionState::AwaitingRequest,
        Message::FragmentTask(tasks[0]),
        &[],
    );
    assert_eq!(reply, failed(ProtocolError::UnexpectedMessage));
    // A request where a result is due: the fragment goes back.
    let (session, _) =
        on_message(&mut dispatcher, SessionState::AwaitingRequest, request("w", 4), &[]);
    assert_eq!(dispatcher.state_of(0), Some(FragmentState::InFlight));
    let (closed, reply) = on_message(&mut dispatcher, session, request("w", 4), &[]);
    assert_eq!(closed, SessionState::Closed);
    assert_eq!(reply, failed(ProtocolError::UnexpectedMessage));
    assert_eq!(dispatcher.state_of(0), Some(FragmentState::Pending));
    // Anything on a closed session.
    let (closed, reply) = on_message(&mut dispatcher, closed, request("w", 4), &[]);
    assert_eq!(closed, SessionState::Closed);
    assert_eq!(reply, failed(ProtocolError::UnexpectedMessage));
    assert_eq!(dispatcher.state_of(0), Some(FragmentState::Pending));
}

#[test]
fn a_result_that_does_not_answer_ends_the_session_and_frees_the_fragment() {
    let tasks = vec![task_at(0, 2, 2), task_at(12, 2, 2)];
    let mut dispatcher = Dispatcher::new(tasks.clone()).unwrap();
    let (session, _) =
        on_message(&mut dispatcher, SessionState::AwaitingRequest, request("w", 4), &[]);
    let wrong = FragmentResult {
        id: tasks[1].id,
        resolution: tasks[1].resolution,
        range: tasks[1].range,
        pixels: ByteSpan::new(0, 12),
    };
    let (closed, reply) =
        on_message(&mut dispatcher, session, Message::FragmentResult(wrong), &[1u8; 12]);
    assert_eq!(closed, SessionState::Closed);
    assert_eq!(reply, failed(ProtocolError::MismatchedResult));
    assert_eq!(dispatcher.state_of(0), Some(FragmentState::Pending));
    assert_eq!(dispatcher.buffer(), &vec![0u8; 24]);

    let (session, _) =
        on_message(&mut dispatcher, SessionState::AwaitingRequest, request("w", 4), &[]);
    let right = FragmentResult { id: tasks[0].id, ..wrong };
    let (closed, reply) =
        on_message(&mut dispatcher, session, Message::FragmentResult(right), &[1u8; 5]);
    assert_eq!(closed, SessionState::Closed);
    assert_eq!(
        reply,
        Reply::Close(CloseReason::Failed(ConnectionError::Framing(FramingError::Truncated)))
    );
    assert_eq!(dispatcher.state_of(0), Some(FragmentState::Pending));
}

#[test]
fn a_lost_connection_frees_the_fragment() {
    let tasks = vec![task_at(0, 2, 2)];
    let mut dispatcher = Dispatcher::new(tasks).unwrap();
    let (session, _) =
        on_message(&mut dispatcher, SessionState::AwaitingRequest, request("w", 4), &[]);
    assert_eq!(dispatcher.state_of(0), Some(FragmentState::InFlight));
    assert_eq!(on_disconnect(&mut dispatcher, session), SessionState::Closed);
    assert_eq!(dispatcher.state_of(0), Some(FragmentState::Pending));
    assert_eq!(
        on_disconnect(&mut dispatcher, SessionState::AwaitingRequest),
        SessionState::Closed
    );
    let (session, _) =
        on_message(&mut dispatcher, SessionState::AwaitingRequest, request("w", 4), &[]);
    let (closed, reply) = on_message(&mut dispatcher, session, Message::Close, &[]);
    assert_eq!(closed, SessionState::Closed);
    assert_eq!(reply, Reply::Close(CloseReason::PeerClosed));
    assert_eq!(dispatcher.state_of(0), Some(FragmentState::Pending));
    let (closed, reply) =
        on_message(&mut dispatcher, SessionState::AwaitingRequest, Message::Close, &[]);
    assert_eq!(closed, SessionState::Closed);
    assert_eq!(reply, Reply::Close(CloseReason::PeerClosed));
}

#[test]
fn a_worker_takes_only_what_it_announced() {
    let mut worker = Worker::new("w".to_string(), 4);
    worker.connected().unwrap();
    worker.sent().unwrap();
    assert_eq!(
        worker.received(Message::FragmentTask(task_at(0, 4, 4))),
        Err(WorkerError::Protocol(ProtocolError::InvalidTask))
    );
    assert_eq!(worker.state(), WorkerState::Closed);

    let mut worker = Worker::new("w".to_string(), 4);
    worker.connected().unwrap();
    worker.sent().unwrap();
    let mut broken = task_at(0, 2, 2);
    broken.id.count = 13;
    assert_eq!(
        worker.received(Message::FragmentTask(broken)),
        Err(WorkerError::Protocol(ProtocolError::InvalidTask))
    );
}

#[test]
fn a_worker_waits_for_tasks_only() {
    for message in [
        request("other", 1),
        Message::FragmentResult(FragmentResult {
            id: ByteSpan::new(0, 12),
            resolution: Resolution::new(2, 2),
            range: whole(),
            pixels: ByteSpan::new(0, 12),
        }),
    ] {
        let mut worker = Worker::new("w".to_string(), 4);
        worker.connected().unwrap();
        worker.sent().unwrap();
        assert_eq!(
            worker.received(message),
            Err(WorkerError::Protocol(ProtocolError::UnexpectedMessage))
        );
        assert_eq!(worker.state(), WorkerState::Closed);
    }
}

#[test]
fn a_worker_out_of_turn_is_closed() {
    let mut worker = Worker::new("w".to_string(), 4);
    assert_eq!(worker.sent(), Err(WorkerError::OutOfTurn));
    assert_eq!(worker.state(), WorkerState::Closed);
    assert_eq!(worker.connected(), Err(WorkerError::OutOfTurn));

    let mut worker = Worker::new("w".to_string(), 4);
    assert_eq!(
        worker.received(Message::FragmentTask(task_at(0, 2, 2))),
        Err(WorkerError::OutOfTurn)
    );
    let mut worker = Worker::new("w".to_string(), 4);
    assert_eq!(worker.computed(&[1, 2, 3, 4]), Err(WorkerError::OutOfTurn));
    assert_eq!(worker.state(), WorkerState::Closed);

    let mut worker = Worker::new("w".to_string(), 4);
    worker.connected().unwrap();
    worker.disconnected();
    assert_eq!(worker.state(), WorkerState::Closed);
}

#[test]
fn a_worker_refuses_counts_that_are_not_the_tasks() {
    let mut worker = Worker::new("w".to_string(), 4);
    worker.connected().unwrap();
    worker.sent().unwrap();
    worker.received(Message::FragmentTask(task_at(0, 2, 2))).unwrap();
    assert_eq!(
        worker.computed(&[1, 2, 3]),
        Err(WorkerError::Render(RenderError::WrongPixelCount))
    );
    assert_eq!(worker.state(), WorkerState::Closed);

    let mut worker = Worker::new("w".to_string(), 4);
    worker.connected().unwrap();
    worker.sent().unwrap();
    worker.received(Message::FragmentTask(task_at(0, 2, 2))).unwrap();
    assert_eq!(
        worker.computed(&[1, 2, 1001, 4]),
        Err(WorkerError::Render(RenderError::CountAboveLimit { pixel: 2 }))
    );
}

#[test]
fn expectations_tell_the_variants_apart() {
    let task = task_at(0, 2, 2);
    let answer = FragmentResult {
        id: task.id,
        resolution: task.resolution,
        range: task.range,
        pixels: ByteSpan::new(0, 12),
    };
    assert_eq!(
        expect_request(request("w", 4)),
        Ok(FragmentRequest { worker_name: "w".to_string(), maximal_work_load: 4 })
    );
    assert_eq!(expect_task(Message::FragmentTask(task)), Ok(task));
    assert_eq!(expect_result(Message::FragmentResult(answer)), Ok(answer));
    let unexpected = ProtocolError::UnexpectedMessage;
    assert_eq!(expect_request(Message::FragmentTask(task)), Err(unexpected));
    assert_eq!(expect_request(Message::FragmentResult(answer)), Err(unexpected));
    assert_eq!(expect_request(Message::Close), Err(unexpected));
    assert_eq!(expect_task(request("w", 4)), Err(unexpected));
    assert_eq!(expect_task(Message::Close), Err(unexpected));
    assert_eq!(expect_result(Message::FragmentTask(task)), Err(unexpected));
    assert_eq!(expect_result(request("w", 4)), Err(unexpected));
}

#[test]
fn only_results_have_bytes_behind_them_and_within_the_limit() {
    let task = task_at(0, 2, 2);
    let mut answer = FragmentResult {
        id: task.id,
        resolution: task.resolution,
        range: task.range,
        pixels: ByteSpan::new(4, 12),
    };
    assert_eq!(trailing_wanted(&Message::FragmentResult(answer), 16), Ok(16));
    assert_eq!(trailing_wanted(&Message::FragmentResult(answer), u64::MAX), Ok(16));
    assert_eq!(
        trailing_wanted(&Message::FragmentResult(answer), 15),
        Err(ConnectionError::Protocol(ProtocolError::MismatchedResult))
    );
    answer.pixels = ByteSpan::new(u32::MAX, u32::MAX);
    assert_eq!(
        trailing_wanted(&Message::FragmentResult(answer), u64::MAX),
        Ok(2 * u32::MAX as u64)
    );
    assert_eq!(trailing_wanted(&Message::FragmentTask(task), 0), Ok(0));
    assert_eq!(trailing_wanted(&request("w", 4), 0), Ok(0));
    assert_eq!(trailing_wanted(&Message::Close, 0), Ok(0));
}
