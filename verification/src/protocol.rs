//! What may go wrong on a connection, and the test of a received message
//! against the one that the state of the connection calls for.

use crate::framing::FramingError;
use crate::model::{FragmentRequest, FragmentResult, FragmentTask, Message, MessageView};
use vstd::prelude::*;

verus! {

/// A message that is in order as bytes and out of order in the exchange.
#[derive(Clone, Copy, Debug, PartialEq, Eq, Structural)]
pub enum ProtocolError {
    /// Another kind of message was due.
    UnexpectedMessage,
    /// A result does not answer the task that was sent.
    MismatchedResult,
    /// A task is not in order, or asks for more than the worker takes.
    InvalidTask,
}

/// Why a connection ends in failure.
#[derive(Clone, Copy, Debug, PartialEq, Eq, Structural)]
pub enum ConnectionError {
    Framing(FramingError),
    Protocol(ProtocolError),
}

/// The request in `message`, where a request is due.
pub fn expect_request(message: Message) -> (result: Result<FragmentRequest, ProtocolError>)
    ensures
        match message@ {
            MessageView::FragmentRequest(v) => result matches Ok(r) && r@ == v,
            _ => result matches Err(e) && e == ProtocolError::UnexpectedMessage,
        },
{
    match message {
        Message::FragmentRequest(r) => Ok(r),
        _ => Err(ProtocolError::UnexpectedMessage),
    }
}

/// The task in `message`, where a task is due.
pub fn expect_task(message: Message) -> (result: Result<FragmentTask, ProtocolError>)
    ensures
        match message@ {
            MessageView::FragmentTask(t) => result == Ok::<FragmentTask, ProtocolError>(t),
            _ => result == Err::<FragmentTask, ProtocolError>(ProtocolError::UnexpectedMessage),
        },
{
    match message {
        Message::FragmentTask(t) => Ok(t),
        _ => Err(ProtocolError::UnexpectedMessage),
    }
}

/// The result in `message`, where a result is due.
pub fn expect_result(message: Message) -> (result: Result<FragmentResult, ProtocolError>)
    ensures
        match message@ {
            MessageView::FragmentResult(r) => result == Ok::<FragmentResult, ProtocolError>(r),
            _ => result == Err::<FragmentResult, ProtocolError>(ProtocolError::UnexpectedMessage),
        },
{
    match message {
        Message::FragmentResult(r) => Ok(r),
        _ => Err(ProtocolError::UnexpectedMessage),
    }
}

/// Bytes to read behind a message: the pixel bytes of a result, and none behind
/// any other message. A result that names more bytes than `limit` is refused
/// before a byte of them is read.
pub open spec fn spec_trailing_wanted(message: MessageView, limit: u64) -> Result<
    u64,
    ConnectionError,
> {
    match message {
        MessageView::FragmentResult(result) => if result.spec_trailing_len() <= limit {
            Ok(result.spec_trailing_len() as u64)
        } else {
            Err(ConnectionError::Protocol(ProtocolError::MismatchedResult))
        },
        _ => Ok(0),
    }
}

/// Says how many bytes are to be read behind `message`, of `limit` at most.
pub fn trailing_wanted(message: &Message, limit: u64) -> (wanted: Result<u64, ConnectionError>)
    ensures
        wanted == spec_trailing_wanted(message@, limit),
{
    match message {
        Message::FragmentResult(result) => {
            let len: u64 = result.trailing_len();
            if len <= limit {
                Ok(len)
            } else {
                Err(ConnectionError::Protocol(ProtocolError::MismatchedResult))
            }
        },
        _ => Ok(0),
    }
}

} // verus!
