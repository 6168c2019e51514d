//! Core of a fragment distribution protocol for escape-time fractal rendering:
//! the framing of messages on a byte stream, the data that the messages carry,
//! the dispatcher's bookkeeping of fragments and of the output buffer, and the
//! decisions of a worker session.
//!
//! Everything here works on plain values. Reading from and writing to a
//! connection, turning payload text into messages, and the floating-point
//! arithmetic of the fractal itself belong to the program around the library.

pub mod cli;
pub mod dispatcher;
pub mod framing;
pub mod model;
pub mod partition;
pub mod pixels;
pub mod protocol;
pub mod reassembly;
pub mod scalar;
pub mod session;
pub mod worker;
