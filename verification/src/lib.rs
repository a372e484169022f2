//! The core of a small comparison of HTTP servers: a counter behind an HTTP service, a
//! connection over a stream that takes and gives whole buffers, and a tester that runs
//! against a server and sums the times up.
//!
//! Everything here decides and computes; nothing here waits, reads or writes. A part that
//! would, such as a connection or a run, says what is to be done next and is handed what
//! came of it.
//!
//! The modules [`body`], [`bytes_buffer`], [`message`] and [`read_cursor`] say what is
//! relied on of the crates `bytes`, `http-body-util`, `hyper` and `tokio`, and [`counter`]
//! what is relied on of the standard library's atomics.

pub mod body;
pub mod bytes_buffer;
pub mod client;
pub mod counter;
pub mod drain;
pub mod hyper_tokio_compat;
pub mod incoming;
pub mod message;
pub mod outgoing;
pub mod read_cursor;
pub mod scenario;
pub mod service;
pub mod statistics;
pub mod text;
pub mod uring_compat;
