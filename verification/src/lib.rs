//! A sans-I/O HTTP/1.x connection dispatcher.
//!
//! The crate holds the decisions of one HTTP/1.x server connection: bounded
//! read and write buffers, request-head decoding, response-head encoding,
//! transfer codings, the request-body channel, the keep-alive deadline and the
//! per-connection state machine. The caller owns the transport, the clock and
//! the service; it hands their outcomes to the dispatcher as plain values and
//! performs the action that the dispatcher answers with.

pub mod bytes_spec;
pub mod ascii;
pub mod buf;
pub mod error;
pub mod coding;
pub mod message;
pub mod parse;
pub mod context;
pub mod encode;
pub mod config;
pub mod service;
pub mod builder;
pub mod keep_alive;
pub mod body;
pub mod io;
pub mod dispatcher;
pub mod laws;
pub mod futures;
pub mod roundtrip;
pub mod multipart;
pub mod client;
