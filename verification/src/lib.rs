//! A minimal HTTP/1.1 connection engine.
//!
//! The library covers the compute side of a thread-per-connection HTTP
//! server: accumulating a request from fixed-size chunk reads, parsing it
//! into method, target, version, headers and body, dispatching the parsed
//! request to the router registered with `gato_core`, and serializing the
//! router's response into wire format.  The surrounding application owns
//! the sockets and threads and feeds bytes in and out.

pub mod engine;
pub mod headers;
pub mod provider;
pub mod reader;
pub mod request;
pub mod response;
pub mod scan;
pub mod status;
