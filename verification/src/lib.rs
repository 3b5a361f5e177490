//! A minimal HTTP/1.1 wire codec and router.
//!
//! The library turns a raw request buffer into a structured request,
//! routes it to one of a fixed set of handlers, and serializes the
//! response into its exact wire form. All I/O stays with the caller:
//! every function here is a pure transformation with a proved contract.

pub mod digits;
pub mod handler;
pub mod laws;
pub mod lines;
pub mod request;
pub mod response;
pub mod router;
pub mod segments;
pub mod text;
