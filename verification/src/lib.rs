//! A minimal concurrent HTTP server core: a bounded worker pool draining a
//! FIFO job queue, a route table mapping paths to method-aware handlers, and
//! the request-line/response wire logic that connects them.
//!
//! The networking and threading edges live outside this crate; everything
//! here is plain data logic with full functional contracts.

pub mod pool;
pub mod request;
pub mod response;
pub mod routes;
pub mod server;
