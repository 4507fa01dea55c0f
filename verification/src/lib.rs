//! Request-dispatch core of a minimal HTTP server.
//!
//! The library covers the logic of the pipeline: the per-request capture
//! store filled by a router, percent-decoding and UTF-8 validation of the
//! captured values, a shape-polymorphic decoder that turns the captures into
//! a typed target (scalar, sequence, keyed map or named record), the closed
//! taxonomy of extraction errors with their exact rendering and their
//! client/server classification, and the finalisation of outbound responses
//! (Content-Length and protocol version).
//!
//! Listening, accepting, parsing of the byte stream and writing of responses
//! are I/O and live outside the library; they hand plain values in and take
//! plain values back.

pub mod store;
pub mod percent;
pub mod text;
pub mod errors;
pub mod render;
pub mod shape;
pub mod deser;
pub mod extract;
pub mod response;
pub mod worker;
