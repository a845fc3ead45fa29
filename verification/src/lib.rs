//! A verified client-side communication layer for a local sidecar process.
//!
//! The library builds the outgoing HTTP requests: target URLs, merged header
//! sets, and distributed-tracing headers. Sending the request over the wire
//! is left to the surrounding application; the library states exactly what
//! every prepared request contains and how a transport outcome is reported.
pub mod comms;
pub mod publisher;
pub mod textfmt;
