//! Core of a TLS handshake load generator: exact statistics over latency
//! samples, the token-bucket traffic controller's accounting, the collector's
//! counters and termination rules, the STARTTLS preamble's byte logic, and the
//! rendering and re-parsing of the run summary. Everything here is verified;
//! the asynchronous I/O around it lives outside this crate's library.

pub mod cancel;
pub mod collector;
pub mod config;
pub mod controller;
pub mod math;
pub mod probe;
pub mod text;
