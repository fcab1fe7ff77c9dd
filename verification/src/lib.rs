//! Verified core of an HTML-to-PDF conversion service.
//!
//! The library manages the lifecycle of a single external browser-engine
//! process and a pool of reusable execution contexts ("tabs") inside it,
//! translates user-facing print options into engine-native parameters, and
//! assembles batch conversion results back into request order. The engine
//! itself is an external collaborator: all blocking engine calls are made by
//! the surrounding application, which drives the verified state machines in
//! this crate.

pub mod batch;
pub mod convert;
pub mod engine;
pub mod error;
pub mod options;
pub mod text;
