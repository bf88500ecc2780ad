//! Core pieces of a client-side telemetry engine: a cross-language handle
//! registry for ping types, the error taxonomy every internal failure
//! collapses into, self-accounting of recording errors as counter metrics,
//! and the wire-stable time-unit encoding.

pub mod common;
pub mod error;
pub mod error_recording;
pub mod glean;
pub mod handles;
pub mod metrics;
pub mod ping_type;
pub mod time_unit;
