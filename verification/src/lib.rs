//! A verified model of a CPU stack-sampling profiler's kernel/userspace
//! event pipeline.
//!
//! The pipeline moves fixed-layout sample records from a per-CPU sampling
//! agent (which runs in a restricted kernel execution context) to per-CPU
//! userspace consumers that decode each record, skip empty samples, resolve
//! addresses to symbols and produce a line-oriented report.
//!
//! - [`event`]: the fixed binary record shared by both sides.
//! - [`codec`]: the explicit, bounds-checked byte encoding of a record.
//! - [`agent`]: the per-CPU sampling agent as a verified state transition.
//! - [`report`]: decoding, symbol resolution and report assembly.

pub mod agent;
pub mod codec;
pub mod event;
pub mod report;
