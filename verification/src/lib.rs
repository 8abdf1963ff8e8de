//! A verified application-framework core for long-running backend services.
//!
//! The centrepiece is the action-logging pipeline: a per-task structured-trace
//! collector that correlates every log event, span transition, statistic and
//! error raised under one logical "action" into a single self-contained
//! record.  Around it stand the pieces that feed and consume it: the ordered
//! message dispatcher, the scheduler triggers, the task-tracker and shutdown
//! models, and the small verified codecs (dates, durations, decimal strings)
//! that the trace format is built from.

pub mod action;
pub mod appender;
pub mod archive;
pub mod asset;
pub mod elastic;
pub mod events;
pub mod exception;
pub mod kafka;
pub mod laws;
pub mod ordmap;
pub mod router;
pub mod schedule;
pub mod shell;
pub mod shutdown;
pub mod sse;
pub mod strfmt;
pub mod time;
pub mod validate;
pub mod web;

use vstd::prelude::*;

verus! {

} // verus!
