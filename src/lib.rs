//! Typed events from the diagnostic output of an external media encoder.
//!
//! The encoder reports progress, stream listings and a closing summary as
//! free text on its diagnostic stream, and optionally as `key=value` lines on
//! an auxiliary stream. This library cuts those streams into lines, parses
//! each line into at most one event, and keeps the state of an interactive
//! session that runs encodes one at a time. Spawning the process and reading
//! its pipes is left to the caller.
use vstd::prelude::*;

pub mod text;
pub mod units;
pub mod scan;
pub mod progress;
pub mod summary;
pub mod metadata;
pub mod event;
pub mod reader;
pub mod runner;
pub mod formatter;
pub mod command;
pub mod session;
