//! Reads and (with privilege) sets the system wall clock, rendering instants
//! as epoch seconds, RFC 2822 or RFC 3339 text.
//!
//! The library holds the verified logic: the calendar model, the textual
//! formats and their parsers, the decomposition of a timestamp into the
//! fields that the platform clock-set calls expect, and the decision of
//! what a single invocation does. The thin shell that talks to the
//! operating system lives outside it.

pub mod calendar;
pub mod clock;
pub mod dispatch;
pub mod laws;
pub mod parse;
pub mod render;
pub mod text;
pub mod timestamp;
