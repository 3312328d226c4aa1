//! Layout computation and diagnostic engine for C-family aggregates.
//!
//! Given an ordered list of field descriptions (byte size and required
//! alignment), the analyzers recompute every field offset and the total
//! aggregate size under sequential natural-alignment ABI rules, and report
//! each run of hidden padding bytes as a [`report::Gap`] record.

pub mod align;
pub mod field;
pub mod analyze;
pub mod laws;
pub mod render;
pub mod report;
