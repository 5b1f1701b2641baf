//! Per-instance tracing state. The guest execution context owns one
//! `Metadata` value; the fixed accessor set reads it back as plain 64-bit
//! words, for ABIs without a 128-bit scalar.

use crate::bytes::{join_trace_id, spec_high_word, spec_join_words, spec_low_word};
use vstd::prelude::*;

verus! {

/// The tracing context a guest holds: a 128-bit trace identifier, the current
/// span, and its parent span.
#[derive(Clone, Copy, Debug, PartialEq, Eq, Structural)]
pub struct Metadata {
    pub trace_id: u128,
    pub span_id: u64,
    pub parent_id: u64,
}

impl Metadata {
    /// A cleared context: every identifier zero.
    pub fn new() -> (r: Self)
        ensures
            r.trace_id == 0,
            r.span_id == 0,
            r.parent_id == 0,
    {
        Self { trace_id: 0, span_id: 0, parent_id: 0 }
    }

    /// The high 64-bit word of the trace identifier.
    pub fn get_metadata_trace_id_high(&self) -> (r: u64)
        ensures
            r == spec_high_word(self.trace_id),
    {
        (self.trace_id / 0x10000000000000000u128) as u64
    }

    /// The low 64-bit word of the trace identifier.
    pub fn get_metadata_trace_id_low(&self) -> (r: u64)
        ensures
            r == spec_low_word(self.trace_id),
    {
        (self.trace_id % 0x10000000000000000u128) as u64
    }

    /// The current span identifier.
    pub fn get_metadata_span_id(&self) -> (r: u64)
        ensures
            r == self.span_id,
    {
        self.span_id
    }

    /// The parent span identifier.
    pub fn get_metadata_parent_id(&self) -> (r: u64)
        ensures
            r == self.parent_id,
    {
        self.parent_id
    }

    /// Stores a context handed over as two 64-bit trace-id words, a span
    /// identifier and a parent identifier. The words are rejoined by explicit
    /// arithmetic, independent of any memory layout.
    pub fn set_metadata(&mut self, trace_id_low: u64, trace_id_high: u64, span_id: u64,
        parent_id: u64)
        ensures
            final(self).trace_id == spec_join_words(trace_id_low, trace_id_high),
            final(self).span_id == span_id,
            final(self).parent_id == parent_id,
    {
        self.trace_id = join_trace_id(trace_id_low, trace_id_high);
        self.span_id = span_id;
        self.parent_id = parent_id;
    }
}

} // verus!
