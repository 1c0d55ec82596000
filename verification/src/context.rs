//! The propagated identity of a logical operation: trace and span
//! identifiers, and the trace context carried across process boundaries.
use vstd::prelude::*;

verus! {

/// A 128-bit trace identifier: a 32-bit unix-epoch-seconds timestamp in the
/// high bits and a 96-bit unique suffix in the low bits.
#[derive(Clone, Copy, Debug, PartialEq, Eq, Structural)]
pub struct TraceId {
    pub value: u128,
}

/// A 64-bit span identifier, opaque, unique within a trace.
#[derive(Clone, Copy, Debug, PartialEq, Eq, Structural)]
pub struct SpanId {
    pub value: u64,
}

/// The propagated identity of a logical operation.
///
/// A context is treated as valid only when both identifiers are non-zero;
/// invalid contexts are never serialized into outbound headers.
#[derive(Clone, Copy, Debug, PartialEq, Eq, Structural)]
pub struct TraceContext {
    pub trace_id: TraceId,
    pub parent_id: SpanId,
    pub sampled: bool,
    pub is_remote: bool,
}

impl TraceContext {
    /// Whether the context carries usable (non-zero) identifiers.
    pub open spec fn spec_is_valid(&self) -> bool {
        self.trace_id.value != 0 && self.parent_id.value != 0
    }

    /// Executable validity test; true exactly when both ids are non-zero.
    #[verifier::when_used_as_spec(spec_is_valid)]
    pub fn is_valid(&self) -> (b: bool)
        ensures
            b == self.spec_is_valid(),
    {
        self.trace_id.value != 0 && self.parent_id.value != 0
    }
}

} // verus!
