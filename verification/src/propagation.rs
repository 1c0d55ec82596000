//! Reading and writing the propagation header on a caller-supplied carrier:
//! the codec side of header injection and extraction.
use vstd::prelude::*;

verus! {

use crate::context::TraceContext;
use crate::format::{
    parse_header,
    spec_parent_carried,
    spec_root_usable,
    spec_root_value,
    spec_sampled,
    spec_span_context,
};
use crate::id::Generator;

/// Injects and extracts the backend's textual trace header.
#[derive(Debug, Default)]
pub struct HttpPropagator {}

/// The wire name of the propagation header.
pub fn header_name() -> (r: &'static str)
    ensures
        r@ == "X-Amzn-Trace-Id"@,
{
    "X-Amzn-Trace-Id"
}

impl HttpPropagator {
    /// The header value to write for a context, or nothing for an invalid
    /// context: absence of the header tells downstream "not traced", so no
    /// malformed header is ever emitted.
    pub fn inject_context(&self, context: &TraceContext) -> (r: Option<String>)
        ensures
            r is Some <==> context.spec_is_valid(),
            r matches Some(v) ==> v@ == spec_span_context(*context),
    {
        if !context.is_valid() {
            return None;
        }
        Some(crate::format::span_context(context))
    }

    /// Extracts a context from the carrier's header value, if one was read:
    /// no value, an unparsable `Root` token, or an all-zero one yields no
    /// context; a missing or unusable parent id is synthesized from the
    /// generator. Every context handed back is valid.
    pub fn extract_with_context(&self, generator: &Generator, header: Option<&str>) -> (r: Option<
        TraceContext,
    >)
        ensures
            header is None ==> r is None,
            header matches Some(h) ==> (r is Some <==> spec_root_usable(h@)),
            r matches Some(c) ==> c.spec_is_valid(),
            header matches Some(h) ==> (r matches Some(c) ==> {
                &&& c.trace_id.value == spec_root_value(h@)
                &&& c.sampled == spec_sampled(h@)
                &&& c.is_remote
                &&& (spec_parent_carried(h@) matches Some(v) ==> c.parent_id.value == v)
            }),
    {
        match header {
            None => None,
            Some(h) => parse_header(generator, h),
        }
    }
}

} // verus!
