//! Trace-context codec and segment-document serializer for the AWS X-Ray
//! tracing backend: identifier generation, the `X-Amzn-Trace-Id` propagation
//! header, and the strictly-schemed segment JSON document.
use vstd::prelude::*;

pub mod codec;
pub mod context;
pub mod format;
pub mod id;
pub mod propagation;
pub mod xray;

verus! {

use crate::xray::{seg_json, Segment};

/// The classification of one submission to the backend's ingestion API; the
/// core reports it upward and performs no retry itself.
#[derive(Clone, Copy, Debug, PartialEq, Eq, Structural)]
pub enum ExportResult {
    Success,
    FailedRetryable,
    FailedNotRetryable,
}

/// The decision the exporter makes of a submission outcome: success when
/// the backend call went through, a non-retryable failure otherwise.
pub fn export_outcome(submitted_ok: bool) -> (r: ExportResult)
    ensures
        r == (if submitted_ok {
            ExportResult::Success
        } else {
            ExportResult::FailedNotRetryable
        }),
{
    if submitted_ok {
        ExportResult::Success
    } else {
        ExportResult::FailedNotRetryable
    }
}

/// Serializes a batch of completed segments, one document string per
/// segment, in order. Every segment tree must be well formed (one entry per
/// annotation or metadata key).
pub fn to_segments(batch: &Vec<Segment>) -> (r: Vec<String>)
    requires
        forall|i: int| 0 <= i < batch@.len() ==> (#[trigger] batch@[i]).well_formed(),
    ensures
        r@.len() == batch@.len(),
        forall|i: int| 0 <= i < batch@.len() ==> r@[i]@ == seg_json(batch@[i]),
{
    let mut out: Vec<String> = Vec::new();
    let mut i: usize = 0;
    while i < batch.len()
        invariant
            i <= batch@.len(),
            out@.len() == i,
            forall|j: int| 0 <= j < batch@.len() ==> (#[trigger] batch@[j]).well_formed(),
            forall|j: int| 0 <= j < i ==> out@[j]@ == seg_json(batch@[j]),
        decreases batch.len() - i,
    {
        proof {
            assert(batch@[i as int].well_formed());
        }
        out.push(batch[i].to_json());
        i = i + 1;
    }
    out
}

/// Gathers the settings an exporter is built from; the settings that only
/// the backend client consumes are resolved by the host.
#[derive(Debug)]
pub struct ExporterConfigBuilder {
    /// The service name spans are reported under, once chosen.
    pub service_name: Option<String>,
}

impl Default for ExporterConfigBuilder {
    /// A builder with no service name chosen yet.
    fn default() -> (r: Self)
        ensures
            r.service_name is None,
    {
        ExporterConfigBuilder { service_name: None }
    }
}

impl ExporterConfigBuilder {
    /// Chooses the service name spans are reported under.
    pub fn with_service_name(&mut self, name: String)
        ensures
            final(self).service_name == Some(name),
    {
        self.service_name = Some(name);
    }

    /// The service name a config built from this builder carries: the
    /// chosen one, or `DEFAULT` when none was chosen.
    pub fn service_name_or_default(&self) -> (r: String)
        ensures
            self.service_name matches Some(n) ==> r@ == n@,
            self.service_name is None ==> r@ == "DEFAULT"@,
    {
        match &self.service_name {
            Some(n) => n.clone(),
            None => String::from_str("DEFAULT"),
        }
    }
}

} // verus!
