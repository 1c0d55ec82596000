use opentelemetry_aws::context::{SpanId, TraceContext, TraceId};
use opentelemetry_aws::id::Generator;
use opentelemetry_aws::propagation::{header_name, HttpPropagator};
use opentelemetry_aws::xray::Segment;
use opentelemetry_aws::{export_outcome, to_segments, ExportResult, ExporterConfigBuilder};

#[test]
fn test_header_name() {
    assert_eq!(header_name(), "X-Amzn-Trace-Id");
}

#[test]
fn test_inject_valid_context() {
    let propagator = HttpPropagator::default();
    let context = TraceContext {
        trace_id: TraceId { value: (0x5759e988u128 << 96) | 0xbd862e3fe1be46a994272793u128 },
        parent_id: SpanId { value: 0x53995c3f42cd8ad8 },
        sampled: true,
        is_remote: false,
    };
    let got = propagator.inject_context(&context).unwrap();
    assert_eq!(got, "Root=1-5759e988-bd862e3fe1be46a994272793;Parent=53995c3f42cd8ad8;Sampled=1");
}

#[test]
fn test_inject_invalid_context_writes_nothing() {
    let propagator = HttpPropagator::default();
    let zero_trace = TraceContext {
        trace_id: TraceId { value: 0 },
        parent_id: SpanId { value: 1 },
        sampled: true,
        is_remote: false,
    };
    assert!(propagator.inject_context(&zero_trace).is_none());
    let zero_parent = TraceContext {
        trace_id: TraceId { value: 1 },
        parent_id: SpanId { value: 0 },
        sampled: true,
        is_remote: false,
    };
    assert!(propagator.inject_context(&zero_parent).is_none());
}

#[test]
fn test_extract_with_context() {
    let propagator = HttpPropagator::default();
    let generator = Generator::default();
    assert!(propagator.extract_with_context(&generator, None).is_none());
    let got = propagator
        .extract_with_context(&generator, Some("Root=1-00000001-000000000000000000000001"))
        .unwrap();
    assert_eq!(got.trace_id.value, (1u128 << 96) | 1u128);
    assert!(!got.sampled);
    assert!(got.is_remote);
}

#[test]
fn test_export_outcome() {
    assert_eq!(export_outcome(true), ExportResult::Success);
    assert_eq!(export_outcome(false), ExportResult::FailedNotRetryable);
}

#[test]
fn test_to_segments() {
    let batch = vec![
        Segment::builder().name(String::from("a")).start_time(1).end_time(2).build(),
        Segment::builder().name(String::from("b")).start_time(3).end_time(4).build(),
    ];
    let docs = to_segments(&batch);
    assert_eq!(docs.len(), 2);
    assert_eq!(docs[0], r#"{"end_time":2,"id":"0000000000000000","is_progress":false,"name":"a","parent_id":null,"start_time":1}"#);
    assert_eq!(docs[1], r#"{"end_time":4,"id":"0000000000000000","is_progress":false,"name":"b","parent_id":null,"start_time":3}"#);
}

#[test]
fn test_service_name_or_default() {
    let mut builder = ExporterConfigBuilder::default();
    assert_eq!(builder.service_name_or_default(), "DEFAULT");
    builder.with_service_name(String::from("opentelemetry-backend"));
    assert_eq!(builder.service_name_or_default(), "opentelemetry-backend");
}
