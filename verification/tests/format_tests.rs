use opentelemetry_aws::context::{SpanId, TraceContext, TraceId};
use opentelemetry_aws::format::{parse_header, parse_header_with, span_context};
use opentelemetry_aws::id::Generator;

fn ctx(trace: u128, parent: u64, sampled: bool) -> TraceContext {
    TraceContext {
        trace_id: TraceId { value: trace },
        parent_id: SpanId { value: parent },
        sampled,
        is_remote: false,
    }
}

#[test]
fn test_span_context() {
    let raw = [
        "Root=1-5759e988-bd862e3fe1be46a994272793;Parent=53995c3f42cd8ad8;Sampled=1",
        "Root=1-5759e988-bd862e3fe1be46a994272793;Parent=53995c3f42cd8ad8;Sampled=0",
    ];

    for want in raw.iter() {
        let span_context_value = parse_header(&Generator::default(), want).unwrap();
        let got = span_context(&span_context_value);
        assert_eq!(got, *want);
    }
}

#[test]
fn test_parse_header_fields() {
    let header = "Root=1-5759e988-bd862e3fe1be46a994272793;Parent=53995c3f42cd8ad8;Sampled=1";
    let got = parse_header(&Generator::default(), header).unwrap();
    let want_trace = (0x5759e988u128 << 96) | 0xbd862e3fe1be46a994272793u128;
    assert_eq!(got.trace_id.value, want_trace);
    assert_eq!(got.parent_id.value, 0x53995c3f42cd8ad8u64);
    assert!(got.sampled);
    assert!(got.is_remote);
}

#[test]
fn test_missing_parent() {
    let header = "Root=1-00000001-000000000000000000000001";
    let got = parse_header(&Generator::default(), header).unwrap();
    assert_eq!(got.trace_id.value, (1u128 << 96) | 1u128);
    assert!(!got.sampled);
    assert_ne!(got.parent_id.value, 0);
}

#[test]
fn test_parse_fallback_parent() {
    let header = "Root=1-00000001-000000000000000000000001;Sampled=1";
    let got = parse_header_with(header, SpanId { value: 77 }).unwrap();
    assert_eq!(got.parent_id.value, 77);
    assert!(got.sampled);
}

#[test]
fn test_parse_rejects_malformed_root() {
    let g = Generator::default();
    assert!(parse_header(&g, "").is_none());
    assert!(parse_header(&g, "Root=2-5759e988-bd862e3fe1be46a994272793").is_none());
    assert!(parse_header(&g, "Root=1-xyz-bd862e3f").is_none());
    assert!(parse_header(&g, "Root=1-5759e988").is_none());
    assert!(parse_header(&g, "Root=1-5759e988-").is_none());
    // A timestamp group whose value exceeds 32 bits fails the whole header.
    assert!(parse_header(&g, "Root=1-15759e988-bd862e3fe1be46a994272793").is_none());
    // The Root token must lead the header.
    assert!(parse_header(&g, "x Root=1-5759e988-bd862e3fe1be46a994272793").is_none());
}

#[test]
fn test_parse_ignores_extra_fields() {
    let header = "Root=1-5759e988-bd862e3fe1be46a994272793;Self=1-deadbeef-0;Sampled=1;Parent=0000000000000002";
    let got = parse_header_with(header, SpanId { value: 9 }).unwrap();
    assert_eq!(got.parent_id.value, 2);
    assert!(got.sampled);
}

#[test]
fn test_parse_rejects_zero_trace_id() {
    // An all-zero Root group would make an invalid context, so it degrades
    // to "no context" like any other unusable header.
    let g = Generator::default();
    assert!(parse_header(&g, "Root=1-00000000-000000000000000000000000").is_none());
    assert!(parse_header(&g, "Root=1-00000000-000000000000000000000000;Parent=53995c3f42cd8ad8;Sampled=1").is_none());
}

#[test]
fn test_parse_zero_parent_uses_fallback() {
    // A zero parent id is as unusable as a missing one.
    let header = "Root=1-00000001-000000000000000000000001;Parent=0000000000000000";
    let got = parse_header_with(header, SpanId { value: 5 }).unwrap();
    assert_eq!(got.parent_id.value, 5);
    let got = parse_header(&Generator::default(), header).unwrap();
    assert_ne!(got.parent_id.value, 0);
}

#[test]
fn test_parse_oversized_parent_uses_fallback() {
    // Seventeen digits overflow a 64-bit parent id, so the fallback stands.
    let header = "Root=1-00000001-000000000000000000000001;Parent=10000000000000000f";
    let got = parse_header_with(header, SpanId { value: 5 }).unwrap();
    assert_eq!(got.parent_id.value, 5);
}

#[test]
fn test_parse_sampled_other_values_not_sampled() {
    let g = Generator::default();
    let got = parse_header(&g, "Root=1-00000001-000000000000000000000001;Sampled=0").unwrap();
    assert!(!got.sampled);
    let got = parse_header(&g, "Root=1-00000001-000000000000000000000001;Sampled=true").unwrap();
    assert!(!got.sampled);
}

#[test]
fn test_round_trip_concrete() {
    let cases = [
        ctx(1, 1, false),
        ctx((0xffff_ffffu128 << 96) | 0xffff_ffff_ffff_ffff_ffff_ffffu128, u64::MAX, true),
        ctx(0x0102_0304_0506_0708_090a_0b0c_0d0e_0f10, 0xabcdef, true),
    ];
    for c in cases.iter() {
        let header = span_context(c);
        let got = parse_header_with(&header, SpanId { value: 42 }).unwrap();
        assert_eq!(got.trace_id.value, c.trace_id.value);
        assert_eq!(got.parent_id.value, c.parent_id.value);
        assert_eq!(got.sampled, c.sampled);
        assert!(got.is_remote);
    }
}
