use opentelemetry_aws::id::{trace_id_from_parts, Generator};
use std::collections::HashSet;
use std::time::SystemTime;

fn epoch_seconds_now() -> u64 {
    SystemTime::now().duration_since(SystemTime::UNIX_EPOCH).unwrap().as_secs()
}

#[test]
fn test_new_trace_id() {
    let trace_id = Generator::default().new_trace_id();
    let got = (trace_id.value >> 96) as u64;
    let want = epoch_seconds_now();

    assert!(want - got <= 1);
    assert!(trace_id.value & 0xffff_ffff_ffff_ffff_ffff_ffff > 0);
}

#[test]
fn test_trace_id_layout() {
    let t = trace_id_from_parts(0x5759e988, 0xbd862e3fe1be46a994272793);
    assert_eq!(t.value, (0x5759e988u128 << 96) | 0xbd862e3fe1be46a994272793u128);
    // The timestamp keeps only its low 32 bits; the suffix its low 96.
    let t = trace_id_from_parts(u64::MAX, u128::MAX);
    assert_eq!(t.value, u128::MAX);
}

#[test]
fn test_trace_ids_unique_within_second() {
    let generator = Generator::default();
    let before = epoch_seconds_now();
    let mut seen: HashSet<u128> = HashSet::new();
    for _ in 0..10_000 {
        let t = generator.new_trace_id();
        assert!(seen.insert(t.value), "two trace ids were equal");
        let high = (t.value >> 96) as u64;
        let now = epoch_seconds_now();
        assert!(high >= before && high <= now + 1);
    }
}

#[test]
fn test_new_span_ids_differ() {
    let generator = Generator::default();
    let a = generator.new_span_id();
    let b = generator.new_span_id();
    // A full 64-bit random value; two draws colliding is negligible.
    assert_ne!(a.value, b.value);
    // A span id is never zero: a zero id would make a context invalid.
    assert_ne!(a.value, 0);
    assert_ne!(b.value, 0);
}
