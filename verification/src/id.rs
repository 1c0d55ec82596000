//! Trace and span identifier generation: the current wall-clock second in
//! the high 32 bits of a trace id, a full-width 96-bit random suffix in the
//! low bits, and fully random 64-bit span ids.
use vstd::prelude::*;

verus! {

use crate::context::{SpanId, TraceId};

/// The capacity of the 96-bit random suffix of a trace id.
pub const SUFFIX_CAP: u128 = 0x1_0000_0000_0000_0000_0000_0000;

/// The layout of a trace id built from a wall-clock second count and a
/// random suffix: the low 32 bits of the count in the high bits, the low 96
/// bits of the suffix below them.
pub open spec fn trace_id_layout(secs: int, random: int) -> int {
    (secs % 0x1_0000_0000) * 0x1_0000_0000_0000_0000_0000_0000 + (random
        % 0x1_0000_0000_0000_0000_0000_0000)
}

/// Generates trace and span identifiers.
///
/// Each draw goes straight to the operating system's entropy source — or to
/// the clock-seeded fallback — so instances hold no shared mutable state and
/// independent workers can each keep one without contention.
#[derive(Clone, Debug, Default)]
pub struct Generator {}

/// Relies on `rand::rngs::OsRng::try_fill_bytes`, which reports an
/// unavailable entropy source as an error instead of panicking: sixteen
/// random bytes from the operating system, or nothing when the source
/// fails. The bytes are random, so nothing is promised of the value.
#[verifier::external_body]
fn try_os_random_16() -> Option<u128> {
    let mut bytes = [0u8; 16];
    match rand::RngCore::try_fill_bytes(&mut rand::rngs::OsRng, &mut bytes) {
        Ok(()) => Some(u128::from_le_bytes(bytes)),
        Err(_) => None,
    }
}

/// Relies on `std::time::SystemTime::now`, measured from the unix epoch in
/// whole seconds. The value depends on the clock; nothing is promised of it.
#[verifier::external_body]
pub(crate) fn now_unix_seconds() -> u64 {
    std::time::SystemTime::now()
        .duration_since(std::time::SystemTime::UNIX_EPOCH)
        .map(|d| d.as_secs())
        .unwrap_or(0)
}

/// Relies on `std::time::SystemTime::now`, measured from the unix epoch in
/// nanoseconds: the seed of the non-cryptographic fallback generator. The
/// value depends on the clock; nothing is promised of it.
#[verifier::external_body]
fn now_unix_nanos() -> u128 {
    std::time::SystemTime::now()
        .duration_since(std::time::SystemTime::UNIX_EPOCH)
        .map(|d| d.as_nanos())
        .unwrap_or(0)
}

/// One round of a 64-bit finalizing mixer: spreads a seed's bits over the
/// whole word. Identifiers are not security tokens, so this non-cryptographic
/// scramble is an acceptable source when the secure one is unavailable.
fn scramble64(x: u64) -> u64 {
    let a: u64 = x.wrapping_add(0x9e37_79b9_7f4a_7c15);
    let b: u64 = (a ^ (a >> 30)).wrapping_mul(0xbf58_476d_1ce4_e5b9);
    let c: u64 = (b ^ (b >> 27)).wrapping_mul(0x94d0_49bb_1331_11eb);
    c ^ (c >> 31)
}

/// A 128-bit random value: drawn from the operating system's entropy
/// source, or, when that source is unavailable, scrambled out of the
/// current clock reading, so a draw never fails or panics.
fn random_u128() -> u128 {
    match try_os_random_16() {
        Some(v) => v,
        None => {
            let nanos: u128 = now_unix_nanos();
            let lo: u64 = scramble64(nanos as u64);
            let hi: u64 = scramble64(#[verifier::truncate] ((nanos >> 64) as u64) ^ lo);
            ((hi as u128) << 64) | (lo as u128)
        },
    }
}

/// A 64-bit random value, by the same draw-or-fall-back rule.
fn random_u64() -> u64 {
    #[verifier::truncate] (random_u128() as u64)
}

/// Combines a wall-clock second count with a random suffix into a trace id:
/// the count occupies the high 32 bits, the suffix the low 96.
pub fn trace_id_from_parts(secs: u64, random: u128) -> (t: TraceId)
    ensures
        t.value == trace_id_layout(secs as int, random as int),
        t.value as int / SUFFIX_CAP as int == secs as int % 0x1_0000_0000,
        t.value as int % SUFFIX_CAP as int == random as int % SUFFIX_CAP as int,
{
    let hi: u128 = (secs as u128) % 0x1_0000_0000;
    let lo: u128 = random % SUFFIX_CAP;
    proof {
        assert(hi * 0x1_0000_0000_0000_0000_0000_0000 <= 0xffff_ffff
            * 0x1_0000_0000_0000_0000_0000_0000) by (nonlinear_arith)
            requires
                hi <= 0xffff_ffff,
        ;
    }
    let value: u128 = hi * SUFFIX_CAP + lo;
    proof {
        assert(value as int / SUFFIX_CAP as int == hi && value as int % SUFFIX_CAP as int == lo)
            by (nonlinear_arith)
            requires
                value == hi * SUFFIX_CAP + lo,
                0 <= lo < SUFFIX_CAP,
                hi >= 0,
        ;
    }
    TraceId { value }
}

impl Generator {
    /// A fresh trace id: the current epoch second in the high 32 bits and 96
    /// random bits below it, per `trace_id_layout`. The value depends on the
    /// clock and on the randomness stream, so no two calls need agree.
    pub fn new_trace_id(&self) -> (t: TraceId) {
        let secs: u64 = now_unix_seconds();
        let random: u128 = random_u128();
        trace_id_from_parts(secs, random)
    }

    /// A fresh span id: a full 64-bit random value with no timestamp
    /// component. Generation never fails, and the result is never zero —
    /// no valid context may carry a zero span id, so the one zero draw in
    /// 2^64 is mapped to one.
    pub fn new_span_id(&self) -> (s: SpanId)
        ensures
            s.value != 0,
    {
        let value: u64 = random_u64();
        if value == 0 {
            SpanId { value: 1 }
        } else {
            SpanId { value }
        }
    }
}

} // verus!
