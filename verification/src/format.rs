//! The textual propagation header: encoding a trace context into the
//! backend's `Root=1-..;Parent=..;Sampled=..` format and parsing such a
//! header back, synthesizing a parent span id when none was propagated.
use vstd::prelude::*;

verus! {

use crate::codec::{
    hex_be,
    hex_run_val,
    is_hex_digit,
    push_hex,
    push_str,
    string_of,
};
use crate::context::{SpanId, TraceContext, TraceId};
use crate::id::{Generator, SUFFIX_CAP};

/// The header text for a context: the trace id split as an 8-digit timestamp
/// and a 24-digit suffix, a 16-digit parent span id, and the sampling flag.
pub open spec fn spec_span_context(ctx: TraceContext) -> Seq<char> {
    "Root=1-"@ + hex_be(ctx.trace_id.value as int / SUFFIX_CAP as int, 8) + seq!['-'] + hex_be(
        ctx.trace_id.value as int % SUFFIX_CAP as int,
        24,
    ) + ";Parent="@ + hex_be(ctx.parent_id.value as int, 16) + ";Sampled="@ + (if ctx.sampled {
        seq!['1']
    } else {
        seq!['0']
    })
}

/// Whether the characters of `pat` occur in `h` starting at `i`.
pub open spec fn matches_at(h: Seq<char>, i: int, pat: Seq<char>) -> bool {
    0 <= i && i + pat.len() <= h.len() && h.subrange(i, i + pat.len()) == pat
}

/// The length of the maximal run of hexadecimal digits starting at `i`.
pub open spec fn hex_run_len(h: Seq<char>, i: int) -> int
    decreases h.len() - i when 0 <= i <= h.len()
{
    if !(0 <= i < h.len()) {
        0
    } else if !is_hex_digit(h[i]) {
        0
    } else {
        1 + hex_run_len(h, i + 1)
    }
}

/// Whether the required `Root=1-<hex>-<hex>` token leads the header with
/// both digit groups parsable: a timestamp that fits 32 bits and a suffix
/// whose digits fit 128 bits.
pub open spec fn spec_root_ok(h: Seq<char>) -> bool {
    let n1 = hex_run_len(h, 7);
    let n2 = hex_run_len(h, 8 + n1);
    &&& matches_at(h, 0, "Root=1-"@)
    &&& n1 >= 1
    &&& hex_run_val(h.subrange(7, 7 + n1)) <= u32::MAX
    &&& 7 + n1 < h.len()
    &&& h[7 + n1] == '-'
    &&& n2 >= 1
    &&& hex_run_val(h.subrange(8 + n1, 8 + n1 + n2)) <= u128::MAX
}

/// The trace id a parsable header carries: the first group in the high 32
/// bits, the low 96 bits of the second group below it.
pub open spec fn spec_root_value(h: Seq<char>) -> int {
    let n1 = hex_run_len(h, 7);
    let n2 = hex_run_len(h, 8 + n1);
    hex_run_val(h.subrange(7, 7 + n1)) * SUFFIX_CAP as int + hex_run_val(
        h.subrange(8 + n1, 8 + n1 + n2),
    ) % SUFFIX_CAP as int
}

/// Whether a `Parent=` token followed by at least one hexadecimal digit
/// occurs at `i`.
pub open spec fn parent_match_at(h: Seq<char>, i: int) -> bool {
    matches_at(h, i, "Parent="@) && i + 7 < h.len() && is_hex_digit(h[i + 7])
}

/// The position of the first `Parent=` token with a digit after it, or -1.
pub open spec fn first_parent_from(h: Seq<char>, i: int) -> int
    decreases h.len() - i when 0 <= i <= h.len()
{
    if !(0 <= i <= h.len()) {
        -1
    } else if parent_match_at(h, i) {
        i
    } else if i == h.len() {
        -1
    } else {
        first_parent_from(h, i + 1)
    }
}

/// The parent span id the header itself carries: the value of the digit run
/// after the first `Parent=` token, if such a token exists and the value
/// fits 64 bits and is non-zero. A zero or oversized value is as unusable as
/// a missing one, since no valid context may hold a zero span id.
pub open spec fn spec_parent_carried(h: Seq<char>) -> Option<int> {
    let p = first_parent_from(h, 0);
    if p < 0 {
        None
    } else {
        let n = hex_run_len(h, p + 7);
        let v = hex_run_val(h.subrange(p + 7, p + 7 + n));
        if 0 < v <= u64::MAX {
            Some(v)
        } else {
            None
        }
    }
}

/// The parent span id an extracted context ends up with: the carried one, or
/// the caller's fallback when none was carried.
pub open spec fn spec_parent_value(h: Seq<char>, fallback: u64) -> int {
    match spec_parent_carried(h) {
        Some(v) => v,
        None => fallback as int,
    }
}

/// Whether the header marks the trace as sampled: the exact fragment
/// `Sampled=1` occurs somewhere in it.
pub open spec fn spec_sampled(h: Seq<char>) -> bool {
    exists|i: int| matches_at(h, i, "Sampled=1"@)
}

/// Whether the header yields a usable trace id: the `Root` token parses and
/// its value is non-zero, since a zero trace id would make the extracted
/// context invalid.
pub open spec fn spec_root_usable(h: Seq<char>) -> bool {
    spec_root_ok(h) && spec_root_value(h) != 0
}

/// What parsing a header yields: nothing when the `Root` token is missing,
/// malformed, or all zero — each degrades to "no context" — otherwise a
/// remote context with the carried trace id, the carried or fallback parent
/// id, and the sampling flag.
pub open spec fn spec_parse_header(h: Seq<char>, fallback: u64) -> Option<TraceContext> {
    if !spec_root_usable(h) {
        None
    } else {
        Some(
            TraceContext {
                trace_id: TraceId { value: spec_root_value(h) as u128 },
                parent_id: SpanId { value: spec_parent_value(h, fallback) as u64 },
                sampled: spec_sampled(h),
                is_remote: true,
            },
        )
    }
}

/// Every position inside a maximal digit run holds a hexadecimal digit.
pub proof fn lemma_hex_run_len_digits(h: Seq<char>, i: int)
    requires
        0 <= i <= h.len(),
    ensures
        hex_run_len(h, i) >= 0,
        i + hex_run_len(h, i) <= h.len(),
        forall|j: int| i <= j < i + hex_run_len(h, i) ==> is_hex_digit(h[j]),
    decreases h.len() - i,
{
    if i < h.len() && is_hex_digit(h[i]) {
        lemma_hex_run_len_digits(h, i + 1);
    }
}

/// A found first `Parent=` position is a real match at or after the start.
pub proof fn lemma_first_parent_match(h: Seq<char>, i: int)
    requires
        0 <= i <= h.len(),
    ensures
        first_parent_from(h, i) >= 0 ==> {
            &&& first_parent_from(h, i) >= i
            &&& parent_match_at(h, first_parent_from(h, i))
        },
    decreases h.len() - i,
{
    if !parent_match_at(h, i) && i < h.len() {
        lemma_first_parent_match(h, i + 1);
    }
}

/// A region of `k` digits with a non-digit (or the end) after it is exactly
/// the maximal run.
pub proof fn lemma_hex_run_len_exact(h: Seq<char>, i: int, k: int)
    requires
        0 <= i,
        k >= 0,
        i + k <= h.len(),
        forall|j: int| i <= j < i + k ==> is_hex_digit(h[j]),
        i + k == h.len() || !is_hex_digit(h[i + k]),
    ensures
        hex_run_len(h, i) == k,
    decreases k,
{
    if k > 0 {
        lemma_hex_run_len_exact(h, i + 1, k - 1);
    }
}

/// Skipping a region without a `Parent=` match does not change which match
/// is first.
pub proof fn lemma_first_parent_skip(h: Seq<char>, a: int, b: int)
    requires
        0 <= a <= b <= h.len(),
        forall|j: int| a <= j < b ==> !parent_match_at(h, j),
    ensures
        first_parent_from(h, a) == first_parent_from(h, b),
    decreases b - a,
{
    if a < b {
        lemma_first_parent_skip(h, a + 1, b);
    }
}

/// Formats a context as the backend's header text.
pub fn span_context(ctx: &TraceContext) -> (r: String)
    ensures
        r@ == spec_span_context(*ctx),
{
    let mut out: Vec<char> = Vec::new();
    push_str(&mut out, "Root=1-");
    push_hex(&mut out, ctx.trace_id.value / SUFFIX_CAP, 8);
    out.push('-');
    push_hex(&mut out, ctx.trace_id.value % SUFFIX_CAP, 24);
    push_str(&mut out, ";Parent=");
    push_hex(&mut out, ctx.parent_id.value as u128, 16);
    push_str(&mut out, ";Sampled=");
    if ctx.sampled {
        out.push('1');
    } else {
        out.push('0');
    }
    proof {
        assert(out@ =~= spec_span_context(*ctx));
    }
    string_of(out)
}

/// Hexadecimal digit test, in either case.
fn is_hex(c: char) -> (b: bool)
    ensures
        b == is_hex_digit(c),
{
    ('0' <= c && c <= '9') || ('a' <= c && c <= 'f') || ('A' <= c && c <= 'F')
}

/// The numeric value of a hexadecimal digit.
fn hex_digit_val(c: char) -> (d: u8)
    requires
        is_hex_digit(c),
    ensures
        d == crate::codec::hex_val_of(c),
{
    let u: u32 = c as u32;
    if u >= 97 {
        (u - 87) as u8
    } else if u >= 65 {
        (u - 55) as u8
    } else {
        (u - 48) as u8
    }
}

/// Whether the characters of `pat` occur in `s` starting at `i`.
fn match_at(s: &str, i: usize, pat: &str) -> (b: bool)
    ensures
        b == matches_at(s@, i as int, pat@),
{
    let n: usize = s.unicode_len();
    let m: usize = pat.unicode_len();
    if i > n || m > n - i {
        return false;
    }
    let mut j: usize = 0;
    while j < m
        invariant
            j <= m,
            i + m <= n,
            n == s@.len(),
            m == pat@.len(),
            forall|k: int| 0 <= k < j ==> s@[i + k] == pat@[k],
        decreases m - j,
    {
        if s.get_char(i + j) != pat.get_char(j) {
            proof {
                assert(s@.subrange(i as int, i + m)[j as int] != pat@[j as int]);
            }
            return false;
        }
        j = j + 1;
    }
    proof {
        assert(s@.subrange(i as int, i + m) =~= pat@);
    }
    true
}

/// The length of the maximal run of hexadecimal digits starting at `start`.
fn scan_hex_run(s: &str, start: usize) -> (len: usize)
    requires
        start <= s@.len(),
    ensures
        len == hex_run_len(s@, start as int),
        start + len <= s@.len(),
        forall|j: int| start <= j < start + len ==> is_hex_digit(s@[j]),
{
    let n: usize = s.unicode_len();
    let mut i: usize = start;
    while i < n && is_hex(s.get_char(i))
        invariant
            start <= i <= n,
            n == s@.len(),
            hex_run_len(s@, start as int) == (i - start) + hex_run_len(s@, i as int),
            forall|j: int| start <= j < i ==> is_hex_digit(s@[j]),
        decreases n - i,
    {
        i = i + 1;
    }
    i - start
}

/// The value of a run of hexadecimal digits, or nothing when it exceeds 128
/// bits.
fn hex_run_value(s: &str, start: usize, len: usize) -> (r: Option<u128>)
    requires
        start + len <= s@.len(),
        forall|j: int| start <= j < start + len ==> is_hex_digit(s@[j]),
    ensures
        ({
            let v = hex_run_val(s@.subrange(start as int, start + len));
            match r {
                Some(x) => v == x,
                None => v > u128::MAX,
            }
        }),
{
    let ghost sub = s@.subrange(start as int, start + len);
    proof {
        assert(forall|j: int| 0 <= j < sub.len() ==> is_hex_digit(#[trigger] sub[j]));
    }
    let n: usize = s.unicode_len();
    let mut acc: u128 = 0;
    let mut overflow: bool = false;
    let mut i: usize = 0;
    while i < len
        invariant
            i <= len,
            n == s@.len(),
            start + len <= s@.len(),
            sub == s@.subrange(start as int, start + len),
            forall|j: int| 0 <= j < sub.len() ==> is_hex_digit(#[trigger] sub[j]),
            !overflow ==> acc == hex_run_val(sub.take(i as int)),
            overflow ==> hex_run_val(sub.take(i as int)) > u128::MAX,
        decreases len - i,
    {
        let c = s.get_char(start + i);
        proof {
            assert(sub[i as int] == s@[start + i]);
        }
        let d: u8 = hex_digit_val(c);
        proof {
            crate::codec::lemma_hex_run_val_step(sub, i as int);
        }
        if overflow {
            proof {
                crate::codec::lemma_hex_run_val_bounds(sub.take(i as int));
            }
        } else {
            let limit: u128 = (u128::MAX - d as u128) / 16;
            if acc <= limit {
                proof {
                    assert(acc * 16 + d <= u128::MAX) by (nonlinear_arith)
                        requires
                            acc <= (u128::MAX - d as u128) / 16,
                            d < 16,
                    ;
                }
                acc = acc * 16 + d as u128;
            } else {
                proof {
                    assert(acc * 16 + d > u128::MAX) by (nonlinear_arith)
                        requires
                            acc > (u128::MAX - d as u128) / 16,
                            d >= 0,
                    ;
                }
                overflow = true;
            }
        }
        i = i + 1;
    }
    proof {
        assert(sub.take(len as int) =~= sub);
    }
    if overflow {
        None
    } else {
        Some(acc)
    }
}

/// The position of the first `Parent=` token followed by a digit.
fn find_parent(s: &str) -> (r: Option<usize>)
    ensures
        match r {
            Some(p) => first_parent_from(s@, 0) == p,
            None => first_parent_from(s@, 0) == -1,
        },
{
    proof {
        reveal_strlit("Parent=");
    }
    let n: usize = s.unicode_len();
    let mut i: usize = 0;
    while i < n
        invariant
            i <= n,
            n == s@.len(),
            "Parent="@.len() == 7,
            first_parent_from(s@, 0) == first_parent_from(s@, i as int),
        decreases n - i,
    {
        let hit = match_at(s, i, "Parent=")
            && i + 7 < n
            && is_hex(s.get_char(i + 7));
        if hit {
            return Some(i);
        }
        i = i + 1;
    }
    None
}

/// Whether the fragment `Sampled=1` occurs anywhere in the header.
fn find_sampled(s: &str) -> (b: bool)
    ensures
        b == spec_sampled(s@),
{
    let n: usize = s.unicode_len();
    let mut i: usize = 0;
    while i < n
        invariant
            i <= n,
            n == s@.len(),
            forall|j: int| 0 <= j < i ==> !matches_at(s@, j, "Sampled=1"@),
        decreases n - i,
    {
        if match_at(s, i, "Sampled=1") {
            return true;
        }
        i = i + 1;
    }
    proof {
        assert forall|j: int| !matches_at(s@, j, "Sampled=1"@) by {
            reveal_strlit("Sampled=1");
        }
    }
    false
}

/// Parses a header with an explicit fallback parent id, per
/// `spec_parse_header`: no context without a parsable, non-zero `Root`
/// token; a parent id taken from the header when it carries a usable one,
/// from `fallback` otherwise; sampled only on an exact `Sampled=1`
/// fragment. Every context handed back is valid.
pub fn parse_header_with(header: &str, fallback: SpanId) -> (r: Option<TraceContext>)
    requires
        fallback.value != 0,
    ensures
        r == spec_parse_header(header@, fallback.value),
        r matches Some(c) ==> c.spec_is_valid(),
{
    let n: usize = header.unicode_len();
    if !match_at(header, 0, "Root=1-") {
        return None;
    }
    proof {
        reveal_strlit("Root=1-");
    }
    let n1 = scan_hex_run(header, 7);
    if n1 == 0 {
        return None;
    }
    let ts: u128 = match hex_run_value(header, 7, n1) {
        None => {
            return None;
        },
        Some(v) => {
            if v > u32::MAX as u128 {
                return None;
            }
            v
        },
    };
    if 7 + n1 >= n {
        return None;
    }
    if header.get_char(7 + n1) != '-' {
        return None;
    }
    let n2 = scan_hex_run(header, 8 + n1);
    if n2 == 0 {
        return None;
    }
    let low: u128 = match hex_run_value(header, 8 + n1, n2) {
        None => {
            return None;
        },
        Some(v) => v,
    };
    proof {
        assert(ts * SUFFIX_CAP <= 0xffff_ffff * 0x1_0000_0000_0000_0000_0000_0000)
            by (nonlinear_arith)
            requires
                ts <= 0xffff_ffff,
        ;
    }
    let trace_value: u128 = ts * SUFFIX_CAP + low % SUFFIX_CAP;
    if trace_value == 0 {
        return None;
    }
    let parent_value: u64 = match find_parent(header) {
        None => fallback.value,
        Some(p) => {
            proof {
                lemma_first_parent_match(header@, 0);
                reveal_strlit("Parent=");
            }
            let n3 = scan_hex_run(header, p + 7);
            match hex_run_value(header, p + 7, n3) {
                None => fallback.value,
                Some(v) => {
                    if v == 0 || v > u64::MAX as u128 {
                        fallback.value
                    } else {
                        v as u64
                    }
                },
            }
        },
    };
    let sampled = find_sampled(header);
    Some(
        TraceContext {
            trace_id: TraceId { value: trace_value },
            parent_id: SpanId { value: parent_value },
            sampled,
            is_remote: true,
        },
    )
}

/// Parses a header, synthesizing a fresh random parent span id when the
/// header carries no usable one, so every extracted context is valid: a
/// non-zero trace id and a non-zero parent span id.
pub fn parse_header(generator: &Generator, header: &str) -> (r: Option<TraceContext>)
    ensures
        r is Some <==> spec_root_usable(header@),
        r matches Some(c) ==> {
            &&& c.spec_is_valid()
            &&& c.trace_id.value == spec_root_value(header@)
            &&& c.sampled == spec_sampled(header@)
            &&& c.is_remote
            &&& (spec_parent_carried(header@) matches Some(v) ==> c.parent_id.value == v)
        },
{
    let fallback = generator.new_span_id();
    let r = parse_header_with(header, fallback);
    proof {
        let h = header@;
        if spec_root_ok(h) {
            let n1 = hex_run_len(h, 7);
            let n2 = hex_run_len(h, 8 + n1);
            lemma_hex_run_len_digits(h, 7);
            lemma_hex_run_len_digits(h, 8 + n1);
            let g1 = h.subrange(7, 7 + n1);
            let g2 = h.subrange(8 + n1, 8 + n1 + n2);
            assert(forall|j: int| 0 <= j < g1.len() ==> is_hex_digit(#[trigger] g1[j]));
            assert(forall|j: int| 0 <= j < g2.len() ==> is_hex_digit(#[trigger] g2[j]));
            crate::codec::lemma_hex_run_val_bounds(g1);
            crate::codec::lemma_hex_run_val_bounds(g2);
            let v1 = hex_run_val(g1);
            assert(v1 * SUFFIX_CAP as int <= 0xffff_ffff * 0x1_0000_0000_0000_0000_0000_0000)
                by (nonlinear_arith)
                requires
                    0 <= v1 <= 0xffff_ffff,
            ;
            let p = first_parent_from(h, 0);
            if p >= 0 {
                lemma_first_parent_match(h, 0);
                lemma_hex_run_len_digits(h, p + 7);
                let g3 = h.subrange(p + 7, p + 7 + hex_run_len(h, p + 7));
                assert forall|j: int| 0 <= j < g3.len() implies is_hex_digit(#[trigger] g3[j]) by {
                    assert(g3[j] == h[p + 7 + j]);
                }
                crate::codec::lemma_hex_run_val_bounds(g3);
            }
        }
    }
    r
}

/// Round trip: parsing the header written for any valid context recovers the
/// same trace id, the same parent span id, and the same sampled flag,
/// whatever fallback id the parser was handed.
#[verifier::rlimit(100)]
pub proof fn lemma_header_round_trip(ctx: TraceContext, fallback: u64)
    requires
        ctx.spec_is_valid(),
    ensures
        spec_parse_header(spec_span_context(ctx), fallback) == Some(
            TraceContext {
                trace_id: ctx.trace_id,
                parent_id: ctx.parent_id,
                sampled: ctx.sampled,
                is_remote: true,
            },
        ),
{
    reveal_strlit("Root=1-");
    reveal_strlit(";Parent=");
    reveal_strlit(";Sampled=");
    reveal_strlit("Parent=");
    reveal_strlit("Sampled=1");
    let value = ctx.trace_id.value as int;
    let ts = value / SUFFIX_CAP as int;
    let low = value % SUFFIX_CAP as int;
    let pid = ctx.parent_id.value as int;
    let h = spec_span_context(ctx);
    let a = "Root=1-"@;
    let b = hex_be(ts, 8);
    let d = hex_be(low, 24);
    let e = ";Parent="@;
    let f = hex_be(pid, 16);
    let g = ";Sampled="@;
    let tail: Seq<char> = if ctx.sampled {
        seq!['1']
    } else {
        seq!['0']
    };
    crate::codec::lemma_hex_be_len(ts, 8);
    crate::codec::lemma_hex_be_len(low, 24);
    crate::codec::lemma_hex_be_len(pid, 16);
    assert(value < 0x1_0000_0000 * 0x1_0000_0000_0000_0000_0000_0000);
    assert(0 <= ts < 0x1_0000_0000 && 0 <= low < SUFFIX_CAP as int && value == ts
        * SUFFIX_CAP as int + low) by (nonlinear_arith)
        requires
            0 <= value < 0x1_0000_0000 * 0x1_0000_0000_0000_0000_0000_0000,
            ts == value / 0x1_0000_0000_0000_0000_0000_0000,
            low == value % 0x1_0000_0000_0000_0000_0000_0000,
    ;
    crate::codec::lemma_hex_be_digits(ts, 8);
    crate::codec::lemma_hex_be_digits(low, 24);
    crate::codec::lemma_hex_be_digits(pid, 16);
    assert(h == a + b + seq!['-'] + d + e + f + g + tail);
    assert(h.len() == 74);
    // Where each character of the header comes from.
    assert forall|j: int| 0 <= j < 7 implies h[j] == a[j] by {}
    assert forall|j: int| 0 <= j < 8 implies h[7 + j] == b[j] by {}
    assert(h[15] == '-');
    assert forall|j: int| 0 <= j < 24 implies h[16 + j] == d[j] by {}
    assert forall|j: int| 0 <= j < 8 implies h[40 + j] == e[j] by {}
    assert forall|j: int| 0 <= j < 16 implies h[48 + j] == f[j] by {}
    assert forall|j: int| 0 <= j < 9 implies h[64 + j] == g[j] by {}
    assert(h[73] == tail[0]);
    // The Root token and its two digit groups.
    assert(h.subrange(0, 7) =~= a);
    assert(matches_at(h, 0, a));
    assert(forall|j: int| 7 <= j < 15 ==> is_hex_digit(h[j]));
    assert(!is_hex_digit(h[15]));
    lemma_hex_run_len_exact(h, 7, 8);
    assert(h.subrange(7, 15) =~= b);
    crate::codec::lemma_hex_be_val(ts, 8);
    assert(crate::codec::pow16(8) == 0x1_0000_0000) by {
        reveal_with_fuel(crate::codec::pow16, 9);
    }
    assert(hex_run_val(b) == ts);
    assert(forall|j: int| 16 <= j < 40 ==> is_hex_digit(h[j]));
    assert(!is_hex_digit(h[40]));
    lemma_hex_run_len_exact(h, 16, 24);
    assert(h.subrange(16, 40) =~= d);
    crate::codec::lemma_hex_be_val(low, 24);
    assert(crate::codec::pow16(24) == SUFFIX_CAP as int) by {
        reveal_with_fuel(crate::codec::pow16, 25);
    }
    assert(hex_run_val(d) == low);
    assert(spec_root_ok(h));
    assert(low % SUFFIX_CAP as int == low);
    assert(spec_root_value(h) == ts * SUFFIX_CAP as int + low);
    assert(spec_root_value(h) == value);
    // The Parent token: first match at 41, digits 48..64 ended by ';'.
    assert(h.subrange(41, 48) =~= "Parent="@);
    assert(forall|j: int| 48 <= j < 64 ==> is_hex_digit(h[j]));
    assert(!is_hex_digit(h[64]));
    assert(parent_match_at(h, 41));
    assert forall|j: int| 0 <= j < 41 implies !parent_match_at(h, j) by {
        if parent_match_at(h, j) {
            assert(h.subrange(j, j + 7) == "Parent="@);
            assert(h[j] == h.subrange(j, j + 7)[0]);
            assert(h[j] == 'P');
            assert(!is_hex_digit('P'));
            assert(false);
        }
    }
    lemma_first_parent_skip(h, 0, 41);
    assert(first_parent_from(h, 0) == 41);
    lemma_hex_run_len_exact(h, 48, 16);
    assert(h.subrange(48, 64) =~= f);
    crate::codec::lemma_hex_be_val(pid, 16);
    assert(crate::codec::pow16(16) == 0x1_0000_0000_0000_0000) by {
        reveal_with_fuel(crate::codec::pow16, 17);
    }
    assert(hex_run_val(f) == pid);
    assert(spec_parent_carried(h) == Some(pid));
    // The Sampled flag: present exactly when the context was sampled.
    if ctx.sampled {
        assert(h.subrange(65, 74) =~= "Sampled=1"@);
        assert(matches_at(h, 65, "Sampled=1"@));
        assert(spec_sampled(h));
    } else {
        reveal_strlit("0");
        assert forall|j: int| !matches_at(h, j, "Sampled=1"@) by {
            if matches_at(h, j, "Sampled=1"@) {
                assert(h.subrange(j, j + 9) == "Sampled=1"@);
                assert(h[j] == h.subrange(j, j + 9)[0]);
                assert(h[j] == 'S');
                assert(!is_hex_digit('S'));
                assert(0 <= j && j + 9 <= 74);
                assert(j == 65);
                assert(h[73] == h.subrange(j, j + 9)[8]);
                assert(h[73] == '1');
                assert(false);
            }
        }
        assert(!spec_sampled(h));
    }
}

} // verus!
