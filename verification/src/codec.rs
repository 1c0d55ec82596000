//! Digit-level codecs shared by the propagation header and the segment
//! document: fixed-width lowercase hexadecimal, minimum-width hexadecimal,
//! and decimal rendering, together with hexadecimal digit-run evaluation.
use vstd::prelude::*;

verus! {

use vstd::arithmetic::div_mod::lemma_mod_breakdown;

/// The lowercase hexadecimal digit for a value below sixteen.
pub open spec fn hex_char_of(d: int) -> char {
    if d == 0 {
        '0'
    } else if d == 1 {
        '1'
    } else if d == 2 {
        '2'
    } else if d == 3 {
        '3'
    } else if d == 4 {
        '4'
    } else if d == 5 {
        '5'
    } else if d == 6 {
        '6'
    } else if d == 7 {
        '7'
    } else if d == 8 {
        '8'
    } else if d == 9 {
        '9'
    } else if d == 10 {
        'a'
    } else if d == 11 {
        'b'
    } else if d == 12 {
        'c'
    } else if d == 13 {
        'd'
    } else if d == 14 {
        'e'
    } else {
        'f'
    }
}

/// Whether a character is a hexadecimal digit, in either case.
pub open spec fn is_hex_digit(c: char) -> bool {
    ('0' <= c && c <= '9') || ('a' <= c && c <= 'f') || ('A' <= c && c <= 'F')
}

/// The numeric value of a hexadecimal digit.
pub open spec fn hex_val_of(c: char) -> int {
    if '0' <= c && c <= '9' {
        c as int - '0' as int
    } else if 'a' <= c && c <= 'f' {
        c as int - 'a' as int + 10
    } else {
        c as int - 'A' as int + 10
    }
}

/// Sixteen raised to the given power.
pub open spec fn pow16(w: nat) -> int
    decreases w,
{
    if w == 0 {
        1
    } else {
        16 * pow16((w - 1) as nat)
    }
}

/// The low `w` hexadecimal digits of `v`, highest digit first, in lowercase.
pub open spec fn hex_be(v: int, w: nat) -> Seq<char>
    decreases w,
{
    if w == 0 {
        Seq::empty()
    } else {
        hex_be(v / 16, (w - 1) as nat).push(hex_char_of(v % 16))
    }
}

/// How many hexadecimal digits a non-negative value needs (at least one).
pub open spec fn hex_len(v: int) -> nat
    decreases v,
{
    if v < 16 {
        1
    } else {
        1 + hex_len(v / 16)
    }
}

/// `v` in lowercase hexadecimal, zero-padded to at least `min` digits and
/// never truncated: the width grows past `min` when the value needs it.
pub open spec fn hex_min(v: int, min: nat) -> Seq<char> {
    if hex_len(v) > min {
        hex_be(v, hex_len(v))
    } else {
        hex_be(v, min)
    }
}

/// The numeric value of a run of hexadecimal digits, highest digit first.
pub open spec fn hex_run_val(s: Seq<char>) -> int
    decreases s.len(),
{
    if s.len() == 0 {
        0
    } else {
        hex_run_val(s.drop_last()) * 16 + hex_val_of(s.last())
    }
}

/// The decimal digits of a non-negative value, highest digit first.
pub open spec fn dec_u(v: int) -> Seq<char>
    decreases v,
{
    if v < 10 {
        seq![hex_char_of(v)]
    } else {
        dec_u(v / 10).push(hex_char_of(v % 10))
    }
}

/// The decimal rendering of a signed value: a minus sign, then the digits of
/// its magnitude.
pub open spec fn dec_i(v: int) -> Seq<char> {
    if v < 0 {
        seq!['-'] + dec_u(-v)
    } else {
        dec_u(v)
    }
}

pub proof fn lemma_pow16_pos(w: nat)
    ensures
        pow16(w) >= 1,
    decreases w,
{
    if w > 0 {
        lemma_pow16_pos((w - 1) as nat);
    }
}

pub proof fn lemma_hex_be_len(v: int, w: nat)
    ensures
        hex_be(v, w).len() == w,
    decreases w,
{
    if w > 0 {
        lemma_hex_be_len(v / 16, (w - 1) as nat);
    }
}

/// Every character that `hex_be` emits is a lowercase hexadecimal digit.
pub proof fn lemma_hex_be_digits(v: int, w: nat)
    requires
        v >= 0,
    ensures
        forall|i: int| 0 <= i < hex_be(v, w).len() ==> is_hex_digit(#[trigger] hex_be(v, w)[i]),
    decreases w,
{
    if w > 0 {
        lemma_hex_be_digits(v / 16, (w - 1) as nat);
        lemma_hex_be_len(v / 16, (w - 1) as nat);
        assert(is_hex_digit(hex_char_of(v % 16)));
        assert forall|i: int| 0 <= i < hex_be(v, w).len() implies is_hex_digit(
            #[trigger] hex_be(v, w)[i],
        ) by {
            if i < w - 1 {
                assert(hex_be(v, w)[i] == hex_be(v / 16, (w - 1) as nat)[i]);
            }
        }
    }
}

/// Reading the digits back gives the value modulo the field's capacity; for a
/// value that fits the width this is the value itself.
pub proof fn lemma_hex_be_val(v: int, w: nat)
    requires
        v >= 0,
    ensures
        hex_run_val(hex_be(v, w)) == v % pow16(w),
    decreases w,
{
    if w == 0 {
        assert(v % 1 == 0) by (nonlinear_arith)
            requires
                v >= 0,
        ;
    } else {
        lemma_hex_be_val(v / 16, (w - 1) as nat);
        lemma_hex_be_len(v / 16, (w - 1) as nat);
        let s = hex_be(v, w);
        assert(s.drop_last() =~= hex_be(v / 16, (w - 1) as nat));
        assert(0 <= v % 16 < 16);
        assert(hex_val_of(hex_char_of(v % 16)) == v % 16);
        lemma_pow16_pos((w - 1) as nat);
        lemma_mod_breakdown(v, 16, pow16((w - 1) as nat));
    }
}

/// A value of `w` digits is below the capacity of `w` digits.
pub proof fn lemma_hex_len_fits(v: int, w: nat)
    requires
        0 <= v < pow16(w),
        w >= 1,
    ensures
        hex_len(v) <= w,
    decreases w,
{
    if v >= 16 {
        if w == 1 {
            assert(false);
        } else {
            assert(v / 16 < pow16((w - 1) as nat)) by (nonlinear_arith)
                requires
                    v < 16 * pow16((w - 1) as nat),
                    v >= 16,
            ;
            lemma_hex_len_fits(v / 16, (w - 1) as nat);
        }
    }
}

/// A run of hexadecimal digits has a non-negative value below the capacity of
/// its length.
pub proof fn lemma_hex_run_val_bounds(s: Seq<char>)
    requires
        forall|i: int| 0 <= i < s.len() ==> is_hex_digit(#[trigger] s[i]),
    ensures
        0 <= hex_run_val(s) < pow16(s.len() as nat),
    decreases s.len(),
{
    if s.len() == 0 {
    } else {
        lemma_hex_run_val_bounds(s.drop_last());
        let p = hex_run_val(s.drop_last());
        let cap = pow16((s.len() - 1) as nat);
        assert(0 <= hex_val_of(s.last()) < 16);
        assert(p * 16 + hex_val_of(s.last()) < 16 * cap) by (nonlinear_arith)
            requires
                0 <= p < cap,
                0 <= hex_val_of(s.last()) < 16,
        ;
        assert(p * 16 >= 0) by (nonlinear_arith)
            requires
                p >= 0,
        ;
    }
}

/// Extending a digit run never lowers its value.
pub proof fn lemma_hex_run_val_step(s: Seq<char>, i: int)
    requires
        0 <= i < s.len(),
        forall|j: int| 0 <= j < s.len() ==> is_hex_digit(#[trigger] s[j]),
    ensures
        hex_run_val(s.take(i + 1)) == hex_run_val(s.take(i)) * 16 + hex_val_of(s[i]),
        hex_run_val(s.take(i + 1)) >= hex_run_val(s.take(i)),
{
    assert(s.take(i + 1).drop_last() =~= s.take(i));
    assert(s.take(i + 1).last() == s[i]);
    assert(forall|j: int| 0 <= j < s.take(i).len() ==> is_hex_digit(#[trigger] s.take(i)[j]));
    lemma_hex_run_val_bounds(s.take(i));
    let p = hex_run_val(s.take(i));
    assert(p * 16 + hex_val_of(s[i]) >= p) by (nonlinear_arith)
        requires
            p >= 0,
            hex_val_of(s[i]) >= 0,
    ;
}

/// The lowercase hexadecimal digit of a value below sixteen.
pub fn hex_char(d: u128) -> (c: char)
    requires
        d < 16,
    ensures
        c == hex_char_of(d as int),
{
    if d == 0 {
        '0'
    } else if d == 1 {
        '1'
    } else if d == 2 {
        '2'
    } else if d == 3 {
        '3'
    } else if d == 4 {
        '4'
    } else if d == 5 {
        '5'
    } else if d == 6 {
        '6'
    } else if d == 7 {
        '7'
    } else if d == 8 {
        '8'
    } else if d == 9 {
        '9'
    } else if d == 10 {
        'a'
    } else if d == 11 {
        'b'
    } else if d == 12 {
        'c'
    } else if d == 13 {
        'd'
    } else if d == 14 {
        'e'
    } else {
        'f'
    }
}

/// Appends the low `width` hexadecimal digits of `v`, highest first.
pub fn push_hex(out: &mut Vec<char>, v: u128, width: usize)
    ensures
        final(out)@ == old(out)@ + hex_be(v as int, width as nat),
    decreases width,
{
    if width > 0 {
        push_hex(out, v / 16, width - 1);
        let c = hex_char(v % 16);
        out.push(c);
        proof {
            assert(final(out)@ =~= old(out)@ + hex_be(v as int, width as nat));
        }
    } else {
        proof {
            assert(final(out)@ =~= old(out)@ + hex_be(v as int, 0));
        }
    }
}

/// Appends `v` in hexadecimal, zero-padded to at least `min` digits.
pub fn push_hex_min(out: &mut Vec<char>, v: u128, min: usize)
    requires
        1 <= min <= 1000,
    ensures
        final(out)@ == old(out)@ + hex_min(v as int, min as nat),
{
    proof {
        lemma_hex_len_le_32(v as int);
    }
    let mut t: u128 = v;
    let mut l: usize = 1;
    while t >= 16
        invariant
            hex_len(v as int) == l - 1 + hex_len(t as int),
            hex_len(v as int) <= 32,
            l <= 33,
            t <= v,
        decreases t,
    {
        t = t / 16;
        l = l + 1;
        proof {
            lemma_hex_len_pos(t as int);
        }
    }
    let width: usize = if l < min {
        min
    } else {
        l
    };
    push_hex(out, v, width);
}

/// Every value needs at least one digit.
proof fn lemma_hex_len_pos(v: int)
    ensures
        hex_len(v) >= 1,
{
}

/// A 128-bit value needs at most 32 hexadecimal digits.
proof fn lemma_hex_len_le_32(v: int)
    requires
        0 <= v < 0x1_0000_0000_0000_0000_0000_0000_0000_0000,
    ensures
        hex_len(v) <= 32,
{
    assert(pow16(32) == 0x1_0000_0000_0000_0000_0000_0000_0000_0000) by {
        reveal_with_fuel(pow16, 33);
    }
    lemma_hex_len_fits(v, 32);
}

/// Appends the decimal digits of `v`.
pub fn push_dec_u64(out: &mut Vec<char>, v: u64)
    ensures
        final(out)@ == old(out)@ + dec_u(v as int),
    decreases v,
{
    if v < 10 {
        let c = hex_char(v as u128);
        out.push(c);
        proof {
            assert(final(out)@ =~= old(out)@ + dec_u(v as int));
        }
    } else {
        push_dec_u64(out, v / 10);
        let c = hex_char((v % 10) as u128);
        out.push(c);
        proof {
            assert(final(out)@ =~= old(out)@ + dec_u(v as int));
        }
    }
}

/// Appends the decimal rendering of a signed value.
pub fn push_dec_i64(out: &mut Vec<char>, v: i64)
    ensures
        final(out)@ == old(out)@ + dec_i(v as int),
{
    if v < 0 {
        out.push('-');
        let mag: u64 = if v == i64::MIN {
            9223372036854775808u64
        } else {
            (-v) as u64
        };
        push_dec_u64(out, mag);
        proof {
            assert(final(out)@ =~= old(out)@ + dec_i(v as int));
        }
    } else {
        push_dec_u64(out, v as u64);
    }
}

/// Appends every character of `s`.
pub fn push_str(out: &mut Vec<char>, s: &str)
    ensures
        final(out)@ == old(out)@ + s@,
{
    let n: usize = s.unicode_len();
    let mut i: usize = 0;
    while i < n
        invariant
            i <= n,
            n == s@.len(),
            out@ == old(out)@ + s@.take(i as int),
        decreases n - i,
    {
        let c = s.get_char(i);
        out.push(c);
        proof {
            assert(out@ =~= old(out)@ + s@.take(i as int + 1));
        }
        i = i + 1;
    }
    proof {
        assert(final(out)@ =~= old(out)@ + s@);
    }
}

/// Relies on `String::from_iter` over `core::iter` on a character vector: the
/// resulting string holds exactly the characters of the vector, in order.
#[verifier::external_body]
pub fn string_of(v: Vec<char>) -> (r: String)
    ensures
        r@ == v@,
{
    v.into_iter().collect()
}

} // verus!
