//! Per-pixel colour adjustments: brightness, contrast and temperature.
//!
//! Each adjustment rewrites the red, green and blue bytes of every pixel from
//! that byte alone and leaves the alpha byte as it is. The new byte is the
//! old one scaled by an exact fraction, limited to the stated side or sides,
//! and rounded toward zero.

use vstd::prelude::*;
use crate::layout::is_alpha;
use crate::ratio::{
    lemma_quotient_at_most, lemma_quotient_below, trunc_at_least, trunc_at_most, trunc_between,
    Ratio,
};

verus! {

/// A colour byte after a brightness change: the byte times the factor, at
/// most 255, rounded toward zero. The factor is first limited to the interval
/// from 0 to 3.
pub open spec fn brightened_channel(v: u8, factor: Ratio) -> int {
    let c = factor.clamped(0, 3);
    trunc_at_most(v * c.numer(), c.denom(), 255)
}

/// A colour byte after a contrast change: its distance from the pivot 128
/// times the factor, moved back by 128, limited to the interval from 0 to 255
/// and rounded toward zero. The factor is first limited to the interval from
/// 0 to 3.
pub open spec fn contrasted_channel(v: u8, factor: Ratio) -> int {
    let c = factor.clamped(0, 3);
    trunc_between((v - 128) * c.numer() + 128 * c.denom(), c.denom(), 0, 255)
}

/// The numerator of `v * (1 + t * tenths / 10)` over the denominator
/// `10 * t.denom()`.
pub open spec fn tinted(v: u8, t: Ratio, tenths: int) -> int {
    v * (10 * t.denom() + tenths * t.numer())
}

/// A colour byte of channel `ch` (0 red, 1 green, 2 blue) after a temperature
/// change. The temperature is first limited to the interval from -1 to 1.
///
/// A temperature above zero warms: red grows by three tenths of it and green
/// by one tenth, each limited from above by 255 only, and blue shrinks by two
/// tenths, limited from below by 0 only. Any other temperature cools: red
/// changes by two tenths of it and green by one tenth, each limited from
/// below by 0 only, and blue changes by minus three tenths, limited from
/// above by 255 only.
#[verifier::opaque]
pub open spec fn tempered_channel(ch: int, v: u8, temperature: Ratio) -> int {
    let t = temperature.clamped(-1, 1);
    let d = 10 * t.denom();
    if t.above(0) {
        if ch == 0 {
            trunc_at_most(tinted(v, t, 3), d, 255)
        } else if ch == 1 {
            trunc_at_most(tinted(v, t, 1), d, 255)
        } else {
            trunc_at_least(tinted(v, t, -2), d, 0)
        }
    } else {
        if ch == 0 {
            trunc_at_least(tinted(v, t, 2), d, 0)
        } else if ch == 1 {
            trunc_at_least(tinted(v, t, 1), d, 0)
        } else {
            trunc_at_most(tinted(v, t, -3), d, 255)
        }
    }
}

/// The buffer after a brightness change.
pub open spec fn brightened(buf: Seq<u8>, factor: Ratio) -> Seq<u8> {
    Seq::new(
        buf.len(),
        |i: int|
            if is_alpha(i) {
                buf[i]
            } else {
                brightened_channel(buf[i], factor) as u8
            },
    )
}

/// The buffer after a contrast change.
pub open spec fn contrasted(buf: Seq<u8>, factor: Ratio) -> Seq<u8> {
    Seq::new(
        buf.len(),
        |i: int|
            if is_alpha(i) {
                buf[i]
            } else {
                contrasted_channel(buf[i], factor) as u8
            },
    )
}

/// The buffer after a temperature change.
pub open spec fn tempered(buf: Seq<u8>, temperature: Ratio) -> Seq<u8> {
    Seq::new(
        buf.len(),
        |i: int|
            if is_alpha(i) {
                buf[i]
            } else {
                tempered_channel(i % 4, buf[i], temperature) as u8
            },
    )
}

/// A brightened colour byte is a byte.
pub proof fn lemma_brightened_channel_is_byte(v: u8, factor: Ratio)
    requires
        factor.wf(),
    ensures
        0 <= brightened_channel(v, factor) <= 255,
{
    factor.lemma_clamped(0, 3);
    let c = factor.clamped(0, 3);
    assert(0 <= v * c.numer()) by (nonlinear_arith)
        requires
            0 <= v,
            0 <= c.numer(),
    ;
    if v * c.numer() < 255 * c.denom() {
        lemma_quotient_below(v * c.numer(), c.denom(), 255);
    }
}

/// A contrasted colour byte is a byte.
pub proof fn lemma_contrasted_channel_is_byte(v: u8, factor: Ratio)
    requires
        factor.wf(),
    ensures
        0 <= contrasted_channel(v, factor) <= 255,
{
    factor.lemma_clamped(0, 3);
    let c = factor.clamped(0, 3);
    let a = (v - 128) * c.numer() + 128 * c.denom();
    if 0 < a < 255 * c.denom() {
        lemma_quotient_below(a, c.denom(), 255);
    }
}

/// A warmed or cooled colour byte is a byte, although each channel is
/// limited on one side only.
pub proof fn lemma_tempered_channel_is_byte(ch: int, v: u8, temperature: Ratio)
    requires
        temperature.wf(),
    ensures
        0 <= tempered_channel(ch, v, temperature) <= 255,
{
    reveal(tempered_channel);
    temperature.lemma_clamped(-1, 1);
    let t = temperature.clamped(-1, 1);
    let n = t.numer();
    let d = 10 * t.denom();
    assert(-t.denom() <= n <= t.denom());
    if t.above(0) {
        if ch == 0 {
            lemma_limited_above_is_byte(v, 10 * t.denom() + 3 * n, d);
        } else if ch == 1 {
            lemma_limited_above_is_byte(v, 10 * t.denom() + n, d);
        } else {
            lemma_limited_below_is_byte(v, 10 * t.denom() - 2 * n, d);
        }
    } else {
        if ch == 0 {
            lemma_limited_below_is_byte(v, 10 * t.denom() + 2 * n, d);
        } else if ch == 1 {
            lemma_limited_below_is_byte(v, 10 * t.denom() + n, d);
        } else {
            lemma_limited_above_is_byte(v, 10 * t.denom() - 3 * n, d);
        }
    }
}

/// A byte times a fraction that is not negative, limited from above by 255,
/// is a byte.
pub proof fn lemma_limited_above_is_byte(v: u8, m: int, d: int)
    requires
        0 < d,
        0 <= m,
    ensures
        0 <= trunc_at_most(v * m, d, 255) <= 255,
{
    assert(0 <= v * m) by (nonlinear_arith)
        requires
            0 <= v,
            0 <= m,
    ;
    if v * m < 255 * d {
        lemma_quotient_below(v * m, d, 255);
    }
}

/// A byte times a fraction between zero and one, limited from below by 0,
/// is a byte.
pub proof fn lemma_limited_below_is_byte(v: u8, m: int, d: int)
    requires
        0 < d,
        0 <= m <= d,
    ensures
        0 <= trunc_at_least(v * m, d, 0) <= 255,
{
    assert(0 <= v * m <= 255 * d) by (nonlinear_arith)
        requires
            0 <= v <= 255,
            0 <= m <= d,
    ;
    if v * m > 0 {
        lemma_quotient_at_most(v * m, d, 255);
    }
}

/// A byte times a multiplier of moderate size.
fn scale(v: u8, m: i64) -> (p: i64)
    requires
        -0x100_0000_0000 <= m <= 0x100_0000_0000,
    ensures
        p == v * m,
{
    assert(-0x7fff_ffff_ffff_ffff <= v * m <= 0x7fff_ffff_ffff_ffff) by (nonlinear_arith)
        requires
            0 <= v <= 255,
            -0x100_0000_0000 <= m <= 0x100_0000_0000,
    ;
    (v as i64) * m
}

/// `a / d` limited from above by 255 and rounded toward zero.
fn cut_above(a: i64, d: i64) -> (r: u8)
    requires
        0 <= a,
        0 < d <= 0x1_0000_0000_0000,
    ensures
        r == trunc_at_most(a as int, d as int, 255),
{
    if a >= 255 * d {
        255
    } else {
        proof {
            lemma_quotient_below(a as int, d as int, 255);
        }
        ((a as u64) / (d as u64)) as u8
    }
}

/// `a / d` limited from below by 0 and rounded toward zero.
fn cut_below(a: i64, d: i64) -> (r: u8)
    requires
        0 < d,
        a <= 255 * d,
    ensures
        r == trunc_at_least(a as int, d as int, 0),
{
    if a <= 0 {
        0
    } else {
        proof {
            lemma_quotient_at_most(a as int, d as int, 255);
        }
        ((a as u64) / (d as u64)) as u8
    }
}

/// `a / d` limited to the interval from 0 to 255 and rounded toward zero.
fn cut_between(a: i64, d: i64) -> (r: u8)
    requires
        0 < d <= 0x1_0000_0000_0000,
    ensures
        r == trunc_between(a as int, d as int, 0, 255),
{
    if a <= 0 {
        0
    } else {
        cut_above(a, d)
    }
}

/// Changes the brightness of every pixel of `data`.
pub(crate) fn brighten(data: &mut [u8], factor: Ratio)
    requires
        old(data)@.len() % 4 == 0,
    ensures
        final(data)@ == brightened(old(data)@, factor),
{
    let c = factor.clamp(0, 3);
    let n = c.numerator() as i64;
    let d = c.denominator() as i64;
    let len = data.len();
    let ghost before = data@;
    let mut i: usize = 0;
    while i < len
        invariant
            len == data@.len() == before.len(),
            len % 4 == 0,
            i % 4 == 0,
            i <= len,
            c == factor.clamped(0, 3),
            n == c.numer(),
            d == c.denom(),
            0 < d <= u32::MAX,
            0 <= n <= 3 * d,
            forall|j: int| 0 <= j < i ==> data@[j] == #[trigger] brightened(before, factor)[j],
            forall|j: int| i <= j < len ==> data@[j] == before[j],
        decreases len - i,
    {
        let r = data[i];
        let g = data[i + 1];
        let b = data[i + 2];
        assert(0 <= r * n && 0 <= g * n && 0 <= b * n) by (nonlinear_arith)
            requires
                0 <= n,
        ;
        data[i] = cut_above(scale(r, n), d);
        data[i + 1] = cut_above(scale(g, n), d);
        data[i + 2] = cut_above(scale(b, n), d);
        i += 4;
    }
    assert(data@ =~= brightened(before, factor));
}

/// Changes the contrast of every pixel of `data`.
pub(crate) fn contrast(data: &mut [u8], factor: Ratio)
    requires
        old(data)@.len() % 4 == 0,
    ensures
        final(data)@ == contrasted(old(data)@, factor),
{
    let c = factor.clamp(0, 3);
    let n = c.numerator() as i64;
    let d = c.denominator() as i64;
    let len = data.len();
    let ghost before = data@;
    let mut i: usize = 0;
    while i < len
        invariant
            len == data@.len() == before.len(),
            len % 4 == 0,
            i % 4 == 0,
            i <= len,
            c == factor.clamped(0, 3),
            n == c.numer(),
            d == c.denom(),
            0 < d <= u32::MAX,
            0 <= n <= 3 * d,
            forall|j: int| 0 <= j < i ==> data@[j] == #[trigger] contrasted(before, factor)[j],
            forall|j: int| i <= j < len ==> data@[j] == before[j],
        decreases len - i,
    {
        data[i] = contrast_channel(data[i], n, d);
        data[i + 1] = contrast_channel(data[i + 1], n, d);
        data[i + 2] = contrast_channel(data[i + 2], n, d);
        i += 4;
    }
    assert(data@ =~= contrasted(before, factor));
}

/// One colour byte moved away from or toward the pivot by `n / d`.
fn contrast_channel(v: u8, n: i64, d: i64) -> (r: u8)
    requires
        0 < d <= u32::MAX,
        0 <= n <= 3 * d,
    ensures
        r == trunc_between((v - 128) * n + 128 * d, d as int, 0, 255),
{
    assert((v - 128) * n == v * n - 128 * n && 0 <= v * n <= 255 * n) by (nonlinear_arith)
        requires
            0 <= v <= 255,
            0 <= n,
    ;
    cut_between(scale(v, n) - 128 * n + 128 * d, d)
}

/// Changes the colour temperature of every pixel of `data`.
pub(crate) fn temper(data: &mut [u8], temperature: Ratio)
    requires
        old(data)@.len() % 4 == 0,
    ensures
        final(data)@ == tempered(old(data)@, temperature),
{
    let t = temperature.clamp(-1, 1);
    let warm = t.is_positive();
    let n = t.numerator() as i64;
    let d = t.denominator() as i64;
    let len = data.len();
    let ghost before = data@;
    let mut i: usize = 0;
    while i < len
        invariant
            len == data@.len() == before.len(),
            len % 4 == 0,
            i % 4 == 0,
            i <= len,
            t == temperature.clamped(-1, 1),
            warm == t.above(0),
            n == t.numer(),
            d == t.denom(),
            0 < d <= u32::MAX,
            -d <= n <= d,
            forall|j: int| 0 <= j < i ==> data@[j] == #[trigger] tempered(before, temperature)[j],
            forall|j: int| i <= j < len ==> data@[j] == before[j],
        decreases len - i,
    {
        data[i] = temper_channel(0, data[i], warm, n, d, Ghost(temperature));
        data[i + 1] = temper_channel(1, data[i + 1], warm, n, d, Ghost(temperature));
        data[i + 2] = temper_channel(2, data[i + 2], warm, n, d, Ghost(temperature));
        i += 4;
    }
    assert(data@ =~= tempered(before, temperature));
}

/// One colour byte of channel `ch` warmed or cooled by `n / d`, the limited
/// temperature.
fn temper_channel(ch: usize, v: u8, warm: bool, n: i64, d: i64, Ghost(temperature): Ghost<
    Ratio,
>) -> (r: u8)
    requires
        ch < 3,
        warm == temperature.clamped(-1, 1).above(0),
        n == temperature.clamped(-1, 1).numer(),
        d == temperature.clamped(-1, 1).denom(),
        0 < d <= u32::MAX,
        -d <= n <= d,
    ensures
        r == tempered_channel(ch as int, v, temperature),
{
    reveal(tempered_channel);
    if warm {
        if ch == 0 {
            tint_above(v, 10 * d + 3 * n, 10 * d)
        } else if ch == 1 {
            tint_above(v, 10 * d + n, 10 * d)
        } else {
            tint_below(v, 10 * d - 2 * n, 10 * d)
        }
    } else {
        if ch == 0 {
            tint_below(v, 10 * d + 2 * n, 10 * d)
        } else if ch == 1 {
            tint_below(v, 10 * d + n, 10 * d)
        } else {
            tint_above(v, 10 * d - 3 * n, 10 * d)
        }
    }
}

/// One colour byte times `m / d`, limited from above by 255 only.
fn tint_above(v: u8, m: i64, d: i64) -> (r: u8)
    requires
        0 < d <= 0x10_0000_0000,
        0 <= m <= 2 * d,
    ensures
        r == trunc_at_most(v * m, d as int, 255),
{
    assert(0 <= v * m) by (nonlinear_arith)
        requires
            0 <= v,
            0 <= m,
    ;
    cut_above(scale(v, m), d)
}

/// One colour byte times `m / d`, limited from below by 0 only. With `m` no
/// greater than `d` the product stays within a byte without an upper limit.
fn tint_below(v: u8, m: i64, d: i64) -> (r: u8)
    requires
        0 < d <= 0x10_0000_0000,
        0 <= m <= d,
    ensures
        r == trunc_at_least(v * m, d as int, 0),
{
    assert(v * m <= 255 * d) by (nonlinear_arith)
        requires
            0 <= v <= 255,
            0 <= m <= d,
    ;
    cut_below(scale(v, m), d)
}

} // verus!
