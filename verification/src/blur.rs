//! Separable box blur.
//!
//! One pass replaces every colour byte by the mean of the same channel over
//! the `2k + 1` pixels around it along one axis. A neighbour outside the image
//! is replaced by the nearest pixel inside it. The blur is a horizontal pass
//! followed by a vertical pass over the result of the first. Means are
//! integer quotients rounded toward zero, and alpha bytes are kept.

use vstd::prelude::*;
use crate::layout::{
    buffer_len, channel_of, column_of, is_alpha, lemma_offset_in_bounds, lemma_position, offset,
    row_of,
};
use crate::ratio::{lemma_multiple, lemma_quotient_at_most, Ratio};

verus! {

/// The direction of one blur pass.
#[derive(Clone, Copy, Debug)]
pub enum Axis {
    Horizontal,
    Vertical,
}

/// The largest kernel radius.
pub const MAX_RADIUS: usize = 10;

/// The coordinate `v` moved to the nearest one in `0 .. n`.
pub open spec fn clamp_coord(v: int, n: int) -> int {
    if v < 0 {
        0
    } else if v >= n {
        n - 1
    } else {
        v
    }
}

/// The position of the pixel that lies `delta` steps from `(x, y)` along
/// `axis`, or of the nearest pixel inside the image.
pub open spec fn tap(w: int, h: int, x: int, y: int, axis: Axis, delta: int) -> int {
    match axis {
        Axis::Horizontal => offset(w, clamp_coord(x + delta, w), y),
        Axis::Vertical => offset(w, x, clamp_coord(y + delta, h)),
    }
}

/// The sum of channel `c` over the first `n` pixels of the window of radius
/// `k` around `(x, y)`, counted from the far end at `-k`.
pub open spec fn window_sum(
    buf: Seq<u8>,
    w: int,
    h: int,
    x: int,
    y: int,
    c: int,
    k: int,
    axis: Axis,
    n: nat,
) -> int
    decreases n,
{
    if n == 0 {
        0
    } else {
        window_sum(buf, w, h, x, y, c, k, axis, (n - 1) as nat) + buf[tap(
            w,
            h,
            x,
            y,
            axis,
            n - 1 - k,
        ) + c]
    }
}

/// The mean of channel `c` over the whole window of radius `k` around
/// `(x, y)`, rounded toward zero.
pub open spec fn window_mean(
    buf: Seq<u8>,
    w: int,
    h: int,
    x: int,
    y: int,
    c: int,
    k: int,
    axis: Axis,
) -> int {
    window_sum(buf, w, h, x, y, c, k, axis, (2 * k + 1) as nat) / (2 * k + 1)
}

/// The byte at position `i` after one pass.
pub open spec fn box_pass_at(buf: Seq<u8>, w: int, h: int, k: int, axis: Axis, i: int) -> u8 {
    if is_alpha(i) {
        buf[i]
    } else {
        window_mean(buf, w, h, column_of(w, i), row_of(w, i), channel_of(i), k, axis) as u8
    }
}

/// The buffer after one pass of radius `k` along `axis`.
pub open spec fn box_pass(buf: Seq<u8>, w: int, h: int, k: int, axis: Axis) -> Seq<u8> {
    Seq::new(buf.len(), |i: int| box_pass_at(buf, w, h, k, axis, i))
}

/// The buffer after a blur of kernel radius `k`: unchanged for radius zero,
/// else a horizontal pass followed by a vertical pass.
pub open spec fn blurred(buf: Seq<u8>, w: int, h: int, k: int) -> Seq<u8> {
    if k == 0 {
        buf
    } else {
        box_pass(box_pass(buf, w, h, k, Axis::Horizontal), w, h, k, Axis::Vertical)
    }
}

/// The kernel radius for a requested radius: the request limited to the
/// interval from 0 to 10 and rounded toward zero.
pub open spec fn kernel_radius(radius: Ratio) -> int {
    radius.clamped(0, MAX_RADIUS as int).truncated()
}

/// A window sum of `n` bytes is at most `255 * n`.
pub proof fn lemma_window_sum_bound(
    buf: Seq<u8>,
    w: int,
    h: int,
    x: int,
    y: int,
    c: int,
    k: int,
    axis: Axis,
    n: nat,
)
    requires
        buf.len() == buffer_len(w, h),
        0 <= x < w,
        0 <= y < h,
        0 <= c < 4,
    ensures
        0 <= window_sum(buf, w, h, x, y, c, k, axis, n) <= 255 * n,
    decreases n,
{
    if n > 0 {
        lemma_window_sum_bound(buf, w, h, x, y, c, k, axis, (n - 1) as nat);
        lemma_tap_in_bounds(w, h, x, y, axis, n - 1 - k);
    }
}

/// Every tap lies inside the buffer.
pub proof fn lemma_tap_in_bounds(w: int, h: int, x: int, y: int, axis: Axis, delta: int)
    requires
        0 <= x < w,
        0 <= y < h,
    ensures
        0 <= tap(w, h, x, y, axis, delta),
        tap(w, h, x, y, axis, delta) + 4 <= buffer_len(w, h),
{
    match axis {
        Axis::Horizontal => lemma_offset_in_bounds(w, h, clamp_coord(x + delta, w), y),
        Axis::Vertical => lemma_offset_in_bounds(w, h, x, clamp_coord(y + delta, h)),
    }
}

/// A window mean is a byte.
pub proof fn lemma_window_mean_bound(
    buf: Seq<u8>,
    w: int,
    h: int,
    x: int,
    y: int,
    c: int,
    k: int,
    axis: Axis,
)
    requires
        buf.len() == buffer_len(w, h),
        0 <= x < w,
        0 <= y < h,
        0 <= c < 4,
        0 <= k,
    ensures
        0 <= window_mean(buf, w, h, x, y, c, k, axis) <= 255,
{
    lemma_window_sum_bound(buf, w, h, x, y, c, k, axis, (2 * k + 1) as nat);
    lemma_quotient_at_most(
        window_sum(buf, w, h, x, y, c, k, axis, (2 * k + 1) as nat),
        2 * k + 1,
        255,
    );
}

/// A window whose taps all read the byte `v` sums to `n * v`.
pub proof fn lemma_window_sum_constant(
    buf: Seq<u8>,
    w: int,
    h: int,
    x: int,
    y: int,
    c: int,
    k: int,
    axis: Axis,
    n: nat,
    v: int,
)
    requires
        forall|delta: int|
            -k <= delta < n - k ==> buf[#[trigger] tap(w, h, x, y, axis, delta) + c] == v,
    ensures
        window_sum(buf, w, h, x, y, c, k, axis, n) == n * v,
    decreases n,
{
    if n > 0 {
        let m = (n - 1) as nat;
        lemma_window_sum_constant(buf, w, h, x, y, c, k, axis, m, v);
        assert(buf[tap(w, h, x, y, axis, n - 1 - k) + c] == v);
        assert(m * v + v == n * v) by (nonlinear_arith)
            requires
                m == n - 1,
        ;
    } else {
        assert(n * v == 0) by (nonlinear_arith)
            requires
                n == 0,
        ;
    }
}

/// A pass keeps a buffer in which every colour byte equals the same channel
/// of each pixel in its window.
pub proof fn lemma_box_pass_fixed(buf: Seq<u8>, w: int, h: int, k: int, axis: Axis)
    requires
        buf.len() == buffer_len(w, h),
        0 <= w,
        0 <= h,
        0 <= k,
        forall|i: int, delta: int|
            0 <= i < buf.len() && !is_alpha(i) && -k <= delta <= k ==> buf[#[trigger] tap(
                w,
                h,
                column_of(w, i),
                row_of(w, i),
                axis,
                delta,
            ) + channel_of(i)] == buf[i],
    ensures
        box_pass(buf, w, h, k, axis) == buf,
{
    assert forall|i: int| 0 <= i < buf.len() implies box_pass_at(buf, w, h, k, axis, i)
        == buf[i] by {
        if !is_alpha(i) {
            let x = column_of(w, i);
            let y = row_of(w, i);
            let c = channel_of(i);
            let v = buf[i] as int;
            let n = 2 * k + 1;
            assert forall|delta: int| -k <= delta < n - k implies buf[#[trigger] tap(
                w,
                h,
                x,
                y,
                axis,
                delta,
            ) + c] == v by {
                assert(buf[tap(w, h, column_of(w, i), row_of(w, i), axis, delta) + channel_of(i)]
                    == buf[i]);
            }
            lemma_window_sum_constant(buf, w, h, x, y, c, k, axis, n as nat, v);
            lemma_multiple(v, n, 0);
            assert(n * v == v * n) by (nonlinear_arith);
        }
    }
    assert(box_pass(buf, w, h, k, axis) =~= buf);
}

/// The coordinate `v + j - k`, moved to the nearest one in `0 .. n`.
fn shifted(v: usize, j: usize, k: usize, n: usize) -> (r: usize)
    requires
        v < n,
    ensures
        r == clamp_coord(v + j - k, n as int),
        r < n,
{
    if j < k {
        let back = k - j;
        if v < back {
            0
        } else {
            v - back
        }
    } else {
        let ahead = j - k;
        if ahead >= n - v {
            n - 1
        } else {
            v + ahead
        }
    }
}

/// The buffer position of tap number `j` of the window around `(x, y)`.
fn tap_offset(w: usize, h: usize, x: usize, y: usize, k: usize, j: usize, axis: Axis) -> (idx:
    usize)
    requires
        x < w,
        y < h,
        buffer_len(w as int, h as int) <= usize::MAX,
    ensures
        idx == tap(w as int, h as int, x as int, y as int, axis, j - k),
        idx + 4 <= buffer_len(w as int, h as int),
{
    match axis {
        Axis::Horizontal => {
            let nx = shifted(x, j, k, w);
            proof {
                lemma_offset_in_bounds(w as int, h as int, nx as int, y as int);
            }
            (y * w + nx) * 4
        },
        Axis::Vertical => {
            let ny = shifted(y, j, k, h);
            proof {
                lemma_offset_in_bounds(w as int, h as int, x as int, ny as int);
            }
            (ny * w + x) * 4
        },
    }
}

/// The sums of red, green and blue over the window of radius `k` around
/// `(x, y)`.
fn window_sums(src: &[u8], w: usize, h: usize, x: usize, y: usize, k: usize, axis: Axis) -> (s: (
    u32,
    u32,
    u32,
))
    requires
        src@.len() == buffer_len(w as int, h as int),
        x < w,
        y < h,
        k <= MAX_RADIUS,
    ensures
        s.0 == window_sum(src@, w as int, h as int, x as int, y as int, 0, k as int, axis, (2 * k
            + 1) as nat),
        s.1 == window_sum(src@, w as int, h as int, x as int, y as int, 1, k as int, axis, (2 * k
            + 1) as nat),
        s.2 == window_sum(src@, w as int, h as int, x as int, y as int, 2, k as int, axis, (2 * k
            + 1) as nat),
{
    let taps = 2 * k + 1;
    let len = src.len();
    let mut r: u32 = 0;
    let mut g: u32 = 0;
    let mut b: u32 = 0;
    let mut j: usize = 0;
    while j < taps
        invariant
            len == src@.len() == buffer_len(w as int, h as int),
            x < w,
            y < h,
            k <= MAX_RADIUS,
            taps == 2 * k + 1,
            j <= taps,
            r == window_sum(src@, w as int, h as int, x as int, y as int, 0, k as int, axis, j as nat),
            g == window_sum(src@, w as int, h as int, x as int, y as int, 1, k as int, axis, j as nat),
            b == window_sum(src@, w as int, h as int, x as int, y as int, 2, k as int, axis, j as nat),
            r <= 255 * j,
            g <= 255 * j,
            b <= 255 * j,
        decreases taps - j,
    {
        let idx = tap_offset(w, h, x, y, k, j, axis);
        r += src[idx] as u32;
        g += src[idx + 1] as u32;
        b += src[idx + 2] as u32;
        j += 1;
    }
    (r, g, b)
}

/// Writes into `dst` the result of one pass over `src`.
pub(crate) fn box_pass_into(src: &[u8], dst: &mut [u8], w: usize, h: usize, k: usize, axis: Axis)
    requires
        src@.len() == buffer_len(w as int, h as int),
        old(dst)@.len() == src@.len(),
        k <= MAX_RADIUS,
    ensures
        final(dst)@ == box_pass(src@, w as int, h as int, k as int, axis),
{
    let taps: u32 = (2 * k + 1) as u32;
    let len = src.len();
    let mut p: usize = 0;
    let mut y: usize = 0;
    while y < h
        invariant
            len == src@.len() == buffer_len(w as int, h as int),
            dst@.len() == src@.len(),
            k <= MAX_RADIUS,
            taps == 2 * k + 1,
            y <= h,
            p == y * w,
            4 * p <= src@.len(),
            forall|i: int|
                0 <= i < 4 * p ==> dst@[i] == #[trigger] box_pass_at(
                    src@,
                    w as int,
                    h as int,
                    k as int,
                    axis,
                    i,
                ),
        decreases h - y,
    {
        let mut x: usize = 0;
        while x < w
            invariant
                len == src@.len() == buffer_len(w as int, h as int),
                dst@.len() == src@.len(),
                k <= MAX_RADIUS,
                taps == 2 * k + 1,
                y < h,
                x <= w,
                p == y * w + x,
                4 * p <= src@.len(),
                forall|i: int|
                    0 <= i < 4 * p ==> dst@[i] == #[trigger] box_pass_at(
                        src@,
                        w as int,
                        h as int,
                        k as int,
                        axis,
                        i,
                    ),
            decreases w - x,
        {
            proof {
                lemma_offset_in_bounds(w as int, h as int, x as int, y as int);
                lemma_position(w as int, x as int, y as int, 0);
                lemma_position(w as int, x as int, y as int, 1);
                lemma_position(w as int, x as int, y as int, 2);
                lemma_position(w as int, x as int, y as int, 3);
                lemma_window_mean_bound(src@, w as int, h as int, x as int, y as int, 0, k as int, axis);
                lemma_window_mean_bound(src@, w as int, h as int, x as int, y as int, 1, k as int, axis);
                lemma_window_mean_bound(src@, w as int, h as int, x as int, y as int, 2, k as int, axis);
            }
            let (r, g, b) = window_sums(src, w, h, x, y, k, axis);
            let idx = p * 4;
            dst[idx] = (r / taps) as u8;
            dst[idx + 1] = (g / taps) as u8;
            dst[idx + 2] = (b / taps) as u8;
            dst[idx + 3] = src[idx + 3];
            x += 1;
            p += 1;
        }
        y += 1;
        assert(y * w == (y - 1) * w + w) by (nonlinear_arith);
    }
    assert(4 * p == src@.len()) by (nonlinear_arith)
        requires
            p == h * w,
            src@.len() == w * h * 4,
    ;
    assert(dst@ =~= box_pass(src@, w as int, h as int, k as int, axis));
}

/// Blurs `data` with kernel radius `k`.
pub(crate) fn blur(data: &mut [u8], w: usize, h: usize, k: usize)
    requires
        old(data)@.len() == buffer_len(w as int, h as int),
        k <= MAX_RADIUS,
    ensures
        final(data)@ == blurred(old(data)@, w as int, h as int, k as int),
{
    if k == 0 {
        return ;
    }
    let mut temp = vec![0u8; data.len()];
    box_pass_into(data, temp.as_mut_slice(), w, h, k, Axis::Horizontal);
    box_pass_into(temp.as_slice(), data, w, h, k, Axis::Vertical);
}

/// The kernel radius for a requested radius.
pub(crate) fn radius_of(radius: Ratio) -> (k: usize)
    ensures
        k == kernel_radius(radius),
        k <= MAX_RADIUS,
{
    let c = radius.clamp(0, 10);
    let q = c.truncate();
    proof {
        lemma_quotient_at_most(c.numer(), c.denom(), 10);
    }
    q as usize
}

} // verus!
