//! The layout of a pixel buffer.
//!
//! A buffer for an image of `w` by `h` pixels holds `w * h * 4` bytes, row by
//! row from the top, four bytes per pixel: red, green, blue, alpha.

use vstd::prelude::*;

verus! {

/// The number of bytes in a buffer for `w` by `h` pixels.
pub open spec fn buffer_len(w: int, h: int) -> int {
    w * h * 4
}

/// The position of the red byte of the pixel in column `x` of row `y`. Green,
/// blue and alpha follow at the next three positions.
pub open spec fn offset(w: int, x: int, y: int) -> int {
    (y * w + x) * 4
}

/// Whether buffer position `i` holds an alpha byte.
pub open spec fn is_alpha(i: int) -> bool {
    i % 4 == 3
}

/// The channel at buffer position `i`: 0 red, 1 green, 2 blue, 3 alpha.
pub open spec fn channel_of(i: int) -> int {
    i % 4
}

/// The column of the pixel that buffer position `i` belongs to.
pub open spec fn column_of(w: int, i: int) -> int {
    (i / 4) % w
}

/// The row of the pixel that buffer position `i` belongs to.
pub open spec fn row_of(w: int, i: int) -> int {
    (i / 4) / w
}

/// The buffer of a gray image: every colour byte 128, every alpha byte 255.
pub open spec fn gray(w: int, h: int) -> Seq<u8> {
    Seq::new(
        buffer_len(w, h) as nat,
        |i: int|
            if is_alpha(i) {
                255u8
            } else {
                128u8
            },
    )
}

/// Whether two buffers have the same length and the same alpha bytes.
pub open spec fn same_alpha(a: Seq<u8>, b: Seq<u8>) -> bool {
    &&& a.len() == b.len()
    &&& forall|i: int| 0 <= i < a.len() && is_alpha(i) ==> a[i] == b[i]
}

/// Whether every pixel of the buffer has the same red, the same green and
/// the same blue byte.
pub open spec fn uniform(buf: Seq<u8>) -> bool {
    forall|i: int, j: int|
        0 <= i < buf.len() && 0 <= j < buf.len() && !is_alpha(i) && channel_of(i) == channel_of(j)
            ==> buf[i] == buf[j]
}

/// Every pixel inside the image lies wholly inside the buffer.
pub proof fn lemma_offset_in_bounds(w: int, h: int, x: int, y: int)
    requires
        0 <= x < w,
        0 <= y < h,
    ensures
        0 <= y * w,
        0 <= y * w + x < w * h,
        0 <= offset(w, x, y),
        offset(w, x, y) + 4 <= buffer_len(w, h),
{
    assert(0 <= y * w && y * w + w <= w * h) by (nonlinear_arith)
        requires
            0 <= y < h,
            0 < w,
    ;
}

/// Column, row and channel are recovered from a position.
pub proof fn lemma_position(w: int, x: int, y: int, c: int)
    requires
        0 <= x < w,
        0 <= y,
        0 <= c < 4,
    ensures
        column_of(w, offset(w, x, y) + c) == x,
        row_of(w, offset(w, x, y) + c) == y,
        channel_of(offset(w, x, y) + c) == c,
        is_alpha(offset(w, x, y) + c) <==> c == 3,
{
    let p = y * w + x;
    assert((p * 4 + c) / 4 == p);
    vstd::arithmetic::div_mod::lemma_fundamental_div_mod_converse(p, w, y, x);
}

/// Every position of a buffer belongs to a pixel inside the image.
pub proof fn lemma_pixel_of(w: int, h: int, i: int)
    requires
        0 <= i < buffer_len(w, h),
        0 <= w,
        0 <= h,
    ensures
        0 <= column_of(w, i) < w,
        0 <= row_of(w, i) < h,
        0 <= channel_of(i) < 4,
        i == offset(w, column_of(w, i), row_of(w, i)) + channel_of(i),
{
    let p = i / 4;
    assert(w > 0) by (nonlinear_arith)
        requires
            0 <= w,
            0 < w * h * 4,
    ;
    assert(0 <= p < w * h);
    vstd::arithmetic::div_mod::lemma_fundamental_div_mod(p, w);
    vstd::arithmetic::div_mod::lemma_mod_bound(p, w);
    let q = p / w;
    let r = p % w;
    assert(0 <= q < h) by (nonlinear_arith)
        requires
            0 < w,
            0 <= p < w * h,
            p == w * q + r,
            0 <= r < w,
    ;
    assert(w * q == q * w) by (nonlinear_arith);
}

} // verus!
