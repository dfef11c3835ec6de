//! Laws of the effects.
//!
//! Each law is stated over the functions that define the effects and holds
//! for every buffer and every well-formed parameter.

use vstd::prelude::*;
use crate::blur::{
    blurred, box_pass, box_pass_at, clamp_coord, kernel_radius, lemma_box_pass_fixed,
    lemma_tap_in_bounds, lemma_window_mean_bound, tap, window_mean, Axis,
};
use crate::pipeline::{batched, batched_skipping};
use crate::layout::{
    buffer_len, channel_of, column_of, is_alpha, lemma_pixel_of, lemma_position, offset, row_of,
    same_alpha, uniform,
};
use crate::ratio::{lemma_multiple, Ratio};
use crate::tone::{
    brightened, contrasted, contrasted_channel, tempered, tempered_channel,
};

verus! {

/// A brightness factor of one changes nothing.
pub proof fn lemma_brightness_identity(buf: Seq<u8>, factor: Ratio)
    requires
        factor.wf(),
        factor.equals(1),
    ensures
        brightened(buf, factor) == buf,
{
    factor.lemma_clamped(0, 3);
    assert forall|i: int| 0 <= i < buf.len() implies brightened(buf, factor)[i] == buf[i] by {
        lemma_multiple(buf[i] as int, factor.denom(), 255);
    }
    assert(brightened(buf, factor) =~= buf);
}

/// A contrast factor of one changes nothing.
pub proof fn lemma_contrast_identity(buf: Seq<u8>, factor: Ratio)
    requires
        factor.wf(),
        factor.equals(1),
    ensures
        contrasted(buf, factor) == buf,
{
    factor.lemma_clamped(0, 3);
    let d = factor.denom();
    assert forall|i: int| 0 <= i < buf.len() implies contrasted(buf, factor)[i] == buf[i] by {
        let v = buf[i] as int;
        assert((v - 128) * d + 128 * d == v * d) by (nonlinear_arith);
        lemma_multiple(v, d, 255);
        lemma_multiple(v, d, 0);
    }
    assert(contrasted(buf, factor) =~= buf);
}

/// A temperature of zero changes nothing.
pub proof fn lemma_temperature_identity(buf: Seq<u8>, temperature: Ratio)
    requires
        temperature.wf(),
        temperature.equals(0),
    ensures
        tempered(buf, temperature) == buf,
{
    reveal(tempered_channel);
    temperature.lemma_clamped(-1, 1);
    let d = 10 * temperature.denom();
    assert forall|i: int| 0 <= i < buf.len() implies tempered(buf, temperature)[i] == buf[i] by {
        let v = buf[i] as int;
        lemma_multiple(v, d, 255);
        lemma_multiple(v, d, 0);
    }
    assert(tempered(buf, temperature) =~= buf);
}

/// A requested radius of zero or less gives kernel radius zero, and a blur
/// of kernel radius zero changes nothing.
pub proof fn lemma_blur_identity(buf: Seq<u8>, w: int, h: int, radius: Ratio)
    requires
        radius.wf(),
        !radius.above(0),
    ensures
        kernel_radius(radius) == 0,
        blurred(buf, w, h, kernel_radius(radius)) == buf,
{
    radius.lemma_clamped(0, 10);
    Ratio::lemma_whole(0);
    let c = radius.clamped(0, 10);
    assert(c.numer() == 0);
    assert(0int / c.denom() == 0) by (nonlinear_arith)
        requires
            c.denom() > 0,
    ;
}

/// The whole pipeline with a brightness and a contrast of one, a temperature
/// of zero and a blur radius of zero or less changes nothing.
pub proof fn lemma_batch_identity(
    buf: Seq<u8>,
    w: int,
    h: int,
    brightness: Ratio,
    contrast: Ratio,
    temperature: Ratio,
    blur_radius: Ratio,
)
    requires
        brightness.wf(),
        contrast.wf(),
        temperature.wf(),
        blur_radius.wf(),
        brightness.equals(1),
        contrast.equals(1),
        temperature.equals(0),
        !blur_radius.above(0),
    ensures
        batched(buf, w, h, brightness, contrast, temperature, blur_radius) == buf,
{
    lemma_brightness_identity(buf, brightness);
    lemma_contrast_identity(buf, contrast);
    lemma_temperature_identity(buf, temperature);
    lemma_blur_identity(buf, w, h, blur_radius);
}

/// Leaving out the idle stages of the pipeline changes nothing.
pub proof fn lemma_skipping_changes_nothing(
    buf: Seq<u8>,
    w: int,
    h: int,
    brightness: Ratio,
    contrast: Ratio,
    temperature: Ratio,
    blur_radius: Ratio,
)
    requires
        brightness.wf(),
        contrast.wf(),
        temperature.wf(),
        blur_radius.wf(),
    ensures
        batched_skipping(buf, w, h, brightness, contrast, temperature, blur_radius) == batched(
            buf,
            w,
            h,
            brightness,
            contrast,
            temperature,
            blur_radius,
        ),
{
    let lit = brightened(buf, brightness);
    if brightness.equals(1) {
        lemma_brightness_identity(buf, brightness);
    }
    let toned = contrasted(lit, contrast);
    if contrast.equals(1) {
        lemma_contrast_identity(lit, contrast);
    }
    let tinted = tempered(toned, temperature);
    if temperature.equals(0) {
        lemma_temperature_identity(toned, temperature);
    }
    if !blur_radius.above(0) {
        lemma_blur_identity(tinted, w, h, blur_radius);
    }
}

/// Every effect keeps the length of the buffer and every alpha byte, for
/// every parameter value; so does the whole pipeline.
pub proof fn lemma_alpha_preserved(
    buf: Seq<u8>,
    w: int,
    h: int,
    k: int,
    axis: Axis,
    brightness: Ratio,
    contrast: Ratio,
    temperature: Ratio,
    blur_radius: Ratio,
)
    ensures
        same_alpha(brightened(buf, brightness), buf),
        same_alpha(contrasted(buf, contrast), buf),
        same_alpha(tempered(buf, temperature), buf),
        same_alpha(box_pass(buf, w, h, k, axis), buf),
        same_alpha(blurred(buf, w, h, k), buf),
        same_alpha(batched(buf, w, h, brightness, contrast, temperature, blur_radius), buf),
{
    let lit = brightened(buf, brightness);
    let toned = contrasted(lit, contrast);
    let tinted = tempered(toned, temperature);
    let r = kernel_radius(blur_radius);
    let across = box_pass(buf, w, h, k, Axis::Horizontal);
    assert(same_alpha(box_pass(across, w, h, k, Axis::Vertical), across));
    assert(same_alpha(across, buf));
    assert(same_alpha(blurred(buf, w, h, k), buf));
    let smeared = box_pass(tinted, w, h, r, Axis::Horizontal);
    assert(same_alpha(box_pass(smeared, w, h, r, Axis::Vertical), smeared));
    assert(same_alpha(smeared, tinted));
    assert(same_alpha(blurred(tinted, w, h, r), tinted));
    assert(same_alpha(toned, lit));
    assert(same_alpha(tinted, toned));
}

/// The pivot 128 stays where it is under every contrast factor.
pub proof fn lemma_contrast_pivot(buf: Seq<u8>, factor: Ratio, i: int)
    requires
        factor.wf(),
        0 <= i < buf.len(),
        buf[i] == 128,
    ensures
        contrasted_channel(128, factor) == 128,
        contrasted(buf, factor)[i] == 128,
{
    factor.lemma_clamped(0, 3);
    let n = factor.clamped(0, 3).numer();
    let d = factor.clamped(0, 3).denom();
    assert((128u8 - 128) * n + 128 * d == 128 * d) by (nonlinear_arith);
    lemma_multiple(128, d, 255);
    lemma_multiple(128, d, 0);
}

/// After a pass, the colour byte of channel `c` of the pixel at `(x, y)` is
/// the mean of that channel over the window around the pixel.
pub proof fn lemma_box_pass_pixel(
    buf: Seq<u8>,
    w: int,
    h: int,
    k: int,
    axis: Axis,
    x: int,
    y: int,
    c: int,
)
    requires
        buf.len() == buffer_len(w, h),
        0 <= x < w,
        0 <= y < h,
        0 <= c < 3,
        0 <= k,
    ensures
        0 <= offset(w, x, y) + c < buf.len(),
        box_pass(buf, w, h, k, axis)[offset(w, x, y) + c] == window_mean(
            buf,
            w,
            h,
            x,
            y,
            c,
            k,
            axis,
        ),
        box_pass(buf, w, h, k, axis)[offset(w, x, y) + 3] == buf[offset(w, x, y) + 3],
{
    crate::layout::lemma_offset_in_bounds(w, h, x, y);
    lemma_position(w, x, y, c);
    lemma_position(w, x, y, 3);
    lemma_window_mean_bound(buf, w, h, x, y, c, k, axis);
    assert(box_pass(buf, w, h, k, axis)[offset(w, x, y) + c] == box_pass_at(
        buf,
        w,
        h,
        k,
        axis,
        offset(w, x, y) + c,
    ));
}

/// A pass of radius zero changes nothing.
pub proof fn lemma_box_pass_radius_zero(buf: Seq<u8>, w: int, h: int, axis: Axis)
    requires
        buf.len() == buffer_len(w, h),
        0 <= w,
        0 <= h,
    ensures
        box_pass(buf, w, h, 0, axis) == buf,
{
    assert forall|i: int, delta: int|
        0 <= i < buf.len() && !is_alpha(i) && -0 <= delta <= 0 implies buf[#[trigger] tap(
        w,
        h,
        column_of(w, i),
        row_of(w, i),
        axis,
        delta,
    ) + channel_of(i)] == buf[i] by {
        lemma_pixel_of(w, h, i);
    }
    lemma_box_pass_fixed(buf, w, h, 0, axis);
}

/// In an image one pixel wide, the horizontal pass changes nothing, whatever
/// the radius: every neighbour to the left or right is the pixel itself.
pub proof fn lemma_single_column_horizontal(buf: Seq<u8>, h: int, k: int)
    requires
        buf.len() == buffer_len(1, h),
        0 <= h,
        0 <= k,
    ensures
        box_pass(buf, 1, h, k, Axis::Horizontal) == buf,
{
    assert forall|i: int, delta: int|
        0 <= i < buf.len() && !is_alpha(i) && -k <= delta <= k implies buf[#[trigger] tap(
        1,
        h,
        column_of(1, i),
        row_of(1, i),
        Axis::Horizontal,
        delta,
    ) + channel_of(i)] == buf[i] by {
        lemma_pixel_of(1, h, i);
        assert(clamp_coord(column_of(1, i) + delta, 1) == column_of(1, i));
    }
    lemma_box_pass_fixed(buf, 1, h, k, Axis::Horizontal);
}

/// An image in which all pixels have the same colour is kept by a pass along
/// either axis and by the blur, whatever the radius.
pub proof fn lemma_uniform_fixed_point(buf: Seq<u8>, w: int, h: int, k: int, axis: Axis)
    requires
        buf.len() == buffer_len(w, h),
        0 <= w,
        0 <= h,
        0 <= k,
        uniform(buf),
    ensures
        box_pass(buf, w, h, k, axis) == buf,
        blurred(buf, w, h, k) == buf,
{
    lemma_uniform_pass(buf, w, h, k, Axis::Horizontal);
    lemma_uniform_pass(buf, w, h, k, Axis::Vertical);
}

/// An image in which all pixels have the same colour is kept by one pass.
proof fn lemma_uniform_pass(buf: Seq<u8>, w: int, h: int, k: int, axis: Axis)
    requires
        buf.len() == buffer_len(w, h),
        0 <= w,
        0 <= h,
        0 <= k,
        uniform(buf),
    ensures
        box_pass(buf, w, h, k, axis) == buf,
{
    assert forall|i: int, delta: int|
        0 <= i < buf.len() && !is_alpha(i) && -k <= delta <= k implies buf[#[trigger] tap(
        w,
        h,
        column_of(w, i),
        row_of(w, i),
        axis,
        delta,
    ) + channel_of(i)] == buf[i] by {
        lemma_pixel_of(w, h, i);
        let x = column_of(w, i);
        let y = row_of(w, i);
        lemma_tap_in_bounds(w, h, x, y, axis, delta);
        let j = tap(w, h, x, y, axis, delta) + channel_of(i);
        assert(tap(w, h, x, y, axis, delta) % 4 == 0);
        assert(channel_of(j) == channel_of(i));
    }
    lemma_box_pass_fixed(buf, w, h, k, axis);
}

} // verus!
