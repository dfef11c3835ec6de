//! The pipeline: brightness, then contrast, then temperature, then blur.
//!
//! The order is fixed. A stage whose parameter has no effect may be left out,
//! and leaving it out changes nothing.

use vstd::prelude::*;
use crate::blur::{blurred, kernel_radius};
use crate::ratio::Ratio;
use crate::tone::{brightened, contrasted, tempered};

verus! {

/// The buffer after the whole pipeline: brightness, then contrast, then
/// temperature, then blur.
pub open spec fn batched(
    buf: Seq<u8>,
    w: int,
    h: int,
    brightness: Ratio,
    contrast: Ratio,
    temperature: Ratio,
    blur_radius: Ratio,
) -> Seq<u8> {
    blurred(
        tempered(contrasted(brightened(buf, brightness), contrast), temperature),
        w,
        h,
        kernel_radius(blur_radius),
    )
}

/// The buffer after the pipeline with every idle stage left out: brightness
/// unless the factor is one, contrast unless the factor is one, temperature
/// unless it is zero, blur unless the radius is zero or less.
pub open spec fn batched_skipping(
    buf: Seq<u8>,
    w: int,
    h: int,
    brightness: Ratio,
    contrast: Ratio,
    temperature: Ratio,
    blur_radius: Ratio,
) -> Seq<u8> {
    let lit = if brightness.equals(1) {
        buf
    } else {
        brightened(buf, brightness)
    };
    let toned = if contrast.equals(1) {
        lit
    } else {
        contrasted(lit, contrast)
    };
    let tinted = if temperature.equals(0) {
        toned
    } else {
        tempered(toned, temperature)
    };
    if blur_radius.above(0) {
        blurred(tinted, w, h, kernel_radius(blur_radius))
    } else {
        tinted
    }
}

/// The buffer after the whole pipeline has run `n` times over.
pub open spec fn batched_times(
    buf: Seq<u8>,
    w: int,
    h: int,
    brightness: Ratio,
    contrast: Ratio,
    temperature: Ratio,
    blur_radius: Ratio,
    n: nat,
) -> Seq<u8>
    decreases n,
{
    if n == 0 {
        buf
    } else {
        batched(
            batched_times(
                buf,
                w,
                h,
                brightness,
                contrast,
                temperature,
                blur_radius,
                (n - 1) as nat,
            ),
            w,
            h,
            brightness,
            contrast,
            temperature,
            blur_radius,
        )
    }
}

} // verus!
