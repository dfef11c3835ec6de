//! The effect engine: an image size and the effects on buffers of that size.
//!
//! Every effect first checks that the buffer has exactly the length that the
//! image size calls for. A buffer of any other length is rejected and left
//! untouched.

use vstd::prelude::*;
use vstd::slice::slice_to_vec;
use crate::blur::{blur, blurred, box_pass, box_pass_into, kernel_radius, radius_of, Axis};
use crate::laws::{
    lemma_blur_identity, lemma_brightness_identity, lemma_contrast_identity,
    lemma_temperature_identity,
};
use crate::layout::{buffer_len, gray, is_alpha};
use crate::pipeline::{batched, batched_times};
use crate::ratio::Ratio;
use crate::tone::{brighten, brightened, contrasted, temper, tempered};

verus! {

/// Why an effect was not applied.
#[derive(Clone, Copy, Debug, PartialEq, Eq)]
pub enum EffectError {
    /// The buffer does not hold `width * height * 4` bytes.
    BufferSizeMismatch,
}

/// An effect engine for images of one size.
pub struct ImageProcessor {
    width: u32,
    height: u32,
}

impl ImageProcessor {
    /// The image width in pixels.
    pub closed spec fn spec_width(&self) -> u32 {
        self.width
    }

    /// The image height in pixels.
    pub closed spec fn spec_height(&self) -> u32 {
        self.height
    }

    /// Whether `buf` has the length of a buffer for this image size.
    pub open spec fn accepts(&self, buf: Seq<u8>) -> bool {
        buf.len() == buffer_len(self.width() as int, self.height() as int)
    }

    /// An engine for images of `width` by `height` pixels.
    pub fn new(width: u32, height: u32) -> (p: ImageProcessor)
        ensures
            p.width() == width,
            p.height() == height,
    {
        ImageProcessor { width, height }
    }

    /// The image width in pixels.
    #[verifier::when_used_as_spec(spec_width)]
    pub fn width(&self) -> (w: u32)
        ensures
            w == self.spec_width(),
    {
        self.width
    }

    /// The image height in pixels.
    #[verifier::when_used_as_spec(spec_height)]
    pub fn height(&self) -> (h: u32)
        ensures
            h == self.spec_height(),
    {
        self.height
    }

    /// Whether `data` has the length of a buffer for this image size.
    pub fn fits(&self, data: &[u8]) -> (ok: bool)
        ensures
            ok == self.accepts(data@),
    {
        let w = self.width as u128;
        let h = self.height as u128;
        assert(0 <= w * h <= 0xffff_ffff * 0xffff_ffff) by (nonlinear_arith)
            requires
                0 <= w <= 0xffff_ffff,
                0 <= h <= 0xffff_ffff,
        ;
        data.len() as u128 == w * h * 4
    }

    /// A buffer for this image size that holds a gray image, or nothing when
    /// a buffer of that size cannot be addressed on this machine.
    pub fn gray_buffer(&self) -> (buf: Option<Vec<u8>>)
        ensures
            buf is Some <==> buffer_len(self.width() as int, self.height() as int) <= usize::MAX,
            buf matches Some(b) ==> b@ == gray(self.width() as int, self.height() as int)
                && self.accepts(b@),
    {
        let w = self.width as u128;
        let h = self.height as u128;
        assert(0 <= w * h <= 0xffff_ffff * 0xffff_ffff) by (nonlinear_arith)
            requires
                0 <= w <= 0xffff_ffff,
                0 <= h <= 0xffff_ffff,
        ;
        let total = w * h * 4;
        if total > usize::MAX as u128 {
            return None;
        }
        let len = total as usize;
        let mut buf = vec![128u8; len];
        let mut i: usize = 0;
        while i < len
            invariant
                len == buf@.len(),
                len % 4 == 0,
                i % 4 == 0,
                i <= len,
                forall|j: int| 0 <= j < i ==> buf@[j] == (if is_alpha(j) { 255u8 } else { 128u8 }),
                forall|j: int| i <= j < len ==> buf@[j] == 128u8,
            decreases len - i,
        {
            buf[i + 3] = 255;
            i += 4;
        }
        assert(buf@ =~= gray(self.width() as int, self.height() as int));
        Some(buf)
    }

    /// Blurs the image with a box blur. The requested radius is limited to
    /// the interval from 0 to 10 and rounded toward zero.
    pub fn apply_blur(&self, data: &mut [u8], radius: Ratio) -> (res: Result<(), EffectError>)
        ensures
            self.accepts(old(data)@) ==> res is Ok && final(data)@ == blurred(
                old(data)@,
                self.width() as int,
                self.height() as int,
                kernel_radius(radius),
            ),
            !self.accepts(old(data)@) ==> res == Err::<(), EffectError>(
                EffectError::BufferSizeMismatch,
            ) && final(data)@ == old(data)@,
    {
        if !self.fits(data) {
            return Err(EffectError::BufferSizeMismatch);
        }
        blur(data, self.width as usize, self.height as usize, radius_of(radius));
        Ok(())
    }

    /// Runs one pass of the box blur along `axis`. The requested radius is
    /// limited and rounded as for the whole blur; a pass of radius zero
    /// changes nothing.
    pub fn apply_box_pass(&self, data: &mut [u8], radius: Ratio, axis: Axis) -> (res: Result<
        (),
        EffectError,
    >)
        ensures
            self.accepts(old(data)@) ==> res is Ok && final(data)@ == box_pass(
                old(data)@,
                self.width() as int,
                self.height() as int,
                kernel_radius(radius),
                axis,
            ),
            !self.accepts(old(data)@) ==> res == Err::<(), EffectError>(
                EffectError::BufferSizeMismatch,
            ) && final(data)@ == old(data)@,
    {
        if !self.fits(data) {
            return Err(EffectError::BufferSizeMismatch);
        }
        let source = slice_to_vec(data);
        box_pass_into(
            source.as_slice(),
            data,
            self.width as usize,
            self.height as usize,
            radius_of(radius),
            axis,
        );
        Ok(())
    }

    /// Scales the colour bytes of every pixel by `brightness`, limited to the
    /// interval from 0 to 3.
    pub fn apply_brightness(&self, data: &mut [u8], brightness: Ratio) -> (res: Result<
        (),
        EffectError,
    >)
        ensures
            self.accepts(old(data)@) ==> res is Ok && final(data)@ == brightened(
                old(data)@,
                brightness,
            ),
            !self.accepts(old(data)@) ==> res == Err::<(), EffectError>(
                EffectError::BufferSizeMismatch,
            ) && final(data)@ == old(data)@,
    {
        if !self.fits(data) {
            return Err(EffectError::BufferSizeMismatch);
        }
        brighten(data, brightness);
        Ok(())
    }

    /// Moves the colour bytes of every pixel away from or toward the pivot
    /// 128 by `contrast`, limited to the interval from 0 to 3.
    pub fn apply_contrast(&self, data: &mut [u8], contrast: Ratio) -> (res: Result<
        (),
        EffectError,
    >)
        ensures
            self.accepts(old(data)@) ==> res is Ok && final(data)@ == contrasted(
                old(data)@,
                contrast,
            ),
            !self.accepts(old(data)@) ==> res == Err::<(), EffectError>(
                EffectError::BufferSizeMismatch,
            ) && final(data)@ == old(data)@,
    {
        if !self.fits(data) {
            return Err(EffectError::BufferSizeMismatch);
        }
        crate::tone::contrast(data, contrast);
        Ok(())
    }

    /// Warms or cools every pixel by `temperature`, limited to the interval
    /// from -1 to 1.
    pub fn apply_temperature(&self, data: &mut [u8], temperature: Ratio) -> (res: Result<
        (),
        EffectError,
    >)
        ensures
            self.accepts(old(data)@) ==> res is Ok && final(data)@ == tempered(
                old(data)@,
                temperature,
            ),
            !self.accepts(old(data)@) ==> res == Err::<(), EffectError>(
                EffectError::BufferSizeMismatch,
            ) && final(data)@ == old(data)@,
    {
        if !self.fits(data) {
            return Err(EffectError::BufferSizeMismatch);
        }
        temper(data, temperature);
        Ok(())
    }

    /// Applies brightness, contrast, temperature and blur, in this order. A
    /// stage whose parameter has no effect is skipped: a brightness or
    /// contrast of one, a temperature of zero, a blur radius of zero or less.
    /// The result is the same as if every stage had run.
    pub fn apply_effects_batch(
        &self,
        data: &mut [u8],
        brightness: Ratio,
        contrast: Ratio,
        temperature: Ratio,
        blur_radius: Ratio,
    ) -> (res: Result<(), EffectError>)
        ensures
            self.accepts(old(data)@) ==> res is Ok && final(data)@ == batched(
                old(data)@,
                self.width() as int,
                self.height() as int,
                brightness,
                contrast,
                temperature,
                blur_radius,
            ),
            !self.accepts(old(data)@) ==> res == Err::<(), EffectError>(
                EffectError::BufferSizeMismatch,
            ) && final(data)@ == old(data)@,
    {
        if !self.fits(data) {
            return Err(EffectError::BufferSizeMismatch);
        }
        let ghost start = data@;
        if !brightness.is_integer(1) {
            brighten(data, brightness);
        } else {
            proof {
                lemma_brightness_identity(start, brightness);
            }
        }
        let ghost lit = data@;
        if !contrast.is_integer(1) {
            crate::tone::contrast(data, contrast);
        } else {
            proof {
                lemma_contrast_identity(lit, contrast);
            }
        }
        let ghost toned = data@;
        if !temperature.is_integer(0) {
            temper(data, temperature);
        } else {
            proof {
                lemma_temperature_identity(toned, temperature);
            }
        }
        let ghost tinted = data@;
        if blur_radius.is_positive() {
            blur(data, self.width as usize, self.height as usize, radius_of(blur_radius));
        } else {
            proof {
                lemma_blur_identity(
                    tinted,
                    self.width() as int,
                    self.height() as int,
                    blur_radius,
                );
            }
        }
        Ok(())
    }

    /// Runs the whole pipeline `iterations` times over, each run on the
    /// result of the one before.
    pub fn apply_effects_repeatedly(
        &self,
        data: &mut [u8],
        iterations: u32,
        brightness: Ratio,
        contrast: Ratio,
        temperature: Ratio,
        blur_radius: Ratio,
    ) -> (res: Result<(), EffectError>)
        ensures
            self.accepts(old(data)@) ==> res is Ok && final(data)@ == batched_times(
                old(data)@,
                self.width() as int,
                self.height() as int,
                brightness,
                contrast,
                temperature,
                blur_radius,
                iterations as nat,
            ),
            !self.accepts(old(data)@) ==> res == Err::<(), EffectError>(
                EffectError::BufferSizeMismatch,
            ) && final(data)@ == old(data)@,
    {
        if !self.fits(data) {
            return Err(EffectError::BufferSizeMismatch);
        }
        let ghost start = data@;
        let mut done: u32 = 0;
        while done < iterations
            invariant
                done <= iterations,
                self.accepts(data@),
                data@ == batched_times(
                    start,
                    self.width() as int,
                    self.height() as int,
                    brightness,
                    contrast,
                    temperature,
                    blur_radius,
                    done as nat,
                ),
            decreases iterations - done,
        {
            let _ = self.apply_effects_batch(data, brightness, contrast, temperature, blur_radius);
            done += 1;
        }
        Ok(())
    }
}

} // verus!
