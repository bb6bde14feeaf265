use vstd::prelude::*;
use crate::color::{lemma_floor, Rgba, ONE};

verus! {

/// An RGBA image with 8 bits per channel, stored row-major, four bytes per pixel.
#[derive(Clone, Debug)]
pub struct RgbaImage {
    pub width: u32,
    pub height: u32,
    pub data: Vec<u8>,
}

impl RgbaImage {
    /// The buffer holds exactly four bytes for each of `width * height` pixels.
    pub open spec fn wf(&self) -> bool {
        self.data@.len() == 4 * (self.width as int) * (self.height as int)
    }

    /// Wraps a raw buffer; `None` unless it holds exactly `width * height` pixels.
    pub fn from_raw(width: u32, height: u32, data: Vec<u8>) -> (r: Option<RgbaImage>)
        ensures
            r is Some <==> data@.len() == 4 * (width as int) * (height as int),
            r matches Some(img) ==> img.width == width && img.height == height && img.data@
                == data@,
    {
        assert((width as int) * (height as int) <= 0x1_0000_0000 * 0x1_0000_0000) by (nonlinear_arith)
            requires
                width < 0x1_0000_0000,
                height < 0x1_0000_0000,
        ;
        let expected: u128 = 4 * ((width as u128) * (height as u128));
        assert(expected == 4 * (width as int) * (height as int)) by (nonlinear_arith)
            requires
                expected == 4 * ((width as int) * (height as int)),
        ;
        if data.len() as u128 != expected {
            return None;
        }
        Some(RgbaImage { width, height, data })
    }
}

/// The `i`-th pixel of a raw RGBA buffer.
pub open spec fn pixel_at(data: Seq<u8>, i: int) -> Rgba {
    Rgba { r: data[4 * i], g: data[4 * i + 1], b: data[4 * i + 2], a: data[4 * i + 3] }
}

/// Channel `k` (0 to 3: red, green, blue, alpha) of a pixel.
pub open spec fn channel_at(p: Rgba, k: int) -> u8 {
    if k == 0 {
        p.r
    } else if k == 1 {
        p.g
    } else if k == 2 {
        p.b
    } else {
        p.a
    }
}

/// A raw buffer with `f` applied to every pixel.
pub open spec fn map_pixels(data: Seq<u8>, f: spec_fn(Rgba) -> Rgba) -> Seq<u8> {
    Seq::new(data.len(), |j: int| channel_at(f(pixel_at(data, j / 4)), j % 4))
}

pub open spec fn clamp_channel(x: int) -> int {
    if x < 0 {
        0
    } else if x > 255 {
        255
    } else {
        x
    }
}

/// Every color channel shifted by `delta` and clamped; alpha is kept.
pub open spec fn brightened(data: Seq<u8>, delta: int) -> Seq<u8> {
    Seq::new(
        data.len(),
        |j: int|
            if j % 4 == 3 {
                data[j]
            } else {
                clamp_channel(data[j] + delta) as u8
            },
    )
}

/// `new` has the length of `old` and every alpha byte of `old`.
pub open spec fn alpha_kept(old: Seq<u8>, new: Seq<u8>) -> bool {
    &&& new.len() == old.len()
    &&& forall|j: int| 0 <= j < old.len() && j % 4 == 3 ==> #[trigger] new[j] == old[j]
}

/// One channel under linear contrast, the library's own fixed-point model of the image
/// crate's `contrast_in_place` (which works in `f32` and truncates, so it may differ by one
/// at rounding edges): with `q = 10^8 + delta` (delta in millionths of a
/// percent step), the channel moves away from the midpoint 127.5 by the factor
/// `(q / 10^8)^2`, is clamped to `[0, 255]` and truncated.
pub open spec fn contrast_channel(c: int, delta: int) -> int {
    let q = 100_000_000 + delta;
    clamp_channel(((2 * c - 255) * q * q + 255 * CONTRAST_SCALE) / (2 * CONTRAST_SCALE))
}

/// `10^16`: the square of the percent scale `10^8`.
pub const CONTRAST_SCALE: i128 = 10_000_000_000_000_000;

/// Every channel, alpha included, under linear contrast `delta`.
pub open spec fn contrasted(data: Seq<u8>, delta: int) -> Seq<u8> {
    Seq::new(data.len(), |j: int| contrast_channel(data[j] as int, delta) as u8)
}

/// Relies on image::imageops::colorops::brighten_in_place: each color channel of every
/// pixel gets `value` added and is clamped to `[0, 255]`; alpha is kept.
#[verifier::external_body]
fn brighten_raw(width: u32, height: u32, data: &mut Vec<u8>, value: i32)
    requires
        old(data)@.len() == 4 * (width as int) * (height as int),
        value <= i32::MAX - 255,
    ensures
        final(data)@ == brightened(old(data)@, value as int),
{
    let buffer = image::ImageBuffer::<image::Rgba<u8>, &mut [u8]>::from_raw(
        width,
        height,
        data.as_mut_slice(),
    );
    if let Some(mut img) = buffer {
        image::imageops::colorops::brighten_in_place(&mut img, value);
    }
}

/// Relies on image::imageops::colorops::huerotate_in_place: rotates the hue of every pixel
/// by `degrees`, in place. Its colour matrix comes from floating-point `cos` and `sin`, whose
/// precision varies by platform, so only the length and the alpha bytes (which pass
/// through a clamp that keeps whole numbers) are stated.
#[verifier::external_body]
fn huerotate_raw(width: u32, height: u32, data: &mut Vec<u8>, degrees: i32)
    requires
        old(data)@.len() == 4 * (width as int) * (height as int),
    ensures
        alpha_kept(old(data)@, final(data)@),
{
    let buffer = image::ImageBuffer::<image::Rgba<u8>, &mut [u8]>::from_raw(
        width,
        height,
        data.as_mut_slice(),
    );
    if let Some(mut img) = buffer {
        image::imageops::colorops::huerotate_in_place(&mut img, degrees);
    }
}

impl RgbaImage {
    /// Shifts every color channel by `value`, clamping; alpha is kept.
    pub fn brighten(&mut self, value: i32)
        requires
            old(self).wf(),
            value <= i32::MAX - 255,
        ensures
            final(self).wf(),
            final(self).width == old(self).width,
            final(self).height == old(self).height,
            final(self).data@ == brightened(old(self).data@, value as int),
    {
        brighten_raw(self.width, self.height, &mut self.data, value);
    }

    /// Rotates the hue of every pixel by `degrees`; the colours come from the image crate's
    /// floating-point rotation, and alpha is kept.
    pub fn huerotate(&mut self, degrees: i32)
        requires
            old(self).wf(),
        ensures
            final(self).wf(),
            final(self).width == old(self).width,
            final(self).height == old(self).height,
            alpha_kept(old(self).data@, final(self).data@),
    {
        huerotate_raw(self.width, self.height, &mut self.data, degrees);
    }

    /// Applies linear contrast `delta` (in millionths) to every channel: the library's own
    /// fixed-point model of the image crate's `contrast_in_place`, which takes an `f32`.
    pub fn contrast(&mut self, delta: i64)
        requires
            old(self).wf(),
            -10_000_000_000 <= delta <= 10_000_000_000,
        ensures
            final(self).wf(),
            final(self).width == old(self).width,
            final(self).height == old(self).height,
            final(self).data@ == contrasted(old(self).data@, delta as int),
    {
        let n = self.data.len();
        let mut j: usize = 0;
        while j < n
            invariant
                n == self.data@.len(),
                j <= n,
                self.width == old(self).width,
                self.height == old(self).height,
                self.data@.len() == old(self).data@.len(),
                -10_000_000_000 <= delta <= 10_000_000_000,
                forall|k: int| 0 <= k < j ==> self.data@[k] == contrast_channel(
                    old(self).data@[k] as int,
                    delta as int,
                ) as u8,
                forall|k: int| j <= k < n ==> self.data@[k] == old(self).data@[k],
            decreases n - j,
        {
            let c = contrast_byte(self.data[j], delta);
            self.data.set(j, c);
            j = j + 1;
        }
        assert(self.data@ =~= contrasted(old(self).data@, delta as int));
    }
}

/// One channel under linear contrast `delta`.
fn contrast_byte(c: u8, delta: i64) -> (r: u8)
    requires
        -10_000_000_000 <= delta <= 10_000_000_000,
    ensures
        r == contrast_channel(c as int, delta as int),
{
    let q: i128 = 100_000_000 + delta as i128;
    assert(0 <= q * q <= 200_000_000_000_000_000_000) by (nonlinear_arith)
        requires
            -10_000_000_000 <= q <= 10_100_000_000,
    ;
    let sq: i128 = q * q;
    let e: i128 = 2 * (c as i128) - 255;
    assert(-255 * 200_000_000_000_000_000_000 <= e * sq <= 255 * 200_000_000_000_000_000_000)
        by (nonlinear_arith)
        requires
            -255 <= e <= 255,
            0 <= sq <= 200_000_000_000_000_000_000,
    ;
    let num: i128 = e * sq + 255 * CONTRAST_SCALE;
    assert(num == (2 * c - 255) * q * q + 255 * CONTRAST_SCALE) by (nonlinear_arith)
        requires
            num == e * sq + 255 * CONTRAST_SCALE,
            e == 2 * c - 255,
            sq == q * q,
    ;
    proof {
        lemma_floor(num as int, 2 * CONTRAST_SCALE);
    }
    if num < 0 {
        0
    } else {
        let t: i128 = num / (2 * CONTRAST_SCALE);
        if t > 255 {
            255
        } else {
            t as u8
        }
    }
}

} // verus!
