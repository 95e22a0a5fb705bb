//! Legible overlay-text color from a background image's mean relative
//! luminance.
//!
//! Per-pixel relative luminance weights red, green and blue by
//! 0.2126, 0.7152 and 0.0722 with channels normalized to [0, 1]. The
//! arithmetic here is exact: each pixel contributes the integer numerator
//! `2126*R + 7152*G + 722*B`, so the mean exceeds one half exactly when
//! twice the total exceeds `2_550_000` per pixel.

use vstd::prelude::*;

use crate::image_data::ImageModel;
use crate::image_data::RasterImage;

verus! {

/// Near-black text, chosen over light backgrounds.
pub const DARK_TEXT: [u8; 4] = [10, 10, 10, 255];

/// Near-white text, chosen over dark backgrounds.
pub const LIGHT_TEXT: [u8; 4] = [240, 240, 240, 255];

/// Twice the luminance numerator of a pixel at exactly half luminance.
pub const HALF_LUMINANCE_TWICE: u128 = 2550000;

/// The luminance numerator of the pixel at index `p`: its relative
/// luminance times 2_550_000 (weights per 10_000, channels 0..255).
pub open spec fn pixel_luminance_numerator(data: Seq<u8>, p: int) -> int {
    2126 * data[4 * p] + 7152 * data[4 * p + 1] + 722 * data[4 * p + 2]
}

/// Total luminance numerator of the first `n` pixels.
pub open spec fn luminance_sum(data: Seq<u8>, n: int) -> int
    decreases n,
{
    if n <= 0 {
        0
    } else {
        luminance_sum(data, n - 1) + pixel_luminance_numerator(data, n - 1)
    }
}

impl ImageModel {
    /// The image's mean relative luminance strictly exceeds one half.
    pub open spec fn mean_luminance_above_half(self) -> bool {
        2 * luminance_sum(self.data, self.pixel_count()) > 2550000 * self.pixel_count()
    }
}

/// The text color legible over the given background.
pub open spec fn spec_contrast_color(img: ImageModel) -> [u8; 4] {
    if img.mean_luminance_above_half() {
        DARK_TEXT
    } else {
        LIGHT_TEXT
    }
}

/// Derives a legible text color from a background image: near-black over
/// backgrounds whose mean relative luminance exceeds one half, near-white
/// otherwise (the boundary itself falls to the near-white side).
pub fn calculate_contrast_color(image: &RasterImage) -> (c: [u8; 4])
    requires
        image.wf(),
    ensures
        c == spec_contrast_color(image@),
{
    let w = image.width();
    let h = image.height();
    proof {
        assert((w as int) * (h as int) < 0x1_0000_0000_0000_0000) by (nonlinear_arith)
            requires
                (w as int) < 0x1_0000_0000 && (h as int) < 0x1_0000_0000,
        ;
    }
    let n_pixels: u64 = (w as u64) * (h as u64);
    let data = image.data();
    let data_len: usize = data.len();
    let mut sum: u128 = 0;
    let mut p: u64 = 0;
    while p < n_pixels
        invariant
            p <= n_pixels,
            n_pixels as int == image@.pixel_count(),
            data@ == image@.data,
            data@.len() == data_len,
            data_len == 4 * n_pixels,
            sum == luminance_sum(data@, p as int),
            sum <= 2550000 * (p as int),
        decreases n_pixels - p,
    {
        let base: usize = (p as usize) * 4;
        let r = data[base] as u128;
        let g = data[base + 1] as u128;
        let b = data[base + 2] as u128;
        sum = sum + 2126 * r + 7152 * g + 722 * b;
        p = p + 1;
    }
    if 2 * sum > HALF_LUMINANCE_TWICE * (n_pixels as u128) {
        DARK_TEXT
    } else {
        LIGHT_TEXT
    }
}

/// A run of pixels whose bytes all hold one value contributes exactly
/// `10_000 * v` per pixel.
pub proof fn lemma_constant_luminance_sum(data: Seq<u8>, n: int, v: u8)
    requires
        0 <= n,
        4 * n <= data.len(),
        forall|i: int| 0 <= i < data.len() ==> data[i] == v,
    ensures
        luminance_sum(data, n) == n * (10000 * (v as int)),
    decreases n,
{
    if n > 0 {
        lemma_constant_luminance_sum(data, n - 1, v);
        assert(n * (10000 * (v as int)) == (n - 1) * (10000 * (v as int)) + 10000 * (v as int))
            by (nonlinear_arith);
    } else {
        assert(0 * (10000 * (v as int)) == 0) by (nonlinear_arith);
    }
}

/// Law: an all-black image yields the light text color.
pub proof fn lemma_all_black_yields_light(img: ImageModel)
    requires
        img.wf(),
        forall|i: int| 0 <= i < img.data.len() ==> img.data[i] == 0,
    ensures
        spec_contrast_color(img) == LIGHT_TEXT,
{
    lemma_constant_luminance_sum(img.data, img.pixel_count(), 0);
    assert(img.pixel_count() * (10000 * 0) == 0) by (nonlinear_arith);
}

/// Law: an all-white image with at least one pixel yields the dark text
/// color.
pub proof fn lemma_all_white_yields_dark(img: ImageModel)
    requires
        img.wf(),
        img.pixel_count() > 0,
        forall|i: int| 0 <= i < img.data.len() ==> img.data[i] == 255,
    ensures
        spec_contrast_color(img) == DARK_TEXT,
{
    lemma_constant_luminance_sum(img.data, img.pixel_count(), 255);
    assert(img.pixel_count() * (10000 * 255) == 2550000 * img.pixel_count())
        by (nonlinear_arith);
}

/// Law: an image whose mean relative luminance is exactly one half falls
/// on the "not above" side of the boundary and yields the light text
/// color.
pub proof fn lemma_boundary_luminance_yields_light(img: ImageModel)
    requires
        img.wf(),
        2 * luminance_sum(img.data, img.pixel_count()) == 2550000 * img.pixel_count(),
    ensures
        spec_contrast_color(img) == LIGHT_TEXT,
{
}

} // verus!
