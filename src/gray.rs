//! Luma reduction, average gray level and binarization.
use vstd::prelude::*;

use crate::raster::{lemma_sample_index, Image, ProcError};

verus! {

/// Luma of an RGB pixel with the sRGB weights 0.2126, 0.7152, 0.0722,
/// truncated to an integer level.
pub open spec fn luma(r: int, g: int, b: int) -> int {
    (2126 * r + 7152 * g + 722 * b) / 10000
}

/// Relies on `image::Pixel::to_luma` for `Rgb<u8>`, which computes
/// `(2126 r + 7152 g + 722 b) / 10000` in `u32`.
#[verifier::external_body]
fn luma_of(r: u8, g: u8, b: u8) -> (l: u8)
    ensures
        l as int == luma(r as int, g as int, b as int),
{
    ::image::Pixel::to_luma(&::image::Rgb([r, g, b])).0[0]
}

/// The gray level of pixel `p`: the sample itself in a gray image, the luma
/// of its colour otherwise.
pub open spec fn gray_of(img: &Image, p: int) -> int {
    if img.channels == 1 {
        img.sample(p, 0) as int
    } else {
        luma(img.sample(p, 0) as int, img.sample(p, 1) as int, img.sample(p, 2) as int)
    }
}

/// A single-channel image of the given size.
pub open spec fn is_gray(img: &Image) -> bool {
    img.wf() && img.channels == 1
}

/// The gray image of `img`: one luma sample per pixel.
pub fn to_luma8(img: &Image) -> (out: Image)
    requires
        img.wf(),
    ensures
        is_gray(&out),
        out.width == img.width,
        out.height == img.height,
        forall|p: int| 0 <= p < img.pixel_count() ==> #[trigger] out.data@[p] as int == gray_of(img, p),
{
    let n = img.pixels();
    let c = img.channels;
    let len = img.data.len();
    let mut data: Vec<u8> = Vec::new();
    let mut p: usize = 0;
    while p < n
        invariant
            img.wf(),
            len == img.data@.len(),
            img.channels == c,
            n == img.pixel_count(),
            img.data@.len() == n * c,
            p <= n,
            data@.len() == p,
            forall|q: int| 0 <= q < p ==> #[trigger] data@[q] as int == gray_of(img, q),
        decreases n - p,
    {
        proof {
            lemma_sample_index(p as int, c - 1, n as int, c as int);
        }
        let base = p * c;
        let g = if c == 1 {
            img.data[base]
        } else {
            luma_of(img.data[base], img.data[base + 1], img.data[base + 2])
        };
        data.push(g);
        p = p + 1;
    }
    let out = Image { width: img.width, height: img.height, channels: 1, data };
    out
}

/// Sum of the first `n` levels of `s`.
pub open spec fn level_sum(s: Seq<u8>, n: int) -> int
    decreases n,
{
    if n <= 0 {
        0
    } else {
        level_sum(s, n - 1) + s[n - 1] as int
    }
}

proof fn lemma_level_sum_bound(s: Seq<u8>, n: int)
    requires
        0 <= n <= s.len(),
    ensures
        0 <= level_sum(s, n) <= 255 * n,
    decreases n,
{
    if n > 0 {
        lemma_level_sum_bound(s, n - 1);
    }
}

/// The integer mean of all samples of a gray image, truncated; an error for
/// an image without pixels.
pub fn average_gray_level(gray: &Image) -> (r: Result<u8, ProcError>)
    requires
        is_gray(gray),
    ensures
        gray.pixel_count() == 0 <==> r is Err,
        r is Err ==> r == Err::<u8, ProcError>(ProcError::EmptyImage),
        gray.pixel_count() > 0 ==> r == Ok::<u8, ProcError>(
            (level_sum(gray.data@, gray.pixel_count()) / gray.pixel_count()) as u8,
        ),
{
    let n = gray.data.len();
    if n == 0 {
        return Err(ProcError::EmptyImage);
    }
    let mut sum: u128 = 0;
    let mut i: usize = 0;
    while i < n
        invariant
            n == gray.data@.len(),
            i <= n,
            sum == level_sum(gray.data@, i as int),
        decreases n - i,
    {
        proof {
            lemma_level_sum_bound(gray.data@, i as int);
        }
        sum = sum + gray.data[i] as u128;
        i = i + 1;
    }
    proof {
        lemma_level_sum_bound(gray.data@, n as int);
        let total = level_sum(gray.data@, n as int);
        assert(total / (n as int) <= 255) by (nonlinear_arith)
            requires
                0 <= total <= 255 * n,
                n > 0,
        ;
    }
    Ok((sum / n as u128) as u8)
}

/// The binary level of a sample: 255 when strictly above `level`, else 0.
pub open spec fn binary(v: u8, level: u8) -> u8 {
    if v > level {
        255
    } else {
        0
    }
}

/// Binarization yields only 0 and 255, and a sample equal to the level
/// becomes 0.
pub proof fn lemma_binary_levels(v: u8, level: u8)
    ensures
        binary(v, level) == 0 || binary(v, level) == 255,
        binary(level, level) == 0,
        binary(v, level) == 255 <==> v > level,
{
}

/// Binarizes a gray image against `level`.
pub fn threshold(gray: &Image, level: u8) -> (out: Image)
    requires
        is_gray(gray),
    ensures
        is_gray(&out),
        out.same_shape(gray),
        out.data@.len() == gray.data@.len(),
        forall|i: int| 0 <= i < gray.data@.len() ==> #[trigger] out.data@[i] == binary(gray.data@[i], level),
{
    let n = gray.data.len();
    let mut data: Vec<u8> = Vec::new();
    let mut i: usize = 0;
    while i < n
        invariant
            n == gray.data@.len(),
            i <= n,
            data@.len() == i,
            forall|j: int| 0 <= j < i ==> #[trigger] data@[j] == binary(gray.data@[j], level),
        decreases n - i,
    {
        let v = gray.data[i];
        data.push(if v > level { 255 } else { 0 });
        i = i + 1;
    }
    Image { width: gray.width, height: gray.height, channels: 1, data }
}

} // verus!
