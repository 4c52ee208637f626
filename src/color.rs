//! Per-pixel conversion between RGB and the HSV, HSL and YUV coordinate
//! systems, each coordinate stored as an 8-bit level.
//!
//! Every formula is evaluated exactly on rationals and then quantized: a
//! component `x` in [0, 1] is stored as the level nearest to `255 x` (halves
//! round up), and any value outside [0, 255] is clamped.
use vstd::prelude::*;

use crate::raster::{lemma_sample_index, lemma_sample_position, Image};

verus! {

/// The 8-bit level nearest to `n / d`, halves rounding up, clamped to [0, 255].
pub open spec fn quantize(n: int, d: int) -> int {
    if n <= 0 {
        0
    } else if (2 * n + d) / (2 * d) > 255 {
        255
    } else {
        (2 * n + d) / (2 * d)
    }
}

pub open spec fn max3(a: int, b: int, c: int) -> int {
    if a >= b && a >= c {
        a
    } else if b >= c {
        b
    } else {
        c
    }
}

pub open spec fn min3(a: int, b: int, c: int) -> int {
    if a <= b && a <= c {
        a
    } else if b <= c {
        b
    } else {
        c
    }
}

pub open spec fn abs(x: int) -> int {
    if x < 0 {
        -x
    } else {
        x
    }
}

/// Six times the hue (a fraction of a turn) times the chroma `max - min`,
/// by the 60°-sector rule: the sector is chosen by which channel is largest,
/// red before green before blue.
pub open spec fn hue_numerator(r: int, g: int, b: int) -> int {
    let mx = max3(r, g, b);
    let d = mx - min3(r, g, b);
    if mx == r {
        (g - b) + if g < b {
            6 * d
        } else {
            0
        }
    } else if mx == g {
        (b - r) + 2 * d
    } else {
        (r - g) + 4 * d
    }
}

/// The hue level shared by HSV and HSL; 0 for an achromatic pixel.
pub open spec fn hue_level(r: int, g: int, b: int) -> int {
    let d = max3(r, g, b) - min3(r, g, b);
    if d == 0 {
        0
    } else {
        quantize(255 * hue_numerator(r, g, b), 6 * d)
    }
}

/// HSV saturation level: `(max - min) / max`, 0 when `max` is 0.
pub open spec fn hsv_saturation(r: int, g: int, b: int) -> int {
    let mx = max3(r, g, b);
    if mx == 0 {
        0
    } else {
        quantize(255 * (mx - min3(r, g, b)), mx)
    }
}

/// The denominator `1 - |2l - 1|` of HSL saturation, in levels.
pub open spec fn hsl_spread(r: int, g: int, b: int) -> int {
    255 - abs(max3(r, g, b) + min3(r, g, b) - 255)
}

/// HSL saturation level: `(max - min) / (1 - |2l - 1|)`, 0 when the divisor is 0.
pub open spec fn hsl_saturation(r: int, g: int, b: int) -> int {
    let den = hsl_spread(r, g, b);
    if den == 0 {
        0
    } else {
        quantize(255 * (max3(r, g, b) - min3(r, g, b)), den)
    }
}

/// HSL lightness level: `(max + min) / 2`.
pub open spec fn hsl_lightness(r: int, g: int, b: int) -> int {
    quantize(max3(r, g, b) + min3(r, g, b), 2)
}

/// Forward HSV encoding of one RGB pixel.
pub open spec fn hsv_encode(r: int, g: int, b: int) -> (int, int, int) {
    (hue_level(r, g, b), hsv_saturation(r, g, b), max3(r, g, b))
}

/// Forward HSL encoding of one RGB pixel.
pub open spec fn hsl_encode(r: int, g: int, b: int) -> (int, int, int) {
    (hue_level(r, g, b), hsl_saturation(r, g, b), hsl_lightness(r, g, b))
}

/// Which of the six 60° sectors hue level `h` falls in.
pub open spec fn sector(h: int) -> int {
    ((6 * h) / 255) % 6
}

/// `1 - |(h mod 2) - 1|` for `h` the hue in sixths of a turn, in levels.
pub open spec fn ramp(h: int) -> int {
    255 - abs((6 * h) % 510 - 255)
}

/// Places chroma `c` and secondary component `x` by sector.
pub open spec fn arrange(k: int, c: int, x: int) -> (int, int, int) {
    if k == 0 {
        (c, x, 0)
    } else if k == 1 {
        (x, c, 0)
    } else if k == 2 {
        (0, c, x)
    } else if k == 3 {
        (0, x, c)
    } else if k == 4 {
        (x, 0, c)
    } else {
        (c, 0, x)
    }
}

/// Sector reconstruction: chroma `c`, secondary `x` and offset `m`, all
/// over the common denominator `d`, give three quantized channels.
pub open spec fn rebuild(h: int, c: int, x: int, m: int, d: int) -> (int, int, int) {
    let t = arrange(sector(h), c, x);
    (quantize(t.0 + m, d), quantize(t.1 + m, d), quantize(t.2 + m, d))
}

/// Inverse HSV: `c = v s`, `x = c ramp(h)`, `m = v - c`.
pub open spec fn hsv_decode(h: int, s: int, v: int) -> (int, int, int) {
    if s == 0 {
        (v, v, v)
    } else {
        rebuild(h, v * s * 255, v * s * ramp(h), (255 * v - v * s) * 255, 65025)
    }
}

/// `1 - |2l - 1|` for lightness level `l`, in levels.
pub open spec fn lightness_spread(l: int) -> int {
    255 - abs(2 * l - 255)
}

/// Inverse HSL: `c = (1 - |2l - 1|) s`, `x = c ramp(h)`, `m = l - c / 2`.
pub open spec fn hsl_decode(h: int, s: int, l: int) -> (int, int, int) {
    if s == 0 {
        (l, l, l)
    } else {
        let k = lightness_spread(l);
        rebuild(
            h,
            2 * 255 * k * s,
            2 * k * s * ramp(h),
            2 * 255 * 255 * l - 255 * k * s,
            130050,
        )
    }
}

/// Forward YUV (BT.601 weights), with U and V centred on level 128.
pub open spec fn yuv_encode(r: int, g: int, b: int) -> (int, int, int) {
    (
        quantize(299 * r + 587 * g + 114 * b, 1000),
        quantize(-169 * r - 331 * g + 500 * b + 128000, 1000),
        quantize(500 * r - 419 * g - 81 * b + 128000, 1000),
    )
}

/// Inverse YUV: the exact inverse of the forward matrix, written over the
/// common denominator 236311. To six places its rows are
/// `(1, -0.000927, 1.401687)`, `(1, -0.343695, -0.714169)` and
/// `(1, 1.772160, 0.000990)`.
pub open spec fn yuv_decode(y: int, u: int, v: int) -> (int, int, int) {
    (
        quantize(236311 * y - 219 * (u - 128) + 331234 * (v - 128), 236311),
        quantize(236311 * y - 81219 * (u - 128) - 168766 * (v - 128), 236311),
        quantize(236311 * y + 418781 * (u - 128) + 234 * (v - 128), 236311),
    )
}

pub open spec fn levels(t: (u8, u8, u8)) -> (int, int, int) {
    (t.0 as int, t.1 as int, t.2 as int)
}

/// Monotonicity of a product of non-negative factors.
pub proof fn lemma_mul_le(a: int, b: int, x: int, y: int)
    requires
        0 <= a <= x,
        0 <= b <= y,
    ensures
        0 <= a * b <= x * y,
{
    assert(0 <= a * b <= x * y) by (nonlinear_arith)
        requires
            0 <= a <= x,
            0 <= b <= y,
    ;
}

/// Executable `quantize`.
fn quantize_exec(n: i64, d: i64) -> (q: u8)
    requires
        0 < d <= 1_000_000_000,
        -1_000_000_000_000 <= n <= 1_000_000_000_000,
    ensures
        q as int == quantize(n as int, d as int),
{
    if n <= 0 {
        0
    } else {
        let q = (2 * n + d) / (2 * d);
        if q > 255 {
            255
        } else {
            q as u8
        }
    }
}

/// `a * b` for small non-negative factors.
fn product(a: i64, b: i64) -> (p: i64)
    requires
        0 <= a <= 200_000,
        0 <= b <= 200_000,
    ensures
        p == a * b,
        0 <= p <= 40_000_000_000,
{
    assert(0 <= a * b <= 40_000_000_000) by (nonlinear_arith)
        requires
            0 <= a <= 200_000,
            0 <= b <= 200_000,
    ;
    a * b
}

fn max3_exec(a: u8, b: u8, c: u8) -> (m: u8)
    ensures
        m as int == max3(a as int, b as int, c as int),
{
    if a >= b && a >= c {
        a
    } else if b >= c {
        b
    } else {
        c
    }
}

fn min3_exec(a: u8, b: u8, c: u8) -> (m: u8)
    ensures
        m as int == min3(a as int, b as int, c as int),
{
    if a <= b && a <= c {
        a
    } else if b <= c {
        b
    } else {
        c
    }
}

fn ramp_exec(h: i64) -> (w: i64)
    requires
        0 <= h <= 255,
    ensures
        w == ramp(h as int),
        0 <= w <= 255,
{
    let t = (6 * h) % 510;
    if t >= 255 {
        510 - t
    } else {
        t
    }
}

fn hue_level_exec(r: u8, g: u8, b: u8) -> (h: u8)
    ensures
        h as int == hue_level(r as int, g as int, b as int),
{
    let mx = max3_exec(r, g, b) as i64;
    let mn = min3_exec(r, g, b) as i64;
    let (r, g, b) = (r as i64, g as i64, b as i64);
    let d = mx - mn;
    if d == 0 {
        return 0;
    }
    let num = if mx == r {
        (g - b) + if g < b {
            6 * d
        } else {
            0
        }
    } else if mx == g {
        (b - r) + 2 * d
    } else {
        (r - g) + 4 * d
    };
    quantize_exec(255 * num, 6 * d)
}

/// A pixel in HSV coordinates, each component stored as an 8-bit level.
#[derive(Clone, Copy, Debug, PartialEq, Eq)]
pub struct Hsv {
    pub h: u8,
    pub s: u8,
    pub v: u8,
}

impl Hsv {
    pub open spec fn view(&self) -> (int, int, int) {
        (self.h as int, self.s as int, self.v as int)
    }

    /// Encodes one RGB pixel.
    pub fn from_rgb(r: u8, g: u8, b: u8) -> (x: Hsv)
        ensures
            x.view() == hsv_encode(r as int, g as int, b as int),
    {
        let h = hue_level_exec(r, g, b);
        let mx = max3_exec(r, g, b);
        let mn = min3_exec(r, g, b);
        let s = if mx == 0 {
            0
        } else {
            quantize_exec(255 * ((mx - mn) as i64), mx as i64)
        };
        Hsv { h, s, v: mx }
    }

    /// The three levels as they are stored in an image's channels.
    pub fn as_rgb8(&self) -> (p: (u8, u8, u8))
        ensures
            levels(p) == self.view(),
    {
        (self.h, self.s, self.v)
    }

    /// Converts back to RGB.
    pub fn to_rgb8(&self) -> (p: (u8, u8, u8))
        ensures
            levels(p) == hsv_decode(self.h as int, self.s as int, self.v as int),
    {
        if self.s == 0 {
            return (self.v, self.v, self.v);
        }
        let (h, s, v) = (self.h as i64, self.s as i64, self.v as i64);
        let vs = product(v, s);
        let ramp = ramp_exec(h);
        proof {
            lemma_mul_le(v as int, s as int, 255, 255);
            lemma_mul_le(v as int, s as int, v as int, 255);
        }
        let c = product(vs, 255);
        let x = product(vs, ramp);
        proof {
            lemma_mul_le(vs as int, ramp as int, 65025, 255);
        }
        let m = product(255 * v - vs, 255);
        rebuild_exec(h, c, x, m, 255 * 255)
    }
}

/// A pixel in HSL coordinates, each component stored as an 8-bit level.
#[derive(Clone, Copy, Debug, PartialEq, Eq)]
pub struct Hsl {
    pub h: u8,
    pub s: u8,
    pub l: u8,
}

impl Hsl {
    pub open spec fn view(&self) -> (int, int, int) {
        (self.h as int, self.s as int, self.l as int)
    }

    /// Encodes one RGB pixel.
    pub fn from_rgb(r: u8, g: u8, b: u8) -> (x: Hsl)
        ensures
            x.view() == hsl_encode(r as int, g as int, b as int),
    {
        let h = hue_level_exec(r, g, b);
        let mx = max3_exec(r, g, b) as i64;
        let mn = min3_exec(r, g, b) as i64;
        let sum = mx + mn;
        let den = 255 - if sum >= 255 {
            sum - 255
        } else {
            255 - sum
        };
        let s = if den == 0 {
            0
        } else {
            quantize_exec(255 * (mx - mn), den)
        };
        Hsl { h, s, l: quantize_exec(sum, 2) }
    }

    /// The three levels as they are stored in an image's channels.
    pub fn as_rgb8(&self) -> (p: (u8, u8, u8))
        ensures
            levels(p) == self.view(),
    {
        (self.h, self.s, self.l)
    }

    /// Converts back to RGB.
    pub fn to_rgb8(&self) -> (p: (u8, u8, u8))
        ensures
            levels(p) == hsl_decode(self.h as int, self.s as int, self.l as int),
    {
        if self.s == 0 {
            return (self.l, self.l, self.l);
        }
        let (h, s, l) = (self.h as i64, self.s as i64, self.l as i64);
        let spread = 255 - if 2 * l >= 255 {
            2 * l - 255
        } else {
            255 - 2 * l
        };
        let ks = product(spread, s);
        proof {
            lemma_mul_le(spread as int, s as int, 255, 255);
        }
        let ramp = ramp_exec(h);
        let c = product(2 * ks, 255);
        let x = product(2 * ks, ramp);
        proof {
            lemma_mul_le(2 * ks as int, ramp as int, 130050, 255);
        }
        let m = product(130050, l) - product(255, ks);
        proof {
            let (k, si, r) = (spread as int, s as int, ramp as int);
            assert(c == 2 * 255 * k * si && x == 2 * k * si * r && m == 2 * 255 * 255 * l - 255 * k
                * si) by (nonlinear_arith)
                requires
                    ks == k * si,
                    c == (2 * ks) * 255,
                    x == (2 * ks) * r,
                    m == 130050 * l - 255 * ks,
            ;
        }
        rebuild_exec(h, c, x, m, 130050)
    }
}

/// A pixel in YUV coordinates; U and V are stored centred on level 128.
#[derive(Clone, Copy, Debug, PartialEq, Eq)]
pub struct Yuv {
    pub y: u8,
    pub u: u8,
    pub v: u8,
}

impl Yuv {
    pub open spec fn view(&self) -> (int, int, int) {
        (self.y as int, self.u as int, self.v as int)
    }

    /// Encodes one RGB pixel.
    pub fn from_rgb(r: u8, g: u8, b: u8) -> (x: Yuv)
        ensures
            x.view() == yuv_encode(r as int, g as int, b as int),
    {
        let r = r as i64;
        let g = g as i64;
        let b = b as i64;
        Yuv {
            y: quantize_exec(299 * r + 587 * g + 114 * b, 1000),
            u: quantize_exec(128000 - 169 * r - 331 * g + 500 * b, 1000),
            v: quantize_exec(500 * r - 419 * g - 81 * b + 128000, 1000),
        }
    }

    /// The three levels as they are stored in an image's channels.
    pub fn as_rgb8(&self) -> (p: (u8, u8, u8))
        ensures
            levels(p) == self.view(),
    {
        (self.y, self.u, self.v)
    }

    /// Converts back to RGB.
    pub fn to_rgb8(&self) -> (p: (u8, u8, u8))
        ensures
            levels(p) == yuv_decode(self.y as int, self.u as int, self.v as int),
    {
        let y = self.y as i64;
        let u = self.u as i64 - 128;
        let v = self.v as i64 - 128;
        (
            quantize_exec(236311 * y - 219 * u + 331234 * v, 236311),
            quantize_exec(236311 * y - 81219 * u - 168766 * v, 236311),
            quantize_exec(236311 * y + 418781 * u + 234 * v, 236311),
        )
    }
}

/// Executable `rebuild`.
fn rebuild_exec(h: i64, c: i64, x: i64, m: i64, d: i64) -> (p: (u8, u8, u8))
    requires
        0 <= h <= 255,
        0 <= c <= 100_000_000,
        0 <= x <= 100_000_000,
        -100_000_000 <= m <= 100_000_000,
        0 < d <= 1_000_000_000,
    ensures
        levels(p) == rebuild(h as int, c as int, x as int, m as int, d as int),
{
    let k = ((6 * h) / 255) % 6;
    let (a, b, e) = if k == 0 {
        (c, x, 0)
    } else if k == 1 {
        (x, c, 0)
    } else if k == 2 {
        (0, c, x)
    } else if k == 3 {
        (0, x, c)
    } else if k == 4 {
        (x, 0, c)
    } else {
        (c, 0, x)
    };
    (quantize_exec(a + m, d), quantize_exec(b + m, d), quantize_exec(e + m, d))
}

/// An achromatic pixel (r = g = b) has hue 0 and saturation 0 in HSV and
/// in HSL.
pub proof fn lemma_achromatic(v: u8)
    ensures
        hsv_encode(v as int, v as int, v as int).0 == 0,
        hsv_encode(v as int, v as int, v as int).1 == 0,
        hsl_encode(v as int, v as int, v as int).0 == 0,
        hsl_encode(v as int, v as int, v as int).1 == 0,
{
}

/// An achromatic pixel comes back unchanged from an HSV or HSL round trip.
pub proof fn lemma_achromatic_round_trip(v: u8)
    ensures
        ({
            let e = hsv_encode(v as int, v as int, v as int);
            hsv_decode(e.0, e.1, e.2)
        }) == (v as int, v as int, v as int),
        ({
            let e = hsl_encode(v as int, v as int, v as int);
            hsl_decode(e.0, e.1, e.2)
        }) == (v as int, v as int, v as int),
{
}

/// A YUV round trip moves no channel of any RGB pixel by more than one
/// level, within the two levels that quantization allows.
pub proof fn lemma_yuv_round_trip(r: u8, g: u8, b: u8)
    ensures
        ({
            let e = yuv_encode(r as int, g as int, b as int);
            let d = yuv_decode(e.0, e.1, e.2);
            &&& abs(d.0 - r as int) <= 1
            &&& abs(d.1 - g as int) <= 1
            &&& abs(d.2 - b as int) <= 1
        }),
{
}

/// The whole-image transforms between RGB and a coded colour space.
#[derive(Clone, Copy, Debug, PartialEq, Eq)]
pub enum Transform {
    HsvEncode,
    HsvDecode,
    HslEncode,
    HslDecode,
    YuvEncode,
    YuvDecode,
}

/// What a transform does to the three colour samples of one pixel.
pub open spec fn transform_spec(t: Transform, a: int, b: int, c: int) -> (int, int, int) {
    match t {
        Transform::HsvEncode => hsv_encode(a, b, c),
        Transform::HsvDecode => hsv_decode(a, b, c),
        Transform::HslEncode => hsl_encode(a, b, c),
        Transform::HslDecode => hsl_decode(a, b, c),
        Transform::YuvEncode => yuv_encode(a, b, c),
        Transform::YuvDecode => yuv_decode(a, b, c),
    }
}

/// The three colour samples of pixel `p`, as levels.
pub open spec fn color_of(img: &Image, p: int) -> (int, int, int) {
    (img.sample(p, 0) as int, img.sample(p, 1) as int, img.sample(p, 2) as int)
}

/// `out` is `src` with transform `t` applied to every pixel's colour and the
/// alpha channel, if any, kept.
pub open spec fn transformed(src: &Image, out: &Image, t: Transform) -> bool {
    &&& out.wf()
    &&& out.same_shape(src)
    &&& forall|p: int|
        0 <= p < src.pixel_count() ==> #[trigger] color_of(out, p) == transform_spec(
            t,
            src.sample(p, 0) as int,
            src.sample(p, 1) as int,
            src.sample(p, 2) as int,
        )
    &&& src.channels == 4 ==> forall|p: int|
        0 <= p < src.pixel_count() ==> #[trigger] out.sample(p, 3) == src.sample(p, 3)
}

/// Buffer index `i` of the transformed image.
spec fn transformed_at(src: &Image, t: Transform, i: int) -> u8 {
    let c = src.channels as int;
    let p = i / c;
    let k = i % c;
    let v = transform_spec(t, src.sample(p, 0) as int, src.sample(p, 1) as int, src.sample(p, 2) as int);
    if k == 0 {
        v.0 as u8
    } else if k == 1 {
        v.1 as u8
    } else if k == 2 {
        v.2 as u8
    } else {
        src.data@[i]
    }
}

fn transform_pixel(t: Transform, a: u8, b: u8, c: u8) -> (p: (u8, u8, u8))
    ensures
        levels(p) == transform_spec(t, a as int, b as int, c as int),
{
    match t {
        Transform::HsvEncode => Hsv::from_rgb(a, b, c).as_rgb8(),
        Transform::HsvDecode => Hsv { h: a, s: b, v: c }.to_rgb8(),
        Transform::HslEncode => Hsl::from_rgb(a, b, c).as_rgb8(),
        Transform::HslDecode => Hsl { h: a, s: b, l: c }.to_rgb8(),
        Transform::YuvEncode => Yuv::from_rgb(a, b, c).as_rgb8(),
        Transform::YuvDecode => Yuv { y: a, u: b, v: c }.to_rgb8(),
    }
}

/// Applies `t` to every pixel of a 3- or 4-channel image, keeping alpha.
#[verifier::rlimit(40)]
pub fn apply_transform(img: &Image, t: Transform) -> (out: Image)
    requires
        img.wf(),
        img.channels >= 3,
    ensures
        transformed(img, &out, t),
{
    let n = img.pixels();
    let c = img.channels;
    let len = img.data.len();
    let mut data: Vec<u8> = Vec::new();
    let mut p: usize = 0;
    while p < n
        invariant
            img.wf(),
            len == img.data@.len(),
            img.channels == c,
            c >= 3,
            n == img.pixel_count(),
            img.data@.len() == n * c,
            p <= n,
            data@.len() == p * c,
            forall|j: int| 0 <= j < data@.len() ==> #[trigger] data@[j] == transformed_at(img, t, j),
        decreases n - p,
    {
        proof {
            lemma_sample_index(p as int, 0, n as int, c as int);
            lemma_sample_index(p as int, c - 1, n as int, c as int);
        }
        let base = p * c;
        let v = transform_pixel(t, img.data[base], img.data[base + 1], img.data[base + 2]);
        proof {
            lemma_sample_position(p as int, 0, c as int);
            lemma_sample_position(p as int, 1, c as int);
            lemma_sample_position(p as int, 2, c as int);
        }
        data.push(v.0);
        data.push(v.1);
        data.push(v.2);
        if c == 4 {
            proof {
                lemma_sample_position(p as int, 3, c as int);
            }
            data.push(img.data[base + 3]);
        }
        assert(data@.len() == (p + 1) * c) by (nonlinear_arith)
            requires
                data@.len() == p * c + c,
        ;
        p = p + 1;
    }
    let out = Image { width: img.width, height: img.height, channels: c, data };
    assert forall|q: int| 0 <= q < img.pixel_count() implies #[trigger] color_of(&out, q)
        == transform_spec(t, img.sample(q, 0) as int, img.sample(q, 1) as int, img.sample(q, 2) as int)
        && (c == 4 ==> out.sample(q, 3) == img.sample(q, 3)) by {
        lemma_sample_index(q, 0, n as int, c as int);
        lemma_sample_index(q, 2, n as int, c as int);
        lemma_sample_position(q, 0, c as int);
        lemma_sample_position(q, 1, c as int);
        lemma_sample_position(q, 2, c as int);
        if c == 4 {
            lemma_sample_index(q, 3, n as int, c as int);
            lemma_sample_position(q, 3, c as int);
        }
        assert(out.sample(q, 0) == transformed_at(img, t, q * c + 0));
        assert(out.sample(q, 1) == transformed_at(img, t, q * c + 1));
        assert(out.sample(q, 2) == transformed_at(img, t, q * c + 2));
    }
    out
}

/// Encodes every pixel of an RGB(A) image as HSV.
pub fn rgb_to_hsv(img: &Image) -> (out: Image)
    requires
        img.wf(),
        img.channels >= 3,
    ensures
        transformed(img, &out, Transform::HsvEncode),
{
    apply_transform(img, Transform::HsvEncode)
}

/// Decodes every pixel of an HSV-coded image back to RGB.
pub fn hsv_to_rgb(img: &Image) -> (out: Image)
    requires
        img.wf(),
        img.channels >= 3,
    ensures
        transformed(img, &out, Transform::HsvDecode),
{
    apply_transform(img, Transform::HsvDecode)
}

/// Encodes every pixel of an RGB(A) image as HSL.
pub fn rgb_to_hsl(img: &Image) -> (out: Image)
    requires
        img.wf(),
        img.channels >= 3,
    ensures
        transformed(img, &out, Transform::HslEncode),
{
    apply_transform(img, Transform::HslEncode)
}

/// Decodes every pixel of an HSL-coded image back to RGB.
pub fn hsl_to_rgb(img: &Image) -> (out: Image)
    requires
        img.wf(),
        img.channels >= 3,
    ensures
        transformed(img, &out, Transform::HslDecode),
{
    apply_transform(img, Transform::HslDecode)
}

/// Encodes every pixel of an RGB(A) image as YUV.
pub fn rgb_to_yuv(img: &Image) -> (out: Image)
    requires
        img.wf(),
        img.channels >= 3,
    ensures
        transformed(img, &out, Transform::YuvEncode),
{
    apply_transform(img, Transform::YuvEncode)
}

/// Decodes every pixel of a YUV-coded image back to RGB.
pub fn yuv_to_rgb(img: &Image) -> (out: Image)
    requires
        img.wf(),
        img.channels >= 3,
    ensures
        transformed(img, &out, Transform::YuvDecode),
{
    apply_transform(img, Transform::YuvDecode)
}

} // verus!
