//! The operations offered to a viewer. Each turns one image into an ordered
//! sequence of panels, pictures and histogram charts, shown in that order.
use vstd::prelude::*;
use vstd::string::*;

use crate::chart::{auto_scale, color_chart, gray_chart, is_color_chart, lemma_auto_scale_zero, luma_plane, Chart};
use crate::color::{apply_transform, transformed, Transform};
use crate::gray::{average_gray_level, binary, is_gray, level_sum, threshold, to_luma8};
use crate::histogram::{equalization_of, histogram_equalize, histogram_of};
use crate::raster::{extract_plane, replace_channel, Image, ProcError};

verus! {

/// The colour spaces an operation can work in.
#[derive(Clone, Copy, Debug, PartialEq, Eq)]
pub enum ColorSpace {
    Rgb,
    Hsv,
    Hsl,
    Hsi,
    Yuv,
}

impl ColorSpace {
    /// The name that selects this space.
    pub open spec fn name(self) -> Seq<char> {
        match self {
            ColorSpace::Rgb => seq!['r', 'g', 'b'],
            ColorSpace::Hsv => seq!['h', 's', 'v'],
            ColorSpace::Hsl => seq!['h', 's', 'l'],
            ColorSpace::Hsi => seq!['h', 's', 'i'],
            ColorSpace::Yuv => seq!['y', 'u', 'v'],
        }
    }

    /// Selects a colour space by its exact, lower-case name; any other name
    /// is an error.
    pub fn from_name(name: &str) -> (r: Result<ColorSpace, ProcError>)
        ensures
            r matches Ok(s) ==> name@ == s.name(),
            r is Err ==> r == Err::<ColorSpace, ProcError>(ProcError::UnknownColorSpace) && forall|
                s: ColorSpace,
            | name@ != #[trigger] s.name(),
    {
        if name.unicode_len() != 3 {
            return Err(ProcError::UnknownColorSpace);
        }
        let a = name.get_char(0);
        let b = name.get_char(1);
        let c = name.get_char(2);
        let r = if a == 'r' && b == 'g' && c == 'b' {
            Ok(ColorSpace::Rgb)
        } else if a == 'h' && b == 's' && c == 'v' {
            Ok(ColorSpace::Hsv)
        } else if a == 'h' && b == 's' && c == 'l' {
            Ok(ColorSpace::Hsl)
        } else if a == 'h' && b == 's' && c == 'i' {
            Ok(ColorSpace::Hsi)
        } else if a == 'y' && b == 'u' && c == 'v' {
            Ok(ColorSpace::Yuv)
        } else {
            Err(ProcError::UnknownColorSpace)
        };
        proof {
            if r is Ok {
                assert(name@ =~= r->Ok_0.name());
            } else {
                assert forall|s: ColorSpace| name@ != #[trigger] s.name() by {
                    if name@ == s.name() {
                        assert(name@[0] == s.name()[0] && name@[1] == s.name()[1] && name@[2] == s.name()[2]);
                    }
                }
            }
        }
        r
    }

    /// The channel that carries brightness once an image is coded in this
    /// space: V, L or I for the hue spaces, Y for YUV.
    pub open spec fn brightness(self) -> int {
        match self {
            ColorSpace::Yuv => 0,
            _ => 2,
        }
    }

    /// Executable `brightness`.
    pub fn brightness_channel(self) -> (k: usize)
        ensures
            k == self.brightness(),
    {
        match self {
            ColorSpace::Yuv => 0,
            _ => 2,
        }
    }

    /// The spaces whose codec works on exact integer arithmetic: not RGB
    /// itself, and not HSI, whose trigonometric hue is computed outside this
    /// library.
    pub open spec fn has_codec(self) -> bool {
        self == ColorSpace::Hsv || self == ColorSpace::Hsl || self == ColorSpace::Yuv
    }

    /// The transform that encodes RGB in this space.
    pub open spec fn encoder(self) -> Transform {
        match self {
            ColorSpace::Hsv => Transform::HsvEncode,
            ColorSpace::Hsl => Transform::HslEncode,
            _ => Transform::YuvEncode,
        }
    }

    /// The transform that decodes this space back to RGB.
    pub open spec fn decoder(self) -> Transform {
        match self {
            ColorSpace::Hsv => Transform::HsvDecode,
            ColorSpace::Hsl => Transform::HslDecode,
            _ => Transform::YuvDecode,
        }
    }
}

/// How `equalize` works for a choice of colour space and target.
#[derive(Clone, Copy, Debug, PartialEq, Eq)]
pub enum EqualizeMode {
    /// Equalize the luma image.
    Luma,
    /// Equalize the brightness plane of the image coded in this space and show
    /// it as a gray image.
    Plane(ColorSpace),
    /// Equalize the brightness channel of the coded image, keep the others,
    /// and decode back to RGB.
    Color(ColorSpace),
    /// Equalize the red, green and blue channels each on its own.
    PerChannel,
}

/// The mode for a colour space (none given: HSI for colour, luma for gray)
/// and a target (gray only, or the full colour image).
pub open spec fn mode_of(grayscale_only: bool, space: Option<ColorSpace>) -> EqualizeMode {
    match space {
        None => if grayscale_only {
            EqualizeMode::Luma
        } else {
            EqualizeMode::Color(ColorSpace::Hsi)
        },
        Some(ColorSpace::Rgb) => if grayscale_only {
            EqualizeMode::Luma
        } else {
            EqualizeMode::PerChannel
        },
        Some(ColorSpace::Yuv) => if grayscale_only {
            EqualizeMode::Luma
        } else {
            EqualizeMode::Color(ColorSpace::Yuv)
        },
        Some(s) => if grayscale_only {
            EqualizeMode::Plane(s)
        } else {
            EqualizeMode::Color(s)
        },
    }
}

/// Chooses how to equalize.
pub fn equalize_mode(grayscale_only: bool, space: Option<ColorSpace>) -> (m: EqualizeMode)
    ensures
        m == mode_of(grayscale_only, space),
{
    match space {
        None => if grayscale_only {
            EqualizeMode::Luma
        } else {
            EqualizeMode::Color(ColorSpace::Hsi)
        },
        Some(ColorSpace::Rgb) => if grayscale_only {
            EqualizeMode::Luma
        } else {
            EqualizeMode::PerChannel
        },
        Some(ColorSpace::Yuv) => if grayscale_only {
            EqualizeMode::Luma
        } else {
            EqualizeMode::Color(ColorSpace::Yuv)
        },
        Some(s) => if grayscale_only {
            EqualizeMode::Plane(s)
        } else {
            EqualizeMode::Color(s)
        },
    }
}

/// One thing to show.
#[derive(Debug)]
pub enum Panel {
    Picture(Image),
    Chart(Chart),
}

/// Two images hold the same pixels in the same shape.
pub open spec fn same_image(a: &Image, b: &Image) -> bool {
    a.same_shape(b) && a.data@ == b.data@
}

/// `p` shows exactly `img`.
pub open spec fn shows(p: Panel, img: &Image) -> bool {
    p matches Panel::Picture(i) && same_image(&i, img)
}

/// `p` shows the luma image of `img`.
pub open spec fn shows_luma(p: Panel, img: &Image) -> bool {
    p matches Panel::Picture(g) && is_gray(&g) && g.width == img.width && g.height == img.height
        && g.data@ == luma_plane(img)
}

/// `p` shows the gray image `levels` of the size of `img`.
pub open spec fn shows_gray(p: Panel, img: &Image, levels: Seq<u8>) -> bool {
    p matches Panel::Picture(g) && is_gray(&g) && g.width == img.width && g.height == img.height
        && g.data@ == levels
}

/// The levels of `levels` after equalization on their own histogram.
pub open spec fn equalized(levels: Seq<u8>) -> Seq<u8> {
    levels.map_values(|v: u8| equalization_of(histogram_of(levels))[v as int] as u8)
}

/// The four-band chart of `img` at `scale`.
pub open spec fn shows_color_chart(p: Panel, img: &Image, scale: int) -> bool {
    p matches Panel::Chart(c) && is_color_chart(&c, img, scale)
}

/// The one-band chart of a gray image of `levels` at `scale`.
pub open spec fn shows_gray_chart(p: Panel, levels: Seq<u8>, scale: int) -> bool {
    p matches Panel::Chart(c) && c.scale == scale && c.bands@.len() == 1 && crate::chart::band_of(
        c.bands@[0],
        crate::chart::GRAY_SLOT as int,
        histogram_of(levels),
        scale,
    )
}

/// A copy of an image.
pub fn copy_image(img: &Image) -> (out: Image)
    ensures
        same_image(&out, img),
{
    let mut data: Vec<u8> = Vec::new();
    let n = img.data.len();
    let mut i: usize = 0;
    while i < n
        invariant
            n == img.data@.len(),
            i <= n,
            data@ == img.data@.subrange(0, i as int),
        decreases n - i,
    {
        data.push(img.data[i]);
        i = i + 1;
        assert(data@ =~= img.data@.subrange(0, i as int));
    }
    assert(data@ =~= img.data@);
    Image { width: img.width, height: img.height, channels: img.channels, data }
}

/// Binarization: the image, its luma, and the luma binarized against the
/// given level or, when none is given, against the average luma, which is
/// returned so that it can be reported.
pub fn binarize(image: Image, threshold_level: Option<u8>) -> (r: Result<(u8, Vec<Panel>), ProcError>)
    requires
        image.wf(),
    ensures
        threshold_level is None && image.pixel_count() == 0 <==> r is Err,
        r is Err ==> r == Err::<(u8, Vec<Panel>), ProcError>(
            ProcError::EmptyImage,
        ),
        r matches Ok((level, panels)) ==> {
            &&& level == match threshold_level {
                Some(t) => t,
                None => (level_sum(luma_plane(&image), image.pixel_count()) / image.pixel_count()) as u8,
            }
            &&& panels@.len() == 3
            &&& shows(panels@[0], &image)
            &&& shows_luma(panels@[1], &image)
            &&& shows_gray(panels@[2], &image, luma_plane(&image).map_values(|v: u8| binary(v, level)))
        },
{
    let gray = to_luma8(&image);
    assert(gray.data@ =~= luma_plane(&image));
    let level = match threshold_level {
        Some(t) => t,
        None => match average_gray_level(&gray) {
            Ok(v) => v,
            Err(e) => {
                return Err(e);
            },
        },
    };
    let binary_image = threshold(&gray, level);
    assert(binary_image.data@ =~= luma_plane(&image).map_values(|v: u8| binary(v, level)));
    let mut panels: Vec<Panel> = Vec::new();
    panels.push(Panel::Picture(image));
    panels.push(Panel::Picture(gray));
    panels.push(Panel::Picture(binary_image));
    Ok((level, panels))
}

/// The histogram view: the image, its luma, and its four-band chart on the
/// automatic scale. An error for an image without pixels.
pub fn histogram(image: Image) -> (r: Result<Vec<Panel>, ProcError>)
    requires
        image.wf(),
        image.channels >= 3,
    ensures
        image.pixel_count() == 0 <==> r is Err,
        r is Err ==> r == Err::<Vec<Panel>, ProcError>(ProcError::EmptyImage),
        r matches Ok(panels) ==> {
            &&& panels@.len() == 3
            &&& shows(panels@[0], &image)
            &&& shows_luma(panels@[1], &image)
            &&& shows_color_chart(panels@[2], &image, auto_scale(&image))
        },
{
    proof {
        lemma_auto_scale_zero(&image);
    }
    let gray = to_luma8(&image);
    assert(gray.data@ =~= luma_plane(&image));
    let chart = match color_chart(&image, None) {
        Ok(c) => c,
        Err(e) => {
            return Err(e);
        },
    };
    let mut panels: Vec<Panel> = Vec::new();
    panels.push(Panel::Picture(image));
    panels.push(Panel::Picture(gray));
    panels.push(Panel::Chart(chart));
    Ok(panels)
}

/// `out` is `src` with channel `k` equalized on its own histogram and every
/// other channel kept.
pub open spec fn channel_equalized(src: &Image, out: &Image, k: int) -> bool {
    &&& out.wf()
    &&& out.same_shape(src)
    &&& forall|p: int, j: int|
        0 <= p < src.pixel_count() && 0 <= j < src.channels ==> #[trigger] out.sample(p, j) == if j
            == k {
            equalized(src.plane(k))[p]
        } else {
            src.sample(p, j)
        }
}

/// Equalizes channel `k` of an image on its own histogram and keeps the
/// other channels: the recombination step of colour equalization. An error
/// for an image without pixels.
pub fn equalize_channel(img: &Image, k: usize) -> (r: Result<Image, ProcError>)
    requires
        img.wf(),
        k < img.channels,
    ensures
        img.pixel_count() == 0 <==> r is Err,
        r is Err ==> r == Err::<Image, ProcError>(ProcError::EmptyImage),
        r matches Ok(out) ==> channel_equalized(img, &out, k as int),
{
    let plane = extract_plane(img, k);
    match histogram_equalize(&plane) {
        Err(e) => Err(e),
        Ok(eq) => {
            assert(eq.data@ =~= equalized(img.plane(k as int)));
            Ok(replace_channel(img, k, &eq))
        },
    }
}

/// Panels of a before/after view: the image, the processed image, and the
/// charts of both on the image's automatic scale.
pub open spec fn before_after_panels(panels: Seq<Panel>, image: &Image, result: &Image) -> bool {
    &&& panels.len() == 4
    &&& shows(panels[0], image)
    &&& shows(panels[1], result)
    &&& shows_color_chart(panels[2], image, auto_scale(image))
    &&& shows_color_chart(panels[3], result, auto_scale(image))
}

/// The before/after view of an image and its processed form. An error for
/// an image without pixels.
pub fn before_after(image: Image, result: Image) -> (r: Result<Vec<Panel>, ProcError>)
    requires
        image.wf(),
        image.channels >= 3,
        result.wf(),
        result.channels >= 3,
    ensures
        image.pixel_count() == 0 <==> r is Err,
        r is Err ==> r == Err::<Vec<Panel>, ProcError>(ProcError::EmptyImage),
        r matches Ok(panels) ==> before_after_panels(panels@, &image, &result),
{
    proof {
        lemma_auto_scale_zero(&image);
    }
    let before = match color_chart(&image, None) {
        Ok(c) => c,
        Err(e) => {
            return Err(e);
        },
    };
    let after = match color_chart(&result, Some(before.scale)) {
        Ok(c) => c,
        Err(e) => {
            return Err(e);
        },
    };
    let mut panels: Vec<Panel> = Vec::new();
    panels.push(Panel::Picture(image));
    panels.push(Panel::Picture(result));
    panels.push(Panel::Chart(before));
    panels.push(Panel::Chart(after));
    Ok(panels)
}

/// Panels of luma equalization: the image, its luma, the equalized luma, the
/// image's chart, and the chart of the equalized luma on the same scale.
pub open spec fn luma_equalization_panels(panels: Seq<Panel>, image: &Image) -> bool {
    &&& panels.len() == 5
    &&& shows(panels[0], image)
    &&& shows_luma(panels[1], image)
    &&& shows_gray(panels[2], image, equalized(luma_plane(image)))
    &&& shows_color_chart(panels[3], image, auto_scale(image))
    &&& shows_gray_chart(panels[4], equalized(luma_plane(image)), auto_scale(image))
}

/// Equalizes the luma of an image. An error for an image without pixels.
pub fn equalize_luma(image: Image) -> (r: Result<Vec<Panel>, ProcError>)
    requires
        image.wf(),
        image.channels >= 3,
    ensures
        image.pixel_count() == 0 <==> r is Err,
        r is Err ==> r == Err::<Vec<Panel>, ProcError>(ProcError::EmptyImage),
        r matches Ok(panels) ==> luma_equalization_panels(panels@, &image),
{
    proof {
        lemma_auto_scale_zero(&image);
    }
    let gray = to_luma8(&image);
    assert(gray.data@ =~= luma_plane(&image));
    let eq = match histogram_equalize(&gray) {
        Ok(e) => e,
        Err(e) => {
            return Err(e);
        },
    };
    assert(eq.data@ =~= equalized(luma_plane(&image)));
    let chart = match color_chart(&image, None) {
        Ok(c) => c,
        Err(e) => {
            return Err(e);
        },
    };
    let eq_chart = match gray_chart(&eq, Some(chart.scale)) {
        Ok(c) => c,
        Err(e) => {
            return Err(e);
        },
    };
    let mut panels: Vec<Panel> = Vec::new();
    panels.push(Panel::Picture(image));
    panels.push(Panel::Picture(gray));
    panels.push(Panel::Picture(eq));
    panels.push(Panel::Chart(chart));
    panels.push(Panel::Chart(eq_chart));
    Ok(panels)
}

/// Panels of plane equalization: the image, the plane, the equalized plane,
/// the image's chart, and the charts of the plane before and after on the
/// image's scale.
pub open spec fn plane_equalization_panels(panels: Seq<Panel>, image: &Image, plane: Seq<u8>) -> bool {
    &&& panels.len() == 6
    &&& shows(panels[0], image)
    &&& shows_gray(panels[1], image, plane)
    &&& shows_gray(panels[2], image, equalized(plane))
    &&& shows_color_chart(panels[3], image, auto_scale(image))
    &&& shows_gray_chart(panels[4], plane, auto_scale(image))
    &&& shows_gray_chart(panels[5], equalized(plane), auto_scale(image))
}

/// Equalizes one plane of an image (its brightness in some colour space)
/// and shows it as a gray image. An error for an image without pixels.
pub fn equalize_plane(image: Image, plane: Image) -> (r: Result<Vec<Panel>, ProcError>)
    requires
        image.wf(),
        image.channels >= 3,
        is_gray(&plane),
        plane.width == image.width,
        plane.height == image.height,
    ensures
        image.pixel_count() == 0 <==> r is Err,
        r is Err ==> r == Err::<Vec<Panel>, ProcError>(ProcError::EmptyImage),
        r matches Ok(panels) ==> plane_equalization_panels(panels@, &image, plane.data@),
{
    proof {
        lemma_auto_scale_zero(&image);
    }
    let eq = match histogram_equalize(&plane) {
        Ok(e) => e,
        Err(e) => {
            return Err(e);
        },
    };
    assert(eq.data@ =~= equalized(plane.data@));
    let chart = match color_chart(&image, None) {
        Ok(c) => c,
        Err(e) => {
            return Err(e);
        },
    };
    let plane_chart = match gray_chart(&plane, Some(chart.scale)) {
        Ok(c) => c,
        Err(e) => {
            return Err(e);
        },
    };
    let eq_chart = match gray_chart(&eq, Some(chart.scale)) {
        Ok(c) => c,
        Err(e) => {
            return Err(e);
        },
    };
    let mut panels: Vec<Panel> = Vec::new();
    panels.push(Panel::Picture(image));
    panels.push(Panel::Picture(plane));
    panels.push(Panel::Picture(eq));
    panels.push(Panel::Chart(chart));
    panels.push(Panel::Chart(plane_chart));
    panels.push(Panel::Chart(eq_chart));
    Ok(panels)
}

/// Panels of colour equalization in a coded space: the before/after view of
/// the image decoded back from its coding with the brightness channel `k`
/// equalized.
pub open spec fn color_equalization_panels(
    panels: Seq<Panel>,
    image: &Image,
    enc: Transform,
    dec: Transform,
    k: int,
) -> bool {
    exists|coded: Image, eq: Image, back: Image|
        {
            &&& transformed(image, &coded, enc)
            &&& channel_equalized(&coded, &eq, k)
            &&& transformed(&eq, &back, dec)
            &&& before_after_panels(panels, image, &back)
        }
}

/// Equalizes an image in a colour space with an integer codec: encode,
/// equalize the brightness channel, keep the others, decode. An error for
/// an image without pixels.
pub fn equalize_color(image: Image, space: ColorSpace) -> (r: Result<Vec<Panel>, ProcError>)
    requires
        image.wf(),
        image.channels >= 3,
        space.has_codec(),
    ensures
        image.pixel_count() == 0 <==> r is Err,
        r is Err ==> r == Err::<Vec<Panel>, ProcError>(ProcError::EmptyImage),
        r matches Ok(panels) ==> color_equalization_panels(
            panels@,
            &image,
            space.encoder(),
            space.decoder(),
            space.brightness(),
        ),
{
    let (enc, dec) = match space {
        ColorSpace::Hsv => (Transform::HsvEncode, Transform::HsvDecode),
        ColorSpace::Hsl => (Transform::HslEncode, Transform::HslDecode),
        _ => (Transform::YuvEncode, Transform::YuvDecode),
    };
    let coded = apply_transform(&image, enc);
    let eq = match equalize_channel(&coded, space.brightness_channel()) {
        Ok(e) => e,
        Err(e) => {
            return Err(e);
        },
    };
    let back = apply_transform(&eq, dec);
    let ghost back_view = back;
    let r = before_after(image, back);
    proof {
        if r is Ok {
            assert(transformed(&image, &coded, enc) && channel_equalized(&coded, &eq, space.brightness())
                && transformed(&eq, &back_view, dec) && before_after_panels(r->Ok_0@, &image, &back_view));
        }
    }
    r
}

/// Panels of per-channel equalization: the before/after view of the image
/// with red, green and blue each equalized on its own histogram and alpha
/// kept.
pub open spec fn per_channel_panels(panels: Seq<Panel>, image: &Image) -> bool {
    exists|out: Image|
        {
            &&& out.wf()
            &&& out.same_shape(image)
            &&& forall|p: int, j: int|
                0 <= p < image.pixel_count() && 0 <= j < image.channels ==> #[trigger] out.sample(p, j)
                    == if j < 3 {
                    equalized(image.plane(j))[p]
                } else {
                    image.sample(p, j)
                }
            &&& before_after_panels(panels, image, &out)
        }
}

/// Equalizes the red, green and blue channels of an image each on its own
/// histogram, keeping alpha. An error for an image without pixels.
pub fn equalize_rgb(image: Image) -> (r: Result<Vec<Panel>, ProcError>)
    requires
        image.wf(),
        image.channels >= 3,
    ensures
        image.pixel_count() == 0 <==> r is Err,
        r is Err ==> r == Err::<Vec<Panel>, ProcError>(ProcError::EmptyImage),
        r matches Ok(panels) ==> per_channel_panels(panels@, &image),
{
    let e0 = match equalize_channel(&image, 0) {
        Ok(e) => e,
        Err(e) => {
            return Err(e);
        },
    };
    let e1 = match equalize_channel(&e0, 1) {
        Ok(e) => e,
        Err(e) => {
            return Err(e);
        },
    };
    let e2 = match equalize_channel(&e1, 2) {
        Ok(e) => e,
        Err(e) => {
            return Err(e);
        },
    };
    assert(e0.plane(1) =~= image.plane(1));
    assert(e1.plane(2) =~= image.plane(2));
    let ghost out = e2;
    assert forall|p: int, j: int| 0 <= p < image.pixel_count() && 0 <= j < image.channels implies #[trigger]
        out.sample(p, j) == if j < 3 {
        equalized(image.plane(j))[p]
    } else {
        image.sample(p, j)
    } by {
        assert(e2.sample(p, j) == if j == 2 {
            equalized(e1.plane(2))[p]
        } else {
            e1.sample(p, j)
        });
        assert(e1.sample(p, j) == if j == 1 {
            equalized(e0.plane(1))[p]
        } else {
            e0.sample(p, j)
        });
        assert(e0.sample(p, j) == if j == 0 {
            equalized(image.plane(0))[p]
        } else {
            image.sample(p, j)
        });
    }
    before_after(image, e2)
}

/// Buffer index `i` of the colour-inverted image.
spec fn inverted_at(img: &Image, i: int) -> u8 {
    if i % (img.channels as int) < 3 {
        (255 - img.data@[i]) as u8
    } else {
        img.data@[i]
    }
}

/// Every colour sample `v` becomes `255 - v`; alpha is kept.
pub fn invert_colors(img: &Image) -> (out: Image)
    requires
        img.wf(),
        img.channels >= 3,
    ensures
        out.wf(),
        out.same_shape(img),
        forall|p: int, j: int|
            0 <= p < img.pixel_count() && 0 <= j < img.channels ==> #[trigger] out.sample(p, j) == if j
                < 3 {
                (255 - img.sample(p, j)) as u8
            } else {
                img.sample(p, j)
            },
{
    let n = img.data.len();
    let c = img.channels;
    let ghost np = img.pixel_count();
    let mut data: Vec<u8> = Vec::new();
    let mut i: usize = 0;
    while i < n
        invariant
            img.wf(),
            img.channels == c,
            n == img.data@.len(),
            n == np * c,
            np == img.pixel_count(),
            i <= n,
            data@.len() == i,
            forall|j: int| 0 <= j < i ==> #[trigger] data@[j] == inverted_at(img, j),
        decreases n - i,
    {
        let v = img.data[i];
        data.push(if i % c < 3 { 255 - v } else { v });
        i = i + 1;
    }
    let out = Image { width: img.width, height: img.height, channels: c, data };
    assert forall|p: int, j: int| 0 <= p < img.pixel_count() && 0 <= j < img.channels implies #[trigger]
        out.sample(p, j) == if j < 3 {
        (255 - img.sample(p, j)) as u8
    } else {
        img.sample(p, j)
    } by {
        crate::raster::lemma_sample_index(p, j, np, c as int);
        crate::raster::lemma_sample_position(p, j, c as int);
        assert(out.sample(p, j) == inverted_at(img, p * c + j));
    }
    out
}

/// The inversion view: the before/after view of the colour-inverted image.
/// An error for an image without pixels.
pub fn invert(image: Image) -> (r: Result<Vec<Panel>, ProcError>)
    requires
        image.wf(),
        image.channels >= 3,
    ensures
        image.pixel_count() == 0 <==> r is Err,
        r is Err ==> r == Err::<Vec<Panel>, ProcError>(ProcError::EmptyImage),
        r matches Ok(panels) ==> exists|out: Image|
            {
                &&& out.wf()
                &&& out.same_shape(&image)
                &&& forall|p: int, j: int|
                    0 <= p < image.pixel_count() && 0 <= j < image.channels ==> #[trigger] out.sample(
                        p,
                        j,
                    ) == if j < 3 {
                        (255 - image.sample(p, j)) as u8
                    } else {
                        image.sample(p, j)
                    }
                &&& before_after_panels(panels@, &image, &out)
            },
{
    let out = invert_colors(&image);
    let ghost out_view = out;
    let r = before_after(image, out);
    proof {
        if r is Ok {
            assert(before_after_panels(r->Ok_0@, &image, &out_view));
        }
    }
    r
}

/// Panels of the grayscale view of a coded image: the image, the coded image,
/// one gray image per colour channel of the coding, and the image decoded
/// back, if any.
pub open spec fn coded_panels(panels: Seq<Panel>, image: &Image, coded: &Image, recovered: Option<Image>) -> bool {
    let m = crate::raster::color_channels(coded.channels as int);
    &&& panels.len() == 2 + m + if recovered is Some {
        1int
    } else {
        0int
    }
    &&& shows(panels[0], image)
    &&& shows(panels[1], coded)
    &&& forall|k: int| 0 <= k < m ==> shows_gray(#[trigger] panels[2 + k], coded, coded.plane(k))
    &&& recovered matches Some(rec) ==> shows(panels[2 + m], &rec)
}

/// The grayscale view of an image coded in some colour space: the image,
/// its coding, the coding's planes as gray images, and the decoded image.
pub fn grayscale_coded(image: Image, coded: Image, recovered: Option<Image>) -> (panels: Vec<Panel>)
    requires
        image.wf(),
        coded.wf(),
    ensures
        coded_panels(panels@, &image, &coded, recovered),
{
    let m: usize = if coded.channels == 4 {
        3
    } else {
        coded.channels
    };
    let mut plane_panels: Vec<Panel> = Vec::new();
    let mut k: usize = 0;
    while k < m
        invariant
            coded.wf(),
            m == crate::raster::color_channels(coded.channels as int),
            k <= m,
            plane_panels@.len() == k,
            forall|j: int| 0 <= j < k ==> shows_gray(#[trigger] plane_panels@[j], &coded, coded.plane(j)),
        decreases m - k,
    {
        plane_panels.push(Panel::Picture(extract_plane(&coded, k)));
        k = k + 1;
    }
    let ghost coded_view = coded;
    let ghost pp = plane_panels@;
    let mut panels: Vec<Panel> = Vec::new();
    panels.push(Panel::Picture(image));
    panels.push(Panel::Picture(coded));
    panels.append(&mut plane_panels);
    match recovered {
        Some(rec) => panels.push(Panel::Picture(rec)),
        None => {},
    }
    assert forall|j: int| 0 <= j < m implies shows_gray(#[trigger] panels@[2 + j], &coded_view, coded_view.plane(j)) by {
        assert(panels@[2 + j] == pp[j]);
    }
    panels
}

/// The grayscale view of an image of any channel count; the coded spaces
/// need colour channels. With no colour space: the image and its luma. With
/// RGB: the image, itself as the coding, and its channel planes. With a
/// coded space: the image, its coding, the coding's planes, and the image
/// decoded back. HSI is coded outside this library; its view is built with
/// `grayscale_coded`.
pub fn grayscale(image: Image, color_space: Option<ColorSpace>) -> (panels: Vec<Panel>)
    requires
        image.wf(),
        color_space != Some(ColorSpace::Hsi),
        color_space matches Some(s) ==> (s.has_codec() ==> image.channels >= 3),
    ensures
        color_space is None ==> panels@.len() == 2 && shows(panels@[0], &image) && shows_luma(
            panels@[1],
            &image,
        ),
        color_space == Some(ColorSpace::Rgb) ==> coded_panels(panels@, &image, &image, None),
        color_space matches Some(s) ==> (s.has_codec() ==> exists|coded: Image, rec: Image|
            {
                &&& transformed(&image, &coded, s.encoder())
                &&& transformed(&coded, &rec, s.decoder())
                &&& coded_panels(panels@, &image, &coded, Some(rec))
            }),
{
    match color_space {
        None => {
            let gray = to_luma8(&image);
            assert(gray.data@ =~= luma_plane(&image));
            let mut panels: Vec<Panel> = Vec::new();
            panels.push(Panel::Picture(image));
            panels.push(Panel::Picture(gray));
            panels
        },
        Some(ColorSpace::Rgb) => {
            let coded = copy_image(&image);
            let ghost image_view = image;
            let ghost coded_view = coded;
            let panels = grayscale_coded(image, coded, None);
            assert forall|k: int| 0 <= k < 4 implies #[trigger] coded_view.plane(k) == image_view.plane(k) by {
                assert(coded_view.plane(k) =~= image_view.plane(k));
            }
            assert(coded_panels(panels@, &image_view, &image_view, None));
            panels
        },
        Some(s) => {
            let (enc, dec) = match s {
                ColorSpace::Hsv => (Transform::HsvEncode, Transform::HsvDecode),
                ColorSpace::Hsl => (Transform::HslEncode, Transform::HslDecode),
                _ => (Transform::YuvEncode, Transform::YuvDecode),
            };
            let coded = apply_transform(&image, enc);
            let rec = apply_transform(&coded, dec);
            let ghost (image_view, coded_view, rec_view) = (image, coded, rec);
            let panels = grayscale_coded(image, coded, Some(rec));
            assert(transformed(&image_view, &coded_view, s.encoder()) && transformed(
                &coded_view,
                &rec_view,
                s.decoder(),
            ) && coded_panels(panels@, &image_view, &coded_view, Some(rec_view)));
            panels
        },
    }
}

/// The modes whose colour space is coded outside this library.
pub open spec fn needs_outside_codec(m: EqualizeMode) -> bool {
    m == EqualizeMode::Plane(ColorSpace::Hsi) || m == EqualizeMode::Color(ColorSpace::Hsi)
}

/// Histogram equalization of an image, by the mode that the colour space and
/// the target select. Modes that work in HSI are built from
/// `equalize_plane`, `equalize_channel` and `before_after` around an outside
/// HSI codec. An error for an image without pixels.
pub fn equalize(image: Image, grayscale_only: bool, color_space: Option<ColorSpace>) -> (r: Result<
    Vec<Panel>,
    ProcError,
>)
    requires
        image.wf(),
        image.channels >= 3,
        !needs_outside_codec(mode_of(grayscale_only, color_space)),
    ensures
        image.pixel_count() == 0 <==> r is Err,
        r is Err ==> r == Err::<Vec<Panel>, ProcError>(ProcError::EmptyImage),
        r matches Ok(panels) ==> match mode_of(grayscale_only, color_space) {
            EqualizeMode::Luma => luma_equalization_panels(panels@, &image),
            EqualizeMode::Plane(s) => exists|coded: Image|
                transformed(&image, &coded, s.encoder()) && plane_equalization_panels(
                    panels@,
                    &image,
                    coded.plane(s.brightness()),
                ),
            EqualizeMode::Color(s) => color_equalization_panels(
                panels@,
                &image,
                s.encoder(),
                s.decoder(),
                s.brightness(),
            ),
            EqualizeMode::PerChannel => per_channel_panels(panels@, &image),
        },
{
    match equalize_mode(grayscale_only, color_space) {
        EqualizeMode::Luma => equalize_luma(image),
        EqualizeMode::Plane(s) => {
            let enc = match s {
                ColorSpace::Hsv => Transform::HsvEncode,
                _ => Transform::HslEncode,
            };
            let coded = apply_transform(&image, enc);
            let plane = extract_plane(&coded, 2);
            let ghost image_view = image;
            let r = equalize_plane(image, plane);
            proof {
                if r is Ok {
                    assert(transformed(&image_view, &coded, s.encoder()) && plane_equalization_panels(
                        r->Ok_0@,
                        &image_view,
                        coded.plane(s.brightness()),
                    ));
                }
            }
            r
        },
        EqualizeMode::Color(s) => equalize_color(image, s),
        EqualizeMode::PerChannel => equalize_rgb(image),
    }
}

} // verus!
