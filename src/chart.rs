//! Bar heights of histogram charts: a 512 × 512 canvas with four bands of
//! 127 pixels (red, green, blue, gray from top to bottom), two canvas pixels
//! per level, every band on one common scale.
use vstd::prelude::*;

use crate::gray::{gray_of, is_gray, to_luma8};
use crate::histogram::{
    bins_view, histogram_of, is_histogram, lemma_histogram_conservation, lemma_prefix_nonneg,
    level_histogram, prefix_sum,
};
use crate::raster::{extract_plane, Image, ProcError};

verus! {

/// Height in canvas pixels of one band.
pub const BAND_HEIGHT: u64 = 127;

/// Slot of the gray (luma) band; slots 0, 1, 2 hold red, green and blue.
pub const GRAY_SLOT: usize = 3;

/// Height of the bar of a bin holding `count` samples when a bin of `scale`
/// samples fills the band: `count × 127 / scale`, rounded to nearest.
pub open spec fn bar_height(count: int, scale: int) -> int {
    (count * 127 + scale / 2) / scale
}

/// The largest of the first `m` entries of `h` (0 when `m` is 0).
pub open spec fn max_bin(h: Seq<int>, m: int) -> int
    decreases m,
{
    if m <= 0 {
        0
    } else if h[m - 1] > max_bin(h, m - 1) {
        h[m - 1]
    } else {
        max_bin(h, m - 1)
    }
}

/// The luma of every pixel of `img`, in pixel order.
pub open spec fn luma_plane(img: &Image) -> Seq<u8> {
    Seq::new(img.pixel_count() as nat, |p: int| gray_of(img, p) as u8)
}

/// A histogram's tallest bin is 0 exactly when the histogram is empty.
pub proof fn lemma_max_bin_zero(h: Seq<int>, m: int)
    requires
        is_histogram(h),
        0 <= m <= 256,
    ensures
        max_bin(h, m) >= 0,
        (max_bin(h, m) == 0) == (prefix_sum(h, m) == 0),
    decreases m,
{
    if m > 0 {
        lemma_max_bin_zero(h, m - 1);
        lemma_prefix_nonneg(h, m - 1);
    }
}

/// The automatic scale of a colour image's chart is 0 exactly when the image
/// has no pixels.
pub proof fn lemma_auto_scale_zero(img: &Image)
    requires
        img.wf(),
        img.channels >= 3,
    ensures
        auto_scale(img) >= 0,
        (auto_scale(img) == 0) == (img.pixel_count() == 0),
{
    lemma_histogram_conservation(img.plane(0));
    lemma_histogram_conservation(img.plane(1));
    lemma_histogram_conservation(img.plane(2));
    lemma_histogram_conservation(luma_plane(img));
    lemma_max_bin_zero(slot_histogram(img, 0), 256);
    lemma_max_bin_zero(slot_histogram(img, 1), 256);
    lemma_max_bin_zero(slot_histogram(img, 2), 256);
    lemma_max_bin_zero(slot_histogram(img, 3), 256);
    assert(max_bin(slot_histogram(img, 0), 256) >= 0);
    assert(max_bin(slot_histogram(img, 1), 256) >= 0);
    assert(max_bin(slot_histogram(img, 2), 256) >= 0);
    assert(max_bin(slot_histogram(img, 3), 256) >= 0);
}

/// One band of a chart: the slot it is drawn in and one bar height per level.
#[derive(Debug)]
pub struct Band {
    pub slot: usize,
    pub heights: Vec<u128>,
}

/// A histogram chart: its scale and its bands.
#[derive(Debug)]
pub struct Chart {
    pub scale: u64,
    pub bands: Vec<Band>,
}

/// `b` is the band of histogram `h` in `slot` at `scale`.
pub open spec fn band_of(b: Band, slot: int, h: Seq<int>, scale: int) -> bool {
    &&& b.slot == slot
    &&& b.heights@.len() == 256
    &&& forall|v: int| 0 <= v < 256 ==> #[trigger] b.heights@[v] as int == bar_height(h[v], scale)
}

/// The bar heights of a histogram at the given scale.
pub fn bar_heights(bins: &Vec<u64>, scale: u64) -> (heights: Vec<u128>)
    requires
        bins@.len() == 256,
        scale > 0,
    ensures
        heights@.len() == 256,
        forall|v: int| 0 <= v < 256 ==> #[trigger] heights@[v] as int == bar_height(bins@[v] as int, scale as int),
{
    let mut heights: Vec<u128> = Vec::new();
    let mut v: usize = 0;
    while v < 256
        invariant
            bins@.len() == 256,
            scale > 0,
            v <= 256,
            heights@.len() == v,
            forall|j: int| 0 <= j < v ==> #[trigger] heights@[j] as int == bar_height(bins@[j] as int, scale as int),
        decreases 256 - v,
    {
        let count = bins[v] as u128;
        let s = scale as u128;
        heights.push((count * 127 + s / 2) / s);
        v = v + 1;
    }
    heights
}

/// The largest bin of a histogram.
pub fn peak(bins: &Vec<u64>) -> (m: u64)
    requires
        bins@.len() == 256,
    ensures
        m as int == max_bin(bins_view(bins@), 256),
{
    let ghost h = bins_view(bins@);
    let mut m: u64 = 0;
    let mut v: usize = 0;
    while v < 256
        invariant
            bins@.len() == 256,
            h == bins_view(bins@),
            v <= 256,
            m as int == max_bin(h, v as int),
        decreases 256 - v,
    {
        if bins[v] > m {
            m = bins[v];
        }
        v = v + 1;
    }
    m
}

/// The histogram shown in each slot of the chart of a colour image.
pub open spec fn slot_histogram(img: &Image, slot: int) -> Seq<int> {
    if slot < 3 {
        histogram_of(img.plane(slot))
    } else {
        histogram_of(luma_plane(img))
    }
}

/// The automatic scale of a colour image's chart: its tallest bin in any
/// band.
pub open spec fn auto_scale(img: &Image) -> int {
    let a = max_bin(slot_histogram(img, 0), 256);
    let b = max_bin(slot_histogram(img, 1), 256);
    let c = max_bin(slot_histogram(img, 2), 256);
    let d = max_bin(slot_histogram(img, 3), 256);
    let ab = if a > b {
        a
    } else {
        b
    };
    let cd = if c > d {
        c
    } else {
        d
    };
    if ab > cd {
        ab
    } else {
        cd
    }
}

/// The scale a chart uses: the given one, else the automatic one.
pub open spec fn chosen_scale(given: Option<u64>, auto: int) -> int {
    match given {
        Some(s) => s as int,
        None => auto,
    }
}

/// The error for a scale of 0: a given 0, or an image without pixels.
pub open spec fn scale_error(given: Option<u64>) -> ProcError {
    if given is Some {
        ProcError::ZeroScale
    } else {
        ProcError::EmptyImage
    }
}

/// `c` is the four-band chart of the colour image `img` at `scale`.
pub open spec fn is_color_chart(c: &Chart, img: &Image, scale: int) -> bool {
    &&& c.scale == scale
    &&& c.bands@.len() == 4
    &&& forall|k: int| 0 <= k < 4 ==> band_of(#[trigger] c.bands@[k], k, slot_histogram(img, k), scale)
}

/// `c` is the one-band chart of the gray image `gray` at `scale`.
pub open spec fn is_gray_chart(c: &Chart, gray: &Image, scale: int) -> bool {
    &&& c.scale == scale
    &&& c.bands@.len() == 1
    &&& band_of(c.bands@[0], GRAY_SLOT as int, histogram_of(gray.data@), scale)
}

/// The chart of a colour image: red, green, blue and luma histograms on one
/// scale, the given one or else the tallest bin of the four.
pub fn color_chart(img: &Image, scale: Option<u64>) -> (r: Result<Chart, ProcError>)
    requires
        img.wf(),
        img.channels >= 3,
    ensures
        chosen_scale(scale, auto_scale(img)) == 0 <==> r is Err,
        r is Err ==> r == Err::<Chart, ProcError>(scale_error(scale)),
        r matches Ok(c) ==> is_color_chart(&c, img, chosen_scale(scale, auto_scale(img))),
{
    let mut hists: Vec<Vec<u64>> = Vec::new();
    let mut k: usize = 0;
    while k < 3
        invariant
            img.wf(),
            img.channels >= 3,
            k <= 3,
            hists@.len() == k,
            forall|j: int|
                0 <= j < k ==> (#[trigger] hists@[j])@.len() == 256 && bins_view(hists@[j]@)
                    == slot_histogram(img, j),
        decreases 3 - k,
    {
        let plane = extract_plane(img, k);
        hists.push(level_histogram(&plane));
        k = k + 1;
    }
    let luma = to_luma8(img);
    assert(luma.data@ =~= luma_plane(img));
    hists.push(level_histogram(&luma));
    let s = match scale {
        Some(s) => s,
        None => {
            let a = peak(&hists[0]);
            let b = peak(&hists[1]);
            let c = peak(&hists[2]);
            let d = peak(&hists[3]);
            let ab = if a > b {
                a
            } else {
                b
            };
            let cd = if c > d {
                c
            } else {
                d
            };
            if ab > cd {
                ab
            } else {
                cd
            }
        },
    };
    if s == 0 {
        return match scale {
            Some(_) => Err(ProcError::ZeroScale),
            None => Err(ProcError::EmptyImage),
        };
    }
    let mut bands: Vec<Band> = Vec::new();
    let mut k: usize = 0;
    while k < 4
        invariant
            hists@.len() == 4,
            forall|j: int|
                0 <= j < 4 ==> (#[trigger] hists@[j])@.len() == 256 && bins_view(hists@[j]@)
                    == slot_histogram(img, j),
            s > 0,
            k <= 4,
            bands@.len() == k,
            forall|j: int| 0 <= j < k ==> band_of(#[trigger] bands@[j], j, slot_histogram(img, j), s as int),
        decreases 4 - k,
    {
        let heights = bar_heights(&hists[k], s);
        proof {
            assert forall|v: int| 0 <= v < 256 implies #[trigger] heights@[v] as int == bar_height(
                slot_histogram(img, k as int)[v],
                s as int,
            ) by {
                assert(bins_view(hists@[k as int]@)[v] == hists@[k as int]@[v] as int);
            }
        }
        bands.push(Band { slot: k, heights });
        k = k + 1;
    }
    Ok(Chart { scale: s, bands })
}

/// The chart of a gray image: its histogram alone, in the gray slot, on the
/// given scale or else on its tallest bin.
pub fn gray_chart(gray: &Image, scale: Option<u64>) -> (r: Result<Chart, ProcError>)
    requires
        is_gray(gray),
    ensures
        chosen_scale(scale, max_bin(histogram_of(gray.data@), 256)) == 0 <==> r is Err,
        r is Err ==> r == Err::<
            Chart,
            ProcError,
        >(scale_error(scale)),
        r matches Ok(c) ==> is_gray_chart(&c, gray, chosen_scale(scale, max_bin(histogram_of(gray.data@), 256))),
{
    let bins = level_histogram(gray);
    let s = match scale {
        Some(s) => s,
        None => peak(&bins),
    };
    if s == 0 {
        return match scale {
            Some(_) => Err(ProcError::ZeroScale),
            None => Err(ProcError::EmptyImage),
        };
    }
    let heights = bar_heights(&bins, s);
    assert forall|v: int| 0 <= v < 256 implies #[trigger] heights@[v] as int == bar_height(
        histogram_of(gray.data@)[v],
        s as int,
    ) by {
        assert(bins_view(bins@)[v] == bins@[v] as int);
    }
    let mut bands: Vec<Band> = Vec::new();
    bands.push(Band { slot: GRAY_SLOT, heights });
    Ok(Chart { scale: s, bands })
}

} // verus!
