//! The in-memory raster: row-major, channel-interleaved, 8 bits per channel.
use vstd::prelude::*;

verus! {

/// A width × height grid of pixels with 1 (gray), 3 (RGB) or 4 (RGBA) channels.
/// Sample `k` of pixel `p` (counted row by row) is `data[p * channels + k]`.
#[derive(Debug)]
pub struct Image {
    pub width: usize,
    pub height: usize,
    pub channels: usize,
    pub data: Vec<u8>,
}

/// Why an operation refused its input.
#[derive(Clone, Copy, Debug, PartialEq, Eq)]
pub enum ProcError {
    /// The image has no pixels, so no average or distribution exists.
    EmptyImage,
    /// A histogram scale of 0 was given.
    ZeroScale,
    /// The colour-space name is not one of `rgb`, `hsv`, `hsl`, `hsi`, `yuv`.
    UnknownColorSpace,
}

/// The channel counts an image may have.
pub open spec fn valid_channels(c: int) -> bool {
    c == 1 || c == 3 || c == 4
}

/// Index and bound facts for sample `k` of pixel `p` in a buffer of `n` pixels.
pub proof fn lemma_sample_index(p: int, k: int, n: int, c: int)
    requires
        0 <= p < n,
        0 <= k < c,
    ensures
        0 <= p * c,
        p * c + k < n * c,
        p * c + c <= n * c,
{
    assert(0 <= p * c) by (nonlinear_arith)
        requires
            0 <= p,
            0 <= k < c,
    ;
    assert(p * c + c <= n * c) by (nonlinear_arith)
        requires
            0 <= p < n,
            0 <= k < c,
    ;
}

/// Sample `k` of pixel `p` sits at index `p * c + k`, and that index names
/// them back.
pub proof fn lemma_sample_position(p: int, k: int, c: int)
    requires
        0 <= p,
        0 <= k < c,
    ensures
        (p * c + k) / c == p,
        (p * c + k) % c == k,
{
    vstd::arithmetic::div_mod::lemma_fundamental_div_mod_converse(p * c + k, c, p, k);
}

impl Image {
    /// Number of pixels.
    pub open spec fn pixel_count(&self) -> int {
        self.width * self.height
    }

    /// The buffer holds exactly one sample per pixel and channel.
    pub open spec fn wf(&self) -> bool {
        &&& valid_channels(self.channels as int)
        &&& self.data@.len() == self.width * self.height * self.channels
    }

    /// Sample `k` of pixel `p`.
    pub open spec fn sample(&self, p: int, k: int) -> u8 {
        self.data@[p * self.channels + k]
    }

    /// Channel `k` as a sequence of one sample per pixel.
    pub open spec fn plane(&self, k: int) -> Seq<u8> {
        Seq::new(self.pixel_count() as nat, |p: int| self.sample(p, k))
    }

    /// Two images have the same width, height and channel count.
    pub open spec fn same_shape(&self, o: &Image) -> bool {
        &&& self.width == o.width
        &&& self.height == o.height
        &&& self.channels == o.channels
    }

    /// Builds an image from its parts; `None` unless the channel count is 1, 3
    /// or 4 and the buffer length is width × height × channels.
    pub fn new(width: usize, height: usize, channels: usize, data: Vec<u8>) -> (r: Option<Image>)
        ensures
            r is Some <==> valid_channels(channels as int) && data@.len() == width * height * channels,
            r matches Some(img) ==> img.width == width && img.height == height && img.channels == channels
                && img.data@ == data@,
    {
        if !(channels == 1 || channels == 3 || channels == 4) {
            return None;
        }
        let len = data.len();
        if width == 0 || height == 0 {
            if len == 0 {
                assert(width * height * channels == 0) by (nonlinear_arith)
                    requires
                        width == 0 || height == 0,
                ;
                return Some(Image { width, height, channels, data });
            }
            assert(width * height * channels == 0) by (nonlinear_arith)
                requires
                    width == 0 || height == 0,
            ;
            return None;
        }
        // width * height * channels is compared without overflowing
        if width > len / height {
            proof {
                assert(width * height * channels > len) by (nonlinear_arith)
                    requires
                        width > len / height,
                        height > 0,
                        channels >= 1,
                ;
            }
            return None;
        }
        proof {
            assert(width * height <= len) by (nonlinear_arith)
                requires
                    width <= len / height,
                    height > 0,
            ;
        }
        let wh = width * height;
        if wh > len / channels {
            proof {
                assert(wh * channels > len) by (nonlinear_arith)
                    requires
                        wh > len / channels,
                        channels > 0,
                ;
                assert(width * height * channels == wh * channels);
            }
            return None;
        }
        proof {
            assert(wh * channels <= len) by (nonlinear_arith)
                requires
                    wh <= len / channels,
                    channels > 0,
            ;
        }
        if wh * channels != len {
            return None;
        }
        Some(Image { width, height, channels, data })
    }

    /// Number of pixels, computed from the buffer.
    pub fn pixels(&self) -> (n: usize)
        requires
            self.wf(),
        ensures
            n == self.pixel_count(),
    {
        let c = self.channels;
        proof {
            let wh = self.width * self.height;
            assert((wh * c) / (c as int) == wh) by (nonlinear_arith)
                requires
                    c > 0,
                    wh >= 0,
            ;
        }
        self.data.len() / c
    }
}

/// Number of colour (non-alpha) channels.
pub open spec fn color_channels(c: int) -> int {
    if c == 4 {
        3
    } else {
        c
    }
}

/// Channel `k` of `img` as an independent gray image of the same size.
pub fn extract_plane(img: &Image, k: usize) -> (out: Image)
    requires
        img.wf(),
        k < img.channels,
    ensures
        out.wf(),
        out.channels == 1,
        out.width == img.width,
        out.height == img.height,
        out.data@ == img.plane(k as int),
{
    let n = img.pixels();
    let c = img.channels;
    let len = img.data.len();
    let mut data: Vec<u8> = Vec::new();
    let mut p: usize = 0;
    while p < n
        invariant
            img.wf(),
            len == img.data@.len(),
            img.channels == c,
            k < c,
            n == img.pixel_count(),
            img.data@.len() == n * c,
            p <= n,
            data@.len() == p,
            forall|q: int| 0 <= q < p ==> #[trigger] data@[q] == img.sample(q, k as int),
        decreases n - p,
    {
        proof {
            lemma_sample_index(p as int, k as int, n as int, c as int);
        }
        data.push(img.data[p * c + k]);
        p = p + 1;
    }
    assert(data@ =~= img.plane(k as int));
    Image { width: img.width, height: img.height, channels: 1, data }
}

/// `q` is a gray image of the given size.
pub open spec fn is_gray_of_size(q: &Image, width: usize, height: usize) -> bool {
    q.wf() && q.channels == 1 && q.width == width && q.height == height
}

/// `planes` holds one gray image per colour channel of `img`, in channel
/// order, each a copy of that channel.
pub open spec fn is_split(img: &Image, planes: Seq<Image>) -> bool {
    &&& planes.len() == color_channels(img.channels as int)
    &&& forall|k: int|
        #![trigger planes[k]]
        0 <= k < planes.len() ==> is_gray_of_size(&planes[k], img.width, img.height) && planes[k].data@
            == img.plane(k)
}

/// Splits an image into one gray image per colour channel, in channel order;
/// an alpha channel is left out.
pub fn split_planes(img: &Image) -> (planes: Vec<Image>)
    requires
        img.wf(),
    ensures
        is_split(img, planes@),
{
    let m = if img.channels == 4 {
        3
    } else {
        img.channels
    };
    let mut planes: Vec<Image> = Vec::new();
    let mut k: usize = 0;
    while k < m
        invariant
            img.wf(),
            m == color_channels(img.channels as int),
            k <= m,
            planes@.len() == k,
            forall|j: int|
                0 <= j < k ==> {
                    let q = #[trigger] planes@[j];
                    &&& q.wf()
                    &&& q.channels == 1
                    &&& q.width == img.width
                    &&& q.height == img.height
                    &&& q.data@ == img.plane(j)
                },
        decreases m - k,
    {
        planes.push(extract_plane(img, k));
        k = k + 1;
    }
    planes
}

/// Buffer index `i` of `img` with channel `k` taken from `plane`.
spec fn replaced_at(img: &Image, k: int, plane: &Image, i: int) -> u8 {
    if i % (img.channels as int) == k {
        plane.data@[i / (img.channels as int)]
    } else {
        img.data@[i]
    }
}

/// A fresh image equal to `img` except that channel `k` of every pixel is
/// the corresponding sample of the gray image `plane`.
pub fn replace_channel(img: &Image, k: usize, plane: &Image) -> (out: Image)
    requires
        img.wf(),
        k < img.channels,
        plane.wf(),
        plane.channels == 1,
        plane.width == img.width,
        plane.height == img.height,
    ensures
        out.wf(),
        out.same_shape(img),
        forall|p: int, j: int|
            0 <= p < img.pixel_count() && 0 <= j < img.channels ==> #[trigger] out.sample(p, j) == if j
                == k {
                plane.data@[p]
            } else {
                img.sample(p, j)
            },
{
    let n = img.data.len();
    let c = img.channels;
    let ghost np = img.pixel_count();
    let mut data: Vec<u8> = Vec::new();
    let mut i: usize = 0;
    while i < n
        invariant
            img.wf(),
            plane.wf(),
            plane.channels == 1,
            plane.width == img.width,
            plane.height == img.height,
            img.channels == c,
            np == img.pixel_count(),
            n == img.data@.len(),
            n == np * c,
            i <= n,
            data@.len() == i,
            forall|j: int| 0 <= j < i ==> #[trigger] data@[j] == replaced_at(img, k as int, plane, j),
        decreases n - i,
    {
        let v = if i % c == k {
            proof {
                vstd::arithmetic::div_mod::lemma_fundamental_div_mod(i as int, c as int);
                vstd::arithmetic::div_mod::lemma_mod_pos_bound(i as int, c as int);
                assert((i as int) / (c as int) < np) by (nonlinear_arith)
                    requires
                        i == c * (i / c) + i % c,
                        0 <= i % c,
                        i < np * c,
                        c > 0,
                ;
            }
            plane.data[i / c]
        } else {
            img.data[i]
        };
        data.push(v);
        i = i + 1;
    }
    let out = Image { width: img.width, height: img.height, channels: c, data };
    assert forall|p: int, j: int| 0 <= p < img.pixel_count() && 0 <= j < img.channels implies #[trigger]
        out.sample(p, j) == if j == k {
        plane.data@[p]
    } else {
        img.sample(p, j)
    } by {
        lemma_sample_index(p, j, np, c as int);
        lemma_sample_position(p, j, c as int);
        assert(out.sample(p, j) == replaced_at(img, k as int, plane, p * c + j));
    }
    out
}

/// Planes that can be recombined: one gray plane, or three of one size, the
/// latter optionally with an alpha plane of that size.
pub open spec fn recombinable(planes: Seq<Image>, alpha: Option<Image>) -> bool {
    &&& planes.len() == 1 || planes.len() == 3
    &&& forall|k: int|
        #![trigger planes[k]]
        0 <= k < planes.len() ==> is_gray_of_size(&planes[k], planes[0].width, planes[0].height)
    &&& alpha matches Some(a) ==> (planes.len() == 3 && is_gray_of_size(&a, planes[0].width, planes[0].height))
}

/// `out` interleaves `planes`, and `alpha` if given, as its channels.
pub open spec fn is_recombination(planes: Seq<Image>, alpha: Option<Image>, out: &Image) -> bool {
    &&& out.wf()
    &&& out.width == planes[0].width
    &&& out.height == planes[0].height
    &&& out.channels == planes.len() + if alpha is Some {
        1int
    } else {
        0int
    }
    &&& forall|p: int, k: int|
        0 <= p < out.pixel_count() && 0 <= k < planes.len() ==> #[trigger] out.sample(p, k)
            == planes[k].data@[p]
    &&& alpha matches Some(a) ==> forall|p: int| 0 <= p < out.pixel_count() ==> #[trigger] out.sample(p, 3) == a.data@[p]
}

/// The image an optional reference points to.
pub open spec fn owned(alpha: Option<&Image>) -> Option<Image> {
    match alpha {
        Some(a) => Some(*a),
        None => None,
    }
}

/// Buffer index `i` of the recombined image with `c` channels.
spec fn recombined_at(planes: Seq<Image>, alpha: Option<Image>, c: int, i: int) -> u8 {
    if i % c < planes.len() {
        planes[i % c].data@[i / c]
    } else {
        alpha->Some_0.data@[i / c]
    }
}

/// Builds a fresh multi-channel image from gray planes, one channel per
/// plane in order, followed by the alpha plane if one is given.
pub fn recombine(planes: &Vec<Image>, alpha: Option<&Image>) -> (out: Image)
    requires
        recombinable(planes@, owned(alpha)),
    ensures
        is_recombination(planes@, owned(alpha), &out),
{
    let ghost al = owned(alpha);
    let m = planes.len();
    let c: usize = match alpha {
        Some(_) => m + 1,
        None => m,
    };
    let width = planes[0].width;
    let height = planes[0].height;
    let np = planes[0].data.len();
    let ghost n = width * height;
    proof {
        assert(is_gray_of_size(&planes@[0], width, height));
        assert(np == n);
        assert forall|k: int| 0 <= k < m implies (#[trigger] planes@[k]).data@.len() == n by {
            assert(is_gray_of_size(&planes@[k], width, height));
        }
    }
    let mut data: Vec<u8> = Vec::new();
    let mut p: usize = 0;
    while p < np
        invariant
            recombinable(planes@, al),
            al == owned(alpha),
            m == planes@.len(),
            c == m + if al is Some {
                1int
            } else {
                0int
            },
            width == planes@[0].width,
            height == planes@[0].height,
            np == n,
            n == width * height,
            forall|k: int| 0 <= k < m ==> (#[trigger] planes@[k]).data@.len() == n,
            p <= np,
            data@.len() == p * c,
            forall|j: int| 0 <= j < data@.len() ==> #[trigger] data@[j] == recombined_at(planes@, al, c as int, j),
        decreases np - p,
    {
        let mut k: usize = 0;
        while k < c
            invariant
                recombinable(planes@, al),
                al == owned(alpha),
                m == planes@.len(),
                c == m + if al is Some {
                    1int
                } else {
                    0int
                },
                width == planes@[0].width,
                height == planes@[0].height,
                n == width * height,
                forall|k: int| 0 <= k < m ==> (#[trigger] planes@[k]).data@.len() == n,
                p < np,
                np == n,
                k <= c,
                data@.len() == p * c + k,
                forall|j: int| 0 <= j < data@.len() ==> #[trigger] data@[j] == recombined_at(planes@, al, c as int, j),
            decreases c - k,
        {
            proof {
                lemma_sample_position(p as int, k as int, c as int);
            }
            let v = if k < m {
                planes[k].data[p]
            } else {
                match alpha {
                    Some(a) => a.data[p],
                    None => 0,
                }
            };
            data.push(v);
            k = k + 1;
        }
        assert(data@.len() == (p + 1) * c) by (nonlinear_arith)
            requires
                data@.len() == p * c + c,
        ;
        p = p + 1;
    }
    proof {
        assert(data@.len() == n * c);
        assert(n * c == width * height * c);
    }
    let out = Image { width, height, channels: c, data };
    assert forall|q: int, k: int| 0 <= q < out.pixel_count() && 0 <= k < planes@.len() implies #[trigger] out.sample(q, k)
        == planes@[k].data@[q] by {
        lemma_sample_index(q, k, n, c as int);
        lemma_sample_position(q, k, c as int);
        assert(out.sample(q, k) == recombined_at(planes@, al, c as int, q * c + k));
    }
    if alpha.is_some() {
        assert forall|q: int| 0 <= q < out.pixel_count() implies #[trigger] out.sample(q, 3) == al->Some_0.data@[q] by {
            lemma_sample_index(q, 3, n, c as int);
            lemma_sample_position(q, 3, c as int);
            assert(out.sample(q, 3) == recombined_at(planes@, al, c as int, q * c + 3));
        }
    }
    out
}

/// Splitting a colour image into its planes and recombining them, with its
/// alpha plane if it has one, gives back the same image.
pub proof fn lemma_split_recombine(img: &Image, planes: Seq<Image>, alpha: Option<Image>, out: &Image)
    requires
        img.wf(),
        img.channels >= 3,
        is_split(img, planes),
        img.channels == 4 ==> (alpha matches Some(a) && a.data@ == img.plane(3)),
        img.channels == 3 ==> alpha is None,
        is_recombination(planes, alpha, out),
    ensures
        out.same_shape(img),
        out.data@ == img.data@,
{
    let c = img.channels as int;
    let n = img.pixel_count();
    assert forall|i: int| 0 <= i < img.data@.len() implies out.data@[i] == img.data@[i] by {
        let p = i / c;
        let k = i % c;
        vstd::arithmetic::div_mod::lemma_fundamental_div_mod(i, c);
        vstd::arithmetic::div_mod::lemma_mod_pos_bound(i, c);
        assert(p < n) by (nonlinear_arith)
            requires
                i == c * p + k,
                0 <= k,
                i < n * c,
                c > 0,
        ;
        assert(p >= 0) by (nonlinear_arith)
            requires
                i == c * p + k,
                0 <= i,
                k < c,
                c > 0,
        ;
        assert(i == p * c + k) by (nonlinear_arith)
            requires
                i == c * p + k,
        ;
        assert(planes.len() == 3);
        assert(is_gray_of_size(&planes[0], img.width, img.height));
        assert(out.pixel_count() == n);
        if k < 3 {
            assert(is_gray_of_size(&planes[k], img.width, img.height) && planes[k].data@ == img.plane(k));
            assert(out.sample(p, k) == planes[k].data@[p]);
        } else {
            assert(out.sample(p, 3) == alpha->Some_0.data@[p]);
        }
    }
    assert(out.data@ =~= img.data@);
}

} // verus!
