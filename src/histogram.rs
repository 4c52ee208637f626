//! 256-bin level histograms and histogram equalization.
use vstd::prelude::*;

use vstd::arithmetic::div_mod::{lemma_div_is_ordered, lemma_fundamental_div_mod, lemma_mod_pos_bound};

use crate::gray::is_gray;
use crate::raster::{Image, ProcError};

verus! {

/// Occurrences of level `v` among the first `n` entries of `s`.
pub open spec fn count(s: Seq<u8>, n: int, v: int) -> int
    decreases n,
{
    if n <= 0 {
        0
    } else {
        count(s, n - 1, v) + if s[n - 1] as int == v {
            1int
        } else {
            0int
        }
    }
}

/// The 256-bin histogram of a sequence of levels: bin `v` counts level `v`.
pub open spec fn histogram_of(s: Seq<u8>) -> Seq<int> {
    Seq::new(256, |v: int| count(s, s.len() as int, v))
}

/// Sum of the first `m` entries of `h`.
pub open spec fn prefix_sum(h: Seq<int>, m: int) -> int
    decreases m,
{
    if m <= 0 {
        0
    } else {
        prefix_sum(h, m - 1) + h[m - 1]
    }
}

/// Bin counts as integers.
pub open spec fn bins_view(bins: Seq<u64>) -> Seq<int> {
    bins.map_values(|x: u64| x as int)
}

/// A histogram: 256 non-negative bins.
pub open spec fn is_histogram(h: Seq<int>) -> bool {
    h.len() == 256 && forall|v: int| 0 <= v < 256 ==> h[v] >= 0
}

proof fn lemma_count_bound(s: Seq<u8>, n: int, v: int)
    requires
        0 <= n <= s.len(),
    ensures
        0 <= count(s, n, v) <= n,
    decreases n,
{
    if n > 0 {
        lemma_count_bound(s, n - 1, v);
    }
}

/// Entries of the first `n` levels that fall below level `m`.
spec fn counts_below(s: Seq<u8>, n: int, m: int) -> int
    decreases m,
{
    if m <= 0 {
        0
    } else {
        counts_below(s, n, m - 1) + count(s, n, m - 1)
    }
}

proof fn lemma_counts_below_empty(s: Seq<u8>, m: int)
    ensures
        counts_below(s, 0, m) == 0,
    decreases m,
{
    if m > 0 {
        lemma_counts_below_empty(s, m - 1);
    }
}

proof fn lemma_counts_below_step(s: Seq<u8>, n: int, m: int)
    requires
        1 <= n <= s.len(),
        0 <= m,
    ensures
        counts_below(s, n, m) == counts_below(s, n - 1, m) + if (s[n - 1] as int) < m {
            1int
        } else {
            0int
        },
    decreases m,
{
    if m > 0 {
        lemma_counts_below_step(s, n, m - 1);
    }
}

proof fn lemma_counts_below_all(s: Seq<u8>, n: int)
    requires
        0 <= n <= s.len(),
    ensures
        counts_below(s, n, 256) == n,
    decreases n,
{
    if n == 0 {
        lemma_counts_below_empty(s, 256);
    } else {
        lemma_counts_below_all(s, n - 1);
        lemma_counts_below_step(s, n, 256);
    }
}

proof fn lemma_prefix_of_histogram(s: Seq<u8>, m: int)
    requires
        0 <= m <= 256,
    ensures
        prefix_sum(histogram_of(s), m) == counts_below(s, s.len() as int, m),
    decreases m,
{
    if m > 0 {
        lemma_prefix_of_histogram(s, m - 1);
    }
}

/// Conservation: the bins of the histogram of any sequence of levels add up
/// to its length, so every sample is counted exactly once.
pub proof fn lemma_histogram_conservation(s: Seq<u8>)
    ensures
        is_histogram(histogram_of(s)),
        prefix_sum(histogram_of(s), 256) == s.len(),
{
    lemma_prefix_of_histogram(s, 256);
    lemma_counts_below_all(s, s.len() as int);
    assert forall|v: int| 0 <= v < 256 implies histogram_of(s)[v] >= 0 by {
        lemma_count_bound(s, s.len() as int, v);
    }
}

/// Conservation for images: for every channel of every image, the histogram
/// of that channel sums to width × height.
pub proof fn lemma_channel_histogram_conservation(img: &Image, k: int)
    requires
        img.wf(),
        0 <= k < img.channels,
    ensures
        prefix_sum(histogram_of(img.plane(k)), 256) == img.width * img.height,
{
    lemma_histogram_conservation(img.plane(k));
}

/// Counts the levels of a gray image into 256 bins.
pub fn level_histogram(gray: &Image) -> (bins: Vec<u64>)
    requires
        is_gray(gray),
    ensures
        bins@.len() == 256,
        bins_view(bins@) == histogram_of(gray.data@),
{
    let n = gray.data.len();
    let mut bins: Vec<u64> = Vec::new();
    while bins.len() < 256
        invariant
            bins@.len() <= 256,
            forall|v: int| 0 <= v < bins@.len() ==> bins@[v] == 0,
        decreases 256 - bins@.len(),
    {
        bins.push(0);
    }
    let mut i: usize = 0;
    while i < n
        invariant
            n == gray.data@.len(),
            i <= n,
            bins@.len() == 256,
            forall|v: int| 0 <= v < 256 ==> #[trigger] bins@[v] == count(gray.data@, i as int, v),
        decreases n - i,
    {
        let v = gray.data[i] as usize;
        proof {
            lemma_count_bound(gray.data@, i as int, v as int);
        }
        let c = bins[v];
        bins.set(v, c + 1);
        i = i + 1;
    }
    assert(bins_view(bins@) =~= histogram_of(gray.data@));
    bins
}

/// The equalized level of a level whose cumulative count is `cum` out of
/// `total`: `cum × 255 / total`, rounded to nearest in integers.
pub open spec fn equalized_level(cum: int, total: int) -> int {
    (cum * 255 + total / 2) / total
}

/// The remap table of a histogram: entry `i` is the equalized level of the
/// cumulative count of levels `0..=i`.
pub open spec fn equalization_of(h: Seq<int>) -> Seq<int> {
    Seq::new(256, |i: int| equalized_level(prefix_sum(h, i + 1), prefix_sum(h, 256)))
}

pub proof fn lemma_prefix_nonneg(h: Seq<int>, i: int)
    requires
        is_histogram(h),
        0 <= i <= 256,
    ensures
        0 <= prefix_sum(h, i),
    decreases i,
{
    if i > 0 {
        lemma_prefix_nonneg(h, i - 1);
    }
}

proof fn lemma_prefix_monotone(h: Seq<int>, i: int, j: int)
    requires
        is_histogram(h),
        0 <= i <= j <= 256,
    ensures
        0 <= prefix_sum(h, i) <= prefix_sum(h, j),
    decreases j - i,
{
    if i < j {
        lemma_prefix_monotone(h, i, j - 1);
    } else {
        lemma_prefix_nonneg(h, i);
    }
}

proof fn lemma_equalized_level_bound(cum: int, total: int)
    requires
        0 <= cum <= total,
        total > 0,
    ensures
        0 <= equalized_level(cum, total) <= 255,
{
    assert(0 <= (cum * 255 + total / 2) / total <= 255) by (nonlinear_arith)
        requires
            0 <= cum <= total,
            total > 0,
    ;
}

/// The remap table of every non-empty histogram is non-decreasing and stays
/// within [0, 255].
pub proof fn lemma_equalization_monotone(h: Seq<int>, i: int, j: int)
    requires
        is_histogram(h),
        prefix_sum(h, 256) > 0,
        0 <= i <= j < 256,
    ensures
        0 <= equalization_of(h)[i] <= equalization_of(h)[j] <= 255,
{
    let t = prefix_sum(h, 256);
    lemma_prefix_monotone(h, i + 1, j + 1);
    lemma_prefix_monotone(h, j + 1, 256);
    lemma_div_is_ordered(prefix_sum(h, i + 1) * 255 + t / 2, prefix_sum(h, j + 1) * 255 + t / 2, t);
    lemma_equalized_level_bound(prefix_sum(h, i + 1), t);
    lemma_equalized_level_bound(prefix_sum(h, j + 1), t);
}

/// Equalization follows the linear ramp: entry `i` is within half a level
/// of `255 × cum(i) / total`, the cumulative fraction of samples at or below
/// level `i` scaled to 255.
pub proof fn lemma_equalization_near_ramp(h: Seq<int>, i: int)
    requires
        is_histogram(h),
        prefix_sum(h, 256) > 0,
        0 <= i < 256,
    ensures
        -prefix_sum(h, 256) <= 2 * (equalization_of(h)[i] * prefix_sum(h, 256) - 255 * prefix_sum(
            h,
            i + 1,
        )) <= prefix_sum(h, 256),
{
    let t = prefix_sum(h, 256);
    let c = prefix_sum(h, i + 1);
    let a = c * 255 + t / 2;
    let q = a / t;
    lemma_prefix_monotone(h, i + 1, 256);
    lemma_fundamental_div_mod(a, t);
    lemma_mod_pos_bound(a, t);
    assert(-t <= 2 * (q * t - 255 * c) <= t) by (nonlinear_arith)
        requires
            a == t * q + a % t,
            0 <= a % t < t,
            a == c * 255 + t / 2,
            t > 0,
    ;
}

/// Entries among the first `n` of `s` at or below level `k`.
pub open spec fn count_at_most(s: Seq<u8>, n: int, k: int) -> int
    decreases n,
{
    if n <= 0 {
        0
    } else {
        count_at_most(s, n - 1, k) + if s[n - 1] as int <= k {
            1int
        } else {
            0int
        }
    }
}

proof fn lemma_count_at_most_is_prefix(s: Seq<u8>, n: int, k: int)
    requires
        0 <= n <= s.len(),
        0 <= k < 256,
    ensures
        count_at_most(s, n, k) == counts_below(s, n, k + 1),
    decreases n,
{
    if n == 0 {
        lemma_counts_below_empty(s, k + 1);
    } else {
        lemma_count_at_most_is_prefix(s, n - 1, k);
        lemma_counts_below_step(s, n, k + 1);
    }
}

/// Counting after a level map that sends exactly the levels `0..=w` to at
/// most `k` counts the levels at most `w` before it.
proof fn lemma_count_through_map(src: Seq<u8>, out: Seq<u8>, t: Seq<int>, n: int, k: int, w: int)
    requires
        0 <= n <= src.len(),
        out.len() == src.len(),
        t.len() == 256,
        forall|i: int| 0 <= i < src.len() ==> #[trigger] out[i] as int == t[src[i] as int],
        forall|u: int| 0 <= u < 256 ==> (#[trigger] t[u] <= k) == (u <= w),
    ensures
        count_at_most(out, n, k) == count_at_most(src, n, w),
    decreases n,
{
    if n > 0 {
        lemma_count_through_map(src, out, t, n - 1, k, w);
        assert(out[n - 1] as int == t[src[n - 1] as int]);
    }
}

/// The last level `u <= m` whose entry in `t` is at most `k` (0 if none).
spec fn last_at_most(t: Seq<int>, k: int, m: int) -> int
    decreases m,
{
    if m <= 0 {
        0
    } else if t[m] <= k {
        m
    } else {
        last_at_most(t, k, m - 1)
    }
}

proof fn lemma_last_at_most(t: Seq<int>, k: int, m: int, v: int)
    requires
        t.len() == 256,
        0 <= v <= m < 256,
        t[v] <= k,
        forall|i: int, j: int| 0 <= i <= j < 256 ==> t[i] <= t[j],
    ensures
        v <= last_at_most(t, k, m) <= m,
        t[last_at_most(t, k, m)] <= k,
        forall|u: int| 0 <= u <= m ==> (#[trigger] t[u] <= k) == (u <= last_at_most(t, k, m)),
    decreases m,
{
    if m > 0 && t[m] > k {
        lemma_last_at_most(t, k, m - 1, v);
    } else {
        assert forall|u: int| 0 <= u <= m implies (#[trigger] t[u] <= k) == (u <= last_at_most(t, k, m)) by {
            if u <= m {
                assert(t[u] <= t[m]);
            }
        }
    }
}

/// After equalization the cumulative histogram follows the linear ramp: for
/// every level `k` that occurs in the result of `n` samples, the count `C`
/// of result samples at or below `k` satisfies
/// `k n <= 255 C + n / 2 < (k + 1) n`.
pub proof fn lemma_equalized_cumulative_near_ramp(src: Seq<u8>, out: Seq<u8>, q: int)
    requires
        src.len() > 0,
        out.len() == src.len(),
        forall|i: int|
            0 <= i < src.len() ==> #[trigger] out[i] as int == equalization_of(histogram_of(src))[src[i] as int],
        0 <= q < out.len(),
    ensures
        ({
            let k = out[q] as int;
            let n = src.len() as int;
            let c = count_at_most(out, n, k);
            k * n <= 255 * c + n / 2 < (k + 1) * n
        }),
{
    let h = histogram_of(src);
    let t = equalization_of(h);
    let n = src.len() as int;
    let k = out[q] as int;
    lemma_histogram_conservation(src);
    assert forall|i: int, j: int| 0 <= i <= j < 256 implies t[i] <= t[j] by {
        lemma_equalization_monotone(h, i, j);
    }
    let v = src[q] as int;
    lemma_last_at_most(t, k, 255, v);
    let w = last_at_most(t, k, 255);
    lemma_equalization_monotone(h, v, w);
    assert(t[w] == k);
    lemma_count_through_map(src, out, t, n, k, w);
    lemma_count_at_most_is_prefix(src, n, w);
    lemma_prefix_of_histogram(src, w + 1);
    let c = prefix_sum(h, w + 1);
    assert(count_at_most(out, n, k) == c);
    let a = c * 255 + n / 2;
    lemma_fundamental_div_mod(a, n);
    lemma_prefix_monotone(h, w + 1, 256);
    lemma_mod_pos_bound(a, n);
    assert(k * n <= 255 * c + n / 2 < (k + 1) * n) by (nonlinear_arith)
        requires
            k == a / n,
            a == n * (a / n) + a % n,
            0 <= a % n < n,
            a == c * 255 + n / 2,
    ;
}

/// Builds the remap table of a histogram; an error when every bin is 0.
pub fn equalization_map(bins: &Vec<u64>) -> (r: Result<Vec<u8>, ProcError>)
    requires
        bins@.len() == 256,
    ensures
        prefix_sum(bins_view(bins@), 256) == 0 <==> r is Err,
        r is Err ==> r == Err::<Vec<u8>, ProcError>(ProcError::EmptyImage),
        r matches Ok(map) ==> map@.len() == 256 && forall|i: int|
            0 <= i < 256 ==> #[trigger] map@[i] as int == equalization_of(bins_view(bins@))[i],
{
    let ghost h = bins_view(bins@);
    assert(is_histogram(h));
    let mut total: u128 = 0;
    let mut i: usize = 0;
    while i < 256
        invariant
            bins@.len() == 256,
            h == bins_view(bins@),
            i <= 256,
            total == prefix_sum(h, i as int),
            total <= i * 0x1_0000_0000_0000_0000,
        decreases 256 - i,
    {
        total = total + bins[i] as u128;
        i = i + 1;
    }
    if total == 0 {
        return Err(ProcError::EmptyImage);
    }
    let mut map: Vec<u8> = Vec::new();
    let mut cum: u128 = 0;
    let mut i: usize = 0;
    while i < 256
        invariant
            bins@.len() == 256,
            h == bins_view(bins@),
            is_histogram(h),
            total == prefix_sum(h, 256),
            total > 0,
            total <= 256 * 0x1_0000_0000_0000_0000,
            i <= 256,
            cum == prefix_sum(h, i as int),
            map@.len() == i,
            forall|j: int| 0 <= j < i ==> #[trigger] map@[j] as int == equalization_of(h)[j],
        decreases 256 - i,
    {
        proof {
            lemma_prefix_monotone(h, i + 1, 256);
        }
        cum = cum + bins[i] as u128;
        proof {
            lemma_equalized_level_bound(cum as int, total as int);
        }
        let level = (cum * 255 + total / 2) / total;
        map.push(level as u8);
        i = i + 1;
    }
    Ok(map)
}

/// Replaces every sample `v` of a gray image by `map[v]`.
pub fn apply_map(gray: &Image, map: &Vec<u8>) -> (out: Image)
    requires
        is_gray(gray),
        map@.len() == 256,
    ensures
        is_gray(&out),
        out.same_shape(gray),
        out.data@.len() == gray.data@.len(),
        forall|i: int| 0 <= i < gray.data@.len() ==> #[trigger] out.data@[i] == map@[gray.data@[i] as int],
{
    let n = gray.data.len();
    let mut data: Vec<u8> = Vec::new();
    let mut i: usize = 0;
    while i < n
        invariant
            n == gray.data@.len(),
            map@.len() == 256,
            i <= n,
            data@.len() == i,
            forall|j: int| 0 <= j < i ==> #[trigger] data@[j] == map@[gray.data@[j] as int],
        decreases n - i,
    {
        data.push(map[gray.data[i] as usize]);
        i = i + 1;
    }
    Image { width: gray.width, height: gray.height, channels: 1, data }
}

/// Equalizes a gray image: each level is replaced by its entry in the remap
/// table of the image's own histogram. An error for an image without pixels.
pub fn histogram_equalize(gray: &Image) -> (r: Result<Image, ProcError>)
    requires
        is_gray(gray),
    ensures
        gray.pixel_count() == 0 <==> r is Err,
        r is Err ==> r == Err::<Image, ProcError>(ProcError::EmptyImage),
        r matches Ok(out) ==> {
            &&& is_gray(&out)
            &&& out.same_shape(gray)
            &&& out.data@.len() == gray.data@.len()
            &&& forall|i: int|
                0 <= i < gray.data@.len() ==> #[trigger] out.data@[i] as int == equalization_of(
                    histogram_of(gray.data@),
                )[gray.data@[i] as int]
        },
{
    let bins = level_histogram(gray);
    proof {
        lemma_histogram_conservation(gray.data@);
    }
    match equalization_map(&bins) {
        Err(e) => Err(e),
        Ok(map) => Ok(apply_map(gray, &map)),
    }
}

} // verus!
