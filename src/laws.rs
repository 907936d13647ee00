use vstd::prelude::*;
use crate::engine::{channel_peak, channel_sum_sq, peak_upto, sq_diff, sum_sq_upto};
use crate::raster::ImageModel;

verus! {

proof fn lemma_sum_sq_self(img: ImageModel, c: int, n: nat)
    ensures
        sum_sq_upto(img, img, c, n) == 0,
    decreases n,
{
    if n > 0 {
        lemma_sum_sq_self(img, c, (n - 1) as nat);
    }
}

/// Comparing an image with itself finds no error on any channel, so every
/// channel reports the exact-match value.
pub proof fn lemma_identity(img: ImageModel)
    requires
        img.wf(),
    ensures
        forall|c: int| 0 <= c < img.channels ==> channel_sum_sq(img, img, c) == 0,
{
    assert forall|c: int| 0 <= c < img.channels implies channel_sum_sq(img, img, c) == 0 by {
        lemma_sum_sq_self(img, c, img.pixel_count());
    }
}

proof fn lemma_sum_sq_swap(lhs: ImageModel, rhs: ImageModel, c: int, n: nat)
    ensures
        sum_sq_upto(lhs, rhs, c, n) == sum_sq_upto(rhs, lhs, c, n),
    decreases n,
{
    if n > 0 {
        lemma_sum_sq_swap(lhs, rhs, c, (n - 1) as nat);
        let a = lhs.sample(n - 1, c);
        let b = rhs.sample(n - 1, c);
        assert(sq_diff(a, b) == sq_diff(b, a)) by (nonlinear_arith);
    }
}

/// Swapping the two images leaves the sum of squared differences of every
/// channel unchanged; only the peak term, which is taken from the left-hand
/// image, can change.
pub proof fn lemma_swap(lhs: ImageModel, rhs: ImageModel, c: int)
    requires
        lhs.same_dimensions(rhs),
    ensures
        channel_sum_sq(lhs, rhs, c) == channel_sum_sq(rhs, lhs, c),
{
    lemma_sum_sq_swap(lhs, rhs, c, lhs.pixel_count());
}

proof fn lemma_channel_upto(
    l1: ImageModel,
    r1: ImageModel,
    c1: int,
    l2: ImageModel,
    r2: ImageModel,
    c2: int,
    n: nat,
)
    requires
        forall|p: int|
            0 <= p < n ==> l1.sample(p, c1) == l2.sample(p, c2) && r1.sample(p, c1)
                == r2.sample(p, c2),
    ensures
        sum_sq_upto(l1, r1, c1, n) == sum_sq_upto(l2, r2, c2, n),
        peak_upto(l1, c1, n) == peak_upto(l2, c2, n),
    decreases n,
{
    if n > 0 {
        lemma_channel_upto(l1, r1, c1, l2, r2, c2, (n - 1) as nat);
        assert(l1.sample(n - 1, c1) == l2.sample(n - 1, c2));
        assert(r1.sample(n - 1, c1) == r2.sample(n - 1, c2));
    }
}

/// The result for a channel depends on the intensities of that channel alone:
/// two pairs of images with the same number of pixels whose channels `c1` and
/// `c2` hold the same intensities give the same peak and the same sum of
/// squared differences, whatever their other channels hold.
pub proof fn lemma_channel_independence(
    l1: ImageModel,
    r1: ImageModel,
    c1: int,
    l2: ImageModel,
    r2: ImageModel,
    c2: int,
)
    requires
        l1.pixel_count() == l2.pixel_count(),
        forall|p: int|
            0 <= p < l1.pixel_count() ==> l1.sample(p, c1) == l2.sample(p, c2) && r1.sample(
                p,
                c1,
            ) == r2.sample(p, c2),
    ensures
        channel_sum_sq(l1, r1, c1) == channel_sum_sq(l2, r2, c2),
        channel_peak(l1, c1) == channel_peak(l2, c2),
{
    lemma_channel_upto(l1, r1, c1, l2, r2, c2, l1.pixel_count());
}

} // verus!

verus! {

/// Magnitude of the difference of two intensities.
pub open spec fn abs_diff(a: u8, b: u8) -> int {
    if a >= b {
        a - b
    } else {
        b - a
    }
}

/// `n1 / d1 < n2 / d2`, for positive denominators, without division.
pub open spec fn ratio_lt(n1: int, d1: int, n2: int, d2: int) -> bool {
    n1 * d2 < n2 * d1
}

proof fn lemma_other_pixel_unchanged(r1: ImageModel, r2: ImageModel, p: int, k: int, c: int, v: u8)
    requires
        r1.wf(),
        r2.channels == r1.channels,
        r2.samples == r1.samples.update(p * r1.channels + c, v),
        0 <= p < r1.pixel_count(),
        0 <= k < r1.pixel_count(),
        k != p,
        0 <= c < r1.channels,
    ensures
        r2.sample(k, c) == r1.sample(k, c),
{
    let w = r1.channels as int;
    assert(k * w + c != p * w + c) by (nonlinear_arith)
        requires
            k != p,
            w >= 1,
    ;
    assert(0 <= k * w + c < r1.pixel_count() * w) by (nonlinear_arith)
        requires
            0 <= k < r1.pixel_count(),
            0 <= c < w,
    ;
    assert(0 <= p * w + c < r1.pixel_count() * w) by (nonlinear_arith)
        requires
            0 <= p < r1.pixel_count(),
            0 <= c < w,
    ;
    assert(r2.samples[k * w + c] == r1.samples[k * w + c]);
}

proof fn lemma_sum_sq_one_changed(
    lhs: ImageModel,
    r1: ImageModel,
    r2: ImageModel,
    p: int,
    c: int,
    v: u8,
    n: nat,
)
    requires
        r1.wf(),
        r2.channels == r1.channels,
        r2.samples == r1.samples.update(p * r1.channels + c, v),
        0 <= p < r1.pixel_count(),
        0 <= c < r1.channels,
        n <= r1.pixel_count(),
    ensures
        n <= p ==> sum_sq_upto(lhs, r2, c, n) == sum_sq_upto(lhs, r1, c, n),
        n > p ==> sum_sq_upto(lhs, r2, c, n) - sum_sq_upto(lhs, r1, c, n) == sq_diff(
            lhs.sample(p, c),
            r2.sample(p, c),
        ) - sq_diff(lhs.sample(p, c), r1.sample(p, c)),
    decreases n,
{
    if n > 0 {
        lemma_sum_sq_one_changed(lhs, r1, r2, p, c, v, (n - 1) as nat);
        if n - 1 != p {
            lemma_other_pixel_unchanged(r1, r2, p, n - 1, c, v);
        }
    }
}

/// Widening the difference at one intensity of `rhs`, with the reference
/// image `lhs` and every other intensity held fixed, strictly raises the sum
/// of squared differences of that channel and leaves its peak alone. Where
/// both PSNR values are logarithms (a positive peak, and an error before the
/// change), the ratio `max_err / mean_sq`, and so the PSNR, strictly drops.
pub proof fn lemma_larger_difference_lowers_psnr(
    lhs: ImageModel,
    r1: ImageModel,
    r2: ImageModel,
    p: int,
    c: int,
    v: u8,
)
    requires
        lhs.wf(),
        r1.wf(),
        lhs.same_dimensions(r1),
        lhs.channels == r1.channels,
        r2.width == r1.width,
        r2.height == r1.height,
        r2.channels == r1.channels,
        r2.samples == r1.samples.update(p * r1.channels + c, v),
        0 <= p < lhs.pixel_count(),
        0 <= c < lhs.channels,
        abs_diff(lhs.sample(p, c), v) > abs_diff(lhs.sample(p, c), r1.sample(p, c)),
    ensures
        channel_sum_sq(lhs, r2, c) > channel_sum_sq(lhs, r1, c),
        channel_peak(lhs, c) > 0 && channel_sum_sq(lhs, r1, c) > 0 ==> ratio_lt(
            channel_peak(lhs, c) * channel_peak(lhs, c) * lhs.pixel_count(),
            channel_sum_sq(lhs, r2, c),
            channel_peak(lhs, c) * channel_peak(lhs, c) * lhs.pixel_count(),
            channel_sum_sq(lhs, r1, c),
        ),
{
    let w = r1.channels as int;
    assert(0 <= p * w + c < r1.pixel_count() * w) by (nonlinear_arith)
        requires
            0 <= p < r1.pixel_count(),
            0 <= c < w,
    ;
    assert(r2.sample(p, c) == v);
    lemma_sum_sq_one_changed(lhs, r1, r2, p, c, v, lhs.pixel_count());
    let a = lhs.sample(p, c);
    let b = r1.sample(p, c);
    assert(sq_diff(a, v) > sq_diff(a, b)) by (nonlinear_arith)
        requires
            abs_diff(a, v) > abs_diff(a, b),
    ;
    let s1 = channel_sum_sq(lhs, r1, c);
    let s2 = channel_sum_sq(lhs, r2, c);
    let pk = channel_peak(lhs, c);
    let k = pk * pk * lhs.pixel_count();
    if pk > 0 && s1 > 0 {
        assert(k > 0) by (nonlinear_arith)
            requires
                pk > 0,
                lhs.pixel_count() >= 1,
                k == pk * pk * lhs.pixel_count(),
        ;
        assert(k * s1 < k * s2) by (nonlinear_arith)
            requires
                k > 0,
                s1 < s2,
        ;
    }
}

} // verus!
