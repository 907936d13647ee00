use vstd::prelude::*;
use crate::raster::{Image, ImageModel};

verus! {

/// Squared difference of two intensities.
pub open spec fn sq_diff(a: u8, b: u8) -> int {
    (a - b) * (a - b)
}

/// Sum, over the first `n` pixels in row-major order, of the squared
/// difference between channel `c` of `lhs` and channel `c` of `rhs`.
pub open spec fn sum_sq_upto(lhs: ImageModel, rhs: ImageModel, c: int, n: nat) -> int
    decreases n,
{
    if n == 0 {
        0
    } else {
        sum_sq_upto(lhs, rhs, c, (n - 1) as nat) + sq_diff(
            lhs.sample(n - 1, c),
            rhs.sample(n - 1, c),
        )
    }
}

/// Largest intensity of channel `c` over the first `n` pixels of `img`, or 0
/// when `n` is 0.
pub open spec fn peak_upto(img: ImageModel, c: int, n: nat) -> int
    decreases n,
{
    if n == 0 {
        0
    } else {
        let prev = peak_upto(img, c, (n - 1) as nat);
        let v = img.sample(n - 1, c) as int;
        if prev < v {
            v
        } else {
            prev
        }
    }
}

/// Sum of squared differences of channel `c` over the whole image.
pub open spec fn channel_sum_sq(lhs: ImageModel, rhs: ImageModel, c: int) -> int {
    sum_sq_upto(lhs, rhs, c, lhs.pixel_count())
}

/// Largest intensity of channel `c` over the whole image.
pub open spec fn channel_peak(img: ImageModel, c: int) -> int {
    peak_upto(img, c, img.pixel_count())
}

/// Why two images cannot be compared.
#[derive(Debug, Clone, Copy, PartialEq, Eq, Structural)]
pub enum PsnrError {
    /// The widths or the heights differ.
    DimensionMismatch,
    /// The channel counts differ.
    ChannelMismatch,
}

/// What the comparison of one channel yields: the peak intensity of the
/// reference image, the sum of squared differences and the number of pixels.
///
/// The PSNR of the channel is `10 * log10(max_err / mean_sq)`, where
/// `max_err = peak * peak` and `mean_sq = sum_sq / pixel_count`; when
/// `sum_sq` is 0 the channel matches exactly and its PSNR is reported as 0
/// rather than as infinity.
#[derive(Debug, Clone, Copy, PartialEq, Eq, Structural)]
pub struct ChannelPsnr {
    pub peak: u8,
    pub sum_sq: u128,
    pub pixel_count: u64,
}

impl ChannelPsnr {
    /// `self` is what comparing channel `c` of `rhs` against `lhs` yields.
    pub open spec fn reports(self, lhs: ImageModel, rhs: ImageModel, c: int) -> bool {
        &&& self.peak as int == channel_peak(lhs, c)
        &&& self.sum_sq as int == channel_sum_sq(lhs, rhs, c)
        &&& self.pixel_count as int == lhs.pixel_count()
    }

    /// The squared peak, `max_err` of the formula.
    pub fn max_err(&self) -> (r: u32)
        ensures
            r == self.peak * self.peak,
    {
        assert(self.peak * self.peak <= 255 * 255) by (nonlinear_arith)
            requires
                self.peak <= 255,
        ;
        self.peak as u32 * self.peak as u32
    }

    /// True when the channel matches exactly, in which case its PSNR is
    /// reported as 0.
    pub fn is_exact_match(&self) -> (r: bool)
        ensures
            r == (self.sum_sq == 0),
    {
        self.sum_sq == 0
    }

    /// The ratio `max_err / mean_sq` whose decimal logarithm, times 10, is the
    /// PSNR of the channel, as an exact fraction `(numerator, denominator)`:
    /// since `mean_sq = sum_sq / pixel_count`, it is
    /// `peak * peak * pixel_count / sum_sq`. `None` when the channel matches
    /// exactly.
    pub fn ratio(&self) -> (r: Option<(u128, u128)>)
        ensures
            r is None <==> self.sum_sq == 0,
            r matches Some((num, den)) ==> num == self.peak * self.peak * self.pixel_count
                && den == self.sum_sq,
    {
        if self.sum_sq == 0 {
            return None;
        }
        let m: u32 = self.max_err();
        assert(m * self.pixel_count <= 65025 * u64::MAX) by (nonlinear_arith)
            requires
                m == self.peak * self.peak,
                self.peak <= 255,
                self.pixel_count <= u64::MAX,
        ;
        Some((m as u128 * self.pixel_count as u128, self.sum_sq))
    }
}

} // verus!

verus! {

/// The accumulators of channels `lo` up to `hi` hold the peak and the sum of
/// squared differences over the first `p` pixels.
spec fn accumulated(
    lhs: ImageModel,
    rhs: ImageModel,
    peaks: Seq<u8>,
    sums: Seq<u128>,
    lo: int,
    hi: int,
    p: nat,
) -> bool {
    forall|c: int|
        lo <= c < hi ==> {
            &&& peaks[c] as int == peak_upto(lhs, c, p)
            &&& sums[c] as int == sum_sq_upto(lhs, rhs, c, p)
            &&& sums[c] <= 65025 * p
        }
}

proof fn lemma_index_in_bounds(p: int, c: int, n: int, k: int)
    requires
        0 <= p < n,
        0 <= c < k,
    ensures
        n <= n * k,
        0 <= p * k + c < n * k,
        p * k + c + 1 <= (p + 1) * k,
{
    assert(n <= n * k) by (nonlinear_arith)
        requires
            0 <= p < n,
            0 <= c < k,
    ;
    assert(0 <= p * k + c < n * k) by (nonlinear_arith)
        requires
            0 <= p < n,
            0 <= c < k,
    ;
    assert(p * k + c + 1 <= (p + 1) * k) by (nonlinear_arith)
        requires
            0 <= c < k,
    ;
}

/// Folds pixel `p` of both images into the accumulators.
fn accumulate_pixel(
    lhs: &Image,
    rhs: &Image,
    p: usize,
    peaks: &mut Vec<u8>,
    sums: &mut Vec<u128>,
)
    requires
        lhs@.wf(),
        rhs@.wf(),
        lhs@.same_dimensions(rhs@),
        lhs@.channels == rhs@.channels,
        p < lhs@.pixel_count(),
        old(peaks)@.len() == lhs@.channels,
        old(sums)@.len() == lhs@.channels,
        accumulated(lhs@, rhs@, old(peaks)@, old(sums)@, 0, lhs@.channels as int, p as nat),
    ensures
        final(peaks)@.len() == lhs@.channels,
        final(sums)@.len() == lhs@.channels,
        accumulated(
            lhs@,
            rhs@,
            final(peaks)@,
            final(sums)@,
            0,
            lhs@.channels as int,
            (p + 1) as nat,
        ),
{
    let nch = lhs.channels();
    let ls = lhs.samples();
    let rs = rhs.samples();
    let len: usize = ls.len();
    proof {
        lemma_index_in_bounds(p as int, 0, lhs@.pixel_count() as int, nch as int);
    }
    let base: usize = p * nch;
    let mut ch: usize = 0;
    while ch < nch
        invariant
            lhs@.wf(),
            rhs@.wf(),
            lhs@.same_dimensions(rhs@),
            lhs@.channels == rhs@.channels,
            nch == lhs@.channels,
            ls@ == lhs@.samples,
            rs@ == rhs@.samples,
            p < lhs@.pixel_count(),
            base == p * nch,
            len == ls@.len(),
            ch <= nch,
            peaks@.len() == nch,
            sums@.len() == nch,
            accumulated(lhs@, rhs@, peaks@, sums@, 0, ch as int, (p + 1) as nat),
            accumulated(lhs@, rhs@, peaks@, sums@, ch as int, nch as int, p as nat),
        decreases nch - ch,
    {
        proof {
            lemma_index_in_bounds(p as int, ch as int, lhs@.pixel_count() as int, nch as int);
        }
        let a: u8 = ls[base + ch];
        let b: u8 = rs[base + ch];
        let d: i32 = a as i32 - b as i32;
        assert(0 <= d * d <= 65025) by (nonlinear_arith)
            requires
                -255 <= d <= 255,
        ;
        let sq: u128 = (d * d) as u128;
        assert(sq as int == sq_diff(a, b));
        if peaks[ch] < a {
            peaks.set(ch, a);
        }
        let s: u128 = sums[ch] + sq;
        sums.set(ch, s);
        ch = ch + 1;
    }
}

} // verus!

verus! {

/// Compares `rhs` against the reference image `lhs`, channel by channel.
///
/// Fails with `DimensionMismatch` when the widths or heights differ, and
/// otherwise with `ChannelMismatch` when the channel counts differ. Else
/// returns one entry per channel, in channel order: the peak intensity of
/// that channel in `lhs` (not a fixed 255), the sum over all pixels of the
/// squared difference of that channel, and the number of pixels.
pub fn psnr(lhs: &Image, rhs: &Image) -> (r: Result<Vec<ChannelPsnr>, PsnrError>)
    ensures
        r matches Err(PsnrError::DimensionMismatch) <==> !lhs@.same_dimensions(rhs@),
        r matches Err(PsnrError::ChannelMismatch) <==> lhs@.same_dimensions(rhs@)
            && lhs@.channels != rhs@.channels,
        r matches Ok(v) ==> v@.len() == lhs@.channels,
        r matches Ok(v) ==> forall|c: int| 0 <= c < v@.len() ==> v@[c].reports(lhs@, rhs@, c),
{
    proof {
        use_type_invariant(lhs);
        use_type_invariant(rhs);
    }
    if lhs.width() != rhs.width() || lhs.height() != rhs.height() {
        return Err(PsnrError::DimensionMismatch);
    }
    if lhs.channels() != rhs.channels() {
        return Err(PsnrError::ChannelMismatch);
    }
    let nch = lhs.channels();
    let mut peaks: Vec<u8> = Vec::new();
    let mut sums: Vec<u128> = Vec::new();
    let mut c: usize = 0;
    while c < nch
        invariant
            lhs@.wf(),
            rhs@.wf(),
            c <= nch,
            peaks@.len() == c,
            sums@.len() == c,
            accumulated(lhs@, rhs@, peaks@, sums@, 0, c as int, 0),
        decreases nch - c,
    {
        peaks.push(0);
        sums.push(0);
        c = c + 1;
    }
    let ghost n = lhs@.pixel_count();
    let len: usize = lhs.samples().len();
    proof {
        assert(lhs@.width * lhs@.height >= 1) by (nonlinear_arith)
            requires
                lhs@.width >= 1,
                lhs@.height >= 1,
        ;
        lemma_index_in_bounds(0, 0, n as int, nch as int);
    }
    let count: usize = lhs.width() as usize * lhs.height() as usize;
    let mut p: usize = 0;
    while p < count
        invariant
            lhs@.wf(),
            rhs@.wf(),
            lhs@.same_dimensions(rhs@),
            lhs@.channels == rhs@.channels,
            nch == lhs@.channels,
            count == lhs@.pixel_count(),
            p <= count,
            peaks@.len() == nch,
            sums@.len() == nch,
            accumulated(lhs@, rhs@, peaks@, sums@, 0, nch as int, p as nat),
        decreases count - p,
    {
        accumulate_pixel(lhs, rhs, p, &mut peaks, &mut sums);
        p = p + 1;
    }
    let pixel_count: u64 = lhs.width() as u64 * lhs.height() as u64;
    let mut result: Vec<ChannelPsnr> = Vec::new();
    let mut c: usize = 0;
    while c < nch
        invariant
            c <= nch,
            nch == lhs@.channels,
            peaks@.len() == nch,
            sums@.len() == nch,
            pixel_count == lhs@.pixel_count(),
            accumulated(lhs@, rhs@, peaks@, sums@, 0, nch as int, lhs@.pixel_count()),
            result@.len() == c,
            forall|j: int| 0 <= j < c ==> result@[j].reports(lhs@, rhs@, j),
        decreases nch - c,
    {
        result.push(ChannelPsnr { peak: peaks[c], sum_sq: sums[c], pixel_count });
        c = c + 1;
    }
    Ok(result)
}

} // verus!
