//! Per-channel peak signal-to-noise ratio between two equally sized raster
//! images.
//!
//! The library validates the two images, makes one pass over their pixels and
//! returns, for each channel, the exact integer quantities that the PSNR
//! formula is built from: the peak intensity of the reference image and the
//! sum of squared differences. The final logarithm is left to the caller.

mod engine;
mod laws;
mod raster;

pub use engine::{
    channel_peak, channel_sum_sq, peak_upto, psnr, sq_diff, sum_sq_upto, ChannelPsnr, PsnrError,
};
pub use laws::{
    abs_diff, lemma_channel_independence, lemma_identity, lemma_larger_difference_lowers_psnr,
    lemma_swap, ratio_lt,
};
pub use raster::{Image, ImageModel};
