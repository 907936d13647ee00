use image::{ImageBuffer, Luma};
use psnr::{psnr, ChannelPsnr, Image, PsnrError};

fn decibels(c: &ChannelPsnr) -> f64 {
    match c.ratio() {
        None => 0.0,
        Some((num, den)) => 10.0 * (num as f64 / den as f64).log10(),
    }
}

fn gray(width: u32, height: u32, f: impl Fn(u32, u32) -> u8) -> Image {
    let buf = ImageBuffer::from_fn(width, height, |x, y| Luma([f(x, y)]));
    Image::new(width, height, 1, buf.into_raw()).unwrap()
}

fn filled(width: u32, height: u32, pixel: &[u8]) -> Image {
    let mut samples = Vec::new();
    for _ in 0..(width * height) {
        samples.extend_from_slice(pixel);
    }
    Image::new(width, height, pixel.len(), samples).unwrap()
}

#[test]
fn smoke_test() {
    let original = gray(8, 8, |_x, _y| 255);
    let edited = gray(8, 8, |x, y| if (x, y) == (0, 0) { 0 } else { 255 });

    let psnr_val = psnr(&original, &edited).unwrap();
    let db = decibels(&psnr_val[0]);
    assert!(18.1 > db && db > 18.0);
}

#[test]
fn known_value_accumulators() {
    let original = gray(8, 8, |_x, _y| 255);
    let edited = gray(8, 8, |x, y| if (x, y) == (0, 0) { 0 } else { 255 });
    let r = psnr(&original, &edited).unwrap();
    assert_eq!(r.len(), 1);
    assert_eq!(r[0], ChannelPsnr { peak: 255, sum_sq: 65025, pixel_count: 64 });
    assert_eq!(r[0].max_err(), 65025);
    assert!(!r[0].is_exact_match());
    assert_eq!(r[0].ratio(), Some((65025 * 64, 65025)));
    let mean_sq = r[0].sum_sq as f64 / r[0].pixel_count as f64;
    assert_eq!(mean_sq, 1016.015625);
    assert!((decibels(&r[0]) - 18.061799739838869).abs() < 1e-9);
}

#[test]
fn identity_reports_exact_match_on_every_channel() {
    let samples: Vec<u8> = (0..(5 * 3 * 3)).map(|i| (i * 7 % 256) as u8).collect();
    let img = Image::new(5, 3, 3, samples).unwrap();
    let r = psnr(&img, &img).unwrap();
    assert_eq!(r.len(), 3);
    for c in &r {
        assert_eq!(c.sum_sq, 0);
        assert!(c.is_exact_match());
        assert_eq!(c.ratio(), None);
        assert_eq!(decibels(c), 0.0);
    }
}

#[test]
fn swapping_keeps_error_and_moves_peak() {
    let a = gray(2, 2, |x, y| if (x, y) == (1, 1) { 100 } else { 40 });
    let b = gray(2, 2, |x, y| if (x, y) == (0, 0) { 200 } else { 40 });
    let ab = psnr(&a, &b).unwrap();
    let ba = psnr(&b, &a).unwrap();
    assert_eq!(ab[0].sum_sq, 160 * 160 + 60 * 60);
    assert_eq!(ab[0].sum_sq, ba[0].sum_sq);
    assert_eq!(ab[0].peak, 100);
    assert_eq!(ba[0].peak, 200);
    assert!(decibels(&ab[0]) < decibels(&ba[0]));
}

#[test]
fn dimension_mismatch_8x8_vs_8x9() {
    let a = filled(8, 8, &[10]);
    let b = filled(8, 9, &[10]);
    assert_eq!(psnr(&a, &b), Err(PsnrError::DimensionMismatch));
    assert_eq!(psnr(&b, &a), Err(PsnrError::DimensionMismatch));
}

#[test]
fn dimension_mismatch_comes_before_channel_mismatch() {
    let a = filled(4, 4, &[10]);
    let b = filled(5, 4, &[10, 20, 30]);
    assert_eq!(psnr(&a, &b), Err(PsnrError::DimensionMismatch));
}

#[test]
fn channel_mismatch_gray_vs_rgb() {
    let a = filled(8, 8, &[10]);
    let b = filled(8, 8, &[10, 20, 30]);
    assert_eq!(psnr(&a, &b), Err(PsnrError::ChannelMismatch));
    assert_eq!(psnr(&b, &a), Err(PsnrError::ChannelMismatch));
}

#[test]
fn larger_difference_lowers_psnr() {
    let reference = gray(4, 4, |x, y| (x * 40 + y * 10) as u8);
    let mut previous: Option<f64> = None;
    for v in [100u8, 80, 50, 20, 0] {
        let edited = gray(4, 4, |x, y| if (x, y) == (3, 3) { v } else { (x * 40 + y * 10) as u8 });
        let r = psnr(&reference, &edited).unwrap();
        assert_eq!(r[0].peak, 150);
        let db = decibels(&r[0]);
        if let Some(p) = previous {
            assert!(db < p);
        }
        previous = Some(db);
    }
}

#[test]
fn channels_are_independent() {
    let a = filled(3, 2, &[100, 7, 9]);
    let mut b_samples = Vec::new();
    for i in 0..6u8 {
        b_samples.extend_from_slice(&[90, i * 30, 255 - i]);
    }
    let b = Image::new(3, 2, 3, b_samples).unwrap();
    let r = psnr(&a, &b).unwrap();

    let a0 = filled(3, 2, &[100]);
    let b0 = filled(3, 2, &[90]);
    let r0 = psnr(&a0, &b0).unwrap();
    assert_eq!(r[0], r0[0]);
    assert_eq!(r[0], ChannelPsnr { peak: 100, sum_sq: 600, pixel_count: 6 });
    assert_ne!(r[1], r[0]);
}

#[test]
fn peak_is_observed_not_fixed() {
    let a = gray(2, 1, |x, _y| if x == 0 { 200 } else { 10 });
    let b = gray(2, 1, |_x, _y| 10);
    let r = psnr(&a, &b).unwrap();
    assert_eq!(r[0].peak, 200);
    assert_eq!(r[0].max_err(), 40000);
    assert_eq!(r[0].ratio(), Some((40000 * 2, 190 * 190)));
}

#[test]
fn zero_peak_channel() {
    let a = filled(2, 2, &[0]);
    let b = filled(2, 2, &[3]);
    let r = psnr(&a, &b).unwrap();
    assert_eq!(r[0], ChannelPsnr { peak: 0, sum_sq: 36, pixel_count: 4 });
    assert_eq!(r[0].ratio(), Some((0, 36)));
}

#[test]
fn new_checks_shape() {
    assert!(Image::new(2, 2, 3, vec![0; 12]).is_some());
    assert!(Image::new(2, 2, 3, vec![0; 11]).is_none());
    assert!(Image::new(2, 2, 3, vec![0; 13]).is_none());
    assert!(Image::new(0, 2, 1, vec![]).is_none());
    assert!(Image::new(2, 0, 1, vec![]).is_none());
    assert!(Image::new(2, 2, 0, vec![]).is_none());
    let img = Image::new(3, 2, 2, (0..12).collect()).unwrap();
    assert_eq!(img.width(), 3);
    assert_eq!(img.height(), 2);
    assert_eq!(img.channels(), 2);
    assert_eq!(img.samples().len(), 12);
    assert_eq!(img.samples()[11], 11);
}

#[test]
fn one_pixel_extremes() {
    let a = filled(1, 1, &[255, 0]);
    let b = filled(1, 1, &[0, 255]);
    let r = psnr(&a, &b).unwrap();
    assert_eq!(r[0], ChannelPsnr { peak: 255, sum_sq: 65025, pixel_count: 1 });
    assert_eq!(r[1], ChannelPsnr { peak: 0, sum_sq: 65025, pixel_count: 1 });
    assert_eq!(decibels(&r[0]), 0.0);
}
