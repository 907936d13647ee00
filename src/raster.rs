use vstd::prelude::*;

verus! {

/// Mathematical model of a raster image: a `width` by `height` grid of
/// pixels, each holding `channels` intensities, stored row by row.
pub ghost struct ImageModel {
    pub width: nat,
    pub height: nat,
    pub channels: nat,
    pub samples: Seq<u8>,
}

impl ImageModel {
    /// Number of pixels in the grid.
    pub open spec fn pixel_count(self) -> nat {
        self.width * self.height
    }

    /// A well-formed image has at least one pixel and one channel, and holds
    /// exactly one intensity per channel of each pixel.
    pub open spec fn wf(self) -> bool {
        &&& self.width >= 1
        &&& self.height >= 1
        &&& self.channels >= 1
        &&& self.samples.len() == self.pixel_count() * self.channels
    }

    /// Intensity of channel `c` of the pixel with row-major index `p`, that is
    /// of the pixel at column `p % width`, row `p / width`.
    pub open spec fn sample(self, p: int, c: int) -> u8 {
        self.samples[p * self.channels + c]
    }

    /// Two images of the same width and height.
    pub open spec fn same_dimensions(self, other: ImageModel) -> bool {
        self.width == other.width && self.height == other.height
    }
}

/// An image held in memory: its dimensions, its channel count and its
/// intensities, row by row, pixel by pixel, channel by channel.
pub struct Image {
    width: u32,
    height: u32,
    channels: usize,
    samples: Vec<u8>,
}

impl Image {
    /// Every image is well formed.
    #[verifier::type_invariant]
    pub open spec fn inv(&self) -> bool {
        self@.wf()
    }
}

impl View for Image {
    type V = ImageModel;

    closed spec fn view(&self) -> ImageModel {
        ImageModel {
            width: self.width as nat,
            height: self.height as nat,
            channels: self.channels as nat,
            samples: self.samples@,
        }
    }
}

impl Image {
    /// Builds an image from its intensities, given row by row, pixel by pixel,
    /// channel by channel. Returns `None` unless the image has at least one
    /// pixel and one channel and `samples` holds exactly
    /// `width * height * channels` intensities.
    pub fn new(width: u32, height: u32, channels: usize, samples: Vec<u8>) -> (r: Option<Image>)
        ensures
            r.is_some() <==> (width >= 1 && height >= 1 && channels >= 1 && samples@.len()
                == width * height * channels),
            r matches Some(img) ==> (img@ == ImageModel {
                width: width as nat,
                height: height as nat,
                channels: channels as nat,
                samples: samples@,
            }),
            r matches Some(img) ==> img@.wf(),
    {
        if width == 0 || height == 0 || channels == 0 {
            return None;
        }
        assert(width as u64 * height as u64 <= u32::MAX as u64 * u32::MAX as u64) by (nonlinear_arith);
        let pixels: u64 = width as u64 * height as u64;
        assert(pixels as u128 * channels as u128 <= u64::MAX as u128 * usize::MAX as u128)
            by (nonlinear_arith);
        let expected: u128 = (pixels as u128) * (channels as u128);
        if samples.len() as u128 != expected {
            return None;
        }
        Some(Image { width, height, channels, samples })
    }

    /// Number of columns.
    pub fn width(&self) -> (r: u32)
        ensures
            r == self@.width,
    {
        self.width
    }

    /// Number of rows.
    pub fn height(&self) -> (r: u32)
        ensures
            r == self@.height,
    {
        self.height
    }

    /// Number of intensities in each pixel.
    pub fn channels(&self) -> (r: usize)
        ensures
            r == self@.channels,
    {
        self.channels
    }

    /// The intensities, row by row, pixel by pixel, channel by channel.
    pub fn samples(&self) -> (r: &Vec<u8>)
        ensures
            r@ == self@.samples,
    {
        &self.samples
    }
}

} // verus!
