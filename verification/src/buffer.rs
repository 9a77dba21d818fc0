//! The decoded image: a row-major RGB888 buffer kept in an
//! `image::RgbImage`.

use vstd::prelude::*;

verus! {

/// A decoded image, three bytes per pixel (red, green, blue), rows from top to
/// bottom and pixels from left to right within a row.
///
/// It owns an `image::RgbImage`, which is opaque to proofs: all that contracts
/// say of an image, they say through its view, which is made of
/// `image_samples` and `image_dimensions`.
#[verifier::external_body]
#[derive(Debug, PartialEq, Eq)]
pub struct Rgb888Image {
    image: image::RgbImage,
}

/// What an image is to a contract: its size in pixels and its samples.
pub struct ImageModel {
    pub width: u32,
    pub height: u32,
    pub samples: Seq<u8>,
}

/// The sample buffer of an image, as `image::ImageBuffer::as_raw` hands it
/// out: red, green, blue of the first pixel, then of the second, and so on.
pub uninterp spec fn image_samples(img: Rgb888Image) -> Seq<u8>;

/// The width and height of an image in pixels, as
/// `image::ImageBuffer::dimensions` hands them out.
pub uninterp spec fn image_dimensions(img: Rgb888Image) -> (u32, u32);

/// `image::ImageBuffer::from_raw` for an RGB buffer of bytes.
///
/// Trusted: the image crate accepts the buffer when the sample count, computed
/// as three times the width and then times the height, fits in `usize` at both
/// steps and is at most the buffer's length. The image then holds the buffer
/// as it was given, under the given width and height.
#[verifier::external_body]
pub(crate) fn image_from_raw(width: u32, height: u32, samples: Vec<u8>) -> (r: Option<Rgb888Image>)
    ensures
        r.is_some() == (3 * width <= usize::MAX && (3 * width) * height <= samples@.len()),
        r.is_some() ==> image_samples(r.unwrap()) == samples@,
        r.is_some() ==> image_dimensions(r.unwrap()).0 == width,
        r.is_some() ==> image_dimensions(r.unwrap()).1 == height,
{
    match image::RgbImage::from_raw(width, height, samples) {
        Some(image) => Some(Rgb888Image { image }),
        None => None,
    }
}

/// `image::ImageBuffer::as_raw`.
///
/// Trusted: it lends the image's sample buffer.
#[verifier::external_body]
pub(crate) fn image_as_raw(img: &Rgb888Image) -> (r: &Vec<u8>)
    ensures
        r@ == image_samples(*img),
{
    img.image.as_raw()
}

/// `image::ImageBuffer::dimensions`.
///
/// Trusted: it returns the image's width and height.
#[verifier::external_body]
pub(crate) fn image_size(img: &Rgb888Image) -> (r: (u32, u32))
    ensures
        r == image_dimensions(*img),
{
    img.image.dimensions()
}

impl View for Rgb888Image {
    type V = ImageModel;

    open spec fn view(&self) -> ImageModel {
        ImageModel {
            width: image_dimensions(*self).0,
            height: image_dimensions(*self).1,
            samples: image_samples(*self),
        }
    }
}

impl Rgb888Image {
    /// Whether the image holds exactly three samples for each of its
    /// `width * height` pixels. Every image that decoding returns does.
    pub open spec fn well_formed(&self) -> bool {
        self@.samples.len() == 3 * (self@.width * self@.height)
    }

    /// The width of the image in pixels.
    pub fn width(&self) -> (w: u32)
        ensures
            w == self@.width,
    {
        image_size(self).0
    }

    /// The height of the image in pixels.
    pub fn height(&self) -> (h: u32)
        ensures
            h == self@.height,
    {
        image_size(self).1
    }

    /// The samples of the image, three bytes per pixel in row-major order.
    pub fn as_raw(&self) -> (samples: &[u8])
        ensures
            samples@ == self@.samples,
    {
        image_as_raw(self).as_slice()
    }
}

} // verus!
