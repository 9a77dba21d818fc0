//! Whole-image conversion between packed RGB565 words and RGB888 samples.

use vstd::prelude::*;
use crate::buffer::{image_from_raw, ImageModel, Rgb888Image};
use crate::error::CodecError;
use crate::pixel::{blue_of, green_of, pack_of, red_of, Rgb565Pixel};
use crate::pixel::{lemma_pack_of_unpack_is_identity, lemma_unpack_of_pack_masks_low_bits};

verus! {

/// Channel `k` of a packed pixel: 0 is red, 1 is green, 2 is blue.
pub open spec fn channel_of(word: u16, k: int) -> u8 {
    if k == 0 {
        red_of(word)
    } else if k == 1 {
        green_of(word)
    } else {
        blue_of(word)
    }
}

/// The RGB888 samples of a sequence of packed pixels: three samples per
/// pixel, red first, the pixels in the order given.
pub open spec fn rgb888_of(words: Seq<u16>) -> Seq<u8> {
    Seq::new(3 * words.len(), |k: int| channel_of(words[k / 3], k % 3))
}

/// The packed pixels of a sequence of RGB888 samples: one pixel for each
/// complete triple, the triples in the order given.
pub open spec fn rgb565_of(samples: Seq<u8>) -> Seq<u16> {
    Seq::new(
        samples.len() / 3,
        |i: int| pack_of(samples[3 * i], samples[3 * i + 1], samples[3 * i + 2]),
    )
}

/// Whether the samples of a `width` by `height` image can be counted in
/// `usize`: three times the width, and that times the height.
pub open spec fn samples_fit(width: u32, height: u32) -> bool {
    3 * width <= usize::MAX && 3 * (width * height) <= usize::MAX
}

/// Why a slice of `count` packed pixels cannot be decoded as a `width` by
/// `height` image, if it cannot.
pub open spec fn decode_refusal(count: nat, width: u32, height: u32) -> Option<CodecError> {
    if count != width * height {
        Some(CodecError::LengthMismatch)
    } else if !samples_fit(width, height) {
        Some(CodecError::TooLarge)
    } else {
        None
    }
}

/// The bits of a sample that survive packing: the top five of red and of
/// blue, the top six of green.
pub open spec fn kept_bits(k: int) -> u8 {
    if k == 1 {
        0xFCu8
    } else {
        0xF8u8
    }
}

/// Expand packed pixels to RGB888 samples, pixel by pixel in the order given.
pub fn rgb565_to_rgb888_samples(words: &[u16]) -> (samples: Vec<u8>)
    ensures
        samples@ == rgb888_of(words@),
{
    let count: usize = words.len();
    let mut samples: Vec<u8> = Vec::new();
    let mut i: usize = 0;
    while i < count
        invariant
            count == words@.len(),
            i <= count,
            samples@.len() == 3 * i,
            forall|k: int| 0 <= k < 3 * i ==> samples@[k] == channel_of(words@[k / 3], k % 3),
        decreases count - i,
    {
        let pixel = Rgb565Pixel(words[i]);
        samples.push(pixel.red());
        samples.push(pixel.green());
        samples.push(pixel.blue());
        i += 1;
    }
    samples
}

/// Convert an image of RGB888 samples to packed RGB565 pixels.
///
/// `img` holds three bytes per pixel, `width * height` pixels in row-major
/// order. Each triple becomes one packed pixel, in the same order. A buffer
/// of any other length is refused.
pub fn rgb888_to_rgb565_u16(img: &[u8], width: usize, height: usize) -> (r: Result<
    Vec<u16>,
    CodecError,
>)
    ensures
        r.is_ok() == (img@.len() == 3 * (width * height)),
        r.is_ok() ==> r.unwrap()@ == rgb565_of(img@),
        r.is_err() ==> r.unwrap_err() == CodecError::LengthMismatch,
{
    let len: usize = img.len();
    let count: usize = match width.checked_mul(height) {
        Some(count) => count,
        None => {
            return Err(CodecError::LengthMismatch);
        },
    };
    let expected: usize = match count.checked_mul(3) {
        Some(expected) => expected,
        None => {
            return Err(CodecError::LengthMismatch);
        },
    };
    if len != expected {
        return Err(CodecError::LengthMismatch);
    }
    let mut rgb565: Vec<u16> = Vec::with_capacity(count);
    let mut i: usize = 0;
    while i < count
        invariant
            img@.len() == 3 * count,
            3 * count <= usize::MAX,
            i <= count,
            rgb565@.len() == i,
            forall|j: int|
                0 <= j < i ==> rgb565@[j] == pack_of(
                    img@[3 * j],
                    img@[3 * j + 1],
                    img@[3 * j + 2],
                ),
        decreases count - i,
    {
        let pixel = Rgb565Pixel::from_rgb(img[3 * i], img[3 * i + 1], img[3 * i + 2]);
        rgb565.push(pixel.0);
        i += 1;
    }
    Ok(rgb565)
}

/// Convert an image of packed RGB565 pixels to an RGB888 image.
///
/// `rgb565` holds `width * height` pixels in row-major order. Pixel `i` of
/// the result has the three channels of word `i`. A slice of any other
/// length is refused, and so is an image whose samples this machine cannot
/// count.
pub fn rgb565_u16_image_to_rgb888(rgb565: &[u16], width: u32, height: u32) -> (r: Result<
    Rgb888Image,
    CodecError,
>)
    ensures
        r.is_ok() == decode_refusal(rgb565@.len(), width, height).is_none(),
        r.is_ok() ==> r.unwrap()@ == (ImageModel { width, height, samples: rgb888_of(rgb565@) }),
        r.is_ok() ==> r.unwrap().well_formed(),
        r.is_err() ==> Some(r.unwrap_err()) == decode_refusal(rgb565@.len(), width, height),
{
    assert(width * height <= 0xFFFF_FFFE_0000_0001) by (nonlinear_arith)
        requires
            width <= 0xFFFF_FFFF,
            height <= 0xFFFF_FFFF,
    ;
    let expected: u64 = (width as u64) * (height as u64);
    if rgb565.len() as u64 != expected {
        return Err(CodecError::LengthMismatch);
    }
    if (width as usize).checked_mul(3).is_none() || rgb565.len().checked_mul(3).is_none() {
        return Err(CodecError::TooLarge);
    }
    let samples = rgb565_to_rgb888_samples(rgb565);
    assert((3 * width) * height == 3 * (width * height)) by (nonlinear_arith);
    Ok(image_from_raw(width, height, samples).unwrap())
}

/// Decoding keeps count and order: the samples are three per word, and
/// pixel `i` of the samples holds the red, green and blue of word `i`.
pub proof fn lemma_rgb888_of_keeps_count_and_order(words: Seq<u16>, i: int)
    requires
        0 <= i < words.len(),
    ensures
        rgb888_of(words).len() == 3 * words.len(),
        rgb888_of(words)[3 * i] == red_of(words[i]),
        rgb888_of(words)[3 * i + 1] == green_of(words[i]),
        rgb888_of(words)[3 * i + 2] == blue_of(words[i]),
{
}

/// Decoding keeps rows and columns: in a `width` by `height` image, the pixel
/// in column `x` of row `y` is word `y * width + x`, and its samples stand at
/// three times that place.
pub proof fn lemma_rgb888_of_is_row_major(words: Seq<u16>, width: int, height: int, x: int, y: int)
    requires
        words.len() == width * height,
        0 <= x < width,
        0 <= y < height,
    ensures
        0 <= y * width + x < words.len(),
        rgb888_of(words)[3 * (y * width + x)] == red_of(words[y * width + x]),
        rgb888_of(words)[3 * (y * width + x) + 1] == green_of(words[y * width + x]),
        rgb888_of(words)[3 * (y * width + x) + 2] == blue_of(words[y * width + x]),
{
    assert(0 <= y * width + x < width * height) by (nonlinear_arith)
        requires
            0 <= x < width,
            0 <= y < height,
    ;
    lemma_rgb888_of_keeps_count_and_order(words, y * width + x);
}

/// Decoding and then encoding gives the packed pixels back unchanged.
pub proof fn lemma_rgb565_of_rgb888_is_identity(words: Seq<u16>)
    ensures
        rgb565_of(rgb888_of(words)) == words,
{
    let samples = rgb888_of(words);
    assert forall|i: int| 0 <= i < words.len() implies #[trigger] rgb565_of(samples)[i]
        == words[i] by {
        lemma_pack_of_unpack_is_identity(words[i]);
    }
    assert(rgb565_of(samples) =~= words);
}

/// Encoding and then decoding gives each sample of a whole number of triples
/// back with its low bits cleared: the low three bits of red and of blue, the
/// low two of green.
pub proof fn lemma_rgb888_of_rgb565_masks_low_bits(samples: Seq<u8>)
    requires
        samples.len() % 3 == 0,
    ensures
        rgb888_of(rgb565_of(samples)).len() == samples.len(),
        forall|k: int|
            0 <= k < samples.len() ==> #[trigger] rgb888_of(rgb565_of(samples))[k] == samples[k]
                & kept_bits(k % 3),
{
    let words = rgb565_of(samples);
    assert forall|k: int| 0 <= k < samples.len() implies #[trigger] rgb888_of(words)[k]
        == samples[k] & kept_bits(k % 3) by {
        let i = k / 3;
        lemma_unpack_of_pack_masks_low_bits(samples[3 * i], samples[3 * i + 1], samples[3 * i + 2]);
    }
}

} // verus!
