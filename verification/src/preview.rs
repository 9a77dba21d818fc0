//! What a previewer of raw RGB565 files computes between reading a file and
//! showing a picture.

use vstd::prelude::*;
use vstd::string::StringSliceAdditionalSpecFns;
use crate::buffer::{ImageModel, Rgb888Image};
use crate::codec::{decode_refusal, rgb565_u16_image_to_rgb888, rgb888_of};
use crate::decimal::{parse_unsigned, unsigned_of};
use crate::dimension::{dimension_of, parse_dimension};
use crate::error::CodecError;
use crate::raw::{words_from_bytes, words_of, ByteOrder};

verus! {

/// The seconds to wait between two renderings when the delay field holds no
/// number.
pub const DEFAULT_DELAY: u64 = 5;

/// Why the contents of a raw file cannot be shown under the width and height
/// that two text fields hold, if they cannot. The fields are judged first.
pub open spec fn raw_image_refusal(data: Seq<u8>, width: Seq<u8>, height: Seq<u8>) -> Option<
    CodecError,
> {
    if dimension_of(width).is_err() || dimension_of(height).is_err() {
        Some(CodecError::InvalidDimension)
    } else {
        decode_refusal(data.len() / 2, dimension_of(width).unwrap(), dimension_of(height).unwrap())
    }
}

/// The seconds that a delay field asks for: the number it holds, or
/// `DEFAULT_DELAY` if it holds none that fits in 64 bits.
pub open spec fn delay_of(text: Seq<u8>) -> nat {
    match unsigned_of(text, 0xFFFF_FFFF_FFFF_FFFF) {
        Some(seconds) => seconds,
        None => DEFAULT_DELAY as nat,
    }
}

/// Decode the contents of a raw file: `width * height` packed pixels in
/// row-major order, two bytes each in the given byte order, with no header.
///
/// `width` and `height` are the texts of the two size fields. The call is
/// refused if either is no positive number, if the file does not hold exactly
/// `width * height` words (a trailing odd byte aside), or if the image is too
/// large for this machine.
pub fn decode_raw_image(data: &[u8], width: &str, height: &str, order: ByteOrder) -> (r: Result<
    Rgb888Image,
    CodecError,
>)
    ensures
        r.is_ok() == raw_image_refusal(data@, width.spec_bytes(), height.spec_bytes()).is_none(),
        r.is_ok() ==> r.unwrap()@ == (ImageModel {
            width: dimension_of(width.spec_bytes()).unwrap(),
            height: dimension_of(height.spec_bytes()).unwrap(),
            samples: rgb888_of(words_of(data@, order)),
        }),
        r.is_ok() ==> r.unwrap().well_formed(),
        r.is_err() ==> Some(r.unwrap_err()) == raw_image_refusal(
            data@,
            width.spec_bytes(),
            height.spec_bytes(),
        ),
{
    let width: u32 = match parse_dimension(width) {
        Ok(width) => width,
        Err(e) => {
            return Err(e);
        },
    };
    let height: u32 = match parse_dimension(height) {
        Ok(height) => height,
        Err(e) => {
            return Err(e);
        },
    };
    let words = words_from_bytes(data, order);
    rgb565_u16_image_to_rgb888(words.as_slice(), width, height)
}

/// Whether a file that was last rendered `elapsed_seconds` ago is due for
/// rendering again: when more seconds have passed than the delay field asks
/// for.
pub fn refresh_due(elapsed_seconds: u64, delay: &str) -> (due: bool)
    ensures
        due == (elapsed_seconds > delay_of(delay.spec_bytes())),
{
    match parse_unsigned(delay.as_bytes(), 0xFFFF_FFFF_FFFF_FFFF) {
        Some(seconds) => elapsed_seconds > seconds,
        None => elapsed_seconds > DEFAULT_DELAY,
    }
}

} // verus!
