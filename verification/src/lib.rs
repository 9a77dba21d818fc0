//! RGB565 pixel codec: conversion between packed 16-bit colours (five bits of
//! red, six of green, five of blue) and 8-bit-per-channel RGB, for single
//! pixels and for whole row-major images, together with what a previewer of
//! raw RGB565 files needs around it: reading bytes as words, and reading
//! widths and heights from text.

pub mod buffer;
pub mod codec;
pub mod decimal;
pub mod dimension;
pub mod error;
pub mod pixel;
pub mod preview;
pub mod raw;

pub use crate::buffer::Rgb888Image;
pub use crate::codec::{rgb565_to_rgb888_samples, rgb565_u16_image_to_rgb888, rgb888_to_rgb565_u16};
pub use crate::dimension::{dimension_hint, parse_dimension};
pub use crate::error::CodecError;
pub use crate::pixel::Rgb565Pixel;
pub use crate::preview::{decode_raw_image, refresh_due};
pub use crate::raw::{
    byte_order_of_probe, bytes_from_words, native_byte_order, slice_u16_to_slice_u8,
    slice_u8_to_slice_u16, words_from_bytes, ByteOrder,
};
