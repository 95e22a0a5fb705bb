//! Lossless raster encoding and text transport decoding, behind trusted
//! wrappers over the `image` and `base64` crates.
//!
//! What a PNG encoder or a base64 decoder returns is a function of its
//! input alone, so each result carries an uninterpreted name that the
//! wrappers' contracts and their callers' contracts share.

use vstd::prelude::*;

use crate::image_data::ImageModel;
use crate::image_data::RasterImage;

verus! {

/// The PNG encoding of an RGBA image, as the `image` crate's PNG encoder
/// writes it.
pub uninterp spec fn png_encoding_of(img: ImageModel) -> Seq<u8>;

/// The RGBA image that the given bytes decode to as a PNG, if they decode
/// at all, as the `image` crate's PNG decoder reads them (converted to
/// four RGBA bytes per pixel).
pub uninterp spec fn png_decoding_of(bytes: Seq<u8>) -> Option<ImageModel>;

/// The bytes the given characters decode to under the standard base64
/// alphabet, if they decode at all.
pub uninterp spec fn base64_decoding_of(s: Seq<char>) -> Option<Seq<u8>>;

/// Relies on `image::DynamicImage::write_to` with the PNG output format:
/// the encoder writes the RGBA8 pixels losslessly (PNG is a lossless
/// format), so the encoded bytes decode back to the same image. Writing
/// into an in-memory cursor cannot fail, and for a well-formed RGBA8
/// image the PNG encoder rejects only zero width or height, so an image
/// with at least one pixel always encodes.
#[verifier::external_body]
pub fn encode_png(image: &RasterImage) -> (r: Option<Vec<u8>>)
    requires
        image.wf(),
    ensures
        match r {
            Some(bytes) => bytes@ == png_encoding_of(image@) && png_decoding_of(bytes@)
                == Some(image@),
            None => r is None,
        },
        image@.width > 0 && image@.height > 0 ==> r is Some,
{
    let buffer = match image::RgbaImage::from_raw(image.width(), image.height(),
        image.data().clone()) {
        Some(b) => b,
        None => {
            return None;
        },
    };
    let mut out = std::io::Cursor::new(Vec::new());
    match image::DynamicImage::ImageRgba8(buffer).write_to(&mut out,
        image::ImageOutputFormat::Png) {
        Ok(()) => Some(out.into_inner()),
        Err(_) => None,
    }
}

/// Relies on `image::codecs::png::PngDecoder::new` (which decodes with
/// no allocation limit, so the outcome is a pure function of the bytes)
/// and `image::DynamicImage::from_decoder`. The decoded image is
/// converted to RGBA8, four bytes per pixel.
#[verifier::external_body]
pub fn decode_png(bytes: &Vec<u8>) -> (r: Option<RasterImage>)
    ensures
        match r {
            Some(img) => img.wf() && png_decoding_of(bytes@) == Some(img@),
            None => png_decoding_of(bytes@) is None,
        },
{
    let decoder = match image::codecs::png::PngDecoder::new(std::io::Cursor::new(bytes)) {
        Ok(d) => d,
        Err(_) => {
            return None;
        },
    };
    match image::DynamicImage::from_decoder(decoder) {
        Ok(decoded) => {
            let rgba = decoded.to_rgba8();
            let width = rgba.width();
            let height = rgba.height();
            RasterImage::from_raw(width, height, rgba.into_raw())
        },
        Err(_) => None,
    }
}

/// Relies on `base64::engine::general_purpose::STANDARD`'s `decode`:
/// decoding is a pure function of the characters.
#[verifier::external_body]
pub fn decode_base64(s: &str) -> (r: Option<Vec<u8>>)
    ensures
        match r {
            Some(bytes) => base64_decoding_of(s@) == Some(bytes@),
            None => base64_decoding_of(s@) is None,
        },
{
    match base64::Engine::decode(&base64::engine::general_purpose::STANDARD, s) {
        Ok(bytes) => Some(bytes),
        Err(_) => None,
    }
}

} // verus!
