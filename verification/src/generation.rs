//! Interpretation of the image-generation service's response: a status
//! and a list of base64-encoded raster images, of which the first is
//! used. The service call itself is the caller's concern; this module
//! turns what came back into a decoded image or an exact error.

use vstd::prelude::*;

use crate::codec::base64_decoding_of;
use crate::codec::decode_base64;
use crate::codec::decode_png;
use crate::codec::png_decoding_of;
use crate::image_data::ImageModel;
use crate::image_data::RasterImage;

verus! {

/// Why a key could not be resolved to a generated image. Failure is
/// non-fatal: the key stays absent and callers draw a flat fallback.
#[derive(PartialEq, Eq, Structural, Clone, Copy, Debug)]
pub enum GenerationError {
    /// The generation service answered with a non-success status.
    ServiceFailure,
    /// The service answered success but with an empty image list.
    EmptyResponse,
    /// The first returned image is not valid base64.
    InvalidBase64,
    /// The returned bytes do not decode as a PNG raster image.
    UndecodableImage,
    /// The generated image does not have the requested dimensions.
    DimensionMismatch,
    /// The image could not be encoded for persistent storage.
    EncodeFailure,
}

/// What a successful response's image list decodes to: the first entry,
/// base64-decoded and then PNG-decoded.
pub open spec fn spec_decoded_payload(images: Seq<String>) -> Result<
    ImageModel,
    GenerationError,
> {
    if images.len() == 0 {
        Err(GenerationError::EmptyResponse)
    } else {
        match base64_decoding_of(images[0]@) {
            Option::None => Err(GenerationError::InvalidBase64),
            Option::Some(bytes) => match png_decoding_of(bytes) {
                Option::None => Err(GenerationError::UndecodableImage),
                Option::Some(img) => Ok(img),
            },
        }
    }
}

/// What a whole response means: a non-success status is an error, a
/// success decodes its payload.
pub open spec fn spec_generation_response(status_ok: bool, images: Seq<String>) -> Result<
    ImageModel,
    GenerationError,
> {
    if !status_ok {
        Err(GenerationError::ServiceFailure)
    } else {
        spec_decoded_payload(images)
    }
}

/// Decodes the generation service's response: a non-success status or an
/// empty image list is an error; otherwise the first image is
/// base64-decoded and PNG-decoded.
pub fn interpret_generation_response(status_ok: bool, images: &Vec<String>) -> (r: Result<
    RasterImage,
    GenerationError,
>)
    ensures
        match r {
            Ok(img) => img.wf() && spec_generation_response(status_ok, images@) == Ok::<
                ImageModel,
                GenerationError,
            >(img@),
            Err(e) => spec_generation_response(status_ok, images@) == Err::<
                ImageModel,
                GenerationError,
            >(e),
        },
{
    if !status_ok {
        return Err(GenerationError::ServiceFailure);
    }
    if images.len() == 0 {
        return Err(GenerationError::EmptyResponse);
    }
    let first: &String = &images[0];
    match decode_base64(first.as_str()) {
        Option::None => Err(GenerationError::InvalidBase64),
        Option::Some(bytes) => match decode_png(&bytes) {
            Option::None => Err(GenerationError::UndecodableImage),
            Option::Some(img) => Ok(img),
        },
    }
}

/// The fixed parameters every generation request carries beside its
/// prompt and dimensions: the negative prompt, the step count, the
/// guidance scale (in whole units) and the sampler name.
pub struct GenerationSettings {
    pub negative_prompt: &'static str,
    pub step_count: u32,
    pub guidance_scale: u32,
    pub sampler_name: &'static str,
}

/// The request template the generation service is always called with.
pub fn generation_settings() -> (r: GenerationSettings)
    ensures
        r.negative_prompt@
            == "blurry, worst quality, low quality, deformed, text, watermark, signature"@,
        r.step_count == 20,
        r.guidance_scale == 7,
        r.sampler_name@ == "Euler a"@,
{
    GenerationSettings {
        negative_prompt: "blurry, worst quality, low quality, deformed, text, watermark, signature",
        step_count: 20,
        guidance_scale: 7,
        sampler_name: "Euler a",
    }
}

} // verus!
