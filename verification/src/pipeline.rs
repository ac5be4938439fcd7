//! The computing stages of the pipeline, stitched together: the input gate
//! and tensor packing before inference, the choice of tensor names, and the
//! mask, composite and PNG encoding after it.  The caller reads the input
//! file, runs the inference session on the packed tensor, quantizes the float
//! output to bytes, and writes the returned PNG bytes to disk.

use vstd::prelude::*;

use crate::errors::RmbgError;
use crate::imageio::decode_rgba;
use crate::imageio::decoded_image;
use crate::imageio::encode_png;
use crate::imageio::is_image_path;
use crate::imageio::mime_top_of;
use crate::imageio::png_encoding;
use crate::imageio::resize_triangle;
use crate::imageio::resized_rgba;
use crate::pixels::composite_of;
use crate::pixels::composite_rgba;
use crate::pixels::build_mask_rgba;
use crate::pixels::mask_of;
use crate::pixels::pack_channels;
use crate::pixels::planar_of;

verus! {

/// What the preprocessor hands on: the packed model input together with the
/// retained source pixels and dimensions for the final composite.
#[derive(Debug)]
pub struct PreparedInput {
    /// Width of the source image in pixels.
    pub width: u32,
    /// Height of the source image in pixels.
    pub height: u32,
    /// The source image's raw RGBA bytes at full resolution.
    pub source_rgba: Vec<u8>,
    /// The model input: the source resized to the model's square resolution
    /// and packed channel-first (R plane, G plane, B plane).
    pub planar: Vec<u8>,
}

/// Whether the bytes decode to an image with at least one pixel.
pub open spec fn decodes_to_pixels(bytes: Seq<u8>) -> bool {
    match decoded_image(bytes) {
        Some(t) => t.0 > 0 && t.1 > 0,
        None => false,
    }
}

/// How a `PreparedInput` relates to the decoded input bytes: the dimensions
/// and source pixels are those of the decoded image, and the packed tensor is
/// the channel-first packing of the image resized to the model's resolution.
pub open spec fn prepared_from(pi: PreparedInput, bytes: Seq<u8>, resolution: nat) -> bool {
    match decoded_image(bytes) {
        Some(t) => {
            &&& pi.width as nat == t.0
            &&& pi.height as nat == t.1
            &&& pi.source_rgba@ == t.2
            &&& pi.planar@ == planar_of(resized_rgba(t.2, t.0, t.1, resolution, resolution))
        },
        None => false,
    }
}

/// The preprocessor: gates the input on its guessed MIME type, decodes it,
/// resizes it to the model's square resolution with the triangle filter, and
/// packs the resized pixels channel-first.  Returns the packed tensor
/// together with the retained source pixels and dimensions.
///
/// Fails with `UnsupportedFileType` exactly when the path's guessed MIME
/// type is not in the `image` family (checked before any decode attempt),
/// and with `DecodeError` exactly when the MIME check passes but the bytes
/// do not decode to an image with pixels.
pub fn prepare_input(path: &str, bytes: &Vec<u8>, resolution: u32) -> (r: Result<
    PreparedInput,
    RmbgError,
>)
    requires
        resolution >= 1,
    ensures
        (r matches Err(e) && e == RmbgError::UnsupportedFileType) <==> mime_top_of(path@)
            != "image"@,
        (r matches Err(e) && e == RmbgError::DecodeError) <==> (mime_top_of(path@) == "image"@
            && !decodes_to_pixels(bytes@)),
        r is Ok <==> (mime_top_of(path@) == "image"@ && decodes_to_pixels(bytes@)),
        r matches Ok(pi) ==> {
            &&& prepared_from(pi, bytes@, resolution as nat)
            &&& pi.width > 0
            &&& pi.height > 0
            &&& pi.source_rgba@.len() == 4 * (pi.width as nat) * (pi.height as nat)
            &&& pi.planar@.len() == 3 * (resolution as nat) * (resolution as nat)
        },
{
    if !is_image_path(path) {
        return Err(RmbgError::UnsupportedFileType);
    }
    match decode_rgba(bytes) {
        Err(()) => Err(RmbgError::DecodeError),
        Ok((w, h, data)) => {
            if w == 0 || h == 0 {
                return Err(RmbgError::DecodeError);
            }
            let resized = resize_triangle(&data, w, h, resolution, resolution);
            let planar = pack_channels(&resized);
            proof {
                assert((4 * (resolution as nat) * (resolution as nat)) / 4 == (resolution as nat)
                    * (resolution as nat)) by (nonlinear_arith);
                assert(3 * ((resolution as nat) * (resolution as nat)) == 3 * (resolution as nat)
                    * (resolution as nat)) by (nonlinear_arith);
            }
            Ok(PreparedInput { width: w, height: h, source_rgba: data, planar })
        },
    }
}

/// The final artifact of a run: the quantized model output built into a
/// grayscale mask, resized back to the source dimensions with the triangle
/// filter, composited as the alpha channel over the source pixels, and
/// encoded as PNG — or `None` when the encoder refuses that composite.
pub open spec fn final_png(
    intensities: Seq<u8>,
    resolution: nat,
    width: nat,
    height: nat,
    source_rgba: Seq<u8>,
) -> Option<Seq<u8>> {
    png_encoding(
        composite_of(
            source_rgba,
            resized_rgba(mask_of(intensities), resolution, resolution, width, height),
        ),
        width,
        height,
    )
}

/// The postprocessor: builds the grayscale mask image from the quantized
/// model output, resizes it back to the source dimensions with the same
/// triangle filter, composites it as the alpha channel over the source
/// pixels, and encodes the result as PNG.  The returned bytes are exactly
/// the PNG encoding of that composite, and the call succeeds if and only if
/// that encoding exists; the final image keeps the source dimensions
/// whatever the model resolution was.  Fails with `WriteError` exactly when
/// the PNG encoder refuses the composite.
pub fn finish_output(
    intensities: &Vec<u8>,
    resolution: u32,
    width: u32,
    height: u32,
    source_rgba: &Vec<u8>,
) -> (r: Result<Vec<u8>, RmbgError>)
    requires
        resolution >= 1,
        intensities@.len() == (resolution as nat) * (resolution as nat),
        width > 0,
        height > 0,
        source_rgba@.len() == 4 * (width as nat) * (height as nat),
    ensures
        r is Ok <==> final_png(
            intensities@,
            resolution as nat,
            width as nat,
            height as nat,
            source_rgba@,
        ) is Some,
        r matches Ok(png) ==> final_png(
            intensities@,
            resolution as nat,
            width as nat,
            height as nat,
            source_rgba@,
        ) == Some(png@),
        r matches Err(e) ==> e == RmbgError::WriteError,
{
    let mask = build_mask_rgba(intensities);
    proof {
        assert(4 * ((resolution as nat) * (resolution as nat)) == 4 * (resolution as nat) * (
        resolution as nat)) by (nonlinear_arith);
    }
    let resized_mask = resize_triangle(&mask, resolution, resolution, width, height);
    let composited = composite_rgba(source_rgba, &resized_mask);
    match encode_png(&composited, width, height) {
        Ok(png) => Ok(png),
        Err(()) => Err(RmbgError::WriteError),
    }
}

/// Picks the tensor names the pipeline binds to: the first declared input and
/// the first declared output.  The model is assumed to use one of each;
/// further declared tensors are ignored.  Fails with `SchemaError` when the
/// model declares no input or no output.
pub fn select_io_names(inputs: &Vec<String>, outputs: &Vec<String>) -> (r: Result<
    (String, String),
    RmbgError,
>)
    ensures
        match r {
            Ok(names) => {
                &&& inputs@.len() > 0
                &&& outputs@.len() > 0
                &&& names.0@ == inputs@[0]@
                &&& names.1@ == outputs@[0]@
            },
            Err(e) => {
                &&& e == RmbgError::SchemaError
                &&& (inputs@.len() == 0 || outputs@.len() == 0)
            },
        },
{
    if inputs.len() == 0 || outputs.len() == 0 {
        Err(RmbgError::SchemaError)
    } else {
        Ok(((&inputs[0]).clone(), (&outputs[0]).clone()))
    }
}

} // verus!
