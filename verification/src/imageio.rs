//! Trusted wrappers over the `image` and `mime_guess` crates.
//!
//! Each wrapper makes one outside call on in-memory values and states its
//! result over an uninterpreted name: decoding, resampling and encoding are
//! functions of their byte arguments alone, and the MIME guess is a lookup in
//! a static table keyed by the path's extension.  All file reads and writes
//! stay with the caller outside this library.

use vstd::prelude::*;
use vstd::string::StringExecFns;

verus! {

/// The top-level part of the MIME type that `mime_guess` associates with a
/// path, with `application` standing in where the table knows nothing.
pub uninterp spec fn mime_top_of(path: Seq<char>) -> Seq<char>;

/// What `image::load_from_memory` makes of a byte buffer: `None` when no
/// codec can parse it, otherwise the width, height and raw RGBA bytes of the
/// decoded image.
pub uninterp spec fn decoded_image(bytes: Seq<u8>) -> Option<(nat, nat, Seq<u8>)>;

/// The RGBA buffer that `image::imageops::resize` with the triangle filter
/// produces from a `w` by `h` buffer, at the new dimensions `nw` by `nh`.
pub uninterp spec fn resized_rgba(data: Seq<u8>, w: nat, h: nat, nw: nat, nh: nat) -> Seq<u8>;

/// What encoding a `w` by `h` RGBA buffer as PNG yields: the encoded bytes,
/// or `None` when the encoder refuses the buffer.  Encoding to memory reads
/// nothing but the pixels and dimensions, so both the outcome and the bytes
/// are a function of them alone.
pub uninterp spec fn png_encoding(data: Seq<u8>, w: nat, h: nat) -> Option<Seq<u8>>;

/// Relies on `mime_guess::from_path` and `MimeGuess::first_or_octet_stream`:
/// the guess reads only the path's extension against a static table, so the
/// returned top-level name is a function of the path alone.
#[verifier::external_body]
fn mime_top_level(path: &str) -> (r: String)
    ensures
        r@ == mime_top_of(path@),
{
    let mime = mime_guess::from_path(std::path::Path::new(path)).first_or_octet_stream();
    String::from(mime.type_().as_str())
}

/// Decides the pipeline's input gate: whether the MIME type guessed from the
/// path's extension has top-level type `image`.
pub fn is_image_path(path: &str) -> (r: bool)
    ensures
        r == (mime_top_of(path@) == "image"@),
{
    let top = mime_top_level(path);
    let image_tag = String::from_str("image");
    top == image_tag
}

/// Relies on `image::load_from_memory` and `DynamicImage::to_rgba8`:
/// decoding is a function of the bytes alone, and the raw RGBA buffer of a
/// decoded image holds exactly four bytes per pixel.
#[verifier::external_body]
pub(crate) fn decode_rgba(bytes: &Vec<u8>) -> (r: Result<(u32, u32, Vec<u8>), ()>)
    ensures
        match r {
            Ok(t) => {
                &&& decoded_image(bytes@) == Some(((t.0 as nat), (t.1 as nat), t.2@))
                &&& t.2@.len() == 4 * (t.0 as nat) * (t.1 as nat)
            },
            Err(()) => decoded_image(bytes@) is None,
        },
{
    match image::load_from_memory(bytes.as_slice()) {
        Ok(img) => {
            let (w, h) = (img.width(), img.height());
            Ok((w, h, img.to_rgba8().into_raw()))
        },
        Err(_) => Err(()),
    }
}

/// Relies on `image::imageops::resize` with `FilterType::Triangle`: the
/// resampled buffer is a function of the pixels and the four dimensions
/// alone, and always has exactly the requested dimensions.
#[verifier::external_body]
pub(crate) fn resize_triangle(data: &Vec<u8>, w: u32, h: u32, nw: u32, nh: u32) -> (r: Vec<u8>)
    requires
        data@.len() == 4 * (w as nat) * (h as nat),
        w > 0,
        h > 0,
        nw > 0,
        nh > 0,
    ensures
        r@ == resized_rgba(data@, w as nat, h as nat, nw as nat, nh as nat),
        r@.len() == 4 * (nw as nat) * (nh as nat),
{
    let buf: image::ImageBuffer<image::Rgba<u8>, Vec<u8>> = image::ImageBuffer::from_raw(
        w,
        h,
        data.clone(),
    ).unwrap();
    image::imageops::resize(&buf, nw, nh, image::imageops::FilterType::Triangle).into_raw()
}

/// Relies on `ImageBuffer::write_to` with `ImageFormat::Png`: encoding a
/// valid RGBA buffer to an in-memory PNG reads only the pixels and
/// dimensions, so whether it succeeds, and the bytes it yields, are a
/// function of them alone.
#[verifier::external_body]
pub(crate) fn encode_png(data: &Vec<u8>, w: u32, h: u32) -> (r: Result<Vec<u8>, ()>)
    requires
        data@.len() == 4 * (w as nat) * (h as nat),
        w > 0,
        h > 0,
    ensures
        match r {
            Ok(p) => png_encoding(data@, w as nat, h as nat) == Some(p@),
            Err(()) => png_encoding(data@, w as nat, h as nat) is None,
        },
{
    let buf: image::ImageBuffer<image::Rgba<u8>, Vec<u8>> = image::ImageBuffer::from_raw(
        w,
        h,
        data.clone(),
    ).unwrap();
    let mut out: std::io::Cursor<Vec<u8>> = std::io::Cursor::new(Vec::new());
    match buf.write_to(&mut out, image::ImageFormat::Png) {
        Ok(()) => Ok(out.into_inner()),
        Err(_) => Err(()),
    }
}

} // verus!
