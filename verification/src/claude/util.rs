//! Image preparation for the vision-capable model variants.

use vstd::prelude::*;
use image::GenericImageView;
use image::codecs::png;

verus! {

/// What decoding, bounding to the given size, and re-encoding as PNG
/// makes of an image; `None` for bytes that do not decode.  Relies on the
/// image crate, whose result is a function of the inputs alone.
pub uninterp spec fn resized_png(bytes: Seq<u8>, max_w: u32, max_h: u32) -> Option<Seq<u8>>;

/// Relies on the image crate's format-guessing decoder, `resize`, and PNG
/// encoder: bytes that decode come back as a PNG no larger than the given
/// bounds; bytes that do not decode or re-encode yield `None`.
#[verifier::external_body]
pub fn resize_image(bytes: &Vec<u8>, max_w: u32, max_h: u32) -> (r: Option<Vec<u8>>)
    ensures
        r is Some <==> resized_png(bytes@, max_w, max_h) is Some,
        r matches Some(v) ==> resized_png(bytes@, max_w, max_h) matches Some(s) && v@ == s,
{
    let reader = image::ImageReader::new(std::io::Cursor::new(bytes)).with_guessed_format().ok()?;
    let mut img = reader.decode().ok()?;
    if img.width() > max_w || img.height() > max_h {
        img = img.resize(max_w, max_h, image::imageops::FilterType::Triangle);
    }
    let mut out: Vec<u8> = Vec::new();
    let enc = png::PngEncoder::new_with_quality(
        std::io::Cursor::new(&mut out),
        png::CompressionType::Best,
        png::FilterType::Adaptive,
    );
    img.write_with_encoder(enc).ok()?;
    Some(out)
}

} // verus!
