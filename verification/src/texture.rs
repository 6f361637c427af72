//! The decoding of the duck's texture, a JPEG image.

use vstd::prelude::*;

verus! {

/// What `image::load_from_memory_with_format` with the JPEG format, then
/// `to_rgba8`, make of the bytes: the width, the height and the RGBA8
/// pixel bytes, or `None` where the bytes are not a JPEG image that the
/// crate's built-in decoder reads.
pub uninterp spec fn jpeg_rgba8_decoding(bytes: Seq<u8>) -> Option<(u32, u32, Seq<u8>)>;

/// Decodes a JPEG image held in memory into RGBA8 pixels.
///
/// Calls `image::load_from_memory_with_format(bytes, ImageFormat::Jpeg)`
/// (the built-in JPEG decoder with the default limits), then
/// `DynamicImage::to_rgba8`. The contract claims only that the outcome is a
/// function of the bytes, named [`jpeg_rgba8_decoding`].
#[verifier::external_body]
fn decode_jpeg_rgba8(bytes: &[u8]) -> (r: Result<(u32, u32, Vec<u8>), image::ImageError>)
    ensures
        match r {
            Ok(d) => jpeg_rgba8_decoding(bytes@) == Some((d.0, d.1, d.2@)),
            Err(_) => jpeg_rgba8_decoding(bytes@) is None,
        },
{
    match image::load_from_memory_with_format(bytes, image::ImageFormat::Jpeg) {
        Ok(img) => {
            let rgba = img.to_rgba8();
            Ok((rgba.width(), rgba.height(), rgba.into_raw()))
        },
        Err(e) => Err(e),
    }
}

/// Decodes the duck's texture, a JPEG image, into its width, its height and
/// its RGBA8 pixels.
pub fn decode_texture(bytes: &[u8]) -> (r: Result<(u32, u32, Vec<u8>), image::ImageError>)
    ensures
        r is Ok <==> jpeg_rgba8_decoding(bytes@) is Some,
        r matches Ok(d) ==> jpeg_rgba8_decoding(bytes@) == Some((d.0, d.1, d.2@)),
{
    decode_jpeg_rgba8(bytes)
}

} // verus!
