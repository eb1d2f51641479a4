use vstd::prelude::*;

verus! {

/// What decoding an encoded image (its format guessed from its first bytes)
/// and converting it to 8-bit RGBA gives: the width, the height and the texels
/// row after row, four bytes each; nothing when the bytes are no image of a
/// format that can be decoded.
pub uninterp spec fn decoded_rgba8(encoded: Seq<u8>) -> Option<(u32, u32, Seq<u8>)>;

/// An embedded texture decoded to 8-bit RGBA texels.
pub struct DecodedTexture {
    pub width: u32,
    pub height: u32,
    pub rgba: Vec<u8>,
}

/// Decodes with `image::load_from_memory` and converts with
/// `DynamicImage::to_rgba8`.  Trusted: the result is what `decoded_rgba8`
/// names for the bytes, `None` where the crate returns an error.
#[verifier::external_body]
fn decode_rgba8(encoded: &[u8]) -> (r: Option<DecodedTexture>)
    ensures
        match r {
            Some(t) => decoded_rgba8(encoded@) == Some((t.width, t.height, t.rgba@)),
            None => decoded_rgba8(encoded@) is None,
        },
{
    match image::load_from_memory(encoded) {
        Ok(image) => {
            let rgba = image.to_rgba8();
            Some(DecodedTexture { width: rgba.width(), height: rgba.height(), rgba: rgba.into_raw() })
        },
        Err(_) => None,
    }
}

/// Decodes the bytes of a texture embedded in a model file to the RGBA texels
/// that are compressed and uploaded; nothing when the bytes cannot be decoded.
pub fn decode_embedded_texture(encoded: &[u8]) -> (r: Option<DecodedTexture>)
    ensures
        match decoded_rgba8(encoded@) {
            Some((width, height, rgba)) => r matches Some(t) && t.width == width && t.height == height
                && t.rgba@ == rgba,
            None => r is None,
        },
{
    decode_rgba8(encoded)
}

} // verus!
