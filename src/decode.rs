//! Decoding template images from encoded bytes.

use crate::geometry::ConfigError;
use crate::signature::Image;
use vstd::prelude::*;

verus! {

/// What the image decoder makes of the given bytes: width, height and RGB
/// pixels, or nothing when the bytes are not a decodable image.
pub uninterp spec fn decoded_rgb(bytes: Seq<u8>) -> Option<(u32, u32, Seq<u8>)>;

/// Relies on `image::load_from_memory` followed by `DynamicImage::to_rgb8`: the
/// format is guessed from the bytes and the decoded image converted to 8-bit
/// RGB, a result that depends on the bytes alone.
#[verifier::external_body]
fn decode_rgb(bytes: &Vec<u8>) -> (r: Option<Image>)
    ensures
        r is Some <==> decoded_rgb(bytes@) is Some,
        r matches Some(img) ==> decoded_rgb(bytes@) == Some((img.width, img.height, img.pixels@)),
{
    match image::load_from_memory(bytes) {
        Ok(img) => {
            let rgb = img.to_rgb8();
            Some(Image { width: rgb.width(), height: rgb.height(), pixels: rgb.into_raw() })
        },
        Err(_) => None,
    }
}

/// Whether decoded parts make a well-formed image.
pub open spec fn decoded_wf(d: (u32, u32, Seq<u8>)) -> bool {
    d.0 > 0 && d.1 > 0 && d.2.len() == 3 * (d.0 as int) * (d.1 as int)
}

/// Decodes a template image. Bytes that do not decode, or that decode to an
/// empty image, are a configuration error.
pub fn load_image(bytes: &Vec<u8>) -> (r: Result<Image, ConfigError>)
    ensures
        r is Ok <==> (decoded_rgb(bytes@) matches Some(d) && decoded_wf(d)),
        r matches Ok(img) ==> img.wf() && decoded_rgb(bytes@) == Some(
            (img.width, img.height, img.pixels@),
        ),
        r matches Err(e) ==> e == ConfigError::UndecodableImage,
{
    match decode_rgb(bytes) {
        Some(img) => {
            assert(3 * (img.width as int) * (img.height as int) <= 3 * 0xffff_ffff * 0xffff_ffff)
                by (nonlinear_arith)
                requires
                    0 <= img.width <= 0xffff_ffff,
                    0 <= img.height <= 0xffff_ffff,
            ;
            let expected: u128 = 3 * (img.width as u128) * (img.height as u128);
            if img.width > 0 && img.height > 0 && (img.pixels.len() as u128) == expected {
                Ok(img)
            } else {
                Err(ConfigError::UndecodableImage)
            }
        },
        None => Err(ConfigError::UndecodableImage),
    }
}

} // verus!
