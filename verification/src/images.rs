//! Image bytes: decoding, through the `image` crate, to learn an image's size.
use vstd::prelude::*;
use crate::errors::AIProxyError;

verus! {

/// The (width, height) of the image that `bytes` decodes to, or none when the
/// bytes are not an image of a format the decoder recognises.
pub uninterp spec fn decoded_image_dimensions(bytes: Seq<u8>) -> Option<(u32, u32)>;

/// Decodes `bytes` with `image::ImageReader` (format guessed from the bytes,
/// default limits), converts the picture to 8-bit RGB and gives its
/// (width, height); none when the format cannot be guessed or decoding fails.
/// The result depends on the bytes alone, as long as no decoding or format
/// hook is registered with the `image` crate (nothing in this crate or its
/// program registers one); it is named, not described.
#[verifier::external_body]
fn decode_image_dimensions(bytes: &Vec<u8>) -> (res: Option<(u32, u32)>)
    ensures
        res == decoded_image_dimensions(bytes@),
{
    let reader = image::ImageReader::new(std::io::Cursor::new(bytes.as_slice()));
    match reader.with_guessed_format() {
        Ok(r) => match r.decode() {
            Ok(img) => Some(img.into_rgb8().dimensions()),
            Err(_) => None,
        },
        Err(_) => None,
    }
}

/// What the size of a decoded image gives: an error when it did not decode or
/// has no pixels, else its (width, height).
pub open spec fn image_dims_result(decoded: Option<(u32, u32)>) -> Result<(usize, usize), AIProxyError> {
    match decoded {
        None => Err(AIProxyError::ImageBytesDecodeError),
        Some((w, h)) => if w == 0 || h == 0 {
            Err(AIProxyError::ImageNonzeroDimensionError { width: w as usize, height: h as usize })
        } else {
            Ok((w as usize, h as usize))
        },
    }
}

/// Checks the size of a decoded image: it must have decoded and have pixels.
pub fn checked_image_dimensions(decoded: Option<(u32, u32)>) -> (res: Result<(usize, usize), AIProxyError>)
    ensures
        res == image_dims_result(decoded),
{
    match decoded {
        None => Err(AIProxyError::ImageBytesDecodeError),
        Some((w, h)) => {
            if w == 0 || h == 0 {
                Err(AIProxyError::ImageNonzeroDimensionError { width: w as usize, height: h as usize })
            } else {
                Ok((w as usize, h as usize))
            }
        },
    }
}

/// The (width, height) of the image in `bytes`, or why it cannot be used.
pub fn image_dimensions(bytes: &Vec<u8>) -> (res: Result<(usize, usize), AIProxyError>)
    ensures
        res == image_dims_result(decoded_image_dimensions(bytes@)),
{
    let decoded = decode_image_dimensions(bytes);
    checked_image_dimensions(decoded)
}

} // verus!
