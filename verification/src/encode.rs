//! Writing a raster out as a PNG stream.

use crate::naming::CropError;
use crate::raster::Raster;
use vstd::prelude::*;

verus! {

/// The error type of the `image` crate. Nothing is read from it: whatever
/// the encoder reports becomes `CropError::Io`.
#[verifier::external_type_specification]
#[verifier::external_body]
pub struct ExImageError(image::ImageError);

/// What the `image` crate's PNG encoder, set to run-length compression and
/// the Paeth filter, makes of an RGBA image with eight bits to the channel:
/// the PNG stream, or nothing where it reports an error. `data` holds the
/// pixels as bytes, four to a pixel, row by row.
pub uninterp spec fn png_encoded(data: Seq<u8>, width: nat, height: nat) -> Option<Seq<u8>>;

/// Runs `image::codecs::png::PngEncoder::encode`, on an encoder made by
/// `PngEncoder::new_with_quality` that writes into a vector, for an image of
/// the colour type `Rgba8`.
///
/// Believed of it, and not proved: that what it returns is settled by the
/// bytes, the width and the height alone, and that it reports an error for
/// an image without columns or without rows (the `png` crate refuses to
/// write a header with a zero width or height).
#[verifier::external_body]
fn png_encode(data: &Vec<u8>, width: u32, height: u32) -> (r: Result<Vec<u8>, image::ImageError>)
    requires
        data@.len() == 4 * (width * height),
    ensures
        match r {
            Ok(stream) => png_encoded(data@, width as nat, height as nat) == Some(stream@),
            Err(_) => png_encoded(data@, width as nat, height as nat).is_none(),
        },
        width == 0 || height == 0 ==> r is Err,
{
    let mut stream: Vec<u8> = Vec::new();
    image::codecs::png::PngEncoder::new_with_quality(
        &mut stream,
        image::codecs::png::CompressionType::Rle,
        image::codecs::png::FilterType::Paeth,
    ).encode(data, width, height, image::ColorType::Rgba8)?;
    Ok(stream)
}

/// What a crop makes of the encoder's answer: the stream where there is one,
/// and `CropError::Io` for whatever error the encoder reports.
pub fn written(answer: Result<Vec<u8>, image::ImageError>) -> (r: Result<Vec<u8>, CropError>)
    ensures
        match answer {
            Ok(stream) => r == Ok::<Vec<u8>, CropError>(stream),
            Err(_) => r == Err::<Vec<u8>, CropError>(CropError::Io),
        },
{
    match answer {
        Ok(stream) => Ok(stream),
        Err(_) => Err(CropError::Io),
    }
}

/// The image as a PNG stream, with run-length compression and the Paeth
/// filter: what `png_encoded` makes of the image's bytes, or
/// `CropError::Io` where the encoder reports an error. An image without
/// columns or without rows cannot be written and gives that error.
pub fn encode(image: &Raster) -> (r: Result<Vec<u8>, CropError>)
    ensures
        match png_encoded(image@.bytes(), image@.width, image@.height) {
            Some(stream) => r matches Ok(bytes) && bytes@ == stream,
            None => r == Err::<Vec<u8>, CropError>(CropError::Io),
        },
        image@.width == 0 || image@.height == 0 ==> r == Err::<Vec<u8>, CropError>(CropError::Io),
{
    let data = image.to_bytes();
    written(png_encode(&data, image.width(), image.height()))
}

} // verus!
