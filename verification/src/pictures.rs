//! The calls into the image crate: an encoded picture in, an encoded picture
//! out.
use vstd::prelude::*;

verus! {

#[verifier::external_type_specification]
#[verifier::external_body]
pub struct ExImageError(image::ImageError);

/// The width and height of the picture that `encoded` holds; `None` where it
/// holds no picture that can be read.
pub uninterp spec fn picture_size(encoded: Seq<u8>) -> Option<(u32, u32)>;

/// The picture that `encoded` holds, as PNG; `None` where it holds no
/// picture that can be read or the picture cannot be written as PNG.
pub uninterp spec fn picture_png(encoded: Seq<u8>) -> Option<Seq<u8>>;

/// The picture that `encoded` holds, brought to `width` by `height` by taking
/// the nearest pixel and without keeping its proportions, as PNG; `None`
/// where it holds no picture that can be read or the result cannot be written
/// as PNG.
pub uninterp spec fn picture_resized(encoded: Seq<u8>, width: u32, height: u32) -> Option<Seq<u8>>;

/// The longest side that a picture is brought to.
pub const SIDE_LIMIT: u32 = 16384;

/// The bytes of an encoding that may have failed.
pub open spec fn encoded_view<E>(encoded: Result<Vec<u8>, E>) -> Option<Seq<u8>> {
    match encoded {
        Ok(bytes) => Some(bytes@),
        Err(_) => None,
    }
}

/// A size that may have failed.
pub open spec fn size_view<E>(size: Result<(u32, u32), E>) -> Option<(u32, u32)> {
    match size {
        Ok(size) => Some(size),
        Err(_) => None,
    }
}

/// `image::load_from_memory`, then `DynamicImage::width` and `height`. The
/// result is the one that `picture_size` names.
#[verifier::external_body]
pub(crate) fn size_of(encoded: &Vec<u8>) -> (size: Result<(u32, u32), image::ImageError>)
    ensures
        size_view(size) == picture_size(encoded@),
{
    let picture = image::load_from_memory(encoded)?;
    Ok((picture.width(), picture.height()))
}

/// `image::load_from_memory`, then `DynamicImage::write_to` into a new
/// buffer as PNG. The result is the one that `picture_png` names.
#[verifier::external_body]
pub(crate) fn to_png(encoded: &Vec<u8>) -> (png: Result<Vec<u8>, image::ImageError>)
    ensures
        encoded_view(png) == picture_png(encoded@),
{
    let picture = image::load_from_memory(encoded)?;
    let mut png = std::io::Cursor::new(Vec::new());
    picture.write_to(&mut png, image::ImageFormat::Png)?;
    Ok(png.into_inner())
}

/// `image::load_from_memory`, then `DynamicImage::resize_exact` with the
/// nearest-pixel filter and `write_to` into a new buffer as PNG. The result
/// is the one that `picture_resized` names. The sides are bounded so that
/// the new picture can be held.
#[verifier::external_body]
pub(crate) fn resize_to_png(encoded: &Vec<u8>, width: u32, height: u32) -> (png: Result<
    Vec<u8>,
    image::ImageError,
>)
    requires
        0 < width <= SIDE_LIMIT,
        0 < height <= SIDE_LIMIT,
    ensures
        encoded_view(png) == picture_resized(encoded@, width, height),
{
    let picture = image::load_from_memory(encoded)?;
    let resized = picture.resize_exact(width, height, image::imageops::FilterType::Nearest);
    let mut png = std::io::Cursor::new(Vec::new());
    resized.write_to(&mut png, image::ImageFormat::Png)?;
    Ok(png.into_inner())
}

} // verus!
