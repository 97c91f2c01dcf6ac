use vstd::prelude::*;
use image::DynamicImage;
use crate::reduce::SourceImage;
use crate::source::{sampled, SampleError};

verus! {

#[verifier::external_type_specification]
#[verifier::external_body]
pub struct ExDynamicImage(DynamicImage);

/// The width, height and row-major RGBA8 bytes of a decoded image.
pub uninterp spec fn rgba8_of(img: DynamicImage) -> (u32, u32, Seq<u8>);

/// The width, height and row-major RGBA8 bytes of a decoded image's luma
/// version.
pub uninterp spec fn gray_rgba8_of(img: DynamicImage) -> (u32, u32, Seq<u8>);

/// Relies on `DynamicImage::to_rgba8`, `ImageBuffer::dimensions` and
/// `ImageBuffer::into_raw`: the image's width, height and RGBA8 bytes; an
/// image buffer holds at least four bytes per pixel.
#[verifier::external_body]
fn rgba_buffer(img: &DynamicImage) -> (r: (u32, u32, Vec<u8>))
    ensures
        (r.0, r.1, r.2@) == rgba8_of(*img),
        r.2@.len() >= 4 * r.0 * r.1,
{
    let buf = img.to_rgba8();
    let (w, h) = buf.dimensions();
    (w, h, buf.into_raw())
}

/// Relies on `DynamicImage::grayscale`, then `to_rgba8`,
/// `ImageBuffer::dimensions` and `ImageBuffer::into_raw`: the luma version's
/// width, height and RGBA8 bytes.
#[verifier::external_body]
fn gray_rgba_buffer(img: &DynamicImage) -> (r: (u32, u32, Vec<u8>))
    ensures
        (r.0, r.1, r.2@) == gray_rgba8_of(*img),
        r.2@.len() >= 4 * r.0 * r.1,
{
    let buf = img.grayscale().to_rgba8();
    let (w, h) = buf.dimensions();
    (w, h, buf.into_raw())
}

impl SourceImage {
    /// Samples a decoded image, turned to grayscale first if asked, with the
    /// rows read in parallel if asked. The result is what sampling the image's
    /// RGBA8 buffer gives.
    pub fn from_decoded(img: &DynamicImage, grayscale: bool, parallel: bool) -> (r: Result<SourceImage, SampleError>)
        ensures
            ({
                let (w, h, bytes) = if grayscale {
                    gray_rgba8_of(*img)
                } else {
                    rgba8_of(*img)
                };
                sampled(r, w, h, bytes)
            }),
    {
        let (w, h, bytes) = if grayscale {
            gray_rgba_buffer(img)
        } else {
            rgba_buffer(img)
        };
        let r = if parallel {
            SourceImage::from_rgba_parallel(w, h, &bytes)
        } else {
            SourceImage::from_rgba(w, h, &bytes)
        };
        assert(sampled(r, w, h, bytes@));
        r
    }
}

} // verus!
