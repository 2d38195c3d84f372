use vstd::prelude::*;
use image::GrayImage;
use crate::error::FieldError;
use crate::field::{Field, render, render_bytes, lemma_render_bytes};
use crate::point::Point;

verus! {

/// A grayscale image of the `image` crate. Verus refuses to declare
/// `ImageBuffer` itself (its `Pixel` bound), so the image is held here and
/// spoken of through `gray_bytes`.
#[verifier::external_body]
pub struct GrayRaster {
    pub image: GrayImage,
}

/// The raw bytes that a grayscale image holds, one per pixel, row by row.
pub uninterp spec fn gray_bytes(r: GrayRaster) -> Seq<u8>;

/// Relies on image::ImageBuffer::from_raw: it keeps `buf` as the image's bytes,
/// and returns `None` exactly when `width * height` bytes overflow `usize` or
/// are more than `buf` holds (a gray pixel has one channel).
#[verifier::external_body]
fn gray_from_raw(width: u32, height: u32, buf: Vec<u8>) -> (r: Option<GrayRaster>)
    ensures
        r.is_some() <==> (width as int * height as int <= usize::MAX && width as int
            * height as int <= buf@.len()),
        r matches Some(img) ==> gray_bytes(img) == buf@,
{
    GrayImage::from_raw(width, height, buf).map(|image| GrayRaster { image })
}

impl Field {
    /// The field as a grayscale image of the same size and bytes.
    pub fn into_image(self) -> (r: GrayRaster)
        requires
            self.wf(),
        ensures
            gray_bytes(r) == self.data@,
    {
        // A Vec's length fits in usize, and so then does width * height.
        let _len: usize = self.data.len();
        gray_from_raw(self.width, self.height, self.data).unwrap()
    }
}

/// Renders the field of the seeds as a grayscale image. Fails on an empty seed set.
pub fn generate_image(width: u32, height: u32, seeds: &Vec<Point>) -> (r: Result<
    GrayRaster,
    FieldError,
>)
    requires
        width as int * height as int <= usize::MAX,
    ensures
        seeds@.len() == 0 <==> r is Err,
        r matches Err(e) ==> e == FieldError::EmptySeedSet,
        r matches Ok(img) ==> gray_bytes(img) == render_bytes(width, height, seeds@),
{
    match render(width, height, seeds) {
        Ok(f) => {
            proof {
                lemma_render_bytes(f, width, height, seeds@);
            }
            Ok(f.into_image())
        },
        Err(e) => Err(e),
    }
}

} // verus!
