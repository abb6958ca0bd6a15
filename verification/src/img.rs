use crate::render::color::{pack_rgb, Color};
use crate::types::Image;
use vstd::prelude::*;

verus! {

/// `image::DynamicImage`: a decoded image in any of the pixel formats of the
/// `image` crate.
#[verifier::external_type_specification]
#[verifier::external_body]
pub struct ExDynamicImage(image::DynamicImage);

/// The pixels of a decoded image as 8-bit RGB triples, row by row: what
/// `image::DynamicImage::to_rgb8` makes of the image.
pub uninterp spec fn rgb8_pixels(image: image::DynamicImage) -> Seq<(u8, u8, u8)>;

/// Calls `image::DynamicImage::to_rgb8` and hands out the pixels of the RGB
/// image it returns, in the order of `ImageBuffer::pixels`, each as the
/// triple of its three channels. The contract only names that sequence.
#[verifier::external_body]
fn to_rgb8_pixels(dynamic: &image::DynamicImage) -> (pixels: Vec<(u8, u8, u8)>)
    ensures
        pixels@ == rgb8_pixels(*dynamic),
{
    dynamic.to_rgb8().pixels().map(|px| (px.0[0], px.0[1], px.0[2])).collect()
}

/// The colors of a sequence of RGB triples.
pub open spec fn colors_of(rgb: Seq<(u8, u8, u8)>) -> Seq<Color> {
    Seq::new(rgb.len(), |i: int| Color(pack_rgb(rgb[i].0, rgb[i].1, rgb[i].2)))
}

/// Convert a decoded image of the `image` crate to an [Image]: its pixels as
/// 8-bit RGB, each packed into a color.
pub fn dynamic_to_img(dynamic: image::DynamicImage) -> (img: Image)
    ensures
        img@ == colors_of(rgb8_pixels(dynamic)),
{
    let pixels = to_rgb8_pixels(&dynamic);
    rgb_to_img(pixels.as_slice())
}

/// Convert RGB pixels to an [Image]: each triple is packed into a color.
pub fn rgb_to_img(rgb: &[(u8, u8, u8)]) -> (img: Image)
    ensures
        img@ == colors_of(rgb@),
{
    let mut img: Image = Vec::with_capacity(rgb.len());
    let mut i: usize = 0;
    while i < rgb.len()
        invariant
            i <= rgb.len(),
            img@ == colors_of(rgb@.take(i as int)),
        decreases rgb.len() - i,
    {
        let px = rgb[i];
        img.push(Color::from_rgb(px.0, px.1, px.2));
        assert(img@ =~= colors_of(rgb@.take(i + 1)));
        i += 1;
    }
    assert(rgb@.take(i as int) =~= rgb@);
    img
}

} // verus!
