//! Pictures as PNG files: RGBA8 pixels, eight bits a channel, encoded by the
//! `png` crate.

use vstd::prelude::*;

verus! {

/// The PNG file the `png` crate's encoder writes, with its default options,
/// for an RGBA8 image of `width` x `height` holding `pixels`.
pub uninterp spec fn png_rgba8_of(width: u32, height: u32, pixels: Seq<u8>) -> Seq<u8>;

/// `png::Encoder` into memory, colour type RGBA and bit depth eight: the
/// header, the image data and the end. Claimed: with one full image of
/// pixels it fails exactly when the width or the height is zero (the header
/// refuses those; writing into a `Vec` cannot fail otherwise), and what it
/// writes is a function of the size and the pixels, named
/// [`png_rgba8_of`]; the bytes themselves are the crate's and are not
/// restated.
#[verifier::external_body]
fn png_encoder(width: u32, height: u32, pixels: &[u8]) -> (png: Option<Vec<u8>>)
    requires
        pixels@.len() == width * height * 4,
    ensures
        width > 0 && height > 0 ==> (png is Some && png->0@ == png_rgba8_of(width, height, pixels@)),
        width == 0 || height == 0 ==> (png is None),
{
    let mut bytes: Vec<u8> = Vec::new();
    let mut encoder = png::Encoder::new(&mut bytes, width, height);
    encoder.set_color(png::ColorType::Rgba);
    encoder.set_depth(png::BitDepth::Eight);
    let mut writer = encoder.write_header().ok()?;
    writer.write_image_data(pixels).ok()?;
    writer.finish().ok()?;
    Some(bytes)
}

/// The PNG file of an RGBA8 image of `width` x `height` holding `pixels`;
/// `None` for an image without pixels, which PNG cannot hold.
pub fn encode_rgba_png(width: u32, height: u32, pixels: &[u8]) -> (png: Option<Vec<u8>>)
    requires
        pixels@.len() == width * height * 4,
    ensures
        width > 0 && height > 0 ==> (png is Some && png->0@ == png_rgba8_of(width, height, pixels@)),
        width == 0 || height == 0 ==> (png is None),
{
    png_encoder(width, height, pixels)
}

} // verus!
