//! The window and tray icons: the embedded PNG decoded and scaled by the
//! `image` crate.

use vstd::prelude::*;

verus! {

/// A picture as red, green, blue and alpha bytes, row by row.
pub struct IconImage {
    pub rgba: Vec<u8>,
    pub width: u32,
    pub height: u32,
}

/// Whether `image` decodes these bytes as a PNG picture: a function of the
/// bytes alone (the decoder's limits are fixed defaults).
pub uninterp spec fn png_decodes(bytes: Seq<u8>) -> bool;

/// The largest box edge an icon is asked for.
pub const MAX_ICON_SIZE: u32 = 1024;

/// What the `image` crate's source fixes of a scaled picture: the aspect
/// ratio is kept and the picture fits the box, so each side is at least 1 and
/// at most `size`, one side is exactly `size` (`resize_dimensions`, or the
/// unchanged picture when it already has that size), and there are four
/// bytes per pixel (`to_rgba8` builds an exact buffer).
pub open spec fn icon_shape(p: (Seq<u8>, u32, u32), size: u32) -> bool {
    let (rgba, w, h) = p;
    &&& 1 <= w <= size
    &&& 1 <= h <= size
    &&& (w == size || h == size)
    &&& rgba.len() == 4 * w * h
}

/// `image::load_from_memory_with_format` with the PNG format, then
/// `DynamicImage::resize(size, size, FilterType::Lanczos3)` and
/// `to_rgba8`, read out by `dimensions` and `into_raw`. Claimed: a picture
/// exactly when the bytes decode ([`png_decodes`]), of the shape
/// [`icon_shape`]. The pixel values are not stated: the Lanczos filter uses
/// `f32::sin`, whose precision std leaves to the platform, so they are not a
/// function of the arguments alone.
#[verifier::external_body]
fn scaled_png(bytes: &[u8], size: u32) -> (r: Option<(Vec<u8>, u32, u32)>)
    requires
        1 <= size <= MAX_ICON_SIZE,
    ensures
        r is Some == png_decodes(bytes@),
        r matches Some(x) ==> icon_shape((x.0@, x.1, x.2), size),
{
    let img = image::load_from_memory_with_format(bytes, image::ImageFormat::Png).ok()?;
    let rgba = img.resize(size, size, image::imageops::FilterType::Lanczos3).to_rgba8();
    let (w, h) = rgba.dimensions();
    Some((rgba.into_raw(), w, h))
}

/// The PNG `png` scaled to fit a `size` by `size` box, as RGBA pixels;
/// `None` when it does not decode.
pub fn icon_from_png(png: &[u8], size: u32) -> (r: Option<IconImage>)
    requires
        1 <= size <= MAX_ICON_SIZE,
    ensures
        r is Some == png_decodes(png@),
        r matches Some(i) ==> icon_shape((i.rgba@, i.width, i.height), size),
{
    match scaled_png(png, size) {
        Some((rgba, width, height)) => Some(IconImage { rgba, width, height }),
        None => None,
    }
}

/// The window's icon: scaled to fit 64 by 64.
pub fn load_window_icon(png: &[u8]) -> (r: Option<IconImage>)
    ensures
        r is Some == png_decodes(png@),
        r matches Some(i) ==> icon_shape((i.rgba@, i.width, i.height), 64),
{
    icon_from_png(png, 64)
}

/// The tray's icon: scaled to fit 32 by 32.
pub fn tray_icon_image(png: &[u8]) -> (r: Option<IconImage>)
    ensures
        r is Some == png_decodes(png@),
        r matches Some(i) ==> icon_shape((i.rgba@, i.width, i.height), 32),
{
    icon_from_png(png, 32)
}

} // verus!
