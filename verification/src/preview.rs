//! The camera preview that the tracker sends along with the hands: a JPEG
//! frame, decoded into rows of RGB pixels for display.
use vstd::prelude::*;

verus! {

/// The 8-bit RGB image that `bytes` decode to (in whatever format they
/// are in): its width, its height and its samples, three per pixel, row by
/// row; `None` where they do not decode.
pub uninterp spec fn rgb8_decoding(bytes: Seq<u8>) -> Option<(u32, u32, Seq<u8>)>;

/// Decodes `bytes` with `image::load_from_memory` and converts the image
/// with `DynamicImage::to_rgb8`, handing out its width, height and raw
/// samples (`into_raw`). Trusted: the result is the named decoding of
/// `bytes`, `None` where the crate reports an error; and, as every
/// `ImageBuffer` checks when it is made, the samples are at least
/// `3 * width * height` long.
#[verifier::external_body]
fn decode_rgb8(bytes: &[u8]) -> (res: Option<(u32, u32, Vec<u8>)>)
    ensures
        match res {
            Some((w, h, raw)) => rgb8_decoding(bytes@) == Some((w, h, raw@)) && raw@.len() >= 3 * w * h,
            None => rgb8_decoding(bytes@) is None,
        },
{
    match image::load_from_memory(bytes) {
        Ok(image) => {
            let rgb = image.to_rgb8();
            Some((rgb.width(), rgb.height(), rgb.into_raw()))
        },
        Err(_) => None,
    }
}

/// A decoded preview frame: `width * height` pixels, row by row.
pub struct PreviewImage {
    pub width: u32,
    pub height: u32,
    pub pixels: Vec<(u8, u8, u8)>,
}

/// The first `count` pixels of raw RGB samples, three samples each.
pub open spec fn spec_rgb_pixels(raw: Seq<u8>, count: nat) -> Seq<(u8, u8, u8)> {
    Seq::new(count, |i: int| (raw[3 * i], raw[3 * i + 1], raw[3 * i + 2]))
}

/// Groups the raw samples of a `width` by `height` RGB image into its pixels.
pub fn preview_image(width: u32, height: u32, raw: &Vec<u8>) -> (img: PreviewImage)
    requires
        raw@.len() >= 3 * width * height,
    ensures
        img.width == width,
        img.height == height,
        img.pixels@ == spec_rgb_pixels(raw@, (width * height) as nat),
{
    let w: usize = width as usize;
    let h: usize = height as usize;
    assert(3 * (w * h) <= raw@.len() && w * h == width * height) by (nonlinear_arith)
        requires
            raw@.len() >= 3 * width * height,
            w == width,
            h == height,
    ;
    let len: usize = raw.len();
    assert(w * h <= len);
    let count: usize = w * h;
    let mut pixels: Vec<(u8, u8, u8)> = Vec::new();
    let mut i: usize = 0;
    while i < count
        invariant
            i <= count,
            count == width * height,
            3 * count <= raw@.len(),
            raw@.len() == len,
            pixels@ =~= spec_rgb_pixels(raw@, i as nat),
        decreases count - i,
    {
        pixels.push((raw[3 * i], raw[3 * i + 1], raw[3 * i + 2]));
        i = i + 1;
    }
    PreviewImage { width, height, pixels }
}

/// Decodes a preview frame: the pixels of the image its bytes decode to,
/// `None` where they do not decode.
pub fn decode_preview(bytes: &[u8]) -> (res: Option<PreviewImage>)
    ensures
        match rgb8_decoding(bytes@) {
            Some((w, h, raw)) => res matches Some(img) && img.width == w && img.height == h
                && img.pixels@ == spec_rgb_pixels(raw, (w * h) as nat),
            None => res is None,
        },
{
    match decode_rgb8(bytes) {
        Some((w, h, raw)) => Some(preview_image(w, h, &raw)),
        None => None,
    }
}

} // verus!
