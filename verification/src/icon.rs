use vstd::prelude::*;

verus! {

/// `resized` is a resample, with a Lanczos filter of window 3, of the
/// `width` x `height` RGBA picture `pixels` to `new_width` x `new_height`.
/// This is a relation, not a function: the filter's weights come from
/// `f32::sin`, whose precision std leaves unspecified, so two resamples of one
/// picture need not be equal.
pub uninterp spec fn lanczos3_resample(
    pixels: Seq<u8>,
    width: u32,
    height: u32,
    new_width: u32,
    new_height: u32,
    resized: Seq<u8>,
) -> bool;

/// What decoding a PNG file into 8-bit RGBA gives: the pixels row by row,
/// four bytes each, with the width and height; `None` where the data is not
/// a PNG the decoder reads.
pub uninterp spec fn decoded_rgba(data: Seq<u8>) -> Option<(Seq<u8>, u32, u32)>;

/// `image::load_from_memory_with_format` with `ImageFormat::Png`, followed by
/// `DynamicImage::to_rgba8` (image crate): decodes the data as a PNG with the
/// built-in decoder and default limits (no registered hooks are consulted),
/// into RGBA pixels, four bytes per pixel. What the pixels are is named, not
/// stated.
#[verifier::external_body]
fn decode_rgba(data: &[u8]) -> (decoded: Option<(Vec<u8>, u32, u32)>)
    ensures
        decoded is None <==> decoded_rgba(data@) is None,
        decoded matches Some(d) ==> decoded_rgba(data@) == Some((d.0@, d.1, d.2)) && d.0@.len() == (d.1 as int)
            * (d.2 as int) * 4,
{
    match image::load_from_memory_with_format(data, image::ImageFormat::Png) {
        Ok(img) => {
            let rgba = img.to_rgba8();
            let (width, height) = rgba.dimensions();
            Some((rgba.into_raw(), width, height))
        },
        Err(_) => None,
    }
}

/// `image::imageops::resize` with `FilterType::Lanczos3` (image crate), on the
/// RGBA image whose pixels are given: an image of exactly the new size, four
/// bytes per pixel, that is a Lanczos3 resample of the given picture. Which
/// pixel values come out is left unsaid: the filter's weights are computed
/// with `f32::sin`, whose precision std leaves unspecified, so they may differ
/// from one machine or build to another.
#[verifier::external_body]
fn resize_rgba(pixels: &[u8], width: u32, height: u32, new_width: u32, new_height: u32) -> (resized: Vec<u8>)
    requires
        pixels@.len() == (width as int) * (height as int) * 4,
    ensures
        resized@.len() == (new_width as int) * (new_height as int) * 4,
        lanczos3_resample(pixels@, width, height, new_width, new_height, resized@),
{
    let image = image::RgbaImage::from_raw(width, height, pixels.to_vec()).unwrap();
    image::imageops::resize(&image, new_width, new_height, image::imageops::FilterType::Lanczos3).into_raw()
}

/// The window icons in RGBA, four bytes per pixel: 16x16, 32x32 and 64x64.
pub struct WindowIcons {
    pub small: Vec<u8>,
    pub medium: Vec<u8>,
    pub big: Vec<u8>,
}

/// `n` transparent black bytes.
pub open spec fn blank(n: nat) -> Seq<u8> {
    Seq::new(n, |i: int| 0u8)
}

/// The icon of `len` bytes that `pixels` make, or a blank one where their
/// length differs.
pub open spec fn fitted(pixels: Seq<u8>, len: nat) -> Seq<u8> {
    if pixels.len() == len {
        pixels
    } else {
        blank(len)
    }
}

fn blank_icon(len: usize) -> (icon: Vec<u8>)
    ensures
        icon@ == blank(len as nat),
{
    let icon = vec![0u8; len];
    assert(icon@ =~= blank(len as nat));
    icon
}

/// The icon of `len` bytes that `pixels` make: the pixels themselves where
/// they have exactly that length, a blank icon otherwise.
pub fn fit_icon(pixels: Vec<u8>, len: usize) -> (icon: Vec<u8>)
    ensures
        icon@ == fitted(pixels@, len as nat),
{
    if pixels.len() == len {
        pixels
    } else {
        blank_icon(len)
    }
}

/// The window icons from a decoded picture (its RGBA pixels, width and
/// height) and its resamples to 32x32 and 16x16: each icon is the pixels that
/// fill it exactly, or blank where their length differs; all three are blank
/// where there is no picture.
pub fn icons_from(decoded: Option<(Vec<u8>, u32, u32)>, medium: Vec<u8>, small: Vec<u8>) -> (icons: WindowIcons)
    ensures
        icons.big@ == (match decoded {
            Some(d) => fitted(d.0@, 64 * 64 * 4),
            None => blank(64 * 64 * 4),
        }),
        icons.medium@ == (match decoded {
            Some(_) => fitted(medium@, 32 * 32 * 4),
            None => blank(32 * 32 * 4),
        }),
        icons.small@ == (match decoded {
            Some(_) => fitted(small@, 16 * 16 * 4),
            None => blank(16 * 16 * 4),
        }),
{
    match decoded {
        Some((pixels, _width, _height)) => WindowIcons {
            small: fit_icon(small, 16 * 16 * 4),
            medium: fit_icon(medium, 32 * 32 * 4),
            big: fit_icon(pixels, 64 * 64 * 4),
        },
        None => WindowIcons {
            small: blank_icon(16 * 16 * 4),
            medium: blank_icon(32 * 32 * 4),
            big: blank_icon(64 * 64 * 4),
        },
    }
}

/// The window icons made from an image file (a 64x64 picture is meant).
/// Where the file decodes, the big icon is its pixels if the picture has
/// exactly 64x64 of them, and blank otherwise; the medium and small icons are
/// Lanczos3 resamples of the picture to 32x32 and 16x16, whole. Where the file
/// does not decode, all three are blank.
pub fn window_icons(data: &[u8]) -> (icons: WindowIcons)
    ensures
        decoded_rgba(data@) matches Some(d) ==> d.0.len() == (d.1 as int) * (d.2 as int) * 4,
        icons.big@ == (match decoded_rgba(data@) {
            Some(d) => if (d.1 as int) * (d.2 as int) == 64 * 64 { d.0 } else { blank(64 * 64 * 4) },
            None => blank(64 * 64 * 4),
        }),
        icons.medium@.len() == 32 * 32 * 4,
        icons.small@.len() == 16 * 16 * 4,
        decoded_rgba(data@) matches Some(d) ==> exists|m: Seq<u8>, s: Seq<u8>|
            #![trigger lanczos3_resample(d.0, d.1, d.2, 32, 32, m), lanczos3_resample(d.0, d.1, d.2, 16, 16, s)]
            lanczos3_resample(d.0, d.1, d.2, 32, 32, m) && lanczos3_resample(d.0, d.1, d.2, 16, 16, s)
                && icons.medium@ == m && icons.small@ == s,
        decoded_rgba(data@) is None ==> icons.medium@ == blank(32 * 32 * 4) && icons.small@ == blank(16 * 16 * 4),
{
    match decode_rgba(data) {
        Some((pixels, width, height)) => {
            let medium = resize_rgba(pixels.as_slice(), width, height, 32, 32);
            let small = resize_rgba(pixels.as_slice(), width, height, 16, 16);
            icons_from(Some((pixels, width, height)), medium, small)
        },
        None => icons_from(None, Vec::new(), Vec::new()),
    }
}

} // verus!
