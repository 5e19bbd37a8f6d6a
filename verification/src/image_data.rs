//! Pictures: the image formats that an encoding names, and a decoded
//! picture.

use vstd::prelude::*;
use crate::outside::decode_image;
use crate::zenoh_data::KnownEncoding;

verus! {

/// The picture formats that have an encoding of their own.
#[derive(Copy, Clone, Debug, PartialEq, Eq, Structural)]
pub enum ImageKind {
    Png,
    Jpeg,
    Gif,
    Bmp,
    WebP,
}

/// A decoded picture: its size in pixels and four bytes (red, green, blue,
/// alpha) per pixel, row by row.
pub struct RgbaImage {
    pub width: u32,
    pub height: u32,
    pub pixels: Vec<u8>,
}

/// The picture format of an encoding, if it names one.
pub open spec fn image_kind_of(k: KnownEncoding) -> Option<ImageKind> {
    match k {
        KnownEncoding::ImagePng => Some(ImageKind::Png),
        KnownEncoding::ImageJpeg => Some(ImageKind::Jpeg),
        KnownEncoding::ImageGif => Some(ImageKind::Gif),
        KnownEncoding::ImageBmp => Some(ImageKind::Bmp),
        KnownEncoding::ImageWebP => Some(ImageKind::WebP),
        _ => None,
    }
}

impl ImageKind {
    /// The picture format of an encoding, if it names one.
    pub fn from_encoding(k: KnownEncoding) -> (r: Option<ImageKind>)
        ensures
            r == image_kind_of(k),
    {
        match k {
            KnownEncoding::ImagePng => Some(ImageKind::Png),
            KnownEncoding::ImageJpeg => Some(ImageKind::Jpeg),
            KnownEncoding::ImageGif => Some(ImageKind::Gif),
            KnownEncoding::ImageBmp => Some(ImageKind::Bmp),
            KnownEncoding::ImageWebP => Some(ImageKind::WebP),
            _ => None,
        }
    }
}

/// The picture in `data`, read in the given format.
pub fn load_image(format: ImageKind, data: &[u8]) -> (r: Result<RgbaImage, String>)
    ensures
        match r {
            Ok(img) => crate::outside::image_decoding(format, data@) == Ok::<(u32, u32, Seq<u8>), Seq<char>>((img.width, img.height, img.pixels@)),
            Err(e) => crate::outside::image_decoding(format, data@) == Err::<(u32, u32, Seq<u8>), Seq<char>>(e@),
        },
{
    decode_image(format, data)
}

} // verus!
