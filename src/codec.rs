use vstd::prelude::*;

use image::ImageEncoder;
use image_dds::ddsfile::Dds;

use crate::dds::dds_dimensions_bounded;
use crate::raster::{pixel_count, GrayImage, RgbaImage};
use crate::unit::TexEncoding;

verus! {

/// Width, height and 8-bit RGBA samples of the image that `bytes` encode.
pub uninterp spec fn rgba_decoding_of(bytes: Seq<u8>) -> Option<(u32, u32, Seq<u8>)>;

/// Width, height and 8-bit luma samples of the image that `bytes` encode.
pub uninterp spec fn luma_decoding_of(bytes: Seq<u8>) -> Option<(u32, u32, Seq<u8>)>;

/// The PNG file holding `samples` as a `width` × `height` image, gray if `gray`, else RGBA.
pub uninterp spec fn png_encoding_of(width: u32, height: u32, samples: Seq<u8>, gray: bool) -> Option<Seq<u8>>;

/// Relies on `image::load_from_memory` and `DynamicImage::to_rgba8`: decodes an image
/// file held in memory and converts it to 8-bit RGBA; the image buffer holds four samples
/// per pixel.
#[verifier::external_body]
pub(crate) fn decode_rgba(bytes: &[u8]) -> (r: Option<RgbaImage>)
    ensures
        match rgba_decoding_of(bytes@) {
            None => r is None,
            Some((w, h, d)) => r matches Some(img) && img.width == w && img.height == h
                && img.data@ == d,
        },
        r matches Some(img) ==> img.wf(),
{
    let img = image::load_from_memory(bytes).ok()?.to_rgba8();
    Some(RgbaImage { width: img.width(), height: img.height(), data: img.into_raw() })
}

/// Relies on `image::load_from_memory` and `DynamicImage::to_luma8`: decodes an image
/// file held in memory and converts it to 8-bit luma; the image buffer holds one sample
/// per pixel.
#[verifier::external_body]
pub(crate) fn decode_luma(bytes: &[u8]) -> (r: Option<GrayImage>)
    ensures
        match luma_decoding_of(bytes@) {
            None => r is None,
            Some((w, h, d)) => r matches Some(img) && img.width == w && img.height == h
                && img.data@ == d,
        },
        r matches Some(img) ==> img.wf(),
{
    let img = image::load_from_memory(bytes).ok()?.to_luma8();
    Some(GrayImage { width: img.width(), height: img.height(), data: img.into_raw() })
}

/// Relies on `PngEncoder::write_image` of the image crate: writes `samples` as a PNG
/// file; it panics unless `samples` holds one sample per pixel and channel.
#[verifier::external_body]
pub(crate) fn encode_png(width: u32, height: u32, samples: &[u8], gray: bool) -> (r: Option<
    Vec<u8>,
>)
    requires
        samples@.len() == (if gray {
            1nat
        } else {
            4nat
        }) * pixel_count(width, height),
    ensures
        match png_encoding_of(width, height, samples@, gray) {
            None => r is None,
            Some(b) => r matches Some(v) && v@ == b,
        },
{
    let color = if gray {
        image::ExtendedColorType::L8
    } else {
        image::ExtendedColorType::Rgba8
    };
    let mut out: Vec<u8> = Vec::new();
    image::codecs::png::PngEncoder::new(&mut out).write_image(samples, width, height, color).ok()?;
    Some(out)
}

/// Width, height and RGBA samples of the base mip level of the DDS file `bytes`.
pub uninterp spec fn dds_image_of(bytes: Seq<u8>) -> Option<(u32, u32, Seq<u8>)>;

/// The BC7 variant that the DDS file `bytes` declares, if it declares one.
pub uninterp spec fn dds_format_of(bytes: Seq<u8>) -> Option<TexEncoding>;

/// Relies on `ddsfile::Dds::read` and `image_dds::image_from_dds`: parses a DDS file and
/// decodes its base mip level to an RGBA image, whose buffer holds four samples per pixel.
/// `image_from_dds` multiplies the array size, height and depth of the header in `u32`
/// without checks, so headers for which that overflows are left out.
#[verifier::external_body]
pub(crate) fn decode_dds(bytes: &[u8]) -> (r: Option<RgbaImage>)
    requires
        dds_dimensions_bounded(bytes@),
    ensures
        match dds_image_of(bytes@) {
            None => r is None,
            Some((w, h, d)) => r matches Some(img) && img.width == w && img.height == h
                && img.data@ == d,
        },
        r matches Some(img) ==> img.wf(),
{
    let dds = Dds::read(bytes).ok()?;
    let img = image_dds::image_from_dds(&dds, 0).ok()?;
    Some(RgbaImage { width: img.width(), height: img.height(), data: img.into_raw() })
}

/// Relies on `ddsfile::Dds::read` and `image_dds::dds_image_format`: the pixel format that
/// a DDS file declares, when it is one of the two BC7 variants.
#[verifier::external_body]
pub(crate) fn dds_format(bytes: &[u8]) -> (r: Option<TexEncoding>)
    ensures
        r == dds_format_of(bytes@),
{
    let dds = Dds::read(bytes).ok()?;
    match image_dds::dds_image_format(&dds) {
        Ok(image_dds::ImageFormat::BC7RgbaUnorm) => Some(TexEncoding::Bc7Unorm),
        Ok(image_dds::ImageFormat::BC7RgbaUnormSrgb) => Some(TexEncoding::Bc7Srgb),
        _ => None,
    }
}

} // verus!
