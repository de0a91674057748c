use vstd::prelude::*;

use crate::errors::ImgError;
use crate::raster::RasterImage;
use crate::raster::RasterView;

verus! {

#[verifier::external_type_specification]
#[verifier::external_body]
pub struct ExImageError(image::ImageError);

/// The raster that the image crate decodes out of a byte buffer, converted
/// to four RGBA bytes per pixel.
pub uninterp spec fn decoded_of(bytes: Seq<u8>) -> RasterView;

/// Whether the image crate's raster-format detection decodes the byte
/// buffer at all: with the fixed default limits, a function of the bytes
/// alone.
pub uninterp spec fn decodable(bytes: Seq<u8>) -> bool;

/// The JPEG serialization of an RGBA raster at a given quality.
pub uninterp spec fn jpeg_of(img: RasterView, quality: u8) -> Seq<u8>;

/// The PNG serialization of an RGBA raster.
pub uninterp spec fn png_of(img: RasterView) -> Seq<u8>;

/// The pixels of the Lanczos-resampled copy of a raster at exactly the
/// given size.
pub uninterp spec fn lanczos_of(img: RasterView, tw: u32, th: u32) -> Seq<u8>;

/// Relies on image::load_from_memory and DynamicImage::to_rgba8: the bytes
/// decoded by raster-format detection, held as four bytes per pixel, or the
/// crate's error when the bytes are not a recognized image. Whether the
/// decode succeeds depends on the bytes alone.
#[verifier::external_body]
fn decode_rgba_raw(bytes: &[u8]) -> (r: Result<RasterImage, image::ImageError>)
    ensures
        r is Ok <==> decodable(bytes@),
        r is Ok ==> r.unwrap().wf() && r.unwrap()@ == decoded_of(bytes@),
{
    let img = image::load_from_memory(bytes)?;
    let rgba = img.to_rgba8();
    let (width, height) = rgba.dimensions();
    Ok(RasterImage { width, height, data: rgba.into_raw() })
}

/// Relies on image::codecs::jpeg::JpegEncoder::new_with_quality and its
/// encode of an Rgba8 buffer; the encoder demands a buffer of exactly four
/// bytes per pixel, clamps the quality itself, and fails only when a
/// dimension does not fit the format's sixteen bits (the in-memory writer
/// cannot fail).
#[verifier::external_body]
fn encode_jpeg_raw(img: &RasterImage, quality: u8) -> (r: Result<Vec<u8>, image::ImageError>)
    requires
        img.wf(),
    ensures
        r is Ok ==> r.unwrap()@ == jpeg_of(img@, quality),
        1 <= img@.width <= 65535 && 1 <= img@.height <= 65535 ==> r is Ok,
{
    let mut cursor = std::io::Cursor::new(Vec::new());
    let mut enc = image::codecs::jpeg::JpegEncoder::new_with_quality(&mut cursor, quality);
    enc.encode(&img.data, img.width, img.height, image::ColorType::Rgba8)?;
    Ok(cursor.into_inner())
}

/// Relies on image::codecs::png::PngEncoder writing an Rgba8 buffer; the
/// encoder demands a buffer of exactly four bytes per pixel and fails only
/// for a zero dimension. PNG is lossless: decoding the produced bytes
/// yields the input raster back, pixel for pixel.
#[verifier::external_body]
fn encode_png_raw(img: &RasterImage) -> (r: Result<Vec<u8>, image::ImageError>)
    requires
        img.wf(),
    ensures
        r is Ok ==> r.unwrap()@ == png_of(img@),
        r is Ok ==> decoded_of(r.unwrap()@) == img@,
        1 <= img@.width && 1 <= img@.height ==> r is Ok,
{
    let mut cursor = std::io::Cursor::new(Vec::new());
    let enc = image::codecs::png::PngEncoder::new(&mut cursor);
    image::ImageEncoder::write_image(
        enc,
        &img.data,
        img.width,
        img.height,
        image::ColorType::Rgba8,
    )?;
    Ok(cursor.into_inner())
}

/// Relies on DynamicImage::resize_exact with FilterType::Lanczos3: a
/// resampled copy at exactly the given size. The allocation bound keeps
/// clear of the output buffer's construction, which panics when the byte
/// count does not fit the address space.
#[verifier::external_body]
pub fn resize_lanczos(img: &RasterImage, tw: u32, th: u32) -> (r: RasterImage)
    requires
        img.wf(),
        1 <= img@.width,
        1 <= img@.height,
        1 <= tw,
        1 <= th,
        4 * (tw as int) * (th as int) <= usize::MAX,
    ensures
        r.wf(),
        r@.width == tw,
        r@.height == th,
        r@.data == lanczos_of(img@, tw, th),
{
    let buf = image::RgbaImage::from_raw(img.width, img.height, img.data.clone()).unwrap();
    let resized = image::DynamicImage::ImageRgba8(buf).resize_exact(
        tw,
        th,
        image::imageops::FilterType::Lanczos3,
    );
    let rgba = resized.to_rgba8();
    let (width, height) = rgba.dimensions();
    RasterImage { width, height, data: rgba.into_raw() }
}

/// Decode source bytes into an owned RGBA raster: succeeds exactly when
/// raster-format detection recognizes the bytes, and reports a typed
/// decode error otherwise.
pub fn decode_image(bytes: &[u8]) -> (r: Result<RasterImage, ImgError>)
    ensures
        r is Ok <==> decodable(bytes@),
        r is Ok ==> r.unwrap().wf() && r.unwrap()@ == decoded_of(bytes@),
        r is Err ==> r.unwrap_err() == ImgError::DecodeError,
{
    match decode_rgba_raw(bytes) {
        Ok(img) => Ok(img),
        Err(_) => Err(ImgError::DecodeError),
    }
}

/// The serialized form the quality rule selects: JPEG below the maximum
/// quality, lossless PNG at the maximum.
pub open spec fn encoded_of(img: RasterView, quality: u8) -> Seq<u8> {
    if quality < 100 {
        jpeg_of(img, quality)
    } else {
        png_of(img)
    }
}

/// Serialize the finished canvas: JPEG at the configured quality when it is
/// below 100, lossless PNG otherwise. Success is owed for every nonzero
/// canvas the chosen format can hold: any size for PNG, dimensions within
/// sixteen bits for JPEG.
pub fn encode_image(img: &RasterImage, quality: u8) -> (r: Result<Vec<u8>, ImgError>)
    requires
        img.wf(),
    ensures
        r is Ok ==> r.unwrap()@ == encoded_of(img@, quality),
        r is Err ==> r.unwrap_err() == ImgError::EncodeError,
        quality < 100 && 1 <= img@.width <= 65535 && 1 <= img@.height <= 65535 ==> r is Ok,
        quality >= 100 && 1 <= img@.width && 1 <= img@.height ==> r is Ok,
        quality >= 100 && r is Ok ==> decoded_of(r.unwrap()@) == img@,
{
    if quality < 100 {
        match encode_jpeg_raw(img, quality) {
            Ok(bytes) => Ok(bytes),
            Err(_) => Err(ImgError::EncodeError),
        }
    } else {
        match encode_png_raw(img) {
            Ok(bytes) => Ok(bytes),
            Err(_) => Err(ImgError::EncodeError),
        }
    }
}

/// Serializing one raster twice at one quality yields identical bytes.
pub proof fn lemma_encode_deterministic(img: RasterView, quality: u8, b1: Seq<u8>, b2: Seq<u8>)
    requires
        b1 == encoded_of(img, quality),
        b2 == encoded_of(img, quality),
    ensures
        b1 == b2,
{
}

} // verus!
