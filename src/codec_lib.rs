use vstd::prelude::*;
use std::io::Read;

verus! {

/// What zlib inflation makes of a buffer, `None` where the data is not a
/// valid zlib stream.
pub uninterp spec fn zlib_inflated(data: Seq<u8>) -> Option<Seq<u8>>;

/// What zlib deflation at a compression level makes of a buffer.
pub uninterp spec fn zlib_deflated(data: Seq<u8>, level: u32) -> Option<Seq<u8>>;

/// What MSB-first LZW decoding with TIFF's code size switch, starting from
/// a minimum code size, makes of a buffer.
pub uninterp spec fn lzw_decoded(data: Seq<u8>, min_size: u8) -> Option<Seq<u8>>;

/// What MSB-first LZW encoding with TIFF's code size switch and minimum code
/// size 8 makes of a buffer.
pub uninterp spec fn lzw_encoded(data: Seq<u8>) -> Option<Seq<u8>>;

/// The interleaved pixel bytes that JPEG decoding, with the platform
/// independent inverse DCT and colour conversion and 16-bit samples stored
/// most significant byte first, makes of a buffer.
pub uninterp spec fn jpeg_decoded(data: Seq<u8>) -> Option<Seq<u8>>;

/// The JPEG file that encoding RGB pixels of the given size makes.
pub uninterp spec fn jpeg_encoded(data: Seq<u8>, width: u32, height: u32) -> Option<Seq<u8>>;

/// Relies on flate2::read::ZlibDecoder: reading it to the end inflates the
/// zlib stream, or fails.
#[verifier::external_body]
pub(crate) fn zlib_inflate(data: &[u8]) -> (r: Option<Vec<u8>>)
    ensures
        match r {
            Some(v) => zlib_inflated(data@) == Some(v@),
            None => zlib_inflated(data@) is None,
        },
{
    let mut decoder = flate2::read::ZlibDecoder::new(data);
    let mut out = Vec::new();
    match decoder.read_to_end(&mut out) {
        Ok(_) => Some(out),
        Err(_) => None,
    }
}

/// Relies on flate2::read::ZlibEncoder with flate2::Compression::new: reading
/// it to the end deflates the data at the given level (0 to 9; the backends
/// assert that bound in debug builds), and zlib inflation of that output gives
/// the data back.
#[verifier::external_body]
pub(crate) fn zlib_deflate(data: &[u8], level: u32) -> (r: Option<Vec<u8>>)
    requires
        level <= 9,
    ensures
        match r {
            Some(v) => zlib_deflated(data@, level) == Some(v@),
            None => zlib_deflated(data@, level) is None,
        },
        r matches Some(v) ==> zlib_inflated(v@) == Some(data@),
{
    let mut encoder = flate2::read::ZlibEncoder::new(data, flate2::Compression::new(level));
    let mut out = Vec::new();
    match encoder.read_to_end(&mut out) {
        Ok(_) => Some(out),
        Err(_) => None,
    }
}

/// Relies on weezl::decode::Decoder::with_tiff_size_switch (MSB order) and
/// its decode; code sizes run from 2 to 12, and the constructor panics above
/// 12.
#[verifier::external_body]
pub(crate) fn lzw_decode(data: &[u8], min_size: u8) -> (r: Option<Vec<u8>>)
    requires
        2 <= min_size <= 12,
    ensures
        match r {
            Some(v) => lzw_decoded(data@, min_size) == Some(v@),
            None => lzw_decoded(data@, min_size) is None,
        },
{
    let mut decoder = weezl::decode::Decoder::with_tiff_size_switch(weezl::BitOrder::Msb, min_size);
    decoder.decode(data).ok()
}

/// Relies on weezl::encode::Encoder::with_tiff_size_switch (MSB order, code
/// size 8) and its encode; a decoder of the same configuration gives the data
/// back.
#[verifier::external_body]
pub(crate) fn lzw_encode(data: &[u8]) -> (r: Option<Vec<u8>>)
    ensures
        match r {
            Some(v) => lzw_encoded(data@) == Some(v@),
            None => lzw_encoded(data@) is None,
        },
        r matches Some(v) ==> lzw_decoded(v@, 8) == Some(data@),
{
    let mut encoder = weezl::encode::Encoder::with_tiff_size_switch(weezl::BitOrder::Msb, 8);
    encoder.encode(data).ok()
}

/// Relies on image::io::Reader::with_format (JPEG) and its decode, which
/// gives 8-bit grey, 8-bit RGB or 16-bit grey pixels. 16-bit samples are
/// written most significant byte first, as PDF stores them; the others come
/// from DynamicImage::into_bytes. jpeg-decoder is built with its
/// `platform_independent` feature, so no CPU-specific routine changes the
/// pixels.
#[verifier::external_body]
pub(crate) fn jpeg_decode(data: &[u8]) -> (r: Option<Vec<u8>>)
    ensures
        match r {
            Some(v) => jpeg_decoded(data@) == Some(v@),
            None => jpeg_decoded(data@) is None,
        },
{
    let reader = image::io::Reader::with_format(std::io::Cursor::new(data), image::ImageFormat::Jpeg);
    match reader.decode().ok()? {
        image::DynamicImage::ImageLuma16(b) => {
            Some(b.into_raw().iter().flat_map(|s| s.to_be_bytes()).collect())
        },
        img => Some(img.into_bytes()),
    }
}

/// Relies on image::ImageBuffer::from_raw (RGB pixels; `None` when the
/// buffer is too small) and ImageBuffer::write_to in the JPEG format.
#[verifier::external_body]
pub(crate) fn jpeg_encode(data: &[u8], width: u32, height: u32) -> (r: Option<Vec<u8>>)
    ensures
        match r {
            Some(v) => jpeg_encoded(data@, width, height) == Some(v@),
            None => jpeg_encoded(data@, width, height) is None,
        },
{
    let img: image::ImageBuffer<image::Rgb<u8>, Vec<u8>> = image::ImageBuffer::from_raw(width, height, data.to_vec())?;
    let mut output = std::io::Cursor::new(Vec::new());
    match img.write_to(&mut output, image::ImageFormat::Jpeg) {
        Ok(()) => Some(output.into_inner()),
        Err(_) => None,
    }
}

} // verus!
