use vstd::prelude::*;
use crate::codec_lib::{
    jpeg_decode, jpeg_decoded, jpeg_encode, jpeg_encoded, lzw_decode, lzw_decoded, lzw_encode,
    lzw_encoded, zlib_deflate, zlib_deflated, zlib_inflate, zlib_inflated,
};
use crate::error::{codec_result, result_view, FilterError};
use crate::params::{DCTDecodeParams, FlateDecodeParams, JBIG2DecodeParams, LZWDecodeParams};
use crate::predictor::{apply_predictor_decode, spec_predictor_decode};

verus! {

/// FlateDecode: inflation, then the predictor where one above 1 is given.
pub open spec fn spec_decode_flate(data: Seq<u8>, params: Option<FlateDecodeParams>) -> Result<
    Seq<u8>,
    FilterError,
> {
    match codec_result(zlib_inflated(data)) {
        Err(e) => Err(e),
        Ok(d) => match params {
            Some(p) => if p.predictor > 1 {
                spec_predictor_decode(d, p)
            } else {
                Ok(d)
            },
            None => Ok(d),
        },
    }
}

/// The zlib level for a requested compression level: 0 none, 1 to 3 fast,
/// 4 to 6 default, 7 and above best.
pub open spec fn flate_level(level: u32) -> u32 {
    if level == 0 {
        0
    } else if level <= 3 {
        1
    } else if level <= 6 {
        6
    } else {
        9
    }
}

/// The predictor parameters carried by LZW parameters.
pub open spec fn lzw_predictor_params(p: LZWDecodeParams) -> FlateDecodeParams {
    FlateDecodeParams {
        predictor: p.predictor,
        colors: p.colors,
        bits_per_component: p.bits_per_component,
        columns: p.columns,
    }
}

/// The initial code size of LZW decoding: 8 with early change (the default),
/// 9 without.
pub open spec fn lzw_min_size(params: Option<LZWDecodeParams>) -> u8 {
    match params {
        Some(p) => if p.early_change != 0 {
            8
        } else {
            9
        },
        None => 8,
    }
}

/// LZWDecode: LZW decoding, then the predictor where one above 1 is given.
pub open spec fn spec_decode_lzw(data: Seq<u8>, params: Option<LZWDecodeParams>) -> Result<
    Seq<u8>,
    FilterError,
> {
    match codec_result(lzw_decoded(data, lzw_min_size(params))) {
        Err(e) => Err(e),
        Ok(d) => match params {
            Some(p) => if p.predictor > 1 {
                spec_predictor_decode(d, lzw_predictor_params(p))
            } else {
                Ok(d)
            },
            None => Ok(d),
        },
    }
}

/// Decodes FlateDecode data: zlib inflation, then the predictor that the
/// parameters select when it is above 1.
pub fn decode_flate(data: &[u8], params: Option<&FlateDecodeParams>) -> (r: Result<
    Vec<u8>,
    FilterError,
>)
    ensures
        result_view(r) == spec_decode_flate(
            data@,
            match params {
                Some(p) => Some(*p),
                None => None,
            },
        ),
{
    let decompressed = match zlib_inflate(data) {
        Some(v) => v,
        None => return Err(FilterError::CodecFailure),
    };
    if let Some(p) = params {
        if p.predictor > 1 {
            return apply_predictor_decode(decompressed.as_slice(), p);
        }
    }
    Ok(decompressed)
}

/// Encodes data with zlib at a compression level (0 none, 1 to 3 fast, 4 to
/// 6 default, 7 and above best).
pub fn encode_flate(data: &[u8], level: u32) -> (r: Result<Vec<u8>, FilterError>)
    ensures
        result_view(r) == codec_result(zlib_deflated(data@, flate_level(level))),
        r matches Ok(v) ==> spec_decode_flate(v@, None) == Ok::<Seq<u8>, FilterError>(data@),
{
    let zlib_level: u32 = if level == 0 {
        0
    } else if level <= 3 {
        1
    } else if level <= 6 {
        6
    } else {
        9
    };
    match zlib_deflate(data, zlib_level) {
        Some(v) => Ok(v),
        None => Err(FilterError::CodecFailure),
    }
}

/// Decodes LZWDecode data: LZW decoding (initial code size 8 with early
/// change, 9 without), then the predictor when it is above 1.
pub fn decode_lzw(data: &[u8], params: Option<&LZWDecodeParams>) -> (r: Result<
    Vec<u8>,
    FilterError,
>)
    ensures
        result_view(r) == spec_decode_lzw(
            data@,
            match params {
                Some(p) => Some(*p),
                None => None,
            },
        ),
{
    let min_size: u8 = match params {
        Some(p) => if p.early_change != 0 {
            8
        } else {
            9
        },
        None => 8,
    };
    let decompressed = match lzw_decode(data, min_size) {
        Some(v) => v,
        None => return Err(FilterError::CodecFailure),
    };
    if let Some(p) = params {
        if p.predictor > 1 {
            let flate_params = FlateDecodeParams {
                predictor: p.predictor,
                colors: p.colors,
                bits_per_component: p.bits_per_component,
                columns: p.columns,
            };
            return apply_predictor_decode(decompressed.as_slice(), &flate_params);
        }
    }
    Ok(decompressed)
}

/// Encodes data with LZW, initial code size 8; no predictor is applied.
pub fn encode_lzw(data: &[u8]) -> (r: Result<Vec<u8>, FilterError>)
    ensures
        result_view(r) == codec_result(lzw_encoded(data@)),
        r matches Ok(v) ==> spec_decode_lzw(v@, None) == Ok::<Seq<u8>, FilterError>(data@),
{
    match lzw_encode(data) {
        Some(v) => Ok(v),
        None => Err(FilterError::CodecFailure),
    }
}

/// Decodes JPEG data into interleaved pixel bytes; the colour transform is
/// accepted and has no effect.
pub fn decode_dct(data: &[u8], _params: Option<&DCTDecodeParams>) -> (r: Result<
    Vec<u8>,
    FilterError,
>)
    ensures
        result_view(r) == codec_result(jpeg_decoded(data@)),
{
    match jpeg_decode(data) {
        Some(v) => Ok(v),
        None => Err(FilterError::CodecFailure),
    }
}

/// Encodes RGB pixels of the given size as JPEG; the quality is accepted and
/// has no effect.
pub fn encode_dct(data: &[u8], width: u32, height: u32, _quality: u8) -> (r: Result<
    Vec<u8>,
    FilterError,
>)
    ensures
        result_view(r) == codec_result(jpeg_encoded(data@, width, height)),
{
    match jpeg_encode(data, width, height) {
        Some(v) => Ok(v),
        None => Err(FilterError::CodecFailure),
    }
}

/// JPEG 2000 decoding is not available in this library.
pub fn decode_jpx(_data: &[u8]) -> (r: Result<Vec<u8>, FilterError>)
    ensures
        r == Err::<Vec<u8>, FilterError>(FilterError::Unsupported),
{
    Err(FilterError::Unsupported)
}

/// JBIG2 decoding is not available in this library.
pub fn decode_jbig2(_data: &[u8], _params: Option<&JBIG2DecodeParams>) -> (r: Result<
    Vec<u8>,
    FilterError,
>)
    ensures
        r == Err::<Vec<u8>, FilterError>(FilterError::Unsupported),
{
    Err(FilterError::Unsupported)
}

} // verus!
