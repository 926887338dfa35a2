use vstd::prelude::*;

verus! {

/// The `/DecodeParms` of FlateDecode.
#[derive(Debug, Clone, Default)]
pub struct FlateDecodeParams {
    /// predictor algorithm: 1 none, 2 TIFF, 10 to 15 PNG
    pub predictor: i32,
    /// colour components per sample
    pub colors: i32,
    /// bits per colour component
    pub bits_per_component: i32,
    /// samples per row
    pub columns: i32,
}

/// The `/DecodeParms` of LZWDecode.
#[derive(Debug, Clone, Default)]
pub struct LZWDecodeParams {
    /// predictor algorithm
    pub predictor: i32,
    /// colour components per sample
    pub colors: i32,
    /// bits per colour component
    pub bits_per_component: i32,
    /// samples per row
    pub columns: i32,
    /// whether the code width grows one code early (0 or 1)
    pub early_change: i32,
}

/// The `/DecodeParms` of CCITTFaxDecode.
#[derive(Debug, Clone)]
pub struct CCITTFaxDecodeParams {
    /// encoding scheme: 0 Group 3 1-D, below 0 Group 3 2-D, above 0 Group 4
    pub k: i32,
    /// whether end-of-line bit patterns are present
    pub end_of_line: bool,
    /// whether rows are byte-aligned
    pub encoded_byte_align: bool,
    /// width of the image in pixels
    pub columns: i32,
    /// height of the image in pixels
    pub rows: i32,
    /// whether the data ends with an end-of-block pattern
    pub end_of_block: bool,
    /// whether 1 bits are black
    pub black_is_1: bool,
    /// damaged rows tolerated before an error
    pub damaged_rows_before_error: i32,
}

impl Default for CCITTFaxDecodeParams {
    fn default() -> (r: Self)
        ensures
            r.k == 0,
            !r.end_of_line,
            !r.encoded_byte_align,
            r.columns == 1728,
            r.rows == 0,
            r.end_of_block,
            !r.black_is_1,
            r.damaged_rows_before_error == 0,
    {
        CCITTFaxDecodeParams {
            k: 0,
            end_of_line: false,
            encoded_byte_align: false,
            columns: 1728,
            rows: 0,
            end_of_block: true,
            black_is_1: false,
            damaged_rows_before_error: 0,
        }
    }
}

/// The `/DecodeParms` of DCTDecode.
#[derive(Debug, Clone, Default)]
pub struct DCTDecodeParams {
    /// colour transform: 0 none, 1 YCbCr to RGB
    pub color_transform: i32,
}

/// The `/DecodeParms` of JBIG2Decode.
#[derive(Debug, Clone, Default)]
pub struct JBIG2DecodeParams {
    /// the global segments
    pub jbig2_globals: Option<Vec<u8>>,
}

} // verus!
