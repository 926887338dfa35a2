use vstd::prelude::*;

verus! {

/// The kinds of failure of a filter.
#[derive(Debug, Clone, Copy, PartialEq, Eq, Structural)]
pub enum FilterError {
    /// The encoded bytes break the filter's format (a bad character, a
    /// truncated record, an unknown predictor).
    MalformedInput,
    /// The compression library behind the filter reported a failure.
    CodecFailure,
    /// The filter, or this direction of it, is not available.
    Unsupported,
}

/// The mathematical value of a filter's result: the bytes, or the error.
pub open spec fn result_view(r: Result<Vec<u8>, FilterError>) -> Result<Seq<u8>, FilterError> {
    match r {
        Ok(v) => Ok(v@),
        Err(e) => Err(e),
    }
}

/// A codec library's answer: its bytes, or a codec failure.
pub open spec fn codec_result(r: Option<Seq<u8>>) -> Result<Seq<u8>, FilterError> {
    match r {
        Some(v) => Ok(v),
        None => Err(FilterError::CodecFailure),
    }
}

} // verus!
