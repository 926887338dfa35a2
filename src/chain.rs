use vstd::prelude::*;
use crate::ascii85::{
    decode_ascii85, encode_ascii85, lemma_ascii85_round_trip, spec_decode_ascii85, spec_encode_ascii85,
};
use crate::ascii_hex::{
    decode_ascii_hex, encode_ascii_hex, lemma_ascii_hex_round_trip, spec_decode_ascii_hex,
    spec_encode_ascii_hex,
};
use crate::ccitt::{decode_ccitt_fax, spec_decode_ccitt_fax};
use crate::codec_lib::{jpeg_decoded, lzw_encoded, zlib_deflated};
use crate::codecs::{
    decode_dct, decode_flate, decode_jbig2, decode_jpx, decode_lzw, encode_flate, encode_lzw,
    flate_level, spec_decode_flate, spec_decode_lzw,
};
use crate::error::{codec_result, result_view, FilterError};
use crate::filter_type::FilterType;
use crate::params::CCITTFaxDecodeParams;
use crate::run_length::{
    decode_run_length, encode_run_length, lemma_run_length_round_trip, spec_decode_run_length,
    spec_encode_run_length,
};

verus! {

/// The CCITT parameters that a `/DecodeParms`-less stream has.
pub open spec fn spec_ccitt_defaults() -> CCITTFaxDecodeParams {
    CCITTFaxDecodeParams {
        k: 0,
        end_of_line: false,
        encoded_byte_align: false,
        columns: 1728,
        rows: 0,
        end_of_block: true,
        black_is_1: false,
        damaged_rows_before_error: 0,
    }
}

/// One filter's decoding with default parameters.
pub open spec fn spec_decode_one(f: FilterType, d: Seq<u8>) -> Result<Seq<u8>, FilterError> {
    match f {
        FilterType::FlateDecode => spec_decode_flate(d, None),
        FilterType::LZWDecode => spec_decode_lzw(d, None),
        FilterType::ASCII85Decode => spec_decode_ascii85(d),
        FilterType::ASCIIHexDecode => spec_decode_ascii_hex(d),
        FilterType::RunLengthDecode => spec_decode_run_length(d),
        FilterType::CCITTFaxDecode => spec_decode_ccitt_fax(d, spec_ccitt_defaults()),
        FilterType::DCTDecode => codec_result(jpeg_decoded(d)),
        FilterType::JPXDecode => Err(FilterError::Unsupported),
        FilterType::JBIG2Decode => Err(FilterError::Unsupported),
        FilterType::Crypt => Ok(d),
    }
}

/// One filter's encoding; the image filters have none.
pub open spec fn spec_encode_one(f: FilterType, d: Seq<u8>) -> Result<Seq<u8>, FilterError> {
    match f {
        FilterType::FlateDecode => codec_result(zlib_deflated(d, flate_level(6))),
        FilterType::LZWDecode => codec_result(lzw_encoded(d)),
        FilterType::ASCII85Decode => Ok(spec_encode_ascii85(d)),
        FilterType::ASCIIHexDecode => Ok(spec_encode_ascii_hex(d)),
        FilterType::RunLengthDecode => Ok(spec_encode_run_length(d)),
        FilterType::CCITTFaxDecode => Err(FilterError::Unsupported),
        FilterType::DCTDecode => Err(FilterError::Unsupported),
        FilterType::JPXDecode => Err(FilterError::Unsupported),
        FilterType::JBIG2Decode => Err(FilterError::Unsupported),
        FilterType::Crypt => Ok(d),
    }
}

/// Decoding through the filters in their order; the first error stops it.
pub open spec fn spec_chain_decode(filters: Seq<FilterType>, d: Seq<u8>) -> Result<
    Seq<u8>,
    FilterError,
>
    decreases filters.len(),
{
    if filters.len() == 0 {
        Ok(d)
    } else {
        match spec_decode_one(filters[0], d) {
            Ok(d2) => spec_chain_decode(filters.drop_first(), d2),
            Err(e) => Err(e),
        }
    }
}

/// Encoding through the filters from the last to the first; the first error
/// stops it.
pub open spec fn spec_chain_encode_steps(filters: Seq<FilterType>, d: Seq<u8>) -> Result<
    Seq<u8>,
    FilterError,
>
    decreases filters.len(),
{
    if filters.len() == 0 {
        Ok(d)
    } else {
        match spec_encode_one(filters.last(), d) {
            Ok(d2) => spec_chain_encode_steps(filters.drop_last(), d2),
            Err(e) => Err(e),
        }
    }
}

/// The image filters, which have no encoding in a chain.
pub open spec fn is_image_filter(f: FilterType) -> bool {
    f == FilterType::CCITTFaxDecode || f == FilterType::DCTDecode || f == FilterType::JPXDecode
        || f == FilterType::JBIG2Decode
}

/// Whether a list of filters holds an image filter.
pub open spec fn has_image_filter(filters: Seq<FilterType>) -> bool {
    exists|i: int| 0 <= i < filters.len() && is_image_filter(#[trigger] filters[i])
}

/// Encoding through a chain: a chain holding an image filter fails at once as
/// unsupported; any other is encoded from the last filter to the first.
pub open spec fn spec_chain_encode(filters: Seq<FilterType>, d: Seq<u8>) -> Result<
    Seq<u8>,
    FilterError,
> {
    if has_image_filter(filters) {
        Err(FilterError::Unsupported)
    } else {
        spec_chain_encode_steps(filters, d)
    }
}

/// An ordered list of filters, as a stream's `/Filter` array gives it.
#[derive(Debug, Clone)]
pub struct FilterChain {
    filters: Vec<FilterType>,
}

impl View for FilterChain {
    type V = Seq<FilterType>;

    closed spec fn view(&self) -> Seq<FilterType> {
        self.filters@
    }
}

impl FilterChain {
    /// A chain with no filters.
    pub fn new() -> (r: Self)
        ensures
            r@ == Seq::<FilterType>::empty(),
    {
        FilterChain { filters: Vec::new() }
    }

    /// Appends a filter at the end of the chain.
    pub fn add(&mut self, filter: FilterType)
        ensures
            final(self)@ == old(self)@.push(filter),
    {
        self.filters.push(filter);
    }

    /// Decodes data through the filters in order, each with default
    /// parameters.
    pub fn decode(&self, data: Vec<u8>) -> (r: Result<Vec<u8>, FilterError>)
        ensures
            result_view(r) == spec_chain_decode(self@, data@),
    {
        let ghost goal = spec_chain_decode(self@, data@);
        let mut buf = data;
        let n = self.filters.len();
        let mut i: usize = 0;
        assert(self@.subrange(0, n as int) =~= self@);
        while i < n
            invariant
                n == self@.len(),
                i <= n,
                goal == spec_chain_decode(self@, data@),
                goal == spec_chain_decode(self@.subrange(i as int, n as int), buf@),
            decreases n - i,
        {
            let ghost rest = self@.subrange(i as int, n as int);
            assert(rest.drop_first() =~= self@.subrange(i + 1, n as int));
            let filter = self.filters[i];
            let ghost cur = buf@;
            assert(rest[0] == filter);
            assert(goal == match spec_decode_one(filter, cur) {
                Ok(d2) => spec_chain_decode(self@.subrange(i + 1, n as int), d2),
                Err(e) => Err(e),
            });
            let step = match filter {
                FilterType::FlateDecode => decode_flate(buf.as_slice(), None),
                FilterType::LZWDecode => decode_lzw(buf.as_slice(), None),
                FilterType::ASCII85Decode => decode_ascii85(buf.as_slice()),
                FilterType::ASCIIHexDecode => decode_ascii_hex(buf.as_slice()),
                FilterType::RunLengthDecode => decode_run_length(buf.as_slice()),
                FilterType::CCITTFaxDecode => {
                    let p = CCITTFaxDecodeParams::default();
                    assert(p == spec_ccitt_defaults());
                    decode_ccitt_fax(buf.as_slice(), &p)
                },
                FilterType::DCTDecode => decode_dct(buf.as_slice(), None),
                FilterType::JPXDecode => decode_jpx(buf.as_slice()),
                FilterType::JBIG2Decode => decode_jbig2(buf.as_slice(), None),
                FilterType::Crypt => Ok(buf),
            };
            assert(result_view(step) == spec_decode_one(filter, cur));
            buf = match step {
                Ok(d) => d,
                Err(e) => return Err(e),
            };
            i = i + 1;
        }
        assert(self@.subrange(n as int, n as int) =~= Seq::<FilterType>::empty());
        Ok(buf)
    }

    /// Encodes data through the filters in reverse order. A chain holding an
    /// image filter (CCITTFaxDecode, DCTDecode, JPXDecode, JBIG2Decode) fails
    /// at once as unsupported, since those have no encoding here. Decoding
    /// the result through the chain gives the data back.
    pub fn encode(&self, data: Vec<u8>) -> (r: Result<Vec<u8>, FilterError>)
        ensures
            result_view(r) == spec_chain_encode(self@, data@),
            r matches Ok(v) ==> spec_chain_decode(self@, v@) == Ok::<Seq<u8>, FilterError>(data@),
    {
        let n = self.filters.len();
        let mut k: usize = 0;
        while k < n
            invariant
                n == self@.len(),
                k <= n,
                forall|j: int| 0 <= j < k ==> !is_image_filter(#[trigger] self@[j]),
            decreases n - k,
        {
            let f = self.filters[k];
            match f {
                FilterType::CCITTFaxDecode | FilterType::DCTDecode | FilterType::JPXDecode
                | FilterType::JBIG2Decode => {
                    assert(is_image_filter(self@[k as int]));
                    return Err(FilterError::Unsupported);
                },
                _ => {},
            }
            k = k + 1;
        }
        assert(!has_image_filter(self@));
        let ghost goal = spec_chain_encode_steps(self@, data@);
        let ghost original = data@;
        let mut buf = data;
        let mut i: usize = n;
        assert(self@.subrange(0, i as int) =~= self@);
        assert(self@.subrange(n as int, n as int) =~= Seq::<FilterType>::empty());
        while i > 0
            invariant
                n == self@.len(),
                i <= n,
                !has_image_filter(self@),
                original == data@,
                goal == spec_chain_encode_steps(self@, data@),
                goal == spec_chain_encode_steps(self@.subrange(0, i as int), buf@),
                spec_chain_decode(self@.subrange(i as int, n as int), buf@) == Ok::<
                    Seq<u8>,
                    FilterError,
                >(original),
            decreases i,
        {
            let ghost rest = self@.subrange(0, i as int);
            assert(rest.drop_last() =~= self@.subrange(0, i - 1));
            let filter = self.filters[i - 1];
            let ghost cur = buf@;
            assert(rest.last() == filter);
            assert(!is_image_filter(self@[i - 1]));
            assert(goal == match spec_encode_one(filter, cur) {
                Ok(d2) => spec_chain_encode_steps(self@.subrange(0, i - 1), d2),
                Err(e) => Err(e),
            });
            proof {
                lemma_ascii85_round_trip(cur);
                lemma_ascii_hex_round_trip(cur);
                lemma_run_length_round_trip(cur);
            }
            let step = match filter {
                FilterType::FlateDecode => encode_flate(buf.as_slice(), 6),
                FilterType::LZWDecode => encode_lzw(buf.as_slice()),
                FilterType::ASCII85Decode => encode_ascii85(buf.as_slice()),
                FilterType::ASCIIHexDecode => encode_ascii_hex(buf.as_slice()),
                FilterType::RunLengthDecode => encode_run_length(buf.as_slice()),
                FilterType::CCITTFaxDecode => Err(FilterError::Unsupported),
                FilterType::DCTDecode => Err(FilterError::Unsupported),
                FilterType::JPXDecode => Err(FilterError::Unsupported),
                FilterType::JBIG2Decode => Err(FilterError::Unsupported),
                FilterType::Crypt => Ok(buf),
            };
            assert(result_view(step) == spec_encode_one(filter, cur));
            buf = match step {
                Ok(d) => d,
                Err(e) => return Err(e),
            };
            assert(spec_decode_one(filter, buf@) == Ok::<Seq<u8>, FilterError>(cur));
            let ghost tail = self@.subrange(i - 1, n as int);
            assert(tail.drop_first() =~= self@.subrange(i as int, n as int));
            assert(tail[0] == filter);
            i = i - 1;
        }
        assert(self@.subrange(0, 0) =~= Seq::<FilterType>::empty());
        assert(self@.subrange(0, n as int) =~= self@);
        Ok(buf)
    }
}

impl Default for FilterChain {
    fn default() -> (r: Self)
        ensures
            r@ == Seq::<FilterType>::empty(),
    {
        FilterChain::new()
    }
}

/// A two-filter chain `[a, b]` decodes with `a` and then `b`, and encodes
/// with `b` and then `a`.
pub proof fn lemma_chain_two_filters(a: FilterType, b: FilterType, x: Seq<u8>)
    ensures
        spec_chain_decode(seq![a, b], x) == match spec_decode_one(a, x) {
            Ok(y) => spec_decode_one(b, y),
            Err(e) => Err(e),
        },
        spec_chain_encode(seq![a, b], x) == if is_image_filter(a) || is_image_filter(b) {
            Err(FilterError::Unsupported)
        } else {
            match spec_encode_one(b, x) {
                Ok(y) => spec_encode_one(a, y),
                Err(e) => Err(e),
            }
        },
{
    let s = seq![a, b];
    assert(s[0] == a && s[1] == b);
    assert(has_image_filter(s) == (is_image_filter(a) || is_image_filter(b)));
    assert(s.drop_first() =~= seq![b]);
    assert(seq![b].drop_first() =~= Seq::<FilterType>::empty());
    assert(s.drop_last() =~= seq![a]);
    assert(seq![a].drop_last() =~= Seq::<FilterType>::empty());
    match spec_decode_one(a, x) {
        Ok(y) => {
            assert(spec_chain_decode(seq![b], y) == match spec_decode_one(b, y) {
                Ok(z) => spec_chain_decode(Seq::<FilterType>::empty(), z),
                Err(e) => Err(e),
            });
        },
        Err(e) => {},
    }
    match spec_encode_one(b, x) {
        Ok(y) => {
            assert(spec_chain_encode_steps(seq![a], y) == match spec_encode_one(a, y) {
                Ok(z) => spec_chain_encode_steps(Seq::<FilterType>::empty(), z),
                Err(e) => Err(e),
            });
        },
        Err(e) => {},
    }
}

/// The filters whose encoding this library defines exactly: the three text
/// and run-length codecs, and `Crypt`.
pub open spec fn is_text_filter(f: FilterType) -> bool {
    f == FilterType::ASCII85Decode || f == FilterType::ASCIIHexDecode || f
        == FilterType::RunLengthDecode || f == FilterType::Crypt
}

proof fn lemma_chain_decode_push(fs: Seq<FilterType>, f: FilterType, y: Seq<u8>)
    ensures
        spec_chain_decode(fs.push(f), y) == match spec_chain_decode(fs, y) {
            Ok(z) => spec_decode_one(f, z),
            Err(e) => Err(e),
        },
    decreases fs.len(),
{
    if fs.len() == 0 {
        assert(fs.push(f).drop_first() =~= Seq::<FilterType>::empty());
        match spec_decode_one(f, y) {
            Ok(z) => {
                assert(spec_chain_decode(Seq::<FilterType>::empty(), z) == Ok::<Seq<u8>, FilterError>(z));
            },
            Err(e) => {},
        }
    } else {
        assert(fs.push(f).drop_first() =~= fs.drop_first().push(f));
        assert(fs.push(f)[0] == fs[0]);
        match spec_decode_one(fs[0], y) {
            Ok(y2) => {
                lemma_chain_decode_push(fs.drop_first(), f, y2);
            },
            Err(e) => {},
        }
    }
}

proof fn lemma_text_steps_round_trip(filters: Seq<FilterType>, x: Seq<u8>)
    requires
        forall|i: int| 0 <= i < filters.len() ==> is_text_filter(#[trigger] filters[i]),
    ensures
        spec_chain_encode_steps(filters, x) is Ok,
        spec_chain_decode(filters, spec_chain_encode_steps(filters, x).unwrap()) == Ok::<
            Seq<u8>,
            FilterError,
        >(x),
    decreases filters.len(),
{
    if filters.len() == 0 {
    } else {
        let f = filters.last();
        let init = filters.drop_last();
        assert(is_text_filter(filters[filters.len() - 1]));
        let e = match f {
            FilterType::ASCII85Decode => spec_encode_ascii85(x),
            FilterType::ASCIIHexDecode => spec_encode_ascii_hex(x),
            FilterType::RunLengthDecode => spec_encode_run_length(x),
            _ => x,
        };
        assert(spec_encode_one(f, x) == Ok::<Seq<u8>, FilterError>(e));
        assert forall|i: int| 0 <= i < init.len() implies is_text_filter(#[trigger] init[i]) by {
            assert(init[i] == filters[i]);
        }
        lemma_text_steps_round_trip(init, e);
        let y = spec_chain_encode_steps(init, e).unwrap();
        assert(init.push(f) =~= filters);
        lemma_chain_decode_push(init, f, y);
        lemma_ascii85_round_trip(x);
        lemma_ascii_hex_round_trip(x);
        lemma_run_length_round_trip(x);
    }
}

/// Decoding through a chain of text filters undoes encoding through it.
pub proof fn lemma_text_chain_round_trip(filters: Seq<FilterType>, x: Seq<u8>)
    requires
        forall|i: int| 0 <= i < filters.len() ==> is_text_filter(#[trigger] filters[i]),
    ensures
        spec_chain_encode(filters, x) is Ok,
        spec_chain_decode(filters, spec_chain_encode(filters, x).unwrap()) == Ok::<
            Seq<u8>,
            FilterError,
        >(x),
{
    assert(!has_image_filter(filters)) by {
        assert forall|i: int| 0 <= i < filters.len() implies !is_image_filter(
            #[trigger] filters[i],
        ) by {
            assert(is_text_filter(filters[i]));
        }
    }
    lemma_text_steps_round_trip(filters, x);
}

} // verus!
