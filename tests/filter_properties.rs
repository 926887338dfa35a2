use nanopdf::ffi::Stream as MemoryStream;
use nanopdf::{
    apply_png_predictor_decode, apply_predictor_decode, apply_tiff_predictor_decode,
    decode_ascii85, decode_ascii_hex, decode_ccitt_fax, decode_dct, decode_flate, decode_jpx,
    decode_lzw, decode_run_length, encode_ascii85, encode_ascii_hex, encode_dct, encode_flate,
    encode_lzw, encode_run_length, Attachment, CCITTFaxDecodeParams, FilterChain, FilterError,
    FilterType, FlateDecodeParams, LZWDecodeParams,
};

fn samples() -> Vec<Vec<u8>> {
    vec![
        vec![],
        vec![0],
        vec![1, 2],
        vec![0, 0, 0],
        vec![0, 0, 0, 0],
        vec![255, 255, 255, 255, 255],
        b"Hello, World!".to_vec(),
        (0..300).map(|i| (i * 7 % 256) as u8).collect(),
        vec![9u8; 260],
    ]
}

#[test]
fn round_trip_every_codec() {
    for s in samples() {
        assert_eq!(decode_ascii85(&encode_ascii85(&s).unwrap()).unwrap(), s);
        assert_eq!(decode_ascii_hex(&encode_ascii_hex(&s).unwrap()).unwrap(), s);
        assert_eq!(decode_run_length(&encode_run_length(&s).unwrap()).unwrap(), s);
        assert_eq!(decode_flate(&encode_flate(&s, 6).unwrap(), None).unwrap(), s);
        assert_eq!(decode_lzw(&encode_lzw(&s).unwrap(), None).unwrap(), s);
    }
}

#[test]
fn ascii85_zero_group_is_z() {
    assert_eq!(encode_ascii85(&[0, 0, 0, 0]).unwrap(), b"z~>".to_vec());
    assert_eq!(decode_ascii85(b"z").unwrap(), vec![0, 0, 0, 0]);
    assert_eq!(decode_ascii85(b"z~>").unwrap(), vec![0, 0, 0, 0]);
    // a partial chunk of zeros is not shortened
    assert_eq!(encode_ascii85(&[0, 0]).unwrap(), b"!!!~>".to_vec());
}

#[test]
fn ascii85_empty_is_terminator() {
    assert_eq!(encode_ascii85(&[]).unwrap(), b"~>".to_vec());
}

#[test]
fn ascii85_known_value() {
    assert_eq!(encode_ascii85(b"Man ").unwrap(), b"9jqo^~>".to_vec());
    assert_eq!(decode_ascii85(b"9jqo^~>").unwrap(), b"Man ".to_vec());
    assert_eq!(encode_ascii85(b"Ma").unwrap(), b"9jn~>".to_vec());
}

#[test]
fn ascii_hex_odd_digit_padding() {
    assert_eq!(decode_ascii_hex(b"123>").unwrap(), vec![0x12, 0x30]);
}

#[test]
fn ascii_hex_known_value() {
    assert_eq!(encode_ascii_hex(&[0xAB, 0x01, 0xF0]).unwrap(), b"AB01F0>".to_vec());
    assert_eq!(decode_ascii_hex(b"ab 01\tf0> 99").unwrap(), vec![0xAB, 0x01, 0xF0]);
}

#[test]
fn run_length_end_marker() {
    assert_eq!(decode_run_length(&[128]).unwrap(), Vec::<u8>::new());
    assert_eq!(encode_run_length(&[]).unwrap(), vec![128]);
    assert_eq!(decode_run_length(&[0, 7, 128, 0, 9]).unwrap(), vec![7]);
}

#[test]
fn run_length_long_run_is_split() {
    let original = vec![0x42u8; 200];
    let encoded = encode_run_length(&original).unwrap();
    assert_eq!(encoded, vec![129, 0x42, 185, 0x42, 128]);
    assert_eq!(decode_run_length(&encoded).unwrap(), original);
}

#[test]
fn run_length_literal_and_repeat_records() {
    assert_eq!(encode_run_length(b"ABCCC").unwrap(), vec![1, b'A', b'B', 254, b'C', 128]);
    assert_eq!(decode_run_length(&[2, b'x', b'y', b'z', 253, b'q']).unwrap(), b"xyzqqqq".to_vec());
}

#[test]
fn run_length_truncated_is_error() {
    assert_eq!(decode_run_length(&[3, 1, 2]), Err(FilterError::MalformedInput));
    assert_eq!(decode_run_length(&[200]), Err(FilterError::MalformedInput));
}

#[test]
fn predictor_one_is_identity() {
    let params = FlateDecodeParams { predictor: 1, colors: 3, bits_per_component: 8, columns: 2 };
    let data = vec![5u8, 1, 200, 7, 7, 9, 0];
    assert_eq!(apply_predictor_decode(&data, &params).unwrap(), data);
    let compressed = encode_flate(&data, 6).unwrap();
    assert_eq!(decode_flate(&compressed, Some(&params)).unwrap(), data);
}

#[test]
fn predictor_unknown_value_is_error() {
    let params = FlateDecodeParams { predictor: 5, colors: 1, bits_per_component: 8, columns: 4 };
    assert_eq!(apply_predictor_decode(&[1, 2, 3], &params), Err(FilterError::MalformedInput));
}

#[test]
fn tiff_predictor_values() {
    // two rows of two 2-byte pixels
    let data = [1u8, 2, 3, 4, 10, 20, 1, 1];
    assert_eq!(apply_tiff_predictor_decode(&data, 4, 2).unwrap(), vec![1, 2, 4, 6, 10, 20, 11, 21]);
    assert_eq!(apply_tiff_predictor_decode(&[250, 10], 2, 1).unwrap(), vec![250, 4]);
    let params = FlateDecodeParams { predictor: 2, colors: 1, bits_per_component: 8, columns: 3 };
    assert_eq!(apply_predictor_decode(&[1, 1, 1, 5, 5, 5], &params).unwrap(), vec![1, 2, 3, 5, 10, 15]);
}

#[test]
fn png_predictor_values() {
    // rows of 3 bytes, 1 byte per pixel: None, Sub, Up, Average, Paeth
    let data = [
        0u8, 10, 20, 30, //
        1, 1, 1, 1, //
        2, 1, 1, 1, //
        3, 0, 0, 0, //
        4, 0, 0, 0,
    ];
    let out = apply_png_predictor_decode(&data, 3, 1).unwrap();
    assert_eq!(
        out,
        vec![10, 20, 30, 1, 2, 3, 2, 3, 4, 1, 2, 3, 1, 2, 3]
    );
    // an incomplete last row is padded with zeros
    assert_eq!(apply_png_predictor_decode(&[0, 5], 3, 1).unwrap(), vec![5, 0, 0]);
    assert_eq!(apply_png_predictor_decode(&[7, 1, 2, 3], 3, 1), Err(FilterError::MalformedInput));
}

#[test]
fn png_predictor_through_params() {
    let params = FlateDecodeParams { predictor: 12, colors: 1, bits_per_component: 8, columns: 2 };
    assert_eq!(apply_predictor_decode(&[1, 3, 4, 2, 1, 1], &params).unwrap(), vec![3, 7, 4, 8]);
    let lzw_params = LZWDecodeParams {
        predictor: 12,
        colors: 1,
        bits_per_component: 8,
        columns: 2,
        early_change: 1,
    };
    let packed = encode_lzw(&[1, 3, 4, 2, 1, 1]).unwrap();
    assert_eq!(decode_lzw(&packed, Some(&lzw_params)).unwrap(), vec![3, 7, 4, 8]);
}

#[test]
fn chain_composition_order() {
    let text = b"An arbitrary text buffer for the chain".to_vec();
    let mut chain = FilterChain::new();
    chain.add(FilterType::FlateDecode);
    chain.add(FilterType::ASCII85Decode);
    let encoded = chain.encode(text.clone()).unwrap();
    let by_hand = encode_flate(&encode_ascii85(&text).unwrap(), 6).unwrap();
    assert_eq!(encoded, by_hand);
    let decoded = chain.decode(encoded.clone()).unwrap();
    let by_hand_decoded = decode_ascii85(&decode_flate(&encoded, None).unwrap()).unwrap();
    assert_eq!(decoded, by_hand_decoded);
    assert_eq!(decoded, text);
}

#[test]
fn invalid_input_is_rejected() {
    assert_eq!(decode_ascii85(b"Hello{World~>"), Err(FilterError::MalformedInput));
    assert_eq!(decode_ascii85(b"abcz~>"), Err(FilterError::MalformedInput));
    assert_eq!(decode_ascii_hex(b"48GG>"), Err(FilterError::MalformedInput));
}

#[test]
fn filter_names_map_both_ways() {
    let all = [
        FilterType::FlateDecode,
        FilterType::LZWDecode,
        FilterType::ASCII85Decode,
        FilterType::ASCIIHexDecode,
        FilterType::RunLengthDecode,
        FilterType::CCITTFaxDecode,
        FilterType::DCTDecode,
        FilterType::JPXDecode,
        FilterType::JBIG2Decode,
        FilterType::Crypt,
    ];
    for f in all {
        assert_eq!(FilterType::from_name(f.to_name()), Some(f));
    }
    assert_eq!(FilterType::from_name("Fl"), FilterType::from_name("FlateDecode"));
    assert_eq!(FilterType::from_name("flatedecode"), None);
}

#[test]
fn codec_failures_and_unsupported() {
    assert_eq!(decode_flate(b"not zlib", None), Err(FilterError::CodecFailure));
    assert_eq!(decode_dct(b"not a jpeg", None), Err(FilterError::CodecFailure));
    assert_eq!(decode_jpx(b"x"), Err(FilterError::Unsupported));
    let mut chain = FilterChain::new();
    chain.add(FilterType::DCTDecode);
    assert_eq!(chain.encode(vec![1, 2, 3]), Err(FilterError::Unsupported));
    let mut chain = FilterChain::new();
    chain.add(FilterType::JBIG2Decode);
    assert_eq!(chain.decode(vec![1, 2, 3]), Err(FilterError::Unsupported));
}

#[test]
fn compressors_change_the_data() {
    let data = vec![7u8; 100];
    let flate = encode_flate(&data, 9).unwrap();
    assert_ne!(flate, data);
    assert_eq!(&flate[..1], &[0x78]);
    let lzw = encode_lzw(&data).unwrap();
    assert_ne!(lzw, data);
    assert!(lzw.len() < data.len());
}

#[test]
fn jpeg_encode_and_decode() {
    let pixels = vec![128u8; 8 * 8 * 3];
    let jpeg = encode_dct(&pixels, 8, 8, 90).unwrap();
    assert_eq!(&jpeg[..2], &[0xFF, 0xD8]);
    let decoded = decode_dct(&jpeg, None).unwrap();
    assert_eq!(decoded.len(), 8 * 8 * 3);
    assert_eq!(encode_dct(&pixels, 100, 100, 90), Err(FilterError::CodecFailure));
}

#[test]
fn ccitt_passthrough_fallback_and_inversion() {
    let mut params = CCITTFaxDecodeParams::default();
    params.columns = 8;
    params.rows = 2;
    // exactly the bitmap size: passes through, inverted
    assert_eq!(decode_ccitt_fax(&[0x0F, 0xF0], &params).unwrap(), vec![0xF0, 0x0F]);
    params.black_is_1 = true;
    assert_eq!(decode_ccitt_fax(&[0x0F, 0xF0], &params).unwrap(), vec![0x0F, 0xF0]);
    // other lengths: white rows from the fallback
    assert_eq!(decode_ccitt_fax(&[1, 2, 3], &params).unwrap(), vec![0, 0]);
    params.black_is_1 = false;
    assert_eq!(decode_ccitt_fax(&[1, 2, 3], &params).unwrap(), vec![0xFF, 0xFF]);
    params.columns = -1;
    assert_eq!(decode_ccitt_fax(&[1], &params), Err(FilterError::MalformedInput));
}

#[test]
fn ccitt_in_chain_uses_defaults() {
    let mut chain = FilterChain::new();
    chain.add(FilterType::CCITTFaxDecode);
    // 216 bytes per 1728-pixel row; one byte is not a full row: 1000 white rows
    let out = chain.decode(vec![1]).unwrap();
    assert_eq!(out.len(), 216 * 1000);
    assert!(out.iter().all(|&b| b == 0xFF));
}

#[test]
fn guess_mime_ignores_case() {
    assert_eq!(Attachment::new("REPORT.PDF", vec![]).guess_mime_type(), "application/pdf");
    assert_eq!(Attachment::new("Photo.JpEg", vec![]).guess_mime_type(), "image/jpeg");
}

#[test]
fn memory_stream_seek_and_peek() {
    let mut s = MemoryStream::from_memory(b"abcdef".to_vec());
    assert!(!s.is_eof());
    assert_eq!(s.peek_byte(), Some(b'a'));
    s.seek(-2, 2);
    assert_eq!(s.tell(), 4);
    assert_eq!(s.read_byte(), Some(b'e'));
    let mut buf = [0u8; 4];
    assert_eq!(s.read(&mut buf), 1);
    assert_eq!(buf, [b'f', 0, 0, 0]);
    assert!(s.is_eof());
    s.seek(100, 0);
    assert_eq!(s.tell(), 6);
    s.seek(-10, 1);
    assert_eq!(s.tell(), 0);
    assert!(!s.is_eof());
    let empty = MemoryStream::new();
    assert!(empty.is_eof());
    assert_eq!(empty.peek_byte(), None);
}

#[test]
fn png_filter_row_values() {
    let mut out = vec![9u8];
    nanopdf::decode_png_filter(4, &[1, 1, 1], &[10, 20, 30], 1, &mut out).unwrap();
    // Paeth: left 0 / up 10 / upper-left 0 picks 10; then left 11, up 20, upper-left 10 picks 20; ...
    assert_eq!(out, vec![9, 11, 21, 31]);
    let mut out = Vec::new();
    assert_eq!(
        nanopdf::decode_png_filter(5, &[1], &[0], 1, &mut out),
        Err(FilterError::MalformedInput)
    );
    assert!(out.is_empty());
    let mut out = Vec::new();
    nanopdf::decode_png_filter(3, &[4, 4], &[8, 2], 1, &mut out).unwrap();
    // Average: (0 + 8) / 2 = 4 -> 8; (8 + 2) / 2 = 5 -> 9
    assert_eq!(out, vec![8, 9]);
}

#[test]
fn predictor_sizes_follow_bit_depth() {
    // 1 colour, 1 bit, 8 columns: one byte per row and per pixel
    let params = FlateDecodeParams { predictor: 2, colors: 1, bits_per_component: 1, columns: 8 };
    assert_eq!(apply_predictor_decode(&[3, 4, 5], &params).unwrap(), vec![3, 4, 5]);
    // 4 bits, 3 colours, 2 columns: 2 bytes per pixel, 3 bytes per row
    let params = FlateDecodeParams { predictor: 2, colors: 3, bits_per_component: 4, columns: 2 };
    assert_eq!(
        apply_predictor_decode(&[1, 2, 3, 1, 1, 1], &params).unwrap(),
        apply_tiff_predictor_decode(&[1, 2, 3, 1, 1, 1], 3, 2).unwrap()
    );
    assert_eq!(apply_predictor_decode(&[1, 2, 3, 1, 1, 1], &params).unwrap(), vec![1, 2, 4, 1, 1, 2]);
    // PNG rows of one byte for 1-bit samples
    let params = FlateDecodeParams { predictor: 15, colors: 1, bits_per_component: 1, columns: 8 };
    assert_eq!(apply_predictor_decode(&[0, 7, 2, 1], &params).unwrap(), vec![7, 8]);
    // no bit depth: rejected
    let params = FlateDecodeParams { predictor: 2, colors: 1, bits_per_component: 0, columns: 8 };
    assert_eq!(apply_predictor_decode(&[1], &params), Err(FilterError::MalformedInput));
}

#[test]
fn chain_with_image_filter_fails_fast() {
    for image in [
        FilterType::CCITTFaxDecode,
        FilterType::DCTDecode,
        FilterType::JPXDecode,
        FilterType::JBIG2Decode,
    ] {
        let mut chain = FilterChain::new();
        chain.add(image);
        chain.add(FilterType::FlateDecode);
        assert_eq!(chain.encode(b"data".to_vec()), Err(FilterError::Unsupported));
        let mut chain = FilterChain::new();
        chain.add(FilterType::LZWDecode);
        chain.add(image);
        assert_eq!(chain.encode(b"data".to_vec()), Err(FilterError::Unsupported));
    }
}

#[test]
fn chain_round_trip_all_codecs() {
    let mut chain = FilterChain::new();
    chain.add(FilterType::ASCII85Decode);
    chain.add(FilterType::FlateDecode);
    chain.add(FilterType::RunLengthDecode);
    chain.add(FilterType::LZWDecode);
    chain.add(FilterType::ASCIIHexDecode);
    chain.add(FilterType::Crypt);
    for s in samples() {
        let encoded = chain.encode(s.clone()).unwrap();
        assert_eq!(chain.decode(encoded).unwrap(), s);
    }
}

#[test]
fn png_filter_short_previous_row_reads_zero() {
    let mut out = Vec::new();
    nanopdf::decode_png_filter(2, &[1, 2, 3], &[10], 1, &mut out).unwrap();
    assert_eq!(out, vec![11, 2, 3]);
    let mut out = Vec::new();
    nanopdf::decode_png_filter(4, &[1, 1], &[], 1, &mut out).unwrap();
    assert_eq!(out, vec![1, 2]);
}
