use vstd::prelude::*;
use crate::error::FilterError;

verus! {

/// ASCII whitespace as PDF text filters skip it: space, tab, line feed,
/// form feed and carriage return.
pub open spec fn is_white(b: u8) -> bool {
    b == 32 || b == 9 || b == 10 || b == 12 || b == 13
}

/// Tests a byte for ASCII whitespace.
pub fn is_white_byte(b: u8) -> (r: bool)
    ensures
        r == is_white(b),
{
    b == 32 || b == 9 || b == 10 || b == 12 || b == 13
}

/// The uppercase hexadecimal digit of a value below 16.
pub open spec fn hex_digit(n: u8) -> u8 {
    if n < 10 {
        (48 + n) as u8
    } else {
        (55 + n) as u8
    }
}

/// The value of a hexadecimal digit of either case.
pub open spec fn hex_value(b: u8) -> Option<u8> {
    if 48 <= b <= 57 {
        Some((b - 48) as u8)
    } else if 65 <= b <= 70 {
        Some((b - 55) as u8)
    } else if 97 <= b <= 102 {
        Some((b - 87) as u8)
    } else {
        None
    }
}

/// Two uppercase digits for each byte, high nibble first.
pub open spec fn hex_digits(s: Seq<u8>) -> Seq<u8> {
    Seq::new(
        2 * s.len(),
        |j: int|
            if j % 2 == 0 {
                hex_digit(s[j / 2] / 16)
            } else {
                hex_digit(s[j / 2] % 16)
            },
    )
}

/// The ASCIIHex encoding: the digits, then the `>` end marker.
pub open spec fn spec_encode_ascii_hex(s: Seq<u8>) -> Seq<u8> {
    hex_digits(s).push(62u8)
}

/// The end of a hexadecimal decode: an odd last digit stands for its high
/// nibble.
pub open spec fn hex_finish(out: Seq<u8>, pending: Option<u8>) -> Seq<u8> {
    match pending {
        Some(h) => out.push((h * 16) as u8),
        None => out,
    }
}

/// Decoding of `data` from position `i`, with the bytes `out` already
/// produced and a `pending` high nibble.
pub open spec fn hex_decode_from(data: Seq<u8>, i: int, out: Seq<u8>, pending: Option<u8>) -> Result<
    Seq<u8>,
    FilterError,
>
    decreases data.len() - i,
{
    if i < 0 || i >= data.len() {
        Ok(hex_finish(out, pending))
    } else if is_white(data[i]) {
        hex_decode_from(data, i + 1, out, pending)
    } else if data[i] == 62 {
        Ok(hex_finish(out, pending))
    } else {
        match hex_value(data[i]) {
            None => Err(FilterError::MalformedInput),
            Some(v) => match pending {
                None => hex_decode_from(data, i + 1, out, Some(v)),
                Some(h) => hex_decode_from(data, i + 1, out.push((h * 16 + v) as u8), None),
            },
        }
    }
}

/// The ASCIIHex decoding of a whole buffer.
pub open spec fn spec_decode_ascii_hex(data: Seq<u8>) -> Result<Seq<u8>, FilterError> {
    hex_decode_from(data, 0, Seq::empty(), None)
}

fn hex_digit_of(n: u8) -> (r: u8)
    requires
        n < 16,
    ensures
        r == hex_digit(n),
{
    if n < 10 {
        48 + n
    } else {
        55 + n
    }
}

fn hex_value_of(b: u8) -> (r: Option<u8>)
    ensures
        r == hex_value(b),
{
    if 48 <= b && b <= 57 {
        Some(b - 48)
    } else if 65 <= b && b <= 70 {
        Some(b - 55)
    } else if 97 <= b && b <= 102 {
        Some(b - 87)
    } else {
        None
    }
}

/// Decodes ASCIIHex data: whitespace is skipped, `>` ends the data, and an
/// odd trailing digit is padded with a zero low nibble.
pub fn decode_ascii_hex(data: &[u8]) -> (r: Result<Vec<u8>, FilterError>)
    ensures
        r.is_ok() == spec_decode_ascii_hex(data@).is_ok(),
        r.is_ok() ==> spec_decode_ascii_hex(data@) == Ok::<Seq<u8>, FilterError>(r.unwrap()@),
        r.is_err() ==> spec_decode_ascii_hex(data@) == Err::<Seq<u8>, FilterError>(r.unwrap_err()),
{
    let mut result: Vec<u8> = Vec::new();
    let mut high_nibble: Option<u8> = None;
    let mut i: usize = 0;
    while i < data.len()
        invariant
            0 <= i <= data@.len(),
            high_nibble matches Some(h) ==> h < 16,
            hex_decode_from(data@, i as int, result@, high_nibble) == spec_decode_ascii_hex(data@),
        ensures
            high_nibble matches Some(h) ==> h < 16,
            spec_decode_ascii_hex(data@) == Ok::<Seq<u8>, FilterError>(
                hex_finish(result@, high_nibble),
            ),
        decreases data@.len() - i,
    {
        let byte = data[i];
        if is_white_byte(byte) {
            i = i + 1;
            continue;
        }
        if byte == 62 {
            break;
        }
        let nibble = match hex_value_of(byte) {
            Some(v) => v,
            None => return Err(FilterError::MalformedInput),
        };
        match high_nibble {
            None => {
                high_nibble = Some(nibble);
            },
            Some(high) => {
                result.push(high * 16 + nibble);
                high_nibble = None;
            },
        }
        i = i + 1;
    }
    if let Some(high) = high_nibble {
        result.push(high * 16);
    }
    Ok(result)
}

/// Encodes bytes as ASCIIHex: two uppercase digits per byte and a final `>`.
pub fn encode_ascii_hex(data: &[u8]) -> (r: Result<Vec<u8>, FilterError>)
    ensures
        r == Ok::<Vec<u8>, FilterError>(r.unwrap()),
        r.unwrap()@ == spec_encode_ascii_hex(data@),
{
    let mut result: Vec<u8> = Vec::new();
    let mut i: usize = 0;
    while i < data.len()
        invariant
            0 <= i <= data@.len(),
            result@ =~= hex_digits(data@.subrange(0, i as int)),
        decreases data@.len() - i,
    {
        let byte = data[i];
        result.push(hex_digit_of(byte / 16));
        result.push(hex_digit_of(byte % 16));
        i = i + 1;
        assert(result@ =~= hex_digits(data@.subrange(0, i as int)));
    }
    assert(data@.subrange(0, data@.len() as int) =~= data@);
    result.push(62);
    Ok(result)
}

proof fn lemma_hex_round_trip_from(s: Seq<u8>, k: int)
    requires
        0 <= k <= s.len(),
    ensures
        hex_decode_from(spec_encode_ascii_hex(s), 2 * k, s.subrange(0, k), None) == Ok::<
            Seq<u8>,
            FilterError,
        >(s),
    decreases s.len() - k,
{
    let e = spec_encode_ascii_hex(s);
    if k == s.len() {
        assert(e[2 * k] == 62u8);
        assert(s.subrange(0, k) =~= s);
    } else {
        let b = s[k];
        let pre = s.subrange(0, k);
        assert(e[2 * k] == hex_digit(b / 16));
        assert(e[2 * k + 1] == hex_digit(b % 16));
        assert(hex_value(hex_digit(b / 16)) == Some((b / 16) as u8));
        assert(hex_value(hex_digit(b % 16)) == Some((b % 16) as u8));
        assert(((b / 16) as u8 * 16 + (b % 16) as u8) as u8 == b);
        assert(pre.push(b) =~= s.subrange(0, k + 1));
        lemma_hex_round_trip_from(s, k + 1);
        assert(hex_decode_from(e, 2 * k + 1, pre, Some((b / 16) as u8)) == hex_decode_from(
            e,
            2 * k + 2,
            pre.push(b),
            None,
        ));
    }
}

/// Decoding the ASCIIHex encoding of any buffer gives the buffer back.
pub proof fn lemma_ascii_hex_round_trip(s: Seq<u8>)
    ensures
        spec_decode_ascii_hex(spec_encode_ascii_hex(s)) == Ok::<Seq<u8>, FilterError>(s),
{
    lemma_hex_round_trip_from(s, 0);
    assert(s.subrange(0, 0) =~= Seq::<u8>::empty());
}

/// When decoding reaches a byte that is neither whitespace, `>` nor a
/// hexadecimal digit, the whole decode fails.
pub proof fn lemma_ascii_hex_rejects_invalid(data: Seq<u8>, i: int, out: Seq<u8>, pending: Option<u8>)
    requires
        0 <= i < data.len(),
        !is_white(data[i]),
        data[i] != 62,
        hex_value(data[i]) is None,
    ensures
        hex_decode_from(data, i, out, pending) == Err::<Seq<u8>, FilterError>(
            FilterError::MalformedInput,
        ),
{
}

} // verus!
