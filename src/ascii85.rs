use vstd::prelude::*;
use crate::error::FilterError;
use crate::ascii_hex::{is_white, is_white_byte};
use vstd::arithmetic::div_mod::{lemma_div_denominator, lemma_fundamental_div_mod};

verus! {

/// One base-85 digit taken into a 32-bit group: `g * 85 + d`, modulo 2^32.
pub open spec fn a85_step(g: u32, d: int) -> u32 {
    ((g * 85 + d) % 0x1_0000_0000) as u32
}

/// The group `g` padded with `n` digits of value 84 (`'u'`).
pub open spec fn a85_pad(g: u32, n: nat) -> u32
    decreases n,
{
    if n == 0 {
        g
    } else {
        a85_pad(a85_step(g, 84), (n - 1) as nat)
    }
}

/// The four bytes of a 32-bit group, most significant first.
pub open spec fn be_bytes(g: u32) -> Seq<u8> {
    seq![
        (g / 0x100_0000) as u8,
        (g / 0x1_0000 % 256) as u8,
        (g / 0x100 % 256) as u8,
        (g % 256) as u8,
    ]
}

/// The end of an ASCII85 decode: a partial group of `count` digits is padded
/// with `'u'` and gives `count - 1` bytes.
pub open spec fn a85_finish(out: Seq<u8>, g: u32, count: nat) -> Seq<u8> {
    if count == 0 {
        out
    } else {
        out + be_bytes(a85_pad(g, (5 - count) as nat)).subrange(0, count - 1 as int)
    }
}

/// Decoding of `data` from position `i`, with `out` already produced and a
/// group `g` of `count` digits pending.
pub open spec fn a85_decode_from(data: Seq<u8>, i: int, out: Seq<u8>, g: u32, count: nat) -> Result<
    Seq<u8>,
    FilterError,
>
    decreases data.len() - i,
{
    if i < 0 || i >= data.len() {
        Ok(a85_finish(out, g, count))
    } else if is_white(data[i]) {
        a85_decode_from(data, i + 1, out, g, count)
    } else if data[i] == 126 {
        Ok(a85_finish(out, g, count))
    } else if data[i] == 122 {
        if count != 0 {
            Err(FilterError::MalformedInput)
        } else {
            a85_decode_from(data, i + 1, out + seq![0u8, 0u8, 0u8, 0u8], g, count)
        }
    } else if data[i] < 33 || data[i] > 117 {
        Err(FilterError::MalformedInput)
    } else {
        let g2 = a85_step(g, data[i] - 33);
        if count + 1 == 5 {
            a85_decode_from(data, i + 1, out + be_bytes(g2), 0, 0)
        } else {
            a85_decode_from(data, i + 1, out, g2, count + 1)
        }
    }
}

/// The ASCII85 decoding of a whole buffer.
pub open spec fn spec_decode_ascii85(data: Seq<u8>) -> Result<Seq<u8>, FilterError> {
    a85_decode_from(data, 0, Seq::empty(), 0, 0)
}

/// Byte `j` of a chunk, or zero past its end.
pub open spec fn byte_or_zero(c: Seq<u8>, j: int) -> int {
    if 0 <= j < c.len() {
        c[j] as int
    } else {
        0
    }
}

/// A chunk of at most four bytes packed big-endian into a group, zero-filled.
pub open spec fn pack_group(c: Seq<u8>) -> u32 {
    (byte_or_zero(c, 0) * 0x100_0000 + byte_or_zero(c, 1) * 0x1_0000 + byte_or_zero(c, 2) * 0x100
        + byte_or_zero(c, 3)) as u32
}

/// The five base-85 digits of a group, most significant first, as the
/// characters `'!'` to `'u'`.
pub open spec fn a85_digits(g: u32) -> Seq<u8> {
    seq![
        (g / 52200625 % 85 + 33) as u8,
        (g / 614125 % 85 + 33) as u8,
        (g / 7225 % 85 + 33) as u8,
        (g / 85 % 85 + 33) as u8,
        (g % 85 + 33) as u8,
    ]
}

/// The encoding of one chunk: `z` for four zero bytes, else five digits for
/// a full chunk and one more digit than bytes for a partial one.
pub open spec fn a85_chunk(c: Seq<u8>) -> Seq<u8> {
    if c.len() == 4 && pack_group(c) == 0 {
        seq![122u8]
    } else if c.len() == 4 {
        a85_digits(pack_group(c))
    } else {
        a85_digits(pack_group(c)).subrange(0, c.len() + 1 as int)
    }
}

/// The encoded chunks of `s` from position `i`.
pub open spec fn a85_body_from(s: Seq<u8>, i: int) -> Seq<u8>
    decreases s.len() - i,
{
    if i < 0 || i >= s.len() {
        Seq::empty()
    } else if s.len() - i >= 4 {
        a85_chunk(s.subrange(i, i + 4)) + a85_body_from(s, i + 4)
    } else {
        a85_chunk(s.subrange(i, s.len() as int))
    }
}

/// The ASCII85 encoding: the encoded chunks, then the `~>` end marker.
pub open spec fn spec_encode_ascii85(s: Seq<u8>) -> Seq<u8> {
    a85_body_from(s, 0) + seq![126u8, 62u8]
}

fn a85_step_exec(g: u32, d: u8) -> (r: u32)
    requires
        d < 85,
    ensures
        r == a85_step(g, d as int),
{
    ((g as u64 * 85 + d as u64) % 0x1_0000_0000) as u32
}

fn push_group(result: &mut Vec<u8>, g: u32, n: usize)
    requires
        n <= 4,
    ensures
        final(result)@ == old(result)@ + be_bytes(g).subrange(0, n as int),
{
    let ghost before = result@;
    let bytes: [u8; 4] = [
        (g / 0x100_0000) as u8,
        (g / 0x1_0000 % 256) as u8,
        (g / 0x100 % 256) as u8,
        (g % 256) as u8,
    ];
    assert(bytes@ =~= be_bytes(g));
    let mut k: usize = 0;
    while k < n
        invariant
            k <= n <= 4,
            bytes@ == be_bytes(g),
            result@ =~= before + be_bytes(g).subrange(0, k as int),
        decreases n - k,
    {
        result.push(bytes[k]);
        k = k + 1;
    }
}

/// Decodes ASCII85 data: whitespace is skipped, `~` ends the data, `z`
/// between groups stands for four zero bytes, and a final partial group is
/// padded with `u`.
pub fn decode_ascii85(data: &[u8]) -> (r: Result<Vec<u8>, FilterError>)
    ensures
        r.is_ok() == spec_decode_ascii85(data@).is_ok(),
        r.is_ok() ==> spec_decode_ascii85(data@) == Ok::<Seq<u8>, FilterError>(r.unwrap()@),
        r.is_err() ==> spec_decode_ascii85(data@) == Err::<Seq<u8>, FilterError>(r.unwrap_err()),
{
    let mut result: Vec<u8> = Vec::new();
    let mut group: u32 = 0;
    let mut count: usize = 0;
    let mut i: usize = 0;
    while i < data.len()
        invariant_except_break
            0 <= i <= data@.len(),
            count < 5,
            a85_decode_from(data@, i as int, result@, group, count as nat) == spec_decode_ascii85(
                data@,
            ),
        ensures
            count < 5,
            spec_decode_ascii85(data@) == Ok::<Seq<u8>, FilterError>(
                a85_finish(result@, group, count as nat),
            ),
        decreases data@.len() - i,
    {
        let byte = data[i];
        if is_white_byte(byte) {
            i = i + 1;
            continue;
        }
        if byte == 126 {
            break;
        }
        if byte == 122 {
            if count != 0 {
                return Err(FilterError::MalformedInput);
            }
            let ghost before = result@;
            result.push(0);
            result.push(0);
            result.push(0);
            result.push(0);
            assert(result@ =~= before + seq![0u8, 0u8, 0u8, 0u8]);
            i = i + 1;
            continue;
        }
        if byte < 33 || byte > 117 {
            return Err(FilterError::MalformedInput);
        }
        group = a85_step_exec(group, byte - 33);
        count = count + 1;
        if count == 5 {
            push_group(&mut result, group, 4);
            assert(be_bytes(group).subrange(0, 4) =~= be_bytes(group));
            group = 0;
            count = 0;
        }
        i = i + 1;
    }
    if count > 0 {
        let ghost g0 = group;
        let mut k: usize = count;
        while k < 5
            invariant
                count <= k <= 5,
                a85_pad(group, (5 - k) as nat) == a85_pad(g0, (5 - count) as nat),
            decreases 5 - k,
        {
            group = a85_step_exec(group, 84);
            k = k + 1;
        }
        push_group(&mut result, group, count - 1);
    }
    Ok(result)
}

/// Encodes bytes as ASCII85, four bytes to five digits, `z` for a full
/// chunk of zeros, and the `~>` end marker.
pub fn encode_ascii85(data: &[u8]) -> (r: Result<Vec<u8>, FilterError>)
    ensures
        r == Ok::<Vec<u8>, FilterError>(r.unwrap()),
        r.unwrap()@ == spec_encode_ascii85(data@),
{
    let mut result: Vec<u8> = Vec::new();
    let mut i: usize = 0;
    while i < data.len()
        invariant
            0 <= i <= data@.len(),
            a85_body_from(data@, 0) == result@ + a85_body_from(data@, i as int),
        decreases data@.len() - i,
    {
        let chunk_len: usize = if data.len() - i < 4 {
            data.len() - i
        } else {
            4
        };
        let ghost chunk = data@.subrange(i as int, i + chunk_len);
        let b0: u32 = data[i] as u32;
        let b1: u32 = if chunk_len > 1 {
            data[i + 1] as u32
        } else {
            0
        };
        let b2: u32 = if chunk_len > 2 {
            data[i + 2] as u32
        } else {
            0
        };
        let b3: u32 = if chunk_len > 3 {
            data[i + 3] as u32
        } else {
            0
        };
        let group: u32 = b0 * 0x100_0000 + b1 * 0x1_0000 + b2 * 0x100 + b3;
        assert(group == pack_group(chunk));
        let ghost tail = a85_body_from(data@, i as int);
        if group == 0 && chunk_len == 4 {
            result.push(122);
        } else {
            let encoded: [u8; 5] = [
                (group / 52200625 % 85 + 33) as u8,
                (group / 614125 % 85 + 33) as u8,
                (group / 7225 % 85 + 33) as u8,
                (group / 85 % 85 + 33) as u8,
                (group % 85 + 33) as u8,
            ];
            assert(encoded@ =~= a85_digits(group));
            let output_len: usize = if chunk_len == 4 {
                5
            } else {
                chunk_len + 1
            };
            let ghost before = result@;
            let mut k: usize = 0;
            while k < output_len
                invariant
                    k <= output_len <= 5,
                    encoded@ == a85_digits(group),
                    result@ =~= before + a85_digits(group).subrange(0, k as int),
                decreases output_len - k,
            {
                result.push(encoded[k]);
                k = k + 1;
            }
        }
        i = i + chunk_len;
        assert(tail == a85_chunk(chunk) + a85_body_from(data@, i as int));
    }
    result.push(126);
    result.push(62);
    Ok(result)
}

proof fn lemma_a85_shift(p: Seq<u8>, q: Seq<u8>, k: int, out: Seq<u8>, g: u32, count: nat)
    requires
        0 <= k,
    ensures
        a85_decode_from(p + q, p.len() + k, out, g, count) == a85_decode_from(q, k, out, g, count),
    decreases q.len() - k,
{
    let d = p + q;
    let i = p.len() + k;
    if k < q.len() {
        assert(d[i] == q[k]);
        let b = q[k];
        if is_white(b) {
            lemma_a85_shift(p, q, k + 1, out, g, count);
        } else if b == 126 {
        } else if b == 122 {
            if count == 0 {
                lemma_a85_shift(p, q, k + 1, out + seq![0u8, 0u8, 0u8, 0u8], g, count);
            }
        } else if b < 33 || b > 117 {
        } else {
            let g2 = a85_step(g, b - 33);
            if count + 1 == 5 {
                lemma_a85_shift(p, q, k + 1, out + be_bytes(g2), 0, 0);
            } else {
                lemma_a85_shift(p, q, k + 1, out, g2, count + 1);
            }
        }
    }
}

/// The place value of the digit after `n` digits of a group: 85^(4 - n).
pub open spec fn a85_place(n: nat) -> int {
    if n == 0 {
        52200625
    } else if n == 1 {
        614125
    } else if n == 2 {
        7225
    } else if n == 3 {
        85
    } else {
        1
    }
}

/// Taking the digit of place `m` into the group of the higher places gives
/// the group of all places down to `m`.
proof fn lemma_digit_step(g: u32, m: int)
    requires
        m == 1 || m == 85 || m == 7225 || m == 614125 || m == 52200625,
    ensures
        a85_step((g as int / (85 * m)) as u32, (g as int / m) % 85) == g as int / m,
        ((g as int / m % 85 + 33) as u8) as int - 33 == (g as int / m) % 85,
{
    let x = g as int;
    lemma_div_denominator(x, m, 85);
    lemma_fundamental_div_mod(x / m, 85);
    assert(x / m <= x) by (nonlinear_arith)
        requires
            m >= 1,
            x >= 0,
    ;
    assert(x / m >= 0) by (nonlinear_arith)
        requires
            m >= 1,
            x >= 0,
    ;
    assert(85 * m * 1 == m * 85);
}

proof fn lemma_pack_bytes(c: Seq<u8>)
    requires
        c.len() == 4,
    ensures
        be_bytes(pack_group(c)) == c,
{
    let g = pack_group(c);
    let b0 = c[0] as int;
    let b1 = c[1] as int;
    let b2 = c[2] as int;
    let b3 = c[3] as int;
    assert(g == b0 * 0x100_0000 + b1 * 0x1_0000 + b2 * 0x100 + b3);
    assert(g / 0x100_0000 == b0);
    assert(g / 0x1_0000 % 256 == b1);
    assert(g / 0x100 % 256 == b2);
    assert(g % 256 == b3);
    assert(be_bytes(g) =~= c);
}

proof fn lemma_a85_digits_decode(g: u32, rest: Seq<u8>, out: Seq<u8>, n: nat)
    requires
        1 <= n <= 5,
    ensures
        a85_decode_from(a85_digits(g).subrange(0, n as int) + rest, 0, out, 0, 0) == if n == 5 {
            a85_decode_from(rest, 0, out + be_bytes(g), 0, 0)
        } else {
            a85_decode_from(rest, 0, out, (g as int / a85_place((n - 1) as nat)) as u32, n)
        },
{
    let d = a85_digits(g);
    let e = d.subrange(0, n as int) + rest;
    lemma_digit_step(g, 52200625);
    lemma_digit_step(g, 614125);
    lemma_digit_step(g, 7225);
    lemma_digit_step(g, 85);
    lemma_digit_step(g, 1);
    assert(g as int / (85 * 52200625int) == 0);
    let q1 = (g as int / 52200625) as u32;
    let q2 = (g as int / 614125) as u32;
    let q3 = (g as int / 7225) as u32;
    let q4 = (g as int / 85) as u32;
    assert(q4 as int * 85 + g as int % 85 == g as int);
    assert(e[0] == d[0]);
    assert(a85_decode_from(e, 0, out, 0, 0) == a85_decode_from(e, 1, out, q1, 1));
    if n >= 2 {
        assert(e[1] == d[1]);
        assert(a85_decode_from(e, 1, out, q1, 1) == a85_decode_from(e, 2, out, q2, 2));
    }
    if n >= 3 {
        assert(e[2] == d[2]);
        assert(a85_decode_from(e, 2, out, q2, 2) == a85_decode_from(e, 3, out, q3, 3));
    }
    if n >= 4 {
        assert(e[3] == d[3]);
        assert(a85_decode_from(e, 3, out, q3, 3) == a85_decode_from(e, 4, out, q4, 4));
    }
    if n >= 5 {
        assert(e[4] == d[4]);
        assert(a85_step(q4, g as int % 85) == g);
        assert(a85_decode_from(e, 4, out, q4, 4) == a85_decode_from(e, 5, out + be_bytes(g), 0, 0));
    }
    let pre = d.subrange(0, n as int);
    assert(pre.len() == n);
    if n == 5 {
        lemma_a85_shift(pre, rest, 0, out + be_bytes(g), 0, 0);
    } else if n == 4 {
        lemma_a85_shift(pre, rest, 0, out, q4, n);
    } else if n == 3 {
        lemma_a85_shift(pre, rest, 0, out, q3, n);
    } else if n == 2 {
        lemma_a85_shift(pre, rest, 0, out, q2, n);
    } else {
        lemma_a85_shift(pre, rest, 0, out, q1, n);
    }
}

/// The value `x + r`, for `r` below 256^k, has the same top bytes as `x`
/// when `x` has its low `k` bytes zero.
proof fn lemma_top_bytes(b0: int, b1: int, b2: int, r: int, k: int)
    requires
        0 <= b0 < 256,
        0 <= b1 < 256,
        0 <= b2 < 256,
        1 <= k <= 3,
        0 <= r,
        k == 1 ==> r < 0x100,
        k == 2 ==> r < 0x1_0000 && b2 == 0,
        k == 3 ==> r < 0x100_0000 && b2 == 0 && b1 == 0,
    ensures
        (b0 * 0x100_0000 + b1 * 0x1_0000 + b2 * 0x100 + r) / 0x100_0000 == b0,
        k <= 2 ==> (b0 * 0x100_0000 + b1 * 0x1_0000 + b2 * 0x100 + r) / 0x1_0000 % 256 == b1,
        k <= 1 ==> (b0 * 0x100_0000 + b1 * 0x1_0000 + b2 * 0x100 + r) / 0x100 % 256 == b2,
{
}

/// Padding the leading digits of a group of `n` bytes with `'u'` rounds it
/// up by less than the weight of the missing bytes.
proof fn lemma_pad_value(x: int, n: nat)
    requires
        1 <= n <= 3,
        0 <= x < 0x1_0000_0000,
        n == 3 ==> x % 0x100 == 0,
        n == 2 ==> x % 0x1_0000 == 0,
        n == 1 ==> x % 0x100_0000 == 0,
    ensures
        a85_pad((x / a85_place(n)) as u32, (4 - n) as nat) as int - x >= 0,
        n == 3 ==> a85_pad((x / a85_place(n)) as u32, (4 - n) as nat) as int - x < 0x100,
        n == 2 ==> a85_pad((x / a85_place(n)) as u32, (4 - n) as nat) as int - x < 0x1_0000,
        n == 1 ==> a85_pad((x / a85_place(n)) as u32, (4 - n) as nat) as int - x < 0x100_0000,
{
    let m = a85_place(n);
    lemma_fundamental_div_mod(x, m);
    let q = x / m;
    if n == 3 {
        let s1 = a85_step(q as u32, 84);
        assert(s1 as int == q * 85 + 84);
        assert(a85_pad(s1, 0) == s1);
    } else if n == 2 {
        let s1 = a85_step(q as u32, 84);
        assert(s1 as int == q * 85 + 84);
        let s2 = a85_step(s1, 84);
        assert(s2 as int == q * 7225 + 7224);
        assert(a85_pad(s2, 0) == s2);
        assert(a85_pad(s1, 1) == s2);
    } else {
        let s1 = a85_step(q as u32, 84);
        assert(s1 as int == q * 85 + 84);
        let s2 = a85_step(s1, 84);
        assert(s2 as int == q * 7225 + 7224);
        let s3 = a85_step(s2, 84);
        assert(s3 as int == q * 614125 + 614124);
        assert(a85_pad(s3, 0) == s3);
        assert(a85_pad(s2, 1) == s3);
        assert(a85_pad(s1, 2) == s3);
    }
}

proof fn lemma_a85_partial_pad(c: Seq<u8>)
    requires
        1 <= c.len() <= 3,
    ensures
        be_bytes(
            a85_pad(
                (pack_group(c) as int / a85_place(c.len())) as u32,
                (4 - c.len()) as nat,
            ),
        ).subrange(0, c.len() as int) == c,
{
    let x = pack_group(c) as int;
    let n = c.len();
    let b0 = c[0] as int;
    let b1 = byte_or_zero(c, 1);
    let b2 = byte_or_zero(c, 2);
    assert(byte_or_zero(c, 3) == 0);
    assert(x == b0 * 0x100_0000 + b1 * 0x1_0000 + b2 * 0x100);
    if n == 1 {
        assert(b1 == 0 && b2 == 0);
    }
    if n == 2 {
        assert(b2 == 0);
    }
    lemma_pad_value(x, n);
    let e = a85_pad((x / a85_place(n)) as u32, (4 - n) as nat);
    let r = e as int - x;
    lemma_top_bytes(b0, b1, b2, r, 4 - n);
    assert(be_bytes(e).subrange(0, n as int) =~= c);
}

proof fn lemma_a85_round_trip_from(s: Seq<u8>, i: int, out: Seq<u8>)
    requires
        0 <= i <= s.len(),
    ensures
        a85_decode_from(a85_body_from(s, i) + seq![126u8, 62u8], 0, out, 0, 0) == Ok::<
            Seq<u8>,
            FilterError,
        >(out + s.subrange(i, s.len() as int)),
    decreases s.len() - i,
{
    let tail = seq![126u8, 62u8];
    if i == s.len() {
        assert(a85_body_from(s, i) + tail =~= tail);
        assert(out + s.subrange(i, s.len() as int) =~= out);
    } else if s.len() - i >= 4 {
        let c = s.subrange(i, i + 4);
        let g = pack_group(c);
        let rest = a85_body_from(s, i + 4) + tail;
        lemma_a85_round_trip_from(s, i + 4, out + c);
        assert(out + c + s.subrange(i + 4, s.len() as int) =~= out + s.subrange(i, s.len() as int));
        if g == 0 {
            let z = seq![122u8];
            assert(a85_body_from(s, i) + tail =~= z + rest);
            assert(c =~= seq![0u8, 0u8, 0u8, 0u8]);
            assert((z + rest)[0] == 122u8);
            lemma_a85_shift(z, rest, 0, out + c, 0, 0);
            assert(a85_decode_from(z + rest, 0, out, 0, 0) == a85_decode_from(z + rest, 1, out + c, 0, 0));
        } else {
            let d = a85_digits(g);
            assert(d.subrange(0, 5) =~= d);
            assert(a85_body_from(s, i) + tail =~= d.subrange(0, 5) + rest);
            lemma_a85_digits_decode(g, rest, out, 5);
            lemma_pack_bytes(c);
        }
    } else {
        let c = s.subrange(i, s.len() as int);
        let n = c.len();
        let g = pack_group(c);
        let d = a85_digits(g);
        assert(a85_body_from(s, i) + tail =~= d.subrange(0, n + 1 as int) + tail);
        lemma_a85_digits_decode(g, tail, out, (n + 1) as nat);
        let q = (g as int / a85_place(n)) as u32;
        assert(a85_decode_from(tail, 0, out, q, (n + 1) as nat) == Ok::<Seq<u8>, FilterError>(
            a85_finish(out, q, (n + 1) as nat),
        ));
        lemma_a85_partial_pad(c);
        assert(a85_finish(out, q, (n + 1) as nat) =~= out + c);
    }
}

/// Decoding the ASCII85 encoding of any buffer gives the buffer back.
pub proof fn lemma_ascii85_round_trip(s: Seq<u8>)
    ensures
        spec_decode_ascii85(spec_encode_ascii85(s)) == Ok::<Seq<u8>, FilterError>(s),
{
    lemma_a85_round_trip_from(s, 0, Seq::empty());
    assert(Seq::<u8>::empty() + s.subrange(0, s.len() as int) =~= s);
}

/// When decoding reaches a byte outside `'!'..='u'` that is neither
/// whitespace, `~` nor `z`, or a `z` inside a group, the whole decode fails.
pub proof fn lemma_ascii85_rejects_invalid(data: Seq<u8>, i: int, out: Seq<u8>, g: u32, count: nat)
    requires
        0 <= i < data.len(),
        !is_white(data[i]),
        data[i] != 126,
        (data[i] == 122 && count != 0) || (data[i] != 122 && (data[i] < 33 || data[i] > 117)),
    ensures
        a85_decode_from(data, i, out, g, count) == Err::<Seq<u8>, FilterError>(
            FilterError::MalformedInput,
        ),
{
}

} // verus!