use vstd::prelude::*;
use crate::error::FilterError;
use crate::params::FlateDecodeParams;

verus! {

/// The sum of two bytes modulo 256.
pub open spec fn add_mod(a: int, b: int) -> u8 {
    ((a + b) % 256) as u8
}

/// Byte `k` of the TIFF predictor's output: the input byte plus the output
/// byte one pixel to the left in the same row.
pub open spec fn tiff_at(data: Seq<u8>, bpr: nat, bpp: nat, k: int) -> u8
    decreases k,
{
    if 0 <= k < data.len() && bpr > 0 && 0 < bpp <= k && bpp <= k % (bpr as int) {
        add_mod(data[k] as int, tiff_at(data, bpr, bpp, k - bpp) as int)
    } else if 0 <= k < data.len() {
        data[k]
    } else {
        0
    }
}

/// The TIFF predictor's output for rows of `bpr` bytes and pixels of `bpp`.
pub open spec fn spec_tiff_decode(data: Seq<u8>, bpr: nat, bpp: nat) -> Seq<u8> {
    Seq::new(data.len(), |k: int| tiff_at(data, bpr, bpp, k))
}

/// The Paeth choice among left `a`, up `b` and upper-left `c`.
pub open spec fn paeth(a: int, b: int, c: int) -> int {
    let p = a + b - c;
    let pa = if p >= a { p - a } else { a - p };
    let pb = if p >= b { p - b } else { b - p };
    let pc = if p >= c { p - c } else { c - p };
    if pa <= pb && pa <= pc {
        a
    } else if pb <= pc {
        b
    } else {
        c
    }
}

/// The prediction that a PNG row filter adds to a byte.
pub open spec fn png_predict(ft: u8, left: int, up: int, up_left: int) -> int {
    if ft == 1 {
        left
    } else if ft == 2 {
        up
    } else if ft == 3 {
        (left + up) / 2
    } else if ft == 4 {
        paeth(left, up, up_left)
    } else {
        0
    }
}

/// The first `n` decoded bytes of a PNG row with filter `ft`, raw bytes `x`
/// and previous decoded row `up` (read as zero past its end).
pub open spec fn png_row_prefix(ft: u8, x: Seq<u8>, up: Seq<u8>, bpp: nat, n: int) -> Seq<u8>
    decreases n,
{
    if n <= 0 {
        Seq::empty()
    } else {
        let pre = png_row_prefix(ft, x, up, bpp, n - 1);
        let i = n - 1;
        let left: int = if i >= bpp { pre[i - bpp] as int } else { 0 };
        let u: int = if i < up.len() { up[i] as int } else { 0 };
        let ul: int = if i >= bpp && i - bpp < up.len() { up[i - bpp] as int } else { 0 };
        pre.push(add_mod(x[i] as int, png_predict(ft, left, u, ul)))
    }
}

proof fn lemma_png_row_prefix_len(ft: u8, x: Seq<u8>, up: Seq<u8>, bpp: nat, n: int)
    requires
        n >= 0,
    ensures
        png_row_prefix(ft, x, up, bpp, n).len() == n,
    decreases n,
{
    if n > 0 {
        lemma_png_row_prefix_len(ft, x, up, bpp, n - 1);
    }
}

/// The raw bytes of the row whose filter byte is at `pos`, zero-padded to
/// `bpr` bytes.
pub open spec fn png_raw_row(data: Seq<u8>, pos: int, bpr: nat) -> Seq<u8> {
    Seq::new(bpr, |j: int| if pos + 1 + j < data.len() { data[pos + 1 + j] } else { 0u8 })
}

/// PNG predictor decoding of `data` from the row at `pos`, after the
/// decoded row `prev`, with `out` already produced.
pub open spec fn png_decode_from(
    data: Seq<u8>,
    pos: int,
    bpr: nat,
    bpp: nat,
    prev: Seq<u8>,
    out: Seq<u8>,
) -> Result<Seq<u8>, FilterError>
    decreases data.len() - pos,
{
    if pos < 0 || pos >= data.len() {
        Ok(out)
    } else if data[pos] > 4 {
        Err(FilterError::MalformedInput)
    } else {
        let row = png_row_prefix(data[pos], png_raw_row(data, pos, bpr), prev, bpp, bpr as int);
        let next = if pos + bpr + 1 < data.len() { pos + bpr + 1 } else { data.len() as int };
        png_decode_from(data, next, bpr, bpp, row, out + row)
    }
}

/// The PNG predictor's output for rows of `bpr` bytes and pixels of `bpp`.
pub open spec fn spec_png_decode(data: Seq<u8>, bpr: nat, bpp: nat) -> Result<
    Seq<u8>,
    FilterError,
> {
    png_decode_from(data, 0, bpr, bpp, Seq::new(bpr, |j: int| 0u8), Seq::empty())
}

/// The bytes per pixel, `ceil(colors * bits / 8)`, and per row,
/// `ceil(colors * bits * columns / 8)`, that the parameters give, with
/// colours and columns at least 1; `None` where the bit depth is below 1 (no
/// pixel would take a byte) or the row length does not fit in memory sizes.
pub open spec fn spec_geometry(p: FlateDecodeParams) -> Option<(nat, nat)> {
    let colors: int = if p.colors < 1 { 1 } else { p.colors as int };
    let bits: int = p.bits_per_component as int;
    let columns: int = if p.columns < 1 { 1 } else { p.columns as int };
    let row_bits = colors * bits * columns;
    if bits < 1 || row_bits + 7 > u64::MAX || (row_bits + 7) / 8 >= usize::MAX {
        None
    } else {
        Some((((colors * bits + 7) / 8) as nat, ((row_bits + 7) / 8) as nat))
    }
}

/// The predictor decoding that the parameters select: 1 leaves the data as
/// it is, 2 is TIFF, 10 to 15 are PNG, and any other value is rejected.
pub open spec fn spec_predictor_decode(data: Seq<u8>, p: FlateDecodeParams) -> Result<
    Seq<u8>,
    FilterError,
> {
    if p.predictor == 1 {
        Ok(data)
    } else if p.predictor != 2 && !(10 <= p.predictor <= 15) {
        Err(FilterError::MalformedInput)
    } else {
        match spec_geometry(p) {
            None => Err(FilterError::MalformedInput),
            Some((bpp, bpr)) => if p.predictor == 2 {
                Ok(spec_tiff_decode(data, bpr, bpp))
            } else {
                spec_png_decode(data, bpr, bpp)
            },
        }
    }
}

fn geometry(p: &FlateDecodeParams) -> (r: Option<(usize, usize)>)
    ensures
        r matches Some((bpp, bpr)) ==> bpp >= 1 && bpr >= 1 && bpr < usize::MAX,
        match r {
            Some((bpp, bpr)) => spec_geometry(*p) == Some((bpp as nat, bpr as nat)),
            None => spec_geometry(*p) is None,
        },
{
    let colors: u64 = if p.colors < 1 {
        1
    } else {
        p.colors as u64
    };
    if p.bits_per_component < 1 {
        return None;
    }
    let bits: u64 = p.bits_per_component as u64;
    let columns: u64 = if p.columns < 1 {
        1
    } else {
        p.columns as u64
    };
    assert(colors * bits <= 0x4000_0000_0000_0000) by (nonlinear_arith)
        requires
            colors <= 0x8000_0000,
            bits <= 0x8000_0000,
    ;
    let pixel_bits = colors * bits;
    let row_bits = match pixel_bits.checked_mul(columns) {
        Some(v) => v,
        None => return None,
    };
    if row_bits > u64::MAX - 7 {
        return None;
    }
    let row_bytes = (row_bits + 7) / 8;
    if row_bytes as u128 >= usize::MAX as u128 {
        return None;
    }
    assert(pixel_bits >= 1) by (nonlinear_arith)
        requires
            colors >= 1,
            bits >= 1,
            pixel_bits == colors * bits,
    ;
    assert((pixel_bits + 7) / 8 <= row_bytes) by (nonlinear_arith)
        requires
            row_bits == pixel_bits * columns,
            columns >= 1,
            row_bytes == (row_bits + 7) / 8,
    ;
    Some((((pixel_bits + 7) / 8) as usize, row_bytes as usize))
}

/// Applies the TIFF predictor: each byte adds the decoded byte one pixel to
/// its left in the same row, modulo 256.
pub fn apply_tiff_predictor_decode(data: &[u8], bytes_per_row: usize, bytes_per_pixel: usize) -> (r:
    Result<Vec<u8>, FilterError>)
    requires
        bytes_per_row >= 1,
        bytes_per_pixel >= 1,
    ensures
        r == Ok::<Vec<u8>, FilterError>(r.unwrap()),
        r.unwrap()@ == spec_tiff_decode(data@, bytes_per_row as nat, bytes_per_pixel as nat),
{
    let mut result: Vec<u8> = Vec::new();
    let mut k: usize = 0;
    while k < data.len()
        invariant
            k <= data@.len(),
            bytes_per_row >= 1,
            bytes_per_pixel >= 1,
            result@.len() == k,
            forall|j: int|
                0 <= j < k ==> result@[j] == tiff_at(
                    data@,
                    bytes_per_row as nat,
                    bytes_per_pixel as nat,
                    j,
                ),
        decreases data@.len() - k,
    {
        assert(k % bytes_per_row <= k) by (nonlinear_arith)
            requires
                bytes_per_row >= 1,
        ;
        let left: u8 = if k % bytes_per_row >= bytes_per_pixel {
            result[k - bytes_per_pixel]
        } else {
            0
        };
        let decoded = ((data[k] as u16 + left as u16) % 256) as u8;
        result.push(decoded);
        k = k + 1;
    }
    assert(result@ =~= spec_tiff_decode(data@, bytes_per_row as nat, bytes_per_pixel as nat));
    Ok(result)
}

fn paeth_predictor(a: u8, b: u8, c: u8) -> (r: u8)
    ensures
        r as int == paeth(a as int, b as int, c as int),
{
    let a = a as i32;
    let b = b as i32;
    let c = c as i32;
    let p = a + b - c;
    let pa = if p >= a { p - a } else { a - p };
    let pb = if p >= b { p - b } else { b - p };
    let pc = if p >= c { p - c } else { c - p };
    if pa <= pb && pa <= pc {
        a as u8
    } else if pb <= pc {
        b as u8
    } else {
        c as u8
    }
}

/// Decodes one PNG row with filter type `filter_type` (0 None, 1 Sub, 2 Up,
/// 3 Average, 4 Paeth) against the previous decoded row (read as zero past its end), appending it to
/// `output`; other filter types are rejected.
pub fn decode_png_filter(
    filter_type: u8,
    row: &[u8],
    prev_row: &[u8],
    bytes_per_pixel: usize,
    output: &mut Vec<u8>,
) -> (r: Result<(), FilterError>)
    requires
        bytes_per_pixel >= 1,
    ensures
        filter_type <= 4 ==> r is Ok && final(output)@ == old(output)@ + png_row_prefix(
            filter_type,
            row@,
            prev_row@,
            bytes_per_pixel as nat,
            row@.len() as int,
        ),
        filter_type > 4 ==> r == Err::<(), FilterError>(FilterError::MalformedInput)
            && final(output)@ == old(output)@,
{
    if filter_type > 4 {
        return Err(FilterError::MalformedInput);
    }
    let ghost bpp = bytes_per_pixel as nat;
    let ghost before = output@;
    let mut cur: Vec<u8> = Vec::new();
    let mut i: usize = 0;
    while i < row.len()
        invariant
            bpp == bytes_per_pixel,
            bytes_per_pixel >= 1,
            filter_type <= 4,
            i <= row@.len(),
            cur@.len() == i,
            cur@ == png_row_prefix(filter_type, row@, prev_row@, bpp, i as int),
        decreases row@.len() - i,
    {
        let left: u8 = if i >= bytes_per_pixel {
            cur[i - bytes_per_pixel]
        } else {
            0
        };
        let up: u8 = if i < prev_row.len() {
            prev_row[i]
        } else {
            0
        };
        let up_left: u8 = if i >= bytes_per_pixel && i - bytes_per_pixel < prev_row.len() {
            prev_row[i - bytes_per_pixel]
        } else {
            0
        };
        let predicted: u8 = if filter_type == 1 {
            left
        } else if filter_type == 2 {
            up
        } else if filter_type == 3 {
            ((left as u16 + up as u16) / 2) as u8
        } else if filter_type == 4 {
            paeth_predictor(left, up, up_left)
        } else {
            0
        };
        cur.push(((row[i] as u16 + predicted as u16) % 256) as u8);
        i = i + 1;
    }
    let mut t: usize = 0;
    while t < cur.len()
        invariant
            t <= cur@.len(),
            output@ =~= before + cur@.subrange(0, t as int),
        decreases cur@.len() - t,
    {
        output.push(cur[t]);
        t = t + 1;
    }
    assert(cur@.subrange(0, cur@.len() as int) =~= cur@);
    Ok(())
}

/// Applies the PNG predictor: each row is a filter-type byte and
/// `bytes_per_row` bytes (a short last row is padded with zeros), decoded by
/// the None, Sub, Up, Average or Paeth filter; other filter types are
/// rejected.
pub fn apply_png_predictor_decode(data: &[u8], bytes_per_row: usize, bytes_per_pixel: usize) -> (r:
    Result<Vec<u8>, FilterError>)
    requires
        bytes_per_row >= 1,
        bytes_per_row < usize::MAX,
        bytes_per_pixel >= 1,
    ensures
        r.is_ok() == spec_png_decode(data@, bytes_per_row as nat, bytes_per_pixel as nat).is_ok(),
        r.is_ok() ==> spec_png_decode(data@, bytes_per_row as nat, bytes_per_pixel as nat) == Ok::<
            Seq<u8>,
            FilterError,
        >(r.unwrap()@),
        r.is_err() ==> spec_png_decode(data@, bytes_per_row as nat, bytes_per_pixel as nat) == Err::<
            Seq<u8>,
            FilterError,
        >(r.unwrap_err()),
{
    let ghost bpr = bytes_per_row as nat;
    let ghost bpp = bytes_per_pixel as nat;
    let mut result: Vec<u8> = Vec::new();
    let mut prev_row: Vec<u8> = vec![0u8; bytes_per_row];
    assert(prev_row@ =~= Seq::new(bpr, |j: int| 0u8));
    let mut pos: usize = 0;
    while pos < data.len()
        invariant
            bpr == bytes_per_row,
            bpp == bytes_per_pixel,
            bytes_per_row >= 1,
            bytes_per_pixel >= 1,
            bytes_per_row < usize::MAX,
            pos <= data@.len(),
            prev_row@.len() == bytes_per_row,
            png_decode_from(data@, pos as int, bpr, bpp, prev_row@, result@) == spec_png_decode(
                data@,
                bpr,
                bpp,
            ),
        decreases data@.len() - pos,
    {
        let filter_type = data[pos];
        if filter_type > 4 {
            return Err(FilterError::MalformedInput);
        }
        let ghost raw = png_raw_row(data@, pos as int, bpr);
        let mut padded: Vec<u8> = Vec::new();
        let mut j: usize = 0;
        while j < bytes_per_row
            invariant
                bpr == bytes_per_row,
                pos < data@.len(),
                raw == png_raw_row(data@, pos as int, bpr),
                j <= bytes_per_row,
                padded@ =~= raw.subrange(0, j as int),
            decreases bytes_per_row - j,
        {
            let x: u8 = if data.len() - pos - 1 > j {
                data[pos + 1 + j]
            } else {
                0
            };
            padded.push(x);
            j = j + 1;
        }
        assert(padded@ =~= raw);
        let mut row: Vec<u8> = Vec::new();
        match decode_png_filter(filter_type, padded.as_slice(), prev_row.as_slice(), bytes_per_pixel, &mut row) {
            Ok(()) => {},
            Err(e) => return Err(e),
        }
        assert(row@ =~= png_row_prefix(filter_type, raw, prev_row@, bpp, bpr as int));
        proof {
            lemma_png_row_prefix_len(filter_type, raw, prev_row@, bpp, bpr as int);
        }
        let ghost before = result@;
        let mut t: usize = 0;
        while t < bytes_per_row
            invariant
                t <= bytes_per_row,
                row@.len() == bytes_per_row,
                result@ =~= before + row@.subrange(0, t as int),
            decreases bytes_per_row - t,
        {
            result.push(row[t]);
            t = t + 1;
        }
        assert(row@.subrange(0, bytes_per_row as int) =~= row@);
        prev_row = row;
        if data.len() - pos <= bytes_per_row {
            pos = data.len();
        } else {
            pos = pos + bytes_per_row + 1;
        }
    }
    Ok(result)
}

/// Applies the predictor that the parameters select: 1 returns the data
/// unchanged, 2 is TIFF, 10 to 15 are PNG, any other value is rejected.
pub fn apply_predictor_decode(data: &[u8], params: &FlateDecodeParams) -> (r: Result<
    Vec<u8>,
    FilterError,
>)
    ensures
        r.is_ok() == spec_predictor_decode(data@, *params).is_ok(),
        r.is_ok() ==> spec_predictor_decode(data@, *params) == Ok::<Seq<u8>, FilterError>(
            r.unwrap()@,
        ),
        r.is_err() ==> spec_predictor_decode(data@, *params) == Err::<Seq<u8>, FilterError>(
            r.unwrap_err(),
        ),
        params.predictor == 1 ==> r.is_ok() && r.unwrap()@ == data@,
{
    if params.predictor == 1 {
        return Ok(crate::byte_util::copy_bytes(data));
    }
    if params.predictor != 2 && !(10 <= params.predictor && params.predictor <= 15) {
        return Err(FilterError::MalformedInput);
    }
    match geometry(params) {
        None => Err(FilterError::MalformedInput),
        Some((bytes_per_pixel, bytes_per_row)) => {
            if params.predictor == 2 {
                apply_tiff_predictor_decode(data, bytes_per_row, bytes_per_pixel)
            } else {
                apply_png_predictor_decode(data, bytes_per_row, bytes_per_pixel)
            }
        },
    }
}

} // verus!
