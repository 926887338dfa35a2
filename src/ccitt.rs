use vstd::prelude::*;
use crate::error::{result_view, FilterError};
use crate::params::CCITTFaxDecodeParams;

verus! {

/// Every byte of `s` with its bits inverted.
pub open spec fn invert_bytes(s: Seq<u8>) -> Seq<u8> {
    Seq::new(s.len(), |k: int| (255 - s[k]) as u8)
}

/// Bytes per bitmap row for a width in pixels.
pub open spec fn ccitt_row_bytes(columns: int) -> int {
    (columns + 7) / 8
}

/// The row count of a bitmap that the data would fill without compression:
/// the given rows, or as many rows as its bits make.
pub open spec fn ccitt_estimated_rows(len: int, p: CCITTFaxDecodeParams) -> int {
    if p.rows > 0 {
        p.rows as int
    } else {
        len * 8 / (if p.columns > 1 { p.columns as int } else { 1 })
    }
}

/// Rows that the Group 4 fallback produces: the given rows, or at most 1000.
pub open spec fn ccitt_fallback_rows(p: CCITTFaxDecodeParams) -> int {
    if p.rows > 0 {
        p.rows as int
    } else {
        1000
    }
}

/// CCITTFaxDecode as this library provides it: data of exactly the bitmap's
/// size passes through; other data gives white rows from the Group 4
/// fallback; unless `black_is_1`, every bit is then inverted. A negative
/// width, or a fallback bitmap larger than memory sizes, is rejected.
pub open spec fn spec_decode_ccitt_fax(data: Seq<u8>, p: CCITTFaxDecodeParams) -> Result<
    Seq<u8>,
    FilterError,
> {
    let bpr = ccitt_row_bytes(p.columns as int);
    let passthrough = data.len() == bpr * ccitt_estimated_rows(data.len() as int, p);
    if p.columns < 0 {
        Err(FilterError::MalformedInput)
    } else if !passthrough && bpr * ccitt_fallback_rows(p) > usize::MAX {
        Err(FilterError::MalformedInput)
    } else {
        let bitmap = if passthrough {
            data
        } else {
            Seq::new((bpr * ccitt_fallback_rows(p)) as nat, |k: int| 0u8)
        };
        Ok(
            if p.black_is_1 {
                bitmap
            } else {
                invert_bytes(bitmap)
            },
        )
    }
}

/// The Group 4 fallback: `total_rows` white rows of `bytes_per_row` bytes.
fn decode_ccitt_g4(bytes_per_row: usize, total_rows: usize) -> (r: Vec<u8>)
    requires
        bytes_per_row * total_rows <= usize::MAX,
    ensures
        r@ == Seq::new((bytes_per_row * total_rows) as nat, |k: int| 0u8),
{
    let mut result: Vec<u8> = Vec::new();
    let mut row_count: usize = 0;
    while row_count < total_rows
        invariant
            row_count <= total_rows,
            bytes_per_row * total_rows <= usize::MAX,
            result@ =~= Seq::new((bytes_per_row * row_count) as nat, |k: int| 0u8),
        decreases total_rows - row_count,
    {
        assert(bytes_per_row * (row_count + 1) <= bytes_per_row * total_rows) by (nonlinear_arith)
            requires
                row_count < total_rows,
        ;
        assert(bytes_per_row * (row_count + 1) == bytes_per_row * row_count + bytes_per_row)
            by (nonlinear_arith);
        let mut k: usize = 0;
        while k < bytes_per_row
            invariant
                k <= bytes_per_row,
                result@ =~= Seq::new((bytes_per_row * row_count + k) as nat, |j: int| 0u8),
            decreases bytes_per_row - k,
        {
            result.push(0);
            k = k + 1;
        }
        row_count = row_count + 1;
    }
    result
}

/// Decodes CCITT fax data. This is a partial decoder: data whose length is
/// exactly that of the uncompressed bitmap passes through, other data gives
/// white rows (the given row count, or 1000), and unless `black_is_1` every
/// byte is inverted. A negative width is rejected.
pub fn decode_ccitt_fax(data: &[u8], params: &CCITTFaxDecodeParams) -> (r: Result<
    Vec<u8>,
    FilterError,
>)
    ensures
        result_view(r) == spec_decode_ccitt_fax(data@, *params),
{
    if params.columns < 0 {
        return Err(FilterError::MalformedInput);
    }
    let width: u128 = params.columns as u128;
    let height: u128 = if params.rows > 0 {
        params.rows as u128
    } else {
        0
    };
    let bytes_per_row: u128 = (width + 7) / 8;
    let len: u128 = data.len() as u128;
    let estimated_rows: u128 = if height > 0 {
        height
    } else {
        len * 8 / (if width > 1 { width } else { 1 })
    };
    assert(bytes_per_row * estimated_rows <= 0x1_0000_0000 * 0x8_0000_0000_0000_0000)
        by (nonlinear_arith)
        requires
            bytes_per_row <= 0x1_0000_0000,
            estimated_rows <= 0x8_0000_0000_0000_0000,
    ;
    let mut result: Vec<u8>;
    if len == bytes_per_row * estimated_rows {
        result = crate::byte_util::copy_bytes(data);
    } else {
        let total_rows: u128 = if height > 0 {
            height
        } else {
            1000
        };
        assert(bytes_per_row * total_rows <= 0x1_0000_0000 * 0x1_0000_0000) by (nonlinear_arith)
            requires
                bytes_per_row <= 0x1_0000_0000,
                total_rows <= 0x1_0000_0000,
        ;
        if bytes_per_row * total_rows > usize::MAX as u128 {
            return Err(FilterError::MalformedInput);
        }
        assert(bytes_per_row * total_rows <= usize::MAX);
        assert((bytes_per_row as usize) * (total_rows as usize) == bytes_per_row * total_rows);
        result = decode_ccitt_g4(bytes_per_row as usize, total_rows as usize);
    }
    if !params.black_is_1 {
        let ghost before = result@;
        let mut k: usize = 0;
        while k < result.len()
            invariant
                result@.len() == before.len(),
                k <= result@.len(),
                forall|j: int| 0 <= j < k ==> result@[j] == (255 - before[j]) as u8,
                forall|j: int| k <= j < result@.len() ==> result@[j] == before[j],
            decreases result@.len() - k,
        {
            let b = result[k];
            result.set(k, 255 - b);
            k = k + 1;
        }
        assert(result@ =~= invert_bytes(before));
    }
    Ok(result)
}

/// Bit-by-bit reading of a byte buffer, most significant bit first.
pub struct BitReader {
    data: Vec<u8>,
    byte_pos: usize,
    bit_pos: u8,
}

/// Bit `k` of a buffer, counting from the most significant bit of byte 0.
pub open spec fn bit_of(data: Seq<u8>, k: int) -> bool {
    (data[k / 8] >> (7 - k % 8) as u8) & 1 == 1
}

/// The value of `n` bits of a buffer from bit `pos`, first bit highest,
/// kept to 32 bits.
pub open spec fn bits_value(data: Seq<u8>, pos: int, n: nat) -> u32
    decreases n,
{
    if n == 0 {
        0
    } else {
        ((bits_value(data, pos, (n - 1) as nat) << 1u32) | (if bit_of(data, pos + n - 1) {
            1u32
        } else {
            0u32
        })) as u32
    }
}

impl BitReader {
    /// The bytes being read.
    pub closed spec fn bytes(&self) -> Seq<u8> {
        self.data@
    }

    /// The number of bits read so far.
    pub closed spec fn position(&self) -> int {
        self.byte_pos * 8 + self.bit_pos
    }

    /// The reader's invariant: the position lies within the buffer.
    pub closed spec fn wf(&self) -> bool {
        &&& self.bit_pos < 8
        &&& self.byte_pos <= self.data@.len()
        &&& self.byte_pos == self.data@.len() ==> self.bit_pos == 0
    }

    /// A reader at the first bit of a copy of `data`.
    pub fn new(data: &[u8]) -> (r: Self)
        ensures
            r.wf(),
            r.bytes() == data@,
            r.position() == 0,
    {
        BitReader { data: crate::byte_util::copy_bytes(data), byte_pos: 0, bit_pos: 0 }
    }

    /// The next bit, or `None` at the end of the buffer.
    pub fn read_bit(&mut self) -> (r: Option<bool>)
        requires
            old(self).wf(),
        ensures
            final(self).wf(),
            final(self).bytes() == old(self).bytes(),
            old(self).position() < 8 * old(self).bytes().len() ==> r == Some(
                bit_of(old(self).bytes(), old(self).position()),
            ) && final(self).position() == old(self).position() + 1,
            old(self).position() >= 8 * old(self).bytes().len() ==> r is None
                && final(self).position() == old(self).position(),
    {
        if self.byte_pos >= self.data.len() {
            return None;
        }
        let ghost k = self.position();
        assert(k / 8 == self.byte_pos && k % 8 == self.bit_pos);
        let byte = self.data[self.byte_pos];
        let shift: u8 = 7 - self.bit_pos;
        let bit = (byte >> shift) & 1;
        assert(((byte >> shift) & 1u8 != 0u8) == ((byte >> shift) & 1u8 == 1u8)) by (bit_vector);
        assert((7 - k % 8) as u8 == shift);
        self.bit_pos = self.bit_pos + 1;
        if self.bit_pos >= 8 {
            self.bit_pos = 0;
            self.byte_pos = self.byte_pos + 1;
        }
        Some(bit != 0)
    }

    /// The next `count` bits as a number, first bit highest; `None` when the
    /// buffer ends first (the remaining bits are then consumed).
    pub fn read_bits(&mut self, count: usize) -> (r: Option<u32>)
        requires
            old(self).wf(),
        ensures
            final(self).wf(),
            final(self).bytes() == old(self).bytes(),
            old(self).position() + count <= 8 * old(self).bytes().len() ==> r == Some(
                bits_value(old(self).bytes(), old(self).position(), count as nat),
            ) && final(self).position() == old(self).position() + count,
            old(self).position() + count > 8 * old(self).bytes().len() ==> r is None
                && final(self).position() == 8 * old(self).bytes().len(),
    {
        let ghost start = self.position();
        let mut value: u32 = 0;
        let mut i: usize = 0;
        while i < count
            invariant
                self.wf(),
                self.bytes() == old(self).bytes(),
                start == old(self).position(),
                i <= count,
                self.position() == start + i,
                start + i <= 8 * self.bytes().len(),
                value == bits_value(self.bytes(), start, i as nat),
            decreases count - i,
        {
            match self.read_bit() {
                Some(b) => {
                    value = (value << 1u32) | (if b {
                        1u32
                    } else {
                        0u32
                    });
                },
                None => {
                    return None;
                },
            }
            i = i + 1;
        }
        Some(value)
    }
}

} // verus!
