use vstd::prelude::*;
use crate::error::FilterError;

verus! {

/// `n` copies of the byte `b`.
pub open spec fn repeat(b: u8, n: nat) -> Seq<u8> {
    Seq::new(n, |_k: int| b)
}

/// Decoding of `data` from position `i`, with `out` already produced.
pub open spec fn rl_decode_from(data: Seq<u8>, i: int, out: Seq<u8>) -> Result<Seq<u8>, FilterError>
    decreases data.len() - i,
{
    if i < 0 || i >= data.len() {
        Ok(out)
    } else if data[i] == 128 {
        Ok(out)
    } else if data[i] < 128 {
        let n = data[i] + 1;
        if i + 1 + n > data.len() {
            Err(FilterError::MalformedInput)
        } else {
            rl_decode_from(data, i + 1 + n, out + data.subrange(i + 1, i + 1 + n))
        }
    } else {
        let n = 257 - data[i];
        if i + 1 >= data.len() {
            Err(FilterError::MalformedInput)
        } else {
            rl_decode_from(data, i + 2, out + repeat(data[i + 1], n as nat))
        }
    }
}

/// The RunLength decoding of a whole buffer.
pub open spec fn spec_decode_run_length(data: Seq<u8>) -> Result<Seq<u8>, FilterError> {
    rl_decode_from(data, 0, Seq::empty())
}

/// The end of the run of bytes equal to `s[i]` that is scanned from `j`,
/// at most 128 long.
pub open spec fn run_end(s: Seq<u8>, i: int, j: int) -> int
    decreases s.len() - j,
{
    if 0 <= i && i <= j && j < s.len() && s[j] == s[i] && j - i < 128 {
        run_end(s, i, j + 1)
    } else {
        j
    }
}

/// Whether three equal bytes start at `j`.
pub open spec fn triple_at(s: Seq<u8>, j: int) -> bool {
    0 <= j && j + 2 < s.len() && s[j] == s[j + 1] && s[j] == s[j + 2]
}

/// The end of a literal record that starts at `st`, scanned from `j`: it
/// stops before three equal bytes, at the end of the input, or at 128 bytes.
pub open spec fn lit_end(s: Seq<u8>, st: int, j: int) -> int
    decreases s.len() - j,
{
    if j >= s.len() || triple_at(s, j) {
        j
    } else if j + 1 - st >= 128 {
        j + 1
    } else {
        lit_end(s, st, j + 1)
    }
}

/// The greedy RunLength encoding of `s` from position `i`, with the end
/// marker.
pub open spec fn rl_encode_from(s: Seq<u8>, i: int) -> Seq<u8>
    decreases s.len() - i,
{
    if i < 0 || i >= s.len() {
        seq![128u8]
    } else {
        let r = run_end(s, i, i) - i;
        if r >= 2 {
            if i + r <= s.len() {
                seq![(257 - r) as u8, s[i]] + rl_encode_from(s, i + r)
            } else {
                seq![128u8]
            }
        } else {
            let e = lit_end(s, i, i);
            if i < e <= s.len() {
                seq![(e - i - 1) as u8] + s.subrange(i, e) + rl_encode_from(s, e)
            } else {
                seq![128u8]
            }
        }
    }
}

/// The RunLength encoding of a whole buffer.
pub open spec fn spec_encode_run_length(s: Seq<u8>) -> Seq<u8> {
    rl_encode_from(s, 0)
}

proof fn lemma_run_end(s: Seq<u8>, i: int, j: int)
    requires
        0 <= i <= j <= s.len(),
        j - i <= 128,
        forall|t: int| i <= t < j ==> s[t] == s[i],
    ensures
        j <= run_end(s, i, j) <= s.len(),
        run_end(s, i, j) - i <= 128,
        forall|t: int| i <= t < run_end(s, i, j) ==> s[t] == s[i],
        run_end(s, i, j) < s.len() && run_end(s, i, j) - i < 128 ==> s[run_end(s, i, j)] != s[i],
    decreases s.len() - j,
{
    if j < s.len() && s[j] == s[i] && j - i < 128 {
        lemma_run_end(s, i, j + 1);
    }
}

proof fn lemma_lit_end(s: Seq<u8>, st: int, j: int)
    requires
        0 <= st <= j <= s.len(),
        j - st < 128,
    ensures
        j <= lit_end(s, st, j) <= s.len(),
        lit_end(s, st, j) - st <= 128,
        j < s.len() && !triple_at(s, j) ==> j < lit_end(s, st, j),
    decreases s.len() - j,
{
    if j >= s.len() || triple_at(s, j) {
    } else if j + 1 - st >= 128 {
    } else {
        lemma_lit_end(s, st, j + 1);
    }
}

proof fn lemma_rl_decode_shift(p: Seq<u8>, q: Seq<u8>, k: int, out: Seq<u8>)
    requires
        0 <= k,
    ensures
        rl_decode_from(p + q, p.len() + k, out) == rl_decode_from(q, k, out),
    decreases q.len() - k,
{
    let d = p + q;
    let i = p.len() + k;
    if k >= q.len() {
    } else {
        assert(d[i] == q[k]);
        if q[k] == 128 {
        } else if q[k] < 128 {
            let n = q[k] + 1;
            if k + 1 + n <= q.len() {
                assert(d.subrange(i + 1, i + 1 + n) =~= q.subrange(k + 1, k + 1 + n));
                lemma_rl_decode_shift(p, q, k + 1 + n, out + q.subrange(k + 1, k + 1 + n));
            }
        } else {
            if k + 1 < q.len() {
                assert(d[i + 1] == q[k + 1]);
                lemma_rl_decode_shift(p, q, k + 2, out + repeat(q[k + 1], (257 - q[k]) as nat));
            }
        }
    }
}

proof fn lemma_rl_round_trip_from(s: Seq<u8>, i: int, out: Seq<u8>)
    requires
        0 <= i <= s.len(),
    ensures
        rl_decode_from(rl_encode_from(s, i), 0, out) == Ok::<Seq<u8>, FilterError>(
            out + s.subrange(i, s.len() as int),
        ),
    decreases s.len() - i,
{
    let enc = rl_encode_from(s, i);
    if i == s.len() {
        assert(s.subrange(i, s.len() as int) =~= Seq::<u8>::empty());
        assert(out + Seq::<u8>::empty() =~= out);
    } else {
        lemma_run_end(s, i, i);
        let r = run_end(s, i, i) - i;
        if r >= 2 {
            let head = seq![(257 - r) as u8, s[i]];
            let tail = rl_encode_from(s, i + r);
            assert(enc == head + tail);
            assert(enc[0] == (257 - r) as u8);
            assert(enc[1] == s[i]);
            assert(repeat(s[i], r as nat) =~= s.subrange(i, i + r));
            lemma_rl_decode_shift(head, tail, 0, out + s.subrange(i, i + r));
            lemma_rl_round_trip_from(s, i + r, out + s.subrange(i, i + r));
            assert(out + s.subrange(i, i + r) + s.subrange(i + r, s.len() as int) =~= out
                + s.subrange(i, s.len() as int));
        } else {
            assert(!triple_at(s, i));
            lemma_lit_end(s, i, i);
            let e = lit_end(s, i, i);
            let head = seq![(e - i - 1) as u8] + s.subrange(i, e);
            let tail = rl_encode_from(s, e);
            assert(enc =~= head + tail);
            assert(enc[0] == (e - i - 1) as u8);
            assert(enc.subrange(1, 1 + (e - i)) =~= s.subrange(i, e));
            lemma_rl_decode_shift(head, tail, 0, out + s.subrange(i, e));
            lemma_rl_round_trip_from(s, e, out + s.subrange(i, e));
            assert(out + s.subrange(i, e) + s.subrange(e, s.len() as int) =~= out + s.subrange(
                i,
                s.len() as int,
            ));
        }
    }
}

/// Decoding the RunLength encoding of any buffer gives the buffer back.
pub proof fn lemma_run_length_round_trip(s: Seq<u8>)
    ensures
        spec_decode_run_length(spec_encode_run_length(s)) == Ok::<Seq<u8>, FilterError>(s),
{
    lemma_rl_round_trip_from(s, 0, Seq::empty());
    assert(Seq::<u8>::empty() + s.subrange(0, s.len() as int) =~= s);
}

/// Decodes RunLength data: a length byte below 128 copies the next `L + 1`
/// bytes, one above 128 repeats the next byte `257 - L` times, and 128 ends
/// the data.
pub fn decode_run_length(data: &[u8]) -> (r: Result<Vec<u8>, FilterError>)
    ensures
        r.is_ok() == spec_decode_run_length(data@).is_ok(),
        r.is_ok() ==> spec_decode_run_length(data@) == Ok::<Seq<u8>, FilterError>(r.unwrap()@),
        r.is_err() ==> spec_decode_run_length(data@) == Err::<Seq<u8>, FilterError>(
            r.unwrap_err(),
        ),
{
    let mut result: Vec<u8> = Vec::new();
    let mut i: usize = 0;
    while i < data.len()
        invariant_except_break
            0 <= i <= data@.len(),
            rl_decode_from(data@, i as int, result@) == spec_decode_run_length(data@),
        ensures
            spec_decode_run_length(data@) == Ok::<Seq<u8>, FilterError>(result@),
        decreases data@.len() - i,
    {
        let length_byte = data[i];
        if length_byte == 128 {
            break;
        } else if length_byte < 128 {
            let count = length_byte as usize + 1;
            if count > data.len() - i - 1 {
                return Err(FilterError::MalformedInput);
            }
            let start = i + 1;
            let end = start + count;
            let ghost before = result@;
            let mut k: usize = start;
            while k < end
                invariant
                    end <= data@.len(),
                    start <= k <= end,
                    result@ =~= before + data@.subrange(start as int, k as int),
                decreases end - k,
            {
                result.push(data[k]);
                k = k + 1;
            }
            i = end;
        } else {
            let count = 257 - length_byte as usize;
            if i + 1 >= data.len() {
                return Err(FilterError::MalformedInput);
            }
            let byte = data[i + 1];
            let ghost before = result@;
            let mut k: usize = 0;
            while k < count
                invariant
                    k <= count,
                    result@ =~= before + repeat(byte, k as nat),
                decreases count - k,
            {
                result.push(byte);
                k = k + 1;
            }
            i = i + 2;
        }
    }
    Ok(result)
}

/// Encodes bytes with RunLength: runs of two or more equal bytes (at most
/// 128) become repeat records, other bytes literal records of at most 128,
/// and the output ends with the 128 marker.
pub fn encode_run_length(data: &[u8]) -> (r: Result<Vec<u8>, FilterError>)
    ensures
        r == Ok::<Vec<u8>, FilterError>(r.unwrap()),
        r.unwrap()@ == spec_encode_run_length(data@),
{
    let mut result: Vec<u8> = Vec::new();
    let mut i: usize = 0;
    while i < data.len()
        invariant
            0 <= i <= data@.len(),
            spec_encode_run_length(data@) == result@ + rl_encode_from(data@, i as int),
        decreases data@.len() - i,
    {
        let start = i;
        let byte = data[i];
        let mut j: usize = i;
        proof {
            lemma_run_end(data@, start as int, start as int);
        }
        while j < data.len() && data[j] == byte && j - start < 128
            invariant
                start <= j <= data@.len(),
                start < data@.len(),
                byte == data@[start as int],
                j - start <= 128,
                run_end(data@, start as int, j as int) == run_end(
                    data@,
                    start as int,
                    start as int,
                ),
            decreases data@.len() - j,
        {
            j = j + 1;
        }
        let run_length = j - start;
        let ghost tail = rl_encode_from(data@, start as int);
        if run_length >= 2 {
            result.push((257 - run_length) as u8);
            result.push(byte);
            i = j;
            assert(tail == seq![(257 - run_length) as u8, byte] + rl_encode_from(data@, i as int));
        } else {
            let literal_start = start;
            let mut k: usize = start;
            proof {
                lemma_lit_end(data@, literal_start as int, literal_start as int);
            }
            let ghost e = lit_end(data@, literal_start as int, literal_start as int);
            while k < data.len()
                invariant_except_break
                    literal_start <= k <= data@.len(),
                    k - literal_start < 128,
                    lit_end(data@, literal_start as int, k as int) == e,
                ensures
                    k == e,
                decreases data@.len() - k,
            {
                if data.len() - k > 2 && data[k] == data[k + 1] && data[k] == data[k + 2] {
                    break;
                }
                k = k + 1;
                if k - literal_start >= 128 {
                    break;
                }
            }
            proof {
                assert(!triple_at(data@, start as int));
            }
            let literal_length = k - literal_start;
            result.push((literal_length - 1) as u8);
            let ghost before = result@;
            let mut t: usize = literal_start;
            while t < k
                invariant
                    literal_start <= t <= k <= data@.len(),
                    result@ =~= before + data@.subrange(literal_start as int, t as int),
                decreases k - t,
            {
                result.push(data[t]);
                t = t + 1;
            }
            i = k;
            assert(tail =~= seq![(literal_length - 1) as u8] + data@.subrange(
                literal_start as int,
                k as int,
            ) + rl_encode_from(data@, i as int));
        }
    }
    result.push(128);
    proof {
        assert(rl_encode_from(data@, i as int) == seq![128u8]);
    }
    assert(result@ =~= spec_encode_run_length(data@));
    Ok(result)
}

} // verus!
