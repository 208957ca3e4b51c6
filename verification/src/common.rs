use vstd::prelude::*;

use crate::error::TzifError;
use crate::model::Version;

verus! {

/// Number of reserved bytes in a TZif header.
pub const HEADER_RESERVED_LEN: usize = 15;

/// The four magic bytes `TZif` that open every header.
pub open spec fn magic() -> Seq<u8> {
    seq![0x54u8, 0x5au8, 0x69u8, 0x66u8]
}

/// Width of the time values of a data block: 32 bits in the version 1 block,
/// 64 bits in the version 2+ block.
#[derive(Clone, Copy, Debug, PartialEq, Eq, Structural)]
pub enum TimeSize {
    ThirtyTwo,
    SixtyFour,
}

impl TimeSize {
    pub open spec fn spec_byte_len(self) -> int {
        match self {
            TimeSize::ThirtyTwo => 4,
            TimeSize::SixtyFour => 8,
        }
    }

    /// Number of bytes of one time value.
    pub fn byte_len(self) -> (n: usize)
        ensures
            n == self.spec_byte_len(),
    {
        match self {
            TimeSize::ThirtyTwo => 4,
            TimeSize::SixtyFour => 8,
        }
    }
}

/// The counts of a TZif header.
#[derive(Clone, Copy, Debug, PartialEq, Eq, Structural)]
pub struct Header {
    pub version: Version,
    pub isutcnt: usize,
    pub isstdcnt: usize,
    pub leapcnt: usize,
    pub timecnt: usize,
    pub typecnt: usize,
    pub charcnt: usize,
}

impl Header {
    /// Exact byte length of the data block that this header describes, over the integers.
    pub open spec fn block_len_int(self, time_size: TimeSize) -> int {
        self.timecnt * time_size.spec_byte_len() + self.timecnt + self.typecnt * 6 + self.charcnt
            + self.leapcnt * (time_size.spec_byte_len() + 4) + self.isstdcnt + self.isutcnt
    }

    /// What [`Header::data_block_len`] returns: the length, or the first product or the
    /// sum that does not fit in `usize`.
    pub open spec fn spec_data_block_len(self, time_size: TimeSize) -> Result<usize, TzifError> {
        if self.timecnt * time_size.spec_byte_len() > usize::MAX {
            Err(TzifError::DataBlockLengthOverflow { field: "transition_times" })
        } else if self.typecnt * 6 > usize::MAX {
            Err(TzifError::DataBlockLengthOverflow { field: "local_time_types" })
        } else if self.leapcnt * (time_size.spec_byte_len() + 4) > usize::MAX {
            Err(TzifError::DataBlockLengthOverflow { field: "leap_seconds" })
        } else if self.block_len_int(time_size) > usize::MAX {
            Err(TzifError::DataBlockLengthOverflow { field: "data_block" })
        } else {
            Ok(self.block_len_int(time_size) as usize)
        }
    }

    /// Byte length of the data block that this header describes.
    pub fn data_block_len(self, time_size: TimeSize) -> (res: Result<usize, TzifError>)
        ensures
            res == self.spec_data_block_len(time_size),
    {
        let width = time_size.byte_len();
        let transition_times = match self.timecnt.checked_mul(width) {
            Some(v) => v,
            None => return Err(TzifError::DataBlockLengthOverflow { field: "transition_times" }),
        };
        let local_time_types = match self.typecnt.checked_mul(6) {
            Some(v) => v,
            None => return Err(TzifError::DataBlockLengthOverflow { field: "local_time_types" }),
        };
        let leap_seconds = match self.leapcnt.checked_mul(width + 4) {
            Some(v) => v,
            None => return Err(TzifError::DataBlockLengthOverflow { field: "leap_seconds" }),
        };
        let parts: [usize; 7] = [
            transition_times,
            self.timecnt,
            local_time_types,
            self.charcnt,
            leap_seconds,
            self.isstdcnt,
            self.isutcnt,
        ];
        assert(partial_sum(parts@, 7) == self.block_len_int(time_size)) by {
            reveal_with_fuel(partial_sum, 8);
        }
        let mut sum: usize = 0;
        let mut i: usize = 0;
        while i < 7
            invariant
                0 <= i <= 7,
                parts@ == seq![transition_times, self.timecnt, local_time_types, self.charcnt,
                    leap_seconds, self.isstdcnt, self.isutcnt],
                sum == partial_sum(parts@, i as int),
                partial_sum(parts@, 7) == self.block_len_int(time_size),
                transition_times == self.timecnt * time_size.spec_byte_len(),
                local_time_types == self.typecnt * 6,
                leap_seconds == self.leapcnt * (time_size.spec_byte_len() + 4),
            decreases 7 - i,
        {
            let next = sum.checked_add(parts[i]);
            match next {
                Some(v) => {
                    sum = v;
                },
                None => {
                    proof {
                        assert(partial_sum(parts@, i as int + 1) == sum + parts@[i as int]);
                        lemma_partial_sum_monotone(parts@, i as int + 1, 7);
                    }
                    return Err(TzifError::DataBlockLengthOverflow { field: "data_block" });
                },
            }
            i = i + 1;
        }
        Ok(sum)
    }
}

/// Sum of the first `n` entries of `s`.
pub open spec fn partial_sum(s: Seq<usize>, n: int) -> int
    decreases n,
{
    if n <= 0 {
        0
    } else {
        partial_sum(s, n - 1) + s[n - 1]
    }
}

proof fn lemma_partial_sum_monotone(s: Seq<usize>, i: int, j: int)
    requires
        0 <= i <= j <= s.len(),
    ensures
        partial_sum(s, i) <= partial_sum(s, j),
    decreases j - i,
{
    if i < j {
        lemma_partial_sum_monotone(s, i, j - 1);
    }
}

/// Big-endian bytes of a 32-bit value.
pub open spec fn be32(v: u32) -> Seq<u8> {
    seq![(v >> 24u32) as u8, (v >> 16u32) as u8, (v >> 8u32) as u8, v as u8]
}

/// Big-endian bytes of a 64-bit value.
pub open spec fn be64(v: u64) -> Seq<u8> {
    seq![
        (v >> 56u64) as u8,
        (v >> 48u64) as u8,
        (v >> 40u64) as u8,
        (v >> 32u64) as u8,
        (v >> 24u64) as u8,
        (v >> 16u64) as u8,
        (v >> 8u64) as u8,
        v as u8,
    ]
}

/// The 32-bit value of four big-endian bytes.
pub open spec fn from_be32(b0: u8, b1: u8, b2: u8, b3: u8) -> u32 {
    ((b0 as u32) << 24u32) | ((b1 as u32) << 16u32) | ((b2 as u32) << 8u32) | (b3 as u32)
}

/// The 64-bit value of eight big-endian bytes.
pub open spec fn from_be64(b: Seq<u8>) -> u64 {
    ((from_be32(b[0], b[1], b[2], b[3]) as u64) << 32u64) | (from_be32(b[4], b[5], b[6], b[7]) as u64)
}

/// Big-endian two's-complement bytes of a signed 32-bit value.
pub open spec fn be_i32(v: i32) -> Seq<u8> {
    be32(v as u32)
}

/// Big-endian two's-complement bytes of a signed 64-bit value.
pub open spec fn be_i64(v: i64) -> Seq<u8> {
    be64(v as u64)
}

/// The signed 32-bit value of the four bytes of `s` at `at`.
pub open spec fn i32_at(s: Seq<u8>, at: int) -> i32 {
    from_be32(s[at], s[at + 1], s[at + 2], s[at + 3]) as i32
}

/// The unsigned 32-bit value of the four bytes of `s` at `at`.
pub open spec fn u32_at(s: Seq<u8>, at: int) -> u32 {
    from_be32(s[at], s[at + 1], s[at + 2], s[at + 3])
}

pub proof fn lemma_be32_decode(v: u32)
    ensures
        from_be32(be32(v)[0], be32(v)[1], be32(v)[2], be32(v)[3]) == v,
{
    let b0 = (v >> 24u32) as u8;
    let b1 = (v >> 16u32) as u8;
    let b2 = (v >> 8u32) as u8;
    let b3 = v as u8;
    assert(((b0 as u32) << 24u32) | ((b1 as u32) << 16u32) | ((b2 as u32) << 8u32) | (b3 as u32) == v)
        by (bit_vector)
        requires
            b0 == (v >> 24u32) as u8,
            b1 == (v >> 16u32) as u8,
            b2 == (v >> 8u32) as u8,
            b3 == v as u8,
    ;
}

pub proof fn lemma_be32_encode(b0: u8, b1: u8, b2: u8, b3: u8)
    ensures
        be32(from_be32(b0, b1, b2, b3)) == seq![b0, b1, b2, b3],
{
    let v = from_be32(b0, b1, b2, b3);
    assert((v >> 24u32) as u8 == b0 && (v >> 16u32) as u8 == b1 && (v >> 8u32) as u8 == b2
        && v as u8 == b3) by (bit_vector)
        requires
            v == ((b0 as u32) << 24u32) | ((b1 as u32) << 16u32) | ((b2 as u32) << 8u32) | (b3 as u32),
    ;
    assert(be32(v) =~= seq![b0, b1, b2, b3]);
}

pub proof fn lemma_i32_roundtrip(v: i32)
    ensures
        (v as u32) as i32 == v,
{
    assert((v as u32) as i32 == v) by (bit_vector);
}

pub proof fn lemma_i64_roundtrip(v: i64)
    ensures
        (v as u64) as i64 == v,
{
    assert((v as u64) as i64 == v) by (bit_vector);
}

pub proof fn lemma_u64_roundtrip(v: u64)
    ensures
        (v as i64) as u64 == v,
{
    assert((v as i64) as u64 == v) by (bit_vector);
}

pub proof fn lemma_u32_roundtrip(v: u32)
    ensures
        (v as i32) as u32 == v,
{
    assert((v as i32) as u32 == v) by (bit_vector);
}

pub proof fn lemma_be64_decode(v: u64)
    ensures
        from_be64(be64(v)) == v,
{
    let s = be64(v);
    let hi = from_be32(s[0], s[1], s[2], s[3]);
    let lo = from_be32(s[4], s[5], s[6], s[7]);
    let b0 = s[0];
    let b1 = s[1];
    let b2 = s[2];
    let b3 = s[3];
    let b4 = s[4];
    let b5 = s[5];
    let b6 = s[6];
    let b7 = s[7];
    assert(((((b0 as u32) << 24u32) | ((b1 as u32) << 16u32) | ((b2 as u32) << 8u32) | (b3 as u32)) as u64) << 32u64
        | ((((b4 as u32) << 24u32) | ((b5 as u32) << 16u32) | ((b6 as u32) << 8u32) | (b7 as u32)) as u64) == v)
        by (bit_vector)
        requires
            b0 == (v >> 56u64) as u8,
            b1 == (v >> 48u64) as u8,
            b2 == (v >> 40u64) as u8,
            b3 == (v >> 32u64) as u8,
            b4 == (v >> 24u64) as u8,
            b5 == (v >> 16u64) as u8,
            b6 == (v >> 8u64) as u8,
            b7 == v as u8,
    ;
}

pub proof fn lemma_be64_encode(s: Seq<u8>)
    requires
        s.len() == 8,
    ensures
        be64(from_be64(s)) == s,
{
    let b0 = s[0];
    let b1 = s[1];
    let b2 = s[2];
    let b3 = s[3];
    let b4 = s[4];
    let b5 = s[5];
    let b6 = s[6];
    let b7 = s[7];
    let v = from_be64(s);
    assert((v >> 56u64) as u8 == b0 && (v >> 48u64) as u8 == b1 && (v >> 40u64) as u8 == b2
        && (v >> 32u64) as u8 == b3 && (v >> 24u64) as u8 == b4 && (v >> 16u64) as u8 == b5
        && (v >> 8u64) as u8 == b6 && v as u8 == b7) by (bit_vector)
        requires
            v == ((((b0 as u32) << 24u32) | ((b1 as u32) << 16u32) | ((b2 as u32) << 8u32) | (b3 as u32)) as u64) << 32u64
                | ((((b4 as u32) << 24u32) | ((b5 as u32) << 16u32) | ((b6 as u32) << 8u32) | (b7 as u32)) as u64),
    ;
    assert(be64(v) =~= s);
}

/// Appends the big-endian bytes of `v`.
pub fn push_u32(out: &mut Vec<u8>, v: u32)
    ensures
        final(out)@ == old(out)@ + be32(v),
{
    out.push((v >> 24u32) as u8);
    out.push((v >> 16u32) as u8);
    out.push((v >> 8u32) as u8);
    out.push(v as u8);
    assert(out@ =~= old(out)@ + be32(v));
}

/// Appends the big-endian two's-complement bytes of `v`.
pub fn push_i32(out: &mut Vec<u8>, v: i32)
    ensures
        final(out)@ == old(out)@ + be_i32(v),
{
    push_u32(out, v as u32);
}

/// Appends the big-endian two's-complement bytes of `v`.
pub fn push_i64(out: &mut Vec<u8>, v: i64)
    ensures
        final(out)@ == old(out)@ + be_i64(v),
{
    let u = v as u64;
    out.push((u >> 56u64) as u8);
    out.push((u >> 48u64) as u8);
    out.push((u >> 40u64) as u8);
    out.push((u >> 32u64) as u8);
    out.push((u >> 24u64) as u8);
    out.push((u >> 16u64) as u8);
    out.push((u >> 8u64) as u8);
    out.push(u as u8);
    assert(out@ =~= old(out)@ + be_i64(v));
}

/// The 32-bit value of four big-endian bytes.
pub fn decode_u32(b0: u8, b1: u8, b2: u8, b3: u8) -> (v: u32)
    ensures
        v == from_be32(b0, b1, b2, b3),
{
    ((b0 as u32) << 24u32) | ((b1 as u32) << 16u32) | ((b2 as u32) << 8u32) | (b3 as u32)
}

} // verus!

verus! {

/// The least `i` in `lo..hi` for which `p(i)` holds.
pub open spec fn first_index(p: spec_fn(int) -> bool, lo: int, hi: int) -> Option<int>
    decreases hi - lo,
{
    if lo >= hi {
        None
    } else if p(lo) {
        Some(lo)
    } else {
        first_index(p, lo + 1, hi)
    }
}

/// What `first_index` finds holds `p`, lies in range, and nothing before it holds `p`.
pub proof fn lemma_first_index(p: spec_fn(int) -> bool, lo: int, hi: int)
    ensures
        first_index(p, lo, hi) matches Some(i) ==> lo <= i < hi && p(i) && forall|j: int| lo <= j < i ==> !#[trigger] p(j),
        first_index(p, lo, hi) is None ==> forall|j: int| lo <= j < hi ==> !#[trigger] p(j),
    decreases hi - lo,
{
    if lo < hi {
        lemma_first_index(p, lo + 1, hi);
    }
}

} // verus!
