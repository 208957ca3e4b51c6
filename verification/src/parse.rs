use vstd::prelude::*;

use crate::common::{
    decode_u32, first_index, from_be32, from_be64, i32_at, magic, u32_at, Header, TimeSize,
    HEADER_RESERVED_LEN,
};
use crate::error::{agrees, err, ErrSpec, TzifError};
use crate::model::{BlockView, DataBlock, FileView, LeapSecond, LocalTimeType, TzifFile, Version};
use crate::text::utf8_string;
use crate::validate::{spec_validate_file, validate_file};

verus! {

// ---------------------------------------------------------------------------
// The TZif grammar over bytes.
// ---------------------------------------------------------------------------

/// The header that starts at `off` and the position after it, or the error met reading it.
#[verifier::opaque]
pub open spec fn spec_read_header(b: Seq<u8>, off: int) -> Result<(Header, int), TzifError> {
    if off + 4 > b.len() {
        Err(TzifError::UnexpectedEof { offset: off as usize, context: "magic" })
    } else if b.subrange(off, off + 4) != magic() {
        Err(TzifError::InvalidMagic { offset: off as usize })
    } else if off + 5 > b.len() {
        Err(TzifError::UnexpectedEof { offset: (off + 4) as usize, context: "version" })
    } else {
        match Version::spec_from_byte(b[off + 4]) {
            None => Err(TzifError::InvalidVersion(b[off + 4])),
            Some(version) => if off + 20 > b.len() {
                Err(TzifError::UnexpectedEof { offset: (off + 5) as usize, context: "reserved header bytes" })
            } else if off + 24 > b.len() {
                Err(TzifError::UnexpectedEof { offset: (off + 20) as usize, context: "isutcnt" })
            } else if off + 28 > b.len() {
                Err(TzifError::UnexpectedEof { offset: (off + 24) as usize, context: "isstdcnt" })
            } else if off + 32 > b.len() {
                Err(TzifError::UnexpectedEof { offset: (off + 28) as usize, context: "leapcnt" })
            } else if off + 36 > b.len() {
                Err(TzifError::UnexpectedEof { offset: (off + 32) as usize, context: "timecnt" })
            } else if off + 40 > b.len() {
                Err(TzifError::UnexpectedEof { offset: (off + 36) as usize, context: "typecnt" })
            } else if off + 44 > b.len() {
                Err(TzifError::UnexpectedEof { offset: (off + 40) as usize, context: "charcnt" })
            } else {
                Ok((Header {
                    version,
                    isutcnt: u32_at(b, off + 20) as usize,
                    isstdcnt: u32_at(b, off + 24) as usize,
                    leapcnt: u32_at(b, off + 28) as usize,
                    timecnt: u32_at(b, off + 32) as usize,
                    typecnt: u32_at(b, off + 36) as usize,
                    charcnt: u32_at(b, off + 40) as usize,
                }, off + 44))
            },
        }
    }
}

/// A time value read from its bytes.
pub open spec fn decode_time(c: Seq<u8>, time_size: TimeSize) -> i64 {
    match time_size {
        TimeSize::ThirtyTwo => (from_be32(c[0], c[1], c[2], c[3]) as i32) as i64,
        TimeSize::SixtyFour => from_be64(c) as i64,
    }
}

/// A local time type record read from its six bytes (a DST byte other than 1 reads as `false`).
pub open spec fn decode_local_time_type(c: Seq<u8>) -> LocalTimeType {
    LocalTimeType {
        utc_offset: from_be32(c[0], c[1], c[2], c[3]) as i32,
        is_dst: c[4] == 1,
        designation_index: c[5],
    }
}

/// A leap-second record read from its bytes.
pub open spec fn decode_leap_second(c: Seq<u8>, time_size: TimeSize) -> LeapSecond {
    let w = time_size.spec_byte_len();
    LeapSecond {
        occurrence: decode_time(c.subrange(0, w), time_size),
        correction: from_be32(c[w], c[w + 1], c[w + 2], c[w + 3]) as i32,
    }
}

/// The `n` items of `w` bytes each that start at `start`, each read by `g`.
pub open spec fn items<T>(b: Seq<u8>, start: int, n: int, w: int, g: spec_fn(Seq<u8>) -> T) -> Seq<T> {
    Seq::new(n as nat, |j: int| g(b.subrange(start + j * w, start + j * w + w)))
}

pub open spec fn time_reader(time_size: TimeSize) -> spec_fn(Seq<u8>) -> i64 {
    |c: Seq<u8>| decode_time(c, time_size)
}

pub open spec fn ltt_reader() -> spec_fn(Seq<u8>) -> LocalTimeType {
    |c: Seq<u8>| decode_local_time_type(c)
}

pub open spec fn leap_reader(time_size: TimeSize) -> spec_fn(Seq<u8>) -> LeapSecond {
    |c: Seq<u8>| decode_leap_second(c, time_size)
}

pub open spec fn bool_reader() -> spec_fn(Seq<u8>) -> bool {
    |c: Seq<u8>| c[0] == 1
}

/// Where each part of a data block starts, given the block's start.
pub open spec fn types_start(h: Header, time_size: TimeSize, off: int) -> int {
    off + h.timecnt * time_size.spec_byte_len()
}

pub open spec fn ltts_start(h: Header, time_size: TimeSize, off: int) -> int {
    types_start(h, time_size, off) + h.timecnt
}

pub open spec fn designations_start(h: Header, time_size: TimeSize, off: int) -> int {
    ltts_start(h, time_size, off) + h.typecnt * 6
}

pub open spec fn leaps_start(h: Header, time_size: TimeSize, off: int) -> int {
    designations_start(h, time_size, off) + h.charcnt
}

pub open spec fn std_start(h: Header, time_size: TimeSize, off: int) -> int {
    leaps_start(h, time_size, off) + h.leapcnt * (time_size.spec_byte_len() + 4)
}

pub open spec fn ut_start(h: Header, time_size: TimeSize, off: int) -> int {
    std_start(h, time_size, off) + h.isstdcnt
}

/// The block that `h` describes at `off`, each field read from its bytes.
pub open spec fn spec_decode_block(b: Seq<u8>, off: int, h: Header, time_size: TimeSize) -> BlockView {
    let w = time_size.spec_byte_len();
    BlockView {
        transition_times: items(b, off, h.timecnt as int, w, time_reader(time_size)),
        transition_types: b.subrange(types_start(h, time_size, off), types_start(h, time_size, off) + h.timecnt),
        local_time_types: items(b, ltts_start(h, time_size, off), h.typecnt as int, 6, ltt_reader()),
        designations: b.subrange(designations_start(h, time_size, off), designations_start(h, time_size, off) + h.charcnt),
        leap_seconds: items(b, leaps_start(h, time_size, off), h.leapcnt as int, w + 4, leap_reader(time_size)),
        standard_wall_indicators: items(b, std_start(h, time_size, off), h.isstdcnt as int, 1, bool_reader()),
        ut_local_indicators: items(b, ut_start(h, time_size, off), h.isutcnt as int, 1, bool_reader()),
    }
}

/// Holds at `j` when the DST byte of local time type `j` is neither 0 nor 1.
pub open spec fn bad_dst(b: Seq<u8>, start: int) -> spec_fn(int) -> bool {
    |j: int| b[start + 6 * j + 4] > 1
}

/// Holds at `j` when indicator byte `j` is neither 0 nor 1.
pub open spec fn bad_indicator(b: Seq<u8>, start: int) -> spec_fn(int) -> bool {
    |j: int| b[start + j] > 1
}

/// The data block at `off` and the position after it, or the error met reading it.
#[verifier::opaque]
pub open spec fn spec_read_block(b: Seq<u8>, off: int, h: Header, time_size: TimeSize) -> Result<(BlockView, int), TzifError> {
    match h.spec_data_block_len(time_size) {
        Err(e) => Err(e),
        Ok(len) => if off + len > b.len() {
            Err(TzifError::UnexpectedEof { offset: off as usize, context: "data block" })
        } else if let Some(j) = first_index(bad_dst(b, ltts_start(h, time_size, off)), 0, h.typecnt as int) {
            Err(TzifError::InvalidDstIndicator { index: j as usize, value: b[ltts_start(h, time_size, off) + 6 * j + 4] })
        } else if let Some(j) = first_index(bad_indicator(b, std_start(h, time_size, off)), 0, h.isstdcnt as int) {
            Err(TzifError::InvalidBooleanIndicator { field: "standard_wall_indicators", index: j as usize, value: b[std_start(h, time_size, off) + j] })
        } else if let Some(j) = first_index(bad_indicator(b, ut_start(h, time_size, off)), 0, h.isutcnt as int) {
            Err(TzifError::InvalidBooleanIndicator { field: "ut_local_indicators", index: j as usize, value: b[ut_start(h, time_size, off) + j] })
        } else {
            Ok((spec_decode_block(b, off, h, time_size), off + len))
        },
    }
}

pub open spec fn is_newline(b: Seq<u8>) -> spec_fn(int) -> bool {
    |j: int| b[j] == 0x0a
}

/// The footer line at `off`, its characters and the position after it.
pub open spec fn spec_read_footer(b: Seq<u8>, off: int) -> Result<(Seq<char>, int), TzifError> {
    if off + 1 > b.len() {
        Err(TzifError::UnexpectedEof { offset: off as usize, context: "footer start newline" })
    } else if b[off] != 0x0a {
        Err(TzifError::MissingFooterStart { offset: off as usize })
    } else {
        match first_index(is_newline(b), off + 1, b.len() as int) {
            None => Err(TzifError::MissingFooterEnd { offset: (off + 1) as usize }),
            Some(e) => if !vstd::utf8::valid_utf8(b.subrange(off + 1, e)) {
                Err(TzifError::InvalidFooterUtf8)
            } else {
                Ok((vstd::utf8::decode_utf8(b.subrange(off + 1, e)), e + 1))
            },
        }
    }
}

/// The outcome of parsing `b`: the file it holds, or the first error met, validation last.
pub open spec fn spec_parse(b: Seq<u8>) -> Result<FileView, ErrSpec> {
    match spec_read_header(b, 0) {
        Err(e) => Err(err(e)),
        Ok((h1, p1)) => match spec_read_block(b, p1, h1, TimeSize::ThirtyTwo) {
            Err(e) => Err(err(e)),
            Ok((v1, p2)) => if h1.version == Version::V1 {
                if p2 != b.len() {
                    Err(err(TzifError::TrailingData { offset: p2 as usize }))
                } else {
                    let file = FileView { version: Version::V1, v1, v2_plus: None, footer: None };
                    match spec_validate_file(file) {
                        Err(e) => Err(e),
                        Ok(()) => Ok(file),
                    }
                }
            } else {
                match spec_read_header(b, p2) {
                    Err(e) => Err(err(e)),
                    Ok((h2, p3)) => if h2.version != h1.version {
                        Err(err(TzifError::VersionMismatch { first: h1.version, second: h2.version }))
                    } else {
                        match spec_read_block(b, p3, h2, TimeSize::SixtyFour) {
                            Err(e) => Err(err(e)),
                            Ok((v2, p4)) => match spec_read_footer(b, p4) {
                                Err(e) => Err(err(e)),
                                Ok((footer, p5)) => if p5 != b.len() {
                                    Err(err(TzifError::TrailingData { offset: p5 as usize }))
                                } else {
                                    let file = FileView { version: h1.version, v1, v2_plus: Some(v2), footer: Some(footer) };
                                    match spec_validate_file(file) {
                                        Err(e) => Err(e),
                                        Ok(()) => Ok(file),
                                    }
                                },
                            },
                        }
                    },
                }
            },
        },
    }
}


pub proof fn lemma_mul_step(k: int, n: int, w: int)
    requires
        0 <= k < n,
        w >= 0,
    ensures
        k * w + w <= n * w,
        (k + 1) * w == k * w + w,
        0 <= k * w,
{
    assert(k * w + w <= n * w) by (nonlinear_arith)
        requires 0 <= k < n, w >= 0;
    assert((k + 1) * w == k * w + w) by (nonlinear_arith);
    assert(0 <= k * w) by (nonlinear_arith)
        requires 0 <= k, w >= 0;
}

pub proof fn lemma_items_push<T>(b: Seq<u8>, start: int, k: int, w: int, g: spec_fn(Seq<u8>) -> T)
    requires
        k >= 0,
    ensures
        items(b, start, k + 1, w, g) == items(b, start, k, w, g).push(g(b.subrange(start + k * w, start + k * w + w))),
{
    assert(items(b, start, k + 1, w, g) =~= items(b, start, k, w, g).push(g(b.subrange(start + k * w, start + k * w + w))));
}

/// Reads a TZif byte string front to back.
struct Reader<'a> {
    input: &'a [u8],
    offset: usize,
}

impl<'a> Reader<'a> {
    /// The reader did not change its input and stands inside it.
    spec fn keeps(&self, old: &Self) -> bool {
        self.input@ == old.input@ && self.offset <= self.input@.len()
    }

    fn new(input: &'a [u8]) -> (r: Reader<'a>)
        ensures
            r.input@ == input@,
            r.offset == 0,
    {
        Reader { input, offset: 0 }
    }

    fn read_exact(&mut self, len: usize, context: &'static str) -> (res: Result<&'a [u8], TzifError>)
        requires
            old(self).offset <= old(self).input@.len(),
        ensures
            final(self).keeps(old(self)),
            old(self).offset + len > old(self).input@.len() ==> res == Err::<&'a [u8], TzifError>(
                TzifError::UnexpectedEof { offset: old(self).offset, context }),
            old(self).offset + len <= old(self).input@.len() ==> (res matches Ok(s)
                && s@ == old(self).input@.subrange(old(self).offset as int, old(self).offset + len)
                && final(self).offset == old(self).offset + len),
    {
        if len > self.input.len() - self.offset {
            return Err(TzifError::UnexpectedEof { offset: self.offset, context });
        }
        let end = self.offset + len;
        let bytes = vstd::slice::slice_subrange(self.input, self.offset, end);
        self.offset = end;
        Ok(bytes)
    }

    fn ensure_remaining(&self, len: usize, context: &'static str) -> (res: Result<(), TzifError>)
        requires
            self.offset <= self.input@.len(),
        ensures
            self.offset + len > self.input@.len() ==> res == Err::<(), TzifError>(
                TzifError::UnexpectedEof { offset: self.offset, context }),
            self.offset + len <= self.input@.len() ==> res is Ok,
    {
        if len > self.input.len() - self.offset {
            Err(TzifError::UnexpectedEof { offset: self.offset, context })
        } else {
            Ok(())
        }
    }

    fn read_u8(&mut self, context: &'static str) -> (res: Result<u8, TzifError>)
        requires
            old(self).offset <= old(self).input@.len(),
        ensures
            final(self).keeps(old(self)),
            old(self).offset + 1 > old(self).input@.len() ==> res == Err::<u8, TzifError>(
                TzifError::UnexpectedEof { offset: old(self).offset, context }),
            old(self).offset + 1 <= old(self).input@.len() ==> res == Ok::<u8, TzifError>(old(self).input@[old(self).offset as int])
                && final(self).offset == old(self).offset + 1,
    {
        let bytes = self.read_exact(1, context)?;
        Ok(bytes[0])
    }

    fn read_u32(&mut self, context: &'static str) -> (res: Result<u32, TzifError>)
        requires
            old(self).offset <= old(self).input@.len(),
        ensures
            final(self).keeps(old(self)),
            old(self).offset + 4 > old(self).input@.len() ==> res == Err::<u32, TzifError>(
                TzifError::UnexpectedEof { offset: old(self).offset, context }),
            old(self).offset + 4 <= old(self).input@.len() ==> res == Ok::<u32, TzifError>(u32_at(old(self).input@, old(self).offset as int))
                && final(self).offset == old(self).offset + 4,
    {
        let bytes = self.read_exact(4, context)?;
        Ok(decode_u32(bytes[0], bytes[1], bytes[2], bytes[3]))
    }

    fn read_i32(&mut self, context: &'static str) -> (res: Result<i32, TzifError>)
        requires
            old(self).offset <= old(self).input@.len(),
        ensures
            final(self).keeps(old(self)),
            old(self).offset + 4 > old(self).input@.len() ==> res == Err::<i32, TzifError>(
                TzifError::UnexpectedEof { offset: old(self).offset, context }),
            old(self).offset + 4 <= old(self).input@.len() ==> res == Ok::<i32, TzifError>(i32_at(old(self).input@, old(self).offset as int))
                && final(self).offset == old(self).offset + 4,
    {
        let v = self.read_u32(context)?;
        Ok(v as i32)
    }

    fn read_time(&mut self, time_size: TimeSize, context: &'static str) -> (res: Result<i64, TzifError>)
        requires
            old(self).offset <= old(self).input@.len(),
        ensures
            final(self).keeps(old(self)),
            old(self).offset + time_size.spec_byte_len() > old(self).input@.len() ==> res == Err::<i64, TzifError>(
                TzifError::UnexpectedEof { offset: old(self).offset, context }),
            old(self).offset + time_size.spec_byte_len() <= old(self).input@.len() ==> res == Ok::<i64, TzifError>(
                decode_time(old(self).input@.subrange(old(self).offset as int, old(self).offset + time_size.spec_byte_len()), time_size))
                && final(self).offset == old(self).offset + time_size.spec_byte_len(),
    {
        match time_size {
            TimeSize::ThirtyTwo => {
                let v = self.read_i32(context)?;
                Ok(v as i64)
            },
            TimeSize::SixtyFour => {
                let bytes = self.read_exact(8, context)?;
                let hi = decode_u32(bytes[0], bytes[1], bytes[2], bytes[3]);
                let lo = decode_u32(bytes[4], bytes[5], bytes[6], bytes[7]);
                let v: u64 = ((hi as u64) << 32u64) | (lo as u64);
                Ok(v as i64)
            },
        }
    }

    fn read_count(&mut self, field: &'static str) -> (res: Result<usize, TzifError>)
        requires
            old(self).offset <= old(self).input@.len(),
        ensures
            final(self).keeps(old(self)),
            old(self).offset + 4 > old(self).input@.len() ==> res == Err::<usize, TzifError>(
                TzifError::UnexpectedEof { offset: old(self).offset, context: field }),
            old(self).offset + 4 <= old(self).input@.len() ==> res == Ok::<usize, TzifError>(u32_at(old(self).input@, old(self).offset as int) as usize)
                && final(self).offset == old(self).offset + 4,
    {
        let count = self.read_u32(field)?;
        Ok(count as usize)
    }

    fn read_header(&mut self) -> (res: Result<Header, TzifError>)
        requires
            old(self).offset <= old(self).input@.len(),
        ensures
            final(self).keeps(old(self)),
            match spec_read_header(old(self).input@, old(self).offset as int) {
                Err(e) => res == Err::<Header, TzifError>(e),
                Ok((h, p)) => res == Ok::<Header, TzifError>(h) && final(self).offset == p,
            },
    {
        reveal(spec_read_header);
        let header_offset = self.offset;
        let magic_bytes = self.read_exact(4, "magic")?;
        if !(magic_bytes[0] == 0x54 && magic_bytes[1] == 0x5a && magic_bytes[2] == 0x69 && magic_bytes[3] == 0x66) {
            assert(magic_bytes@ != magic()) by {
                if magic_bytes@ == magic() {
                    assert(magic_bytes@[0] == 0x54 && magic_bytes@[1] == 0x5a && magic_bytes@[2] == 0x69 && magic_bytes@[3] == 0x66);
                }
            }
            return Err(TzifError::InvalidMagic { offset: header_offset });
        }
        assert(magic_bytes@ =~= magic());
        let version = Version::from_byte(self.read_u8("version")?)?;
        self.read_exact(HEADER_RESERVED_LEN, "reserved header bytes")?;
        let isutcnt = self.read_count("isutcnt")?;
        let isstdcnt = self.read_count("isstdcnt")?;
        let leapcnt = self.read_count("leapcnt")?;
        let timecnt = self.read_count("timecnt")?;
        let typecnt = self.read_count("typecnt")?;
        let charcnt = self.read_count("charcnt")?;
        Ok(Header { version, isutcnt, isstdcnt, leapcnt, timecnt, typecnt, charcnt })
    }

    fn expect_eof(&self) -> (res: Result<(), TzifError>)
        ensures
            self.offset == self.input@.len() ==> res is Ok,
            self.offset != self.input@.len() ==> res == Err::<(), TzifError>(TzifError::TrailingData { offset: self.offset }),
    {
        if self.offset == self.input.len() {
            Ok(())
        } else {
            Err(TzifError::TrailingData { offset: self.offset })
        }
    }
}

impl<'a> Reader<'a> {
    fn read_bool_indicators(&mut self, field: &'static str, count: usize) -> (res: Result<Vec<bool>, TzifError>)
        requires
            old(self).offset + count <= old(self).input@.len(),
        ensures
            final(self).keeps(old(self)),
            match first_index(bad_indicator(old(self).input@, old(self).offset as int), 0, count as int) {
                Some(j) => res == Err::<Vec<bool>, TzifError>(TzifError::InvalidBooleanIndicator {
                    field, index: j as usize, value: old(self).input@[old(self).offset + j] }),
                None => res matches Ok(v) && v@ == items(old(self).input@, old(self).offset as int, count as int, 1, bool_reader())
                    && final(self).offset == old(self).offset + count,
            },
    {
        let start = self.offset;
        let mut values: Vec<bool> = Vec::new();
        let mut index: usize = 0;
        while index < count
            invariant
                self.input@ == old(self).input@,
                start == old(self).offset,
                start + count <= self.input@.len(),
                0 <= index <= count,
                self.offset == start + index,
                values@ == items(self.input@, start as int, index as int, 1, bool_reader()),
                first_index(bad_indicator(self.input@, start as int), 0, count as int)
                    == first_index(bad_indicator(self.input@, start as int), index as int, count as int),
            decreases count - index,
        {
            let byte = self.read_u8(field)?;
            proof {
                lemma_items_push(self.input@, start as int, index as int, 1, bool_reader());
                assert(self.input@.subrange(start + index, start + index + 1) =~= seq![byte]);
            }
            if byte == 0 {
                values.push(false);
            } else if byte == 1 {
                values.push(true);
            } else {
                return Err(TzifError::InvalidBooleanIndicator { field, index, value: byte });
            }
            index = index + 1;
        }
        Ok(values)
    }

    #[verifier::spinoff_prover]
    #[verifier::rlimit(40)]
    fn read_data_block(&mut self, header: &Header, time_size: TimeSize) -> (res: Result<DataBlock, TzifError>)
        requires
            old(self).offset <= old(self).input@.len(),
        ensures
            final(self).keeps(old(self)),
            match spec_read_block(old(self).input@, old(self).offset as int, *header, time_size) {
                Err(e) => res == Err::<DataBlock, TzifError>(e),
                Ok((blk, p)) => res matches Ok(block) && block@ == blk && final(self).offset == p,
            },
    {
        reveal(spec_read_block);
        let len = header.data_block_len(time_size)?;
        self.ensure_remaining(len, "data block")?;
        let ghost b = self.input@;
        let ghost start = self.offset as int;
        let w = time_size.byte_len();
        let ghost h = *header;
        assert(header.block_len_int(time_size) == len);
        assert(start + len <= b.len());

        let mut transition_times: Vec<i64> = Vec::new();
        let mut k: usize = 0;
        while k < header.timecnt
            invariant
                self.input@ == b,
                start + len <= b.len(),
                0 <= k <= header.timecnt,
                self.offset == start + k * w,
                transition_times@ == items(b, start, k as int, w as int, time_reader(time_size)),
            decreases header.timecnt - k,
        {
            proof {
                lemma_mul_step(k as int, header.timecnt as int, w as int);
                lemma_items_push(b, start, k as int, w as int, time_reader(time_size));
            }
            let t = self.read_time(time_size, "transition time")?;
            transition_times.push(t);
            k = k + 1;
        }
        let types_slice = self.read_exact(header.timecnt, "transition types")?;
        let transition_types = vstd::slice::slice_to_vec(types_slice);

        let ghost lstart = ltts_start(h, time_size, start);
        let mut local_time_types: Vec<LocalTimeType> = Vec::new();
        let mut index: usize = 0;
        while index < header.typecnt
            invariant
                self.input@ == b,
                start + len <= b.len(),
                0 <= index <= header.typecnt,
                self.offset == lstart + index * 6,
                local_time_types@ == items(b, lstart, index as int, 6, ltt_reader()),
                first_index(bad_dst(b, lstart), 0, header.typecnt as int)
                    == first_index(bad_dst(b, lstart), index as int, header.typecnt as int),
            decreases header.typecnt - index,
        {
            proof {
                lemma_mul_step(index as int, header.typecnt as int, 6);
                lemma_items_push(b, lstart, index as int, 6, ltt_reader());
            }
            let utc_offset = self.read_i32("local time type UTC offset")?;
            let dst_byte = self.read_u8("local time type DST indicator")?;
            let is_dst = if dst_byte == 0 {
                false
            } else if dst_byte == 1 {
                true
            } else {
                return Err(TzifError::InvalidDstIndicator { index, value: dst_byte });
            };
            let designation_index = self.read_u8("local time type designation index")?;
            local_time_types.push(LocalTimeType { utc_offset, is_dst, designation_index });
            index = index + 1;
        }

        let designations_slice = self.read_exact(header.charcnt, "designations")?;
        let designations = vstd::slice::slice_to_vec(designations_slice);

        let ghost pstart = leaps_start(h, time_size, start);
        let mut leap_seconds: Vec<LeapSecond> = Vec::new();
        let mut k: usize = 0;
        while k < header.leapcnt
            invariant
                self.input@ == b,
                start + len <= b.len(),
                0 <= k <= header.leapcnt,
                self.offset == pstart + k * (w + 4),
                leap_seconds@ == items(b, pstart, k as int, (w + 4) as int, leap_reader(time_size)),
            decreases header.leapcnt - k,
        {
            proof {
                lemma_mul_step(k as int, header.leapcnt as int, (w + 4) as int);
                lemma_items_push(b, pstart, k as int, (w + 4) as int, leap_reader(time_size));
            }
            let ghost at = self.offset as int;
            let occurrence = self.read_time(time_size, "leap-second occurrence")?;
            let correction = self.read_i32("leap-second correction")?;
            proof {
                let c = b.subrange(at, at + w + 4);
                assert(c.subrange(0, w as int) =~= b.subrange(at, at + w));
                assert(c[w as int] == b[at + w] && c[w + 1] == b[at + w + 1] && c[w + 2] == b[at + w + 2] && c[w + 3] == b[at + w + 3]);
            }
            leap_seconds.push(LeapSecond { occurrence, correction });
            k = k + 1;
        }

        let standard_wall_indicators = self.read_bool_indicators("standard_wall_indicators", header.isstdcnt)?;
        let ut_local_indicators = self.read_bool_indicators("ut_local_indicators", header.isutcnt)?;
        let block = DataBlock {
            transition_times,
            transition_types,
            local_time_types,
            designations,
            leap_seconds,
            standard_wall_indicators,
            ut_local_indicators,
        };
        assert(block@ =~= spec_decode_block(b, start, h, time_size));
        Ok(block)
    }
}

impl<'a> Reader<'a> {
    fn read_footer(&mut self) -> (res: Result<String, TzifError>)
        requires
            old(self).offset <= old(self).input@.len(),
        ensures
            final(self).keeps(old(self)),
            match spec_read_footer(old(self).input@, old(self).offset as int) {
                Err(e) => res == Err::<String, TzifError>(e),
                Ok((footer, p)) => res matches Ok(s) && s@ == footer && final(self).offset == p,
            },
    {
        let start = self.offset;
        if self.read_u8("footer start newline")? != 0x0a {
            return Err(TzifError::MissingFooterStart { offset: start });
        }
        let footer_start = self.offset;
        let mut j = footer_start;
        while j < self.input.len() && self.input[j] != 0x0a
            invariant
                self.input@ == old(self).input@,
                footer_start <= j <= self.input@.len(),
                footer_start == old(self).offset + 1,
                first_index(is_newline(self.input@), footer_start as int, self.input@.len() as int)
                    == first_index(is_newline(self.input@), j as int, self.input@.len() as int),
            decreases self.input@.len() - j,
        {
            j = j + 1;
        }
        if j == self.input.len() {
            return Err(TzifError::MissingFooterEnd { offset: footer_start });
        }
        let bytes = vstd::slice::slice_subrange(self.input, footer_start, j);
        let footer = match utf8_string(vstd::slice::slice_to_vec(bytes)) {
            Some(footer) => footer,
            None => return Err(TzifError::InvalidFooterUtf8),
        };
        self.offset = j + 1;
        Ok(footer)
    }
}

impl TzifFile {
    /// Parses TZif bytes into a validated file: `Ok` with the file of [`spec_parse`]
    /// when the bytes hold a valid file, otherwise the first error met.
    pub fn parse(input: &[u8]) -> (res: Result<TzifFile, TzifError>)
        ensures
            match spec_parse(input@) {
                Ok(v) => res matches Ok(f) && f@ == v,
                Err(e) => res matches Err(x) && agrees(x, e),
            },
    {
        let mut reader = Reader::new(input);
        let first = reader.read_header()?;
        let v1 = reader.read_data_block(&first, TimeSize::ThirtyTwo)?;
        if matches!(first.version, Version::V1) {
            reader.expect_eof()?;
            let file = TzifFile::v1(v1);
            assert(file@ =~= (FileView { version: Version::V1, v1: v1@, v2_plus: None, footer: None }));
            validate_file(&file)?;
            return Ok(file);
        }
        let second = reader.read_header()?;
        if second.version != first.version {
            return Err(TzifError::VersionMismatch { first: first.version, second: second.version });
        }
        let v2_plus = reader.read_data_block(&second, TimeSize::SixtyFour)?;
        let footer = reader.read_footer()?;
        reader.expect_eof()?;
        let file = TzifFile { version: first.version, v1, v2_plus: Some(v2_plus), footer: Some(footer) };
        validate_file(&file)?;
        Ok(file)
    }

    /// Parses TZif bytes; the same as [`TzifFile::parse`].
    pub fn deserialize(input: &[u8]) -> (res: Result<TzifFile, TzifError>)
        ensures
            match spec_parse(input@) {
                Ok(v) => res matches Ok(f) && f@ == v,
                Err(e) => res matches Err(x) && agrees(x, e),
            },
    {
        Self::parse(input)
    }
}
} // verus!
