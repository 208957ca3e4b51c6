use vstd::prelude::*;

use crate::common::{
    be32, be64, be_i32, be_i64, from_be32, from_be64, lemma_be32_decode, lemma_be32_encode, lemma_be64_decode,
    lemma_be64_encode, lemma_i32_roundtrip, lemma_i64_roundtrip, lemma_u32_roundtrip, lemma_u64_roundtrip, magic,
    u32_at, Header, TimeSize,
};
use crate::encoding::{
    bool_byte, concat_map, enc_bool, enc_leap_second, enc_local_time_type, enc_time, lemma_concat_map_fixed,
    spec_encode, spec_encode_block, spec_encode_header_with, spec_encode_with,
};
use crate::builder::{
    fitting_leap_seconds, fitting_times, fitting_types, spec_explicit_build, spec_fixed_offset_build, spec_resolve_version,
    v1_compatible, ExplicitTransitionsView, FixedOffsetView, VersionPolicy,
};
use crate::error::BuildErrorView;
use crate::model::{BlockView, FileView, LeapSecond, LocalTimeType, Version};
use crate::tzdist::{
    media_type_name, spec_validate_for_media_type, spec_validate_truncation, suggested_media_type_of, TzdistTruncation,
    TzifMediaType,
};
use crate::builder::{
    built_block, explicit_input_error, fixed_offset_block, has_type_error, index_in, invalid_designation, is_str,
    lemma_table_entry, normalized, offset_too_large, built_type, type_index_error, type_error, table_offset,
    designation_table_bytes,
};
use crate::common::lemma_first_index;
use crate::footer_text::{lemma_fixed_offset_block_valid, lemma_fixed_offset_footer_valid};
use crate::encoding::reserved_zeros;
use crate::footer::{byte_is, spec_parse_footer, spec_parse_rule, spec_parse_rule_date, spec_parse_time_like, spec_validate_footer};
use crate::validate::{
    is_valid_file, is_valid_wire_designation, lemma_valid_file_facts, local_time_type_error, outside_i32,
    is_nul, spec_designation_at, spec_validate_block, spec_validate_file, unspecified_designation,
};
use crate::interop::{
    block_rank, block_warning_keys, byte_key, cond_key, designation_keys, file_warning_keys, first_transition_keys,
    is_ascii_bytes, local_time_type_keys, offset_keys, spec_designation_text, spec_is_placeholder_type,
    spec_warning_keys, transition_keys,
};
use crate::common::first_index;
use crate::footer::{spec_footer_consistent, spec_type_at};
use crate::validate::{is_designation_byte, type_out_of_range};
use crate::tzdist::TzdistErrSpec;
use crate::error::TzdistError;
use crate::write::lemma_valid_block_fits;
use crate::parse::{
    bool_reader, decode_leap_second, decode_local_time_type, decode_time, items, leap_reader, ltt_reader,
    spec_parse, spec_read_block, spec_read_header, time_reader,
};

verus! {

/// Items read from the concatenated encodings of `s` give `s` back.
proof fn lemma_items_of_concat<T>(b: Seq<u8>, start: int, s: Seq<T>, w: int, f: spec_fn(T) -> Seq<u8>, g: spec_fn(Seq<u8>) -> T)
    requires
        w >= 0,
        0 <= start,
        start + s.len() * w <= b.len(),
        forall|x: T| #[trigger] f(x).len() == w,
        b.subrange(start, start + s.len() * w) == concat_map(s, f),
        forall|k: int| 0 <= k < s.len() ==> #[trigger] g(f(s[k])) == s[k],
    ensures
        items(b, start, s.len() as int, w, g) == s,
{
    lemma_concat_map_fixed(s, f, w);
    let c = concat_map(s, f);
    assert forall|k: int| 0 <= k < s.len() implies #[trigger] items(b, start, s.len() as int, w, g)[k] == s[k] by {
        crate::parse::lemma_mul_step(k, s.len() as int, w);
        assert(b.subrange(start + k * w, start + k * w + w) =~= c.subrange(k * w, k * w + w));
    }
    assert(items(b, start, s.len() as int, w, g) =~= s);
}

/// Re-encoding the items read from a region gives the region back.
proof fn lemma_concat_of_items<T>(b: Seq<u8>, start: int, n: int, w: int, g: spec_fn(Seq<u8>) -> T, f: spec_fn(T) -> Seq<u8>)
    requires
        n >= 0,
        w >= 0,
        0 <= start,
        start + n * w <= b.len(),
        forall|k: int| 0 <= k < n ==> #[trigger] f(g(b.subrange(start + k * w, start + k * w + w))) == b.subrange(start + k * w, start + k * w + w),
    ensures
        concat_map(items(b, start, n, w, g), f) == b.subrange(start, start + n * w),
    decreases n,
{
    let s = items(b, start, n, w, g);
    if n == 0 {
        assert(n * w == 0) by (nonlinear_arith)
            requires n == 0;
        assert(b.subrange(start, start + n * w) =~= Seq::<u8>::empty());
    } else {
        let m = n - 1;
        crate::parse::lemma_mul_step(m, n, w);
        assert(m * w <= n * w);
        lemma_concat_of_items(b, start, m, w, g, f);
        assert(s.drop_last() =~= items(b, start, m, w, g));
        assert(b.subrange(start, start + n * w) =~= b.subrange(start, start + m * w) + b.subrange(start + m * w, start + m * w + w));
    }
}


proof fn lemma_time_decode(t: i64, time_size: TimeSize)
    requires
        time_size == TimeSize::ThirtyTwo ==> !crate::validate::outside_i32(t),
    ensures
        decode_time(enc_time(time_size)(t), time_size) == t,
        enc_time(time_size)(t).len() == time_size.spec_byte_len(),
{
    match time_size {
        TimeSize::ThirtyTwo => {
            let v = t as i32;
            lemma_be32_decode(v as u32);
            lemma_i32_roundtrip(v);
        },
        TimeSize::SixtyFour => {
            lemma_be64_decode(t as u64);
            lemma_i64_roundtrip(t);
        },
    }
}

proof fn lemma_time_encode(c: Seq<u8>, time_size: TimeSize)
    requires
        c.len() == time_size.spec_byte_len(),
    ensures
        enc_time(time_size)(decode_time(c, time_size)) == c,
        time_size == TimeSize::ThirtyTwo ==> !crate::validate::outside_i32(decode_time(c, time_size)),
{
    match time_size {
        TimeSize::ThirtyTwo => {
            let u = from_be32(c[0], c[1], c[2], c[3]);
            lemma_u32_roundtrip(u);
            lemma_be32_encode(c[0], c[1], c[2], c[3]);
            assert(c =~= seq![c[0], c[1], c[2], c[3]]);
        },
        TimeSize::SixtyFour => {
            lemma_u64_roundtrip(from_be64(c));
            lemma_be64_encode(c);
        },
    }
}

proof fn lemma_ltt_decode(t: LocalTimeType)
    ensures
        decode_local_time_type(enc_local_time_type()(t)) == t,
{
    lemma_be32_decode(t.utc_offset as u32);
    lemma_i32_roundtrip(t.utc_offset);
}

proof fn lemma_ltt_encode(c: Seq<u8>)
    requires
        c.len() == 6,
        c[4] <= 1,
    ensures
        enc_local_time_type()(decode_local_time_type(c)) == c,
{
    lemma_u32_roundtrip(from_be32(c[0], c[1], c[2], c[3]));
    lemma_be32_encode(c[0], c[1], c[2], c[3]);
    assert(enc_local_time_type()(decode_local_time_type(c)) =~= c);
}

proof fn lemma_leap_decode(l: LeapSecond, time_size: TimeSize)
    requires
        time_size == TimeSize::ThirtyTwo ==> !crate::validate::outside_i32(l.occurrence),
    ensures
        decode_leap_second(enc_leap_second(time_size)(l), time_size) == l,
        enc_leap_second(time_size)(l).len() == time_size.spec_byte_len() + 4,
{
    lemma_time_decode(l.occurrence, time_size);
    let c = enc_leap_second(time_size)(l);
    let w = time_size.spec_byte_len();
    assert(c.subrange(0, w) =~= enc_time(time_size)(l.occurrence));
    lemma_be32_decode(l.correction as u32);
    lemma_i32_roundtrip(l.correction);
}

proof fn lemma_leap_encode(c: Seq<u8>, time_size: TimeSize)
    requires
        c.len() == time_size.spec_byte_len() + 4,
    ensures
        enc_leap_second(time_size)(decode_leap_second(c, time_size)) == c,
        time_size == TimeSize::ThirtyTwo ==> !crate::validate::outside_i32(decode_leap_second(c, time_size).occurrence),
{
    let w = time_size.spec_byte_len();
    lemma_time_encode(c.subrange(0, w), time_size);
    lemma_u32_roundtrip(from_be32(c[w], c[w + 1], c[w + 2], c[w + 3]));
    lemma_be32_encode(c[w], c[w + 1], c[w + 2], c[w + 3]);
    assert(enc_leap_second(time_size)(decode_leap_second(c, time_size)) =~= c);
}

/// The header that describes `block` for `version`.
pub open spec fn header_of(version: Version, block: BlockView) -> Header {
    Header {
        version,
        isutcnt: block.ut_local_indicators.len() as usize,
        isstdcnt: block.standard_wall_indicators.len() as usize,
        leapcnt: block.leap_seconds.len() as usize,
        timecnt: block.transition_times.len() as usize,
        typecnt: block.local_time_types.len() as usize,
        charcnt: block.designations.len() as usize,
    }
}

/// The encoding of each part of a block has the length the header predicts.
proof fn lemma_encode_block_len(block: BlockView, time_size: TimeSize, version: Version)
    requires
        crate::write::block_counts_fit(block),
        block.transition_types.len() == block.transition_times.len(),
    ensures
        spec_encode_block(block, time_size).len() == header_of(version, block).block_len_int(time_size),
        concat_map(block.transition_times, enc_time(time_size)).len() == block.transition_times.len() * time_size.spec_byte_len(),
        concat_map(block.local_time_types, enc_local_time_type()).len() == block.local_time_types.len() * 6,
        concat_map(block.leap_seconds, enc_leap_second(time_size)).len() == block.leap_seconds.len() * (time_size.spec_byte_len() + 4),
        concat_map(block.standard_wall_indicators, enc_bool()).len() == block.standard_wall_indicators.len(),
        concat_map(block.ut_local_indicators, enc_bool()).len() == block.ut_local_indicators.len(),
{
    let w = time_size.spec_byte_len();
    assert forall|x: i64| #[trigger] enc_time(time_size)(x).len() == w by {}
    assert forall|x: LeapSecond| #[trigger] enc_leap_second(time_size)(x).len() == w + 4 by {}
    assert forall|x: LocalTimeType| #[trigger] enc_local_time_type()(x).len() == 6 by {}
    assert forall|x: bool| #[trigger] enc_bool()(x).len() == 1 by {}
    lemma_concat_map_fixed(block.transition_times, enc_time(time_size), w);
    lemma_concat_map_fixed(block.local_time_types, enc_local_time_type(), 6);
    lemma_concat_map_fixed(block.leap_seconds, enc_leap_second(time_size), w + 4);
    lemma_concat_map_fixed(block.standard_wall_indicators, enc_bool(), 1);
    lemma_concat_map_fixed(block.ut_local_indicators, enc_bool(), 1);
    let h = header_of(version, block);
    let e = spec_encode_block(block, time_size);
    assert(e.len() == concat_map(block.transition_times, enc_time(time_size)).len() + block.transition_types.len()
        + concat_map(block.local_time_types, enc_local_time_type()).len() + block.designations.len()
        + concat_map(block.leap_seconds, enc_leap_second(time_size)).len()
        + concat_map(block.standard_wall_indicators, enc_bool()).len() + concat_map(block.ut_local_indicators, enc_bool()).len());
    assert(h.timecnt == block.transition_times.len());
    assert(h.typecnt == block.local_time_types.len());
    assert(h.leapcnt == block.leap_seconds.len());
    assert(h.charcnt == block.designations.len());
    assert(h.isstdcnt == block.standard_wall_indicators.len());
    assert(h.isutcnt == block.ut_local_indicators.len());
    assert(h.timecnt * w == block.transition_times.len() * w);
    assert(h.typecnt * 6 == block.local_time_types.len() * 6);
    assert(h.leapcnt * (w + 4) == block.leap_seconds.len() * (w + 4));
    assert(e.len() == h.block_len_int(time_size));
}

/// Where the parts of an encoded block lie.
pub open spec fn part_starts(block: BlockView, time_size: TimeSize, off: int) -> Seq<int> {
    let p1 = off + concat_map(block.transition_times, enc_time(time_size)).len();
    let p2 = p1 + block.transition_types.len();
    let p3 = p2 + concat_map(block.local_time_types, enc_local_time_type()).len();
    let p4 = p3 + block.designations.len();
    let p5 = p4 + concat_map(block.leap_seconds, enc_leap_second(time_size)).len();
    let p6 = p5 + concat_map(block.standard_wall_indicators, enc_bool()).len();
    let p7 = p6 + concat_map(block.ut_local_indicators, enc_bool()).len();
    seq![off, p1, p2, p3, p4, p5, p6, p7]
}

/// Each part of an encoded block sits at its place in the bytes.
proof fn lemma_block_parts(b: Seq<u8>, off: int, block: BlockView, time_size: TimeSize)
    requires
        0 <= off,
        off + spec_encode_block(block, time_size).len() <= b.len(),
        b.subrange(off, off + spec_encode_block(block, time_size).len()) == spec_encode_block(block, time_size),
    ensures
        ({
            let p = part_starts(block, time_size, off);
            &&& p[7] == off + spec_encode_block(block, time_size).len()
            &&& b.subrange(p[0], p[1]) == concat_map(block.transition_times, enc_time(time_size))
            &&& b.subrange(p[1], p[2]) == block.transition_types
            &&& b.subrange(p[2], p[3]) == concat_map(block.local_time_types, enc_local_time_type())
            &&& b.subrange(p[3], p[4]) == block.designations
            &&& b.subrange(p[4], p[5]) == concat_map(block.leap_seconds, enc_leap_second(time_size))
            &&& b.subrange(p[5], p[6]) == concat_map(block.standard_wall_indicators, enc_bool())
            &&& b.subrange(p[6], p[7]) == concat_map(block.ut_local_indicators, enc_bool())
        }),
{
    let e = spec_encode_block(block, time_size);
    let p = part_starts(block, time_size, off);
    assert(b.subrange(p[0], p[1]) =~= e.subrange(p[0] - off, p[1] - off));
    assert(b.subrange(p[1], p[2]) =~= e.subrange(p[1] - off, p[2] - off));
    assert(b.subrange(p[2], p[3]) =~= e.subrange(p[2] - off, p[3] - off));
    assert(b.subrange(p[3], p[4]) =~= e.subrange(p[3] - off, p[4] - off));
    assert(b.subrange(p[4], p[5]) =~= e.subrange(p[4] - off, p[5] - off));
    assert(b.subrange(p[5], p[6]) =~= e.subrange(p[5] - off, p[6] - off));
    assert(b.subrange(p[6], p[7]) =~= e.subrange(p[6] - off, p[7] - off));
}

/// The encoding of booleans has one byte per boolean, 0 or 1.
proof fn lemma_bool_concat(s: Seq<bool>)
    ensures
        concat_map(s, enc_bool()).len() == s.len(),
        forall|j: int| 0 <= j < s.len() ==> #[trigger] concat_map(s, enc_bool())[j] == bool_byte(s[j]),
    decreases s.len(),
{
    if s.len() > 0 {
        lemma_bool_concat(s.drop_last());
        assert forall|j: int| 0 <= j < s.len() implies #[trigger] concat_map(s, enc_bool())[j] == bool_byte(s[j]) by {
            if j < s.len() - 1 {
                assert(s.drop_last()[j] == s[j]);
            }
        }
    }
}

/// No value byte of an encoded boolean is above 1.
proof fn lemma_no_bad_indicator(b: Seq<u8>, start: int, s: Seq<bool>)
    requires
        0 <= start,
        start + s.len() <= b.len(),
        b.subrange(start, start + s.len()) == concat_map(s, enc_bool()),
    ensures
        crate::common::first_index(crate::parse::bad_indicator(b, start), 0, s.len() as int) is None,
{
    lemma_bool_concat(s);
    crate::common::lemma_first_index(crate::parse::bad_indicator(b, start), 0, s.len() as int);
    if let Some(j) = crate::common::first_index(crate::parse::bad_indicator(b, start), 0, s.len() as int) {
        let c = concat_map(s, enc_bool());
        assert(b.subrange(start, start + s.len())[j] == b[start + j]);
        assert(c[j] == bool_byte(s[j]));
        assert(false);
    }
}

/// No DST byte of encoded local time types is above 1.
proof fn lemma_no_bad_dst(b: Seq<u8>, start: int, s: Seq<LocalTimeType>)
    requires
        0 <= start,
        start + s.len() * 6 <= b.len(),
        b.subrange(start, start + s.len() * 6) == concat_map(s, enc_local_time_type()),
    ensures
        crate::common::first_index(crate::parse::bad_dst(b, start), 0, s.len() as int) is None,
{
    assert forall|x: LocalTimeType| #[trigger] enc_local_time_type()(x).len() == 6 by {}
    lemma_concat_map_fixed(s, enc_local_time_type(), 6);
    crate::common::lemma_first_index(crate::parse::bad_dst(b, start), 0, s.len() as int);
    if let Some(j) = crate::common::first_index(crate::parse::bad_dst(b, start), 0, s.len() as int) {
        let c = concat_map(s, enc_local_time_type());
        crate::parse::lemma_mul_step(j, s.len() as int, 6);
        let r = enc_local_time_type()(s[j]);
        assert(c.subrange(j * 6, j * 6 + 6) == r);
        assert(r[4] == bool_byte(s[j].is_dst));
        assert(c.subrange(j * 6, j * 6 + 6)[4] == c[j * 6 + 4]);
        assert(b.subrange(start, start + s.len() * 6)[j * 6 + 4] == b[start + j * 6 + 4]);
        assert(crate::parse::bad_dst(b, start)(j));
        assert(b[start + 6 * j + 4] > 1);
        assert(false);
    }
}

/// Reading the items of an encoded block gives the block.
proof fn lemma_decode_encoded_block(b: Seq<u8>, off: int, block: BlockView, time_size: TimeSize, version: Version)
    requires
        0 <= off,
        crate::write::block_counts_fit(block),
        block.transition_types.len() == block.transition_times.len(),
        time_size == TimeSize::ThirtyTwo ==> crate::write::block_times_fit_i32(block),
        off + spec_encode_block(block, time_size).len() <= b.len(),
        b.subrange(off, off + spec_encode_block(block, time_size).len()) == spec_encode_block(block, time_size),
    ensures
        crate::parse::spec_decode_block(b, off, header_of(version, block), time_size) == block,
{
    let h = header_of(version, block);
    let w = time_size.spec_byte_len();
    lemma_encode_block_len(block, time_size, version);
    lemma_block_parts(b, off, block, time_size);
    let p = part_starts(block, time_size, off);
    assert forall|x: i64| #[trigger] enc_time(time_size)(x).len() == w by {}
    assert forall|x: LeapSecond| #[trigger] enc_leap_second(time_size)(x).len() == w + 4 by {}
    assert forall|x: LocalTimeType| #[trigger] enc_local_time_type()(x).len() == 6 by {}
    assert forall|x: bool| #[trigger] enc_bool()(x).len() == 1 by {}
    assert forall|k: int| 0 <= k < block.transition_times.len() implies
        #[trigger] time_reader(time_size)(enc_time(time_size)(block.transition_times[k])) == block.transition_times[k] by {
        lemma_time_decode(block.transition_times[k], time_size);
    }
    lemma_items_of_concat(b, off, block.transition_times, w, enc_time(time_size), time_reader(time_size));
    assert forall|k: int| 0 <= k < block.local_time_types.len() implies
        #[trigger] ltt_reader()(enc_local_time_type()(block.local_time_types[k])) == block.local_time_types[k] by {
        lemma_ltt_decode(block.local_time_types[k]);
    }
    lemma_items_of_concat(b, p[2], block.local_time_types, 6, enc_local_time_type(), ltt_reader());
    assert forall|k: int| 0 <= k < block.leap_seconds.len() implies
        #[trigger] leap_reader(time_size)(enc_leap_second(time_size)(block.leap_seconds[k])) == block.leap_seconds[k] by {
        lemma_leap_decode(block.leap_seconds[k], time_size);
    }
    lemma_items_of_concat(b, p[4], block.leap_seconds, w + 4, enc_leap_second(time_size), leap_reader(time_size));
    lemma_items_of_concat(b, p[5], block.standard_wall_indicators, 1, enc_bool(), bool_reader());
    lemma_items_of_concat(b, p[6], block.ut_local_indicators, 1, enc_bool(), bool_reader());
    assert(crate::parse::spec_decode_block(b, off, h, time_size) =~= block);
}

/// Reading back the bytes of a block gives the block and the position after it.
pub proof fn lemma_read_encoded_block(b: Seq<u8>, off: int, block: BlockView, time_size: TimeSize, version: Version)
    requires
        0 <= off,
        b.len() <= usize::MAX,
        crate::write::block_counts_fit(block),
        block.transition_types.len() == block.transition_times.len(),
        time_size == TimeSize::ThirtyTwo ==> crate::write::block_times_fit_i32(block),
        off + spec_encode_block(block, time_size).len() <= b.len(),
        b.subrange(off, off + spec_encode_block(block, time_size).len()) == spec_encode_block(block, time_size),
    ensures
        spec_read_block(b, off, header_of(version, block), time_size) == Ok::<(BlockView, int), crate::error::TzifError>(
            (block, off + spec_encode_block(block, time_size).len())),
{
    reveal(spec_read_block);
    let h = header_of(version, block);
    lemma_encode_block_len(block, time_size, version);
    lemma_block_parts(b, off, block, time_size);
    let p = part_starts(block, time_size, off);
    lemma_no_bad_dst(b, p[2], block.local_time_types);
    lemma_no_bad_indicator(b, p[5], block.standard_wall_indicators);
    lemma_no_bad_indicator(b, p[6], block.ut_local_indicators);
    lemma_decode_encoded_block(b, off, block, time_size, version);
    assert(crate::parse::ltts_start(h, time_size, off) == p[2]);
    assert(crate::parse::std_start(h, time_size, off) == p[5]);
    assert(crate::parse::ut_start(h, time_size, off) == p[6]);
}


proof fn lemma_version_byte(v: Version)
    ensures
        Version::spec_from_byte(v.spec_byte()) == Some(v),
{
}

/// Reading back header bytes gives the header of the block they describe.
pub proof fn lemma_read_encoded_header(b: Seq<u8>, off: int, version: Version, reserved: Seq<u8>, block: BlockView)
    requires
        0 <= off,
        off + 44 <= b.len(),
        reserved.len() == 15,
        crate::write::block_counts_fit(block),
        b.subrange(off, off + 44) == spec_encode_header_with(version, reserved, block),
    ensures
        spec_read_header(b, off) == Ok::<(Header, int), crate::error::TzifError>((header_of(version, block), off + 44)),
{
    reveal(spec_read_header);
    let hb = spec_encode_header_with(version, reserved, block);
    assert(b.subrange(off, off + 4) =~= magic()) by {
        assert(b.subrange(off, off + 4) =~= hb.subrange(0, 4));
    }
    assert(b[off + 4] == version.spec_byte()) by {
        assert(b[off + 4] == hb[4]);
    }
    lemma_version_byte(version);
    assert(hb.subrange(20, 24) =~= be32(block.ut_local_indicators.len() as u32));
    assert(hb.subrange(24, 28) =~= be32(block.standard_wall_indicators.len() as u32));
    assert(hb.subrange(28, 32) =~= be32(block.leap_seconds.len() as u32));
    assert(hb.subrange(32, 36) =~= be32(block.transition_times.len() as u32));
    assert(hb.subrange(36, 40) =~= be32(block.local_time_types.len() as u32));
    assert(hb.subrange(40, 44) =~= be32(block.designations.len() as u32));
    lemma_u32_field(b, off, hb, 20, block.ut_local_indicators.len() as u32);
    lemma_u32_field(b, off, hb, 24, block.standard_wall_indicators.len() as u32);
    lemma_u32_field(b, off, hb, 28, block.leap_seconds.len() as u32);
    lemma_u32_field(b, off, hb, 32, block.transition_times.len() as u32);
    lemma_u32_field(b, off, hb, 36, block.local_time_types.len() as u32);
    lemma_u32_field(b, off, hb, 40, block.designations.len() as u32);
}

proof fn lemma_u32_field(b: Seq<u8>, off: int, hb: Seq<u8>, pos: int, c: u32)
    requires
        0 <= off,
        0 <= pos,
        pos + 4 <= 44,
        off + 44 <= b.len(),
        hb.len() == 44,
        b.subrange(off, off + 44) == hb,
        hb.subrange(pos, pos + 4) == be32(c),
    ensures
        u32_at(b, off + pos) == c,
{
    lemma_be32_decode(c);
    assert(b[off + pos] == hb[pos]);
    assert(b[off + pos + 1] == hb[pos + 1]);
    assert(b[off + pos + 2] == hb[pos + 2]);
    assert(b[off + pos + 3] == hb[pos + 3]);
    assert(hb[pos] == be32(c)[0]);
    assert(hb[pos + 1] == be32(c)[1]);
    assert(hb[pos + 2] == be32(c)[2]);
    assert(hb[pos + 3] == be32(c)[3]);
}

/// The least index in `lo..hi` holding `p` is `e` when nothing before `e` holds it.
proof fn lemma_first_index_at(p: spec_fn(int) -> bool, lo: int, hi: int, e: int)
    requires
        lo <= e < hi,
        p(e),
        forall|j: int| lo <= j < e ==> !#[trigger] p(j),
    ensures
        crate::common::first_index(p, lo, hi) == Some(e),
    decreases e - lo,
{
    if lo < e {
        lemma_first_index_at(p, lo + 1, hi, e);
    }
}

/// Reading back a footer line gives its characters and the end of the input.
proof fn lemma_read_encoded_footer(b: Seq<u8>, p4: int, version: Version, block: BlockView, chars: Seq<char>)
    requires
        0 <= p4,
        p4 + 2 + vstd::utf8::encode_utf8(chars).len() == b.len(),
        crate::common::first_index(crate::footer::is_control_byte(vstd::utf8::encode_utf8(chars)), 0,
            vstd::utf8::encode_utf8(chars).len() as int) is None,
        b.subrange(p4, b.len() as int) == seq![0x0au8] + vstd::utf8::encode_utf8(chars) + seq![0x0au8],
    ensures
        crate::parse::spec_read_footer(b, p4) == Ok::<(Seq<char>, int), crate::error::TzifError>((chars, b.len() as int)),
{
    let fb = vstd::utf8::encode_utf8(chars);
    let e: int = p4 + 1 + fb.len() as int;
    let tail = b.subrange(p4, b.len() as int);
    assert(b[p4] == tail[0]);
    assert(b[e] == tail[e - p4]);
    assert(b.subrange(p4 + 1, e) =~= fb) by {
        assert(b.subrange(p4 + 1, e) =~= tail.subrange(1, 1 + fb.len() as int));
    }
    crate::common::lemma_first_index(crate::footer::is_control_byte(fb), 0, fb.len() as int);
    assert forall|j: int| p4 + 1 <= j < e implies !#[trigger] crate::parse::is_newline(b)(j) by {
        assert(b[j] == tail[j - p4]);
        assert(tail[j - p4] == fb[j - (p4 + 1)]);
        assert(!crate::footer::is_control_byte(fb)(j - (p4 + 1)));
    }
    lemma_first_index_at(crate::parse::is_newline(b), p4 + 1, b.len() as int, e);
    vstd::utf8::encode_utf8_valid_utf8(chars);
    vstd::utf8::encode_utf8_decode_utf8(chars);
}

/// Law: a valid file written out and read back is the same file.
#[verifier::spinoff_prover]
#[verifier::rlimit(50)]
pub proof fn law_encode_then_parse(f: FileView)
    requires
        crate::validate::spec_validate_file(f) is Ok,
        spec_encode(f).len() <= usize::MAX,
    ensures
        spec_parse(spec_encode(f)) == Ok::<FileView, crate::error::ErrSpec>(f),
{
    crate::validate::lemma_valid_file_facts(f);
    let b = spec_encode(f);
    let z = crate::encoding::reserved_zeros();
    let h1 = spec_encode_header_with(f.version, z, f.v1);
    let e1 = spec_encode_block(f.v1, TimeSize::ThirtyTwo);
    crate::write::lemma_valid_block_fits(f.v1, TimeSize::ThirtyTwo, f.version);
    assert(b.subrange(0, 44) =~= h1);
    lemma_read_encoded_header(b, 0, f.version, z, f.v1);
    assert(b.subrange(44, 44 + e1.len() as int) =~= e1);
    lemma_read_encoded_block(b, 44, f.v1, TimeSize::ThirtyTwo, f.version);
    let p2: int = 44 + e1.len() as int;
    if f.version == Version::V1 {
        assert(f =~= FileView { version: Version::V1, v1: f.v1, v2_plus: None, footer: None });
    } else {
        let block = f.v2_plus.unwrap();
        let chars = f.footer.unwrap();
        let fb = vstd::utf8::encode_utf8(chars);
        let h2 = spec_encode_header_with(f.version, z, block);
        let e2 = spec_encode_block(block, TimeSize::SixtyFour);
        crate::write::lemma_valid_block_fits(block, TimeSize::SixtyFour, f.version);
        assert(b.subrange(p2, p2 + 44) =~= h2);
        lemma_read_encoded_header(b, p2, f.version, z, block);
        let p3: int = p2 + 44;
        assert(b.subrange(p3, p3 + e2.len() as int) =~= e2);
        lemma_read_encoded_block(b, p3, block, TimeSize::SixtyFour, f.version);
        let p4: int = p3 + e2.len() as int;
        assert(b.subrange(p4, b.len() as int) =~= seq![0x0au8] + fb + seq![0x0au8]);
        lemma_read_encoded_footer(b, p4, f.version, block, chars);
        assert(f =~= FileView { version: f.version, v1: f.v1, v2_plus: Some(block), footer: Some(chars) });
    }
}


/// The bytes of a block that was read are the encoding of what was read.
#[verifier::spinoff_prover]
#[verifier::rlimit(50)]
proof fn lemma_block_bytes_of_read(b: Seq<u8>, off: int, h: Header, time_size: TimeSize, block: BlockView, p: int)
    requires
        0 <= off,
        spec_read_block(b, off, h, time_size) == Ok::<(BlockView, int), crate::error::TzifError>((block, p)),
    ensures
        off <= p <= b.len(),
        b.subrange(off, p) == spec_encode_block(block, time_size),
        block.transition_times.len() == h.timecnt,
        block.transition_types.len() == h.timecnt,
        block.local_time_types.len() == h.typecnt,
        block.designations.len() == h.charcnt,
        block.leap_seconds.len() == h.leapcnt,
        block.standard_wall_indicators.len() == h.isstdcnt,
        block.ut_local_indicators.len() == h.isutcnt,
{
    reveal(spec_read_block);
    let w = time_size.spec_byte_len();
    let s1 = crate::parse::types_start(h, time_size, off);
    let s2 = crate::parse::ltts_start(h, time_size, off);
    let s3 = crate::parse::designations_start(h, time_size, off);
    let s4 = crate::parse::leaps_start(h, time_size, off);
    let s5 = crate::parse::std_start(h, time_size, off);
    let s6 = crate::parse::ut_start(h, time_size, off);
    assert(p == s6 + h.isutcnt);
    assert(0 <= h.timecnt * w) by (nonlinear_arith)
        requires h.timecnt >= 0, w >= 0;
    assert(0 <= h.typecnt * 6);
    assert(0 <= h.leapcnt * (w + 4)) by (nonlinear_arith)
        requires h.leapcnt >= 0, w >= 0;
    // times
    assert forall|k: int| 0 <= k < h.timecnt implies
        #[trigger] enc_time(time_size)(time_reader(time_size)(b.subrange(off + k * w, off + k * w + w))) == b.subrange(off + k * w, off + k * w + w) by {
        crate::parse::lemma_mul_step(k, h.timecnt as int, w);
        lemma_time_encode(b.subrange(off + k * w, off + k * w + w), time_size);
    }
    lemma_concat_of_items(b, off, h.timecnt as int, w, time_reader(time_size), enc_time(time_size));
    // local time types
    crate::common::lemma_first_index(crate::parse::bad_dst(b, s2), 0, h.typecnt as int);
    assert forall|k: int| 0 <= k < h.typecnt implies
        #[trigger] enc_local_time_type()(ltt_reader()(b.subrange(s2 + k * 6, s2 + k * 6 + 6))) == b.subrange(s2 + k * 6, s2 + k * 6 + 6) by {
        crate::parse::lemma_mul_step(k, h.typecnt as int, 6);
        assert(!crate::parse::bad_dst(b, s2)(k));
        lemma_ltt_encode(b.subrange(s2 + k * 6, s2 + k * 6 + 6));
    }
    lemma_concat_of_items(b, s2, h.typecnt as int, 6, ltt_reader(), enc_local_time_type());
    // leap seconds
    assert forall|k: int| 0 <= k < h.leapcnt implies
        #[trigger] enc_leap_second(time_size)(leap_reader(time_size)(b.subrange(s4 + k * (w + 4), s4 + k * (w + 4) + (w + 4))))
            == b.subrange(s4 + k * (w + 4), s4 + k * (w + 4) + (w + 4)) by {
        crate::parse::lemma_mul_step(k, h.leapcnt as int, w + 4);
        lemma_leap_encode(b.subrange(s4 + k * (w + 4), s4 + k * (w + 4) + (w + 4)), time_size);
    }
    lemma_concat_of_items(b, s4, h.leapcnt as int, w + 4, leap_reader(time_size), enc_leap_second(time_size));
    // indicators
    crate::common::lemma_first_index(crate::parse::bad_indicator(b, s5), 0, h.isstdcnt as int);
    assert forall|k: int| 0 <= k < h.isstdcnt implies
        #[trigger] enc_bool()(bool_reader()(b.subrange(s5 + k * 1, s5 + k * 1 + 1))) == b.subrange(s5 + k * 1, s5 + k * 1 + 1) by {
        assert(!crate::parse::bad_indicator(b, s5)(k));
        assert(b.subrange(s5 + k * 1, s5 + k * 1 + 1) =~= seq![b[s5 + k]]);
        assert(enc_bool()(bool_reader()(b.subrange(s5 + k * 1, s5 + k * 1 + 1))) =~= seq![b[s5 + k]]);
    }
    lemma_concat_of_items(b, s5, h.isstdcnt as int, 1, bool_reader(), enc_bool());
    crate::common::lemma_first_index(crate::parse::bad_indicator(b, s6), 0, h.isutcnt as int);
    assert forall|k: int| 0 <= k < h.isutcnt implies
        #[trigger] enc_bool()(bool_reader()(b.subrange(s6 + k * 1, s6 + k * 1 + 1))) == b.subrange(s6 + k * 1, s6 + k * 1 + 1) by {
        assert(!crate::parse::bad_indicator(b, s6)(k));
        assert(b.subrange(s6 + k * 1, s6 + k * 1 + 1) =~= seq![b[s6 + k]]);
        assert(enc_bool()(bool_reader()(b.subrange(s6 + k * 1, s6 + k * 1 + 1))) =~= seq![b[s6 + k]]);
    }
    lemma_concat_of_items(b, s6, h.isutcnt as int, 1, bool_reader(), enc_bool());
    assert(h.isstdcnt * 1 == h.isstdcnt);
    assert(h.isutcnt * 1 == h.isutcnt);
    assert(b.subrange(off, p) =~= b.subrange(off, s1) + b.subrange(s1, s2) + b.subrange(s2, s3) + b.subrange(s3, s4)
        + b.subrange(s4, s5) + b.subrange(s5, s6) + b.subrange(s6, p));
}

/// The bytes of a header that was read are the header encoding of a block with its
/// counts, with the reserved bytes found there.
proof fn lemma_header_bytes_of_read(b: Seq<u8>, off: int, h: Header, p: int, block: BlockView)
    requires
        0 <= off,
        spec_read_header(b, off) == Ok::<(Header, int), crate::error::TzifError>((h, p)),
        block.transition_times.len() == h.timecnt,
        block.local_time_types.len() == h.typecnt,
        block.designations.len() == h.charcnt,
        block.leap_seconds.len() == h.leapcnt,
        block.standard_wall_indicators.len() == h.isstdcnt,
        block.ut_local_indicators.len() == h.isutcnt,
    ensures
        p == off + 44,
        p <= b.len(),
        b.subrange(off, off + 44) == spec_encode_header_with(h.version, b.subrange(off + 5, off + 20), block),
{
    reveal(spec_read_header);
    assert(b.subrange(off, off + 4) == magic());
    assert(Version::spec_from_byte(b[off + 4]) == Some(h.version));
    assert(h.version.spec_byte() == b[off + 4]);
    lemma_be32_encode(b[off + 20], b[off + 21], b[off + 22], b[off + 23]);
    lemma_be32_encode(b[off + 24], b[off + 25], b[off + 26], b[off + 27]);
    lemma_be32_encode(b[off + 28], b[off + 29], b[off + 30], b[off + 31]);
    lemma_be32_encode(b[off + 32], b[off + 33], b[off + 34], b[off + 35]);
    lemma_be32_encode(b[off + 36], b[off + 37], b[off + 38], b[off + 39]);
    lemma_be32_encode(b[off + 40], b[off + 41], b[off + 42], b[off + 43]);
    let hb = spec_encode_header_with(h.version, b.subrange(off + 5, off + 20), block);
    assert(b.subrange(off, off + 44) =~= hb) by {
        assert(b.subrange(off, off + 4) =~= hb.subrange(0, 4));
        assert(b.subrange(off + 20, off + 24) =~= hb.subrange(20, 24));
        assert(b.subrange(off + 24, off + 28) =~= hb.subrange(24, 28));
        assert(b.subrange(off + 28, off + 32) =~= hb.subrange(28, 32));
        assert(b.subrange(off + 32, off + 36) =~= hb.subrange(32, 36));
        assert(b.subrange(off + 36, off + 40) =~= hb.subrange(36, 40));
        assert(b.subrange(off + 40, off + 44) =~= hb.subrange(40, 44));
        assert forall|k: int| 0 <= k < 44 implies b.subrange(off, off + 44)[k] == hb[k] by {
            if k < 4 {
                assert(b.subrange(off, off + 4)[k] == b[off + k]);
            } else if k == 4 {
            } else if k < 20 {
            } else if k < 24 {
                assert(b.subrange(off + 20, off + 24)[k - 20] == b[off + k]);
            } else if k < 28 {
                assert(b.subrange(off + 24, off + 28)[k - 24] == b[off + k]);
            } else if k < 32 {
                assert(b.subrange(off + 28, off + 32)[k - 28] == b[off + k]);
            } else if k < 36 {
                assert(b.subrange(off + 32, off + 36)[k - 32] == b[off + k]);
            } else if k < 40 {
                assert(b.subrange(off + 36, off + 40)[k - 36] == b[off + k]);
            } else {
                assert(b.subrange(off + 40, off + 44)[k - 40] == b[off + k]);
            }
        }
    }
}

proof fn lemma_read_header_pos(b: Seq<u8>, off: int)
    ensures
        spec_read_header(b, off) matches Ok((h, p)) ==> p == off + 44 && p <= b.len(),
{
    reveal(spec_read_header);
}

/// The offset of the second header in the encoding of `f`.
pub open spec fn second_header_offset(f: FileView) -> int {
    44 + spec_encode_block(f.v1, TimeSize::ThirtyTwo).len() as int
}

/// The reserved bytes of the headers of `b`, as a file like `f` lays them out.
pub open spec fn reserved_of(b: Seq<u8>, f: FileView) -> (Seq<u8>, Seq<u8>) {
    (b.subrange(5, 20), if f.version == Version::V1 {
        crate::encoding::reserved_zeros()
    } else {
        b.subrange(second_header_offset(f) + 5, second_header_offset(f) + 20)
    })
}

/// Law: bytes that parse are the writer's encoding of the parsed file, but for the
/// reserved header bytes, which the reader skips.
#[verifier::spinoff_prover]
#[verifier::rlimit(50)]
pub proof fn law_parse_then_encode(b: Seq<u8>)
    requires
        spec_parse(b) is Ok,
    ensures
        spec_encode_with(spec_parse(b)->Ok_0, reserved_of(b, spec_parse(b)->Ok_0).0,
            reserved_of(b, spec_parse(b)->Ok_0).1) == b,
{
    let f = spec_parse(b)->Ok_0;
    let (h1, p1) = spec_read_header(b, 0).unwrap();
    lemma_read_header_pos(b, 0);
    let (v1, p2) = spec_read_block(b, p1, h1, TimeSize::ThirtyTwo).unwrap();
    lemma_block_bytes_of_read(b, p1, h1, TimeSize::ThirtyTwo, v1, p2);
    lemma_header_bytes_of_read(b, 0, h1, p1, v1);
    if h1.version == Version::V1 {
        assert(b =~= b.subrange(0, 44) + b.subrange(44, p2));
    } else {
        let (h2, p3) = spec_read_header(b, p2).unwrap();
        lemma_read_header_pos(b, p2);
        let (v2, p4) = spec_read_block(b, p3, h2, TimeSize::SixtyFour).unwrap();
        let (chars, p5) = crate::parse::spec_read_footer(b, p4).unwrap();
        lemma_block_bytes_of_read(b, p3, h2, TimeSize::SixtyFour, v2, p4);
        lemma_header_bytes_of_read(b, p2, h2, p3, v2);
        let e = crate::common::first_index(crate::parse::is_newline(b), p4 + 1, b.len() as int).unwrap();
        crate::common::lemma_first_index(crate::parse::is_newline(b), p4 + 1, b.len() as int);
        vstd::utf8::decode_utf8_encode_utf8(b.subrange(p4 + 1, e));
        assert(p2 == second_header_offset(f));
        assert(b =~= b.subrange(0, 44) + b.subrange(44, p2) + b.subrange(p2, p2 + 44) + b.subrange(p3, p4)
            + seq![0x0au8] + b.subrange(p4 + 1, e) + seq![0x0au8]);
    }
}

/// Law: bytes that parse and whose reserved header bytes are zero, as conforming
/// files write them, are exactly what the writer emits for the parsed file.
pub proof fn law_parse_then_encode_exact(b: Seq<u8>)
    requires
        spec_parse(b) is Ok,
        reserved_of(b, spec_parse(b)->Ok_0).0 == crate::encoding::reserved_zeros(),
        reserved_of(b, spec_parse(b)->Ok_0).1 == crate::encoding::reserved_zeros(),
    ensures
        spec_encode(spec_parse(b)->Ok_0) == b,
{
    law_parse_then_encode(b);
}
} // verus!

verus! {

/// A file that parsing accepts passes every structural check: parsing validates what
/// it reads.
pub proof fn law_parsed_files_are_valid(b: Seq<u8>)
    requires
        spec_parse(b) is Ok,
    ensures
        is_valid_file(spec_parse(b)->Ok_0),
{
    reveal(spec_read_header);
    reveal(spec_read_block);
}

/// The text of each media type is the name that `from_media_type` maps back to it, and
/// the two names differ.
pub proof fn law_media_type_name_round_trip(m: TzifMediaType)
    ensures
        media_type_name(m) == TzifMediaType::APPLICATION_TZIF@ || media_type_name(m) == TzifMediaType::APPLICATION_TZIF_LEAP@,
        media_type_name(m) == TzifMediaType::APPLICATION_TZIF@ ==> m == TzifMediaType::Tzif,
        media_type_name(m) != TzifMediaType::APPLICATION_TZIF@ ==> m == TzifMediaType::TzifLeap,
        TzifMediaType::APPLICATION_TZIF@ != TzifMediaType::APPLICATION_TZIF_LEAP@,
{
    reveal_strlit("application/tzif");
    reveal_strlit("application/tzif-leap");
    assert(TzifMediaType::APPLICATION_TZIF@.len() != TzifMediaType::APPLICATION_TZIF_LEAP@.len());
}

/// Every valid file may be served as the media type it suggests, and as
/// `application/tzif-leap` in any case.
pub proof fn law_suggested_media_type_accepts_valid_files(f: FileView)
    requires
        is_valid_file(f),
    ensures
        spec_validate_for_media_type(f, suggested_media_type_of(f)) is Ok,
        spec_validate_for_media_type(f, TzifMediaType::TzifLeap) is Ok,
{
}

/// A file that passes the truncation checks is a valid file.
pub proof fn law_truncation_responses_are_valid(f: FileView, t: TzdistTruncation)
    requires
        spec_validate_truncation(f, t) is Ok,
    ensures
        is_valid_file(f),
{
}

/// Under the automatic policy a builder always gets a version: 2, or 3 when the footer
/// needs the version 3 extension.
pub proof fn law_auto_version(times: Seq<i64>, has_footer: bool, uses_extension: bool)
    ensures
        spec_resolve_version(VersionPolicy::Auto, times, has_footer, uses_extension)
            == Ok::<Version, BuildErrorView>(if uses_extension { Version::V3 } else { Version::V2 }),
{
}

/// The version 1 block derived from a 64-bit block holds only 32-bit times and leap-second
/// occurrences, one transition type per transition time.
pub proof fn law_version_one_block_fits(b: BlockView)
    requires
        b.transition_types.len() == b.transition_times.len(),
    ensures
        forall|i: int| 0 <= i < v1_compatible(b).transition_times.len()
            ==> !outside_i32(#[trigger] v1_compatible(b).transition_times[i]),
        forall|i: int| 0 <= i < v1_compatible(b).leap_seconds.len()
            ==> !outside_i32(#[trigger] v1_compatible(b).leap_seconds[i].occurrence),
        v1_compatible(b).transition_types.len() == v1_compatible(b).transition_times.len(),
{
    lemma_fitting_times(b.transition_times, b.transition_types);
    lemma_fitting_leaps(b.leap_seconds);
}

proof fn lemma_fitting_times(times: Seq<i64>, types: Seq<u8>)
    ensures
        forall|i: int| 0 <= i < fitting_times(times).len() ==> !outside_i32(#[trigger] fitting_times(times)[i]),
        fitting_types(times, types).len() == fitting_times(times).len(),
    decreases times.len(),
{
    if times.len() > 0 {
        lemma_fitting_times(times.drop_last(), types);
    }
}

proof fn lemma_fitting_leaps(leaps: Seq<LeapSecond>)
    ensures
        forall|i: int| 0 <= i < fitting_leap_seconds(leaps).len()
            ==> !outside_i32(#[trigger] fitting_leap_seconds(leaps)[i].occurrence),
    decreases leaps.len(),
{
    if leaps.len() > 0 {
        lemma_fitting_leaps(leaps.drop_last());
        let prev = fitting_leap_seconds(leaps.drop_last());
        let cur = fitting_leap_seconds(leaps);
        assert forall|i: int| 0 <= i < cur.len() implies !outside_i32(#[trigger] cur[i].occurrence) by {
            if i < prev.len() {
                assert(cur[i] == prev[i]);
            }
        }
    }
}

/// A fixed-offset zone built under the automatic policy is a version 2 file whose two
/// blocks are the same and whose footer is the POSIX TZ string of the zone.
pub proof fn law_fixed_offset_auto_is_version_two(b: FixedOffsetView)
    requires
        b.version_policy == VersionPolicy::Auto,
        spec_fixed_offset_build(b) is Ok,
    ensures
        spec_fixed_offset_build(b)->Ok_0.version == Version::V2,
        spec_fixed_offset_build(b)->Ok_0.v2_plus == Some(spec_fixed_offset_build(b)->Ok_0.v1),
        spec_fixed_offset_build(b)->Ok_0.footer is Some,
{
}

/// A file built from explicit transitions pairs its 64-bit block with the 32-bit subset
/// of it, from version 2 on.
pub proof fn law_explicit_build_pairs_blocks(b: ExplicitTransitionsView)
    requires
        spec_explicit_build(b) is Ok,
        spec_explicit_build(b)->Ok_0.version != Version::V1,
    ensures
        spec_explicit_build(b)->Ok_0.v2_plus matches Some(block) && spec_explicit_build(b)->Ok_0.v1 == v1_compatible(block),
{
}


/// A fixed-offset zone that the builder accepts is a valid file: the designation, the
/// offset and the POSIX footer the builder writes pass every structural check.
pub proof fn law_fixed_offset_builds_are_valid(b: FixedOffsetView)
    requires
        spec_fixed_offset_build(b) is Ok,
    ensures
        is_valid_file(spec_fixed_offset_build(b)->Ok_0),
{
    let f = spec_fixed_offset_build(b)->Ok_0;
    let block = fixed_offset_block(b.designation, b.offset_seconds);
    lemma_fixed_offset_block_valid(b.designation, b.offset_seconds, TimeSize::ThirtyTwo, f.version);
    lemma_fixed_offset_block_valid(b.designation, b.offset_seconds, TimeSize::SixtyFour, f.version);
    if f.version != Version::V1 {
        lemma_fixed_offset_footer_valid(f.version, block, b.designation, b.offset_seconds);
    }
    reveal(spec_validate_file);
}

} // verus!

verus! {

/// The layout of what `serialize` writes for a valid file: the magic `TZif`, the version
/// byte and fifteen zero bytes open each header of 44 bytes; a version 1 file is its
/// header and block; a later file adds the second header and 64-bit block, then the
/// footer between two newlines. `n1` and `n2` are the block lengths that the headers'
/// counts give.
#[verifier::spinoff_prover]
#[verifier::rlimit(80)]
pub proof fn law_serialized_layout(f: FileView)
    requires
        is_valid_file(f),
    ensures
        ({
            let b = spec_encode(f);
            let n1 = header_of(f.version, f.v1).block_len_int(TimeSize::ThirtyTwo);
            &&& b.subrange(0, 4) == magic()
            &&& b[4] == f.version.spec_byte()
            &&& b.subrange(5, 20) == reserved_zeros()
            &&& f.version == Version::V1 ==> b.len() == 44 + n1
            &&& f.version != Version::V1 ==> {
                let block = f.v2_plus.unwrap();
                let n2 = header_of(f.version, block).block_len_int(TimeSize::SixtyFour);
                let fb = vstd::utf8::encode_utf8(f.footer.unwrap());
                &&& b.len() == 88 + n1 + n2 + fb.len() + 2
                &&& b.subrange(44 + n1, 48 + n1) == magic()
                &&& b[48 + n1] == f.version.spec_byte()
                &&& b.subrange(49 + n1, 64 + n1) == reserved_zeros()
                &&& b.subrange(b.len() - fb.len() - 2, b.len() as int) == seq![0x0au8] + fb + seq![0x0au8]
            }
        }),
{
    lemma_valid_file_facts(f);
    lemma_valid_block_fits(f.v1, TimeSize::ThirtyTwo, f.version);
    lemma_encode_block_len(f.v1, TimeSize::ThirtyTwo, f.version);
    let b = spec_encode(f);
    let n1 = header_of(f.version, f.v1).block_len_int(TimeSize::ThirtyTwo);
    let h1 = spec_encode_header_with(f.version, reserved_zeros(), f.v1);
    assert(h1.len() == 44);
    let first = h1 + spec_encode_block(f.v1, TimeSize::ThirtyTwo);
    assert(first.len() == 44 + n1);
    assert(b.subrange(0, 4) =~= magic()) by {
        assert forall|i: int| 0 <= i < 4 implies b[i] == magic()[i] by {
            assert(b[i] == first[i]);
            assert(first[i] == h1[i]);
        }
    }
    assert(b[4] == h1[4]);
    assert(b.subrange(5, 20) =~= reserved_zeros()) by {
        assert forall|i: int| 0 <= i < 15 implies b.subrange(5, 20)[i] == reserved_zeros()[i] by {
            assert(b[5 + i] == first[5 + i]);
            assert(first[5 + i] == h1[5 + i]);
        }
    }
    if f.version != Version::V1 {
        let block = f.v2_plus.unwrap();
        lemma_valid_block_fits(block, TimeSize::SixtyFour, f.version);
        lemma_encode_block_len(block, TimeSize::SixtyFour, f.version);
        let h2 = spec_encode_header_with(f.version, reserved_zeros(), block);
        assert(h2.len() == 44);
        let fb = vstd::utf8::encode_utf8(f.footer.unwrap());
        let rest = spec_encode_block(block, TimeSize::SixtyFour) + seq![0x0au8] + fb + seq![0x0au8];
        assert(b =~= first + h2 + rest);
        let o: int = 44 + n1;
        assert(b.subrange(o, o + 4) =~= magic()) by {
            assert forall|i: int| 0 <= i < 4 implies b.subrange(o, o + 4)[i] == magic()[i] by {
                assert(b[o + i] == h2[i]);
            }
        }
        assert(b[o + 4] == h2[4]);
        assert(b.subrange(o + 5, o + 20) =~= reserved_zeros()) by {
            assert forall|i: int| 0 <= i < 15 implies b.subrange(o + 5, o + 20)[i] == reserved_zeros()[i] by {
                assert(b[o + 5 + i] == h2[5 + i]);
            }
        }
        let tail = seq![0x0au8] + fb + seq![0x0au8];
        assert(b =~= (first + h2 + spec_encode_block(block, TimeSize::SixtyFour)) + tail);
        assert(b.subrange(b.len() - fb.len() - 2, b.len() as int) =~= tail);
    }
}

/// The empty footer is valid in every version.
pub proof fn law_empty_footer_is_valid(version: Version, block: BlockView)
    ensures
        spec_validate_footer(version, block, Seq::<char>::empty()) is Ok,
{
    let b = vstd::utf8::encode_utf8(Seq::<char>::empty());
    assert(b =~= Seq::<u8>::empty());
    reveal(spec_parse_footer);
}

proof fn lemma_time_like_relaxes(b: Seq<u8>, p: int)
    requires
        spec_parse_time_like(b, p, false) is Some,
    ensures
        spec_parse_time_like(b, p, true) == spec_parse_time_like(b, p, false),
{
}

proof fn lemma_rule_relaxes(b: Seq<u8>, p: int, version: Version)
    requires
        version.rank() >= 3,
        spec_parse_rule(b, p, Version::V2) is Some,
    ensures
        spec_parse_rule(b, p, version) == spec_parse_rule(b, p, Version::V2),
{
    match spec_parse_rule_date(b, p) {
        None => {},
        Some((date, q)) => {
            if byte_is(b, q, 0x2f) {
                lemma_time_like_relaxes(b, q + 1);
            }
        },
    }
}

/// Later versions only relax the footer rules: a footer valid in version 2 is valid in
/// versions 3 and 4.
pub proof fn law_footer_rules_relax_with_version(block: BlockView, footer: Seq<char>, version: Version)
    requires
        spec_validate_footer(Version::V2, block, footer) is Ok,
        version.rank() >= 3,
    ensures
        spec_validate_footer(version, block, footer) is Ok,
{
    let b = vstd::utf8::encode_utf8(footer);
    assert forall|p: int| #[trigger] spec_parse_rule(b, p, Version::V2) is Some
        implies spec_parse_rule(b, p, version) == spec_parse_rule(b, p, Version::V2) by {
        lemma_rule_relaxes(b, p, version);
    }
    reveal(spec_parse_footer);
    assert(spec_parse_footer(version, b) == spec_parse_footer(Version::V2, b));
}

} // verus!

verus! {

/// Whether a block passes every check that validation makes of its designations: the
/// table is not empty, there are 1 to 256 local time types, and each has an offset
/// other than -2^31 and points at a NUL-terminated designation that a block may hold.
pub open spec fn designations_pass(block: BlockView) -> bool {
    &&& block.designations.len() > 0
    &&& 1 <= block.local_time_types.len() <= 256
    &&& forall|i: int| 0 <= i < block.local_time_types.len() ==> #[trigger] local_time_type_error(block, i) is None
}

#[verifier::spinoff_prover]
proof fn lemma_built_type_ok(b: ExplicitTransitionsView, i: int)
    requires
        explicit_input_error(b) is None,
        0 <= i < b.local_time_types.len(),
    ensures
        local_time_type_error(built_block(b), i) is None,
        local_time_type_error(v1_compatible(built_block(b)), i) is None,
{
    let types = b.local_time_types;
    let vs = normalized(b.designations, types, types.len() as int);
    let n = vs.len() as int;
    let block = built_block(b);
    let v1 = v1_compatible(block);
    lemma_first_index(invalid_designation(vs), 0, n);
    lemma_first_index(offset_too_large(vs), 0, n);
    lemma_first_index(has_type_error(vs, types), 0, types.len() as int);
    let t = types[i];
    assert(!has_type_error(vs, types)(i));
    assert(type_error(vs, t) is None);
    let k = index_in(vs, t.designation).unwrap();
    lemma_first_index(is_str(vs, t.designation), 0, n);
    assert(0 <= k < n);
    assert(!invalid_designation(vs)(k));
    assert(!offset_too_large(vs)(k));
    lemma_table_entry(vs, k);
    let off = table_offset(vs, k);
    let e = vstd::utf8::encode_utf8(vs[k]);
    assert(0 <= off <= 255) by {
        lemma_table_offset_nonneg(vs, k);
    }
    let lt = block.local_time_types[i];
    assert(lt == built_type(vs, t));
    assert(lt.designation_index as int == off);
    assert(lt.utc_offset != i32::MIN);
    assert(block.designations == designation_table_bytes(vs));
    assert(spec_designation_at(block.designations, lt.designation_index as int) == Some(e));
    assert(e.len() >= 3);
    assert(is_valid_wire_designation(block, e));
    assert(is_valid_wire_designation(v1, e));
}

proof fn lemma_table_offset_nonneg(vs: Seq<Seq<char>>, k: int)
    ensures
        table_offset(vs, k) >= 0,
    decreases k,
{
    if k > 0 {
        lemma_table_offset_nonneg(vs, k - 1);
    }
}

proof fn lemma_built_designations(b: ExplicitTransitionsView)
    requires
        explicit_input_error(b) is None,
    ensures
        designations_pass(built_block(b)),
        designations_pass(v1_compatible(built_block(b))),
{
    let types = b.local_time_types;
    let vs = normalized(b.designations, types, types.len() as int);
    let n = vs.len() as int;
    let block = built_block(b);
    let v1 = v1_compatible(block);
    lemma_first_index(invalid_designation(vs), 0, n);
    lemma_first_index(offset_too_large(vs), 0, n);
    lemma_first_index(has_type_error(vs, types), 0, types.len() as int);
    lemma_first_index(type_index_error(types), 0, types.len() as int);
    if types.len() > 256 {
        assert(type_index_error(types)(256));
    }
    assert forall|i: int| 0 <= i < types.len() implies
        #[trigger] local_time_type_error(block, i) is None && local_time_type_error(v1, i) is None by {
        lemma_built_type_ok(b, i);
    }
    let k0 = index_in(vs, types[0].designation).unwrap();
    assert(!has_type_error(vs, types)(0));
    lemma_first_index(is_str(vs, types[0].designation), 0, n);
    assert(!invalid_designation(vs)(k0));
    lemma_table_entry(vs, k0);
    assert forall|i: int| 0 <= i < v1.local_time_types.len() implies #[trigger] local_time_type_error(v1, i) is None by {
        assert(local_time_type_error(block, i) is None && local_time_type_error(v1, i) is None);
    }
}

/// A build from explicit transitions never fails to encode because of its designation
/// table: both blocks of the file it gives pass every check that validation makes of
/// designations, as the builder checks each designation before it writes the table.
pub proof fn law_explicit_build_designations_valid(b: ExplicitTransitionsView)
    requires
        spec_explicit_build(b) is Ok,
    ensures
        designations_pass(spec_explicit_build(b)->Ok_0.v1),
        spec_explicit_build(b)->Ok_0.v2_plus matches Some(block) ==> designations_pass(block),
{
    lemma_built_designations(b);
}

} // verus!

verus! {

/// The designation at `start` of the table `des` is `-00`: the three bytes `-`, `0`,
/// `0`, ended by a NUL or by the end of the table.
pub open spec fn designates_unspecified(des: Seq<u8>, start: int) -> bool {
    &&& 0 <= start
    &&& start + 3 <= des.len()
    &&& des[start] == 0x2d && des[start + 1] == 0x30 && des[start + 2] == 0x30
    &&& (start + 3 == des.len() || des[start + 3] == 0)
}

proof fn lemma_placeholder_type_bytes(block: BlockView, i: int)
    requires
        spec_is_placeholder_type(block, i),
    ensures
        designates_unspecified(block.designations, block.local_time_types[i].designation_index as int),
{
    let des = block.designations;
    let s = block.local_time_types[i].designation_index as int;
    lemma_first_index(is_nul(des), s, des.len() as int);
    match first_index(is_nul(des), s, des.len() as int) {
        Some(e) => {
            assert(des.subrange(s, e) == unspecified_designation());
            assert(e == s + 3);
            assert(des[s] == des.subrange(s, e)[0]);
            assert(des[s + 1] == des.subrange(s, e)[1]);
            assert(des[s + 2] == des.subrange(s, e)[2]);
        },
        None => {
            assert(des.subrange(s, des.len() as int) == unspecified_designation());
            assert(des[s] == des.subrange(s, des.len() as int)[0]);
            assert(des[s + 1] == des.subrange(s, des.len() as int)[1]);
            assert(des[s + 2] == des.subrange(s, des.len() as int)[2]);
        },
    }
}

/// An accepted truncation response has placeholder types where TZDIST asks for them:
/// when the start is truncated, whether or not the end is too, time type 0 of the
/// 64-bit block is designated `-00`; when the end is truncated, so is the type of the
/// last transition. Its first and last transitions are the truncation's bounds.
pub proof fn law_truncation_placeholders(f: FileView, t: TzdistTruncation)
    requires
        spec_validate_truncation(f, t) is Ok,
    ensures
        f.v2_plus is Some,
        f.v2_plus.unwrap().transition_times.len() > 0,
        t.start is Some ==> {
            let block = f.v2_plus.unwrap();
            &&& block.local_time_types.len() > 0
            &&& designates_unspecified(block.designations, block.local_time_types[0].designation_index as int)
            &&& block.transition_times[0] == t.start.unwrap()
        },
        t.end is Some ==> {
            let block = f.v2_plus.unwrap();
            let last = block.transition_types.last() as int;
            &&& block.transition_types.len() > 0
            &&& last < block.local_time_types.len()
            &&& designates_unspecified(block.designations, block.local_time_types[last].designation_index as int)
            &&& block.transition_times.last() == t.end.unwrap()
        },
        t.start is Some && t.end is Some ==> t.start.unwrap() < t.end.unwrap(),
{
    let block = f.v2_plus.unwrap();
    if t.start is Some {
        lemma_placeholder_type_bytes(block, 0);
    }
    if t.end is Some {
        lemma_placeholder_type_bytes(block, block.transition_types.last() as int);
    }
}

/// A file with a leap-second record in either block has leap seconds: it is to be served
/// as `application/tzif-leap`, and a valid one is refused as `application/tzif`. A file
/// with none is served as `application/tzif` and, when valid, accepted so.
pub proof fn law_leap_seconds_decide_media_type(f: FileView)
    ensures
        (f.v1.leap_seconds.len() > 0 || (f.v2_plus is Some && f.v2_plus.unwrap().leap_seconds.len() > 0)) ==> {
            &&& media_type_name(suggested_media_type_of(f)) == TzifMediaType::APPLICATION_TZIF_LEAP@
            &&& is_valid_file(f) ==> spec_validate_for_media_type(f, TzifMediaType::Tzif)
                == Err::<(), TzdistErrSpec>(Ok(TzdistError::LeapSecondsNotAllowedForApplicationTzif))
        },
        (f.v1.leap_seconds.len() == 0 && (f.v2_plus is None || f.v2_plus.unwrap().leap_seconds.len() == 0)) ==> {
            &&& media_type_name(suggested_media_type_of(f)) == TzifMediaType::APPLICATION_TZIF@
            &&& is_valid_file(f) ==> spec_validate_for_media_type(f, TzifMediaType::Tzif) is Ok
        },
{
}

/// In a valid file the footer agrees with the last transition: the footer's local time
/// type in force at the last transition time has the UTC offset, the DST flag and the
/// designation of the last transition's local time type (read as the footer reads it:
/// the daylight type of a footer without rules when that type is DST, else the type
/// that the footer's rules select at that time).
pub proof fn law_footer_agrees_with_last_transition(f: FileView)
    requires
        is_valid_file(f),
        f.v2_plus is Some,
        f.v2_plus.unwrap().transition_times.len() > 0,
        spec_parse_footer(f.version, vstd::utf8::encode_utf8(f.footer.unwrap())) is Some,
        spec_parse_footer(f.version, vstd::utf8::encode_utf8(f.footer.unwrap())).unwrap() is Some,
    ensures
        ({
            let block = f.v2_plus.unwrap();
            let fv = spec_parse_footer(f.version, vstd::utf8::encode_utf8(f.footer.unwrap())).unwrap().unwrap();
            let ty = block.local_time_types[block.transition_types.last() as int];
            let expected = if fv.daylight is Some && fv.start is None && fv.end is None {
                if ty.is_dst { fv.daylight.unwrap() } else { fv.standard }
            } else {
                spec_type_at(fv, block.transition_times.last() as int)
            };
            let d = spec_designation_at(block.designations, ty.designation_index as int);
            d is Some && vstd::utf8::valid_utf8(d.unwrap()) ==> {
                &&& expected.offset_seconds == ty.utc_offset
                &&& expected.is_dst == ty.is_dst
                &&& expected.designation == d.unwrap()
            }
        }),
{
    lemma_valid_file_facts(f);
    let block = f.v2_plus.unwrap();
    lemma_valid_block_fits(block, TimeSize::SixtyFour, f.version);
    assert(block.transition_types.len() > 0);
    let last = block.transition_types.len() - 1;
    assert(block.transition_types.last() < block.local_time_types.len()) by {
        reveal(spec_validate_block);
        lemma_first_index(type_out_of_range(block), 0, block.transition_types.len() as int);
        assert(!type_out_of_range(block)(last));
    }
    let fv = spec_parse_footer(f.version, vstd::utf8::encode_utf8(f.footer.unwrap())).unwrap().unwrap();
    assert(spec_validate_footer(f.version, block, f.footer.unwrap()) is Ok);
    assert(spec_footer_consistent(block, fv));
    reveal(spec_footer_consistent);
}

} // verus!

verus! {

proof fn lemma_contains_in_left(a: Seq<Seq<i128>>, b: Seq<Seq<i128>>, x: Seq<i128>)
    requires
        a.contains(x),
    ensures
        (a + b).contains(x),
{
    let k = choose|k: int| 0 <= k < a.len() && a[k] == x;
    assert((a + b)[k] == x);
}

proof fn lemma_contains_in_right(a: Seq<Seq<i128>>, b: Seq<Seq<i128>>, x: Seq<i128>)
    requires
        b.contains(x),
    ensures
        (a + b).contains(x),
{
    let k = choose|k: int| 0 <= k < b.len() && b[k] == x;
    assert((a + b)[a.len() + k] == x);
}

proof fn lemma_type_keys_hold_designation_keys(b: BlockView, r: i128, n: int, i: int, x: Seq<i128>)
    requires
        0 <= i < n <= b.local_time_types.len(),
        designation_keys(b.designations, i, b.local_time_types[i].designation_index, r).contains(x),
    ensures
        local_time_type_keys(b, r, n).contains(x),
    decreases n,
{
    let t = b.local_time_types[n - 1];
    let prev = local_time_type_keys(b, r, n - 1);
    let dk = designation_keys(b.designations, n - 1, t.designation_index, r);
    let ok = offset_keys(t.utc_offset, n - 1, r);
    assert(local_time_type_keys(b, r, n) == prev + dk + ok);
    if i < n - 1 {
        lemma_type_keys_hold_designation_keys(b, r, n - 1, i, x);
        lemma_contains_in_left(prev, dk, x);
    } else {
        lemma_contains_in_right(prev, dk, x);
    }
    lemma_contains_in_left(prev + dk, ok, x);
}

/// Every ASCII designation other than `-00` whose length is outside 3 to 6 bytes, the
/// empty designation of a placeholder block among them, draws a
/// `DesignationLengthOutsideRecommendedRange` warning for its local time type, in either
/// block of the file.
pub proof fn law_short_or_long_designations_warned(f: FileView, in_v2_plus: bool, i: int)
    requires
        in_v2_plus ==> f.v2_plus is Some,
        ({
            let block = if in_v2_plus { f.v2_plus.unwrap() } else { f.v1 };
            &&& 0 <= i < block.local_time_types.len()
            &&& i <= usize::MAX
            &&& spec_designation_text(block.designations, block.local_time_types[i].designation_index as int) is Some
            &&& {
                let d = spec_designation_text(block.designations, block.local_time_types[i].designation_index as int).unwrap();
                &&& is_ascii_bytes(d)
                &&& d != unspecified_designation()
                &&& (d.len() < 3 || d.len() > 6)
            }
        }),
    ensures
        ({
            let block = if in_v2_plus { f.v2_plus.unwrap() } else { f.v1 };
            let d = spec_designation_text(block.designations, block.local_time_types[i].designation_index as int).unwrap();
            spec_warning_keys(f).contains(seq![11i128, if in_v2_plus { 1i128 } else { 0i128 }, i as i128] + byte_key(d))
        }),
{
    reveal_strlit("v1");
    reveal_strlit("v2_plus");
    let block = if in_v2_plus { f.v2_plus.unwrap() } else { f.v1 };
    let name = if in_v2_plus { "v2_plus"@ } else { "v1"@ };
    let r = block_rank(name);
    assert("v2_plus"@.len() != "v1"@.len());
    assert(r == if in_v2_plus { 1i128 } else { 0i128 });
    let d = spec_designation_text(block.designations, block.local_time_types[i].designation_index as int).unwrap();
    crate::text::lemma_ascii_valid_utf8(d);
    let key = seq![11i128, r, i as i128] + byte_key(d);
    let dk = designation_keys(block.designations, i, block.local_time_types[i].designation_index, r);
    let c11 = cond_key(d.len() < 3 || d.len() > 6, key);
    let c12 = cond_key(!(forall|k: int| 0 <= k < d.len() ==> #[trigger] is_designation_byte(d[k])), key);
    assert(dk == c11 + cond_key(!(forall|k: int| 0 <= k < d.len() ==> #[trigger] is_designation_byte(d[k])),
        seq![12i128, r, i as i128] + byte_key(d)));
    assert(c11[0] == key);
    lemma_contains_in_left(c11, dk.subrange(c11.len() as int, dk.len() as int), key);
    assert(dk =~= c11 + dk.subrange(c11.len() as int, dk.len() as int));
    let n = block.local_time_types.len() as int;
    lemma_type_keys_hold_designation_keys(block, r, n, i, key);
    let first = first_transition_keys(block, r);
    let tk = transition_keys(block.transition_times, r, in_v2_plus, block.transition_times.len() as int);
    let lk = local_time_type_keys(block, r, n);
    lemma_contains_in_right(first + tk, lk, key);
    let bk = block_warning_keys(block, name, in_v2_plus);
    let pre = first + tk + lk;
    assert(bk =~= pre + bk.subrange(pre.len() as int, bk.len() as int));
    lemma_contains_in_left(pre, bk.subrange(pre.len() as int, bk.len() as int), key);
    let fk = file_warning_keys(f);
    let v1k = block_warning_keys(f.v1, "v1"@, false);
    let v2k = match f.v2_plus {
        Some(b2) => block_warning_keys(b2, "v2_plus"@, true),
        None => Seq::<Seq<i128>>::empty(),
    };
    assert(spec_warning_keys(f) == fk + v1k + v2k);
    if in_v2_plus {
        lemma_contains_in_right(fk + v1k, v2k, key);
    } else {
        lemma_contains_in_right(fk, v1k, key);
        lemma_contains_in_left(fk + v1k, v2k, key);
    }
}

} // verus!

verus! {

/// The transitions of a block as (time, type) pairs.
pub open spec fn transition_pairs(times: Seq<i64>, types: Seq<u8>) -> Seq<(i64, u8)> {
    Seq::new(times.len(), |k: int| (times[k], types[k]))
}

/// Holds of a transition whose time fits in 32 bits.
pub open spec fn pair_fits_i32() -> spec_fn((i64, u8)) -> bool {
    |p: (i64, u8)| i32::MIN <= p.0 <= i32::MAX
}

/// Holds of a leap second whose occurrence fits in 32 bits.
pub open spec fn leap_fits_i32() -> spec_fn(LeapSecond) -> bool {
    |l: LeapSecond| i32::MIN <= l.occurrence <= i32::MAX
}

/// The time of a transition pair.
pub open spec fn pair_time() -> spec_fn((i64, u8)) -> i64 {
    |p: (i64, u8)| p.0
}

/// The type of a transition pair.
pub open spec fn pair_type() -> spec_fn((i64, u8)) -> u8 {
    |p: (i64, u8)| p.1
}

proof fn lemma_fitting_is_filter(times: Seq<i64>, types: Seq<u8>)
    requires
        times.len() <= types.len(),
    ensures
        fitting_times(times) == transition_pairs(times, types).filter(pair_fits_i32()).map_values(pair_time()),
        fitting_types(times, types) == transition_pairs(times, types).filter(pair_fits_i32()).map_values(pair_type()),
    decreases times.len(),
{
    reveal(Seq::filter);
    let pairs = transition_pairs(times, types);
    if times.len() == 0 {
        assert(pairs.filter(pair_fits_i32()) =~= Seq::<(i64, u8)>::empty());
        assert(fitting_times(times) =~= pairs.filter(pair_fits_i32()).map_values(pair_time()));
        assert(fitting_types(times, types) =~= pairs.filter(pair_fits_i32()).map_values(pair_type()));
    } else {
        lemma_fitting_is_filter(times.drop_last(), types);
        assert(pairs.drop_last() =~= transition_pairs(times.drop_last(), types));
        assert(pairs.last() == (times.last(), types[times.len() - 1]));
        assert(fitting_times(times) =~= pairs.filter(pair_fits_i32()).map_values(pair_time()));
        assert(fitting_types(times, types) =~= pairs.filter(pair_fits_i32()).map_values(pair_type()));
    }
}

proof fn lemma_fitting_leaps_is_filter(leaps: Seq<LeapSecond>)
    ensures
        fitting_leap_seconds(leaps) == leaps.filter(leap_fits_i32()),
    decreases leaps.len(),
{
    reveal(Seq::filter);
    if leaps.len() > 0 {
        lemma_fitting_leaps_is_filter(leaps.drop_last());
    }
    assert(fitting_leap_seconds(leaps) =~= leaps.filter(leap_fits_i32()));
}

/// The version 1 block of a file built from explicit transitions holds exactly the
/// transitions of the 64-bit block whose time lies in the range of `i32`, negative ones
/// included, in order and each with its type; likewise its leap seconds; its types and
/// designations are those of the 64-bit block.
pub proof fn law_version_one_block_is_32_bit_subset(b: ExplicitTransitionsView)
    requires
        spec_explicit_build(b) is Ok,
        spec_explicit_build(b)->Ok_0.version != Version::V1,
    ensures
        ({
            let f = spec_explicit_build(b)->Ok_0;
            let block = f.v2_plus.unwrap();
            let kept = transition_pairs(block.transition_times, block.transition_types).filter(pair_fits_i32());
            &&& f.v1.transition_times == kept.map_values(pair_time())
            &&& f.v1.transition_types == kept.map_values(pair_type())
            &&& f.v1.leap_seconds == block.leap_seconds.filter(leap_fits_i32())
            &&& f.v1.local_time_types == block.local_time_types
            &&& f.v1.designations == block.designations
        }),
{
    let f = spec_explicit_build(b)->Ok_0;
    let block = f.v2_plus.unwrap();
    assert(block.transition_types.len() == block.transition_times.len());
    lemma_fitting_is_filter(block.transition_times, block.transition_types);
    lemma_fitting_leaps_is_filter(block.leap_seconds);
}

} // verus!
