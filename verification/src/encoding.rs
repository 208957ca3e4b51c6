use vstd::prelude::*;

use crate::common::{be32, be_i32, be_i64, magic, TimeSize};
use crate::model::{BlockView, FileView, DataBlock, LeapSecond, LocalTimeType, TzifFile, Version};

verus! {

/// The concatenation of `f(x)` over the items `x` of `s`.
pub open spec fn concat_map<T>(s: Seq<T>, f: spec_fn(T) -> Seq<u8>) -> Seq<u8>
    decreases s.len(),
{
    if s.len() == 0 {
        Seq::empty()
    } else {
        concat_map(s.drop_last(), f) + f(s.last())
    }
}

/// Bytes of one time value: 4 bytes in the version 1 block, 8 in the 64-bit block.
pub open spec fn enc_time(time_size: TimeSize) -> spec_fn(i64) -> Seq<u8> {
    |t: i64| match time_size {
        TimeSize::ThirtyTwo => be_i32(t as i32),
        TimeSize::SixtyFour => be_i64(t),
    }
}

pub open spec fn bool_byte(b: bool) -> u8 {
    if b { 1u8 } else { 0u8 }
}

pub open spec fn enc_bool() -> spec_fn(bool) -> Seq<u8> {
    |b: bool| seq![bool_byte(b)]
}

/// Bytes of a local time type record: UTC offset, DST flag, designation index.
pub open spec fn enc_local_time_type() -> spec_fn(LocalTimeType) -> Seq<u8> {
    |t: LocalTimeType| be_i32(t.utc_offset) + seq![bool_byte(t.is_dst), t.designation_index]
}

/// Bytes of a leap-second record: occurrence, then correction.
pub open spec fn enc_leap_second(time_size: TimeSize) -> spec_fn(LeapSecond) -> Seq<u8> {
    |l: LeapSecond| enc_time(time_size)(l.occurrence) + be_i32(l.correction)
}

/// The bytes of a data block.
pub open spec fn spec_encode_block(block: BlockView, time_size: TimeSize) -> Seq<u8> {
    concat_map(block.transition_times, enc_time(time_size))
        + block.transition_types
        + concat_map(block.local_time_types, enc_local_time_type())
        + block.designations
        + concat_map(block.leap_seconds, enc_leap_second(time_size))
        + concat_map(block.standard_wall_indicators, enc_bool())
        + concat_map(block.ut_local_indicators, enc_bool())
}

/// Fifteen zero bytes.
pub open spec fn reserved_zeros() -> Seq<u8> {
    Seq::new(15, |i: int| 0u8)
}

/// The header bytes with the given reserved bytes and the counts of `block`.
pub open spec fn spec_encode_header_with(version: Version, reserved: Seq<u8>, block: BlockView) -> Seq<u8> {
    magic() + seq![version.spec_byte()] + reserved
        + be32(block.ut_local_indicators.len() as u32)
        + be32(block.standard_wall_indicators.len() as u32)
        + be32(block.leap_seconds.len() as u32)
        + be32(block.transition_times.len() as u32)
        + be32(block.local_time_types.len() as u32)
        + be32(block.designations.len() as u32)
}

/// The header bytes as the writer emits them, reserved bytes zero.
pub open spec fn spec_encode_header(version: Version, block: BlockView) -> Seq<u8> {
    spec_encode_header_with(version, reserved_zeros(), block)
}

/// The bytes of a file whose headers carry the given reserved bytes.
pub open spec fn spec_encode_with(f: FileView, reserved1: Seq<u8>, reserved2: Seq<u8>) -> Seq<u8> {
    let first = spec_encode_header_with(f.version, reserved1, f.v1) + spec_encode_block(f.v1, TimeSize::ThirtyTwo);
    if f.version == Version::V1 {
        first
    } else {
        let block = f.v2_plus.unwrap();
        let footer = match f.footer {
            Some(s) => vstd::utf8::encode_utf8(s),
            None => Seq::empty(),
        };
        first + spec_encode_header_with(f.version, reserved2, block) + spec_encode_block(block, TimeSize::SixtyFour)
            + seq![0x0au8] + footer + seq![0x0au8]
    }
}

/// The bytes that the writer emits for `f`.
pub open spec fn spec_encode(f: FileView) -> Seq<u8> {
    spec_encode_with(f, reserved_zeros(), reserved_zeros())
}

pub proof fn lemma_concat_map_push<T>(s: Seq<T>, x: T, f: spec_fn(T) -> Seq<u8>)
    ensures
        concat_map(s.push(x), f) == concat_map(s, f) + f(x),
{
    assert(s.push(x).drop_last() =~= s);
}

/// When every item encodes to `w` bytes, the concatenation has `w` bytes per item and
/// item `k` sits at `k * w`.
pub proof fn lemma_concat_map_fixed<T>(s: Seq<T>, f: spec_fn(T) -> Seq<u8>, w: int)
    requires
        w >= 0,
        forall|x: T| #[trigger] f(x).len() == w,
    ensures
        concat_map(s, f).len() == s.len() * w,
        forall|k: int| 0 <= k < s.len() ==> #[trigger] concat_map(s, f).subrange(k * w, k * w + w) == f(s[k]),
    decreases s.len(),
{
    if s.len() > 0 {
        let p = s.drop_last();
        lemma_concat_map_fixed(p, f, w);
        let c = concat_map(p, f);
        let all = c + f(s.last());
        assert(p.len() * w + w == s.len() * w) by (nonlinear_arith)
            requires p.len() == s.len() - 1;
        assert forall|k: int| 0 <= k < s.len() implies #[trigger] concat_map(s, f).subrange(k * w, k * w + w) == f(s[k]) by {
            if k < p.len() {
                assert(k * w + w <= p.len() * w) by (nonlinear_arith)
                    requires k < p.len(), w >= 0;
                assert(0 <= k * w) by (nonlinear_arith)
                    requires k >= 0, w >= 0;
                assert(all.subrange(k * w, k * w + w) =~= c.subrange(k * w, k * w + w));
            } else {
                assert(k * w == p.len() * w);
                assert(all.subrange(k * w, k * w + w) =~= f(s.last()));
            }
        }
    }
}

/// A byte region of `n` chunks of `w` bytes, each the encoding of the value that `g`
/// reads from it, is the concatenation of those values.
pub proof fn lemma_concat_map_rebuild<T>(r: Seq<u8>, n: int, w: int, g: spec_fn(Seq<u8>) -> T, f: spec_fn(T) -> Seq<u8>)
    requires
        n >= 0,
        w >= 0,
        r.len() == n * w,
        forall|k: int| 0 <= k < n ==> #[trigger] f(g(r.subrange(k * w, k * w + w))) == r.subrange(k * w, k * w + w),
    ensures
        concat_map(Seq::new(n as nat, |k: int| g(r.subrange(k * w, k * w + w))), f) == r,
    decreases n,
{
    let s = Seq::new(n as nat, |k: int| g(r.subrange(k * w, k * w + w)));
    if n > 0 {
        let m = n - 1;
        assert(m * w + w == n * w) by (nonlinear_arith)
            requires m == n - 1;
        assert(0 <= m * w) by (nonlinear_arith)
            requires m >= 0, w >= 0;
        let r0 = r.subrange(0, m * w);
        assert forall|k: int| 0 <= k < m implies #[trigger] f(g(r0.subrange(k * w, k * w + w))) == r0.subrange(k * w, k * w + w) by {
            assert(k * w + w <= m * w) by (nonlinear_arith)
                requires k < m, w >= 0;
            assert(0 <= k * w) by (nonlinear_arith)
                requires k >= 0, w >= 0;
            assert(r0.subrange(k * w, k * w + w) =~= r.subrange(k * w, k * w + w));
            assert(f(g(r.subrange(k * w, k * w + w))) == r.subrange(k * w, k * w + w));
        }
        lemma_concat_map_rebuild(r0, m, w, g, f);
        let s0 = Seq::new(m as nat, |k: int| g(r0.subrange(k * w, k * w + w)));
        assert forall|k: int| 0 <= k < m implies #[trigger] s.drop_last()[k] == s0[k] by {
            assert(k * w + w <= m * w) by (nonlinear_arith)
                requires k < m, w >= 0;
            assert(0 <= k * w) by (nonlinear_arith)
                requires k >= 0, w >= 0;
            assert(r0.subrange(k * w, k * w + w) =~= r.subrange(k * w, k * w + w));
        }
        assert(s.drop_last() =~= s0);
        assert(f(s.last()) == r.subrange(m * w, m * w + w));
        assert(r =~= r0 + r.subrange(m * w, m * w + w));
    } else {
        assert(n * w == 0) by (nonlinear_arith)
            requires n == 0;
        assert(r =~= Seq::<u8>::empty());
    }
}

} // verus!
