use vstd::prelude::*;

use crate::common::{be32, push_i32, push_i64, push_u32, TimeSize, HEADER_RESERVED_LEN};
use crate::encoding::{concat_map, enc_bool, enc_leap_second, enc_local_time_type, enc_time, lemma_concat_map_push, spec_encode, spec_encode_block, spec_encode_header};
use crate::error::{agrees, outcome_agrees, TzifError};
use crate::model::{BlockView, FileView, DataBlock, LeapSecond, LocalTimeType, TzifFile, Version};
use crate::validate::{outside_i32, spec_validate_block, spec_validate_file, validate_file};

verus! {

impl TzifFile {
    /// Serializes this file after validating it: `Ok` with the exact bytes of
    /// [`spec_encode`] when the file is valid, otherwise the first validation error.
    pub fn serialize(&self) -> (res: Result<Vec<u8>, TzifError>)
        ensures
            match spec_validate_file(self@) {
                Ok(()) => res matches Ok(bytes) && bytes@ == spec_encode(self@),
                Err(e) => res matches Err(x) && agrees(x, e),
            },
    {
        validate_file(self)?;
        proof {
            crate::validate::lemma_valid_file_facts(self@);
            lemma_valid_block_fits(self.v1@, TimeSize::ThirtyTwo, self.version);
        }
        let mut out: Vec<u8> = Vec::new();
        write_header(&mut out, self.version, &self.v1)?;
        write_data_block(&mut out, &self.v1, TimeSize::ThirtyTwo)?;
        if self.version.is_v2_plus() {
            let block = match &self.v2_plus {
                Some(block) => block,
                None => return Err(TzifError::MissingV2PlusData(self.version)),
            };
            proof {
                lemma_valid_block_fits(block@, TimeSize::SixtyFour, self.version);
            }
            write_header(&mut out, self.version, block)?;
            write_data_block(&mut out, block, TimeSize::SixtyFour)?;
            out.push(0x0a);
            match &self.footer {
                Some(footer) => {
                    let bytes = footer.as_str().as_bytes();
                    out.extend_from_slice(bytes);
                },
                None => {},
            }
            out.push(0x0a);
        }
        Ok(out)
    }

    /// Serializes this file to TZif bytes; the same as [`TzifFile::serialize`].
    pub fn to_bytes(&self) -> (res: Result<Vec<u8>, TzifError>)
        ensures
            match spec_validate_file(self@) {
                Ok(()) => res matches Ok(bytes) && bytes@ == spec_encode(self@),
                Err(e) => res matches Err(x) && agrees(x, e),
            },
    {
        self.serialize()
    }
}

/// The counts of a valid block fit in `u32`, and the times of a valid version 1
/// block fit in `i32`.
pub proof fn lemma_valid_block_fits(block: BlockView, time_size: TimeSize, version: Version)
    requires
        spec_validate_block(block, time_size, version) is Ok,
    ensures
        block_counts_fit(block),
        block.transition_types.len() == block.transition_times.len(),
        time_size == TimeSize::ThirtyTwo ==> block_times_fit_i32(block),
{
    reveal(spec_validate_block);
    if time_size == TimeSize::ThirtyTwo {
        crate::common::lemma_first_index(crate::validate::time_outside_i32(block.transition_times), 0, block.transition_times.len() as int);
        crate::common::lemma_first_index(crate::validate::leap_outside_i32(block), 0, block.leap_seconds.len() as int);
        assert forall|i: int| 0 <= i < block.transition_times.len() implies !outside_i32(#[trigger] block.transition_times[i]) by {
            assert(!crate::validate::time_outside_i32(block.transition_times)(i));
        }
        assert forall|i: int| 0 <= i < block.leap_seconds.len() implies !outside_i32(#[trigger] block.leap_seconds[i].occurrence) by {
            assert(!crate::validate::leap_outside_i32(block)(i));
        }
    }
}

/// Every count of `block` fits in the header's `u32` fields.
pub open spec fn block_counts_fit(block: BlockView) -> bool {
    &&& block.ut_local_indicators.len() <= u32::MAX
    &&& block.standard_wall_indicators.len() <= u32::MAX
    &&& block.leap_seconds.len() <= u32::MAX
    &&& block.transition_times.len() <= u32::MAX
    &&& block.local_time_types.len() <= u32::MAX
    &&& block.designations.len() <= u32::MAX
}

/// Every transition time and leap-second occurrence fits in `i32`.
pub open spec fn block_times_fit_i32(block: BlockView) -> bool {
    &&& forall|i: int| 0 <= i < block.transition_times.len() ==> !outside_i32(#[trigger] block.transition_times[i])
    &&& forall|i: int| 0 <= i < block.leap_seconds.len() ==> !outside_i32(#[trigger] block.leap_seconds[i].occurrence)
}

fn write_header(out: &mut Vec<u8>, version: Version, block: &DataBlock) -> (res: Result<(), TzifError>)
    ensures
        block_counts_fit(block@) ==> res is Ok && final(out)@ == old(out)@ + spec_encode_header(version, block@),
        !block_counts_fit(block@) ==> res matches Err(TzifError::CountOverflow { .. }),
{
    out.push(0x54);
    out.push(0x5a);
    out.push(0x69);
    out.push(0x66);
    out.push(version.byte());
    let mut k: usize = 0;
    let ghost before = out@;
    while k < HEADER_RESERVED_LEN
        invariant
            0 <= k <= 15,
            out@ == before + Seq::new(k as nat, |i: int| 0u8),
        decreases 15 - k,
    {
        out.push(0);
        k = k + 1;
        assert(out@ =~= before + Seq::new(k as nat, |i: int| 0u8));
    }
    write_u32(out, block.ut_local_indicators.len())?;
    write_u32(out, block.standard_wall_indicators.len())?;
    write_u32(out, block.leap_seconds.len())?;
    write_u32(out, block.transition_times.len())?;
    write_u32(out, block.local_time_types.len())?;
    write_u32(out, block.designations.len())?;
    assert(out@ =~= old(out)@ + spec_encode_header(version, block@));
    Ok(())
}

fn write_u32(out: &mut Vec<u8>, value: usize) -> (res: Result<(), TzifError>)
    ensures
        value <= u32::MAX ==> res is Ok && final(out)@ == old(out)@ + be32(value as u32),
        value > u32::MAX ==> res == Err::<(), TzifError>(TzifError::CountOverflow { field: "count", count: value }),
{
    if value > u32::MAX as usize {
        return Err(TzifError::CountOverflow { field: "count", count: value });
    }
    push_u32(out, value as u32);
    Ok(())
}

fn write_time(out: &mut Vec<u8>, value: i64, time_size: TimeSize, index: usize, transition: bool) -> (res: Result<(), TzifError>)
    ensures
        time_size == TimeSize::ThirtyTwo && outside_i32(value) ==> res == Err::<(), TzifError>(if transition {
            TzifError::Version1TransitionOutOfRange { index, value }
        } else {
            TzifError::Version1LeapSecondOutOfRange { index, value }
        }),
        !(time_size == TimeSize::ThirtyTwo && outside_i32(value)) ==> res is Ok && final(out)@ == old(out)@ + enc_time(time_size)(value),
{
    match time_size {
        TimeSize::ThirtyTwo => {
            if value < i32::MIN as i64 || value > i32::MAX as i64 {
                return if transition {
                    Err(TzifError::Version1TransitionOutOfRange { index, value })
                } else {
                    Err(TzifError::Version1LeapSecondOutOfRange { index, value })
                };
            }
            push_i32(out, value as i32);
        },
        TimeSize::SixtyFour => push_i64(out, value),
    }
    Ok(())
}

fn write_data_block(out: &mut Vec<u8>, block: &DataBlock, time_size: TimeSize) -> (res: Result<(), TzifError>)
    requires
        time_size == TimeSize::ThirtyTwo ==> block_times_fit_i32(block@),
    ensures
        res is Ok,
        final(out)@ == old(out)@ + spec_encode_block(block@, time_size),
{
    assert(block@.leap_seconds == block.leap_seconds@);
    assert(block@.transition_times == block.transition_times@);
    write_times(out, &block.transition_times, time_size)?;
    out.extend_from_slice(block.transition_types.as_slice());
    write_local_time_types(out, &block.local_time_types);
    out.extend_from_slice(block.designations.as_slice());
    write_leap_seconds(out, &block.leap_seconds, time_size)?;
    write_bools(out, &block.standard_wall_indicators);
    write_bools(out, &block.ut_local_indicators);
    assert(out@ =~= old(out)@ + spec_encode_block(block@, time_size));
    Ok(())
}

fn write_times(out: &mut Vec<u8>, times: &Vec<i64>, time_size: TimeSize) -> (res: Result<(), TzifError>)
    requires
        time_size == TimeSize::ThirtyTwo ==> forall|i: int| 0 <= i < times@.len() ==> !outside_i32(#[trigger] times@[i]),
    ensures
        res is Ok,
        final(out)@ == old(out)@ + concat_map(times@, enc_time(time_size)),
{
    let mut i: usize = 0;
    while i < times.len()
        invariant
            0 <= i <= times@.len(),
            out@ == old(out)@ + concat_map(times@.take(i as int), enc_time(time_size)),
        decreases times@.len() - i,
    {
        let ghost prev = out@;
        write_time(out, times[i], time_size, i, true)?;
        proof {
            assert(times@.take(i + 1) =~= times@.take(i as int).push(times@[i as int]));
            lemma_concat_map_push(times@.take(i as int), times@[i as int], enc_time(time_size));
            assert(out@ =~= old(out)@ + concat_map(times@.take(i + 1), enc_time(time_size)));
        }
        i = i + 1;
    }
    assert(times@.take(times@.len() as int) =~= times@);
    Ok(())
}

fn write_local_time_types(out: &mut Vec<u8>, ltts: &Vec<LocalTimeType>)
    ensures
        final(out)@ == old(out)@ + concat_map(ltts@, enc_local_time_type()),
{
    let mut i: usize = 0;
    while i < ltts.len()
        invariant
            0 <= i <= ltts@.len(),
            out@ == old(out)@ + concat_map(ltts@.take(i as int), enc_local_time_type()),
        decreases ltts@.len() - i,
    {
        let t = ltts[i];
        let ghost prev = out@;
        push_i32(out, t.utc_offset);
        out.push(if t.is_dst { 1u8 } else { 0u8 });
        out.push(t.designation_index);
        proof {
            assert(out@ =~= prev + enc_local_time_type()(t));
            assert(ltts@.take(i + 1) =~= ltts@.take(i as int).push(t));
            lemma_concat_map_push(ltts@.take(i as int), t, enc_local_time_type());
            assert(out@ =~= old(out)@ + concat_map(ltts@.take(i + 1), enc_local_time_type()));
        }
        i = i + 1;
    }
    assert(ltts@.take(ltts@.len() as int) =~= ltts@);
}

fn write_leap_seconds(out: &mut Vec<u8>, leaps: &Vec<LeapSecond>, time_size: TimeSize) -> (res: Result<(), TzifError>)
    requires
        time_size == TimeSize::ThirtyTwo ==> forall|i: int| 0 <= i < leaps@.len() ==> !outside_i32(#[trigger] leaps@[i].occurrence),
    ensures
        res is Ok,
        final(out)@ == old(out)@ + concat_map(leaps@, enc_leap_second(time_size)),
{
    let mut i: usize = 0;
    while i < leaps.len()
        invariant
            0 <= i <= leaps@.len(),
            out@ == old(out)@ + concat_map(leaps@.take(i as int), enc_leap_second(time_size)),
        decreases leaps@.len() - i,
    {
        let l = leaps[i];
        let ghost prev = out@;
        write_time(out, l.occurrence, time_size, i, false)?;
        push_i32(out, l.correction);
        proof {
            assert(out@ =~= prev + enc_leap_second(time_size)(l));
            assert(leaps@.take(i + 1) =~= leaps@.take(i as int).push(l));
            lemma_concat_map_push(leaps@.take(i as int), l, enc_leap_second(time_size));
            assert(out@ =~= old(out)@ + concat_map(leaps@.take(i + 1), enc_leap_second(time_size)));
        }
        i = i + 1;
    }
    assert(leaps@.take(leaps@.len() as int) =~= leaps@);
    Ok(())
}

fn write_bools(out: &mut Vec<u8>, values: &Vec<bool>)
    ensures
        final(out)@ == old(out)@ + concat_map(values@, enc_bool()),
{
    let mut i: usize = 0;
    while i < values.len()
        invariant
            0 <= i <= values@.len(),
            out@ == old(out)@ + concat_map(values@.take(i as int), enc_bool()),
        decreases values@.len() - i,
    {
        let v = values[i];
        out.push(if v { 1u8 } else { 0u8 });
        proof {
            assert(values@.take(i + 1) =~= values@.take(i as int).push(v));
            lemma_concat_map_push(values@.take(i as int), v, enc_bool());
            assert(out@ =~= old(out)@ + concat_map(values@.take(i + 1), enc_bool()));
        }
        i = i + 1;
    }
    assert(values@.take(values@.len() as int) =~= values@);
}

} // verus!
