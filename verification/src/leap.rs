use vstd::prelude::*;

use crate::calendar::{civil_from_days, floor_div_i64, spec_civil_from_days};
use crate::common::first_index;
use crate::error::TzifError;
use crate::model::{BlockView, FileView, DataBlock, LeapSecond, Version};

verus! {

/// Holds at `i` when occurrence `i` does not come after occurrence `i - 1`.
pub open spec fn leap_not_ascending(ls: Seq<LeapSecond>) -> spec_fn(int) -> bool {
    |i: int| ls[i - 1].occurrence >= ls[i].occurrence
}

/// Holds at `i` when correction `i` neither steps by one from correction `i - 1`
/// nor is the version 4 expiration entry that repeats the last correction.
pub open spec fn leap_bad_step(ls: Seq<LeapSecond>, version: Version) -> spec_fn(int) -> bool {
    |i: int| {
        let delta = ls[i].correction - ls[i - 1].correction;
        &&& delta != 1
        &&& delta != -1
        &&& !(version == Version::V4 && i == ls.len() - 1 && ls[i].correction == ls[i - 1].correction)
    }
}

/// Whether `unix_seconds` is the first second of a UTC month.
pub open spec fn spec_is_utc_month_boundary(unix_seconds: int) -> bool {
    unix_seconds % 86400 == 0 && spec_civil_from_days(unix_seconds / 86400).2 == 1
}

/// The correction in force before entry `i` takes effect.
pub open spec fn correction_before(ls: Seq<LeapSecond>, i: int) -> int {
    if i == 0 {
        if ls[0].correction > 0 { ls[0].correction - 1 } else { ls[0].correction + 1 }
    } else {
        ls[i - 1].correction as int
    }
}

/// Holds at `i` when entry `i` is not an expiration entry and its occurrence, less the
/// correction before it, is not the first second of a UTC month (or leaves `i64`).
pub open spec fn leap_not_at_month_end(ls: Seq<LeapSecond>) -> spec_fn(int) -> bool {
    |i: int| {
        let is_expiration = i > 0 && i == ls.len() - 1 && ls[i].correction == ls[i - 1].correction;
        let unix_after = ls[i].occurrence - correction_before(ls, i);
        &&& !is_expiration
        &&& (unix_after < i64::MIN || unix_after > i64::MAX || !spec_is_utc_month_boundary(unix_after))
    }
}

/// The outcome of validating the leap-second table of `block` for `version`.
pub open spec fn spec_validate_leap_seconds(block: BlockView, version: Version) -> Result<(), TzifError> {
    let ls = block.leap_seconds;
    if ls.len() == 0 {
        Ok(())
    } else if ls[0].occurrence < 0 {
        Err(TzifError::FirstLeapSecondOccurrenceNegative { value: ls[0].occurrence })
    } else if let Some(i) = first_index(leap_not_ascending(ls), 1, ls.len() as int) {
        Err(TzifError::LeapSecondOccurrencesNotAscending { index: i as usize })
    } else if ls[0].correction != 1 && ls[0].correction != -1 && version != Version::V4 {
        Err(TzifError::LeapSecondTruncationRequiresVersion4 { version })
    } else if let Some(i) = first_index(leap_bad_step(ls, version), 1, ls.len() as int) {
        if ls[i].correction == ls[i - 1].correction {
            Err(TzifError::LeapSecondExpirationRequiresVersion4 { version })
        } else {
            Err(TzifError::InvalidLeapSecondCorrection { index: i as usize })
        }
    } else if let Some(i) = first_index(leap_not_at_month_end(ls), 0, ls.len() as int) {
        Err(TzifError::LeapSecondOccurrenceNotAtMonthEnd { index: i as usize })
    } else {
        Ok(())
    }
}

/// Validates the leap-second records of `block` for a file of `version`.
pub fn validate_leap_seconds(block: &DataBlock, version: Version) -> (res: Result<(), TzifError>)
    ensures
        res == spec_validate_leap_seconds(block@, version),
{
    let ls = &block.leap_seconds;
    let n = ls.len();
    if n == 0 {
        return Ok(());
    }
    let first = ls[0];
    if first.occurrence < 0 {
        return Err(TzifError::FirstLeapSecondOccurrenceNegative { value: first.occurrence });
    }
    let mut i: usize = 1;
    while i < n
        invariant
            1 <= i <= n,
            n == ls@.len(),
            first_index(leap_not_ascending(ls@), 1, n as int) == first_index(leap_not_ascending(ls@), i as int, n as int),
        decreases n - i,
    {
        if ls[i - 1].occurrence >= ls[i].occurrence {
            return Err(TzifError::LeapSecondOccurrencesNotAscending { index: i });
        }
        i = i + 1;
    }
    let truncated_at_start = first.correction != 1 && first.correction != -1;
    if truncated_at_start && !matches!(version, Version::V4) {
        return Err(TzifError::LeapSecondTruncationRequiresVersion4 { version });
    }
    let mut i: usize = 1;
    while i < n
        invariant
            1 <= i <= n,
            n == ls@.len(),
            first_index(leap_bad_step(ls@, version), 1, n as int) == first_index(leap_bad_step(ls@, version), i as int, n as int),
        decreases n - i,
    {
        let previous = ls[i - 1];
        let next = ls[i];
        let delta: i64 = next.correction as i64 - previous.correction as i64;
        if delta != 1 && delta != -1 {
            let is_expiration = matches!(version, Version::V4) && i == n - 1 && next.correction == previous.correction;
            if !is_expiration {
                if next.correction == previous.correction {
                    return Err(TzifError::LeapSecondExpirationRequiresVersion4 { version });
                }
                return Err(TzifError::InvalidLeapSecondCorrection { index: i });
            }
        }
        i = i + 1;
    }
    validate_leap_second_month_boundaries(block)?;
    Ok(())
}

fn validate_leap_second_month_boundaries(block: &DataBlock) -> (res: Result<(), TzifError>)
    ensures
        res == (match first_index(leap_not_at_month_end(block.leap_seconds@), 0, block.leap_seconds@.len() as int) {
            Some(i) => Err(TzifError::LeapSecondOccurrenceNotAtMonthEnd { index: i as usize }),
            None => Ok(()),
        }),
{
    let ls = &block.leap_seconds;
    let n = ls.len();
    let mut i: usize = 0;
    while i < n
        invariant
            0 <= i <= n,
            n == ls@.len(),
            first_index(leap_not_at_month_end(ls@), 0, n as int) == first_index(leap_not_at_month_end(ls@), i as int, n as int),
        decreases n - i,
    {
        let leap_second = ls[i];
        let is_expiration = i > 0 && i == n - 1 && leap_second.correction == ls[i - 1].correction;
        if !is_expiration {
            let previous_correction: i32 = if i == 0 {
                if leap_second.correction > 0 {
                    leap_second.correction - 1
                } else {
                    leap_second.correction + 1
                }
            } else {
                ls[i - 1].correction
            };
            let occurrence = leap_second.occurrence;
            let pc = previous_correction as i64;
            let in_range = if pc > 0 { occurrence >= i64::MIN + pc } else { occurrence <= i64::MAX + pc };
            if !in_range {
                return Err(TzifError::LeapSecondOccurrenceNotAtMonthEnd { index: i });
            }
            let unix_after_leap = occurrence - pc;
            if !is_utc_month_boundary(unix_after_leap) {
                return Err(TzifError::LeapSecondOccurrenceNotAtMonthEnd { index: i });
            }
        }
        i = i + 1;
    }
    Ok(())
}

/// Whether `unix_seconds` is the first second of a UTC month.
pub fn is_utc_month_boundary(unix_seconds: i64) -> (b: bool)
    ensures
        b == spec_is_utc_month_boundary(unix_seconds as int),
{
    let days = floor_div_i64(unix_seconds, 86400);
    let seconds_of_day: i64 = match unix_seconds.checked_rem_euclid(86400) {
        Some(r) => r,
        None => 0,
    };
    if seconds_of_day != 0 {
        return false;
    }
    let (_, _, day) = civil_from_days(days);
    day == 1
}

} // verus!
