use vstd::prelude::*;

use crate::common::{first_index, TimeSize};
use crate::error::{agrees, err, outcome_agrees, ErrSpec, TzifError};
use crate::leap::{spec_validate_leap_seconds, validate_leap_seconds};
use crate::footer::{spec_validate_footer, validate_footer};
use crate::model::{BlockView, FileView, DataBlock, LocalTimeType, TzifFile, Version};

verus! {

/// Holds at `j` when byte `j` of `s` is NUL.
pub open spec fn is_nul(s: Seq<u8>) -> spec_fn(int) -> bool {
    |j: int| s[j] == 0
}

/// The NUL-terminated string of the designation table `des` that starts at `start`,
/// or `None` when `start` lies beyond the table or no NUL follows it.
pub open spec fn spec_designation_at(des: Seq<u8>, start: int) -> Option<Seq<u8>> {
    if start > des.len() {
        None
    } else {
        match first_index(is_nul(des), start, des.len() as int) {
            Some(end) => Some(des.subrange(start, end)),
            None => None,
        }
    }
}

/// The designation `-00` that RFC 9636 reserves for unspecified local time.
pub open spec fn unspecified_designation() -> Seq<u8> {
    seq![0x2du8, 0x30u8, 0x30u8]
}

pub open spec fn is_ascii_alnum(b: u8) -> bool {
    (0x30 <= b <= 0x39) || (0x41 <= b <= 0x5a) || (0x61 <= b <= 0x7a)
}

pub open spec fn is_designation_byte(b: u8) -> bool {
    is_ascii_alnum(b) || b == 0x2b || b == 0x2d
}

/// RFC 9636 designation syntax: 3 to 6 bytes from `[A-Za-z0-9+-]`.
pub open spec fn is_rfc_designation(d: Seq<u8>) -> bool {
    3 <= d.len() <= 6 && forall|k: int| 0 <= k < d.len() ==> #[trigger] is_designation_byte(d[k])
}

/// The shape of [`DataBlock::placeholder`] as far as designation checks care.
pub open spec fn is_placeholder_block(block: BlockView) -> bool {
    &&& block.transition_times.len() == 0
    &&& block.transition_types.len() == 0
    &&& block.local_time_types.len() == 1
    &&& block.designations == seq![0u8]
}

/// A designation that a data block may hold: `-00`, the empty designation of a
/// placeholder block, or an RFC 9636 designation.
pub open spec fn is_valid_wire_designation(block: BlockView, d: Seq<u8>) -> bool {
    if d == unspecified_designation() {
        true
    } else if d.len() == 0 {
        is_placeholder_block(block)
    } else {
        is_rfc_designation(d)
    }
}

/// The error, if any, of local time type `i` of `block`.
pub open spec fn local_time_type_error(block: BlockView, i: int) -> Option<ErrSpec> {
    let t = block.local_time_types[i];
    let des = block.designations;
    if t.utc_offset == i32::MIN {
        Some(err(TzifError::InvalidUtcOffset { index: i as usize }))
    } else if t.designation_index >= des.len() {
        Some(err(TzifError::InvalidDesignationIndex { index: i as usize, designation_index: t.designation_index }))
    } else {
        match spec_designation_at(des, t.designation_index as int) {
            None => Some(err(TzifError::UnterminatedDesignation { index: i as usize, designation_index: t.designation_index })),
            Some(d) => if is_valid_wire_designation(block, d) {
                None
            } else {
                Some((TzifError::InvalidDesignation { index: i as usize, designation: vstd::pervasive::arbitrary() }, d))
            },
        }
    }
}

pub open spec fn has_local_time_type_error(block: BlockView) -> spec_fn(int) -> bool {
    |i: int| local_time_type_error(block, i) is Some
}

pub open spec fn ut_without_standard(block: BlockView) -> spec_fn(int) -> bool {
    |i: int| block.ut_local_indicators[i] && !(i < block.standard_wall_indicators.len() && block.standard_wall_indicators[i])
}

pub open spec fn times_not_ascending(times: Seq<i64>) -> spec_fn(int) -> bool {
    |i: int| times[i - 1] >= times[i]
}

pub open spec fn type_out_of_range(block: BlockView) -> spec_fn(int) -> bool {
    |i: int| block.transition_types[i] >= block.local_time_types.len()
}

pub open spec fn outside_i32(v: i64) -> bool {
    v < i32::MIN || v > i32::MAX
}

pub open spec fn time_outside_i32(times: Seq<i64>) -> spec_fn(int) -> bool {
    |i: int| outside_i32(times[i])
}

pub open spec fn leap_outside_i32(block: BlockView) -> spec_fn(int) -> bool {
    |i: int| outside_i32(block.leap_seconds[i].occurrence)
}

/// The checks that the structure of one data block must pass, in the order in which
/// they are made; the first that fails names the error.
#[verifier::opaque]
pub open spec fn spec_validate_block(block: BlockView, time_size: TimeSize, version: Version) -> Result<(), ErrSpec> {
    let times = block.transition_times;
    let types = block.transition_types;
    let ltts = block.local_time_types;
    let des = block.designations;
    let std = block.standard_wall_indicators;
    let ut = block.ut_local_indicators;
    let leaps = block.leap_seconds;
    if ltts.len() == 0 {
        Err(err(TzifError::EmptyLocalTimeTypes))
    } else if ltts.len() > 256 {
        Err(err(TzifError::TooManyLocalTimeTypes(ltts.len() as usize)))
    } else if des.len() == 0 {
        Err(err(TzifError::EmptyDesignations))
    } else if times.len() != types.len() {
        Err(err(TzifError::CountMismatch { field: "transition_types", expected: times.len() as usize, actual: types.len() as usize }))
    } else if std.len() != 0 && std.len() != ltts.len() {
        Err(err(TzifError::CountMismatch { field: "standard_wall_indicators", expected: ltts.len() as usize, actual: std.len() as usize }))
    } else if ut.len() != 0 && ut.len() != ltts.len() {
        Err(err(TzifError::CountMismatch { field: "ut_local_indicators", expected: ltts.len() as usize, actual: ut.len() as usize }))
    } else if let Some(i) = first_index(ut_without_standard(block), 0, ut.len() as int) {
        Err(err(TzifError::InvalidUtLocalIndicatorCombination { index: i as usize }))
    } else if times.len() > u32::MAX {
        Err(err(TzifError::CountOverflow { field: "timecnt", count: times.len() as usize }))
    } else if des.len() > u32::MAX {
        Err(err(TzifError::CountOverflow { field: "charcnt", count: des.len() as usize }))
    } else if leaps.len() > u32::MAX {
        Err(err(TzifError::CountOverflow { field: "leapcnt", count: leaps.len() as usize }))
    } else if let Some(i) = first_index(times_not_ascending(times), 1, times.len() as int) {
        Err(err(TzifError::TransitionTimesNotAscending { index: i as usize }))
    } else if let Some(i) = first_index(type_out_of_range(block), 0, types.len() as int) {
        Err(err(TzifError::InvalidTransitionType { index: i as usize, transition_type: types[i] }))
    } else if let Some(i) = first_index(has_local_time_type_error(block), 0, ltts.len() as int) {
        Err(local_time_type_error(block, i).unwrap())
    } else if let Err(e) = spec_validate_leap_seconds(block, version) {
        Err(err(e))
    } else if time_size == TimeSize::ThirtyTwo && first_index(time_outside_i32(times), 0, times.len() as int) is Some {
        let i = first_index(time_outside_i32(times), 0, times.len() as int).unwrap();
        Err(err(TzifError::Version1TransitionOutOfRange { index: i as usize, value: times[i] }))
    } else if time_size == TimeSize::ThirtyTwo && first_index(leap_outside_i32(block), 0, leaps.len() as int) is Some {
        let i = first_index(leap_outside_i32(block), 0, leaps.len() as int).unwrap();
        Err(err(TzifError::Version1LeapSecondOutOfRange { index: i as usize, value: leaps[i].occurrence }))
    } else {
        Ok(())
    }
}

/// Validates the structure of one data block.
pub fn validate_block(block: &DataBlock, time_size: TimeSize, version: Version) -> (res: Result<(), TzifError>)
    ensures
        outcome_agrees(res, spec_validate_block(block@, time_size, version)),
{
    reveal(spec_validate_block);
    let ntypes = block.local_time_types.len();
    if ntypes == 0 {
        return Err(TzifError::EmptyLocalTimeTypes);
    }
    if ntypes > 256 {
        return Err(TzifError::TooManyLocalTimeTypes(ntypes));
    }
    if block.designations.len() == 0 {
        return Err(TzifError::EmptyDesignations);
    }
    if block.transition_times.len() != block.transition_types.len() {
        return Err(TzifError::CountMismatch {
            field: "transition_types",
            expected: block.transition_times.len(),
            actual: block.transition_types.len(),
        });
    }
    validate_optional_indicator_count("standard_wall_indicators", ntypes, block.standard_wall_indicators.len())?;
    validate_optional_indicator_count("ut_local_indicators", ntypes, block.ut_local_indicators.len())?;
    validate_indicator_relationship(block)?;
    validate_u32_count("timecnt", block.transition_times.len())?;
    validate_u32_count("typecnt", ntypes)?;
    validate_u32_count("charcnt", block.designations.len())?;
    validate_u32_count("leapcnt", block.leap_seconds.len())?;
    validate_u32_count("isstdcnt", block.standard_wall_indicators.len())?;
    validate_u32_count("isutcnt", block.ut_local_indicators.len())?;
    validate_strictly_ascending_transitions(block)?;
    let types = &block.transition_types;
    let mut i: usize = 0;
    while i < types.len()
        invariant
            0 <= i <= types@.len(),
            first_index(type_out_of_range(block@), 0, types@.len() as int)
                == first_index(type_out_of_range(block@), i as int, types@.len() as int),
        decreases types@.len() - i,
    {
        let transition_type = types[i];
        if transition_type as usize >= ntypes {
            return Err(TzifError::InvalidTransitionType { index: i, transition_type });
        }
        i = i + 1;
    }
    let mut i: usize = 0;
    while i < ntypes
        invariant
            0 <= i <= ntypes,
            first_index(has_local_time_type_error(block@), 0, ntypes as int)
                == first_index(has_local_time_type_error(block@), i as int, ntypes as int),
        decreases ntypes - i,
    {
        check_local_time_type(block, i)?;
        i = i + 1;
    }
    validate_leap_seconds(block, version)?;
    if matches!(time_size, TimeSize::ThirtyTwo) {
        let times = &block.transition_times;
        let mut i: usize = 0;
        while i < times.len()
            invariant
                0 <= i <= times@.len(),
                first_index(time_outside_i32(times@), 0, times@.len() as int)
                    == first_index(time_outside_i32(times@), i as int, times@.len() as int),
            decreases times@.len() - i,
        {
            let value = times[i];
            if value < i32::MIN as i64 || value > i32::MAX as i64 {
                return Err(TzifError::Version1TransitionOutOfRange { index: i, value });
            }
            i = i + 1;
        }
        let leaps = &block.leap_seconds;
        let mut i: usize = 0;
        while i < leaps.len()
            invariant
                0 <= i <= leaps@.len(),
                first_index(leap_outside_i32(block@), 0, leaps@.len() as int)
                    == first_index(leap_outside_i32(block@), i as int, leaps@.len() as int),
            decreases leaps@.len() - i,
        {
            let value = leaps[i].occurrence;
            if value < i32::MIN as i64 || value > i32::MAX as i64 {
                return Err(TzifError::Version1LeapSecondOutOfRange { index: i, value });
            }
            i = i + 1;
        }
    }
    Ok(())
}

fn check_local_time_type(block: &DataBlock, i: usize) -> (res: Result<(), TzifError>)
    requires
        i < block.local_time_types@.len(),
    ensures
        match local_time_type_error(block@, i as int) {
            None => res is Ok,
            Some(s) => res matches Err(e) && agrees(e, s),
        },
{
    let t = block.local_time_types[i];
    if t.utc_offset == i32::MIN {
        return Err(TzifError::InvalidUtcOffset { index: i });
    }
    if t.designation_index as usize >= block.designations.len() {
        return Err(TzifError::InvalidDesignationIndex { index: i, designation_index: t.designation_index });
    }
    let start = t.designation_index as usize;
    match designation_end(&block.designations, start) {
        None => Err(TzifError::UnterminatedDesignation { index: i, designation_index: t.designation_index }),
        Some(end) => {
            let all = block.designations.as_slice();
            assert(all@ == block.designations@);
            let d = vstd::slice::slice_subrange(all, start, end);
            assert(d@ == block.designations@.subrange(start as int, end as int));
            assert(spec_designation_at(block.designations@, start as int) == Some(d@));
            if is_valid_wire_designation_exec(block, d) {
                Ok(())
            } else {
                Err(TzifError::InvalidDesignation { index: i, designation: vstd::slice::slice_to_vec(d) })
            }
        },
    }
}

/// The index of the first NUL at or after `start`.
pub fn designation_end(des: &Vec<u8>, start: usize) -> (res: Option<usize>)
    requires
        start <= des@.len(),
    ensures
        res matches Some(e) ==> first_index(is_nul(des@), start as int, des@.len() as int) == Some(e as int),
        res is None ==> first_index(is_nul(des@), start as int, des@.len() as int) is None,
        res matches Some(e) ==> start <= e < des@.len(),
{
    let mut j = start;
    while j < des.len()
        invariant
            start <= j <= des@.len(),
            first_index(is_nul(des@), start as int, des@.len() as int) == first_index(is_nul(des@), j as int, des@.len() as int),
        decreases des@.len() - j,
    {
        if des[j] == 0 {
            return Some(j);
        }
        j = j + 1;
    }
    None
}

fn is_valid_wire_designation_exec(block: &DataBlock, d: &[u8]) -> (b: bool)
    ensures
        b == is_valid_wire_designation(block@, d@),
{
    if d.len() == 3 && d[0] == 0x2d && d[1] == 0x30 && d[2] == 0x30 {
        assert(d@ =~= unspecified_designation());
        return true;
    }
    if d.len() == 0 {
        let r = block.transition_times.len() == 0 && block.transition_types.len() == 0
            && block.local_time_types.len() == 1 && block.designations.len() == 1 && block.designations[0] == 0;
        proof {
            if r {
                assert(block.designations@ =~= seq![0u8]);
            }
            assert(d@ != unspecified_designation());
        }
        return r;
    }
    is_rfc_designation_bytes(d)
}

/// Whether `d` has RFC 9636 designation syntax.
pub fn is_rfc_designation_bytes(d: &[u8]) -> (b: bool)
    ensures
        b == is_rfc_designation(d@),
{
    if d.len() < 3 || d.len() > 6 {
        return false;
    }
    let mut k: usize = 0;
    while k < d.len()
        invariant
            0 <= k <= d@.len(),
            forall|m: int| 0 <= m < k ==> #[trigger] is_designation_byte(d@[m]),
        decreases d@.len() - k,
    {
        if !is_designation_byte_exec(d[k]) {
            return false;
        }
        k = k + 1;
    }
    true
}

pub fn is_designation_byte_exec(b: u8) -> (r: bool)
    ensures
        r == is_designation_byte(b),
{
    (0x30 <= b && b <= 0x39) || (0x41 <= b && b <= 0x5a) || (0x61 <= b && b <= 0x7a) || b == 0x2b || b == 0x2d
}

fn validate_strictly_ascending_transitions(block: &DataBlock) -> (res: Result<(), TzifError>)
    ensures
        res == (match first_index(times_not_ascending(block.transition_times@), 1, block.transition_times@.len() as int) {
            Some(i) => Err(TzifError::TransitionTimesNotAscending { index: i as usize }),
            None => Ok(()),
        }),
{
    let times = &block.transition_times;
    let mut i: usize = 1;
    while i < times.len()
        invariant
            1 <= i,
            i <= times@.len() || times@.len() == 0,
            first_index(times_not_ascending(times@), 1, times@.len() as int)
                == first_index(times_not_ascending(times@), i as int, times@.len() as int),
        decreases times@.len() - i,
    {
        if times[i - 1] >= times[i] {
            return Err(TzifError::TransitionTimesNotAscending { index: i });
        }
        i = i + 1;
    }
    Ok(())
}

fn validate_indicator_relationship(block: &DataBlock) -> (res: Result<(), TzifError>)
    ensures
        res == (match first_index(ut_without_standard(block@), 0, block.ut_local_indicators@.len() as int) {
            Some(i) => Err(TzifError::InvalidUtLocalIndicatorCombination { index: i as usize }),
            None => Ok(()),
        }),
{
    let ut = &block.ut_local_indicators;
    let std = &block.standard_wall_indicators;
    let mut i: usize = 0;
    while i < ut.len()
        invariant
            0 <= i <= ut@.len(),
            first_index(ut_without_standard(block@), 0, ut@.len() as int)
                == first_index(ut_without_standard(block@), i as int, ut@.len() as int),
        decreases ut@.len() - i,
    {
        let is_standard = i < std.len() && std[i];
        if ut[i] && !is_standard {
            return Err(TzifError::InvalidUtLocalIndicatorCombination { index: i });
        }
        i = i + 1;
    }
    Ok(())
}

fn validate_optional_indicator_count(field: &'static str, type_count: usize, actual: usize) -> (res: Result<(), TzifError>)
    ensures
        res == (if actual != 0 && actual != type_count {
            Err(TzifError::CountMismatch { field, expected: type_count, actual })
        } else {
            Ok(())
        }),
{
    if actual != 0 && actual != type_count {
        return Err(TzifError::CountMismatch { field, expected: type_count, actual });
    }
    Ok(())
}

fn validate_u32_count(field: &'static str, count: usize) -> (res: Result<(), TzifError>)
    ensures
        res == (if count > u32::MAX {
            Err(TzifError::CountOverflow { field, count })
        } else {
            Ok(())
        }),
{
    if count > u32::MAX as usize {
        return Err(TzifError::CountOverflow { field, count });
    }
    Ok(())
}


/// The outcome of validating a whole file: the version 1 block, then the header
/// layout for the version, then the 64-bit block and the footer.
#[verifier::opaque]
pub open spec fn spec_validate_file(f: FileView) -> Result<(), ErrSpec> {
    match spec_validate_block(f.v1, TimeSize::ThirtyTwo, f.version) {
        Err(e) => Err(e),
        Ok(()) => if f.version == Version::V1 {
            if f.v2_plus is Some || f.footer is Some {
                Err(err(TzifError::UnexpectedV2PlusData))
            } else {
                Ok(())
            }
        } else {
            match (f.v2_plus, f.footer) {
                (Some(block), Some(footer)) => match spec_validate_block(block, TimeSize::SixtyFour, f.version) {
                    Err(e) => Err(e),
                    Ok(()) => match spec_validate_footer(f.version, block, footer) {
                        Err(e) => Err(err(e)),
                        Ok(()) => Ok(()),
                    },
                },
                _ => Err(err(TzifError::MissingV2PlusData(f.version))),
            }
        },
    }
}

/// Whether a file passes every structural check.
pub open spec fn is_valid_file(f: FileView) -> bool {
    spec_validate_file(f) is Ok
}

/// Validates a whole file.
pub fn validate_file(file: &TzifFile) -> (res: Result<(), TzifError>)
    ensures
        outcome_agrees(res, spec_validate_file(file@)),
{
    reveal(spec_validate_file);
    validate_block(&file.v1, TimeSize::ThirtyTwo, file.version)?;
    if matches!(file.version, Version::V1) {
        if file.v2_plus.is_some() || file.footer.is_some() {
            return Err(TzifError::UnexpectedV2PlusData);
        }
    } else {
        match (&file.v2_plus, &file.footer) {
            (Some(block), Some(footer)) => {
                validate_block(block, TimeSize::SixtyFour, file.version)?;
                validate_footer(file.version, block, footer.as_str())?;
            },
            _ => {
                return Err(TzifError::MissingV2PlusData(file.version));
            },
        }
    }
    Ok(())
}

impl TzifFile {
    /// Validates this file against the structural TZif rules without encoding it.
    pub fn validate(&self) -> (res: Result<(), TzifError>)
        ensures
            outcome_agrees(res, spec_validate_file(self@)),
    {
        validate_file(self)
    }
}

/// What validity says of the parts of a file.
pub proof fn lemma_valid_file_facts(f: FileView)
    requires
        spec_validate_file(f) is Ok,
    ensures
        spec_validate_block(f.v1, TimeSize::ThirtyTwo, f.version) is Ok,
        f.version == Version::V1 ==> f.v2_plus is None && f.footer is None,
        f.version != Version::V1 ==> {
            &&& f.v2_plus is Some
            &&& f.footer is Some
            &&& spec_validate_block(f.v2_plus.unwrap(), TimeSize::SixtyFour, f.version) is Ok
            &&& spec_validate_footer(f.version, f.v2_plus.unwrap(), f.footer.unwrap()) is Ok
            &&& first_index(crate::footer::is_control_byte(vstd::utf8::encode_utf8(f.footer.unwrap())), 0,
                vstd::utf8::encode_utf8(f.footer.unwrap()).len() as int) is None
        },
{
    reveal(spec_validate_file);
}

} // verus!
