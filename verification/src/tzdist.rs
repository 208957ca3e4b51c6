use vstd::prelude::*;

use crate::error::{agrees, ErrSpec, TzdistError, TzifError};
use crate::interop::{is_placeholder_type, spec_is_placeholder_type};
use crate::model::{BlockView, FileView, TzifFile};
use crate::validate::{spec_validate_file, validate_file};
use crate::text::str_is_empty;

verus! {

/// The two media types under which TZDIST serves TZif data.
#[derive(Clone, Copy, Debug, PartialEq, Eq, Structural)]
pub enum TzifMediaType {
    Tzif,
    TzifLeap,
}

impl TzifMediaType {
    /// `application/tzif`.
    pub const APPLICATION_TZIF: &'static str = "application/tzif";
    /// `application/tzif-leap`.
    pub const APPLICATION_TZIF_LEAP: &'static str = "application/tzif-leap";

    /// The media type string.
    pub fn as_str(self) -> (s: &'static str)
        ensures
            s@ == media_type_name(self),
    {
        match self {
            TzifMediaType::Tzif => Self::APPLICATION_TZIF,
            TzifMediaType::TzifLeap => Self::APPLICATION_TZIF_LEAP,
        }
    }
}


impl TzifMediaType {
    /// The media type named by `value`, if it is one of the two TZif media types.
    pub fn from_media_type(value: &str) -> (res: Result<TzifMediaType, TzdistError>)
        ensures
            value@ == Self::APPLICATION_TZIF@ ==> res == Ok::<TzifMediaType, TzdistError>(TzifMediaType::Tzif),
            value@ != Self::APPLICATION_TZIF@ && value@ == Self::APPLICATION_TZIF_LEAP@
                ==> res == Ok::<TzifMediaType, TzdistError>(TzifMediaType::TzifLeap),
            value@ != Self::APPLICATION_TZIF@ && value@ != Self::APPLICATION_TZIF_LEAP@
                ==> (res matches Err(TzdistError::UnsupportedMediaType(s)) && s@ == value@),
    {
        if crate::text::str_equal(value, Self::APPLICATION_TZIF) {
            Ok(TzifMediaType::Tzif)
        } else if crate::text::str_equal(value, Self::APPLICATION_TZIF_LEAP) {
            Ok(TzifMediaType::TzifLeap)
        } else {
            Err(TzdistError::UnsupportedMediaType(value.to_owned()))
        }
    }
}

impl<'a> TryFrom<&'a str> for TzifMediaType {
    type Error = TzdistError;

    fn try_from(value: &'a str) -> (res: Result<TzifMediaType, TzdistError>)
        ensures
            value@ == TzifMediaType::APPLICATION_TZIF@ ==> res == Ok::<TzifMediaType, TzdistError>(TzifMediaType::Tzif),
            value@ != TzifMediaType::APPLICATION_TZIF@ && value@ == TzifMediaType::APPLICATION_TZIF_LEAP@
                ==> res == Ok::<TzifMediaType, TzdistError>(TzifMediaType::TzifLeap),
            value@ != TzifMediaType::APPLICATION_TZIF@ && value@ != TzifMediaType::APPLICATION_TZIF_LEAP@
                ==> (res matches Err(TzdistError::UnsupportedMediaType(s)) && s@ == value@),
    {
        Self::from_media_type(value)
    }
}

/// The trait-level specification of `try_from` is left empty: the error it returns
/// carries a `String`, which a specification cannot build. The `try_from` of this impl
/// states its result in its own `ensures`.
impl<'a> vstd::std_specs::convert::TryFromSpecImpl<&'a str> for TzifMediaType {
    open spec fn obeys_try_from_spec() -> bool {
        false
    }

    open spec fn try_from_spec(v: &'a str) -> Result<TzifMediaType, TzdistError> {
        Ok(TzifMediaType::Tzif)
    }
}

/// Validates a TZDIST capability format list: `application/tzif-leap` may only be
/// advertised together with `application/tzif`.
pub fn validate_tzdist_capability_formats(formats: &[&str]) -> (res: Result<(), TzdistError>)
    ensures
        res is Err <==> (exists|i: int| 0 <= i < formats@.len() && #[trigger] formats@[i]@ == TzifMediaType::APPLICATION_TZIF_LEAP@)
            && !(exists|i: int| 0 <= i < formats@.len() && #[trigger] formats@[i]@ == TzifMediaType::APPLICATION_TZIF@),
        res is Err ==> res == Err::<(), TzdistError>(TzdistError::TzifLeapCapabilityRequiresTzif),
{
    let mut has_tzif = false;
    let mut has_tzif_leap = false;
    let mut i: usize = 0;
    while i < formats.len()
        invariant
            0 <= i <= formats@.len(),
            has_tzif == (exists|j: int| 0 <= j < i && #[trigger] formats@[j]@ == TzifMediaType::APPLICATION_TZIF@),
            has_tzif_leap == (exists|j: int| 0 <= j < i && #[trigger] formats@[j]@ == TzifMediaType::APPLICATION_TZIF_LEAP@),
        decreases formats@.len() - i,
    {
        let format = formats[i];
        if crate::text::str_equal(format, TzifMediaType::APPLICATION_TZIF) {
            has_tzif = true;
        }
        if crate::text::str_equal(format, TzifMediaType::APPLICATION_TZIF_LEAP) {
            has_tzif_leap = true;
        }
        i = i + 1;
    }
    if has_tzif_leap && !has_tzif {
        return Err(TzdistError::TzifLeapCapabilityRequiresTzif);
    }
    Ok(())
}

/// A TZDIST truncation request: the start and/or end of the truncation range.
#[derive(Clone, Copy, Debug, PartialEq, Eq, Structural)]
pub struct TzdistTruncation {
    pub start: Option<i64>,
    pub end: Option<i64>,
}

impl TzdistTruncation {
    /// Truncation at the start only.
    pub fn start(start: i64) -> (t: TzdistTruncation)
        ensures
            t == (TzdistTruncation { start: Some(start), end: None }),
    {
        TzdistTruncation { start: Some(start), end: None }
    }

    /// Truncation at the end only.
    pub fn end(end: i64) -> (t: TzdistTruncation)
        ensures
            t == (TzdistTruncation { start: None, end: Some(end) }),
    {
        TzdistTruncation { start: None, end: Some(end) }
    }

    /// Truncation at both ends.
    pub fn range(start: i64, end: i64) -> (t: TzdistTruncation)
        ensures
            t == (TzdistTruncation { start: Some(start), end: Some(end) }),
    {
        TzdistTruncation { start: Some(start), end: Some(end) }
    }
}

/// The name of a media type.
pub open spec fn media_type_name(m: TzifMediaType) -> Seq<char> {
    match m {
        TzifMediaType::Tzif => TzifMediaType::APPLICATION_TZIF@,
        TzifMediaType::TzifLeap => TzifMediaType::APPLICATION_TZIF_LEAP@,
    }
}

/// The media type a file should be served as: `application/tzif-leap` when it holds
/// leap seconds, else `application/tzif`.
pub open spec fn suggested_media_type_of(f: FileView) -> TzifMediaType {
    if spec_has_leap_seconds(f) {
        TzifMediaType::TzifLeap
    } else {
        TzifMediaType::Tzif
    }
}

/// Whether either block of the file holds leap-second records.
pub open spec fn spec_has_leap_seconds(f: FileView) -> bool {
    f.v1.leap_seconds.len() != 0 || (f.v2_plus matches Some(b) && b.leap_seconds.len() != 0)
}

/// The outcome of checking that a file may be served as `media_type`: the file's own
/// validity first, then no leap seconds under `application/tzif`.
pub open spec fn spec_validate_for_media_type(f: FileView, media_type: TzifMediaType) -> Result<(), TzdistErrSpec> {
    match spec_validate_file(f) {
        Err(e) => Err(Err(e)),
        Ok(()) => if media_type == TzifMediaType::Tzif && spec_has_leap_seconds(f) {
            Err(Ok(TzdistError::LeapSecondsNotAllowedForApplicationTzif))
        } else {
            Ok(())
        },
    }
}

/// A specified TZDIST error: one of its own, or an invalid-file error as specified for files.
pub type TzdistErrSpec = Result<TzdistError, ErrSpec>;

/// Whether the result `r` is the specified result `s`.
pub open spec fn tzdist_agrees(r: Result<(), TzdistError>, s: Result<(), TzdistErrSpec>) -> bool {
    match (r, s) {
        (Ok(()), Ok(())) => true,
        (Err(TzdistError::InvalidTzif(e)), Err(Err(x))) => agrees(e, x),
        (Err(e), Err(Ok(t))) => e == t && !(t is InvalidTzif),
        _ => false,
    }
}

impl TzifFile {
    /// Whether either block holds leap-second records.
    pub fn has_leap_seconds(&self) -> (b: bool)
        ensures
            b == spec_has_leap_seconds(self@),
    {
        self.v1.leap_seconds.len() != 0 || match &self.v2_plus {
            Some(block) => block.leap_seconds.len() != 0,
            None => false,
        }
    }

    /// `application/tzif-leap` when the file holds leap seconds, else `application/tzif`.
    pub fn suggested_media_type(&self) -> (s: &'static str)
        ensures
            s@ == media_type_name(suggested_media_type_of(self@)),
    {
        if self.has_leap_seconds() {
            TzifMediaType::APPLICATION_TZIF_LEAP
        } else {
            TzifMediaType::APPLICATION_TZIF
        }
    }

    /// Validates that the file may be served as `media_type`: a valid file, and no
    /// leap seconds under `application/tzif`.
    pub fn validate_for_media_type(&self, media_type: TzifMediaType) -> (res: Result<(), TzdistError>)
        ensures
            tzdist_agrees(res, spec_validate_for_media_type(self@, media_type)),
    {
        match validate_file(self) {
            Ok(()) => {},
            Err(e) => return Err(TzdistError::InvalidTzif(e)),
        }
        if media_type == TzifMediaType::Tzif && self.has_leap_seconds() {
            return Err(TzdistError::LeapSecondsNotAllowedForApplicationTzif);
        }
        Ok(())
    }
}

/// The outcome of checking that a file has the shape of a TZDIST truncation response:
/// a 64-bit block with transitions whose first (last) transition is the start (end)
/// of the truncation, an empty footer when the end is truncated, a valid file, type 0
/// (the last transition's type) designated `-00` when the start (end) is truncated,
/// and a start before the end.
pub open spec fn spec_validate_truncation(f: FileView, t: TzdistTruncation) -> Result<(), TzdistErrSpec> {
    match f.v2_plus {
        None => Err(Ok(TzdistError::TruncationRequiresVersion2Plus)),
        Some(b) => {
            let times = b.transition_times;
            if times.len() == 0 {
                Err(Ok(TzdistError::TruncationRequiresVersion2PlusTransitions))
            } else if t.start is Some && times[0] != t.start.unwrap() {
                Err(Ok(TzdistError::StartTruncationTransitionMismatch { expected: t.start.unwrap(), actual: times[0] }))
            } else if t.end is Some && times.last() != t.end.unwrap() {
                Err(Ok(TzdistError::EndTruncationTransitionMismatch { expected: t.end.unwrap(), actual: times.last() }))
            } else if t.end is Some && f.footer is Some && f.footer.unwrap().len() > 0 {
                Err(Ok(TzdistError::EndTruncationRequiresEmptyFooter))
            } else if spec_validate_file(f) is Err {
                Err(Err(spec_validate_file(f)->Err_0))
            } else if t.start is Some && !spec_is_placeholder_type(b, 0) {
                Err(Ok(TzdistError::StartTruncationTypeZeroMustBePlaceholder))
            } else if t.end is Some && b.transition_types.len() == 0 {
                Err(Ok(TzdistError::TruncationRequiresVersion2PlusTransitions))
            } else if t.end is Some && !spec_is_placeholder_type(b, b.transition_types.last() as int) {
                Err(Ok(TzdistError::EndTruncationLastTypeMustBePlaceholder))
            } else if t.start is Some && t.end is Some && t.start.unwrap() >= t.end.unwrap() {
                Err(Ok(TzdistError::InvalidTruncationRange { start: t.start.unwrap(), end: t.end.unwrap() }))
            } else {
                Ok(())
            }
        },
    }
}

impl TzifFile {
    /// Validates the structural TZif requirements of a TZDIST truncation response.
    pub fn validate_tzdist_truncation(&self, truncation: TzdistTruncation) -> (res: Result<(), TzdistError>)
        ensures
            tzdist_agrees(res, spec_validate_truncation(self@, truncation)),
    {
        let block = match &self.v2_plus {
            Some(b) => b,
            None => return Err(TzdistError::TruncationRequiresVersion2Plus),
        };
        let n = block.transition_times.len();
        if n == 0 {
            return Err(TzdistError::TruncationRequiresVersion2PlusTransitions);
        }
        if let Some(start) = truncation.start {
            let first = block.transition_times[0];
            if first != start {
                return Err(TzdistError::StartTruncationTransitionMismatch { expected: start, actual: first });
            }
        }
        if let Some(end) = truncation.end {
            let last = block.transition_times[n - 1];
            if last != end {
                return Err(TzdistError::EndTruncationTransitionMismatch { expected: end, actual: last });
            }
            if let Some(footer) = &self.footer {
                if !str_is_empty(footer.as_str()) {
                    return Err(TzdistError::EndTruncationRequiresEmptyFooter);
                }
            }
        }
        match validate_file(self) {
            Ok(()) => {},
            Err(e) => return Err(TzdistError::InvalidTzif(e)),
        }
        if truncation.start.is_some() && !is_placeholder_type(block, 0) {
            return Err(TzdistError::StartTruncationTypeZeroMustBePlaceholder);
        }
        if truncation.end.is_some() {
            let m = block.transition_types.len();
            if m == 0 {
                return Err(TzdistError::TruncationRequiresVersion2PlusTransitions);
            }
            let last_type = block.transition_types[m - 1];
            if !is_placeholder_type(block, last_type as usize) {
                return Err(TzdistError::EndTruncationLastTypeMustBePlaceholder);
            }
        }
        if let (Some(start), Some(end)) = (truncation.start, truncation.end) {
            if start >= end {
                return Err(TzdistError::InvalidTruncationRange { start, end });
            }
        }
        Ok(())
    }
}

} // verus!
