use vstd::prelude::*;
use vstd::string::StringExecFns;

use crate::builder::{decimal, push_decimal};
use crate::error::{TzdistError, TzifBuildError, TzifError};
use crate::interop::is_ascii_bytes;
use crate::model::Version;

verus! {

/// The decimal text of a signed number.
pub open spec fn signed_decimal(n: int) -> Seq<u8> {
    if n < 0 {
        seq![0x2du8] + decimal((-n) as nat)
    } else {
        decimal(n as nat)
    }
}

/// A number as text.
pub open spec fn num(n: int) -> Seq<char> {
    vstd::utf8::decode_utf8(signed_decimal(n))
}

pub open spec fn hex_digit(d: int) -> u8 {
    if d < 10 {
        (0x30 + d) as u8
    } else {
        (0x61 + d - 10) as u8
    }
}

/// A byte as two lower-case hexadecimal digits.
pub open spec fn hex2(b: u8) -> Seq<char> {
    vstd::utf8::decode_utf8(seq![hex_digit((b / 16) as int), hex_digit((b % 16) as int)])
}

/// A version's name, as `{:?}` writes it.
pub open spec fn version_name(v: Version) -> Seq<char> {
    match v {
        Version::V1 => "V1"@,
        Version::V2 => "V2"@,
        Version::V3 => "V3"@,
        Version::V4 => "V4"@,
    }
}

proof fn lemma_decimal_ascii(n: nat)
    ensures
        is_ascii_bytes(decimal(n)),
    decreases n,
{
    if n >= 10 {
        lemma_decimal_ascii(n / 10);
    }
}

fn push_number(msg: &mut String, n: i128)
    requires
        -0x1_0000_0000_0000_0000 < n < 0x1_0000_0000_0000_0000,
    ensures
        final(msg)@ == old(msg)@ + num(n as int),
{
    let mut bytes: Vec<u8> = Vec::new();
    if n < 0 {
        bytes.push(0x2d);
    }
    let a: u64 = if n < 0 { (-n) as u64 } else { n as u64 };
    push_decimal(&mut bytes, a);
    proof {
        lemma_decimal_ascii(a as nat);
        assert(bytes@ =~= signed_decimal(n as int));
    }
    let text = crate::text::ascii_string(bytes);
    msg.append(text.as_str());
}

fn push_hex2(msg: &mut String, b: u8)
    ensures
        final(msg)@ == old(msg)@ + hex2(b),
{
    let hi = b / 16;
    let lo = b % 16;
    let mut bytes: Vec<u8> = Vec::new();
    bytes.push(if hi < 10 { 0x30 + hi } else { 0x61 + hi - 10 });
    bytes.push(if lo < 10 { 0x30 + lo } else { 0x61 + lo - 10 });
    assert(bytes@ =~= seq![hex_digit((b / 16) as int), hex_digit((b % 16) as int)]);
    let text = crate::text::ascii_string(bytes);
    msg.append(text.as_str());
}

fn push_version(msg: &mut String, v: Version)
    ensures
        final(msg)@ == old(msg)@ + version_name(v),
{
    match v {
        Version::V1 => msg.append("V1"),
        Version::V2 => msg.append("V2"),
        Version::V3 => msg.append("V3"),
        Version::V4 => msg.append("V4"),
    }
}

/// What `{:?}` writes for a string: the characters in double quotes, with quotes,
/// backslashes and characters that do not print escaped.
pub uninterp spec fn debug_quoted(s: Seq<char>) -> Seq<char>;

/// What `{:?}` writes for a character: the character in single quotes, escaped as for
/// strings.
pub uninterp spec fn debug_char(c: char) -> Seq<char>;

/// Formats a string with `{:?}` (the `Debug` impl of `str`). The result depends on the
/// characters alone; the escaping rules, which rest on Unicode tables, are left unstated.
#[verifier::external_body]
fn debug_str(s: &str) -> (r: String)
    ensures
        r@ == debug_quoted(s@),
{
    format!("{s:?}")
}

/// Formats a character with `{:?}` (the `Debug` impl of `char`). The result depends on
/// the character alone; the escaping rules are left unstated.
#[verifier::external_body]
fn debug_char_text(c: char) -> (r: String)
    ensures
        r@ == debug_char(c),
{
    format!("{c:?}")
}

/// The message of a TZif error.
pub open spec fn tzif_message(e: TzifError) -> Seq<char> {
    match e {
        TzifError::UnexpectedEof { offset, context } => "input ended unexpectedly at byte "@ + num(offset as int) + " while reading "@ + context@,
        TzifError::InvalidMagic { offset } => "expected TZif magic at byte "@ + num(offset as int),
        TzifError::InvalidVersion(b) => "invalid TZif version byte 0x"@ + hex2(b),
        TzifError::VersionMismatch { first, second } => "version mismatch between first header "@ + version_name(first) + " and second header "@ + version_name(second),
        TzifError::MissingFooterStart { offset } => "expected newline at byte "@ + num(offset as int) + " before TZif footer"@,
        TzifError::MissingFooterEnd { offset } => "missing newline terminator for TZif footer starting at byte "@ + num(offset as int),
        TzifError::InvalidFooterUtf8 => "TZif footer is not valid UTF-8"@,
        TzifError::TrailingData { offset } => "trailing data starts at byte "@ + num(offset as int),
        TzifError::CountTooLarge { field, count } => field@ + " count "@ + num(count as int) + " cannot fit in memory on this platform"@,
        TzifError::DataBlockLengthOverflow { field } => "data block byte length overflow while calculating "@ + field@,
        TzifError::InvalidDstIndicator { index, value } => "local time type "@ + num(index as int) + " has invalid isdst value "@ + num(value as int),
        TzifError::InvalidBooleanIndicator { field, index, value } => field@ + " indicator "@ + num(index as int) + " has invalid value "@ + num(value as int),
        TzifError::UnexpectedV2PlusData => "version 1 files must not include a v2+ data block or footer"@,
        TzifError::MissingV2PlusData(v) => "version "@ + version_name(v) + " files must include a v2+ data block and footer"@,
        TzifError::CountMismatch { field, expected, actual } => field@ + " has "@ + num(actual as int) + " entries, but expected "@ + num(expected as int),
        TzifError::CountOverflow { field, count } => field@ + " count "@ + num(count as int) + " exceeds TZif u32 count range"@,
        TzifError::EmptyLocalTimeTypes => "local time type count must not be zero"@,
        TzifError::EmptyDesignations => "designation table must not be empty"@,
        TzifError::TooManyLocalTimeTypes(n) => "local time type count "@ + num(n as int) + " exceeds 256"@,
        TzifError::InvalidTransitionType { index, transition_type } => "transition type "@ + num(transition_type as int) + " at index "@ + num(index as int) + " does not reference a local time type"@,
        TzifError::InvalidDesignationIndex { index, designation_index } => "designation index "@ + num(designation_index as int) + " at local time type "@ + num(index as int) + " is out of range"@,
        TzifError::Version1TransitionOutOfRange { index, value } => "transition time "@ + num(value as int) + " at index "@ + num(index as int) + " is outside the version 1 i32 range"@,
        TzifError::Version1LeapSecondOutOfRange { index, value } => "leap-second occurrence "@ + num(value as int) + " at index "@ + num(index as int) + " is outside the version 1 i32 range"@,
        TzifError::TransitionTimesNotAscending { index } => "transition time at index "@ + num(index as int) + " is not strictly ascending"@,
        TzifError::UnterminatedDesignation { index, designation_index } => "designation index "@ + num(designation_index as int) + " at local time type "@ + num(index as int) + " has no NUL terminator"@,
        TzifError::InvalidUtcOffset { index } => "local time type "@ + num(index as int) + " has invalid UTC offset -2^31"@,
        TzifError::InvalidDesignation { index, .. } => "time zone designation at local time type "@ + num(index as int) + " violates RFC 9636 designation requirements"@,
        TzifError::InvalidUtLocalIndicatorCombination { index } => "UT/local indicator "@ + num(index as int) + " is set without the corresponding standard/wall indicator"@,
        TzifError::FirstLeapSecondOccurrenceNegative { value } => "first leap-second occurrence "@ + num(value as int) + " at index 0 must be non-negative"@,
        TzifError::LeapSecondOccurrencesNotAscending { index } => "leap-second occurrence at index "@ + num(index as int) + " is not strictly ascending"@,
        TzifError::InvalidFirstLeapSecondCorrection { correction } => "first leap-second correction "@ + num(correction as int) + " must be +1 or -1 unless using version 4 truncation"@,
        TzifError::InvalidLeapSecondCorrection { index } => "leap-second correction at index "@ + num(index as int) + " must differ from the previous correction by +1 or -1"@,
        TzifError::LeapSecondTruncationRequiresVersion4 { version } => "version "@ + version_name(version) + " cannot contain a leap-second table truncated at the start"@,
        TzifError::LeapSecondExpirationRequiresVersion4 { version } => "version "@ + version_name(version) + " cannot contain a leap-second table expiration time"@,
        TzifError::LeapSecondOccurrenceNotAtMonthEnd { index } => "leap-second occurrence at index "@ + num(index as int) + " does not occur at a UTC month boundary"@,
        TzifError::InvalidFooterAscii => "TZif footer must be ASCII"@,
        TzifError::InvalidFooterControlByte => "TZif footer must not contain NUL or newline bytes"@,
        TzifError::FooterExtensionRequiresVersion3 { version } => "TZif version "@ + version_name(version) + " cannot use the POSIX TZ string extension"@,
        TzifError::InvalidFooterSyntax => "TZif footer is not a valid POSIX TZ string"@,
        TzifError::FooterInconsistentWithLastTransition => "TZif footer is inconsistent with the last transition type"@,
    }
}

/// The message of a TZDIST error; an invalid file is described by its own error.
pub open spec fn tzdist_message(e: TzdistError) -> Seq<char> {
    match e {
        TzdistError::UnsupportedMediaType(s) => "unsupported TZif media type "@ + s@,
        TzdistError::TzifLeapCapabilityRequiresTzif => "TZDIST capabilities must advertise application/tzif when advertising application/tzif-leap"@,
        TzdistError::LeapSecondsNotAllowedForApplicationTzif => "application/tzif MUST NOT contain leap-second records; use application/tzif-leap"@,
        TzdistError::TruncationRequiresVersion2Plus => "TZDIST truncation requires a version 2 or later TZif file"@,
        TzdistError::TruncationRequiresVersion2PlusTransitions => "TZDIST truncation requires at least one version 2+ transition"@,
        TzdistError::StartTruncationTransitionMismatch { expected, actual } => "start truncation transition mismatch: expected "@ + num(expected as int) + ", got "@ + num(actual as int),
        TzdistError::StartTruncationTypeZeroMustBePlaceholder => "start truncation requires time type 0 to be a -00 placeholder"@,
        TzdistError::EndTruncationTransitionMismatch { expected, actual } => "end truncation transition mismatch: expected "@ + num(expected as int) + ", got "@ + num(actual as int),
        TzdistError::EndTruncationRequiresEmptyFooter => "end truncation requires an empty TZ string footer"@,
        TzdistError::EndTruncationLastTypeMustBePlaceholder => "end truncation requires the last transition type to be a -00 placeholder"@,
        TzdistError::InvalidTruncationRange { start, end } => "invalid TZDIST truncation range: start "@ + num(start as int) + " must be before end "@ + num(end as int),
        TzdistError::InvalidTzif(inner) => tzif_message(inner),
    }
}

/// The message of a build error; an invalid file is described by its own error.
pub open spec fn build_message(e: TzifBuildError) -> Seq<char> {
    match e {
        TzifBuildError::EmptyDesignation => "time zone designation must not be empty"@,
        TzifBuildError::NonAsciiDesignation { designation } => "time zone designation "@ + debug_quoted(designation@) + " must be ASCII"@,
        TzifBuildError::UnsupportedDesignationCharacter { designation, character } => "time zone designation "@ + debug_quoted(designation@) + " contains unsupported character "@ + debug_char(character),
        TzifBuildError::DesignationTooShort { designation } => "time zone designation "@ + debug_quoted(designation@) + " must be at least 3 characters"@,
        TzifBuildError::DesignationTooLong { designation } => "time zone designation "@ + debug_quoted(designation@) + " must be at most 6 characters"@,
        TzifBuildError::DuplicateDesignation(d) => "duplicate time zone designation "@ + debug_quoted(d@),
        TzifBuildError::UnknownDesignation(d) => "unknown time zone designation "@ + debug_quoted(d@),
        TzifBuildError::UnsortedTransitions => "explicit transition times must be sorted in ascending order"@,
        TzifBuildError::InvalidUtcOffset => "UTC offset -2^31 is not valid in TZif local time types"@,
        TzifBuildError::PosixOffsetOutOfRange { seconds } => "UTC offset "@ + num(seconds as int) + " cannot be represented in a POSIX TZ footer"@,
        TzifBuildError::TransitionOutOfRangeForVersion { version, timestamp } => "TZif version "@ + version_name(version) + " cannot represent transition timestamp "@ + num(timestamp as int),
        TzifBuildError::VersionCannotIncludeFooter { version } => "TZif version "@ + version_name(version) + " cannot include a footer"@,
        TzifBuildError::VersionCannotRepresentFooterExtension { version } => "TZif version "@ + version_name(version) + " cannot represent the POSIX TZ string extension"@,
        TzifBuildError::InvalidPosixMonth { month } => "POSIX TZ month "@ + num(month as int) + " is outside the range 1..=12"@,
        TzifBuildError::InvalidPosixWeek { week } => "POSIX TZ week "@ + num(week as int) + " is outside the range 1..=5"@,
        TzifBuildError::InvalidPosixWeekday { weekday } => "POSIX TZ weekday "@ + num(weekday as int) + " is outside the range 0..=6"@,
        TzifBuildError::InvalidPosixJulianDay { day } => "POSIX TZ Julian day "@ + num(day as int) + " is outside the range 1..=365"@,
        TzifBuildError::InvalidPosixZeroBasedDay { day } => "POSIX TZ zero-based day "@ + num(day as int) + " is outside the range 0..=365"@,
        TzifBuildError::InvalidPosixTransitionTime { seconds } => "POSIX TZ transition time "@ + num(seconds as int) + " seconds is outside the supported range"@,
        TzifBuildError::InvalidTzif(inner) => tzif_message(inner),
    }
}

impl TzifError {
    /// A description of the error.
    pub fn message(&self) -> (m: String)
        ensures
            m@ == tzif_message(*self),
    {
        let mut msg = String::new();
        match self {
            TzifError::UnexpectedEof { offset, context } => {
                msg.append("input ended unexpectedly at byte ");
                push_number(&mut msg, *offset as i128);
                msg.append(" while reading ");
                msg.append(context);
            },
            TzifError::InvalidMagic { offset } => {
                msg.append("expected TZif magic at byte ");
                push_number(&mut msg, *offset as i128);
            },
            TzifError::InvalidVersion(b) => {
                msg.append("invalid TZif version byte 0x");
                push_hex2(&mut msg, *b);
            },
            TzifError::VersionMismatch { first, second } => {
                msg.append("version mismatch between first header ");
                push_version(&mut msg, *first);
                msg.append(" and second header ");
                push_version(&mut msg, *second);
            },
            TzifError::MissingFooterStart { offset } => {
                msg.append("expected newline at byte ");
                push_number(&mut msg, *offset as i128);
                msg.append(" before TZif footer");
            },
            TzifError::MissingFooterEnd { offset } => {
                msg.append("missing newline terminator for TZif footer starting at byte ");
                push_number(&mut msg, *offset as i128);
            },
            TzifError::InvalidFooterUtf8 => {
                msg.append("TZif footer is not valid UTF-8");
            },
            TzifError::TrailingData { offset } => {
                msg.append("trailing data starts at byte ");
                push_number(&mut msg, *offset as i128);
            },
            TzifError::CountTooLarge { field, count } => {
                msg.append(field);
                msg.append(" count ");
                push_number(&mut msg, *count as i128);
                msg.append(" cannot fit in memory on this platform");
            },
            TzifError::DataBlockLengthOverflow { field } => {
                msg.append("data block byte length overflow while calculating ");
                msg.append(field);
            },
            TzifError::InvalidDstIndicator { index, value } => {
                msg.append("local time type ");
                push_number(&mut msg, *index as i128);
                msg.append(" has invalid isdst value ");
                push_number(&mut msg, *value as i128);
            },
            TzifError::InvalidBooleanIndicator { field, index, value } => {
                msg.append(field);
                msg.append(" indicator ");
                push_number(&mut msg, *index as i128);
                msg.append(" has invalid value ");
                push_number(&mut msg, *value as i128);
            },
            TzifError::UnexpectedV2PlusData => {
                msg.append("version 1 files must not include a v2+ data block or footer");
            },
            TzifError::MissingV2PlusData(v) => {
                msg.append("version ");
                push_version(&mut msg, *v);
                msg.append(" files must include a v2+ data block and footer");
            },
            TzifError::CountMismatch { field, expected, actual } => {
                msg.append(field);
                msg.append(" has ");
                push_number(&mut msg, *actual as i128);
                msg.append(" entries, but expected ");
                push_number(&mut msg, *expected as i128);
            },
            TzifError::CountOverflow { field, count } => {
                msg.append(field);
                msg.append(" count ");
                push_number(&mut msg, *count as i128);
                msg.append(" exceeds TZif u32 count range");
            },
            TzifError::EmptyLocalTimeTypes => {
                msg.append("local time type count must not be zero");
            },
            TzifError::EmptyDesignations => {
                msg.append("designation table must not be empty");
            },
            TzifError::TooManyLocalTimeTypes(n) => {
                msg.append("local time type count ");
                push_number(&mut msg, *n as i128);
                msg.append(" exceeds 256");
            },
            TzifError::InvalidTransitionType { index, transition_type } => {
                msg.append("transition type ");
                push_number(&mut msg, *transition_type as i128);
                msg.append(" at index ");
                push_number(&mut msg, *index as i128);
                msg.append(" does not reference a local time type");
            },
            TzifError::InvalidDesignationIndex { index, designation_index } => {
                msg.append("designation index ");
                push_number(&mut msg, *designation_index as i128);
                msg.append(" at local time type ");
                push_number(&mut msg, *index as i128);
                msg.append(" is out of range");
            },
            TzifError::Version1TransitionOutOfRange { index, value } => {
                msg.append("transition time ");
                push_number(&mut msg, *value as i128);
                msg.append(" at index ");
                push_number(&mut msg, *index as i128);
                msg.append(" is outside the version 1 i32 range");
            },
            TzifError::Version1LeapSecondOutOfRange { index, value } => {
                msg.append("leap-second occurrence ");
                push_number(&mut msg, *value as i128);
                msg.append(" at index ");
                push_number(&mut msg, *index as i128);
                msg.append(" is outside the version 1 i32 range");
            },
            TzifError::TransitionTimesNotAscending { index } => {
                msg.append("transition time at index ");
                push_number(&mut msg, *index as i128);
                msg.append(" is not strictly ascending");
            },
            TzifError::UnterminatedDesignation { index, designation_index } => {
                msg.append("designation index ");
                push_number(&mut msg, *designation_index as i128);
                msg.append(" at local time type ");
                push_number(&mut msg, *index as i128);
                msg.append(" has no NUL terminator");
            },
            TzifError::InvalidUtcOffset { index } => {
                msg.append("local time type ");
                push_number(&mut msg, *index as i128);
                msg.append(" has invalid UTC offset -2^31");
            },
            TzifError::InvalidDesignation { index, .. } => {
                msg.append("time zone designation at local time type ");
                push_number(&mut msg, *index as i128);
                msg.append(" violates RFC 9636 designation requirements");
            },
            TzifError::InvalidUtLocalIndicatorCombination { index } => {
                msg.append("UT/local indicator ");
                push_number(&mut msg, *index as i128);
                msg.append(" is set without the corresponding standard/wall indicator");
            },
            TzifError::FirstLeapSecondOccurrenceNegative { value } => {
                msg.append("first leap-second occurrence ");
                push_number(&mut msg, *value as i128);
                msg.append(" at index 0 must be non-negative");
            },
            TzifError::LeapSecondOccurrencesNotAscending { index } => {
                msg.append("leap-second occurrence at index ");
                push_number(&mut msg, *index as i128);
                msg.append(" is not strictly ascending");
            },
            TzifError::InvalidFirstLeapSecondCorrection { correction } => {
                msg.append("first leap-second correction ");
                push_number(&mut msg, *correction as i128);
                msg.append(" must be +1 or -1 unless using version 4 truncation");
            },
            TzifError::InvalidLeapSecondCorrection { index } => {
                msg.append("leap-second correction at index ");
                push_number(&mut msg, *index as i128);
                msg.append(" must differ from the previous correction by +1 or -1");
            },
            TzifError::LeapSecondTruncationRequiresVersion4 { version } => {
                msg.append("version ");
                push_version(&mut msg, *version);
                msg.append(" cannot contain a leap-second table truncated at the start");
            },
            TzifError::LeapSecondExpirationRequiresVersion4 { version } => {
                msg.append("version ");
                push_version(&mut msg, *version);
                msg.append(" cannot contain a leap-second table expiration time");
            },
            TzifError::LeapSecondOccurrenceNotAtMonthEnd { index } => {
                msg.append("leap-second occurrence at index ");
                push_number(&mut msg, *index as i128);
                msg.append(" does not occur at a UTC month boundary");
            },
            TzifError::InvalidFooterAscii => {
                msg.append("TZif footer must be ASCII");
            },
            TzifError::InvalidFooterControlByte => {
                msg.append("TZif footer must not contain NUL or newline bytes");
            },
            TzifError::FooterExtensionRequiresVersion3 { version } => {
                msg.append("TZif version ");
                push_version(&mut msg, *version);
                msg.append(" cannot use the POSIX TZ string extension");
            },
            TzifError::InvalidFooterSyntax => {
                msg.append("TZif footer is not a valid POSIX TZ string");
            },
            TzifError::FooterInconsistentWithLastTransition => {
                msg.append("TZif footer is inconsistent with the last transition type");
            },
        }
        msg
    }
}

impl TzdistError {
    /// A description of the error.
    pub fn message(&self) -> (m: String)
        ensures
            m@ == tzdist_message(*self),
    {
        let mut msg = String::new();
        match self {
            TzdistError::InvalidTzif(inner) => {
                return inner.message();
            },
            TzdistError::UnsupportedMediaType(s) => {
                msg.append("unsupported TZif media type ");
                msg.append(s.as_str());
            },
            TzdistError::TzifLeapCapabilityRequiresTzif => {
                msg.append("TZDIST capabilities must advertise application/tzif when advertising application/tzif-leap");
            },
            TzdistError::LeapSecondsNotAllowedForApplicationTzif => {
                msg.append("application/tzif MUST NOT contain leap-second records; use application/tzif-leap");
            },
            TzdistError::TruncationRequiresVersion2Plus => {
                msg.append("TZDIST truncation requires a version 2 or later TZif file");
            },
            TzdistError::TruncationRequiresVersion2PlusTransitions => {
                msg.append("TZDIST truncation requires at least one version 2+ transition");
            },
            TzdistError::StartTruncationTransitionMismatch { expected, actual } => {
                msg.append("start truncation transition mismatch: expected ");
                push_number(&mut msg, *expected as i128);
                msg.append(", got ");
                push_number(&mut msg, *actual as i128);
            },
            TzdistError::StartTruncationTypeZeroMustBePlaceholder => {
                msg.append("start truncation requires time type 0 to be a -00 placeholder");
            },
            TzdistError::EndTruncationTransitionMismatch { expected, actual } => {
                msg.append("end truncation transition mismatch: expected ");
                push_number(&mut msg, *expected as i128);
                msg.append(", got ");
                push_number(&mut msg, *actual as i128);
            },
            TzdistError::EndTruncationRequiresEmptyFooter => {
                msg.append("end truncation requires an empty TZ string footer");
            },
            TzdistError::EndTruncationLastTypeMustBePlaceholder => {
                msg.append("end truncation requires the last transition type to be a -00 placeholder");
            },
            TzdistError::InvalidTruncationRange { start, end } => {
                msg.append("invalid TZDIST truncation range: start ");
                push_number(&mut msg, *start as i128);
                msg.append(" must be before end ");
                push_number(&mut msg, *end as i128);
            },
        }
        msg
    }
}

impl TzifBuildError {
    /// A description of the error.
    pub fn message(&self) -> (m: String)
        ensures
            m@ == build_message(*self),
    {
        let mut msg = String::new();
        match self {
            TzifBuildError::InvalidTzif(inner) => {
                return inner.message();
            },
            TzifBuildError::EmptyDesignation => {
                msg.append("time zone designation must not be empty");
            },
            TzifBuildError::NonAsciiDesignation { designation } => {
                msg.append("time zone designation ");
                msg.append(debug_str(designation.as_str()).as_str());
                msg.append(" must be ASCII");
            },
            TzifBuildError::UnsupportedDesignationCharacter { designation, character } => {
                msg.append("time zone designation ");
                msg.append(debug_str(designation.as_str()).as_str());
                msg.append(" contains unsupported character ");
                msg.append(debug_char_text(*character).as_str());
            },
            TzifBuildError::DesignationTooShort { designation } => {
                msg.append("time zone designation ");
                msg.append(debug_str(designation.as_str()).as_str());
                msg.append(" must be at least 3 characters");
            },
            TzifBuildError::DesignationTooLong { designation } => {
                msg.append("time zone designation ");
                msg.append(debug_str(designation.as_str()).as_str());
                msg.append(" must be at most 6 characters");
            },
            TzifBuildError::DuplicateDesignation(d) => {
                msg.append("duplicate time zone designation ");
                msg.append(debug_str(d.as_str()).as_str());
            },
            TzifBuildError::UnknownDesignation(d) => {
                msg.append("unknown time zone designation ");
                msg.append(debug_str(d.as_str()).as_str());
            },
            TzifBuildError::UnsortedTransitions => {
                msg.append("explicit transition times must be sorted in ascending order");
            },
            TzifBuildError::InvalidUtcOffset => {
                msg.append("UTC offset -2^31 is not valid in TZif local time types");
            },
            TzifBuildError::PosixOffsetOutOfRange { seconds } => {
                msg.append("UTC offset ");
                push_number(&mut msg, *seconds as i128);
                msg.append(" cannot be represented in a POSIX TZ footer");
            },
            TzifBuildError::TransitionOutOfRangeForVersion { version, timestamp } => {
                msg.append("TZif version ");
                push_version(&mut msg, *version);
                msg.append(" cannot represent transition timestamp ");
                push_number(&mut msg, *timestamp as i128);
            },
            TzifBuildError::VersionCannotIncludeFooter { version } => {
                msg.append("TZif version ");
                push_version(&mut msg, *version);
                msg.append(" cannot include a footer");
            },
            TzifBuildError::VersionCannotRepresentFooterExtension { version } => {
                msg.append("TZif version ");
                push_version(&mut msg, *version);
                msg.append(" cannot represent the POSIX TZ string extension");
            },
            TzifBuildError::InvalidPosixMonth { month } => {
                msg.append("POSIX TZ month ");
                push_number(&mut msg, *month as i128);
                msg.append(" is outside the range 1..=12");
            },
            TzifBuildError::InvalidPosixWeek { week } => {
                msg.append("POSIX TZ week ");
                push_number(&mut msg, *week as i128);
                msg.append(" is outside the range 1..=5");
            },
            TzifBuildError::InvalidPosixWeekday { weekday } => {
                msg.append("POSIX TZ weekday ");
                push_number(&mut msg, *weekday as i128);
                msg.append(" is outside the range 0..=6");
            },
            TzifBuildError::InvalidPosixJulianDay { day } => {
                msg.append("POSIX TZ Julian day ");
                push_number(&mut msg, *day as i128);
                msg.append(" is outside the range 1..=365");
            },
            TzifBuildError::InvalidPosixZeroBasedDay { day } => {
                msg.append("POSIX TZ zero-based day ");
                push_number(&mut msg, *day as i128);
                msg.append(" is outside the range 0..=365");
            },
            TzifBuildError::InvalidPosixTransitionTime { seconds } => {
                msg.append("POSIX TZ transition time ");
                push_number(&mut msg, *seconds as i128);
                msg.append(" seconds is outside the supported range");
            },
        }
        msg
    }
}

} // verus!
