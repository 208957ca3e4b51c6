use vstd::prelude::*;

use crate::model::Version;

verus! {

/// Errors returned while assembling a file with one of the builders.
#[derive(Debug, PartialEq, Eq)]
pub enum TzifBuildError {
    EmptyDesignation,
    NonAsciiDesignation { designation: String },
    UnsupportedDesignationCharacter { designation: String, character: char },
    DesignationTooShort { designation: String },
    DesignationTooLong { designation: String },
    DuplicateDesignation(String),
    UnknownDesignation(String),
    UnsortedTransitions,
    InvalidUtcOffset,
    PosixOffsetOutOfRange { seconds: i32 },
    TransitionOutOfRangeForVersion { version: Version, timestamp: i64 },
    VersionCannotIncludeFooter { version: Version },
    VersionCannotRepresentFooterExtension { version: Version },
    InvalidPosixMonth { month: u8 },
    InvalidPosixWeek { week: u8 },
    InvalidPosixWeekday { weekday: u8 },
    InvalidPosixJulianDay { day: u16 },
    InvalidPosixZeroBasedDay { day: u16 },
    InvalidPosixTransitionTime { seconds: i32 },
    InvalidTzif(TzifError),
}

/// Errors returned by the TZDIST helpers.
#[derive(Debug, PartialEq, Eq)]
pub enum TzdistError {
    InvalidTzif(TzifError),
    UnsupportedMediaType(String),
    TzifLeapCapabilityRequiresTzif,
    LeapSecondsNotAllowedForApplicationTzif,
    TruncationRequiresVersion2Plus,
    TruncationRequiresVersion2PlusTransitions,
    StartTruncationTransitionMismatch { expected: i64, actual: i64 },
    StartTruncationTypeZeroMustBePlaceholder,
    EndTruncationTransitionMismatch { expected: i64, actual: i64 },
    EndTruncationRequiresEmptyFooter,
    EndTruncationLastTypeMustBePlaceholder,
    InvalidTruncationRange { start: i64, end: i64 },
}

/// Errors returned while reading, writing or validating TZif data.
#[derive(Debug, PartialEq, Eq)]
pub enum TzifError {
    UnexpectedEof { offset: usize, context: &'static str },
    InvalidMagic { offset: usize },
    InvalidVersion(u8),
    VersionMismatch { first: Version, second: Version },
    MissingFooterStart { offset: usize },
    MissingFooterEnd { offset: usize },
    InvalidFooterUtf8,
    TrailingData { offset: usize },
    CountTooLarge { field: &'static str, count: u32 },
    DataBlockLengthOverflow { field: &'static str },
    InvalidDstIndicator { index: usize, value: u8 },
    InvalidBooleanIndicator { field: &'static str, index: usize, value: u8 },
    UnexpectedV2PlusData,
    MissingV2PlusData(Version),
    CountMismatch { field: &'static str, expected: usize, actual: usize },
    CountOverflow { field: &'static str, count: usize },
    EmptyLocalTimeTypes,
    EmptyDesignations,
    TooManyLocalTimeTypes(usize),
    InvalidTransitionType { index: usize, transition_type: u8 },
    InvalidDesignationIndex { index: usize, designation_index: u8 },
    Version1TransitionOutOfRange { index: usize, value: i64 },
    Version1LeapSecondOutOfRange { index: usize, value: i64 },
    TransitionTimesNotAscending { index: usize },
    UnterminatedDesignation { index: usize, designation_index: u8 },
    InvalidUtcOffset { index: usize },
    InvalidDesignation { index: usize, designation: Vec<u8> },
    InvalidUtLocalIndicatorCombination { index: usize },
    FirstLeapSecondOccurrenceNegative { value: i64 },
    LeapSecondOccurrencesNotAscending { index: usize },
    InvalidFirstLeapSecondCorrection { correction: i32 },
    InvalidLeapSecondCorrection { index: usize },
    LeapSecondTruncationRequiresVersion4 { version: Version },
    LeapSecondExpirationRequiresVersion4 { version: Version },
    LeapSecondOccurrenceNotAtMonthEnd { index: usize },
    InvalidFooterAscii,
    InvalidFooterControlByte,
    FooterExtensionRequiresVersion3 { version: Version },
    InvalidFooterSyntax,
    FooterInconsistentWithLastTransition,
}

} // verus!

verus! {

/// A specified error: the error itself, and for `InvalidDesignation` the bytes that its
/// `designation` field holds (the field is a `Vec`, which a specification cannot build).
pub type ErrSpec = (TzifError, Seq<u8>);

/// The specified error `e`, carrying the bytes of its own `designation` field if it has one.
pub open spec fn err(e: TzifError) -> ErrSpec {
    (e, match e {
        TzifError::InvalidDesignation { designation, .. } => designation@,
        _ => Seq::empty(),
    })
}

/// Whether the error `e` is the specified error `s`.
pub open spec fn agrees(e: TzifError, s: ErrSpec) -> bool {
    match (e, s.0) {
        (
            TzifError::InvalidDesignation { index: a, designation: d },
            TzifError::InvalidDesignation { index: b, .. },
        ) => a == b && d@ == s.1,
        _ => e == s.0,
    }
}

/// Whether the result `r` is the specified result `s`.
pub open spec fn outcome_agrees<T>(r: Result<T, TzifError>, s: Result<T, ErrSpec>) -> bool {
    match (r, s) {
        (Ok(a), Ok(b)) => a == b,
        (Err(e), Err(x)) => agrees(e, x),
        _ => false,
    }
}

} // verus!

verus! {

/// The contents of a build error, with its strings as character sequences.
pub enum BuildErrorView {
    EmptyDesignation,
    NonAsciiDesignation(Seq<char>),
    UnsupportedDesignationCharacter(Seq<char>, char),
    DesignationTooShort(Seq<char>),
    DesignationTooLong(Seq<char>),
    DuplicateDesignation(Seq<char>),
    UnknownDesignation(Seq<char>),
    UnsortedTransitions,
    InvalidUtcOffset,
    PosixOffsetOutOfRange(i32),
    TransitionOutOfRangeForVersion(Version, i64),
    VersionCannotIncludeFooter(Version),
    VersionCannotRepresentFooterExtension(Version),
    InvalidPosixMonth(u8),
    InvalidPosixWeek(u8),
    InvalidPosixWeekday(u8),
    InvalidPosixJulianDay(u16),
    InvalidPosixZeroBasedDay(u16),
    InvalidPosixTransitionTime(i32),
    InvalidTzif(TzifError),
}

impl View for TzifBuildError {
    type V = BuildErrorView;

    open spec fn view(&self) -> BuildErrorView {
        match self {
            TzifBuildError::EmptyDesignation => BuildErrorView::EmptyDesignation,
            TzifBuildError::NonAsciiDesignation { designation } => BuildErrorView::NonAsciiDesignation(designation@),
            TzifBuildError::UnsupportedDesignationCharacter { designation, character } =>
                BuildErrorView::UnsupportedDesignationCharacter(designation@, *character),
            TzifBuildError::DesignationTooShort { designation } => BuildErrorView::DesignationTooShort(designation@),
            TzifBuildError::DesignationTooLong { designation } => BuildErrorView::DesignationTooLong(designation@),
            TzifBuildError::DuplicateDesignation(d) => BuildErrorView::DuplicateDesignation(d@),
            TzifBuildError::UnknownDesignation(d) => BuildErrorView::UnknownDesignation(d@),
            TzifBuildError::UnsortedTransitions => BuildErrorView::UnsortedTransitions,
            TzifBuildError::InvalidUtcOffset => BuildErrorView::InvalidUtcOffset,
            TzifBuildError::PosixOffsetOutOfRange { seconds } => BuildErrorView::PosixOffsetOutOfRange(*seconds),
            TzifBuildError::TransitionOutOfRangeForVersion { version, timestamp } =>
                BuildErrorView::TransitionOutOfRangeForVersion(*version, *timestamp),
            TzifBuildError::VersionCannotIncludeFooter { version } => BuildErrorView::VersionCannotIncludeFooter(*version),
            TzifBuildError::VersionCannotRepresentFooterExtension { version } =>
                BuildErrorView::VersionCannotRepresentFooterExtension(*version),
            TzifBuildError::InvalidPosixMonth { month } => BuildErrorView::InvalidPosixMonth(*month),
            TzifBuildError::InvalidPosixWeek { week } => BuildErrorView::InvalidPosixWeek(*week),
            TzifBuildError::InvalidPosixWeekday { weekday } => BuildErrorView::InvalidPosixWeekday(*weekday),
            TzifBuildError::InvalidPosixJulianDay { day } => BuildErrorView::InvalidPosixJulianDay(*day),
            TzifBuildError::InvalidPosixZeroBasedDay { day } => BuildErrorView::InvalidPosixZeroBasedDay(*day),
            TzifBuildError::InvalidPosixTransitionTime { seconds } => BuildErrorView::InvalidPosixTransitionTime(*seconds),
            TzifBuildError::InvalidTzif(e) => BuildErrorView::InvalidTzif(*e),
        }
    }
}

} // verus!
