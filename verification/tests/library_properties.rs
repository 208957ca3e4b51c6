use std::fmt::Debug;

use tzif_codec::{
    DataBlock, InteroperabilityWarning, LeapSecond, LocalTimeType, PosixFooter, PosixTransitionRule,
    PosixTransitionTime, TzdistError, TzdistTruncation, TzifBuildError, TzifBuilder, TzifError, TzifFile,
    TzifMediaType, Version, VersionPolicy,
};

type TestResult = Result<(), String>;

trait AssertOk {
    type Output;
    fn assert_ok(self) -> Result<Self::Output, String>;
}

impl<T, E: Debug> AssertOk for Result<T, E> {
    type Output = T;
    fn assert_ok(self) -> Result<T, String> {
        self.map_err(|err| format!("expected Ok(..), got Err({err:?})"))
    }
}

trait AssertErr {
    type Error;
    fn assert_err(self) -> Result<Self::Error, String>;
}

impl<T: Debug, E> AssertErr for Result<T, E> {
    type Error = E;
    fn assert_err(self) -> Result<E, String> {
        match self {
            Ok(value) => Err(format!("expected Err(..), got Ok({value:?})")),
            Err(err) => Ok(err),
        }
    }
}

const fn ltt(utc_offset: i32, is_dst: bool, designation_index: u8) -> LocalTimeType {
    LocalTimeType {
        utc_offset,
        is_dst,
        designation_index,
    }
}

fn new_york_block() -> DataBlock {
    DataBlock {
        transition_times: vec![-5_000_000_000, 1_710_054_000, 1_730_613_600],
        transition_types: vec![0, 1, 0],
        local_time_types: vec![ltt(-5 * 3600, false, 0), ltt(-4 * 3600, true, 4)],
        designations: b"EST\0EDT\0".to_vec(),
        leap_seconds: vec![],
        standard_wall_indicators: vec![],
        ut_local_indicators: vec![],
    }
}

#[test]
fn serialized_files_parse_back_to_themselves() -> TestResult {
    let file = TzifFile::v2(DataBlock::placeholder(), new_york_block(), "EST5EDT,M3.2.0,M11.1.0");
    let bytes = file.serialize().assert_ok()?;
    assert_eq!(TzifFile::parse(&bytes).assert_ok()?, file);
    Ok(())
}

#[test]
fn parsed_bytes_serialize_back_to_the_same_bytes() -> TestResult {
    let bytes = TzifFile::v3(DataBlock::placeholder(), new_york_block(), "EST5EDT,M3.2.0,M11.1.0")
        .to_bytes()
        .assert_ok()?;
    let parsed = TzifFile::parse(&bytes).assert_ok()?;
    parsed.validate().assert_ok()?;
    assert_eq!(parsed.serialize().assert_ok()?, bytes);
    Ok(())
}

#[test]
fn parser_rejects_nonzero_trailing_bytes_after_footer() -> TestResult {
    let mut bytes = TzifFile::v2(DataBlock::placeholder(), DataBlock::placeholder(), "UTC0")
        .to_bytes()
        .assert_ok()?;
    let len = bytes.len();
    bytes.push(0);
    assert_eq!(
        TzifFile::parse(&bytes).assert_err()?,
        TzifError::TrailingData { offset: len }
    );
    Ok(())
}

#[test]
fn serializing_an_invalid_file_reports_the_validation_error() -> TestResult {
    let mut file = TzifFile::v1(DataBlock::placeholder());
    file.v1.local_time_types.clear();
    assert_eq!(file.validate().assert_err()?, TzifError::EmptyLocalTimeTypes);
    assert_eq!(file.serialize().assert_err()?, TzifError::EmptyLocalTimeTypes);
    Ok(())
}

#[test]
fn media_type_names_map_back_to_their_types() -> TestResult {
    for media_type in [TzifMediaType::Tzif, TzifMediaType::TzifLeap] {
        assert_eq!(TzifMediaType::try_from(media_type.as_str()).assert_ok()?, media_type);
    }
    assert_ne!(TzifMediaType::Tzif.as_str(), TzifMediaType::TzifLeap.as_str());
    Ok(())
}

#[test]
fn valid_files_pass_their_suggested_media_type() -> TestResult {
    let with_leaps = TzifFile::v1(DataBlock {
        leap_seconds: vec![LeapSecond {
            occurrence: 78_796_800,
            correction: 1,
        }],
        ..DataBlock::placeholder()
    });
    let plain = TzifFile::v1(DataBlock::placeholder());
    for file in [with_leaps, plain] {
        let suggested = TzifMediaType::try_from(file.suggested_media_type()).assert_ok()?;
        file.validate_for_media_type(suggested).assert_ok()?;
        file.validate_for_media_type(TzifMediaType::TzifLeap).assert_ok()?;
    }
    Ok(())
}

#[test]
fn capability_list_with_tzif_accepts_leap_type_in_any_order() -> TestResult {
    tzif_codec::validate_tzdist_capability_formats(&[
        "text/calendar",
        TzifMediaType::APPLICATION_TZIF_LEAP,
        TzifMediaType::APPLICATION_TZIF,
    ])
    .assert_ok()?;
    tzif_codec::validate_tzdist_capability_formats(&[]).assert_ok()?;
    tzif_codec::validate_tzdist_capability_formats(&["text/calendar"]).assert_ok()?;
    Ok(())
}

#[test]
fn accepted_truncation_responses_are_valid_files() -> TestResult {
    let file = TzifFile::v2(
        DataBlock::placeholder(),
        DataBlock {
            transition_times: vec![100, 200],
            transition_types: vec![1, 0],
            local_time_types: vec![ltt(0, false, 0), ltt(3_600, false, 4)],
            designations: b"-00\0STD\0".to_vec(),
            leap_seconds: vec![],
            standard_wall_indicators: vec![],
            ut_local_indicators: vec![],
        },
        "",
    );
    file.validate_tzdist_truncation(TzdistTruncation::range(100, 200))
        .assert_ok()?;
    file.validate().assert_ok()?;
    Ok(())
}

#[test]
fn truncation_of_an_invalid_file_reports_the_file_error() -> TestResult {
    let file = TzifFile::v2(
        DataBlock::placeholder(),
        DataBlock {
            transition_times: vec![100],
            transition_types: vec![0],
            local_time_types: vec![ltt(i32::MIN, false, 0)],
            designations: b"-00\0".to_vec(),
            leap_seconds: vec![],
            standard_wall_indicators: vec![],
            ut_local_indicators: vec![],
        },
        "",
    );
    assert_eq!(
        file.validate_tzdist_truncation(TzdistTruncation::start(100))
            .assert_err()?,
        TzdistError::InvalidTzif(TzifError::InvalidUtcOffset { index: 0 })
    );
    Ok(())
}

#[test]
fn automatic_version_is_two_or_three_for_the_extension() -> TestResult {
    let plain = TzifBuilder::transitions()
        .local_time_type("EST", -5 * 3600, false)
        .local_time_type("EDT", -4 * 3600, true)
        .transition(1_710_054_000, "EDT")
        .posix_footer(PosixFooter::daylight_saving(
            "EST",
            -5 * 3600,
            "EDT",
            -4 * 3600,
            PosixTransitionRule::month_weekday(3, 2, 0),
            PosixTransitionRule::month_weekday(11, 1, 0),
        ))
        .build()
        .assert_ok()?;
    assert_eq!(plain.version, Version::V2);

    let extended = TzifBuilder::transitions()
        .local_time_type("EST", -5 * 3600, false)
        .local_time_type("EDT", -4 * 3600, true)
        .transition(1_710_054_000, "EDT")
        .posix_footer(
            PosixFooter::daylight_saving(
                "EST",
                -5 * 3600,
                "EDT",
                -4 * 3600,
                PosixTransitionRule::month_weekday(3, 2, 0),
                PosixTransitionRule::month_weekday(11, 1, 0),
            )
            .start_time(PosixTransitionTime::seconds(-3600)),
        )
        .build()
        .assert_ok()?;
    assert_eq!(extended.version, Version::V3);
    assert_eq!(extended.footer.as_deref(), Some("EST5EDT,M3.2.0/-1,M11.1.0"));
    Ok(())
}

#[test]
fn version_one_block_keeps_only_32_bit_transitions() -> TestResult {
    let tzif = TzifBuilder::transitions()
        .local_time_type("UTC", 0, false)
        .local_time_type("ONE", 3600, false)
        .transition(-5_000_000_000, "ONE")
        .transition(0, "UTC")
        .transition(5_000_000_000, "ONE")
        .build()
        .assert_ok()?;
    assert_eq!(tzif.v1.transition_times, vec![0]);
    assert_eq!(tzif.v1.transition_types, vec![0]);
    let block = tzif.v2_plus.as_ref().ok_or("missing v2+ block")?;
    assert_eq!(block.transition_times, vec![-5_000_000_000, 0, 5_000_000_000]);
    assert_eq!(block.transition_types, vec![1, 0, 1]);
    tzif.to_bytes().assert_ok()?;
    Ok(())
}

#[test]
fn fixed_offset_auto_build_uses_the_same_block_twice() -> TestResult {
    let tzif = TzifBuilder::fixed_offset("AB1", -(3600 + 60 + 1))
        .version_policy(VersionPolicy::default())
        .build()
        .assert_ok()?;
    assert_eq!(tzif.version, Version::V2);
    assert_eq!(tzif.v2_plus.as_ref(), Some(&tzif.v1));
    assert_eq!(tzif.footer.as_deref(), Some("<AB1>1:01:01"));
    tzif.to_bytes().assert_ok()?;
    Ok(())
}

#[test]
fn transition_time_hms_follows_the_sign_of_the_hours() {
    assert_eq!(
        PosixTransitionTime::hms(-1, 30, 15),
        PosixTransitionTime::seconds(-5_415)
    );
    assert_eq!(
        PosixTransitionTime::hms(25, 0, 0),
        PosixTransitionTime::seconds(90_000)
    );
    assert_eq!(
        PosixTransitionTime::hms(1, 60, 0),
        PosixTransitionTime::seconds(i32::MAX)
    );
    assert_eq!(
        PosixTransitionTime::hms(i32::MAX, 0, 0),
        PosixTransitionTime::seconds(i32::MAX)
    );
}

#[test]
fn posix_footer_writes_explicit_daylight_offset_and_minutes() -> TestResult {
    let tzif = TzifBuilder::transitions()
        .local_time_type("LHST", 10 * 3600 + 30 * 60, false)
        .local_time_type("LHDT", 11 * 3600, true)
        .transition(1_712_417_400, "LHST")
        .posix_footer(
            PosixFooter::daylight_saving(
                "LHST",
                10 * 3600 + 30 * 60,
                "LHDT",
                11 * 3600,
                PosixTransitionRule::month_weekday(10, 1, 0),
                PosixTransitionRule::month_weekday(4, 1, 0),
            )
            .end_time(PosixTransitionTime::hms(2, 0, 0)),
        )
        .build()
        .assert_ok()?;
    assert_eq!(
        tzif.footer.as_deref(),
        Some("LHST-10:30LHDT-11,M10.1.0,M4.1.0")
    );
    Ok(())
}

#[test]
fn builder_rejects_too_many_designation_bytes() -> TestResult {
    let mut builder = TzifBuilder::transitions();
    let names: Vec<String> = (0..50).map(|i| format!("Z{i:04}")).collect();
    for name in &names {
        builder = builder.designation(name);
    }
    let err = builder.local_time_type("Z0000", 0, false).build().assert_err()?;
    assert_eq!(
        err,
        TzifBuildError::InvalidTzif(TzifError::CountOverflow {
            field: "charcnt",
            count: 258,
        })
    );
    Ok(())
}

#[test]
fn error_messages_describe_the_error() {
    assert_eq!(
        TzifError::InvalidVersion(0x07).message(),
        "invalid TZif version byte 0x07"
    );
    assert_eq!(
        TzifError::VersionMismatch {
            first: Version::V2,
            second: Version::V3,
        }
        .message(),
        "version mismatch between first header V2 and second header V3"
    );
    assert_eq!(
        TzifError::FirstLeapSecondOccurrenceNegative { value: -5 }.message(),
        "first leap-second occurrence -5 at index 0 must be non-negative"
    );
    assert_eq!(
        TzdistError::UnsupportedMediaType("text/calendar".to_string()).message(),
        "unsupported TZif media type text/calendar"
    );
    assert_eq!(
        TzdistError::InvalidTzif(TzifError::EmptyDesignations).message(),
        "designation table must not be empty"
    );
    assert_eq!(
        TzifBuildError::DuplicateDesignation("UTC".to_string()).message(),
        "duplicate time zone designation \"UTC\""
    );
    assert_eq!(
        TzifBuildError::UnsupportedDesignationCharacter {
            designation: "A B".to_string(),
            character: ' ',
        }
        .message(),
        "time zone designation \"A B\" contains unsupported character ' '"
    );
    assert_eq!(
        TzifBuildError::PosixOffsetOutOfRange { seconds: -90_000 }.message(),
        "UTC offset -90000 cannot be represented in a POSIX TZ footer"
    );
}

#[test]
fn interoperability_warnings_are_sorted_without_repeats() -> TestResult {
    let file = TzifFile::v2(
        DataBlock {
            transition_times: vec![-100, -50],
            transition_types: vec![1, 1],
            local_time_types: vec![ltt(30, false, 0), ltt(-1800, true, 3)],
            designations: b"AB\0-00\0XY\0".to_vec(),
            leap_seconds: vec![],
            standard_wall_indicators: vec![],
            ut_local_indicators: vec![],
        },
        DataBlock {
            transition_times: vec![i64::MIN, -50],
            transition_types: vec![1, 1],
            local_time_types: vec![ltt(30, false, 0), ltt(-1800, true, 3)],
            designations: b"AB\0-00\0XY\0".to_vec(),
            leap_seconds: vec![],
            standard_wall_indicators: vec![],
            ut_local_indicators: vec![],
        },
        "",
    );
    file.validate().assert_err()?;

    let file = TzifFile::v2(
        DataBlock::placeholder(),
        DataBlock {
            transition_times: vec![i64::MIN, -50],
            transition_types: vec![1, 1],
            local_time_types: vec![ltt(30, false, 0), ltt(-1800, true, 4)],
            designations: b"ABC\0-00\0".to_vec(),
            leap_seconds: vec![],
            standard_wall_indicators: vec![],
            ut_local_indicators: vec![],
        },
        "",
    );
    let warnings = file.interoperability_warnings().assert_ok()?;
    let mut expected = warnings.clone();
    expected.sort();
    expected.dedup();
    assert_eq!(warnings, expected);
    assert!(warnings.contains(&InteroperabilityWarning::MinimumI64Transition {
        block: "v2_plus",
        index: 0,
    }));
    assert!(warnings.contains(&InteroperabilityWarning::DaylightOffsetLessThanStandardOffset {
        block: "v2_plus",
        daylight_offset: -1800,
        standard_offset: 30,
    }));
    assert!(warnings.contains(&InteroperabilityWarning::UnspecifiedLocalTimeDesignation {
        block: "v2_plus",
        index: 1,
    }));
    assert!(warnings.contains(&InteroperabilityWarning::NegativeSubHourOffset {
        block: "v2_plus",
        index: 1,
        offset: -1800,
    }));
    Ok(())
}

#[test]
fn interoperability_warnings_name_non_ascii_and_short_designations() -> TestResult {
    let file = TzifFile::v1(DataBlock {
        transition_times: vec![],
        transition_types: vec![],
        local_time_types: vec![ltt(0, false, 0)],
        designations: b"-00\0".to_vec(),
        leap_seconds: vec![],
        standard_wall_indicators: vec![],
        ut_local_indicators: vec![],
    });
    let warnings = file.interoperability_warnings().assert_ok()?;
    assert_eq!(
        warnings,
        vec![InteroperabilityWarning::UnspecifiedLocalTimeDesignation {
            block: "v1",
            index: 0,
        }]
    );

    let invalid = TzifFile::v1(DataBlock {
        designations: "Ü\0".as_bytes().to_vec(),
        ..DataBlock::placeholder()
    });
    assert!(matches!(
        invalid.interoperability_warnings().assert_err()?,
        TzifError::InvalidDesignation { index: 0, .. }
    ));
    Ok(())
}

#[test]
fn transition_times_with_the_same_seconds_are_equal() {
    assert_eq!(PosixTransitionTime::hms(1, 30, 0), PosixTransitionTime::seconds(5_400));
    assert_eq!(PosixTransitionTime::hms(2, 0, 0), PosixTransitionTime::seconds(7_200));
    let footer = PosixFooter::daylight_saving(
        "EST",
        -5 * 3600,
        "EDT",
        -4 * 3600,
        PosixTransitionRule::month_weekday(3, 2, 0),
        PosixTransitionRule::month_weekday(11, 1, 0),
    );
    assert_eq!(
        footer.clone().start_time(PosixTransitionTime::seconds(7_200)),
        footer
    );
    assert_eq!(footer.clone().end_time(PosixTransitionTime::hms(2, 0, 0)), footer);
}

#[test]
fn footer_valid_in_version_two_stays_valid_later() -> TestResult {
    for footer in ["", "EST5EDT,M3.2.0,M11.1.0"] {
        let v2 = TzifFile::v2(DataBlock::placeholder(), new_york_block(), footer);
        v2.validate().assert_ok()?;
        TzifFile::v3(DataBlock::placeholder(), new_york_block(), footer)
            .validate()
            .assert_ok()?;
        TzifFile::v4(DataBlock::placeholder(), new_york_block(), footer)
            .validate()
            .assert_ok()?;
    }
    Ok(())
}

#[test]
fn serialized_layout_frames_headers_and_footer() -> TestResult {
    let file = TzifFile::v2(DataBlock::placeholder(), new_york_block(), "EST5EDT,M3.2.0,M11.1.0");
    let bytes = file.serialize().assert_ok()?;
    let n1 = 6 + 1;
    assert_eq!(&bytes[0..4], b"TZif");
    assert_eq!(bytes[4], b'2');
    assert!(bytes[5..20].iter().all(|&b| b == 0));
    assert_eq!(&bytes[44 + n1..48 + n1], b"TZif");
    assert_eq!(bytes[48 + n1], b'2');
    assert!(bytes.ends_with(b"\nEST5EDT,M3.2.0,M11.1.0\n"));
    let n2 = 3 * 8 + 3 + 2 * 6 + 8;
    assert_eq!(bytes.len(), 88 + n1 + n2 + "EST5EDT,M3.2.0,M11.1.0".len() + 2);
    Ok(())
}

#[test]
fn explicit_builds_encode_their_designation_tables() -> TestResult {
    let tzif = TzifBuilder::transitions()
        .designation("-00")
        .designation("AB+1")
        .local_time_type("AB+1", 3600, false)
        .local_time_type("-00", 0, false)
        .local_time_type("XYZ", 7200, true)
        .transition(0, "XYZ")
        .build()
        .assert_ok()?;
    let block = tzif.v2_plus.as_ref().ok_or("missing v2+ block")?;
    assert_eq!(block.designations, b"-00\0AB+1\0XYZ\0".to_vec());
    assert_eq!(
        block.local_time_types,
        vec![ltt(3600, false, 4), ltt(0, false, 0), ltt(7200, true, 9)]
    );
    tzif.to_bytes().assert_ok()?;
    Ok(())
}
