use std::fmt::Debug;

type TestResult = Result<(), String>;

#[allow(dead_code)]
trait AssertOk {
    type Output;
    fn assert_ok(self) -> Result<Self::Output, String>;
}

impl<T, E: Debug> AssertOk for Result<T, E> {
    type Output = T;
    fn assert_ok(self) -> Result<T, String> {
        self.map_err(|err| format!("expected Ok(..), got Err({err:?})"))
    }
}

impl<T> AssertOk for Option<T> {
    type Output = T;
    fn assert_ok(self) -> Result<T, String> {
        self.ok_or_else(|| "expected Some(..), got None".to_string())
    }
}

#[allow(dead_code)]
trait AssertErr {
    type Error;
    fn assert_err(self) -> Result<Self::Error, String>;
}

impl<T: Debug, E> AssertErr for Result<T, E> {
    type Error = E;
    fn assert_err(self) -> Result<E, String> {
        match self {
            Ok(value) => Err(format!("expected Err(..), got Ok({value:?})")),
            Err(err) => Ok(err),
        }
    }
}

use tzif_codec::{LocalTimeType, DataBlock, LeapSecond, TzifError, TzifFile, Version};


fn leap_second_block(leap_seconds: Vec<LeapSecond>) -> DataBlock {
    DataBlock {
        transition_times: vec![],
        transition_types: vec![],
        local_time_types: vec![ltt(0, false, 0)],
        designations: b"UTC\0".to_vec(),
        leap_seconds,
        standard_wall_indicators: vec![],
        ut_local_indicators: vec![],
    }
}

fn leap_second_file(version: Version, leap_seconds: Vec<LeapSecond>) -> TzifFile {
    let block = leap_second_block(leap_seconds);
    match version {
        Version::V3 => TzifFile::v3(DataBlock::placeholder(), block, ""),
        Version::V4 => TzifFile::v4(DataBlock::placeholder(), block, ""),
        _ => unreachable!(),
    }
}

fn assert_invalid_leap_second_table(
    version: Version,
    leap_seconds: Vec<LeapSecond>,
    expected: &TzifError,
) -> TestResult {
    let err = leap_second_file(version, leap_seconds)
        .to_bytes()
        .assert_err()?;
    assert_eq!(&err, expected);
    Ok(())
}

#[test]
fn writer_rejects_invalid_leap_second_tables() -> TestResult {
    assert_invalid_leap_second_table(
        Version::V4,
        vec![LeapSecond {
            occurrence: -1,
            correction: 1,
        }],
        &TzifError::FirstLeapSecondOccurrenceNegative { value: -1 },
    )?;
    assert_invalid_leap_second_table(
        Version::V4,
        vec![
            LeapSecond {
                occurrence: 78_796_800,
                correction: 1,
            },
            LeapSecond {
                occurrence: 78_796_800,
                correction: 2,
            },
        ],
        &TzifError::LeapSecondOccurrencesNotAscending { index: 1 },
    )?;
    assert_invalid_leap_second_table(
        Version::V3,
        vec![LeapSecond {
            occurrence: 94_694_401,
            correction: 2,
        }],
        &TzifError::LeapSecondTruncationRequiresVersion4 {
            version: Version::V3,
        },
    )?;
    assert_invalid_leap_second_table(
        Version::V3,
        vec![
            LeapSecond {
                occurrence: 78_796_800,
                correction: 1,
            },
            LeapSecond {
                occurrence: 94_694_401,
                correction: 1,
            },
        ],
        &TzifError::LeapSecondExpirationRequiresVersion4 {
            version: Version::V3,
        },
    )?;
    assert_invalid_leap_second_table(
        Version::V4,
        vec![
            LeapSecond {
                occurrence: 78_796_800,
                correction: 1,
            },
            LeapSecond {
                occurrence: 94_694_401,
                correction: 3,
            },
        ],
        &TzifError::InvalidLeapSecondCorrection { index: 1 },
    )?;
    Ok(())
}

#[test]
fn writer_rejects_leap_second_occurrences_outside_utc_month_end() -> TestResult {
    let err = leap_second_file(
        Version::V4,
        vec![LeapSecond {
            occurrence: 10,
            correction: 1,
        }],
    )
    .to_bytes()
    .assert_err()?;

    assert!(matches!(
        err,
        TzifError::LeapSecondOccurrenceNotAtMonthEnd { index: 0 }
    ));

    Ok(())
}

#[test]
fn writer_accepts_negative_leap_second_at_utc_month_end() -> TestResult {
    TzifFile::v1(DataBlock {
        transition_times: vec![],
        transition_types: vec![],
        local_time_types: vec![ltt(0, false, 0)],
        designations: b"UTC\0".to_vec(),
        leap_seconds: vec![LeapSecond {
            occurrence: 78_796_800,
            correction: -1,
        }],
        standard_wall_indicators: vec![],
        ut_local_indicators: vec![],
    })
    .to_bytes()
    .assert_ok()?;

    Ok(())
}

#[test]
fn writer_allows_version_four_truncated_and_expiring_leap_second_tables() -> TestResult {
    leap_second_file(
        Version::V4,
        vec![
            LeapSecond {
                occurrence: 126_230_402,
                correction: 3,
            },
            LeapSecond {
                occurrence: 1_719_532_827,
                correction: 3,
            },
        ],
    )
    .to_bytes()
    .assert_ok()?;

    Ok(())
}

const fn ltt(utc_offset: i32, is_dst: bool, designation_index: u8) -> LocalTimeType {
    LocalTimeType {
        utc_offset,
        is_dst,
        designation_index,
    }
}
