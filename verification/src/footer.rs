use vstd::prelude::*;

use crate::calendar::{
    civil_from_days, days_from_civil, days_in_month, floor_div_i64, is_leap_year, spec_civil_from_days,
    spec_days_from_civil, spec_days_in_month, spec_is_leap_year, spec_weekday, weekday_from_days,
};
use crate::common::first_index;
use crate::model::{BlockView, DataBlock};
use crate::validate::{designation_end, spec_designation_at};
use crate::error::TzifError;
use crate::model::Version;
use crate::text::{utf8_string, alpha_end, dec_value, digit_end, is_alpha, is_digit, lemma_dec_value_nonneg, lemma_digit_end_bounds, read_digits};
use crate::validate::{is_designation_byte, is_designation_byte_exec, is_rfc_designation};

verus! {

/// The local time type named by one part of a POSIX TZ footer.
pub struct ParsedFooterType {
    pub designation: Vec<u8>,
    pub offset_seconds: i32,
    pub is_dst: bool,
}

/// What a footer local time type stands for.
pub struct FooterTypeView {
    pub designation: Seq<u8>,
    pub offset_seconds: int,
    pub is_dst: bool,
}

impl View for ParsedFooterType {
    type V = FooterTypeView;

    open spec fn view(&self) -> FooterTypeView {
        FooterTypeView { designation: self.designation@, offset_seconds: self.offset_seconds as int, is_dst: self.is_dst }
    }
}

/// The date part of a POSIX TZ transition rule.
#[derive(Clone, Copy, Debug, PartialEq, Eq, Structural)]
pub enum ParsedRuleDate {
    JulianWithoutLeapDay { day: u32 },
    ZeroBasedDay { day: u32 },
    MonthWeekday { month: u32, week: u32, weekday: u32 },
}

/// A POSIX TZ transition rule: a date and a time of day in seconds.
#[derive(Clone, Copy, Debug, PartialEq, Eq, Structural)]
pub struct ParsedRule {
    pub date: ParsedRuleDate,
    pub time_seconds: i32,
}

impl ParsedRule {
    /// The ranges that the footer grammar admits for each field.
    pub open spec fn wf(self) -> bool {
        &&& -167 * 3600 - 59 * 60 - 59 <= self.time_seconds <= 167 * 3600 + 59 * 60 + 59
        &&& match self.date {
            ParsedRuleDate::JulianWithoutLeapDay { day } => 1 <= day <= 365,
            ParsedRuleDate::ZeroBasedDay { day } => day <= 365,
            ParsedRuleDate::MonthWeekday { month, week, weekday } => 1 <= month <= 12 && 1 <= week <= 5 && weekday <= 6,
        }
    }
}

/// A parsed POSIX TZ footer.
pub struct ParsedFooter {
    pub standard: ParsedFooterType,
    pub daylight: Option<ParsedFooterType>,
    pub start: Option<ParsedRule>,
    pub end: Option<ParsedRule>,
}

/// What a parsed footer stands for.
pub struct FooterView {
    pub standard: FooterTypeView,
    pub daylight: Option<FooterTypeView>,
    pub start: Option<ParsedRule>,
    pub end: Option<ParsedRule>,
}

impl View for ParsedFooter {
    type V = FooterView;

    open spec fn view(&self) -> FooterView {
        FooterView {
            standard: self.standard@,
            daylight: match self.daylight {
                Some(d) => Some(d@),
                None => None,
            },
            start: self.start,
            end: self.end,
        }
    }
}

// ---------------------------------------------------------------------------
// The footer grammar over the footer's bytes. Each function reads from `pos` and
// gives the value read and the position after it, or `None` for a syntax error.
// ---------------------------------------------------------------------------

/// A decimal number of at most `u32::MAX`.
pub open spec fn spec_parse_number(b: Seq<u8>, pos: int) -> Option<(int, int)> {
    let end = digit_end(b, pos);
    if end == pos {
        None
    } else if dec_value(b.subrange(pos, end)) > u32::MAX {
        None
    } else {
        Some((dec_value(b.subrange(pos, end)), end))
    }
}

/// Whether byte `pos` of `b` exists and equals `c`.
pub open spec fn byte_is(b: Seq<u8>, pos: int, c: u8) -> bool {
    0 <= pos < b.len() && b[pos] == c
}

/// `hh[:mm[:ss]]` after an optional sign, hours at most 24, or 167 with the
/// version 3 extension; the signed number of seconds.
pub open spec fn spec_parse_time_like(b: Seq<u8>, pos: int, allow_extension: bool) -> Option<(int, int)> {
    let (sign, p0) = if byte_is(b, pos, 0x2d) {
        (-1int, pos + 1)
    } else if byte_is(b, pos, 0x2b) {
        (1int, pos + 1)
    } else {
        (1int, pos)
    };
    match spec_parse_number(b, p0) {
        None => None,
        Some((hours, p1)) => if hours > (if allow_extension { 167int } else { 24int }) {
            None
        } else if !byte_is(b, p1, 0x3a) {
            Some((sign * (hours * 3600), p1))
        } else {
            match spec_parse_number(b, p1 + 1) {
                None => None,
                Some((minutes, p2)) => if minutes > 59 {
                    None
                } else if !byte_is(b, p2, 0x3a) {
                    Some((sign * (hours * 3600 + minutes * 60), p2))
                } else {
                    match spec_parse_number(b, p2 + 1) {
                        None => None,
                        Some((seconds, p3)) => if seconds > 59 {
                            None
                        } else {
                            Some((sign * (hours * 3600 + minutes * 60 + seconds), p3))
                        },
                    }
                },
            }
        },
    }
}

pub open spec fn is_close_angle(b: Seq<u8>) -> spec_fn(int) -> bool {
    |j: int| b[j] == 0x3e
}

/// A designation: `<...>` quoted, or a run of letters; either way 3 to 6 bytes of
/// `[A-Za-z0-9+-]`.
pub open spec fn spec_parse_designation(b: Seq<u8>, pos: int) -> Option<(Seq<u8>, int)> {
    if byte_is(b, pos, 0x3c) {
        match first_index(is_close_angle(b), pos + 1, b.len() as int) {
            None => None,
            Some(q) => if is_rfc_designation(b.subrange(pos + 1, q)) {
                Some((b.subrange(pos + 1, q), q + 1))
            } else {
                None
            },
        }
    } else {
        let end = alpha_end(b, pos);
        if end == pos {
            None
        } else if is_rfc_designation(b.subrange(pos, end)) {
            Some((b.subrange(pos, end), end))
        } else {
            None
        }
    }
}

/// The date of a rule: `Jn`, `n` or `Mm.w.d`.
pub open spec fn spec_parse_rule_date(b: Seq<u8>, pos: int) -> Option<(ParsedRuleDate, int)> {
    if byte_is(b, pos, 0x4a) {
        match spec_parse_number(b, pos + 1) {
            None => None,
            Some((day, p)) => if 1 <= day <= 365 {
                Some((ParsedRuleDate::JulianWithoutLeapDay { day: day as u32 }, p))
            } else {
                None
            },
        }
    } else if byte_is(b, pos, 0x4d) {
        match spec_parse_number(b, pos + 1) {
            None => None,
            Some((month, p1)) => if !byte_is(b, p1, 0x2e) {
                None
            } else {
                match spec_parse_number(b, p1 + 1) {
                    None => None,
                    Some((week, p2)) => if !byte_is(b, p2, 0x2e) {
                        None
                    } else {
                        match spec_parse_number(b, p2 + 1) {
                            None => None,
                            Some((weekday, p3)) => if 1 <= month <= 12 && 1 <= week <= 5 && weekday <= 6 {
                                Some((ParsedRuleDate::MonthWeekday { month: month as u32, week: week as u32, weekday: weekday as u32 }, p3))
                            } else {
                                None
                            },
                        }
                    },
                }
            },
        }
    } else if 0 <= pos < b.len() && is_digit(b[pos]) {
        match spec_parse_number(b, pos) {
            None => None,
            Some((day, p)) => if day <= 365 {
                Some((ParsedRuleDate::ZeroBasedDay { day: day as u32 }, p))
            } else {
                None
            },
        }
    } else {
        None
    }
}

/// A rule: a date, then an optional `/time` (2:00 when absent).
pub open spec fn spec_parse_rule(b: Seq<u8>, pos: int, version: Version) -> Option<(ParsedRule, int)> {
    match spec_parse_rule_date(b, pos) {
        None => None,
        Some((date, p)) => if byte_is(b, p, 0x2f) {
            match spec_parse_time_like(b, p + 1, version.rank() >= 3) {
                None => None,
                Some((t, p2)) => Some((ParsedRule { date, time_seconds: t as i32 }, p2)),
            }
        } else {
            Some((ParsedRule { date, time_seconds: 7200 }, p))
        },
    }
}

/// A standard or daylight UTC offset: the negation of the POSIX time read.
pub open spec fn spec_parse_offset(b: Seq<u8>, pos: int) -> Option<(int, int)> {
    match spec_parse_time_like(b, pos, false) {
        None => None,
        Some((t, p)) => Some((-t, p)),
    }
}

/// The whole footer: `Some(None)` for the empty footer, `None` for a syntax error.
#[verifier::opaque]
pub open spec fn spec_parse_footer(version: Version, b: Seq<u8>) -> Option<Option<FooterView>> {
    if b.len() == 0 {
        Some(None)
    } else {
        match spec_parse_designation(b, 0) {
            None => None,
            Some((sd, p1)) => match spec_parse_offset(b, p1) {
                None => None,
                Some((so, p2)) => {
                    let standard = FooterTypeView { designation: sd, offset_seconds: so, is_dst: false };
                    if p2 == b.len() {
                        Some(Some(FooterView { standard, daylight: None, start: None, end: None }))
                    } else if byte_is(b, p2, 0x2c) {
                        None
                    } else {
                        match spec_parse_designation(b, p2) {
                            None => None,
                            Some((dd, p3)) => {
                                let dst = if p3 == b.len() || byte_is(b, p3, 0x2c) {
                                    Some((so + 3600, p3))
                                } else {
                                    spec_parse_offset(b, p3)
                                };
                                match dst {
                                    None => None,
                                    Some((doff, p4)) => {
                                        let daylight = FooterTypeView { designation: dd, offset_seconds: doff, is_dst: true };
                                        if p4 == b.len() {
                                            Some(Some(FooterView { standard, daylight: Some(daylight), start: None, end: None }))
                                        } else if !byte_is(b, p4, 0x2c) {
                                            None
                                        } else {
                                            match spec_parse_rule(b, p4 + 1, version) {
                                                None => None,
                                                Some((start, p5)) => if !byte_is(b, p5, 0x2c) {
                                                    None
                                                } else {
                                                    match spec_parse_rule(b, p5 + 1, version) {
                                                        None => None,
                                                        Some((end, p6)) => if p6 != b.len() {
                                                            None
                                                        } else {
                                                            Some(Some(FooterView { standard, daylight: Some(daylight), start: Some(start), end: Some(end) }))
                                                        },
                                                    }
                                                },
                                            }
                                        }
                                    },
                                }
                            },
                        }
                    }
                },
            },
        }
    }
}

/// Reads a POSIX TZ footer byte by byte.
pub struct FooterParser<'a> {
    pub version: Version,
    pub input: &'a [u8],
    pub index: usize,
}

impl<'a> FooterParser<'a> {
    pub open spec fn same_input(&self, other: &Self) -> bool {
        self.version == other.version && self.input@ == other.input@ && self.index <= self.input@.len()
    }

    pub fn new(version: Version, input: &'a [u8]) -> (p: FooterParser<'a>)
        ensures
            p.version == version,
            p.input@ == input@,
            p.index == 0,
    {
        FooterParser { version, input, index: 0 }
    }

    pub fn is_done(&self) -> (b: bool)
        ensures
            b == (self.index == self.input@.len()),
    {
        self.index == self.input.len()
    }

    pub fn peek(&self) -> (b: Option<u8>)
        ensures
            b == (if self.index < self.input@.len() { Some(self.input@[self.index as int]) } else { None::<u8> }),
    {
        if self.index < self.input.len() {
            Some(self.input[self.index])
        } else {
            None
        }
    }

    /// Whether the next byte is `c`.
    pub fn at(&self, c: u8) -> (b: bool)
        ensures
            b == byte_is(self.input@, self.index as int, c),
            self.input@.len() <= usize::MAX,
    {
        self.index < self.input.len() && self.input[self.index] == c
    }

    /// Consumes `byte` or fails.
    pub fn expect(&mut self, byte: u8) -> (res: Result<(), TzifError>)
        requires
            old(self).index <= old(self).input@.len(),
        ensures
            final(self).same_input(old(self)),
            byte_is(old(self).input@, old(self).index as int, byte) ==> res is Ok && final(self).index == old(self).index + 1,
            !byte_is(old(self).input@, old(self).index as int, byte) ==> res == Err::<(), TzifError>(TzifError::InvalidFooterSyntax),
    {
        if self.at(byte) {
            self.index = self.index + 1;
            Ok(())
        } else {
            Err(TzifError::InvalidFooterSyntax)
        }
    }

    pub fn parse_number(&mut self) -> (res: Result<u32, TzifError>)
        requires
            old(self).index <= old(self).input@.len(),
        ensures
            final(self).same_input(old(self)),
            match spec_parse_number(old(self).input@, old(self).index as int) {
                None => res == Err::<u32, TzifError>(TzifError::InvalidFooterSyntax),
                Some((v, e)) => res == Ok::<u32, TzifError>(v as u32) && final(self).index == e && 0 <= v <= u32::MAX,
            },
    {
        let start = self.index;
        proof {
            lemma_digit_end_bounds(self.input@, start as int);
            lemma_dec_value_nonneg(self.input@.subrange(start as int, digit_end(self.input@, start as int)));
        }
        let (end, value) = read_digits(self.input, start);
        if end == start {
            return Err(TzifError::InvalidFooterSyntax);
        }
        match value {
            Some(v) => {
                self.index = end;
                Ok(v)
            },
            None => Err(TzifError::InvalidFooterSyntax),
        }
    }

    pub fn parse_time_like(&mut self, allow_extension: bool) -> (res: Result<i32, TzifError>)
        requires
            old(self).index <= old(self).input@.len(),
        ensures
            final(self).same_input(old(self)),
            match spec_parse_time_like(old(self).input@, old(self).index as int, allow_extension) {
                None => res == Err::<i32, TzifError>(TzifError::InvalidFooterSyntax),
                Some((v, e)) => res == Ok::<i32, TzifError>(v as i32) && final(self).index == e
                    && -(167 * 3600 + 59 * 60 + 59) <= v <= 167 * 3600 + 59 * 60 + 59
                    && (!allow_extension ==> -(24 * 3600 + 59 * 60 + 59) <= v <= 24 * 3600 + 59 * 60 + 59),
            },
    {
        let sign: i32 = if self.at(0x2d) {
            self.index = self.index + 1;
            -1
        } else if self.at(0x2b) {
            self.index = self.index + 1;
            1
        } else {
            1
        };
        let hours = self.parse_number()?;
        let limit: u32 = if allow_extension { 167 } else { 24 };
        if hours > limit {
            return Err(TzifError::InvalidFooterSyntax);
        }
        let mut seconds: i32 = hours as i32 * 3600;
        if self.at(0x3a) {
            self.index = self.index + 1;
            let minutes = self.parse_number()?;
            if minutes > 59 {
                return Err(TzifError::InvalidFooterSyntax);
            }
            seconds = seconds + minutes as i32 * 60;
            if self.at(0x3a) {
                self.index = self.index + 1;
                let extra_seconds = self.parse_number()?;
                if extra_seconds > 59 {
                    return Err(TzifError::InvalidFooterSyntax);
                }
                seconds = seconds + extra_seconds as i32;
            }
        }
        Ok(sign * seconds)
    }

    pub fn parse_offset(&mut self, allow_extension: bool) -> (res: Result<i32, TzifError>)
        requires
            old(self).index <= old(self).input@.len(),
            !allow_extension,
        ensures
            final(self).same_input(old(self)),
            match spec_parse_offset(old(self).input@, old(self).index as int) {
                None => res == Err::<i32, TzifError>(TzifError::InvalidFooterSyntax),
                Some((v, e)) => res == Ok::<i32, TzifError>(v as i32) && final(self).index == e
                    && -(24 * 3600 + 59 * 60 + 59) <= v <= 24 * 3600 + 59 * 60 + 59,
            },
    {
        let signed_seconds = self.parse_time_like(allow_extension)?;
        Ok(-signed_seconds)
    }
}


impl<'a> FooterParser<'a> {
    pub fn parse_designation(&mut self) -> (res: Result<Vec<u8>, TzifError>)
        requires
            old(self).index <= old(self).input@.len(),
        ensures
            final(self).same_input(old(self)),
            match spec_parse_designation(old(self).input@, old(self).index as int) {
                None => res is Err && res == Err::<Vec<u8>, TzifError>(TzifError::InvalidFooterSyntax),
                Some((d, e)) => res matches Ok(v) && v@ == d && final(self).index == e,
            },
    {
        if self.at(0x3c) {
            self.index = self.index + 1;
            let start = self.index;
            while self.index < self.input.len()
                invariant
                    self.input == old(self).input,
                    self.version == old(self).version,
                    start <= self.index <= self.input@.len(),
                    first_index(is_close_angle(self.input@), start as int, self.input@.len() as int)
                        == first_index(is_close_angle(self.input@), self.index as int, self.input@.len() as int),
                decreases self.input@.len() - self.index,
            {
                if self.input[self.index] == 0x3e {
                    let value = vstd::slice::slice_subrange(self.input, start, self.index);
                    self.index = self.index + 1;
                    return validate_footer_designation(value);
                }
                self.index = self.index + 1;
            }
            return Err(TzifError::InvalidFooterSyntax);
        }
        let start = self.index;
        while self.index < self.input.len() && is_alpha_exec(self.input[self.index])
            invariant
                self.input == old(self).input,
                self.version == old(self).version,
                start <= self.index <= self.input@.len(),
                alpha_end(self.input@, start as int) == alpha_end(self.input@, self.index as int),
            decreases self.input@.len() - self.index,
        {
            self.index = self.index + 1;
        }
        if self.index == start {
            return Err(TzifError::InvalidFooterSyntax);
        }
        validate_footer_designation(vstd::slice::slice_subrange(self.input, start, self.index))
    }

    pub fn parse_rule(&mut self) -> (res: Result<ParsedRule, TzifError>)
        requires
            old(self).index <= old(self).input@.len(),
        ensures
            final(self).same_input(old(self)),
            match spec_parse_rule(old(self).input@, old(self).index as int, old(self).version) {
                None => res == Err::<ParsedRule, TzifError>(TzifError::InvalidFooterSyntax),
                Some((r, e)) => res == Ok::<ParsedRule, TzifError>(r) && final(self).index == e && r.wf(),
            },
    {
        let date = if self.at(0x4a) {
            self.index = self.index + 1;
            let day = self.parse_number()?;
            if day < 1 || day > 365 {
                return Err(TzifError::InvalidFooterSyntax);
            }
            ParsedRuleDate::JulianWithoutLeapDay { day }
        } else if self.at(0x4d) {
            self.index = self.index + 1;
            let month = self.parse_number()?;
            self.expect(0x2e)?;
            let week = self.parse_number()?;
            self.expect(0x2e)?;
            let weekday = self.parse_number()?;
            if month < 1 || month > 12 || week < 1 || week > 5 || weekday > 6 {
                return Err(TzifError::InvalidFooterSyntax);
            }
            ParsedRuleDate::MonthWeekday { month, week, weekday }
        } else if self.index < self.input.len() && 0x30 <= self.input[self.index] && self.input[self.index] <= 0x39 {
            let day = self.parse_number()?;
            if day > 365 {
                return Err(TzifError::InvalidFooterSyntax);
            }
            ParsedRuleDate::ZeroBasedDay { day }
        } else {
            return Err(TzifError::InvalidFooterSyntax);
        };
        let time_seconds = if self.at(0x2f) {
            self.index = self.index + 1;
            self.parse_time_like(self.version.at_least_v3())?
        } else {
            7200
        };
        Ok(ParsedRule { date, time_seconds })
    }
}

pub fn is_alpha_exec(b: u8) -> (r: bool)
    ensures
        r == is_alpha(b),
{
    (0x41 <= b && b <= 0x5a) || (0x61 <= b && b <= 0x7a)
}

fn validate_footer_designation(value: &[u8]) -> (res: Result<Vec<u8>, TzifError>)
    ensures
        is_rfc_designation(value@) ==> (res matches Ok(v) && v@ == value@),
        !is_rfc_designation(value@) ==> res == Err::<Vec<u8>, TzifError>(TzifError::InvalidFooterSyntax),
{
    if crate::validate::is_rfc_designation_bytes(value) {
        Ok(vstd::slice::slice_to_vec(value))
    } else {
        Err(TzifError::InvalidFooterSyntax)
    }
}

/// Parses a footer; `Ok(None)` for the empty footer.
pub fn parse_footer(version: Version, footer: &[u8]) -> (res: Result<Option<ParsedFooter>, TzifError>)
    ensures
        match spec_parse_footer(version, footer@) {
            None => res matches Err(e) && e == TzifError::InvalidFooterSyntax,
            Some(None) => res matches Ok(None),
            Some(Some(f)) => res matches Ok(Some(p)) && p@ == f && p.wf(),
        },
{
    reveal(spec_parse_footer);
    if footer.len() == 0 {
        return Ok(None);
    }
    let mut parser = FooterParser::new(version, footer);
    let standard_designation = parser.parse_designation()?;
    let standard_offset_seconds = parser.parse_offset(false)?;
    let standard = ParsedFooterType { designation: standard_designation, offset_seconds: standard_offset_seconds, is_dst: false };
    if parser.is_done() {
        return Ok(Some(ParsedFooter { standard, daylight: None, start: None, end: None }));
    }
    if parser.at(0x2c) {
        return Err(TzifError::InvalidFooterSyntax);
    }
    let daylight_designation = parser.parse_designation()?;
    let daylight_offset_seconds = if parser.is_done() || parser.at(0x2c) {
        standard.offset_seconds + 3600
    } else {
        parser.parse_offset(false)?
    };
    let daylight = ParsedFooterType { designation: daylight_designation, offset_seconds: daylight_offset_seconds, is_dst: true };
    if parser.is_done() {
        return Ok(Some(ParsedFooter { standard, daylight: Some(daylight), start: None, end: None }));
    }
    parser.expect(0x2c)?;
    let start = parser.parse_rule()?;
    parser.expect(0x2c)?;
    let end = parser.parse_rule()?;
    if !parser.is_done() {
        return Err(TzifError::InvalidFooterSyntax);
    }
    Ok(Some(ParsedFooter { standard, daylight: Some(daylight), start: Some(start), end: Some(end) }))
}

impl ParsedFooter {
    /// Offsets within a day and a half, and rules within the grammar's ranges.
    pub open spec fn wf(&self) -> bool {
        &&& -(24 * 3600 + 59 * 60 + 59) <= self.standard.offset_seconds <= 24 * 3600 + 59 * 60 + 59
        &&& (self.daylight matches Some(d) ==> -(24 * 3600 + 59 * 60 + 59) <= d.offset_seconds <= 25 * 3600 + 59 * 60 + 59)
        &&& (self.start matches Some(r) ==> r.wf())
        &&& (self.end matches Some(r) ==> r.wf())
    }
}

// ---------------------------------------------------------------------------
// Where a rule puts a transition, and which footer type is in force at a time.
// ---------------------------------------------------------------------------

/// The day (since 1970-01-01) on which `rule` falls in `year`.
pub open spec fn spec_rule_day(year: int, rule: ParsedRule) -> int {
    match rule.date {
        ParsedRuleDate::JulianWithoutLeapDay { day } => spec_days_from_civil(year, 1, 1) + (day - 1)
            + if spec_is_leap_year(year) && day >= 60 { 1int } else { 0int },
        ParsedRuleDate::ZeroBasedDay { day } => spec_days_from_civil(year, 1, 1) + day,
        ParsedRuleDate::MonthWeekday { month, week, weekday } => {
            let first = spec_days_from_civil(year, month as int, 1);
            let first_weekday = spec_weekday(first);
            let d0 = 1 + ((weekday + 7 - first_weekday) % 7) + (week - 1) * 7;
            let d = if d0 > spec_days_in_month(year, month as int) { d0 - 7 } else { d0 };
            spec_days_from_civil(year, month as int, d)
        },
    }
}

/// The UTC second at which `rule` takes effect in `year`, given the UTC offset in
/// force before it.
pub open spec fn spec_rule_transition_utc(year: int, rule: ParsedRule, offset_before: int) -> int {
    spec_rule_day(year, rule) * 86400 + rule.time_seconds - offset_before
}

/// The footer local time type in force at UTC second `t`.
pub open spec fn spec_type_at(f: FooterView, t: int) -> FooterTypeView {
    match (f.daylight, f.start, f.end) {
        (Some(d), Some(s), Some(e)) => {
            let year = spec_civil_from_days(t / 86400).0;
            let start = spec_rule_transition_utc(year, s, f.standard.offset_seconds);
            let end = spec_rule_transition_utc(year, e, d.offset_seconds);
            let is_dst = if start < end { start <= t < end } else { t >= start || t < end };
            if is_dst { d } else { f.standard }
        },
        _ => f.standard,
    }
}

/// Whether the footer agrees with the local time type of the last transition: same
/// DST flag, offset and designation. Blocks without a last transition, or whose last
/// type or designation cannot be read, are left alone.
#[verifier::opaque]
pub open spec fn spec_footer_consistent(block: BlockView, f: FooterView) -> bool {
    let times = block.transition_times;
    let types = block.transition_types;
    let ltts = block.local_time_types;
    if types.len() == 0 || times.len() == 0 {
        true
    } else if types.last() >= ltts.len() {
        true
    } else {
        let ty = ltts[types.last() as int];
        match spec_designation_at(block.designations, ty.designation_index as int) {
            None => true,
            Some(d) => if !vstd::utf8::valid_utf8(d) {
                true
            } else {
                let expected = if f.daylight is Some && f.start is None && f.end is None {
                    if ty.is_dst { f.daylight.unwrap() } else { f.standard }
                } else {
                    spec_type_at(f, times.last() as int)
                };
                expected.is_dst == ty.is_dst && expected.offset_seconds == ty.utc_offset && expected.designation == d
            },
        }
    }
}

fn rule_transition_utc(year: i64, rule: ParsedRule, offset_before_seconds: i32) -> (t: i128)
    requires
        rule.wf(),
        -crate::calendar::year_bound() <= year <= crate::calendar::year_bound(),
    ensures
        t == spec_rule_transition_utc(year as int, rule, offset_before_seconds as int),
{
    let day: i64 = match rule.date {
        ParsedRuleDate::JulianWithoutLeapDay { day } => {
            let mut zero_based: i64 = (day - 1) as i64;
            if is_leap_year(year) && day >= 60 {
                zero_based = zero_based + 1;
            }
            days_from_civil(year, 1, 1) + zero_based
        },
        ParsedRuleDate::ZeroBasedDay { day } => days_from_civil(year, 1, 1) + day as i64,
        ParsedRuleDate::MonthWeekday { month, week, weekday } => {
            let first_day = days_from_civil(year, month, 1);
            let first_weekday = weekday_from_days(first_day);
            let mut day: u32 = 1 + ((weekday + 7 - first_weekday) % 7) + (week - 1) * 7;
            let days_in_month = days_in_month(year, month);
            if day > days_in_month {
                day = day - 7;
            }
            days_from_civil(year, month, day)
        },
    };
    day as i128 * 86400 + rule.time_seconds as i128 - offset_before_seconds as i128
}

impl ParsedFooter {
    /// The footer local time type in force at UTC second `unix_time`.
    fn type_at(&self, unix_time: i64) -> (r: &ParsedFooterType)
        requires
            self.wf(),
        ensures
            r@ == spec_type_at(self@, unix_time as int),
    {
        match (&self.daylight, self.start, self.end) {
            (Some(daylight), Some(start), Some(end)) => {
                let days = floor_div_i64(unix_time, 86400);
                let (year, _, _) = civil_from_days(days);
                let start = rule_transition_utc(year, start, self.standard.offset_seconds);
                let end = rule_transition_utc(year, end, daylight.offset_seconds);
                let t = unix_time as i128;
                let is_dst = if start < end { t >= start && t < end } else { t >= start || t < end };
                if is_dst { daylight } else { &self.standard }
            },
            _ => &self.standard,
        }
    }
}

fn validate_footer_consistency(block: &DataBlock, footer: &ParsedFooter) -> (res: Result<(), TzifError>)
    requires
        footer.wf(),
    ensures
        res == (if spec_footer_consistent(block@, footer@) {
            Ok(())
        } else {
            Err(TzifError::FooterInconsistentWithLastTransition)
        }),
{
    reveal(spec_footer_consistent);
    let types = &block.transition_types;
    let times = &block.transition_times;
    if types.len() == 0 || times.len() == 0 {
        return Ok(());
    }
    let last_type_index = types[types.len() - 1];
    let last_transition_time = times[times.len() - 1];
    if last_type_index as usize >= block.local_time_types.len() {
        return Ok(());
    }
    let local_time_type = block.local_time_types[last_type_index as usize];
    let start = local_time_type.designation_index as usize;
    if start > block.designations.len() {
        return Ok(());
    }
    let end = match designation_end(&block.designations, start) {
        Some(end) => end,
        None => return Ok(()),
    };
    let all = block.designations.as_slice();
    let designation = vstd::slice::slice_subrange(all, start, end);
    assert(spec_designation_at(block.designations@, start as int) == Some(designation@));
    if utf8_string(vstd::slice::slice_to_vec(designation)).is_none() {
        return Ok(());
    }
    let expected: &ParsedFooterType = match (&footer.daylight, footer.start, footer.end) {
        (Some(daylight), None, None) => if local_time_type.is_dst { daylight } else { &footer.standard },
        _ => footer.type_at(last_transition_time),
    };
    if expected.is_dst != local_time_type.is_dst || expected.offset_seconds != local_time_type.utc_offset
        || !bytes_equal(expected.designation.as_slice(), designation) {
        return Err(TzifError::FooterInconsistentWithLastTransition);
    }
    Ok(())
}

/// Whether two byte strings are equal.
pub fn bytes_equal(a: &[u8], b: &[u8]) -> (r: bool)
    ensures
        r == (a@ == b@),
{
    if a.len() != b.len() {
        return false;
    }
    let mut i: usize = 0;
    while i < a.len()
        invariant
            0 <= i <= a@.len(),
            a@.len() == b@.len(),
            forall|j: int| 0 <= j < i ==> a@[j] == b@[j],
        decreases a@.len() - i,
    {
        if a[i] != b[i] {
            return false;
        }
        i = i + 1;
    }
    assert(a@ =~= b@);
    true
}

/// Holds at `i` when byte `i` is a `/` that begins a rule time using the version 3
/// extension: a sign, or hours greater than 24 (and at most `i32::MAX`).
pub open spec fn extension_part(b: Seq<u8>) -> spec_fn(int) -> bool {
    |i: int| {
        &&& b[i] == 0x2f
        &&& i + 1 < b.len()
        &&& (b[i + 1] == 0x2b || b[i + 1] == 0x2d || (is_digit(b[i + 1]) && {
            let v = dec_value(b.subrange(i + 1, digit_end(b, i + 1)));
            24 < v <= i32::MAX
        }))
    }
}

/// Whether a footer's bytes use the POSIX TZ string extension of RFC 9636 version 3.
pub open spec fn spec_uses_tz_string_extension(b: Seq<u8>) -> bool {
    first_index(extension_part(b), 0, b.len() as int) is Some
}

/// Whether `footer` uses the POSIX TZ string extension: a rule time that is negative
/// or more than 24 hours.
pub fn footer_uses_tz_string_extension(footer: &str) -> (r: bool)
    ensures
        r == spec_uses_tz_string_extension(vstd::utf8::encode_utf8(footer@)),
{
    uses_extension_bytes(footer.as_bytes())
}

fn uses_extension_bytes(b: &[u8]) -> (r: bool)
    ensures
        r == spec_uses_tz_string_extension(b@),
{
    let mut i: usize = 0;
    while i < b.len()
        invariant
            0 <= i <= b@.len(),
            first_index(extension_part(b@), 0, b@.len() as int) == first_index(extension_part(b@), i as int, b@.len() as int),
        decreases b@.len() - i,
    {
        if b[i] == 0x2f && i + 1 < b.len() {
            let c = b[i + 1];
            if c == 0x2b || c == 0x2d {
                return true;
            }
            if 0x30 <= c && c <= 0x39 {
                let (_, value) = read_digits(b, i + 1);
                match value {
                    Some(v) => {
                        if v > 24 && v <= 0x7fff_ffff {
                            return true;
                        }
                    },
                    None => {},
                }
            }
        }
        i = i + 1;
    }
    false
}

pub open spec fn is_control_byte(b: Seq<u8>) -> spec_fn(int) -> bool {
    |i: int| b[i] == 0 || b[i] == 0x0a
}

/// The outcome of validating `footer` for a file of `version` whose 64-bit block is `block`.
pub open spec fn spec_validate_footer(version: Version, block: BlockView, footer: Seq<char>) -> Result<(), TzifError> {
    let b = vstd::utf8::encode_utf8(footer);
    if !vstd::utf8::is_ascii_chars(footer) {
        Err(TzifError::InvalidFooterAscii)
    } else if first_index(is_control_byte(b), 0, b.len() as int) is Some {
        Err(TzifError::InvalidFooterControlByte)
    } else if version == Version::V2 && spec_uses_tz_string_extension(b) {
        Err(TzifError::FooterExtensionRequiresVersion3 { version })
    } else {
        match spec_parse_footer(version, b) {
            None => Err(TzifError::InvalidFooterSyntax),
            Some(None) => Ok(()),
            Some(Some(f)) => if spec_footer_consistent(block, f) {
                Ok(())
            } else {
                Err(TzifError::FooterInconsistentWithLastTransition)
            },
        }
    }
}

/// Validates a footer: ASCII, no NUL or newline, the version 3 extension only from
/// version 3 on, POSIX TZ syntax, and agreement with the last transition.
pub fn validate_footer(version: Version, block: &DataBlock, footer: &str) -> (res: Result<(), TzifError>)
    ensures
        res == spec_validate_footer(version, block@, footer@),
{
    if !footer.is_ascii() {
        return Err(TzifError::InvalidFooterAscii);
    }
    let b = footer.as_bytes();
    let mut i: usize = 0;
    while i < b.len()
        invariant
            0 <= i <= b@.len(),
            first_index(is_control_byte(b@), 0, b@.len() as int) == first_index(is_control_byte(b@), i as int, b@.len() as int),
        decreases b@.len() - i,
    {
        if b[i] == 0 || b[i] == 0x0a {
            return Err(TzifError::InvalidFooterControlByte);
        }
        i = i + 1;
    }
    if matches!(version, Version::V2) && uses_extension_bytes(b) {
        return Err(TzifError::FooterExtensionRequiresVersion3 { version });
    }
    let parsed = match parse_footer(version, b)? {
        Some(parsed) => parsed,
        None => return Ok(()),
    };
    validate_footer_consistency(block, &parsed)?;
    Ok(())
}
} // verus!
