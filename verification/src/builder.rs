use vstd::prelude::*;
use vstd::string::StrSliceExecFns;

use crate::error::{BuildErrorView, TzifBuildError, TzifError};
use crate::footer::spec_uses_tz_string_extension;
use crate::interop::is_ascii_bytes;
use crate::common::first_index;
use crate::model::{BlockView, DataBlock, FileView, LeapSecond, LocalTimeType, TzifFile, Version};
use crate::validate::{
    is_designation_byte, is_nul, is_rfc_designation, outside_i32, spec_designation_at, time_outside_i32,
};

verus! {

// ---------------------------------------------------------------------------
// Text of POSIX TZ strings
// ---------------------------------------------------------------------------

/// The decimal digits of `n`, most significant first.
pub open spec fn decimal(n: nat) -> Seq<u8>
    decreases n,
{
    if n < 10 {
        seq![(0x30 + n) as u8]
    } else {
        decimal(n / 10).push((0x30 + n % 10) as u8)
    }
}

/// Two decimal digits of `n`, with a leading zero below ten.
pub open spec fn two_digits(n: nat) -> Seq<u8> {
    seq![(0x30 + n / 10) as u8, (0x30 + n % 10) as u8]
}

pub open spec fn abs_int(v: int) -> nat {
    if v < 0 {
        (-v) as nat
    } else {
        v as nat
    }
}

/// A signed duration as POSIX writes it: `[-]h[:mm[:ss]]`, dropping zero minutes and
/// seconds from the end.
pub open spec fn duration_text(seconds: int) -> Seq<u8> {
    let sign: Seq<u8> = if seconds < 0 { seq![0x2du8] } else { seq![] };
    let a = abs_int(seconds);
    let h = a / 3600;
    let m = (a % 3600) / 60;
    let s = a % 60;
    if s != 0 {
        sign + decimal(h) + seq![0x3au8] + two_digits(m) + seq![0x3au8] + two_digits(s)
    } else if m != 0 {
        sign + decimal(h) + seq![0x3au8] + two_digits(m)
    } else {
        sign + decimal(h)
    }
}

pub(crate) fn push_decimal(out: &mut Vec<u8>, n: u64)
    ensures
        final(out)@ == old(out)@ + decimal(n as nat),
        is_ascii_bytes(old(out)@) ==> is_ascii_bytes(final(out)@),
    decreases n,
{
    if n >= 10 {
        push_decimal(out, n / 10);
    }
    let d = (n % 10) as u8;
    out.push(0x30 + d);
    proof {
        if n >= 10 {
            assert(decimal(n as nat) == decimal((n / 10) as nat).push((0x30 + n % 10) as u8));
        }
    }
    assert(out@ =~= old(out)@ + decimal(n as nat));
}

fn push_two_digits(out: &mut Vec<u8>, n: u32)
    requires
        n < 100,
    ensures
        final(out)@ == old(out)@ + two_digits(n as nat),
        is_ascii_bytes(old(out)@) ==> is_ascii_bytes(final(out)@),
{
    out.push(0x30 + (n / 10) as u8);
    out.push(0x30 + (n % 10) as u8);
    assert(out@ =~= old(out)@ + two_digits(n as nat));
}

/// Appends the POSIX text of a duration.
fn push_duration(out: &mut Vec<u8>, seconds: i32)
    requires
        seconds != i32::MIN,
    ensures
        final(out)@ == old(out)@ + duration_text(seconds as int),
        is_ascii_bytes(old(out)@) ==> is_ascii_bytes(final(out)@),
{
    let ghost o = old(out)@;
    if seconds < 0 {
        out.push(0x2d);
    }
    let a: u32 = if seconds < 0 { (-seconds) as u32 } else { seconds as u32 };
    let ghost sign: Seq<u8> = if seconds < 0 { seq![0x2du8] } else { seq![] };
    assert(out@ =~= o + sign);
    assert(a as nat == abs_int(seconds as int));
    let h = a / 3600;
    let m = (a % 3600) / 60;
    let s = a % 60;
    push_decimal(out, h as u64);
    if s != 0 {
        out.push(0x3a);
        push_two_digits(out, m);
        out.push(0x3a);
        push_two_digits(out, s);
    } else if m != 0 {
        out.push(0x3a);
        push_two_digits(out, m);
    }
    assert(out@ =~= o + duration_text(seconds as int));
}

/// A designation as a POSIX TZ string writes it: bare when it is all letters,
/// else quoted in angle brackets.
pub open spec fn posix_designation_text(d: Seq<u8>) -> Seq<u8> {
    if forall|i: int| 0 <= i < d.len() ==> #[trigger] crate::text::is_alpha(d[i]) {
        d
    } else {
        seq![0x3cu8] + d + seq![0x3eu8]
    }
}

fn push_posix_designation(out: &mut Vec<u8>, d: &[u8])
    ensures
        final(out)@ == old(out)@ + posix_designation_text(d@),
        is_ascii_bytes(old(out)@) && is_ascii_bytes(d@) ==> is_ascii_bytes(final(out)@),
{
    let ghost o = old(out)@;
    let mut all_alpha = true;
    let mut i: usize = 0;
    while i < d.len()
        invariant
            0 <= i <= d@.len(),
            all_alpha == forall|j: int| 0 <= j < i ==> #[trigger] crate::text::is_alpha(d@[j]),
        decreases d@.len() - i,
    {
        if !crate::footer::is_alpha_exec(d[i]) {
            all_alpha = false;
        }
        i = i + 1;
    }
    if !all_alpha {
        out.push(0x3c);
    }
    let mut k: usize = 0;
    let ghost mid = out@;
    while k < d.len()
        invariant
            0 <= k <= d@.len(),
            out@ == mid + d@.subrange(0, k as int),
        decreases d@.len() - k,
    {
        out.push(d[k]);
        assert(d@.subrange(0, k + 1) =~= d@.subrange(0, k as int).push(d@[k as int]));
        k = k + 1;
    }
    assert(d@.subrange(0, d@.len() as int) =~= d@);
    if !all_alpha {
        out.push(0x3e);
    }
    assert(out@ =~= o + posix_designation_text(d@));
}

// ---------------------------------------------------------------------------
// Validation of builder inputs
// ---------------------------------------------------------------------------

/// The characters that a designation may hold: ASCII letters and digits, `+` and `-`.
pub open spec fn is_designation_char(c: char) -> bool {
    ('0' <= c <= '9') || ('A' <= c <= 'Z') || ('a' <= c <= 'z') || c == '+' || c == '-'
}

pub open spec fn bad_designation_char(d: Seq<char>) -> spec_fn(int) -> bool {
    |i: int| !is_designation_char(d[i])
}

/// The outcome of checking a designation: non-empty, ASCII, made of letters, digits,
/// `+` and `-`, and when `strict` 3 to 6 characters long.
pub open spec fn spec_validate_designation(d: Seq<char>, strict: bool) -> Result<(), BuildErrorView> {
    if d.len() == 0 {
        Err(BuildErrorView::EmptyDesignation)
    } else if !vstd::utf8::is_ascii_chars(d) {
        Err(BuildErrorView::NonAsciiDesignation(d))
    } else if crate::common::first_index(bad_designation_char(d), 0, d.len() as int) is Some {
        Err(BuildErrorView::UnsupportedDesignationCharacter(
            d,
            d[crate::common::first_index(bad_designation_char(d), 0, d.len() as int).unwrap()],
        ))
    } else if strict && d.len() < 3 {
        Err(BuildErrorView::DesignationTooShort(d))
    } else if strict && d.len() > 6 {
        Err(BuildErrorView::DesignationTooLong(d))
    } else {
        Ok(())
    }
}

fn validate_designation(designation: &str, strict: bool) -> (res: Result<(), TzifBuildError>)
    ensures
        match spec_validate_designation(designation@, strict) {
            Ok(()) => res is Ok,
            Err(e) => res matches Err(x) && x@ == e,
        },
{
    if designation.is_empty() {
        return Err(TzifBuildError::EmptyDesignation);
    }
    if !designation.is_ascii() {
        return Err(TzifBuildError::NonAsciiDesignation { designation: designation.to_owned() });
    }
    let n = designation.unicode_len();
    let ghost d = designation@;
    let mut i: usize = 0;
    while i < n
        invariant
            0 <= i <= n,
            n == d.len(),
            d == designation@,
            vstd::utf8::is_ascii_chars(d),
            crate::common::first_index(bad_designation_char(d), 0, n as int)
                == crate::common::first_index(bad_designation_char(d), i as int, n as int),
        decreases n - i,
    {
        let b = designation.get_ascii(i);
        assert(d[i as int] as u8 == b);
        if !crate::validate::is_designation_byte_exec(b) {
            let character = designation.get_char(i);
            return Err(TzifBuildError::UnsupportedDesignationCharacter {
                designation: designation.to_owned(),
                character,
            });
        }
        i = i + 1;
    }
    if strict && n < 3 {
        return Err(TzifBuildError::DesignationTooShort { designation: designation.to_owned() });
    }
    if strict && n > 6 {
        return Err(TzifBuildError::DesignationTooLong { designation: designation.to_owned() });
    }
    Ok(())
}

/// The outcome of checking a UTC offset: any but `i32::MIN`.
pub open spec fn spec_validate_utc_offset(o: i32) -> Result<(), BuildErrorView> {
    if o == i32::MIN {
        Err(BuildErrorView::InvalidUtcOffset)
    } else {
        Ok(())
    }
}

fn validate_utc_offset(offset_seconds: i32) -> (res: Result<(), TzifBuildError>)
    ensures
        match spec_validate_utc_offset(offset_seconds) {
            Ok(()) => res is Ok,
            Err(e) => res matches Err(x) && x@ == e,
        },
{
    if offset_seconds == i32::MIN {
        return Err(TzifBuildError::InvalidUtcOffset);
    }
    Ok(())
}

/// The largest magnitude a POSIX offset may have: 24:59:59, 89999 seconds.
pub open spec fn max_posix_offset() -> int {
    89999int
}

/// The outcome of checking an offset for a POSIX TZ string: a valid UTC offset of at
/// most 24:59:59 either way.
pub open spec fn spec_validate_posix_offset(o: i32) -> Result<(), BuildErrorView> {
    if o == i32::MIN {
        Err(BuildErrorView::InvalidUtcOffset)
    } else if abs_int(o as int) > max_posix_offset() {
        Err(BuildErrorView::PosixOffsetOutOfRange(o))
    } else {
        Ok(())
    }
}

fn validate_posix_offset(offset_seconds: i32) -> (res: Result<(), TzifBuildError>)
    ensures
        match spec_validate_posix_offset(offset_seconds) {
            Ok(()) => res is Ok,
            Err(e) => res matches Err(x) && x@ == e,
        },
{
    validate_utc_offset(offset_seconds)?;
    let seconds = -offset_seconds;
    let magnitude = if seconds < 0 { -seconds } else { seconds };
    if magnitude > 24 * 3600 + 59 * 60 + 59 {
        return Err(TzifBuildError::PosixOffsetOutOfRange { seconds: offset_seconds });
    }
    Ok(())
}

/// The POSIX text of a UTC offset: POSIX counts west of Greenwich as positive, so the
/// sign is flipped.
pub open spec fn spec_posix_offset(o: i32) -> Result<Seq<u8>, BuildErrorView> {
    match spec_validate_posix_offset(o) {
        Err(e) => Err(e),
        Ok(()) => Ok(duration_text(-(o as int))),
    }
}

fn push_posix_offset(out: &mut Vec<u8>, offset_seconds: i32) -> (res: Result<(), TzifBuildError>)
    ensures
        match spec_posix_offset(offset_seconds) {
            Ok(t) => res is Ok && final(out)@ == old(out)@ + t,
            Err(e) => res matches Err(x) && x@ == e,
        },
        is_ascii_bytes(old(out)@) ==> is_ascii_bytes(final(out)@),
{
    validate_posix_offset(offset_seconds)?;
    push_duration(out, -offset_seconds);
    Ok(())
}


// ---------------------------------------------------------------------------
// POSIX transition rules and times
// ---------------------------------------------------------------------------

/// The day rule of a POSIX daylight-saving transition.
#[derive(Clone, Copy, Debug, PartialEq, Eq, Structural)]
pub enum PosixTransitionRule {
    /// `Jn`: day `n` of the year, 1 to 365, February 29 never counted.
    JulianWithoutLeapDay { day: u16 },
    /// `n`: day `n` of the year, 0 to 365, February 29 counted.
    ZeroBasedDay { day: u16 },
    /// `Mm.w.d`: weekday `d` (0 = Sunday) of week `w` (5 = last) of month `m`.
    MonthWeekday { month: u8, week: u8, weekday: u8 },
}

/// The outcome of checking a transition rule's ranges.
pub open spec fn spec_validate_rule(r: PosixTransitionRule) -> Result<(), BuildErrorView> {
    match r {
        PosixTransitionRule::JulianWithoutLeapDay { day } => if !(1 <= day <= 365) {
            Err(BuildErrorView::InvalidPosixJulianDay(day))
        } else {
            Ok(())
        },
        PosixTransitionRule::ZeroBasedDay { day } => if day > 365 {
            Err(BuildErrorView::InvalidPosixZeroBasedDay(day))
        } else {
            Ok(())
        },
        PosixTransitionRule::MonthWeekday { month, week, weekday } => if !(1 <= month <= 12) {
            Err(BuildErrorView::InvalidPosixMonth(month))
        } else if !(1 <= week <= 5) {
            Err(BuildErrorView::InvalidPosixWeek(week))
        } else if weekday > 6 {
            Err(BuildErrorView::InvalidPosixWeekday(weekday))
        } else {
            Ok(())
        },
    }
}

/// The POSIX text of a transition rule.
pub open spec fn rule_text(r: PosixTransitionRule) -> Seq<u8> {
    match r {
        PosixTransitionRule::JulianWithoutLeapDay { day } => seq![0x4au8] + decimal(day as nat),
        PosixTransitionRule::ZeroBasedDay { day } => decimal(day as nat),
        PosixTransitionRule::MonthWeekday { month, week, weekday } =>
            seq![0x4du8] + decimal(month as nat) + seq![0x2eu8] + decimal(week as nat) + seq![0x2eu8]
                + decimal(weekday as nat),
    }
}

impl PosixTransitionRule {
    /// `Jn`: day `day` of the year, February 29 never counted.
    pub fn julian_without_leap_day(day: u16) -> (r: PosixTransitionRule)
        ensures
            r == (PosixTransitionRule::JulianWithoutLeapDay { day }),
    {
        PosixTransitionRule::JulianWithoutLeapDay { day }
    }

    /// `n`: day `day` of the year counted from zero, February 29 counted.
    pub fn zero_based_day(day: u16) -> (r: PosixTransitionRule)
        ensures
            r == (PosixTransitionRule::ZeroBasedDay { day }),
    {
        PosixTransitionRule::ZeroBasedDay { day }
    }

    /// `Mm.w.d`: weekday `weekday` of week `week` of month `month`.
    pub fn month_weekday(month: u8, week: u8, weekday: u8) -> (r: PosixTransitionRule)
        ensures
            r == (PosixTransitionRule::MonthWeekday { month, week, weekday }),
    {
        PosixTransitionRule::MonthWeekday { month, week, weekday }
    }

    fn validate(self) -> (res: Result<(), TzifBuildError>)
        ensures
            match spec_validate_rule(self) {
                Ok(()) => res is Ok,
                Err(e) => res matches Err(x) && x@ == e,
            },
    {
        match self {
            PosixTransitionRule::JulianWithoutLeapDay { day } => {
                if !(1 <= day && day <= 365) {
                    return Err(TzifBuildError::InvalidPosixJulianDay { day });
                }
            },
            PosixTransitionRule::ZeroBasedDay { day } => {
                if day > 365 {
                    return Err(TzifBuildError::InvalidPosixZeroBasedDay { day });
                }
            },
            PosixTransitionRule::MonthWeekday { month, week, weekday } => {
                if !(1 <= month && month <= 12) {
                    return Err(TzifBuildError::InvalidPosixMonth { month });
                }
                if !(1 <= week && week <= 5) {
                    return Err(TzifBuildError::InvalidPosixWeek { week });
                }
                if weekday > 6 {
                    return Err(TzifBuildError::InvalidPosixWeekday { weekday });
                }
            },
        }
        Ok(())
    }

    fn push_tz_string(self, out: &mut Vec<u8>)
        ensures
            final(out)@ == old(out)@ + rule_text(self),
            is_ascii_bytes(old(out)@) ==> is_ascii_bytes(final(out)@),
    {
        let ghost o = old(out)@;
        match self {
            PosixTransitionRule::JulianWithoutLeapDay { day } => {
                out.push(0x4a);
                push_decimal(out, day as u64);
            },
            PosixTransitionRule::ZeroBasedDay { day } => {
                push_decimal(out, day as u64);
            },
            PosixTransitionRule::MonthWeekday { month, week, weekday } => {
                out.push(0x4d);
                push_decimal(out, month as u64);
                out.push(0x2e);
                push_decimal(out, week as u64);
                out.push(0x2e);
                push_decimal(out, weekday as u64);
            },
        }
        assert(out@ =~= o + rule_text(self));
    }
}

/// The time of day, in seconds after local midnight, at which a POSIX transition happens.
#[derive(Clone, Copy, Debug, PartialEq, Eq, Structural)]
pub struct PosixTransitionTime {
    seconds: i32,
}

/// 02:00, the POSIX default transition time.
pub open spec fn default_transition_seconds() -> i32 {
    7200
}

/// The outcome of checking a transition time: within -167 to 167 hours.
pub open spec fn spec_validate_time(t: PosixTransitionTime) -> Result<(), BuildErrorView> {
    if !(-601200 <= t.spec_seconds() <= 601200) {
        Err(BuildErrorView::InvalidPosixTransitionTime(t.spec_seconds()))
    } else {
        Ok(())
    }
}

/// The text that follows a rule for its time: nothing for 02:00, else `/` and the time.
pub open spec fn time_suffix(t: PosixTransitionTime) -> Seq<u8> {
    if t.spec_seconds() == default_transition_seconds() {
        seq![]
    } else {
        seq![0x2fu8] + duration_text(t.spec_seconds() as int)
    }
}

/// Whether the time needs the RFC 9636 extension of POSIX TZ strings: negative, or
/// more than 24 hours.
pub open spec fn time_uses_extension(t: PosixTransitionTime) -> bool {
    t.spec_seconds() < 0 || t.spec_seconds() / 3600 > 24
}

/// The seconds that `hms` gives: `hours` and then `minutes` and `seconds` with the sign
/// of `hours`, or `i32::MAX` (an invalid time) when minutes or seconds exceed 59 or a
/// step leaves the range of `i32`.
pub open spec fn hms_seconds(hours: i32, minutes: u8, seconds: u8) -> i32 {
    let sign: int = if hours < 0 { -1 } else { 1 };
    let h = hours * 3600;
    let hm = h + sign * minutes * 60;
    let hms = hm + sign * seconds;
    if minutes > 59 || seconds > 59 {
        i32::MAX
    } else if !(i32::MIN <= h <= i32::MAX) || !(i32::MIN <= hm <= i32::MAX) || !(i32::MIN <= hms <= i32::MAX) {
        i32::MAX
    } else {
        hms as i32
    }
}

impl PosixTransitionTime {
    /// The number of seconds the time holds.
    pub closed spec fn spec_seconds(self) -> i32 {
        self.seconds
    }

    /// The seconds determine the time: two times with the same seconds are equal.
    pub proof fn lemma_seconds_determine_time(a: PosixTransitionTime, b: PosixTransitionTime)
        requires
            a.spec_seconds() == b.spec_seconds(),
        ensures
            a == b,
    {
    }

    /// A transition time of `seconds` after local midnight.
    pub fn seconds(seconds: i32) -> (t: PosixTransitionTime)
        ensures
            t.spec_seconds() == seconds,
    {
        PosixTransitionTime { seconds }
    }

    /// A transition time of `hours`, `minutes` and `seconds`, the latter two taking the
    /// sign of `hours`.
    pub fn hms(hours: i32, minutes: u8, seconds: u8) -> (t: PosixTransitionTime)
        ensures
            t.spec_seconds() == hms_seconds(hours, minutes, seconds),
    {
        if minutes > 59 || seconds > 59 {
            return PosixTransitionTime { seconds: i32::MAX };
        }
        let sign: i32 = if hours < 0 { -1 } else { 1 };
        let total = match hours.checked_mul(3600) {
            Some(h) => match h.checked_add(sign * (minutes as i32) * 60) {
                Some(hm) => match hm.checked_add(sign * (seconds as i32)) {
                    Some(v) => v,
                    None => i32::MAX,
                },
                None => i32::MAX,
            },
            None => i32::MAX,
        };
        PosixTransitionTime { seconds: total }
    }

    fn default_time() -> (t: PosixTransitionTime)
        ensures
            t.spec_seconds() == default_transition_seconds(),
    {
        PosixTransitionTime { seconds: 7200 }
    }

    fn validate(self) -> (res: Result<(), TzifBuildError>)
        ensures
            match spec_validate_time(self) {
                Ok(()) => res is Ok,
                Err(e) => res matches Err(x) && x@ == e,
            },
    {
        if !(-601200 <= self.seconds && self.seconds <= 601200) {
            return Err(TzifBuildError::InvalidPosixTransitionTime { seconds: self.seconds });
        }
        Ok(())
    }

    fn push_tz_suffix(self, out: &mut Vec<u8>)
        requires
            spec_validate_time(self) is Ok,
        ensures
            final(out)@ == old(out)@ + time_suffix(self),
            is_ascii_bytes(old(out)@) ==> is_ascii_bytes(final(out)@),
    {
        let ghost o = old(out)@;
        if self.seconds != 7200 {
            out.push(0x2f);
            push_duration(out, self.seconds);
        }
        assert(out@ =~= o + time_suffix(self));
    }

    fn uses_tz_string_extension(self) -> (b: bool)
        ensures
            b == time_uses_extension(self),
    {
        self.seconds < 0 || self.seconds / 3600 > 24
    }
}


// ---------------------------------------------------------------------------
// POSIX TZ footers
// ---------------------------------------------------------------------------

/// A POSIX TZ string to use as a footer: a standard time, and optionally a
/// daylight-saving time with the rules of its start and end.
#[derive(Clone, Debug, PartialEq, Eq)]
pub struct PosixFooter {
    standard_designation: String,
    standard_offset_seconds: i32,
    daylight: Option<PosixDaylight>,
}

#[derive(Clone, Debug, PartialEq, Eq)]
struct PosixDaylight {
    designation: String,
    offset_seconds: i32,
    start: PosixTransitionRule,
    end: PosixTransitionRule,
    start_time: PosixTransitionTime,
    end_time: PosixTransitionTime,
}

/// The daylight-saving part of a POSIX footer.
pub struct DaylightView {
    pub designation: Seq<char>,
    pub offset_seconds: i32,
    pub start: PosixTransitionRule,
    pub end: PosixTransitionRule,
    pub start_time: PosixTransitionTime,
    pub end_time: PosixTransitionTime,
}

/// The contents of a POSIX footer.
pub struct PosixFooterView {
    pub standard_designation: Seq<char>,
    pub standard_offset_seconds: i32,
    pub daylight: Option<DaylightView>,
}

impl View for PosixFooter {
    type V = PosixFooterView;

    closed spec fn view(&self) -> PosixFooterView {
        PosixFooterView {
            standard_designation: self.standard_designation@,
            standard_offset_seconds: self.standard_offset_seconds,
            daylight: match self.daylight {
                Some(d) => Some(
                    DaylightView {
                        designation: d.designation@,
                        offset_seconds: d.offset_seconds,
                        start: d.start,
                        end: d.end,
                        start_time: d.start_time,
                        end_time: d.end_time,
                    },
                ),
                None => None,
            },
        }
    }
}

/// The standard-time part of a POSIX TZ string: designation and offset.
pub open spec fn standard_text(f: PosixFooterView, strict: bool) -> Result<Seq<u8>, BuildErrorView> {
    if spec_validate_designation(f.standard_designation, strict) is Err {
        Err(spec_validate_designation(f.standard_designation, strict)->Err_0)
    } else if spec_validate_posix_offset(f.standard_offset_seconds) is Err {
        Err(spec_validate_posix_offset(f.standard_offset_seconds)->Err_0)
    } else {
        Ok(posix_designation_text(vstd::utf8::encode_utf8(f.standard_designation))
            + duration_text(-(f.standard_offset_seconds as int)))
    }
}

/// Whether daylight time is one hour ahead of standard time, which POSIX implies when
/// the daylight offset is left out.
pub open spec fn offset_implied(d: DaylightView, standard_offset: i32) -> bool {
    d.offset_seconds as int == standard_offset as int + 3600
}

/// The first error among the daylight-saving designation, offset, rules and times.
pub open spec fn daylight_check(d: DaylightView, standard_offset: i32, strict: bool) -> Result<(), BuildErrorView> {
    if spec_validate_designation(d.designation, strict) is Err {
        spec_validate_designation(d.designation, strict)
    } else if spec_validate_utc_offset(d.offset_seconds) is Err {
        spec_validate_utc_offset(d.offset_seconds)
    } else if spec_validate_rule(d.start) is Err {
        spec_validate_rule(d.start)
    } else if spec_validate_rule(d.end) is Err {
        spec_validate_rule(d.end)
    } else if spec_validate_time(d.start_time) is Err {
        spec_validate_time(d.start_time)
    } else if spec_validate_time(d.end_time) is Err {
        spec_validate_time(d.end_time)
    } else if !offset_implied(d, standard_offset) {
        spec_validate_posix_offset(d.offset_seconds)
    } else {
        Ok(())
    }
}

/// The daylight-saving part of a POSIX TZ string: designation, offset unless implied,
/// then the start and end rules with their times.
pub open spec fn daylight_body(d: DaylightView, standard_offset: i32) -> Seq<u8> {
    let named = posix_designation_text(vstd::utf8::encode_utf8(d.designation));
    let with_offset = if offset_implied(d, standard_offset) {
        named
    } else {
        named + duration_text(-(d.offset_seconds as int))
    };
    with_offset + seq![0x2cu8] + rule_text(d.start) + time_suffix(d.start_time) + seq![0x2cu8] + rule_text(d.end)
        + time_suffix(d.end_time)
}

/// The daylight-saving part of a POSIX TZ string, or the first error among its parts.
pub open spec fn daylight_text(d: DaylightView, standard_offset: i32, strict: bool) -> Result<Seq<u8>, BuildErrorView> {
    match daylight_check(d, standard_offset, strict) {
        Err(e) => Err(e),
        Ok(()) => Ok(daylight_body(d, standard_offset)),
    }
}

/// The POSIX TZ string of a footer: its standard part, then its daylight part if any.
pub open spec fn spec_footer_text(f: PosixFooterView, strict: bool) -> Result<Seq<u8>, BuildErrorView> {
    match standard_text(f, strict) {
        Err(e) => Err(e),
        Ok(base) => match f.daylight {
            None => Ok(base),
            Some(d) => match daylight_text(d, f.standard_offset_seconds, strict) {
                Err(e) => Err(e),
                Ok(t) => Ok(base + t),
            },
        },
    }
}

/// Whether the footer needs the RFC 9636 extension: a daylight rule whose start or end
/// time is negative or beyond 24 hours.
pub open spec fn posix_uses_extension(f: PosixFooterView) -> bool {
    f.daylight is Some && (time_uses_extension(f.daylight.unwrap().start_time)
        || time_uses_extension(f.daylight.unwrap().end_time))
}

/// The bytes of an ASCII string are its characters.
proof fn lemma_ascii_str_bytes(s: Seq<char>)
    requires
        vstd::utf8::is_ascii_chars(s),
    ensures
        is_ascii_bytes(vstd::utf8::encode_utf8(s)),
{
    vstd::utf8::is_ascii_chars_encode_utf8(s);
    assert forall|k: int| 0 <= k < vstd::utf8::encode_utf8(s).len() implies #[trigger] vstd::utf8::encode_utf8(s)[k] < 0x80 by {
        assert(s[k] as u8 == vstd::utf8::encode_utf8(s)[k]);
    }
}

impl PosixFooter {
    /// A footer with standard time only.
    pub fn fixed(designation: &str, offset_seconds: i32) -> (f: PosixFooter)
        ensures
            f@ == (PosixFooterView { standard_designation: designation@, standard_offset_seconds: offset_seconds, daylight: None }),
    {
        PosixFooter { standard_designation: designation.to_owned(), standard_offset_seconds: offset_seconds, daylight: None }
    }

    /// A footer with standard and daylight-saving time, switching at 02:00 local time on
    /// the days of `start` and `end`.
    pub fn daylight_saving(
        standard_designation: &str,
        standard_offset_seconds: i32,
        daylight_designation: &str,
        daylight_offset_seconds: i32,
        start: PosixTransitionRule,
        end: PosixTransitionRule,
    ) -> (f: PosixFooter)
        ensures
            f@.standard_designation == standard_designation@,
            f@.standard_offset_seconds == standard_offset_seconds,
            f@.daylight matches Some(d) && d.designation == daylight_designation@
                && d.offset_seconds == daylight_offset_seconds && d.start == start && d.end == end
                && d.start_time.spec_seconds() == default_transition_seconds()
                && d.end_time.spec_seconds() == default_transition_seconds(),
    {
        PosixFooter {
            standard_designation: standard_designation.to_owned(),
            standard_offset_seconds,
            daylight: Some(PosixDaylight {
                designation: daylight_designation.to_owned(),
                offset_seconds: daylight_offset_seconds,
                start,
                end,
                start_time: PosixTransitionTime::default_time(),
                end_time: PosixTransitionTime::default_time(),
            }),
        }
    }

    /// The footer with its daylight-saving start at `time`; unchanged without daylight time.
    pub fn start_time(self, time: PosixTransitionTime) -> (f: PosixFooter)
        ensures
            f@.standard_designation == self@.standard_designation,
            f@.standard_offset_seconds == self@.standard_offset_seconds,
            self@.daylight is None ==> f@.daylight is None,
            self@.daylight matches Some(d) ==> f@.daylight matches Some(e) && e.designation == d.designation
                && e.offset_seconds == d.offset_seconds && e.start == d.start && e.end == d.end
                && e.start_time == time && e.end_time == d.end_time,
    {
        let PosixFooter { standard_designation, standard_offset_seconds, daylight } = self;
        let daylight = match daylight {
            Some(d) => Some(PosixDaylight { start_time: time, ..d }),
            None => None,
        };
        PosixFooter { standard_designation, standard_offset_seconds, daylight }
    }

    /// The footer with its daylight-saving end at `time`; unchanged without daylight time.
    pub fn end_time(self, time: PosixTransitionTime) -> (f: PosixFooter)
        ensures
            f@.standard_designation == self@.standard_designation,
            f@.standard_offset_seconds == self@.standard_offset_seconds,
            self@.daylight is None ==> f@.daylight is None,
            self@.daylight matches Some(d) ==> f@.daylight matches Some(e) && e.designation == d.designation
                && e.offset_seconds == d.offset_seconds && e.start == d.start && e.end == d.end
                && e.start_time == d.start_time && e.end_time == time,
    {
        let PosixFooter { standard_designation, standard_offset_seconds, daylight } = self;
        let daylight = match daylight {
            Some(d) => Some(PosixDaylight { end_time: time, ..d }),
            None => None,
        };
        PosixFooter { standard_designation, standard_offset_seconds, daylight }
    }

    fn push_standard_text(&self, strict_designation: bool, out: &mut Vec<u8>) -> (res: Result<(), TzifBuildError>)
        ensures
            match standard_text(self@, strict_designation) {
                Ok(t) => res is Ok && final(out)@ == old(out)@ + t,
                Err(e) => res matches Err(x) && x@ == e,
            },
            is_ascii_bytes(old(out)@) ==> is_ascii_bytes(final(out)@),
    {
        validate_designation(self.standard_designation.as_str(), strict_designation)?;
        validate_posix_offset(self.standard_offset_seconds)?;
        proof {
            lemma_ascii_str_bytes(self@.standard_designation);
        }
        push_posix_designation(out, self.standard_designation.as_str().as_bytes());
        push_posix_offset(out, self.standard_offset_seconds)?;
        Ok(())
    }

    /// The POSIX TZ string of the footer.
    fn to_tz_string(&self, strict_designation: bool) -> (res: Result<String, TzifBuildError>)
        ensures
            match spec_footer_text(self@, strict_designation) {
                Ok(t) => res matches Ok(s) && vstd::utf8::encode_utf8(s@) == t && is_ascii_bytes(t),
                Err(e) => res matches Err(x) && x@ == e,
            },
    {
        let mut out: Vec<u8> = Vec::new();
        self.push_standard_text(strict_designation, &mut out)?;
        match &self.daylight {
            None => {},
            Some(d) => {
                d.check(self.standard_offset_seconds, strict_designation)?;
                d.push_body(self.standard_offset_seconds, &mut out);
            },
        }
        Ok(crate::text::ascii_string(out))
    }

    fn uses_tz_string_extension(&self) -> (b: bool)
        ensures
            b == posix_uses_extension(self@),
    {
        match &self.daylight {
            Some(d) => d.start_time.uses_tz_string_extension() || d.end_time.uses_tz_string_extension(),
            None => false,
        }
    }
}


impl PosixDaylight {
    closed spec fn view_of(&self) -> DaylightView {
        DaylightView {
            designation: self.designation@,
            offset_seconds: self.offset_seconds,
            start: self.start,
            end: self.end,
            start_time: self.start_time,
            end_time: self.end_time,
        }
    }

    fn check(&self, standard_offset: i32, strict_designation: bool) -> (res: Result<(), TzifBuildError>)
        ensures
            match daylight_check(self.view_of(), standard_offset, strict_designation) {
                Ok(()) => res is Ok,
                Err(e) => res matches Err(x) && x@ == e,
            },
    {
        validate_designation(self.designation.as_str(), strict_designation)?;
        validate_utc_offset(self.offset_seconds)?;
        self.start.validate()?;
        self.end.validate()?;
        self.start_time.validate()?;
        self.end_time.validate()?;
        let implied = match standard_offset.checked_add(3600) {
            Some(v) => v == self.offset_seconds,
            None => false,
        };
        if !implied {
            validate_posix_offset(self.offset_seconds)?;
        }
        Ok(())
    }

    #[verifier::spinoff_prover]
    #[verifier::rlimit(40)]
    fn push_body(&self, standard_offset: i32, out: &mut Vec<u8>)
        requires
            vstd::utf8::is_ascii_chars(self.designation@),
            !offset_implied(self.view_of(), standard_offset) ==> self.offset_seconds != i32::MIN,
            spec_validate_time(self.start_time) is Ok,
            spec_validate_time(self.end_time) is Ok,
        ensures
            final(out)@ == old(out)@ + daylight_body(self.view_of(), standard_offset),
            is_ascii_bytes(old(out)@) ==> is_ascii_bytes(final(out)@),
    {
        let ghost o = old(out)@;
        let ghost d = self.view_of();
        let implied = match standard_offset.checked_add(3600) {
            Some(v) => v == self.offset_seconds,
            None => false,
        };
        assert(implied == offset_implied(d, standard_offset));
        proof {
            lemma_ascii_str_bytes(self.designation@);
        }
        push_posix_designation(out, self.designation.as_str().as_bytes());
        if !implied {
            push_duration(out, -self.offset_seconds);
        }
        let ghost named = if offset_implied(d, standard_offset) {
            posix_designation_text(vstd::utf8::encode_utf8(d.designation))
        } else {
            posix_designation_text(vstd::utf8::encode_utf8(d.designation)) + duration_text(-(d.offset_seconds as int))
        };
        assert(out@ =~= o + named);
        out.push(0x2c);
        self.start.push_tz_string(out);
        self.start_time.push_tz_suffix(out);
        let ghost first = named + seq![0x2cu8] + rule_text(d.start) + time_suffix(d.start_time);
        assert(out@ =~= o + first);
        out.push(0x2c);
        self.end.push_tz_string(out);
        self.end_time.push_tz_suffix(out);
        assert(out@ =~= o + (first + seq![0x2cu8] + rule_text(d.end) + time_suffix(d.end_time)));
    }
}


// ---------------------------------------------------------------------------
// Versions and blocks
// ---------------------------------------------------------------------------

/// How a builder chooses the version of the file it builds.
#[derive(Clone, Copy, Debug, PartialEq, Eq, Structural)]
pub enum VersionPolicy {
    /// Version 2, or version 3 when the footer needs the version 3 extension.
    Auto,
    /// Exactly the given version.
    Exact(Version),
}

impl Default for VersionPolicy {
    fn default() -> (p: VersionPolicy)
        ensures
            p == VersionPolicy::Auto,
    {
        VersionPolicy::Auto
    }
}

/// The version a builder uses, or why it cannot: version 1 has no footer, only
/// version 3 and later carry the footer extension, and version 1 holds only 32-bit
/// transition times.
pub open spec fn spec_resolve_version(
    policy: VersionPolicy,
    times: Seq<i64>,
    has_footer: bool,
    uses_extension: bool,
) -> Result<Version, BuildErrorView> {
    let version = match policy {
        VersionPolicy::Auto => if uses_extension { Version::V3 } else { Version::V2 },
        VersionPolicy::Exact(v) => v,
    };
    if version == Version::V1 && has_footer {
        Err(BuildErrorView::VersionCannotIncludeFooter(version))
    } else if version.rank() < 3 && uses_extension {
        Err(BuildErrorView::VersionCannotRepresentFooterExtension(version))
    } else if version == Version::V1 && first_index(time_outside_i32(times), 0, times.len() as int) is Some {
        Err(BuildErrorView::TransitionOutOfRangeForVersion(
            version,
            times[first_index(time_outside_i32(times), 0, times.len() as int).unwrap()],
        ))
    } else {
        Ok(version)
    }
}

fn resolve_version(
    policy: VersionPolicy,
    transition_times: &Vec<i64>,
    has_footer: bool,
    footer_uses_tz_string_extension: bool,
) -> (res: Result<Version, TzifBuildError>)
    ensures
        match spec_resolve_version(policy, transition_times@, has_footer, footer_uses_tz_string_extension) {
            Ok(v) => res == Ok::<Version, TzifBuildError>(v),
            Err(e) => res matches Err(x) && x@ == e,
        },
{
    let auto = if footer_uses_tz_string_extension { Version::V3 } else { Version::V2 };
    let version = match policy {
        VersionPolicy::Auto => auto,
        VersionPolicy::Exact(version) => version,
    };
    if matches!(version, Version::V1) && has_footer {
        return Err(TzifBuildError::VersionCannotIncludeFooter { version });
    }
    if !version.at_least_v3() && footer_uses_tz_string_extension {
        return Err(TzifBuildError::VersionCannotRepresentFooterExtension { version });
    }
    if matches!(version, Version::V1) {
        let mut i: usize = 0;
        while i < transition_times.len()
            invariant
                0 <= i <= transition_times@.len(),
                first_index(time_outside_i32(transition_times@), 0, transition_times@.len() as int)
                    == first_index(time_outside_i32(transition_times@), i as int, transition_times@.len() as int),
            decreases transition_times@.len() - i,
        {
            let timestamp = transition_times[i];
            if timestamp < i32::MIN as i64 || timestamp > i32::MAX as i64 {
                return Err(TzifBuildError::TransitionOutOfRangeForVersion { version, timestamp });
            }
            i = i + 1;
        }
    }
    Ok(version)
}

/// The designation table of `ds`: each designation's bytes followed by a NUL.
pub open spec fn designation_table_bytes(ds: Seq<Seq<char>>) -> Seq<u8>
    decreases ds.len(),
{
    if ds.len() == 0 {
        seq![]
    } else {
        designation_table_bytes(ds.drop_last()) + vstd::utf8::encode_utf8(ds.last()) + seq![0u8]
    }
}

fn designation_table(ds: &Vec<String>) -> (t: Vec<u8>)
    ensures
        t@ == designation_table_bytes(ds@.map_values(|s: String| s@)),
{
    let ghost v = ds@.map_values(|s: String| s@);
    let mut t: Vec<u8> = Vec::new();
    let mut i: usize = 0;
    while i < ds.len()
        invariant
            0 <= i <= ds@.len(),
            v == ds@.map_values(|s: String| s@),
            t@ == designation_table_bytes(v.subrange(0, i as int)),
        decreases ds@.len() - i,
    {
        let b = ds[i].as_str().as_bytes();
        let mut k: usize = 0;
        let ghost t0 = t@;
        while k < b.len()
            invariant
                0 <= k <= b@.len(),
                t@ == t0 + b@.subrange(0, k as int),
            decreases b@.len() - k,
        {
            t.push(b[k]);
            assert(b@.subrange(0, k + 1) =~= b@.subrange(0, k as int).push(b@[k as int]));
            k = k + 1;
        }
        t.push(0);
        proof {
            assert(b@.subrange(0, b@.len() as int) =~= b@);
            assert(v.subrange(0, i + 1).drop_last() =~= v.subrange(0, i as int));
            assert(t@ =~= designation_table_bytes(v.subrange(0, i + 1)));
        }
        i = i + 1;
    }
    assert(v.subrange(0, ds@.len() as int) =~= v);
    t
}

/// The time values of `times` that fit in 32 bits, in order.
pub open spec fn fitting_times(times: Seq<i64>) -> Seq<i64>
    decreases times.len(),
{
    if times.len() == 0 {
        seq![]
    } else {
        fitting_times(times.drop_last()) + if outside_i32(times.last()) { seq![] } else { seq![times.last()] }
    }
}

/// The transition types whose transitions fit in 32 bits, in order.
pub open spec fn fitting_types(times: Seq<i64>, types: Seq<u8>) -> Seq<u8>
    decreases times.len(),
{
    if times.len() == 0 {
        seq![]
    } else {
        fitting_types(times.drop_last(), types) + if outside_i32(times.last()) {
            seq![]
        } else {
            seq![types[times.len() - 1]]
        }
    }
}

/// The leap-second records whose occurrence fits in 32 bits, in order.
pub open spec fn fitting_leap_seconds(leaps: Seq<LeapSecond>) -> Seq<LeapSecond>
    decreases leaps.len(),
{
    if leaps.len() == 0 {
        seq![]
    } else {
        fitting_leap_seconds(leaps.drop_last()) + if outside_i32(leaps.last().occurrence) {
            seq![]
        } else {
            seq![leaps.last()]
        }
    }
}

/// The version 1 block that goes with a 64-bit block: the same types, designations and
/// indicators, and the transitions and leap seconds that fit in 32 bits.
pub open spec fn v1_compatible(b: BlockView) -> BlockView {
    BlockView {
        transition_times: fitting_times(b.transition_times),
        transition_types: fitting_types(b.transition_times, b.transition_types),
        local_time_types: b.local_time_types,
        designations: b.designations,
        leap_seconds: fitting_leap_seconds(b.leap_seconds),
        standard_wall_indicators: b.standard_wall_indicators,
        ut_local_indicators: b.ut_local_indicators,
    }
}

fn copy_vec<T: Copy>(v: &Vec<T>) -> (r: Vec<T>)
    ensures
        r@ == v@,
{
    let mut r: Vec<T> = Vec::new();
    let mut i: usize = 0;
    while i < v.len()
        invariant
            0 <= i <= v@.len(),
            r@ == v@.subrange(0, i as int),
        decreases v@.len() - i,
    {
        r.push(v[i]);
        assert(v@.subrange(0, i + 1) =~= v@.subrange(0, i as int).push(v@[i as int]));
        i = i + 1;
    }
    assert(v@.subrange(0, v@.len() as int) =~= v@);
    r
}

/// A copy of a block.
fn copy_block(b: &DataBlock) -> (c: DataBlock)
    ensures
        c@ == b@,
{
    DataBlock {
        transition_times: copy_vec(&b.transition_times),
        transition_types: copy_vec(&b.transition_types),
        local_time_types: copy_vec(&b.local_time_types),
        designations: copy_vec(&b.designations),
        leap_seconds: copy_vec(&b.leap_seconds),
        standard_wall_indicators: copy_vec(&b.standard_wall_indicators),
        ut_local_indicators: copy_vec(&b.ut_local_indicators),
    }
}

fn version_one_compatible_block(block: &DataBlock) -> (v1: DataBlock)
    requires
        block.transition_types@.len() == block.transition_times@.len(),
    ensures
        v1@ == v1_compatible(block@),
{
    let mut leaps: Vec<LeapSecond> = Vec::new();
    let mut i: usize = 0;
    while i < block.leap_seconds.len()
        invariant
            0 <= i <= block.leap_seconds@.len(),
            leaps@ == fitting_leap_seconds(block.leap_seconds@.subrange(0, i as int)),
        decreases block.leap_seconds@.len() - i,
    {
        let l = block.leap_seconds[i];
        if i32::MIN as i64 <= l.occurrence && l.occurrence <= i32::MAX as i64 {
            leaps.push(l);
        }
        proof {
            let s = block.leap_seconds@.subrange(0, i + 1);
            assert(s.drop_last() =~= block.leap_seconds@.subrange(0, i as int));
            assert(leaps@ =~= fitting_leap_seconds(s));
        }
        i = i + 1;
    }
    assert(block.leap_seconds@.subrange(0, block.leap_seconds@.len() as int) =~= block.leap_seconds@);
    let mut times: Vec<i64> = Vec::new();
    let mut types: Vec<u8> = Vec::new();
    let mut j: usize = 0;
    while j < block.transition_times.len()
        invariant
            0 <= j <= block.transition_times@.len(),
            block.transition_types@.len() == block.transition_times@.len(),
            times@ == fitting_times(block.transition_times@.subrange(0, j as int)),
            types@ == fitting_types(block.transition_times@.subrange(0, j as int), block.transition_types@),
        decreases block.transition_times@.len() - j,
    {
        let t = block.transition_times[j];
        if i32::MIN as i64 <= t && t <= i32::MAX as i64 {
            times.push(t);
            types.push(block.transition_types[j]);
        }
        proof {
            let s = block.transition_times@.subrange(0, j + 1);
            assert(s.drop_last() =~= block.transition_times@.subrange(0, j as int));
            assert(times@ =~= fitting_times(s));
            assert(types@ =~= fitting_types(s, block.transition_types@));
        }
        j = j + 1;
    }
    assert(block.transition_times@.subrange(0, block.transition_times@.len() as int) =~= block.transition_times@);
    DataBlock {
        transition_times: times,
        transition_types: types,
        local_time_types: copy_vec(&block.local_time_types),
        designations: copy_vec(&block.designations),
        leap_seconds: leaps,
        standard_wall_indicators: copy_vec(&block.standard_wall_indicators),
        ut_local_indicators: copy_vec(&block.ut_local_indicators),
    }
}


// ---------------------------------------------------------------------------
// Builders
// ---------------------------------------------------------------------------

/// Entry point of the builders.
pub struct TzifBuilder;

/// Builds the file of a zone with one fixed UTC offset.
#[derive(Clone, Debug)]
pub struct FixedOffsetBuilder {
    designation: String,
    offset_seconds: i32,
    version_policy: VersionPolicy,
}

/// The settings of a fixed-offset builder.
pub struct FixedOffsetView {
    pub designation: Seq<char>,
    pub offset_seconds: i32,
    pub version_policy: VersionPolicy,
}

impl View for FixedOffsetBuilder {
    type V = FixedOffsetView;

    closed spec fn view(&self) -> FixedOffsetView {
        FixedOffsetView {
            designation: self.designation@,
            offset_seconds: self.offset_seconds,
            version_policy: self.version_policy,
        }
    }
}

/// A block with one local time type of offset `o`, designated `d`, and no transitions.
pub open spec fn fixed_offset_block(d: Seq<char>, o: i32) -> BlockView {
    BlockView {
        transition_times: seq![],
        transition_types: seq![],
        local_time_types: seq![LocalTimeType { utc_offset: o, is_dst: false, designation_index: 0 }],
        designations: vstd::utf8::encode_utf8(d) + seq![0u8],
        leap_seconds: seq![],
        standard_wall_indicators: seq![],
        ut_local_indicators: seq![],
    }
}

/// The file that a fixed-offset builder gives, or the first error: the designation
/// (3 to 6 characters), the offset, the version, and for version 2 and later the POSIX
/// footer `<designation><offset>`. Both blocks of a version 2+ file are the same.
pub open spec fn spec_fixed_offset_build(b: FixedOffsetView) -> Result<FileView, BuildErrorView> {
    let has_footer = b.version_policy != VersionPolicy::Exact(Version::V1);
    let block = fixed_offset_block(b.designation, b.offset_seconds);
    if spec_validate_designation(b.designation, true) is Err {
        Err(spec_validate_designation(b.designation, true)->Err_0)
    } else if spec_validate_utc_offset(b.offset_seconds) is Err {
        Err(spec_validate_utc_offset(b.offset_seconds)->Err_0)
    } else {
        match spec_resolve_version(b.version_policy, seq![], has_footer, false) {
            Err(e) => Err(e),
            Ok(Version::V1) => Ok(FileView { version: Version::V1, v1: block, v2_plus: None, footer: None }),
            Ok(v) => match spec_posix_offset(b.offset_seconds) {
                Err(e) => Err(e),
                Ok(t) => Ok(
                    FileView {
                        version: v,
                        v1: block,
                        v2_plus: Some(block),
                        footer: Some(vstd::utf8::decode_utf8(
                            posix_designation_text(vstd::utf8::encode_utf8(b.designation)) + t,
                        )),
                    },
                ),
            },
        }
    }
}

/// The result `r` is the specified outcome `s`.
pub open spec fn build_agrees(r: Result<TzifFile, TzifBuildError>, s: Result<FileView, BuildErrorView>) -> bool {
    match (r, s) {
        (Ok(f), Ok(v)) => f@ == v,
        (Err(e), Err(x)) => e@ == x,
        _ => false,
    }
}

impl TzifBuilder {
    /// A builder for a zone that always has offset `offset_seconds` and designation
    /// `designation`; version 2 by default.
    pub fn fixed_offset(designation: &str, offset_seconds: i32) -> (b: FixedOffsetBuilder)
        ensures
            b@ == (FixedOffsetView { designation: designation@, offset_seconds, version_policy: VersionPolicy::Auto }),
    {
        FixedOffsetBuilder { designation: designation.to_owned(), offset_seconds, version_policy: VersionPolicy::Auto }
    }

    /// A builder for a zone given by explicit transitions.
    pub fn transitions() -> (b: ExplicitTransitionsBuilder)
        ensures
            b@ == (ExplicitTransitionsView {
                designations: seq![],
                local_time_types: seq![],
                transitions: seq![],
                footer: None,
                version_policy: VersionPolicy::Auto,
            }),
    {
        ExplicitTransitionsBuilder::new()
    }
}

fn fixed_offset_footer(designation: &str, offset_seconds: i32) -> (res: Result<String, TzifBuildError>)
    requires
        vstd::utf8::is_ascii_chars(designation@),
    ensures
        match spec_posix_offset(offset_seconds) {
            Ok(t) => res matches Ok(s) && s@ == vstd::utf8::decode_utf8(
                posix_designation_text(vstd::utf8::encode_utf8(designation@)) + t),
            Err(e) => res matches Err(x) && x@ == e,
        },
{
    validate_posix_offset(offset_seconds)?;
    proof {
        lemma_ascii_str_bytes(designation@);
    }
    let mut out: Vec<u8> = Vec::new();
    push_posix_designation(&mut out, designation.as_bytes());
    push_posix_offset(&mut out, offset_seconds)?;
    Ok(crate::text::ascii_string(out))
}

impl FixedOffsetBuilder {
    /// The builder with version policy `version_policy`.
    pub fn version_policy(self, version_policy: VersionPolicy) -> (b: FixedOffsetBuilder)
        ensures
            b@ == (FixedOffsetView { version_policy, ..self@ }),
    {
        FixedOffsetBuilder { version_policy, ..self }
    }

    /// The builder with exactly version `version`.
    pub fn version(self, version: Version) -> (b: FixedOffsetBuilder)
        ensures
            b@ == (FixedOffsetView { version_policy: VersionPolicy::Exact(version), ..self@ }),
    {
        FixedOffsetBuilder { version_policy: VersionPolicy::Exact(version), ..self }
    }

    /// Builds the file of the fixed-offset zone.
    pub fn build(self) -> (res: Result<TzifFile, TzifBuildError>)
        ensures
            build_agrees(res, spec_fixed_offset_build(self@)),
    {
        let has_footer = !matches!(self.version_policy, VersionPolicy::Exact(Version::V1));
        validate_designation(self.designation.as_str(), true)?;
        validate_utc_offset(self.offset_seconds)?;
        let mut types: Vec<LocalTimeType> = Vec::new();
        types.push(LocalTimeType { utc_offset: self.offset_seconds, is_dst: false, designation_index: 0 });
        let mut names: Vec<String> = Vec::new();
        names.push(self.designation.clone());
        let table = designation_table(&names);
        proof {
            let v = names@.map_values(|s: String| s@);
            assert(v.len() == 1);
            assert(v.last() == self@.designation);
            assert(v.drop_last() =~= Seq::<Seq<char>>::empty());
            assert(designation_table_bytes(v.drop_last()) =~= Seq::<u8>::empty());
            assert(table@ =~= vstd::utf8::encode_utf8(self@.designation) + seq![0u8]);
        }
        let block = DataBlock::new(types, table);
        let no_times: Vec<i64> = Vec::new();
        let version = resolve_version(self.version_policy, &no_times, has_footer, false)?;
        assert(block@ =~= fixed_offset_block(self@.designation, self@.offset_seconds));
        match version {
            Version::V1 => Ok(TzifFile::v1(block)),
            _ => {
                let footer = fixed_offset_footer(self.designation.as_str(), self.offset_seconds)?;
                let v1 = copy_block(&block);
                let f = match version {
                    Version::V2 => TzifFile::v2(v1, block, footer.as_str()),
                    Version::V3 => TzifFile::v3(v1, block, footer.as_str()),
                    _ => TzifFile::v4(v1, block, footer.as_str()),
                };
                Ok(f)
            },
        }
    }
}


#[derive(Clone, Debug)]
struct PendingLocalTimeType {
    designation: String,
    offset_seconds: i32,
    is_dst: bool,
}

#[derive(Clone, Debug)]
struct PendingTransition {
    timestamp: i64,
    designation: String,
}

#[derive(Clone, Debug)]
enum PendingFooter {
    Raw(String),
    Posix(PosixFooter),
}

/// A local time type as given to the builder.
pub struct PendingTypeView {
    pub designation: Seq<char>,
    pub offset_seconds: i32,
    pub is_dst: bool,
}

/// A transition as given to the builder.
pub struct PendingTransitionView {
    pub timestamp: i64,
    pub designation: Seq<char>,
}

/// A footer as given to the builder: a string as it is, or a POSIX footer to write out.
pub enum PendingFooterView {
    Raw(Seq<char>),
    Posix(PosixFooterView),
}

/// Builds the file of a zone from explicit designations, local time types and transitions.
#[derive(Clone, Debug)]
pub struct ExplicitTransitionsBuilder {
    designations: Vec<String>,
    local_time_types: Vec<PendingLocalTimeType>,
    transitions: Vec<PendingTransition>,
    footer: Option<PendingFooter>,
    version_policy: VersionPolicy,
}

/// The settings of an explicit-transitions builder.
#[verifier::ext_equal]
pub struct ExplicitTransitionsView {
    pub designations: Seq<Seq<char>>,
    pub local_time_types: Seq<PendingTypeView>,
    pub transitions: Seq<PendingTransitionView>,
    pub footer: Option<PendingFooterView>,
    pub version_policy: VersionPolicy,
}

impl PendingLocalTimeType {
    closed spec fn view_of(&self) -> PendingTypeView {
        PendingTypeView { designation: self.designation@, offset_seconds: self.offset_seconds, is_dst: self.is_dst }
    }
}

impl PendingTransition {
    closed spec fn view_of(&self) -> PendingTransitionView {
        PendingTransitionView { timestamp: self.timestamp, designation: self.designation@ }
    }
}

impl PendingFooter {
    closed spec fn view_of(&self) -> PendingFooterView {
        match self {
            PendingFooter::Raw(s) => PendingFooterView::Raw(s@),
            PendingFooter::Posix(f) => PendingFooterView::Posix(f@),
        }
    }
}

impl View for ExplicitTransitionsBuilder {
    type V = ExplicitTransitionsView;

    closed spec fn view(&self) -> ExplicitTransitionsView {
        ExplicitTransitionsView {
            designations: self.designations@.map_values(|s: String| s@),
            local_time_types: self.local_time_types@.map_values(|t: PendingLocalTimeType| t.view_of()),
            transitions: self.transitions@.map_values(|t: PendingTransition| t.view_of()),
            footer: match self.footer {
                Some(f) => Some(f.view_of()),
                None => None,
            },
            version_policy: self.version_policy,
        }
    }
}

impl ExplicitTransitionsBuilder {
    fn new() -> (b: ExplicitTransitionsBuilder)
        ensures
            b@ == (ExplicitTransitionsView {
                designations: seq![],
                local_time_types: seq![],
                transitions: seq![],
                footer: None,
                version_policy: VersionPolicy::Auto,
            }),
    {
        let b = ExplicitTransitionsBuilder {
            designations: Vec::new(),
            local_time_types: Vec::new(),
            transitions: Vec::new(),
            footer: None,
            version_policy: VersionPolicy::Auto,
        };
        assert(b@ =~= (ExplicitTransitionsView {
            designations: seq![],
            local_time_types: seq![],
            transitions: seq![],
            footer: None,
            version_policy: VersionPolicy::Auto,
        }));
        b
    }

    /// The builder with `designation` added to the designation table, ahead of those
    /// that only local time types name.
    pub fn designation(self, designation: &str) -> (b: ExplicitTransitionsBuilder)
        ensures
            b@ == (ExplicitTransitionsView { designations: self@.designations.push(designation@), ..self@ }),
    {
        let mut b = self;
        b.designations.push(designation.to_owned());
        assert(b@.designations =~= self@.designations.push(designation@));
        b
    }

    /// The builder with a local time type of offset `offset_seconds`, designated
    /// `designation`, added.
    pub fn local_time_type(self, designation: &str, offset_seconds: i32, is_dst: bool) -> (b: ExplicitTransitionsBuilder)
        ensures
            b@ == (ExplicitTransitionsView {
                local_time_types: self@.local_time_types.push(
                    PendingTypeView { designation: designation@, offset_seconds, is_dst },
                ),
                ..self@
            }),
    {
        let mut b = self;
        b.local_time_types.push(PendingLocalTimeType { designation: designation.to_owned(), offset_seconds, is_dst });
        assert(b@.local_time_types =~= self@.local_time_types.push(
            PendingTypeView { designation: designation@, offset_seconds, is_dst },
        ));
        b
    }

    /// The builder with a transition at `timestamp` to the local time type designated
    /// `designation` added.
    pub fn transition(self, timestamp: i64, designation: &str) -> (b: ExplicitTransitionsBuilder)
        ensures
            b@ == (ExplicitTransitionsView {
                transitions: self@.transitions.push(PendingTransitionView { timestamp, designation: designation@ }),
                ..self@
            }),
    {
        let mut b = self;
        b.transitions.push(PendingTransition { timestamp, designation: designation.to_owned() });
        assert(b@.transitions =~= self@.transitions.push(PendingTransitionView { timestamp, designation: designation@ }));
        b
    }

    /// The builder with the footer string `footer`, used as it is.
    pub fn footer(self, footer: &str) -> (b: ExplicitTransitionsBuilder)
        ensures
            b@ == (ExplicitTransitionsView { footer: Some(PendingFooterView::Raw(footer@)), ..self@ }),
    {
        let mut b = self;
        b.footer = Some(PendingFooter::Raw(footer.to_owned()));
        b
    }

    /// The builder with a POSIX footer, written out when the file is built.
    pub fn posix_footer(self, footer: PosixFooter) -> (b: ExplicitTransitionsBuilder)
        ensures
            b@ == (ExplicitTransitionsView { footer: Some(PendingFooterView::Posix(footer@)), ..self@ }),
    {
        let mut b = self;
        b.footer = Some(PendingFooter::Posix(footer));
        b
    }

    /// The builder with version policy `version_policy`.
    pub fn version_policy(self, version_policy: VersionPolicy) -> (b: ExplicitTransitionsBuilder)
        ensures
            b@ == (ExplicitTransitionsView { version_policy, ..self@ }),
    {
        let mut b = self;
        b.version_policy = version_policy;
        b
    }

    /// The builder with exactly version `version`.
    pub fn version(self, version: Version) -> (b: ExplicitTransitionsBuilder)
        ensures
            b@ == (ExplicitTransitionsView { version_policy: VersionPolicy::Exact(version), ..self@ }),
    {
        let mut b = self;
        b.version_policy = VersionPolicy::Exact(version);
        b
    }
}


// ---------------------------------------------------------------------------
// Building from explicit transitions
// ---------------------------------------------------------------------------

/// The characters of each string.
pub open spec fn chars_of(v: Seq<String>) -> Seq<Seq<char>> {
    v.map_values(|s: String| s@)
}

/// The designations of the table: those given, then those that only the first `n`
/// local time types name, each once, in order of first use.
pub open spec fn normalized(ds: Seq<Seq<char>>, types: Seq<PendingTypeView>, n: int) -> Seq<Seq<char>>
    decreases n,
{
    if n <= 0 {
        ds
    } else {
        let prev = normalized(ds, types, n - 1);
        if prev.contains(types[n - 1].designation) {
            prev
        } else {
            prev.push(types[n - 1].designation)
        }
    }
}

/// Holds at `k` when `vs[k]` is `s`.
pub open spec fn is_str(vs: Seq<Seq<char>>, s: Seq<char>) -> spec_fn(int) -> bool {
    |k: int| vs[k] == s
}

/// The position of the first `s` in `vs`.
pub open spec fn index_in(vs: Seq<Seq<char>>, s: Seq<char>) -> Option<int> {
    first_index(is_str(vs, s), 0, vs.len() as int)
}

/// Holds at `k` when designation `k` is not a valid RFC 9636 designation.
pub open spec fn invalid_designation(vs: Seq<Seq<char>>) -> spec_fn(int) -> bool {
    |k: int| spec_validate_designation(vs[k], true) is Err
}

/// Holds at `k` when designation `k` repeats an earlier one.
pub open spec fn repeated_designation(vs: Seq<Seq<char>>) -> spec_fn(int) -> bool {
    |k: int| exists|j: int| 0 <= j < k && vs[j] == #[trigger] vs[k]
}

/// The offset in the designation table at which designation `k` starts.
pub open spec fn table_offset(vs: Seq<Seq<char>>, k: int) -> int
    decreases k,
{
    if k <= 0 {
        0
    } else {
        table_offset(vs, k - 1) + vstd::utf8::encode_utf8(vs[k - 1]).len() + 1
    }
}

/// Holds at `k` when designation `k` starts beyond what a one-byte index reaches.
pub open spec fn offset_too_large(vs: Seq<Seq<char>>) -> spec_fn(int) -> bool {
    |k: int| table_offset(vs, k) > 255
}

/// The error, if any, of local time type `t`: a designation not in the table, or an
/// invalid offset.
pub open spec fn type_error(vs: Seq<Seq<char>>, t: PendingTypeView) -> Option<BuildErrorView> {
    if index_in(vs, t.designation) is None {
        Some(BuildErrorView::UnknownDesignation(t.designation))
    } else if t.offset_seconds == i32::MIN {
        Some(BuildErrorView::InvalidUtcOffset)
    } else {
        None
    }
}

pub open spec fn has_type_error(vs: Seq<Seq<char>>, types: Seq<PendingTypeView>) -> spec_fn(int) -> bool {
    |i: int| type_error(vs, types[i]) is Some
}

/// The local time type record of `t`.
pub open spec fn built_type(vs: Seq<Seq<char>>, t: PendingTypeView) -> LocalTimeType {
    LocalTimeType {
        utc_offset: t.offset_seconds,
        is_dst: t.is_dst,
        designation_index: table_offset(vs, index_in(vs, t.designation).unwrap()) as u8,
    }
}

/// Holds at `i` when type `i` repeats the designation of an earlier type.
pub open spec fn repeated_type(types: Seq<PendingTypeView>) -> spec_fn(int) -> bool {
    |i: int| exists|j: int| 0 <= j < i && types[j].designation == #[trigger] types[i].designation
}

/// Holds at `i` when type `i` repeats a designation or cannot have a one-byte index.
pub open spec fn type_index_error(types: Seq<PendingTypeView>) -> spec_fn(int) -> bool {
    |i: int| repeated_type(types)(i) || i > 255
}

/// The index of the local time type designated `s`.
pub open spec fn type_index_of(types: Seq<PendingTypeView>, s: Seq<char>) -> Option<int> {
    first_index(|i: int| types[i].designation == s, 0, types.len() as int)
}

/// Holds at `k` when transition `k` is not after the one before it, or names no type.
pub open spec fn transition_error(types: Seq<PendingTypeView>, trs: Seq<PendingTransitionView>) -> spec_fn(int) -> bool {
    |k: int| (k > 0 && trs[k].timestamp <= trs[k - 1].timestamp) || type_index_of(types, trs[k].designation) is None
}

/// The footer string of a pending footer.
pub open spec fn pending_footer_text(f: PendingFooterView) -> Result<Seq<char>, BuildErrorView> {
    match f {
        PendingFooterView::Raw(v) => Ok(v),
        PendingFooterView::Posix(p) => match spec_footer_text(p, true) {
            Ok(t) => Ok(vstd::utf8::decode_utf8(t)),
            Err(e) => Err(e),
        },
    }
}

/// Whether a pending footer needs the version 3 extension.
pub open spec fn pending_footer_extension(f: PendingFooterView) -> bool {
    match f {
        PendingFooterView::Raw(v) => spec_uses_tz_string_extension(vstd::utf8::encode_utf8(v)),
        PendingFooterView::Posix(p) => posix_uses_extension(p),
    }
}

/// The 64-bit block that the builder's settings describe.
pub open spec fn built_block(b: ExplicitTransitionsView) -> BlockView {
    let vs = normalized(b.designations, b.local_time_types, b.local_time_types.len() as int);
    BlockView {
        transition_times: b.transitions.map_values(|t: PendingTransitionView| t.timestamp),
        transition_types: b.transitions.map_values(
            |t: PendingTransitionView| type_index_of(b.local_time_types, t.designation).unwrap() as u8,
        ),
        local_time_types: b.local_time_types.map_values(|t: PendingTypeView| built_type(vs, t)),
        designations: designation_table_bytes(vs),
        leap_seconds: seq![],
        standard_wall_indicators: seq![],
        ut_local_indicators: seq![],
    }
}

/// The first error, if any, among the designations, local time types and transitions.
pub open spec fn explicit_input_error(b: ExplicitTransitionsView) -> Option<BuildErrorView> {
    let types = b.local_time_types;
    let trs = b.transitions;
    let vs = normalized(b.designations, types, types.len() as int);
    let n = vs.len() as int;
    if first_index(invalid_designation(vs), 0, n) is Some {
        Some(spec_validate_designation(vs[first_index(invalid_designation(vs), 0, n).unwrap()], true)->Err_0)
    } else if first_index(repeated_designation(vs), 0, n) is Some {
        Some(BuildErrorView::DuplicateDesignation(vs[first_index(repeated_designation(vs), 0, n).unwrap()]))
    } else if first_index(offset_too_large(vs), 0, n) is Some {
        Some(BuildErrorView::InvalidTzif(TzifError::CountOverflow {
            field: "charcnt",
            count: table_offset(vs, first_index(offset_too_large(vs), 0, n).unwrap()) as usize,
        }))
    } else if types.len() == 0 {
        Some(BuildErrorView::UnknownDesignation("local time type"@))
    } else if first_index(has_type_error(vs, types), 0, types.len() as int) is Some {
        type_error(vs, types[first_index(has_type_error(vs, types), 0, types.len() as int).unwrap()])
    } else if first_index(type_index_error(types), 0, types.len() as int) is Some {
        let i = first_index(type_index_error(types), 0, types.len() as int).unwrap();
        if repeated_type(types)(i) {
            Some(BuildErrorView::DuplicateDesignation(types[i].designation))
        } else {
            Some(BuildErrorView::InvalidTzif(TzifError::TooManyLocalTimeTypes(i as usize)))
        }
    } else if first_index(transition_error(types, trs), 0, trs.len() as int) is Some {
        let k = first_index(transition_error(types, trs), 0, trs.len() as int).unwrap();
        if k > 0 && trs[k].timestamp <= trs[k - 1].timestamp {
            Some(BuildErrorView::UnsortedTransitions)
        } else {
            Some(BuildErrorView::UnknownDesignation(trs[k].designation))
        }
    } else {
        None
    }
}

/// The file that an explicit-transitions builder gives, or the first error: in its
/// inputs, in its footer, or in the version. A version 2+ file pairs the built block
/// with its 32-bit subset and has the footer, or an empty one.
pub open spec fn spec_explicit_build(b: ExplicitTransitionsView) -> Result<FileView, BuildErrorView> {
    if explicit_input_error(b) is Some {
        Err(explicit_input_error(b).unwrap())
    } else if b.footer is Some && pending_footer_text(b.footer.unwrap()) is Err {
        Err(pending_footer_text(b.footer.unwrap())->Err_0)
    } else {
        let block = built_block(b);
        let ext = b.footer is Some && pending_footer_extension(b.footer.unwrap());
        match spec_resolve_version(b.version_policy, block.transition_times, b.footer is Some, ext) {
            Err(e) => Err(e),
            Ok(Version::V1) => Ok(FileView { version: Version::V1, v1: block, v2_plus: None, footer: None }),
            Ok(v) => Ok(
                FileView {
                    version: v,
                    v1: v1_compatible(block),
                    v2_plus: Some(block),
                    footer: Some(if b.footer is Some { pending_footer_text(b.footer.unwrap())->Ok_0 } else { seq![] }),
                },
            ),
        }
    }
}


/// The position of the first string in `vs` equal to `s`.
///
/// Designations are looked up by a linear search over a `Vec` rather than through a
/// `BTreeMap` or `BTreeSet` keyed by `String`: the order and equality of `String` keys
/// in such a collection rest on impls that Verus has no specification of, so nothing
/// could be proved of a lookup, while this search is proved against `index_in`. A zone
/// has few designations, so the search costs little.
fn find_str(vs: &Vec<String>, s: &str) -> (r: Option<usize>)
    ensures
        r matches Some(k) ==> index_in(chars_of(vs@), s@) == Some(k as int) && k < vs@.len(),
        r is None ==> index_in(chars_of(vs@), s@) is None,
{
    let ghost cs = chars_of(vs@);
    let mut k: usize = 0;
    while k < vs.len()
        invariant
            0 <= k <= vs@.len(),
            cs == chars_of(vs@),
            index_in(cs, s@) == first_index(is_str(cs, s@), k as int, cs.len() as int),
        decreases vs@.len() - k,
    {
        if crate::text::str_equal(vs[k].as_str(), s) {
            return Some(k);
        }
        k = k + 1;
    }
    None
}

/// The position of the first local time type designated `s`.
fn find_type(types: &Vec<PendingLocalTimeType>, s: &str) -> (r: Option<usize>)
    ensures
        r matches Some(k) ==> type_index_of(types@.map_values(|t: PendingLocalTimeType| t.view_of()), s@) == Some(k as int)
            && k < types@.len(),
        r is None ==> type_index_of(types@.map_values(|t: PendingLocalTimeType| t.view_of()), s@) is None,
{
    let ghost ts = types@.map_values(|t: PendingLocalTimeType| t.view_of());
    let mut k: usize = 0;
    while k < types.len()
        invariant
            0 <= k <= types@.len(),
            ts == types@.map_values(|t: PendingLocalTimeType| t.view_of()),
            type_index_of(ts, s@) == first_index(|i: int| ts[i].designation == s@, k as int, ts.len() as int),
        decreases types@.len() - k,
    {
        if crate::text::str_equal(types[k].designation.as_str(), s) {
            return Some(k);
        }
        k = k + 1;
    }
    None
}

fn copy_strings(vs: &Vec<String>) -> (r: Vec<String>)
    ensures
        chars_of(r@) == chars_of(vs@),
{
    let mut r: Vec<String> = Vec::new();
    let mut i: usize = 0;
    while i < vs.len()
        invariant
            0 <= i <= vs@.len(),
            chars_of(r@) == chars_of(vs@).subrange(0, i as int),
        decreases vs@.len() - i,
    {
        r.push(vs[i].clone());
        assert(chars_of(r@) =~= chars_of(vs@).subrange(0, i + 1));
        i = i + 1;
    }
    assert(chars_of(vs@).subrange(0, vs@.len() as int) =~= chars_of(vs@));
    r
}

impl ExplicitTransitionsBuilder {
    /// The designations of the table, before any check.
    fn collect_designations(&self) -> (vs: Vec<String>)
        ensures
            chars_of(vs@) == normalized(self@.designations, self@.local_time_types, self@.local_time_types.len() as int),
    {
        let mut values = copy_strings(&self.designations);
        let ghost ds = self@.designations;
        let ghost types = self@.local_time_types;
        let mut i: usize = 0;
        while i < self.local_time_types.len()
            invariant
                0 <= i <= types.len(),
                types == self@.local_time_types,
                types.len() == self.local_time_types@.len(),
                chars_of(values@) == normalized(ds, types, i as int),
            decreases types.len() - i,
        {
            let d = self.local_time_types[i].designation.as_str();
            assert(types[i as int].designation == d@);
            let found = find_str(&values, d);
            let ghost cs = chars_of(values@);
            proof {
                crate::common::lemma_first_index(is_str(cs, d@), 0, cs.len() as int);
            }
            if found.is_none() {
                proof {
                    assert(index_in(cs, d@) is None);
                    assert forall|j: int| 0 <= j < cs.len() implies cs[j] != d@ by {
                        assert(!is_str(cs, d@)(j));
                    }
                }
                values.push(d.to_owned());
                assert(chars_of(values@) =~= normalized(ds, types, i + 1));
            } else {
                let k = found.unwrap();
                proof {
                    assert(index_in(cs, d@) == Some(k as int));
                    assert(is_str(cs, d@)(k as int));
                    assert(cs[k as int] == d@);
                    assert(cs.contains(d@));
                }
            }
            i = i + 1;
        }
        values
    }
}

/// Checks the table's designations: each valid, none repeated.
fn check_designations(vs: &Vec<String>) -> (res: Result<(), TzifBuildError>)
    ensures
        ({
            let cs = chars_of(vs@);
            let n = cs.len() as int;
            if first_index(invalid_designation(cs), 0, n) is Some {
                res matches Err(x) && x@ == spec_validate_designation(cs[first_index(invalid_designation(cs), 0, n).unwrap()], true)->Err_0
            } else if first_index(repeated_designation(cs), 0, n) is Some {
                res matches Err(x) && x@ == BuildErrorView::DuplicateDesignation(cs[first_index(repeated_designation(cs), 0, n).unwrap()])
            } else {
                res is Ok
            }
        }),
{
    let ghost cs = chars_of(vs@);
    let mut k: usize = 0;
    while k < vs.len()
        invariant
            0 <= k <= vs@.len(),
            cs == chars_of(vs@),
            first_index(invalid_designation(cs), 0, cs.len() as int)
                == first_index(invalid_designation(cs), k as int, cs.len() as int),
        decreases vs@.len() - k,
    {
        validate_designation(vs[k].as_str(), true)?;
        k = k + 1;
    }
    let mut k: usize = 0;
    while k < vs.len()
        invariant
            0 <= k <= vs@.len(),
            cs == chars_of(vs@),
            first_index(repeated_designation(cs), 0, cs.len() as int)
                == first_index(repeated_designation(cs), k as int, cs.len() as int),
        decreases vs@.len() - k,
    {
        let mut j: usize = 0;
        while j < k
            invariant
                0 <= j <= k < vs@.len(),
                cs == chars_of(vs@),
                forall|m: int| 0 <= m < j ==> cs[m] != cs[k as int],
            decreases k - j,
        {
            if crate::text::str_equal(vs[j].as_str(), vs[k].as_str()) {
                assert(cs[j as int] == cs[k as int]);
                assert(repeated_designation(cs)(k as int));
                return Err(TzifBuildError::DuplicateDesignation(vs[k].clone()));
            }
            j = j + 1;
        }
        assert(!repeated_designation(cs)(k as int));
        k = k + 1;
    }
    Ok(())
}


/// A valid designation has at most six bytes.
proof fn lemma_valid_designation_len(d: Seq<char>)
    requires
        spec_validate_designation(d, true) is Ok,
    ensures
        vstd::utf8::encode_utf8(d).len() == d.len() <= 6,
        vstd::utf8::is_ascii_chars(d),
{
    vstd::utf8::is_ascii_chars_encode_utf8(d);
}

/// The offsets in the designation table at which the designations start.
fn designation_offsets(vs: &Vec<String>) -> (res: Result<Vec<u8>, TzifBuildError>)
    requires
        first_index(invalid_designation(chars_of(vs@)), 0, vs@.len() as int) is None,
    ensures
        ({
            let cs = chars_of(vs@);
            match first_index(offset_too_large(cs), 0, cs.len() as int) {
                Some(k) => res matches Err(x) && x@ == BuildErrorView::InvalidTzif(
                    TzifError::CountOverflow { field: "charcnt", count: table_offset(cs, k) as usize },
                ),
                None => res matches Ok(offs) && offs@.len() == cs.len()
                    && forall|k: int| 0 <= k < cs.len() ==> offs@[k] as int == #[trigger] table_offset(cs, k),
            }
        }),
{
    let ghost cs = chars_of(vs@);
    proof {
        crate::common::lemma_first_index(invalid_designation(cs), 0, cs.len() as int);
    }
    let mut offs: Vec<u8> = Vec::new();
    let mut next: usize = 0;
    let mut k: usize = 0;
    while k < vs.len()
        invariant
            0 <= k <= vs@.len(),
            cs == chars_of(vs@),
            forall|j: int| 0 <= j < cs.len() ==> !#[trigger] invalid_designation(cs)(j),
            next as int == table_offset(cs, k as int),
            next <= 262,
            offs@.len() == k,
            forall|j: int| 0 <= j < k ==> offs@[j] as int == #[trigger] table_offset(cs, j),
            first_index(offset_too_large(cs), 0, cs.len() as int)
                == first_index(offset_too_large(cs), k as int, cs.len() as int),
        decreases vs@.len() - k,
    {
        if next > 255 {
            assert(offset_too_large(cs)(k as int));
            return Err(TzifBuildError::InvalidTzif(TzifError::CountOverflow { field: "charcnt", count: next }));
        }
        offs.push(next as u8);
        proof {
            assert(!invalid_designation(cs)(k as int));
            lemma_valid_designation_len(cs[k as int]);
        }
        let len = vs[k].as_str().len();
        next = next + len + 1;
        k = k + 1;
    }
    Ok(offs)
}

impl ExplicitTransitionsBuilder {
    /// The local time type records, with their designations' offsets.
    fn build_local_time_types(&self, vs: &Vec<String>, offs: &Vec<u8>) -> (res: Result<Vec<LocalTimeType>, TzifBuildError>)
        requires
            offs@.len() == vs@.len(),
            forall|k: int| 0 <= k < vs@.len() ==> offs@[k] as int == #[trigger] table_offset(chars_of(vs@), k),
        ensures
            ({
                let cs = chars_of(vs@);
                let types = self@.local_time_types;
                if types.len() == 0 {
                    res matches Err(x) && x@ == BuildErrorView::UnknownDesignation("local time type"@)
                } else if first_index(has_type_error(cs, types), 0, types.len() as int) is Some {
                    res matches Err(x) && Some(x@) == type_error(cs, types[first_index(has_type_error(cs, types), 0, types.len() as int).unwrap()])
                } else {
                    res matches Ok(v) && v@ == types.map_values(|t: PendingTypeView| built_type(cs, t))
                }
            }),
    {
        let ghost cs = chars_of(vs@);
        let ghost types = self@.local_time_types;
        if self.local_time_types.len() == 0 {
            return Err(TzifBuildError::UnknownDesignation("local time type".to_owned()));
        }
        let mut out: Vec<LocalTimeType> = Vec::new();
        let mut i: usize = 0;
        while i < self.local_time_types.len()
            invariant
                0 <= i <= types.len(),
                types == self@.local_time_types,
                types.len() == self.local_time_types@.len(),
                cs == chars_of(vs@),
                first_index(has_type_error(cs, types), 0, types.len() as int)
                    == first_index(has_type_error(cs, types), i as int, types.len() as int),
                out@ == types.subrange(0, i as int).map_values(|t: PendingTypeView| built_type(cs, t)),
            decreases types.len() - i,
        {
            let t = &self.local_time_types[i];
            assert(types[i as int] == t.view_of());
            let k = match find_str(vs, t.designation.as_str()) {
                Some(k) => k,
                None => {
                    assert(has_type_error(cs, types)(i as int));
                    return Err(TzifBuildError::UnknownDesignation(t.designation.clone()));
                },
            };
            if t.offset_seconds == i32::MIN {
                assert(has_type_error(cs, types)(i as int));
                return Err(TzifBuildError::InvalidUtcOffset);
            }
            assert(!has_type_error(cs, types)(i as int));
            out.push(LocalTimeType { utc_offset: t.offset_seconds, is_dst: t.is_dst, designation_index: offs[k] });
            proof {
                assert(offs@[k as int] as int == table_offset(cs, k as int));
                assert(out@ =~= types.subrange(0, i + 1).map_values(|t: PendingTypeView| built_type(cs, t)));
            }
            i = i + 1;
        }
        assert(types.subrange(0, types.len() as int) =~= types);
        Ok(out)
    }

    /// Checks that no two local time types share a designation and that each has a
    /// one-byte index.
    fn check_type_indexes(&self) -> (res: Result<(), TzifBuildError>)
        ensures
            ({
                let types = self@.local_time_types;
                match first_index(type_index_error(types), 0, types.len() as int) {
                    Some(i) => res matches Err(x) && x@ == (if repeated_type(types)(i) {
                        BuildErrorView::DuplicateDesignation(types[i].designation)
                    } else {
                        BuildErrorView::InvalidTzif(TzifError::TooManyLocalTimeTypes(i as usize))
                    }),
                    None => res is Ok,
                }
            }),
    {
        let ghost types = self@.local_time_types;
        let mut i: usize = 0;
        while i < self.local_time_types.len()
            invariant
                0 <= i <= types.len(),
                types == self@.local_time_types,
                types.len() == self.local_time_types@.len(),
                first_index(type_index_error(types), 0, types.len() as int)
                    == first_index(type_index_error(types), i as int, types.len() as int),
            decreases types.len() - i,
        {
            let d = self.local_time_types[i].designation.as_str();
            assert(types[i as int].designation == d@);
            let mut j: usize = 0;
            while j < i
                invariant
                    0 <= j <= i < types.len(),
                    types == self@.local_time_types,
                    types.len() == self.local_time_types@.len(),
                    types[i as int].designation == d@,
                    forall|m: int| 0 <= m < j ==> types[m].designation != d@,
                decreases i - j,
            {
                if crate::text::str_equal(self.local_time_types[j].designation.as_str(), d) {
                    assert(types[j as int].designation == types[i as int].designation);
                    assert(repeated_type(types)(i as int));
                    assert(type_index_error(types)(i as int));
                    return Err(TzifBuildError::DuplicateDesignation(self.local_time_types[i].designation.clone()));
                }
                j = j + 1;
            }
            assert(!repeated_type(types)(i as int));
            if i > 255 {
                assert(type_index_error(types)(i as int));
                return Err(TzifBuildError::InvalidTzif(TzifError::TooManyLocalTimeTypes(i)));
            }
            i = i + 1;
        }
        Ok(())
    }

    /// The transition times and their local time type indexes.
    fn build_transitions(&self) -> (res: Result<(Vec<i64>, Vec<u8>), TzifBuildError>)
        requires
            self@.local_time_types.len() <= 256,
        ensures
            ({
                let types = self@.local_time_types;
                let trs = self@.transitions;
                match first_index(transition_error(types, trs), 0, trs.len() as int) {
                    Some(k) => res matches Err(x) && x@ == (if k > 0 && trs[k].timestamp <= trs[k - 1].timestamp {
                        BuildErrorView::UnsortedTransitions
                    } else {
                        BuildErrorView::UnknownDesignation(trs[k].designation)
                    }),
                    None => res matches Ok((times, tys))
                        && times@ == trs.map_values(|t: PendingTransitionView| t.timestamp)
                        && tys@ == trs.map_values(|t: PendingTransitionView| type_index_of(types, t.designation).unwrap() as u8),
                }
            }),
    {
        let ghost types = self@.local_time_types;
        let ghost trs = self@.transitions;
        let mut times: Vec<i64> = Vec::new();
        let mut tys: Vec<u8> = Vec::new();
        let mut k: usize = 0;
        while k < self.transitions.len()
            invariant
                0 <= k <= trs.len(),
                types == self@.local_time_types,
                trs == self@.transitions,
                trs.len() == self.transitions@.len(),
                types.len() <= 256,
                first_index(transition_error(types, trs), 0, trs.len() as int)
                    == first_index(transition_error(types, trs), k as int, trs.len() as int),
                times@ == trs.subrange(0, k as int).map_values(|t: PendingTransitionView| t.timestamp),
                tys@ == trs.subrange(0, k as int).map_values(
                    |t: PendingTransitionView| type_index_of(types, t.designation).unwrap() as u8,
                ),
            decreases trs.len() - k,
        {
            let t = &self.transitions[k];
            assert(trs[k as int] == t.view_of());
            if k > 0 && t.timestamp <= self.transitions[k - 1].timestamp {
                assert(trs[k - 1] == self.transitions@[k - 1].view_of());
                assert(transition_error(types, trs)(k as int));
                return Err(TzifBuildError::UnsortedTransitions);
            }
            let index = match find_type(&self.local_time_types, t.designation.as_str()) {
                Some(index) => index,
                None => {
                    assert(transition_error(types, trs)(k as int));
                    return Err(TzifBuildError::UnknownDesignation(t.designation.clone()));
                },
            };
            proof {
                if k > 0 {
                    assert(trs[k - 1] == self.transitions@[k - 1].view_of());
                }
                assert(!transition_error(types, trs)(k as int));
            }
            times.push(t.timestamp);
            tys.push(index as u8);
            proof {
                assert(times@ =~= trs.subrange(0, k + 1).map_values(|t: PendingTransitionView| t.timestamp));
                assert(tys@ =~= trs.subrange(0, k + 1).map_values(
                    |t: PendingTransitionView| type_index_of(types, t.designation).unwrap() as u8,
                ));
            }
            k = k + 1;
        }
        assert(trs.subrange(0, trs.len() as int) =~= trs);
        Ok((times, tys))
    }
}


impl PendingFooter {
    fn to_tz_string(&self) -> (res: Result<String, TzifBuildError>)
        ensures
            match pending_footer_text(self.view_of()) {
                Ok(t) => res matches Ok(s) && s@ == t,
                Err(e) => res matches Err(x) && x@ == e,
            },
    {
        match self {
            PendingFooter::Raw(value) => Ok(value.clone()),
            PendingFooter::Posix(footer) => {
                let s = footer.to_tz_string(true)?;
                proof {
                    vstd::utf8::encode_utf8_decode_utf8(s@);
                }
                Ok(s)
            },
        }
    }

    fn uses_tz_string_extension(&self) -> (b: bool)
        ensures
            b == pending_footer_extension(self.view_of()),
    {
        match self {
            PendingFooter::Raw(value) => crate::footer::footer_uses_tz_string_extension(value.as_str()),
            PendingFooter::Posix(footer) => footer.uses_tz_string_extension(),
        }
    }
}

impl ExplicitTransitionsBuilder {
    /// Builds the file from the explicit transitions.
    pub fn build(self) -> (res: Result<TzifFile, TzifBuildError>)
        ensures
            build_agrees(res, spec_explicit_build(self@)),
    {
        let ghost b = self@;
        let ghost types = b.local_time_types;
        let designations = self.collect_designations();
        let ghost cs = chars_of(designations@);
        check_designations(&designations)?;
        proof {
            crate::common::lemma_first_index(invalid_designation(cs), 0, cs.len() as int);
        }
        let offsets = designation_offsets(&designations)?;
        let local_time_types = self.build_local_time_types(&designations, &offsets)?;
        self.check_type_indexes()?;
        proof {
            crate::common::lemma_first_index(type_index_error(types), 0, types.len() as int);
            if types.len() > 256 {
                assert(type_index_error(types)(256));
            }
        }
        let (transition_times, transition_types) = self.build_transitions()?;
        let table = designation_table(&designations);
        let block = DataBlock {
            transition_times,
            transition_types,
            local_time_types,
            designations: table,
            leap_seconds: Vec::new(),
            standard_wall_indicators: Vec::new(),
            ut_local_indicators: Vec::new(),
        };
        assert(explicit_input_error(b) is None);
        assert(block@ =~= built_block(b));
        let footer: Option<(String, bool)> = match &self.footer {
            Some(f) => {
                let value = f.to_tz_string()?;
                Some((value, f.uses_tz_string_extension()))
            },
            None => None,
        };
        let has_footer = footer.is_some();
        let uses_extension = match &footer {
            Some((_, ext)) => *ext,
            None => false,
        };
        let version = resolve_version(self.version_policy, &block.transition_times, has_footer, uses_extension)?;
        match version {
            Version::V1 => {
                if has_footer {
                    return Err(TzifBuildError::VersionCannotIncludeFooter { version });
                }
                Ok(TzifFile::v1(block))
            },
            _ => {
                let text = match footer {
                    Some((value, _)) => value,
                    None => String::new(),
                };
                let v1 = version_one_compatible_block(&block);
                let f = match version {
                    Version::V2 => TzifFile::v2(v1, block, text.as_str()),
                    Version::V3 => TzifFile::v3(v1, block, text.as_str()),
                    _ => TzifFile::v4(v1, block, text.as_str()),
                };
                Ok(f)
            },
        }
    }
}


// ---------------------------------------------------------------------------
// The designation table of a build
// ---------------------------------------------------------------------------

/// The table of the first `n + 1` designations extends that of the first `n` by
/// designation `n` and its NUL.
proof fn lemma_table_step(vs: Seq<Seq<char>>, n: int)
    requires
        0 <= n < vs.len(),
    ensures
        designation_table_bytes(vs.subrange(0, n + 1))
            == designation_table_bytes(vs.subrange(0, n)) + vstd::utf8::encode_utf8(vs[n]) + seq![0u8],
{
    assert(vs.subrange(0, n + 1).drop_last() =~= vs.subrange(0, n));
}

/// The table of the first `n` designations is `table_offset(vs, n)` bytes long and
/// opens the table of the first `m` for every `m` from `n` on.
proof fn lemma_table_prefix(vs: Seq<Seq<char>>, n: int, m: int)
    requires
        0 <= n <= m <= vs.len(),
    ensures
        designation_table_bytes(vs.subrange(0, n)).len() == table_offset(vs, n),
        designation_table_bytes(vs.subrange(0, m)).subrange(0, table_offset(vs, n))
            == designation_table_bytes(vs.subrange(0, n)),
    decreases m,
{
    if n == m {
        if n > 0 {
            lemma_table_prefix(vs, n - 1, n - 1);
            lemma_table_step(vs, n - 1);
        } else {
            assert(vs.subrange(0, 0) =~= Seq::<Seq<char>>::empty());
        }
        let t = designation_table_bytes(vs.subrange(0, n));
        assert(t.subrange(0, t.len() as int) =~= t);
    } else {
        lemma_table_prefix(vs, n, m - 1);
        lemma_table_prefix(vs, m - 1, m - 1);
        lemma_table_step(vs, m - 1);
        let big = designation_table_bytes(vs.subrange(0, m));
        let mid = designation_table_bytes(vs.subrange(0, m - 1));
        assert(table_offset(vs, n) <= table_offset(vs, m - 1)) by {
            lemma_table_offset_monotone(vs, n, m - 1);
        }
        assert(big.subrange(0, table_offset(vs, n)) =~= mid.subrange(0, table_offset(vs, n)));
    }
}

proof fn lemma_table_offset_monotone(vs: Seq<Seq<char>>, n: int, m: int)
    requires
        0 <= n <= m <= vs.len(),
    ensures
        table_offset(vs, n) <= table_offset(vs, m),
    decreases m - n,
{
    if n < m {
        lemma_table_offset_monotone(vs, n, m - 1);
    }
}

/// Designation `k` of the table starts at `table_offset(vs, k)`, is followed by a NUL,
/// and holds no NUL itself when it is a valid designation.
pub proof fn lemma_table_entry(vs: Seq<Seq<char>>, k: int)
    requires
        0 <= k < vs.len(),
        spec_validate_designation(vs[k], true) is Ok,
    ensures
        ({
            let des = designation_table_bytes(vs);
            let off = table_offset(vs, k);
            let e = vstd::utf8::encode_utf8(vs[k]);
            &&& off + e.len() < des.len()
            &&& spec_designation_at(des, off) == Some(e)
            &&& is_rfc_designation(e)
        }),
{
    let des = designation_table_bytes(vs);
    let off = table_offset(vs, k);
    let e = vstd::utf8::encode_utf8(vs[k]);
    crate::footer_text::lemma_valid_designation_bytes(vs[k]);
    lemma_table_prefix(vs, k, k);
    lemma_table_prefix(vs, k + 1, vs.len() as int);
    lemma_table_step(vs, k);
    assert(vs.subrange(0, vs.len() as int) =~= vs);
    let upto = designation_table_bytes(vs.subrange(0, k + 1));
    let before = designation_table_bytes(vs.subrange(0, k));
    assert(upto =~= before + e + seq![0u8]);
    assert(table_offset(vs, k + 1) == off + e.len() + 1);
    lemma_table_prefix(vs, vs.len() as int, vs.len() as int);
    lemma_table_offset_monotone(vs, k + 1, vs.len() as int);
    assert(des.len() == table_offset(vs, vs.len() as int));
    assert(before.len() == off);
    assert(des.subrange(0, off + e.len() + 1) == upto);
    assert forall|j: int| 0 <= j < e.len() implies des[off + j] == e[j] by {
        assert(des.subrange(0, off + e.len() + 1)[off + j] == upto[off + j]);
        assert(upto[off + j] == e[j]);
    }
    assert(des[off + e.len()] == 0) by {
        assert(des.subrange(0, off + e.len() + 1)[off + e.len()] == upto[off + e.len()]);
        assert(upto[off + e.len()] == 0);
    }
    assert forall|j: int| off <= j < off + e.len() implies !#[trigger] is_nul(des)(j) by {
        assert(des[j] == e[j - off]);
        assert(is_designation_byte(e[j - off]));
    }
    crate::footer_text::lemma_first_index_is(is_nul(des), off, des.len() as int, off + e.len());
    assert(des.subrange(off, off + e.len()) =~= e);
}

} // verus!
