//! Instants in UTC, as the service stores, compares and publishes them.

use crate::text::is_digit;
use vstd::prelude::*;

verus! {

pub const NANOS_PER_SECOND: u32 = 1_000_000_000;

/// The first second that the calendar reaches: January 1st of the year -262143.
pub const FIRST_SECOND: i64 = -8_334_601_228_800;

/// The last second that the calendar reaches: December 31st of the year 262142.
pub const LAST_SECOND: i64 = 8_210_266_876_799;

/// The first second of the year 0.
pub const YEAR_0: i64 = -62_167_219_200;

/// The first second of the year 10000.
pub const YEAR_10000: i64 = 253_402_300_800;

/// The second reading that stored votes may have: a date, a space and a time of day.
pub const SQLITE_FORMAT: &'static str = "%Y-%m-%d %H:%M:%S";

/// An instant: the seconds since January 1st 1970, and the nanoseconds into that second. In a leap
/// second, which shares the number of the second before it, the nanoseconds go on past a billion.
pub open spec fn valid_instant(instant: (i64, u32)) -> bool {
    &&& FIRST_SECOND <= instant.0 <= LAST_SECOND
    &&& instant.1 < 2 * NANOS_PER_SECOND
    &&& instant.1 >= NANOS_PER_SECOND ==> instant.0 % 60 == 59
}

/// What a clock can show: any instant but those in a leap second.
pub open spec fn is_clock_reading(instant: (i64, u32)) -> bool {
    valid_instant(instant) && instant.1 < NANOS_PER_SECOND
}

/// Whether the instant has a year of four digits.
pub open spec fn four_digit_year(instant: (i64, u32)) -> bool {
    YEAR_0 <= instant.0 < YEAR_10000
}

/// The order of instants in time.
pub open spec fn not_after(a: (i64, u32), b: (i64, u32)) -> bool {
    a.0 < b.0 || (a.0 == b.0 && a.1 <= b.1)
}

/// An instant without what it has beyond the millisecond.
pub open spec fn to_millis(instant: (i64, u32)) -> (i64, u32) {
    (instant.0, (instant.1 - instant.1 % 1_000_000) as u32)
}

/// An instant without what it has beyond the second. In a leap second it keeps the billion that
/// tells that second from the one before.
pub open spec fn to_seconds(instant: (i64, u32)) -> (i64, u32) {
    (instant.0, (instant.1 - instant.1 % NANOS_PER_SECOND) as u32)
}

/// A date and a time of day in digits, with a space between them: `2026-05-25 14:27:09`.
pub open spec fn is_date_and_time(text: Seq<char>) -> bool {
    &&& text.len() == 19
    &&& text[4] == '-' && text[7] == '-' && text[10] == ' ' && text[13] == ':' && text[16] == ':'
    &&& forall|i: int|
        0 <= i < 19 && i != 4 && i != 7 && i != 10 && i != 13 && i != 16 ==> is_digit(
            #[trigger] text[i],
        )
}

/// A date and time with `T` in place of the space, and an offset from UTC behind it.
pub open spec fn with_offset(text: Seq<char>, offset: Seq<char>) -> Seq<char> {
    text.update(10, 'T') + offset
}

/// The date and the time of day, to the second, of a text in the form of RFC 3339.
pub open spec fn date_and_time_of(text: Seq<char>) -> Seq<char> {
    text.take(19).update(10, ' ')
}

/// The seconds since midnight.
pub open spec fn second_of_day(instant: (i64, u32)) -> int {
    instant.0 as int % 86_400
}

/// The nanoseconds from `earlier` to `later`, negative where `earlier` is the later one. A leap
/// second counts where one of the two instants lies in it and the other at another time of day.
pub open spec fn nanos_between(earlier: (i64, u32), later: (i64, u32)) -> int {
    let leap: int = if second_of_day(later) > second_of_day(earlier) && earlier.1
        >= NANOS_PER_SECOND {
        1
    } else if second_of_day(later) < second_of_day(earlier) && later.1 >= NANOS_PER_SECOND {
        -1
    } else {
        0
    };
    (later.0 - earlier.0 + leap) * NANOS_PER_SECOND + later.1 - earlier.1
}

/// The instant that a text in the form of RFC 3339 gives, where it has that form.
pub uninterp spec fn rfc3339_instant(text: Seq<char>) -> Option<(i64, u32)>;

/// The instant that a text gives when it is read by a format and taken as UTC, where it fits the
/// format.
pub uninterp spec fn formatted_instant(text: Seq<char>, format: Seq<char>) -> Option<(i64, u32)>;

/// The text that RFC 3339 has for an instant, with as many digits as its nanoseconds need.
pub uninterp spec fn rfc3339_text(seconds: i64, nanos: u32) -> Seq<char>;

/// The text that RFC 3339 has for an instant, to the millisecond and with `Z` for UTC.
pub uninterp spec fn rfc3339_millis_text(seconds: i64, nanos: u32) -> Seq<char>;

/// The instant that a stored text stands for: read as RFC 3339 where it can be, else by
/// `SQLITE_FORMAT`.
pub open spec fn stored_instant(text: Seq<char>) -> Option<(i64, u32)> {
    match rfc3339_instant(text) {
        Some(instant) => Some(instant),
        None => formatted_instant(text, SQLITE_FORMAT@),
    }
}

/// Calls `chrono::DateTime::parse_from_rfc3339`, and takes the instant that it read in UTC.
/// Claims that the reading depends on the text alone, that what was read is an instant of chrono's
/// calendar, and that nothing is read from a date and time without an offset.
#[verifier::external_body]
fn read_rfc3339(text: &str) -> (instant: Option<(i64, u32)>)
    ensures
        instant == rfc3339_instant(text@),
        instant matches Some(read) ==> valid_instant(read),
        is_date_and_time(text@) ==> instant is None,
{
    match chrono::DateTime::parse_from_rfc3339(text) {
        Ok(read) => {
            let utc = read.with_timezone(&chrono::Utc);
            Some((utc.timestamp(), utc.timestamp_subsec_nanos()))
        },
        Err(_) => None,
    }
}

/// Calls `chrono::NaiveDateTime::parse_from_str`, and takes the date and time that it read as UTC.
/// Claims that the reading depends on the text and the format alone, that what was read is an
/// instant of chrono's calendar, and that a date and time reads as
/// `chrono::DateTime::parse_from_rfc3339` reads it with `T` for the space and the offset of UTC.
#[verifier::external_body]
fn read_formatted(text: &str, format: &str) -> (instant: Option<(i64, u32)>)
    requires
        format@ == SQLITE_FORMAT@,
    ensures
        instant == formatted_instant(text@, format@),
        instant matches Some(read) ==> valid_instant(read),
        is_date_and_time(text@) ==> instant == rfc3339_instant(with_offset(text@, "Z"@)),
        is_date_and_time(text@) ==> instant == rfc3339_instant(with_offset(text@, "+00:00"@)),
{
    match chrono::NaiveDateTime::parse_from_str(text, format) {
        Ok(read) => {
            let utc = read.and_utc();
            Some((utc.timestamp(), utc.timestamp_subsec_nanos()))
        },
        Err(_) => None,
    }
}

/// Calls `chrono::Utc::now`. Claims that the clock gives an instant of chrono's calendar that is in
/// no leap second; which one is left to the clock. The call panics where the system's clock stands
/// before 1970.
#[verifier::external_body]
fn read_clock() -> (instant: (i64, u32))
    ensures
        is_clock_reading(instant),
{
    let now = chrono::Utc::now();
    (now.timestamp(), now.timestamp_subsec_nanos())
}

/// Whether a reading of the system's clock gave this instant. Nothing else can be known to have.
pub closed spec fn shown_by_clock(instant: (i64, u32)) -> bool {
    call_ensures(read_clock, (), instant)
}

/// Calls `chrono::DateTime::signed_duration_since`, and turns what it gives into the seconds and
/// nanoseconds of a standard duration. Claims that the duration is the time between the two
/// instants, and that there is none exactly where that time is negative.
#[verifier::external_body]
fn duration_between(earlier: (i64, u32), later: (i64, u32)) -> (duration: Option<(u64, u32)>)
    requires
        valid_instant(earlier),
        valid_instant(later),
    ensures
        duration is Some <==> nanos_between(earlier, later) >= 0,
        duration matches Some(d) ==> d.1 < NANOS_PER_SECOND && d.0 * NANOS_PER_SECOND + d.1
            == nanos_between(earlier, later),
{
    let earlier = chrono::DateTime::from_timestamp(earlier.0, earlier.1).unwrap();
    let later = chrono::DateTime::from_timestamp(later.0, later.1).unwrap();
    match later.signed_duration_since(earlier).to_std() {
        Ok(duration) => Some((duration.as_secs(), duration.subsec_nanos())),
        Err(_) => None,
    }
}

/// Calls `chrono::DateTime::to_rfc3339`. Claims that the text depends on the instant alone. Where
/// the year has four digits, it claims that `chrono::DateTime::parse_from_rfc3339` reads the same
/// instant back from the text; and that the text begins with a date and time, from which, with a
/// space for the `T`, that function reads nothing and `chrono::NaiveDateTime::parse_from_str` reads
/// the instant to the second.
#[verifier::external_body]
fn write_rfc3339(instant: (i64, u32)) -> (text: String)
    requires
        valid_instant(instant),
    ensures
        text@ == rfc3339_text(instant.0, instant.1),
        four_digit_year(instant) ==> rfc3339_instant(text@) == Some(instant),
        four_digit_year(instant) ==> is_date_and_time(date_and_time_of(text@)),
        four_digit_year(instant) ==> rfc3339_instant(date_and_time_of(text@)) is None,
        four_digit_year(instant) ==> formatted_instant(
            date_and_time_of(text@),
            SQLITE_FORMAT@,
        ) == Some(to_seconds(instant)),
{
    chrono::DateTime::from_timestamp(instant.0, instant.1).unwrap().to_rfc3339()
}

/// Calls `chrono::DateTime::to_rfc3339_opts` for milliseconds and `Z`. Claims that the text
/// depends on the instant alone, and that `chrono::DateTime::parse_from_rfc3339` reads the same
/// instant, cut to the millisecond, back from it where the year has four digits.
#[verifier::external_body]
fn write_rfc3339_millis(instant: (i64, u32)) -> (text: String)
    requires
        valid_instant(instant),
    ensures
        text@ == rfc3339_millis_text(instant.0, instant.1),
        four_digit_year(instant) ==> rfc3339_instant(text@) == Some(to_millis(instant)),
{
    let instant = chrono::DateTime::from_timestamp(instant.0, instant.1).unwrap();
    instant.to_rfc3339_opts(chrono::SecondsFormat::Millis, true)
}

/// An instant of the calendar, in UTC.
#[derive(Clone, Copy)]
pub struct Timestamp {
    seconds: i64,
    nanos: u32,
}

impl View for Timestamp {
    type V = (i64, u32);

    closed spec fn view(&self) -> (i64, u32) {
        (self.seconds, self.nanos)
    }
}

impl Timestamp {
    #[verifier::type_invariant]
    spec fn in_calendar(self) -> bool {
        valid_instant((self.seconds, self.nanos))
    }

    /// The instant of a number of seconds since 1970 and of nanoseconds, where there is one.
    pub fn from_parts(seconds: i64, nanos: u32) -> (made: Option<Timestamp>)
        ensures
            made is Some <==> valid_instant((seconds, nanos)),
            made matches Some(timestamp) ==> timestamp@ == (seconds, nanos),
    {
        if seconds < FIRST_SECOND || LAST_SECOND < seconds || nanos >= 2 * NANOS_PER_SECOND {
            return None;
        }
        if nanos >= NANOS_PER_SECOND {
            // `seconds` may be negative, where the remainder of `%` would be too.
            let into_minute: i64 = (seconds - FIRST_SECOND) % 60;
            assert(into_minute == seconds % 60) by {
                assert(FIRST_SECOND % 60 == 0);
            }
            if into_minute != 59 {
                return None;
            }
        }
        Some(Timestamp { seconds, nanos })
    }

    /// The present instant, as the system's clock shows it.
    pub fn now() -> (now: Timestamp)
        ensures
            is_clock_reading(now@),
            shown_by_clock(now@),
    {
        let (seconds, nanos) = read_clock();
        Timestamp { seconds, nanos }
    }

    /// The seconds since January 1st 1970.
    pub fn seconds(&self) -> (seconds: i64)
        ensures
            seconds == self@.0,
    {
        self.seconds
    }

    /// The nanoseconds into the second.
    pub fn nanos(&self) -> (nanos: u32)
        ensures
            nanos == self@.1,
    {
        self.nanos
    }

    /// Whether this instant is the same as the other or comes before it.
    pub fn is_not_after(&self, other: &Timestamp) -> (answer: bool)
        ensures
            answer == not_after(self@, other@),
            self@.0 < other@.0 ==> answer,
            self@.0 > other@.0 ==> !answer,
            self@.0 == other@.0 ==> answer == (self@.1 <= other@.1),
    {
        self.seconds < other.seconds || (self.seconds == other.seconds && self.nanos
            <= other.nanos)
    }

    /// The time that has gone by since the instant, in seconds and nanoseconds; none has where the
    /// instant is yet to come.
    pub fn elapsed_at(&self, now: Timestamp) -> (elapsed: (u64, u32))
        ensures
            elapsed.1 < NANOS_PER_SECOND,
            elapsed.0 * NANOS_PER_SECOND + elapsed.1 == elapsed_nanos(self@, now@),
            self@.1 < 1_000_000_000 && now@.1 < 1_000_000_000 ==> ({
                let gone = (now@.0 - self@.0) * 1_000_000_000 + now@.1 - self@.1;
                elapsed.0 * 1_000_000_000 + elapsed.1 == if gone >= 0 {
                    gone
                } else {
                    0
                }
            }),
    {
        proof {
            use_type_invariant(self);
            use_type_invariant(now);
        }
        match duration_between((self.seconds, self.nanos), (now.seconds, now.nanos)) {
            Some(duration) => duration,
            None => (0, 0),
        }
    }

    /// The text under which the service stores the instant. Where its year has four digits, the
    /// text reads back as the same instant, and its date and time, with a space between them, read
    /// back as the instant to the second.
    pub fn to_rfc3339(&self) -> (text: String)
        ensures
            text@ == rfc3339_text(self@.0, self@.1),
            four_digit_year(self@) ==> stored_instant(text@) == Some(self@),
            four_digit_year(self@) ==> is_date_and_time(date_and_time_of(text@)) && stored_instant(
                date_and_time_of(text@),
            ) == Some(to_seconds(self@)),
    {
        proof {
            use_type_invariant(self);
        }
        write_rfc3339((self.seconds, self.nanos))
    }

    /// The text under which the service publishes the instant. It reads back as the same instant,
    /// to the millisecond, where its year has four digits.
    pub fn to_public_text(&self) -> (text: String)
        ensures
            text@ == rfc3339_millis_text(self@.0, self@.1),
            four_digit_year(self@) ==> stored_instant(text@) == Some(to_millis(self@)),
    {
        proof {
            use_type_invariant(self);
        }
        write_rfc3339_millis((self.seconds, self.nanos))
    }
}

/// The nanoseconds that have gone by at `now` since `instant`, none where it is yet to come.
pub open spec fn elapsed_nanos(instant: (i64, u32), now: (i64, u32)) -> int {
    if nanos_between(instant, now) >= 0 {
        nanos_between(instant, now)
    } else {
        0
    }
}

/// Reads a stored instant: as RFC 3339 where the text has that form, else as a date and time in
/// UTC with a space between them. A date and time reads as it does in RFC 3339 with `T` for the
/// space and the offset of UTC, written in either way.
pub fn parse_sqlite_time(value: &str) -> (instant: Option<Timestamp>)
    ensures
        instant is Some <==> stored_instant(value@) is Some,
        instant matches Some(timestamp) ==> stored_instant(value@) == Some(timestamp@),
        is_date_and_time(value@) ==> {
            &&& stored_instant(value@) == rfc3339_instant(with_offset(value@, "Z"@))
            &&& stored_instant(value@) == rfc3339_instant(with_offset(value@, "+00:00"@))
        },
{
    match read_rfc3339(value) {
        Some((seconds, nanos)) => Some(Timestamp { seconds, nanos }),
        None => match read_formatted(value, SQLITE_FORMAT) {
            Some((seconds, nanos)) => Some(Timestamp { seconds, nanos }),
            None => None,
        },
    }
}

} // verus!
