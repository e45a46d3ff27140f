//! What holds of instants, and of the time between them, in numbers.

use crate::timestamp::{
    elapsed_nanos, formatted_instant, four_digit_year, is_clock_reading, nanos_between, not_after,
    rfc3339_instant, stored_instant, to_millis, to_seconds, valid_instant,
};
use crate::votes::{vote_instant, wait_after};
use vstd::prelude::*;

verus! {

/// Which pairs of seconds and nanoseconds are instants, which of them a clock can show, and which
/// have a year of four digits.
pub proof fn law_calendar(seconds: i64, nanos: u32)
    ensures
        valid_instant((seconds, nanos)) <==> {
            &&& -8_334_601_228_800 <= seconds <= 8_210_266_876_799
            &&& nanos < 1_000_000_000 || (nanos < 2_000_000_000 && seconds % 60 == 59)
        },
        is_clock_reading((seconds, nanos)) <==> {
            &&& -8_334_601_228_800 <= seconds <= 8_210_266_876_799
            &&& nanos < 1_000_000_000
        },
        four_digit_year((seconds, nanos)) <==> -62_167_219_200 <= seconds < 253_402_300_800,
{
}

/// Instants are ordered as the numbers are that one gets by giving each second room for the
/// nanoseconds of a leap second.
pub proof fn law_order_of_instants(a: (i64, u32), b: (i64, u32))
    requires
        a.1 < 2_000_000_000,
        b.1 < 2_000_000_000,
    ensures
        not_after(a, b) <==> a.0 * 2_000_000_000 + a.1 <= b.0 * 2_000_000_000 + b.1,
{
}

/// To the millisecond, an instant is the last whole millisecond of the same second that is not
/// after it, and to the second, the last whole second.
pub proof fn law_cut_instants(instant: (i64, u32))
    requires
        instant.1 < 2_000_000_000,
    ensures
        to_millis(instant).0 == instant.0,
        to_millis(instant).1 % 1_000_000 == 0,
        to_millis(instant).1 <= instant.1 < to_millis(instant).1 + 1_000_000,
        to_seconds(instant).0 == instant.0,
        to_seconds(instant).1 == 0 || to_seconds(instant).1 == 1_000_000_000,
        to_seconds(instant).1 <= instant.1 < to_seconds(instant).1 + 1_000_000_000,
{
}

/// The time that has gone by between two instants in no leap second is the difference of their
/// seconds and nanoseconds, and none has where the second instant is before the first.
pub proof fn law_elapsed_time(instant: (i64, u32), now: (i64, u32))
    requires
        instant.1 < 1_000_000_000,
        now.1 < 1_000_000_000,
    ensures
        ({
            let gone = (now.0 - instant.0) * 1_000_000_000 + now.1 - instant.1;
            elapsed_nanos(instant, now) == if gone >= 0 {
                gone
            } else {
                0
            }
        }),
{
}

/// A leap second shifts the time between two instants by one second at most, and the time that has
/// gone by is the time between them, or none where that is negative.
pub proof fn law_elapsed_time_with_leap_seconds(instant: (i64, u32), now: (i64, u32))
    ensures
        ({
            let gone = (now.0 - instant.0) * 1_000_000_000 + now.1 - instant.1;
            gone - 1_000_000_000 <= nanos_between(instant, now) <= gone + 1_000_000_000
        }),
        nanos_between(instant, now) >= 0 ==> elapsed_nanos(instant, now) == nanos_between(
            instant,
            now,
        ),
        nanos_between(instant, now) < 0 ==> elapsed_nanos(instant, now) == 0,
{
}

/// At least the window after a vote there is nothing to wait for. Before that the wait is the whole
/// seconds that are left of the window, and all of it where the vote is yet to come. Without a vote
/// there is never anything to wait for.
pub proof fn law_wait_in_numbers(voted_at: (i64, u32), window_seconds: u64, now: (i64, u32))
    requires
        voted_at.1 < 1_000_000_000,
        now.1 < 1_000_000_000,
    ensures
        ({
            let gone = (now.0 - voted_at.0) * 1_000_000_000 + now.1 - voted_at.1;
            let window = window_seconds * 1_000_000_000;
            let wait = wait_after(Some(voted_at), window_seconds, now);
            &&& gone >= window ==> wait is None
            &&& 0 < gone < window ==> wait is Some && wait->0 * 1_000_000_000 <= window - gone < (
            wait->0 + 1) * 1_000_000_000
            &&& gone <= 0 && window_seconds > 0 ==> wait == Some(window_seconds)
            &&& window_seconds == 0 ==> wait is None
        }),
        wait_after(None, window_seconds, now) is None,
{
    law_elapsed_time(voted_at, now);
}

/// A later vote never means a shorter wait, and a longer window never does either.
pub proof fn law_wait_grows(
    voted_at: (i64, u32),
    later_vote: (i64, u32),
    window_seconds: u64,
    longer_window: u64,
    now: (i64, u32),
)
    requires
        voted_at.1 < 1_000_000_000,
        later_vote.1 < 1_000_000_000,
        now.1 < 1_000_000_000,
        voted_at.0 < later_vote.0 || (voted_at.0 == later_vote.0 && voted_at.1 <= later_vote.1),
        window_seconds <= longer_window,
        wait_after(Some(voted_at), window_seconds, now) is Some,
    ensures
        wait_after(Some(later_vote), longer_window, now) is Some,
        wait_after(Some(later_vote), longer_window, now)->0 >= wait_after(
            Some(voted_at),
            window_seconds,
            now,
        )->0,
{
    law_elapsed_time(voted_at, now);
    law_elapsed_time(later_vote, now);
    law_wait_in_numbers(voted_at, window_seconds, now);
    law_wait_in_numbers(later_vote, longer_window, now);
}

/// A stored text is read as RFC 3339 where it can be, and else as a date, a space and a time of day.
/// A vote that is not stored has no instant.
pub proof fn law_stored_instant(text: Seq<char>)
    ensures
        rfc3339_instant(text) is Some ==> stored_instant(text) == rfc3339_instant(text),
        rfc3339_instant(text) is None ==> stored_instant(text) == formatted_instant(
            text,
            "%Y-%m-%d %H:%M:%S"@,
        ),
        vote_instant(Some(text)) == stored_instant(text),
        vote_instant(None) is None,
{
}

} // verus!
