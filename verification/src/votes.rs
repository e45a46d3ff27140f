//! How long a voter has to wait between two votes.

use crate::timestamp::{
    elapsed_nanos, is_clock_reading, parse_sqlite_time, stored_instant, Timestamp, NANOS_PER_SECOND,
};
use vstd::prelude::*;

verus! {

/// The whole seconds that are left at `now` of the window that a vote opened, or none where the
/// window is over. Without a vote there is nothing to wait for.
pub open spec fn wait_after(
    last_vote: Option<(i64, u32)>,
    window_seconds: u64,
    now: (i64, u32),
) -> Option<u64> {
    match last_vote {
        Some(instant) => {
            let left = window_seconds * NANOS_PER_SECOND - elapsed_nanos(instant, now);
            if left <= 0 {
                None
            } else {
                Some((left / NANOS_PER_SECOND as int) as u64)
            }
        },
        None => None,
    }
}

/// The instant of a stored vote; a text that cannot be read stands for no vote.
pub open spec fn vote_instant(last_voted_at: Option<Seq<char>>) -> Option<(i64, u32)> {
    match last_voted_at {
        Some(text) => stored_instant(text),
        None => None,
    }
}

/// The seconds that a voter has to wait at `now` who last voted at an instant.
pub fn remaining_wait(
    last_vote: Option<Timestamp>,
    window_seconds: u64,
    now: Timestamp,
) -> (wait: Option<u64>)
    ensures
        last_vote is None ==> wait is None,
        last_vote matches Some(instant) ==> wait == wait_after(
            Some(instant@),
            window_seconds,
            now@,
        ),
{
    match last_vote {
        Some(instant) => {
            let (seconds, nanos) = instant.elapsed_at(now);
            if seconds >= window_seconds {
                None
            } else if nanos == 0 {
                Some(window_seconds - seconds)
            } else {
                Some(window_seconds - seconds - 1)
            }
        },
        None => None,
    }
}

/// The seconds that a voter has to wait at `now` whose last vote is stored as `last_voted_at`.
pub fn recent_vote_at(
    last_voted_at: Option<&str>,
    window_seconds: u64,
    now: Timestamp,
) -> (wait: Option<u64>)
    ensures
        last_voted_at is None ==> wait is None,
        last_voted_at matches Some(text) ==> wait == wait_after(
            stored_instant(text@),
            window_seconds,
            now@,
        ),
{
    match last_voted_at {
        Some(text) => remaining_wait(parse_sqlite_time(text), window_seconds, now),
        None => None,
    }
}

/// The seconds that a voter still has to wait, by the instant that the clock shows, whose last vote is stored as `last_voted_at`.
pub fn recent_vote(last_voted_at: Option<&str>, window_seconds: u64) -> (wait: Option<u64>)
    ensures
        last_voted_at is None ==> wait is None,
        last_voted_at matches Some(text) ==> exists|now: Timestamp|
            #[trigger] call_ensures(Timestamp::now, (), now) && is_clock_reading(now@) && wait
                == wait_after(stored_instant(text@), window_seconds, now@),
{
    let now = Timestamp::now();
    recent_vote_at(last_voted_at, window_seconds, now)
}

} // verus!
