//! Telling the history: when the hearts were accepted, from the oldest to the newest.

use crate::replies::{ApiError, HistoryResponse};
use crate::store::{rows_of, Answer, AnswerView, Query, QueryView};
use crate::timestamp::{
    four_digit_year, not_after, parse_sqlite_time, rfc3339_millis_text, stored_instant, to_millis,
    Timestamp,
};
use vstd::prelude::*;
use vstd::relations::{sorted_by, total_ordering};
use vstd::seq_lib::{lemma_sorted_unique, to_multiset_build, to_multiset_insert};

verus! {

/// The instants of the rows that can be read, in the order of the rows.
pub open spec fn readable_instants(rows: Seq<Seq<char>>) -> Seq<(i64, u32)>
    decreases rows.len(),
{
    if rows.len() == 0 {
        Seq::empty()
    } else {
        let before = readable_instants(rows.drop_last());
        match stored_instant(rows.last()) {
            Some(instant) => before.push(instant),
            None => before,
        }
    }
}

/// The order of instants in time.
pub open spec fn time_order() -> spec_fn((i64, u32), (i64, u32)) -> bool {
    |a: (i64, u32), b: (i64, u32)| not_after(a, b)
}

/// The instants from the oldest to the newest.
pub open spec fn oldest_first(instants: Seq<(i64, u32)>) -> Seq<(i64, u32)> {
    instants.sort_by(time_order())
}

/// The public texts of the instants.
pub open spec fn public_texts(instants: Seq<(i64, u32)>) -> Seq<Seq<char>> {
    instants.map_values(|instant: (i64, u32)| rfc3339_millis_text(instant.0, instant.1))
}

/// The public history of the rows that the store keeps: the instants that can be read from them,
/// from the oldest to the newest.
pub open spec fn public_history(rows: Seq<Seq<char>>) -> Seq<Seq<char>> {
    public_texts(oldest_first(readable_instants(rows)))
}

/// Whether the texts read back, to the millisecond, as the instants whose year has four digits.
pub open spec fn reads_back(texts: Seq<String>, instants: Seq<(i64, u32)>) -> bool {
    forall|i: int|
        0 <= i < instants.len() && four_digit_year(instants[i]) ==> stored_instant(
            #[trigger] texts[i]@,
        ) == Some(to_millis(instants[i]))
}

/// The instants of timestamps.
pub open spec fn instants_of(timestamps: Seq<Timestamp>) -> Seq<(i64, u32)> {
    timestamps.map_values(|timestamp: Timestamp| timestamp@)
}

/// Of two instants one is not after the other, and only equal ones are not after each other.
pub proof fn lemma_total_order_of_instants()
    ensures
        total_ordering(time_order()),
{
}

/// Puts an instant where it belongs among instants that stand from the oldest to the newest.
fn insert_in_order(sorted: &mut Vec<Timestamp>, timestamp: Timestamp)
    requires
        sorted_by(instants_of(old(sorted)@), time_order()),
    ensures
        sorted_by(instants_of(final(sorted)@), time_order()),
        instants_of(final(sorted)@).to_multiset() == instants_of(old(sorted)@).to_multiset().insert(
            timestamp@,
        ),
{
    let ghost before = sorted@;
    let mut at: usize = sorted.len();
    while at > 0 && !sorted[at - 1].is_not_after(&timestamp)
        invariant
            at <= sorted@.len(),
            sorted@ == before,
            forall|j: int| at <= j < sorted@.len() ==> not_after(timestamp@, #[trigger] sorted@[j]@),
        decreases at,
    {
        at -= 1;
    }
    sorted.insert(at, timestamp);
    proof {
        let leq = time_order();
        let after = instants_of(sorted@);
        assert(after =~= instants_of(before).insert(at as int, timestamp@));
        to_multiset_insert(instants_of(before), at as int, timestamp@);
        assert forall|i: int, j: int| 0 <= i < j < after.len() implies #[trigger] leq(
            after[i],
            after[j],
        ) by {
            let b = instants_of(before);
            if at > 0 && i < at {
                assert(i == at - 1 || leq(b[i], b[at - 1]));
            }
            if i < at && j > at {
                assert(leq(b[i], b[j - 1]));
            } else if j < at {
                assert(leq(b[i], b[j]));
            } else if i > at {
                assert(leq(b[i - 1], b[j - 1]));
            } else if i == at {
                assert(before[j - 1]@ == b[j - 1]);
            }
        }
    }
}

/// The timestamps from the oldest to the newest.
pub fn sort_timestamps(timestamps: &Vec<Timestamp>) -> (sorted: Vec<Timestamp>)
    ensures
        instants_of(sorted@) == oldest_first(instants_of(timestamps@)),
        instants_of(sorted@).to_multiset() == instants_of(timestamps@).to_multiset(),
        forall|i: int, j: int|
            0 <= i < j < sorted@.len() ==> (#[trigger] sorted@[i])@.0 < (#[trigger] sorted@[j])@.0
                || (sorted@[i]@.0 == sorted@[j]@.0 && sorted@[i]@.1 <= sorted@[j]@.1),
{
    let mut sorted: Vec<Timestamp> = Vec::new();
    let mut i: usize = 0;
    proof {
        assert(instants_of(timestamps@.take(0)) =~= instants_of(sorted@));
    }
    while i < timestamps.len()
        invariant
            i <= timestamps@.len(),
            sorted_by(instants_of(sorted@), time_order()),
            instants_of(sorted@).to_multiset() == instants_of(
                timestamps@.take(i as int),
            ).to_multiset(),
        decreases timestamps@.len() - i,
    {
        insert_in_order(&mut sorted, timestamps[i]);
        proof {
            let before = instants_of(timestamps@.take(i as int));
            assert(instants_of(timestamps@.take(i + 1)) =~= before.push(timestamps@[i as int]@));
            to_multiset_build(before, timestamps@[i as int]@);
        }
        i += 1;
    }
    proof {
        assert(timestamps@.take(i as int) =~= timestamps@);
        lemma_total_order_of_instants();
        instants_of(timestamps@).lemma_sort_by_ensures(time_order());
        lemma_sorted_unique(
            instants_of(sorted@),
            oldest_first(instants_of(timestamps@)),
            time_order(),
        );
        assert forall|i: int, j: int| 0 <= i < j < sorted@.len() implies (#[trigger] sorted@[i])@.0
            < (#[trigger] sorted@[j])@.0 || (sorted@[i]@.0 == sorted@[j]@.0 && sorted@[i]@.1
            <= sorted@[j]@.1) by {
            let leq = time_order();
            let b = instants_of(sorted@);
            assert(leq(b[i], b[j]));
        }
    }
    sorted
}

/// The public texts of the timestamps, in their order.
pub fn publish(timestamps: &Vec<Timestamp>) -> (texts: Vec<String>)
    ensures
        rows_of(texts@) == public_texts(instants_of(timestamps@)),
        forall|i: int|
            0 <= i < timestamps@.len() && four_digit_year(timestamps@[i]@) ==> stored_instant(
                #[trigger] texts@[i]@,
            ) == Some(to_millis(timestamps@[i]@)),
{
    let mut texts: Vec<String> = Vec::new();
    let mut i: usize = 0;
    while i < timestamps.len()
        invariant
            i <= timestamps@.len(),
            texts@.len() == i,
            forall|j: int|
                0 <= j < i ==> #[trigger] texts@[j]@ == rfc3339_millis_text(
                    timestamps@[j]@.0,
                    timestamps@[j]@.1,
                ),
            forall|j: int|
                0 <= j < i && four_digit_year(timestamps@[j]@) ==> stored_instant(
                    #[trigger] texts@[j]@,
                ) == Some(to_millis(timestamps@[j]@)),
        decreases timestamps@.len() - i,
    {
        texts.push(timestamps[i].to_public_text());
        i += 1;
    }
    assert(rows_of(texts@) =~= public_texts(instants_of(timestamps@)));
    texts
}

/// The history that is told of the rows that the store keeps. Its texts read back, to the
/// millisecond, as the instants that they tell of where the year has four digits.
pub fn history_of(rows: &Vec<String>) -> (response: HistoryResponse)
    ensures
        rows_of(response.events@) == public_history(rows_of(rows@)),
        reads_back(response.events@, oldest_first(readable_instants(rows_of(rows@)))),
{
    let mut timestamps: Vec<Timestamp> = Vec::new();
    let mut i: usize = 0;
    proof {
        assert(instants_of(timestamps@) =~= readable_instants(rows_of(rows@).take(0)));
    }
    while i < rows.len()
        invariant
            i <= rows@.len(),
            instants_of(timestamps@) == readable_instants(rows_of(rows@).take(i as int)),
        decreases rows@.len() - i,
    {
        let ghost before = timestamps@;
        proof {
            let read = rows_of(rows@).take(i + 1);
            assert(read.drop_last() =~= rows_of(rows@).take(i as int));
            assert(read.last() == rows@[i as int]@);
        }
        if let Some(timestamp) = parse_sqlite_time(rows[i].as_str()) {
            timestamps.push(timestamp);
            assert(instants_of(timestamps@) =~= instants_of(before).push(timestamp@));
        }
        i += 1;
    }
    assert(rows_of(rows@).take(i as int) =~= rows_of(rows@));
    let sorted: Vec<Timestamp> = sort_timestamps(&timestamps);
    let events: Vec<String> = publish(&sorted);
    proof {
        let told = oldest_first(readable_instants(rows_of(rows@)));
        assert forall|i: int| 0 <= i < told.len() && four_digit_year(told[i]) implies stored_instant(
            #[trigger] events@[i]@,
        ) == Some(to_millis(told[i])) by {
            assert(told[i] == sorted@[i]@);
        }
    }
    HistoryResponse { events }
}

/// What to ask of the store to tell the history.
pub fn history_query() -> (query: Query)
    ensures
        query@ == QueryView::ListHearts,
{
    Query::ListHearts
}

/// What to answer to a request for the history when the store has answered.
pub fn get_history(answer: Answer) -> (response: Result<HistoryResponse, ApiError>)
    ensures
        match (answer@, response) {
            (AnswerView::History(rows), Ok(body)) => {
                &&& rows_of(body.events@) == public_history(rows)
                &&& reads_back(body.events@, oldest_first(readable_instants(rows)))
            },
            (AnswerView::History(_), Err(_)) => false,
            (AnswerView::Failed, Err(error)) => error == ApiError::StoreFailed,
            (_, Ok(_)) => false,
            (_, Err(error)) => error == ApiError::UnexpectedAnswer,
        },
{
    match answer {
        Answer::History(rows) => Ok(history_of(&rows)),
        Answer::Failed => Err(ApiError::StoreFailed),
        _ => Err(ApiError::UnexpectedAnswer),
    }
}

} // verus!
