//! What holds of the service as a whole, over requests that follow each other.

use crate::get_hearts::{first_get_step, next_get_step, GetStepView, GetView, StageView};
use crate::get_history::{
    lemma_total_order_of_instants, oldest_first, public_history, readable_instants, time_order,
};
use crate::post_hearts::{
    acceptance, first_post_step, next_post_step, refusal, PostStepView, PostView, Stage,
};
use crate::replies::ApiError;
use crate::store::{AnswerView, QueryView, Store};
use crate::timestamp::{
    elapsed_nanos, rfc3339_millis_text, rfc3339_text, stored_instant, NANOS_PER_SECOND,
};
use crate::votes::{vote_instant, wait_after};
use vstd::prelude::*;
use vstd::relations::sorted_by;
use vstd::seq_lib::{
    lemma_sorted_unique, to_multiset_build, to_multiset_insert, to_multiset_len, to_multiset_remove,
};

verus! {

/// How many answers of the store a vote needs at most before it ends.
pub open spec fn post_steps_left(step: PostStepView) -> int {
    match step {
        PostStepView::Ask(vote, _) => match vote.stage {
            Stage::Checking => 3,
            Stage::Beginning => 2,
            Stage::Refusing(_) => 1,
            Stage::Recording => 1,
        },
        _ => 0,
    }
}

/// Goes on with a vote until it ends, with a store that works. The clock shows `checked_at` when
/// the last vote is known, and `recorded_at` when the new one is written down.
pub open spec fn finish_post(
    store: Store,
    step: PostStepView,
    window_seconds: u64,
    checked_at: (i64, u32),
    recorded_at: (i64, u32),
) -> (Store, PostStepView)
    decreases post_steps_left(step),
{
    match step {
        PostStepView::Ask(vote, query) => {
            let (kept, answer) = store.answer(query);
            let now = if vote.stage == Stage::Checking {
                checked_at
            } else {
                recorded_at
            };
            finish_post(
                kept,
                next_post_step(vote, answer, window_seconds, now),
                window_seconds,
                checked_at,
                recorded_at,
            )
        },
        _ => (store, step),
    }
}

/// What a voter's vote leaves in the store, and how it ends.
pub open spec fn post_outcome(
    store: Store,
    voter_id: Seq<char>,
    window_seconds: u64,
    checked_at: (i64, u32),
    recorded_at: (i64, u32),
) -> (Store, PostStepView) {
    finish_post(store, first_post_step(voter_id), window_seconds, checked_at, recorded_at)
}

/// Goes on with a vote until it ends, with a store that fails when it has answered `fails_after`
/// more queries.
pub open spec fn finish_failing_post(
    store: Store,
    step: PostStepView,
    fails_after: nat,
    window_seconds: u64,
    checked_at: (i64, u32),
    recorded_at: (i64, u32),
) -> (Store, PostStepView)
    decreases post_steps_left(step),
{
    match step {
        PostStepView::Ask(vote, query) => {
            let (kept, answer) = store.answer_or_fail(query, fails_after == 0);
            let now = if vote.stage == Stage::Checking {
                checked_at
            } else {
                recorded_at
            };
            finish_failing_post(
                kept,
                next_post_step(vote, answer, window_seconds, now),
                (fails_after - 1) as nat,
                window_seconds,
                checked_at,
                recorded_at,
            )
        },
        _ => (store, step),
    }
}

/// What a voter's vote leaves in the store, and how it ends, where the store fails when it has
/// answered `fails_after` queries.
pub open spec fn failing_post_outcome(
    store: Store,
    voter_id: Seq<char>,
    fails_after: nat,
    window_seconds: u64,
    checked_at: (i64, u32),
    recorded_at: (i64, u32),
) -> (Store, PostStepView) {
    finish_failing_post(
        store,
        first_post_step(voter_id),
        fails_after,
        window_seconds,
        checked_at,
        recorded_at,
    )
}

/// How many answers of the store a request for the count needs at most before it ends.
pub open spec fn get_steps_left(step: GetStepView) -> int {
    match step {
        GetStepView::Ask(request, _) => match request.stage {
            StageView::Counting => 2,
            StageView::Checking(_) => 1,
        },
        _ => 0,
    }
}

/// Goes on with a request for the count until it ends, with a store that works.
pub open spec fn finish_get(
    store: Store,
    step: GetStepView,
    window_seconds: u64,
    now: (i64, u32),
) -> (Store, GetStepView)
    decreases get_steps_left(step),
{
    match step {
        GetStepView::Ask(request, query) => {
            let (kept, answer) = store.answer(query);
            finish_get(
                kept,
                next_get_step(request, answer, window_seconds, now),
                window_seconds,
                now,
            )
        },
        _ => (store, step),
    }
}

/// What a request for the count leaves in the store, and how it ends.
pub open spec fn get_outcome(
    store: Store,
    voter_id: Option<Seq<char>>,
    window_seconds: u64,
    now: (i64, u32),
) -> (Store, GetStepView) {
    finish_get(store, first_get_step(voter_id), window_seconds, now)
}

/// The seconds that a voter has to wait before the next vote.
pub open spec fn wait_of(
    store: Store,
    voter_id: Seq<char>,
    window_seconds: u64,
    now: (i64, u32),
) -> Option<u64> {
    wait_after(vote_instant(store.last_vote(voter_id)), window_seconds, now)
}

/// A vote is accepted exactly where the voter has nothing to wait for. Then the history has one
/// heart more, which is the voter's last vote, and the answer counts it. A vote that is refused
/// leaves the store as it was, and the answer says why and for how long.
pub proof fn law_vote(
    store: Store,
    voter_id: Seq<char>,
    window_seconds: u64,
    checked_at: (i64, u32),
    recorded_at: (i64, u32),
)
    ensures
        post_outcome(store, voter_id, window_seconds, checked_at, recorded_at) == match wait_of(
            store,
            voter_id,
            window_seconds,
            checked_at,
        ) {
            Some(wait) => (
                store,
                PostStepView::Reply(refusal(voter_id, store.history.len() as int, wait)),
            ),
            None => (
                store.with_vote(voter_id, rfc3339_text(recorded_at.0, recorded_at.1)),
                PostStepView::Reply(acceptance(voter_id, store.history.len() as int + 1)),
            ),
        },
{
    reveal_with_fuel(finish_post, 4);
}

/// A request for the count changes nothing. Its answer counts the hearts of the history, and says
/// that a voter has already voted exactly where the voter has to wait.
pub proof fn law_count(
    store: Store,
    voter_id: Option<Seq<char>>,
    window_seconds: u64,
    now: (i64, u32),
)
    ensures
        get_outcome(store, voter_id, window_seconds, now) == (
            store,
            GetStepView::Reply {
                count: store.history.len() as int,
                already_voted: match voter_id {
                    Some(voter) => wait_of(store, voter, window_seconds, now) is Some,
                    None => false,
                },
            },
        ),
{
    reveal_with_fuel(finish_get, 3);
}

/// The first vote of a voter is accepted.
pub proof fn law_first_vote_is_accepted(
    store: Store,
    voter_id: Seq<char>,
    window_seconds: u64,
    checked_at: (i64, u32),
    recorded_at: (i64, u32),
)
    requires
        !store.votes.dom().contains(voter_id),
    ensures
        post_outcome(store, voter_id, window_seconds, checked_at, recorded_at).1
            == PostStepView::Reply(acceptance(voter_id, store.history.len() as int + 1)),
{
    law_vote(store, voter_id, window_seconds, checked_at, recorded_at);
}

/// A voter whose stored vote reads as an instant within the window is refused, and nothing changes.
pub proof fn law_vote_within_window_is_refused(
    store: Store,
    voter_id: Seq<char>,
    voted_at: (i64, u32),
    window_seconds: u64,
    checked_at: (i64, u32),
    recorded_at: (i64, u32),
)
    requires
        vote_instant(store.last_vote(voter_id)) == Some(voted_at),
        elapsed_nanos(voted_at, checked_at) < window_seconds * NANOS_PER_SECOND,
    ensures
        ({
            let (kept, end) = post_outcome(
                store,
                voter_id,
                window_seconds,
                checked_at,
                recorded_at,
            );
            &&& kept == store
            &&& end matches PostStepView::Reply(reply)
            &&& !reply.voted
            &&& reply.reason == Some("already_voted"@)
            &&& reply.retry_after_seconds matches Some(wait) && wait <= window_seconds
            &&& reply.count == store.history.len()
        }),
{
    law_vote(store, voter_id, window_seconds, checked_at, recorded_at);
    law_wait(voted_at, window_seconds, checked_at);
}

/// A voter whose window is over can vote again.
pub proof fn law_vote_after_window_is_accepted(
    store: Store,
    voter_id: Seq<char>,
    voted_at: (i64, u32),
    window_seconds: u64,
    checked_at: (i64, u32),
    recorded_at: (i64, u32),
)
    requires
        vote_instant(store.last_vote(voter_id)) == Some(voted_at),
        elapsed_nanos(voted_at, checked_at) >= window_seconds * NANOS_PER_SECOND,
    ensures
        post_outcome(store, voter_id, window_seconds, checked_at, recorded_at).1
            == PostStepView::Reply(acceptance(voter_id, store.history.len() as int + 1)),
{
    law_vote(store, voter_id, window_seconds, checked_at, recorded_at);
}

/// A stored vote that cannot be read keeps nobody from voting.
pub proof fn law_unreadable_vote_is_ignored(
    store: Store,
    voter_id: Seq<char>,
    window_seconds: u64,
    checked_at: (i64, u32),
    recorded_at: (i64, u32),
)
    requires
        vote_instant(store.last_vote(voter_id)) is None,
    ensures
        post_outcome(store, voter_id, window_seconds, checked_at, recorded_at).1
            == PostStepView::Reply(acceptance(voter_id, store.history.len() as int + 1)),
{
    law_vote(store, voter_id, window_seconds, checked_at, recorded_at);
}

/// After a vote that was accepted, a second one of the same voter within the window is refused. It
/// leaves the store as the first one left it, and its answer gives the count of the first one's.
/// The instant of the first vote has to read back from its text, as it does in years of four
/// digits.
pub proof fn law_second_vote_is_refused(
    store: Store,
    voter_id: Seq<char>,
    window_seconds: u64,
    checked_at: (i64, u32),
    recorded_at: (i64, u32),
    second_at: (i64, u32),
    never_recorded_at: (i64, u32),
)
    requires
        wait_of(store, voter_id, window_seconds, checked_at) is None,
        stored_instant(rfc3339_text(recorded_at.0, recorded_at.1)) == Some(recorded_at),
        elapsed_nanos(recorded_at, second_at) < window_seconds * NANOS_PER_SECOND,
    ensures
        ({
            let first = post_outcome(store, voter_id, window_seconds, checked_at, recorded_at);
            let second = post_outcome(
                first.0,
                voter_id,
                window_seconds,
                second_at,
                never_recorded_at,
            );
            &&& second.0 == first.0
            &&& first.1 matches PostStepView::Reply(accepted)
            &&& accepted.voted
            &&& second.1 matches PostStepView::Reply(refused)
            &&& !refused.voted
            &&& refused.reason == Some("already_voted"@)
            &&& refused.retry_after_seconds matches Some(wait) && wait <= window_seconds
            &&& refused.count == accepted.count == store.history.len() + 1
        }),
{
    law_vote(store, voter_id, window_seconds, checked_at, recorded_at);
    let after = store.with_vote(voter_id, rfc3339_text(recorded_at.0, recorded_at.1));
    law_vote_within_window_is_refused(
        after,
        voter_id,
        recorded_at,
        window_seconds,
        second_at,
        never_recorded_at,
    );
}

/// After a vote that was accepted, the count tells of it, and the voter who asks for it within the
/// window is told of having voted. The instant of the vote has to read back from its text, as it
/// does in years of four digits.
pub proof fn law_count_after_vote(
    store: Store,
    voter_id: Seq<char>,
    window_seconds: u64,
    checked_at: (i64, u32),
    recorded_at: (i64, u32),
    now: (i64, u32),
)
    requires
        wait_of(store, voter_id, window_seconds, checked_at) is None,
        stored_instant(rfc3339_text(recorded_at.0, recorded_at.1)) == Some(recorded_at),
        elapsed_nanos(recorded_at, now) < window_seconds * NANOS_PER_SECOND,
    ensures
        get_outcome(
            post_outcome(store, voter_id, window_seconds, checked_at, recorded_at).0,
            Some(voter_id),
            window_seconds,
            now,
        ).1 == (GetStepView::Reply {
            count: store.history.len() as int + 1,
            already_voted: true,
        }),
{
    law_vote(store, voter_id, window_seconds, checked_at, recorded_at);
    let after = store.with_vote(voter_id, rfc3339_text(recorded_at.0, recorded_at.1));
    law_count(after, Some(voter_id), window_seconds, now);
}

/// A voter is told of having voted exactly where a vote at that instant would be refused.
pub proof fn law_count_foretells_vote(
    store: Store,
    voter_id: Seq<char>,
    window_seconds: u64,
    now: (i64, u32),
    recorded_at: (i64, u32),
)
    ensures
        get_outcome(store, Some(voter_id), window_seconds, now).1 matches GetStepView::Reply {
            already_voted,
            ..
        } && post_outcome(store, voter_id, window_seconds, now, recorded_at).1
            matches PostStepView::Reply(reply) && already_voted == !reply.voted,
{
    law_count(store, Some(voter_id), window_seconds, now);
    law_vote(store, voter_id, window_seconds, now, recorded_at);
}

/// The count of every answer to a vote is the number of hearts in the history as the vote leaves
/// it, and a vote adds one heart to it where it is accepted, and none where it is not.
pub proof fn law_count_is_history_length(
    store: Store,
    voter_id: Seq<char>,
    window_seconds: u64,
    checked_at: (i64, u32),
    recorded_at: (i64, u32),
)
    ensures
        ({
            let (kept, end) = post_outcome(
                store,
                voter_id,
                window_seconds,
                checked_at,
                recorded_at,
            );
            &&& end matches PostStepView::Reply(reply)
            &&& reply.count == kept.history.len()
            &&& store.history.is_prefix_of(kept.history)
            &&& kept.history.len() == store.history.len() + (if reply.voted {
                1int
            } else {
                0
            })
        }),
{
    law_vote(store, voter_id, window_seconds, checked_at, recorded_at);
}

/// A vote changes nothing for other voters: what they have to wait stays the same.
pub proof fn law_votes_are_independent(
    store: Store,
    voter_id: Seq<char>,
    other_id: Seq<char>,
    window_seconds: u64,
    checked_at: (i64, u32),
    recorded_at: (i64, u32),
    now: (i64, u32),
)
    requires
        voter_id != other_id,
    ensures
        wait_of(
            post_outcome(store, voter_id, window_seconds, checked_at, recorded_at).0,
            other_id,
            window_seconds,
            now,
        ) == wait_of(store, other_id, window_seconds, now),
{
    law_vote(store, voter_id, window_seconds, checked_at, recorded_at);
}

/// There is something to wait for exactly while the window lasts; it is never more than the window,
/// and it is all of the window exactly where no time has gone by.
pub proof fn law_wait(voted_at: (i64, u32), window_seconds: u64, now: (i64, u32))
    ensures
        wait_after(Some(voted_at), window_seconds, now) is Some <==> elapsed_nanos(voted_at, now)
            < window_seconds * NANOS_PER_SECOND,
        wait_after(Some(voted_at), window_seconds, now) matches Some(wait) ==> {
            &&& wait <= window_seconds
            &&& wait == window_seconds <==> elapsed_nanos(voted_at, now) == 0
            &&& wait * NANOS_PER_SECOND <= window_seconds * NANOS_PER_SECOND - elapsed_nanos(
                voted_at,
                now,
            ) < (wait + 1) * NANOS_PER_SECOND
        },
{
}

/// A voter who is told to wait a number of seconds is refused until that much time has gone by, and
/// accepted once it has with one second more.
pub proof fn law_waiting_helps(
    voted_at: (i64, u32),
    window_seconds: u64,
    now: (i64, u32),
    later: (i64, u32),
)
    requires
        wait_after(Some(voted_at), window_seconds, now) is Some,
    ensures
        ({
            let wait = wait_after(Some(voted_at), window_seconds, now)->0;
            let waited = elapsed_nanos(voted_at, later) - elapsed_nanos(voted_at, now);
            &&& waited < wait * NANOS_PER_SECOND ==> wait_after(
                Some(voted_at),
                window_seconds,
                later,
            ) is Some
            &&& waited >= (wait + 1) * NANOS_PER_SECOND ==> wait_after(
                Some(voted_at),
                window_seconds,
                later,
            ) is None
        }),
{
    law_wait(voted_at, window_seconds, now);
    law_wait(voted_at, window_seconds, later);
}

/// The voter of a vote stays the same from step to step, and a vote is written down only for that
/// voter and only when it was accepted.
pub proof fn law_steps_keep_the_voter(
    vote: PostView,
    answer: AnswerView,
    window_seconds: u64,
    now: (i64, u32),
)
    ensures
        match next_post_step(vote, answer, window_seconds, now) {
            PostStepView::Ask(next, query) => {
                &&& next.voter_id == vote.voter_id
                &&& query matches QueryView::RecordVote { voter_id, .. } ==> voter_id
                    == vote.voter_id && vote.stage == Stage::Beginning
                &&& next.stage == Stage::Beginning ==> (answer matches AnswerView::LastVote(
                    voted_at,
                ) && wait_after(vote_instant(voted_at), window_seconds, now) is None)
            },
            PostStepView::Reply(reply) => reply.voter_id == vote.voter_id,
            PostStepView::Fail(_) => true,
        },
{
}

/// A request ends in failure as soon as the store fails.
pub proof fn law_failure_ends_a_request(
    vote: PostView,
    request: GetView,
    window_seconds: u64,
    now: (i64, u32),
)
    ensures
        next_post_step(vote, AnswerView::Failed, window_seconds, now) == PostStepView::Fail(
            ApiError::StoreFailed,
        ),
        next_get_step(request, AnswerView::Failed, window_seconds, now) == GetStepView::Fail(
            ApiError::StoreFailed,
        ),
{
}

/// A vote in the course of which the store fails ends in failure and changes nothing: neither the
/// history nor any voter's last vote. A vote that is refused asks two queries of the store and one
/// that is accepted three; where the store fails later than that, the vote ends as if it did not.
pub proof fn law_failed_vote_changes_nothing(
    store: Store,
    voter_id: Seq<char>,
    fails_after: nat,
    window_seconds: u64,
    checked_at: (i64, u32),
    recorded_at: (i64, u32),
)
    ensures
        ({
            let waits = wait_of(store, voter_id, window_seconds, checked_at) is Some;
            let queries: nat = if waits {
                2
            } else {
                3
            };
            failing_post_outcome(
                store,
                voter_id,
                fails_after,
                window_seconds,
                checked_at,
                recorded_at,
            ) == if fails_after < queries {
                (store, PostStepView::Fail(ApiError::StoreFailed))
            } else {
                post_outcome(store, voter_id, window_seconds, checked_at, recorded_at)
            }
        }),
{
    reveal_with_fuel(finish_failing_post, 4);
    reveal_with_fuel(finish_post, 4);
}

/// A vote is written down as a whole or not at all, whenever the store fails: the heart is in the
/// history and is the voter's last vote exactly where the answer says that the vote was accepted,
/// and otherwise the store is as it was.
pub proof fn law_vote_is_all_or_nothing(
    store: Store,
    voter_id: Seq<char>,
    fails_after: nat,
    window_seconds: u64,
    checked_at: (i64, u32),
    recorded_at: (i64, u32),
)
    ensures
        ({
            let (kept, end) = failing_post_outcome(
                store,
                voter_id,
                fails_after,
                window_seconds,
                checked_at,
                recorded_at,
            );
            match end {
                PostStepView::Reply(reply) => kept == if reply.voted {
                    store.with_vote(voter_id, rfc3339_text(recorded_at.0, recorded_at.1))
                } else {
                    store
                },
                PostStepView::Fail(_) => kept == store,
                PostStepView::Ask(_, _) => false,
            }
        }),
{
    law_failed_vote_changes_nothing(
        store,
        voter_id,
        fails_after,
        window_seconds,
        checked_at,
        recorded_at,
    );
    law_vote(store, voter_id, window_seconds, checked_at, recorded_at);
}

/// The readings of two lots of rows, one after the other.
proof fn lemma_readings_of_both(rows: Seq<Seq<char>>, more: Seq<Seq<char>>)
    ensures
        readable_instants(rows + more) == readable_instants(rows) + readable_instants(more),
    decreases more.len(),
{
    if more.len() == 0 {
        assert(rows + more =~= rows);
        assert(readable_instants(rows) + readable_instants(more) =~= readable_instants(rows));
    } else {
        lemma_readings_of_both(rows, more.drop_last());
        assert((rows + more).drop_last() =~= rows + more.drop_last());
        assert(readable_instants(rows + more) =~= readable_instants(rows) + readable_instants(more));
    }
}

/// How many rows can be read: all of them, where each can.
proof fn lemma_number_of_readings(rows: Seq<Seq<char>>)
    ensures
        readable_instants(rows).len() <= rows.len(),
        (forall|i: int| 0 <= i < rows.len() ==> stored_instant(#[trigger] rows[i]) is Some)
            ==> readable_instants(rows).len() == rows.len(),
    decreases rows.len(),
{
    if rows.len() > 0 {
        let before = rows.drop_last();
        lemma_number_of_readings(before);
        if forall|i: int| 0 <= i < rows.len() ==> stored_instant(#[trigger] rows[i]) is Some {
            assert forall|i: int| 0 <= i < before.len() implies stored_instant(
                #[trigger] before[i],
            ) is Some by {
                assert(before[i] == rows[i]);
            }
            assert(stored_instant(rows[rows.len() - 1]) is Some);
        }
    }
}

/// The history is told from the oldest heart to the newest, and tells of each stored instant that
/// can be read as often as it is stored. Where each can be read, it tells of as many hearts as the
/// count gives.
pub proof fn law_history(store: Store)
    ensures
        store.answer(QueryView::ListHearts) == (store, AnswerView::History(store.history)),
        ({
            let told = oldest_first(readable_instants(store.history));
            &&& sorted_by(told, time_order())
            &&& told.to_multiset() == readable_instants(store.history).to_multiset()
            &&& public_history(store.history).len() == told.len()
            &&& forall|i: int|
                0 <= i < told.len() ==> #[trigger] public_history(store.history)[i]
                    == rfc3339_millis_text(told[i].0, told[i].1)
        }),
        public_history(store.history).len() <= store.history.len(),
        (forall|i: int|
            0 <= i < store.history.len() ==> stored_instant(#[trigger] store.history[i]) is Some)
            ==> public_history(store.history).len() == store.history.len(),
{
    let readings = readable_instants(store.history);
    lemma_total_order_of_instants();
    readings.lemma_sort_by_ensures(time_order());
    lemma_number_of_readings(store.history);
    to_multiset_len(readings);
    to_multiset_len(oldest_first(readings));
}

/// The history that is told does not depend on the order in which the store gives its rows.
pub proof fn law_history_ignores_row_order(rows: Seq<Seq<char>>, other: Seq<Seq<char>>)
    requires
        rows.to_multiset() == other.to_multiset(),
    ensures
        public_history(rows) == public_history(other),
{
    lemma_readings_ignore_row_order(rows, other);
    lemma_total_order_of_instants();
    readable_instants(rows).lemma_sort_by_ensures(time_order());
    readable_instants(other).lemma_sort_by_ensures(time_order());
    lemma_sorted_unique(
        oldest_first(readable_instants(rows)),
        oldest_first(readable_instants(other)),
        time_order(),
    );
}

proof fn lemma_readings_ignore_row_order(rows: Seq<Seq<char>>, other: Seq<Seq<char>>)
    requires
        rows.to_multiset() == other.to_multiset(),
    ensures
        readable_instants(rows).to_multiset() == readable_instants(other).to_multiset(),
    decreases rows.len(),
{
    broadcast use vstd::seq_lib::group_to_multiset_ensures;

    to_multiset_len(rows);
    to_multiset_len(other);
    if rows.len() > 0 {
        let row = rows.last();
        let before = rows.drop_last();
        assert(rows.contains(row));
        assert(other.to_multiset().contains(row));
        let at = choose|i: int| 0 <= i < other.len() && other[i] == row;
        let left = other.take(at);
        let right = other.skip(at + 1);
        let rest = other.remove(at);
        assert(rest =~= left + right);
        assert(other =~= left + seq![row] + right);
        assert(before =~= rows.remove(rows.len() - 1));
        to_multiset_remove(rows, rows.len() - 1);
        to_multiset_remove(other, at);
        lemma_readings_ignore_row_order(before, rest);
        lemma_readings_of_both(left + seq![row], right);
        lemma_readings_of_both(left, seq![row]);
        lemma_readings_of_both(left, right);
        let l = readable_instants(left);
        let r = readable_instants(right);
        assert(seq![row].drop_last() =~= Seq::<Seq<char>>::empty());
        assert(readable_instants(seq![row].drop_last()) =~= Seq::<(i64, u32)>::empty());
        match stored_instant(row) {
            Some(instant) => {
                assert(readable_instants(seq![row]) =~= seq![instant]);
                assert(l + seq![instant] + r =~= (l + r).insert(l.len() as int, instant));
                to_multiset_insert(l + r, l.len() as int, instant);
                to_multiset_build(readable_instants(before), instant);
            },
            None => {
                assert(readable_instants(seq![row]) =~= Seq::<(i64, u32)>::empty());
                assert(l + Seq::<(i64, u32)>::empty() + r =~= l + r);
            },
        }
    }
}

/// A vote that is accepted comes into the history that is told, and one that is refused does not.
/// The instant of the vote has to read back from its text, as it does in years of four digits.
pub proof fn law_vote_enters_history(
    store: Store,
    voter_id: Seq<char>,
    window_seconds: u64,
    checked_at: (i64, u32),
    recorded_at: (i64, u32),
)
    requires
        stored_instant(rfc3339_text(recorded_at.0, recorded_at.1)) == Some(recorded_at),
    ensures
        ({
            let kept = post_outcome(store, voter_id, window_seconds, checked_at, recorded_at).0;
            let told = public_history(kept.history);
            if wait_of(store, voter_id, window_seconds, checked_at) is None {
                told.len() == public_history(store.history).len() + 1 && told.contains(
                    rfc3339_millis_text(recorded_at.0, recorded_at.1),
                )
            } else {
                told == public_history(store.history)
            }
        }),
{
    broadcast use vstd::seq_lib::group_to_multiset_ensures;

    law_vote(store, voter_id, window_seconds, checked_at, recorded_at);
    let kept = post_outcome(store, voter_id, window_seconds, checked_at, recorded_at).0;
    if wait_of(store, voter_id, window_seconds, checked_at) is None {
        law_history(store);
        law_history(kept);
        let readings = readable_instants(kept.history);
        let told = oldest_first(readings);
        assert(kept.history.drop_last() =~= store.history);
        assert(readings == readable_instants(store.history).push(recorded_at));
        assert(readings.last() == recorded_at);
        assert(readings.contains(recorded_at));
        assert(told.to_multiset().contains(recorded_at));
        let i = choose|i: int| 0 <= i < told.len() && told[i] == recorded_at;
        assert(public_history(kept.history)[i] == rfc3339_millis_text(
            recorded_at.0,
            recorded_at.1,
        ));
        to_multiset_len(readings);
        to_multiset_len(told);
        to_multiset_len(readable_instants(store.history));
        to_multiset_len(oldest_first(readable_instants(store.history)));
    }
}

} // verus!
