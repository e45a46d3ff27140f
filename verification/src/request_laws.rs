//! What the requests ask and answer, in numbers and field by field.

use crate::get_hearts::{
    first_get_step, next_get_step, GetHearts, GetStep, GetStepView, GetView, Stage as CountStage,
    StageView,
};
use crate::get_history::{oldest_first, public_history, readable_instants, time_order};
use crate::laws::{get_outcome, law_count, law_history, law_vote, post_outcome};
use crate::post_hearts::{
    first_post_step, next_post_step, PostHearts, PostStep, PostStepView, PostView, Stage, VoteReply,
    VoteReplyView,
};
use crate::replies::{ApiError, HeartsResponse};
use crate::store::{characters, rows_of, Answer, AnswerView, Query, QueryView, Store};
use crate::time_laws::{law_stored_instant, law_wait_in_numbers};
use crate::timestamp::{rfc3339_millis_text, rfc3339_text, stored_instant};
use crate::votes::wait_after;
use vstd::prelude::*;
use vstd::seq_lib::to_multiset_build;

verus! {

/// What a vote that is accepted leaves in the store: one heart more in the history, which is the
/// voter's last vote. The answer counts it.
pub open spec fn is_accepted(
    store: Store,
    voter_id: Seq<char>,
    recorded_at: (i64, u32),
    outcome: (Store, PostStepView),
) -> bool {
    let text = rfc3339_text(recorded_at.0, recorded_at.1);
    &&& outcome.0.history == store.history.push(text)
    &&& outcome.0.votes == store.votes.insert(voter_id, text)
    &&& outcome.1 == PostStepView::Reply(
        VoteReplyView {
            voter_id,
            count: store.history.len() as int + 1,
            voted: true,
            reason: None,
            retry_after_seconds: None,
        },
    )
}

/// A vote at least the window after the voter's last one is accepted, and one before that is
/// refused. The refusal changes nothing; it tells the count, and the whole seconds that are left of
/// the window.
pub proof fn law_vote_in_numbers(
    store: Store,
    voter_id: Seq<char>,
    voted_at: (i64, u32),
    window_seconds: u64,
    checked_at: (i64, u32),
    recorded_at: (i64, u32),
)
    requires
        store.votes.dom().contains(voter_id),
        stored_instant(store.votes[voter_id]) == Some(voted_at),
        voted_at.1 < 1_000_000_000,
        checked_at.1 < 1_000_000_000,
    ensures
        ({
            let gone = (checked_at.0 - voted_at.0) * 1_000_000_000 + checked_at.1 - voted_at.1;
            let window = window_seconds * 1_000_000_000;
            let outcome = post_outcome(store, voter_id, window_seconds, checked_at, recorded_at);
            &&& gone >= window || window_seconds == 0 ==> is_accepted(
                store,
                voter_id,
                recorded_at,
                outcome,
            )
            &&& gone < window && window_seconds > 0 ==> {
                &&& outcome.0 == store
                &&& outcome.1 matches PostStepView::Reply(reply)
                &&& reply.voter_id == voter_id
                &&& reply.count == store.history.len()
                &&& !reply.voted
                &&& reply.reason == Some("already_voted"@)
                &&& reply.retry_after_seconds matches Some(wait)
                &&& gone <= 0 ==> wait == window_seconds
                &&& gone > 0 ==> wait * 1_000_000_000 <= window - gone < (wait + 1) * 1_000_000_000
            }
        }),
{
    law_vote(store, voter_id, window_seconds, checked_at, recorded_at);
    law_stored_instant(store.votes[voter_id]);
    law_wait_in_numbers(voted_at, window_seconds, checked_at);
}

/// A voter without a stored vote, or whose stored vote cannot be read, is accepted at any instant.
pub proof fn law_vote_without_a_last_one(
    store: Store,
    voter_id: Seq<char>,
    window_seconds: u64,
    checked_at: (i64, u32),
    recorded_at: (i64, u32),
)
    requires
        store.votes.dom().contains(voter_id) ==> stored_instant(store.votes[voter_id]) is None,
    ensures
        is_accepted(
            store,
            voter_id,
            recorded_at,
            post_outcome(store, voter_id, window_seconds, checked_at, recorded_at),
        ),
{
    law_vote(store, voter_id, window_seconds, checked_at, recorded_at);
}

/// Two visitors of different names who have not voted yet are both accepted, whenever they come: the
/// first is told of one heart more than there were, and the second of two.
pub proof fn law_two_new_voters_are_accepted(
    store: Store,
    one: Seq<char>,
    other: Seq<char>,
    window_seconds: u64,
    one_checked_at: (i64, u32),
    one_recorded_at: (i64, u32),
    other_checked_at: (i64, u32),
    other_recorded_at: (i64, u32),
)
    requires
        one != other,
        !store.votes.dom().contains(one),
        !store.votes.dom().contains(other),
    ensures
        ({
            let first = post_outcome(store, one, window_seconds, one_checked_at, one_recorded_at);
            let second = post_outcome(
                first.0,
                other,
                window_seconds,
                other_checked_at,
                other_recorded_at,
            );
            &&& first.1 matches PostStepView::Reply(told)
            &&& told.voted && told.count == store.history.len() + 1
            &&& second.1 matches PostStepView::Reply(told)
            &&& told.voted && told.count == store.history.len() + 2
        }),
{
    law_vote_without_a_last_one(store, one, window_seconds, one_checked_at, one_recorded_at);
    let first = post_outcome(store, one, window_seconds, one_checked_at, one_recorded_at);
    law_vote_without_a_last_one(
        first.0,
        other,
        window_seconds,
        other_checked_at,
        other_recorded_at,
    );
}

/// A visitor is told of having voted exactly before the window is over that the last vote opened.
/// The count is the number of hearts in the history, and asking for it changes nothing.
pub proof fn law_count_in_numbers(
    store: Store,
    voter_id: Seq<char>,
    window_seconds: u64,
    now: (i64, u32),
)
    requires
        now.1 < 1_000_000_000,
    ensures
        get_outcome(store, None, window_seconds, now) == (
            store,
            GetStepView::Reply { count: store.history.len() as int, already_voted: false },
        ),
        ({
            let outcome = get_outcome(store, Some(voter_id), window_seconds, now);
            &&& outcome.0 == store
            &&& outcome.1 matches GetStepView::Reply { count, already_voted }
            &&& count == store.history.len()
            &&& !store.votes.dom().contains(voter_id) ==> !already_voted
            &&& store.votes.dom().contains(voter_id) ==> match stored_instant(
                store.votes[voter_id],
            ) {
                Some(voted_at) => voted_at.1 < 1_000_000_000 ==> (already_voted <==> (now.0
                    - voted_at.0) * 1_000_000_000 + now.1 - voted_at.1 < window_seconds
                    * 1_000_000_000 && window_seconds > 0),
                None => !already_voted,
            }
        }),
{
    law_count(store, None, window_seconds, now);
    law_count(store, Some(voter_id), window_seconds, now);
    if store.votes.dom().contains(voter_id) {
        law_stored_instant(store.votes[voter_id]);
        if let Some(voted_at) = stored_instant(store.votes[voter_id]) {
            if voted_at.1 < 1_000_000_000 {
                law_wait_in_numbers(voted_at, window_seconds, now);
            }
        }
    }
}

/// A vote begins with the question when the voter last voted. The answer decides whether the voter
/// is to wait, in which case the count is asked for, or whether the vote is recorded, with the
/// voter's own name and the present instant. The answers tell the count that the store gave.
pub proof fn law_steps_of_a_vote(
    voter_id: Seq<char>,
    voted_at: Option<Seq<char>>,
    wait: u64,
    count: int,
    window_seconds: u64,
    now: (i64, u32),
)
    ensures
        first_post_step(voter_id) == PostStepView::Ask(
            PostView { voter_id, stage: Stage::Checking },
            QueryView::LastVote { voter_id },
        ),
        ({
            let last = match voted_at {
                Some(text) => stored_instant(text),
                None => None,
            };
            let step = next_post_step(
                PostView { voter_id, stage: Stage::Checking },
                AnswerView::LastVote(voted_at),
                window_seconds,
                now,
            );
            match wait_after(last, window_seconds, now) {
                Some(left) => step == PostStepView::Ask(
                    PostView { voter_id, stage: Stage::Refusing(left) },
                    QueryView::CountHearts,
                ),
                None => step == PostStepView::Ask(
                    PostView { voter_id, stage: Stage::Beginning },
                    QueryView::BeginVote,
                ),
            }
        }),
        next_post_step(
            PostView { voter_id, stage: Stage::Refusing(wait) },
            AnswerView::Count(count),
            window_seconds,
            now,
        ) == PostStepView::Reply(
            VoteReplyView {
                voter_id,
                count,
                voted: false,
                reason: Some("already_voted"@),
                retry_after_seconds: Some(wait),
            },
        ),
        next_post_step(
            PostView { voter_id, stage: Stage::Beginning },
            AnswerView::Begun,
            window_seconds,
            now,
        ) == PostStepView::Ask(
            PostView { voter_id, stage: Stage::Recording },
            QueryView::RecordVote { voter_id, voted_at: rfc3339_text(now.0, now.1) },
        ),
        next_post_step(
            PostView { voter_id, stage: Stage::Recording },
            AnswerView::Recorded(count),
            window_seconds,
            now,
        ) == PostStepView::Reply(
            VoteReplyView {
                voter_id,
                count,
                voted: true,
                reason: None,
                retry_after_seconds: None,
            },
        ),
{
}

/// A request for the count begins with the question for it. A visitor who names no voter is told of
/// not having voted; for one who does, the voter's last vote is asked for and decides.
pub proof fn law_steps_of_a_count(
    voter_id: Seq<char>,
    voted_at: Option<Seq<char>>,
    count: int,
    window_seconds: u64,
    now: (i64, u32),
)
    ensures
        first_get_step(None) == GetStepView::Ask(
            GetView { voter_id: None, stage: StageView::Counting },
            QueryView::CountHearts,
        ),
        first_get_step(Some(voter_id)) == GetStepView::Ask(
            GetView { voter_id: Some(voter_id), stage: StageView::Counting },
            QueryView::CountHearts,
        ),
        next_get_step(
            GetView { voter_id: None, stage: StageView::Counting },
            AnswerView::Count(count),
            window_seconds,
            now,
        ) == (GetStepView::Reply { count, already_voted: false }),
        next_get_step(
            GetView { voter_id: Some(voter_id), stage: StageView::Counting },
            AnswerView::Count(count),
            window_seconds,
            now,
        ) == GetStepView::Ask(
            GetView { voter_id: Some(voter_id), stage: StageView::Checking(count) },
            QueryView::LastVote { voter_id },
        ),
        ({
            let last = match voted_at {
                Some(text) => stored_instant(text),
                None => None,
            };
            next_get_step(
                GetView { voter_id: Some(voter_id), stage: StageView::Checking(count) },
                AnswerView::LastVote(voted_at),
                window_seconds,
                now,
            ) == (GetStepView::Reply {
                count,
                already_voted: wait_after(last, window_seconds, now) is Some,
            })
        }),
{
}

/// A store that answers another question than it was asked ends the request.
pub proof fn law_unexpected_answer_ends_a_request(
    vote: PostView,
    request: GetView,
    answer: AnswerView,
    window_seconds: u64,
    now: (i64, u32),
)
    requires
        answer !is Failed,
    ensures
        ({
            let fits = match vote.stage {
                Stage::Checking => answer is LastVote,
                Stage::Refusing(_) => answer is Count,
                Stage::Beginning => answer is Begun,
                Stage::Recording => answer is Recorded,
            };
            !fits <==> next_post_step(vote, answer, window_seconds, now) is Fail
        }),
        next_post_step(vote, answer, window_seconds, now) matches PostStepView::Fail(error)
            ==> error == ApiError::UnexpectedAnswer,
        ({
            let fits = match request.stage {
                StageView::Counting => answer is Count,
                StageView::Checking(_) => answer is LastVote,
            };
            !fits <==> next_get_step(request, answer, window_seconds, now) is Fail
        }),
        next_get_step(request, answer, window_seconds, now) matches GetStepView::Fail(error)
            ==> error == ApiError::UnexpectedAnswer,
{
}

/// An instant is among the readings of rows as often as a row reads as it.
proof fn lemma_readings_count(rows: Seq<Seq<char>>, instant: (i64, u32))
    ensures
        readable_instants(rows).to_multiset().count(instant) == rows.filter(
            |row: Seq<char>| stored_instant(row) == Some(instant),
        ).len(),
    decreases rows.len(),
{
    broadcast use vstd::seq_lib::group_to_multiset_ensures;

    reveal(Seq::filter);
    if rows.len() > 0 {
        lemma_readings_count(rows.drop_last(), instant);
        if let Some(read) = stored_instant(rows.last()) {
            to_multiset_build(readable_instants(rows.drop_last()), read);
        }
    }
}

/// Whether the instants are those that rows read as, each as often as a row reads as it, and none
/// has more seconds since 1970, or as many and more nanoseconds, than one that comes after it.
pub open spec fn is_order_of_rows(told: Seq<(i64, u32)>, rows: Seq<Seq<char>>) -> bool {
    &&& forall|i: int, j: int|
        0 <= i < j < told.len() ==> (#[trigger] told[i]).0 < (#[trigger] told[j]).0 || (told[i].0
            == told[j].0 && told[i].1 <= told[j].1)
    &&& forall|instant: (i64, u32)| #[trigger]
        told.to_multiset().count(instant) == rows.filter(
            |row: Seq<char>| stored_instant(row) == Some(instant),
        ).len()
}

/// The history that is told has the public texts of the instants that the rows read as, from the
/// fewest seconds since 1970 to the most.
pub proof fn law_history_in_numbers(rows: Seq<Seq<char>>)
    ensures
        exists|told: Seq<(i64, u32)>| #[trigger]
            is_order_of_rows(told, rows) && told.len() == public_history(rows).len() && (forall|
                i: int,
            |
                0 <= i < told.len() ==> #[trigger] public_history(rows)[i] == rfc3339_millis_text(
                    told[i].0,
                    told[i].1,
                )),
{
    let told = oldest_first(readable_instants(rows));
    let store = Store { history: rows, votes: Map::empty() };
    law_history(store);
    assert forall|i: int, j: int| 0 <= i < j < told.len() implies (#[trigger] told[i]).0 < (
    #[trigger] told[j]).0 || (told[i].0 == told[j].0 && told[i].1 <= told[j].1) by {
        let leq = time_order();
        assert(leq(told[i], told[j]));
    }
    assert forall|instant: (i64, u32)| #[trigger]
        told.to_multiset().count(instant) == rows.filter(
            |row: Seq<char>| stored_instant(row) == Some(instant),
        ).len() by {
        lemma_readings_count(rows, instant);
    }
    assert(is_order_of_rows(told, rows));
}

/// Of two rows that can be read, the one that reads as an instant with fewer seconds since 1970 is
/// told before the other.
pub proof fn law_older_hearts_are_told_first(
    rows: Seq<Seq<char>>,
    older: (i64, u32),
    newer: (i64, u32),
)
    requires
        exists|i: int| 0 <= i < rows.len() && stored_instant(#[trigger] rows[i]) == Some(older),
        exists|i: int| 0 <= i < rows.len() && stored_instant(#[trigger] rows[i]) == Some(newer),
        older.0 < newer.0,
    ensures
        exists|i: int, j: int|
            0 <= i < j < public_history(rows).len() && #[trigger] public_history(rows)[i]
                == rfc3339_millis_text(older.0, older.1) && #[trigger] public_history(rows)[j]
                == rfc3339_millis_text(newer.0, newer.1),
{
    broadcast use vstd::seq_lib::group_to_multiset_ensures;

    law_history_in_numbers(rows);
    let told = choose|told: Seq<(i64, u32)>| #[trigger]
        is_order_of_rows(told, rows) && told.len() == public_history(rows).len() && (forall|i: int|
            0 <= i < told.len() ==> #[trigger] public_history(rows)[i] == rfc3339_millis_text(
                told[i].0,
                told[i].1,
            ));
    lemma_row_is_told(rows, told, older);
    lemma_row_is_told(rows, told, newer);
    let i = choose|i: int| 0 <= i < told.len() && told[i] == older;
    let j = choose|j: int| 0 <= j < told.len() && told[j] == newer;
    assert(public_history(rows)[i] == rfc3339_millis_text(older.0, older.1));
    assert(public_history(rows)[j] == rfc3339_millis_text(newer.0, newer.1));
    assert(i < j);
}

/// An instant that a row reads as is told of.
proof fn lemma_row_is_told(rows: Seq<Seq<char>>, told: Seq<(i64, u32)>, instant: (i64, u32))
    requires
        is_order_of_rows(told, rows),
        exists|i: int| 0 <= i < rows.len() && stored_instant(#[trigger] rows[i]) == Some(instant),
    ensures
        exists|i: int| 0 <= i < told.len() && told[i] == instant,
{
    broadcast use vstd::seq_lib::group_to_multiset_ensures;

    let reads = |row: Seq<char>| stored_instant(row) == Some(instant);
    let i = choose|i: int| 0 <= i < rows.len() && stored_instant(#[trigger] rows[i]) == Some(
        instant,
    );
    rows.lemma_filter_contains(reads, i);
    let found = rows.filter(reads);
    assert(found.len() > 0);
    assert(told.to_multiset().count(instant) > 0);
    assert(told.contains(instant));
}

/// The rows of the store are seen as they are, one by one.
pub proof fn law_rows_are_seen_as_they_are(rows: Seq<String>, text: String)
    ensures
        rows_of(rows).len() == rows.len(),
        forall|i: int| 0 <= i < rows.len() ==> #[trigger] rows_of(rows)[i] == rows[i]@,
        characters(Some(text)) == Some(text@),
        characters(None) is None,
{
}

/// Queries and answers are seen as they are, field by field.
pub proof fn law_store_is_seen_as_it_is(
    voter_id: String,
    voted_at: String,
    count: i64,
    rows: Vec<String>,
)
    ensures
        (Query::LastVote { voter_id })@ == (QueryView::LastVote { voter_id: voter_id@ }),
        Query::CountHearts@ == QueryView::CountHearts,
        Query::BeginVote@ == QueryView::BeginVote,
        (Query::RecordVote { voter_id, voted_at })@ == (QueryView::RecordVote {
            voter_id: voter_id@,
            voted_at: voted_at@,
        }),
        Query::ListHearts@ == QueryView::ListHearts,
        Answer::LastVote(Some(voted_at))@ == AnswerView::LastVote(Some(voted_at@)),
        Answer::LastVote(None)@ == AnswerView::LastVote(None),
        Answer::Count(count)@ == AnswerView::Count(count as int),
        Answer::Begun@ == AnswerView::Begun,
        Answer::Recorded(count)@ == AnswerView::Recorded(count as int),
        Answer::Failed@ == AnswerView::Failed,
        Answer::History(rows)@ == AnswerView::History(rows_of(rows@)),
{
}

/// Steps and answers to visitors are seen as they are, field by field.
pub proof fn law_steps_are_seen_as_they_are(
    vote: PostHearts,
    reply: VoteReply,
    request: GetHearts,
    body: HeartsResponse,
    query: Query,
    error: ApiError,
)
    ensures
        PostStep::Ask(vote, query)@ == PostStepView::Ask(
            PostView { voter_id: vote.voter_id@, stage: vote.stage },
            query@,
        ),
        PostStep::Reply(reply)@ == PostStepView::Reply(
            VoteReplyView {
                voter_id: reply.voter_id@,
                count: reply.body.count as int,
                voted: reply.body.voted,
                reason: match reply.body.reason {
                    Some(reason) => Some(reason@),
                    None => None,
                },
                retry_after_seconds: reply.body.retry_after_seconds,
            },
        ),
        PostStep::Fail(error)@ == PostStepView::Fail(error),
        GetStep::Ask(request, query)@ == GetStepView::Ask(
            GetView {
                voter_id: match request.voter_id {
                    Some(voter_id) => Some(voter_id@),
                    None => None,
                },
                stage: match request.stage {
                    CountStage::Counting => StageView::Counting,
                    CountStage::Checking(count) => StageView::Checking(count as int),
                },
            },
            query@,
        ),
        GetStep::Reply(body)@ == (GetStepView::Reply {
            count: body.count as int,
            already_voted: body.already_voted,
        }),
        GetStep::Fail(error)@ == GetStepView::Fail(error),
{
}

} // verus!
