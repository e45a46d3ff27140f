//! Telling the count, step by step: what to ask of the store, and what to answer.

use crate::config::Config;
use crate::cookies::{read_voter_cookie, voter_in};
use crate::headers::header_values;
use crate::replies::{ApiError, HeartsResponse};
use crate::store::{characters, Answer, AnswerView, Query, QueryView};
use crate::timestamp::{is_clock_reading, Timestamp};
use crate::votes::{recent_vote_at, vote_instant, wait_after};
use axum::http::{HeaderMap, HeaderValue};
use vstd::prelude::*;

verus! {

/// How far a request for the count has come.
#[derive(Clone, Copy, Debug, PartialEq, Eq, Structural)]
pub enum Stage {
    /// The store was asked for the count.
    Counting,
    /// This is the count, and the store was asked for the voter's last vote.
    Checking(i64),
}

/// A request for the count that waits for an answer of the store.
pub struct GetHearts {
    pub voter_id: Option<String>,
    pub stage: Stage,
}

/// What to do next about a request for the count.
pub enum GetStep {
    /// Ask the store, and go on with its answer.
    Ask(GetHearts, Query),
    /// Answer the request.
    Reply(HeartsResponse),
    /// Answer that something went wrong.
    Fail(ApiError),
}

/// How far a request for the count has come, with a mathematical count.
pub enum StageView {
    Counting,
    Checking(int),
}

/// A request for the count, with characters for its strings.
pub struct GetView {
    pub voter_id: Option<Seq<char>>,
    pub stage: StageView,
}

/// A step, with characters for its strings.
pub enum GetStepView {
    Ask(GetView, QueryView),
    Reply { count: int, already_voted: bool },
    Fail(ApiError),
}

impl View for GetHearts {
    type V = GetView;

    open spec fn view(&self) -> GetView {
        GetView {
            voter_id: characters(self.voter_id),
            stage: match self.stage {
                Stage::Counting => StageView::Counting,
                Stage::Checking(count) => StageView::Checking(count as int),
            },
        }
    }
}

impl View for GetStep {
    type V = GetStepView;

    open spec fn view(&self) -> GetStepView {
        match *self {
            GetStep::Ask(request, query) => GetStepView::Ask(request@, query@),
            GetStep::Reply(body) => GetStepView::Reply {
                count: body.count as int,
                already_voted: body.already_voted,
            },
            GetStep::Fail(error) => GetStepView::Fail(error),
        }
    }
}

/// The first step of a request that names this voter, or none.
pub open spec fn first_get_step(voter_id: Option<Seq<char>>) -> GetStepView {
    GetStepView::Ask(GetView { voter_id, stage: StageView::Counting }, QueryView::CountHearts)
}

/// The step that follows when the store has answered and the clock shows `now`.
pub open spec fn next_get_step(
    request: GetView,
    answer: AnswerView,
    window_seconds: u64,
    now: (i64, u32),
) -> GetStepView {
    match (request.stage, answer) {
        (_, AnswerView::Failed) => GetStepView::Fail(ApiError::StoreFailed),
        (StageView::Counting, AnswerView::Count(count)) => match request.voter_id {
            Some(voter_id) => GetStepView::Ask(
                GetView { voter_id: Some(voter_id), stage: StageView::Checking(count) },
                QueryView::LastVote { voter_id },
            ),
            None => GetStepView::Reply { count, already_voted: false },
        },
        (StageView::Checking(count), AnswerView::LastVote(voted_at)) => GetStepView::Reply {
            count,
            already_voted: wait_after(vote_instant(voted_at), window_seconds, now) is Some,
        },
        _ => GetStepView::Fail(ApiError::UnexpectedAnswer),
    }
}

impl GetHearts {
    /// The first step of a request for the count.
    pub fn start(headers: &HeaderMap<HeaderValue>, config: &Config) -> (step: GetStep)
        ensures
            step@ == first_get_step(voter_in(header_values(*headers), config.cookie_name@)),
    {
        let voter_id = read_voter_cookie(headers, config.cookie_name.as_str());
        GetStep::Ask(GetHearts { voter_id, stage: Stage::Counting }, Query::CountHearts)
    }

    /// The step that follows when the store has answered and the clock shows `now`.
    pub fn next_at(self, answer: Answer, window_seconds: u64, now: Timestamp) -> (step: GetStep)
        ensures
            step@ == next_get_step(self@, answer@, window_seconds, now@),
    {
        match (self.stage, answer) {
            (_, Answer::Failed) => GetStep::Fail(ApiError::StoreFailed),
            (Stage::Counting, Answer::Count(count)) => match self.voter_id {
                Some(voter_id) => {
                    let asked: String = voter_id.clone();
                    GetStep::Ask(
                        GetHearts { voter_id: Some(voter_id), stage: Stage::Checking(count) },
                        Query::LastVote { voter_id: asked },
                    )
                },
                None => GetStep::Reply(HeartsResponse { count, already_voted: false }),
            },
            (Stage::Checking(count), Answer::LastVote(voted_at)) => {
                let text: Option<&str> = match &voted_at {
                    Some(text) => Some(text.as_str()),
                    None => None,
                };
                let already_voted: bool = recent_vote_at(text, window_seconds, now).is_some();
                GetStep::Reply(HeartsResponse { count, already_voted })
            },
            _ => GetStep::Fail(ApiError::UnexpectedAnswer),
        }
    }

    /// The step that follows when the store has answered, by the instant that the clock shows.
    pub fn next(self, answer: Answer, config: &Config) -> (step: GetStep)
        ensures
            exists|now: Timestamp|
                #[trigger] call_ensures(Timestamp::now, (), now) && is_clock_reading(now@) && step@
                    == next_get_step(
                    self@,
                    answer@,
                    config.vote_window_seconds,
                    now@,
                ),
    {
        let now = Timestamp::now();
        self.next_at(answer, config.vote_window_seconds, now)
    }
}

} // verus!
