//! Taking a vote, step by step: what to ask of the store, and what to answer to the voter.

use crate::config::Config;
use crate::cookies::{
    generate_voter_id, is_alphanumeric, read_voter_cookie, vote_headers, voter_in, VOTER_ID_LENGTH,
};
use crate::headers::{header_values, is_header_text, no_values, with_value};
use crate::replies::{ApiError, VoteResponse};
use crate::store::{Answer, AnswerView, Query, QueryView};
use crate::timestamp::{
    four_digit_year, is_clock_reading, rfc3339_text, stored_instant, Timestamp,
};
use crate::votes::{recent_vote_at, vote_instant, wait_after};
use axum::http::{HeaderMap, HeaderValue};
use vstd::prelude::*;

verus! {

/// How far a vote has come.
#[derive(Clone, Copy, Debug, PartialEq, Eq, Structural)]
pub enum Stage {
    /// The store was asked for the voter's last vote.
    Checking,
    /// The vote comes too early by this many seconds, and the store was asked for the count.
    Refusing(u64),
    /// The vote is accepted, and the store was asked to begin the transaction.
    Beginning,
    /// The store was asked to record the vote.
    Recording,
}

/// A vote that waits for an answer of the store.
pub struct PostHearts {
    pub voter_id: String,
    pub stage: Stage,
}

/// The answer to a vote, and the voter whose cookie goes with it.
pub struct VoteReply {
    pub voter_id: String,
    pub body: VoteResponse,
}

/// What to do next about a vote.
pub enum PostStep {
    /// Ask the store, and go on with its answer.
    Ask(PostHearts, Query),
    /// Answer the voter.
    Reply(VoteReply),
    /// Answer that something went wrong.
    Fail(ApiError),
}

/// A vote, with characters for its strings.
pub struct PostView {
    pub voter_id: Seq<char>,
    pub stage: Stage,
}

/// The answer to a vote, with characters for its strings.
pub struct VoteReplyView {
    pub voter_id: Seq<char>,
    pub count: int,
    pub voted: bool,
    pub reason: Option<Seq<char>>,
    pub retry_after_seconds: Option<u64>,
}

/// A step, with characters for its strings.
pub enum PostStepView {
    Ask(PostView, QueryView),
    Reply(VoteReplyView),
    Fail(ApiError),
}

impl View for PostHearts {
    type V = PostView;

    open spec fn view(&self) -> PostView {
        PostView { voter_id: self.voter_id@, stage: self.stage }
    }
}

impl View for VoteReply {
    type V = VoteReplyView;

    open spec fn view(&self) -> VoteReplyView {
        VoteReplyView {
            voter_id: self.voter_id@,
            count: self.body.count as int,
            voted: self.body.voted,
            reason: match self.body.reason {
                Some(reason) => Some(reason@),
                None => None,
            },
            retry_after_seconds: self.body.retry_after_seconds,
        }
    }
}

impl View for PostStep {
    type V = PostStepView;

    open spec fn view(&self) -> PostStepView {
        match *self {
            PostStep::Ask(vote, query) => PostStepView::Ask(vote@, query@),
            PostStep::Reply(reply) => PostStepView::Reply(reply@),
            PostStep::Fail(error) => PostStepView::Fail(error),
        }
    }
}

/// The answer to a vote that comes too early.
pub open spec fn refusal(voter_id: Seq<char>, count: int, wait: u64) -> VoteReplyView {
    VoteReplyView {
        voter_id,
        count,
        voted: false,
        reason: Some("already_voted"@),
        retry_after_seconds: Some(wait),
    }
}

/// The answer to a vote that is recorded.
pub open spec fn acceptance(voter_id: Seq<char>, count: int) -> VoteReplyView {
    VoteReplyView { voter_id, count, voted: true, reason: None, retry_after_seconds: None }
}

/// The first step of a voter's vote.
pub open spec fn first_post_step(voter_id: Seq<char>) -> PostStepView {
    PostStepView::Ask(
        PostView { voter_id, stage: Stage::Checking },
        QueryView::LastVote { voter_id },
    )
}

/// The step that follows when the store has answered and the clock shows `now`.
pub open spec fn next_post_step(
    vote: PostView,
    answer: AnswerView,
    window_seconds: u64,
    now: (i64, u32),
) -> PostStepView {
    let voter_id = vote.voter_id;
    match (vote.stage, answer) {
        (_, AnswerView::Failed) => PostStepView::Fail(ApiError::StoreFailed),
        (Stage::Checking, AnswerView::LastVote(voted_at)) => match wait_after(
            vote_instant(voted_at),
            window_seconds,
            now,
        ) {
            Some(wait) => PostStepView::Ask(
                PostView { voter_id, stage: Stage::Refusing(wait) },
                QueryView::CountHearts,
            ),
            None => PostStepView::Ask(
                PostView { voter_id, stage: Stage::Beginning },
                QueryView::BeginVote,
            ),
        },
        (Stage::Refusing(wait), AnswerView::Count(count)) => PostStepView::Reply(
            refusal(voter_id, count, wait),
        ),
        (Stage::Beginning, AnswerView::Begun) => PostStepView::Ask(
            PostView { voter_id, stage: Stage::Recording },
            QueryView::RecordVote { voter_id, voted_at: rfc3339_text(now.0, now.1) },
        ),
        (Stage::Recording, AnswerView::Recorded(count)) => PostStepView::Reply(
            acceptance(voter_id, count),
        ),
        _ => PostStepView::Fail(ApiError::UnexpectedAnswer),
    }
}

impl PostHearts {
    /// The first step of the vote of a voter.
    pub fn begin(voter_id: String) -> (step: PostStep)
        ensures
            step@ == first_post_step(voter_id@),
    {
        let asked: String = voter_id.clone();
        PostStep::Ask(
            PostHearts { voter_id, stage: Stage::Checking },
            Query::LastVote { voter_id: asked },
        )
    }

    /// The first step of the vote that a request brings. A request whose cookie names no voter gets
    /// a new name, the one that was drawn for it.
    pub fn start(headers: &HeaderMap<HeaderValue>, config: &Config) -> (step: PostStep)
        ensures
            match voter_in(header_values(*headers), config.cookie_name@) {
                Some(voter_id) => step@ == first_post_step(voter_id),
                None => step@ matches PostStepView::Ask(vote, _) && step@ == first_post_step(
                    vote.voter_id,
                ) && vote.voter_id.len() == VOTER_ID_LENGTH && forall|i: int|
                    0 <= i < vote.voter_id.len() ==> is_alphanumeric(#[trigger] vote.voter_id[i]),
            },
            voter_in(header_values(*headers), config.cookie_name@) is None ==> exists|name: String|
                #[trigger] call_ensures(generate_voter_id, (), name) && step@ == first_post_step(
                    name@,
                ),
    {
        match read_voter_cookie(headers, config.cookie_name.as_str()) {
            Some(voter_id) => PostHearts::begin(voter_id),
            None => PostHearts::begin(generate_voter_id()),
        }
    }

    /// The step that follows when the store has answered and the clock shows `now`.
    pub fn next_at(self, answer: Answer, window_seconds: u64, now: Timestamp) -> (step: PostStep)
        ensures
            step@ == next_post_step(self@, answer@, window_seconds, now@),
            four_digit_year(now@) ==> (step matches PostStep::Ask(_, Query::RecordVote {
                voted_at,
                ..
            }) ==> stored_instant(voted_at@) == Some(now@)),
    {
        let voter_id = self.voter_id;
        match (self.stage, answer) {
            (_, Answer::Failed) => PostStep::Fail(ApiError::StoreFailed),
            (Stage::Checking, Answer::LastVote(voted_at)) => {
                let text: Option<&str> = match &voted_at {
                    Some(text) => Some(text.as_str()),
                    None => None,
                };
                match recent_vote_at(text, window_seconds, now) {
                    Some(wait) => PostStep::Ask(
                        PostHearts { voter_id, stage: Stage::Refusing(wait) },
                        Query::CountHearts,
                    ),
                    None => PostStep::Ask(
                        PostHearts { voter_id, stage: Stage::Beginning },
                        Query::BeginVote,
                    ),
                }
            },
            (Stage::Refusing(wait), Answer::Count(count)) => PostStep::Reply(
                VoteReply {
                    voter_id,
                    body: VoteResponse {
                        count,
                        voted: false,
                        reason: Some("already_voted"),
                        retry_after_seconds: Some(wait),
                    },
                },
            ),
            (Stage::Beginning, Answer::Begun) => {
                let recorded: String = voter_id.clone();
                PostStep::Ask(
                    PostHearts { voter_id, stage: Stage::Recording },
                    Query::RecordVote { voter_id: recorded, voted_at: now.to_rfc3339() },
                )
            },
            (Stage::Recording, Answer::Recorded(count)) => PostStep::Reply(
                VoteReply {
                    voter_id,
                    body: VoteResponse {
                        count,
                        voted: true,
                        reason: None,
                        retry_after_seconds: None,
                    },
                },
            ),
            _ => PostStep::Fail(ApiError::UnexpectedAnswer),
        }
    }

    /// The step that follows when the store has answered, by the instant that the clock shows.
    pub fn next(self, answer: Answer, config: &Config) -> (step: PostStep)
        ensures
            exists|now: Timestamp|
                #[trigger] call_ensures(Timestamp::now, (), now) && is_clock_reading(now@) && step@
                    == next_post_step(
                    self@,
                    answer@,
                    config.vote_window_seconds,
                    now@,
                ) && (four_digit_year(now@) ==> (step matches PostStep::Ask(_, Query::RecordVote {
                    voted_at,
                    ..
                }) ==> stored_instant(voted_at@) == Some(now@))),
    {
        let now = Timestamp::now();
        self.next_at(answer, config.vote_window_seconds, now)
    }
}

impl VoteReply {
    /// The headers and the body of the answer: the headers set the voter's cookie.
    pub fn into_answer(self, config: &Config) -> (answer: Result<
        (HeaderMap<HeaderValue>, VoteResponse),
        ApiError,
    >)
        ensures
            match answer {
                Ok((headers, body)) => {
                    &&& is_header_text(config.vote_cookie(self.voter_id@))
                    &&& header_values(headers) == with_value(
                        no_values(),
                        "set-cookie"@,
                        vstd::utf8::encode_utf8(config.vote_cookie(self.voter_id@)),
                    )
                    &&& body == self.body
                },
                Err(error) => !is_header_text(config.vote_cookie(self.voter_id@)) && error
                    == ApiError::InvalidSetCookie,
            },
    {
        match vote_headers(config, self.voter_id.as_str()) {
            Ok(headers) => Ok((headers, self.body)),
            Err(error) => Err(error),
        }
    }
}

} // verus!
