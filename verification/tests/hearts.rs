use std::collections::HashMap;

use axum::http::{header, HeaderMap, HeaderValue};
use lovebin::config::{Config, SameSite};
use lovebin::get_hearts::{GetHearts, GetStep};
use lovebin::get_history::{get_history, history_query};
use lovebin::post_hearts::{PostHearts, PostStep};
use lovebin::replies::{health, ApiError, HeartsResponse, VoteResponse};
use lovebin::store::{Answer, Query};
use lovebin::timestamp::{parse_sqlite_time, Timestamp};

/// A store in memory.
struct Memory {
    history: Vec<String>,
    votes: HashMap<String, String>,
}

impl Memory {
    fn new() -> Memory {
        Memory { history: Vec::new(), votes: HashMap::new() }
    }

    fn answer(&mut self, query: Query) -> Answer {
        match query {
            Query::LastVote { voter_id } => Answer::LastVote(self.votes.get(&voter_id).cloned()),
            Query::CountHearts => Answer::Count(self.history.len() as i64),
            Query::BeginVote => Answer::Begun,
            Query::RecordVote { voter_id, voted_at } => {
                self.history.push(voted_at.clone());
                self.votes.insert(voter_id, voted_at);
                Answer::Recorded(self.history.len() as i64)
            }
            Query::ListHearts => Answer::History(self.history.clone()),
        }
    }
}

fn test_config(vote_window_seconds: u64) -> Config {
    Config {
        bind_addr: "127.0.0.1:0".to_owned(),
        cookie_name: "test_heart_vote".to_owned(),
        cookie_secure: false,
        cookie_same_site: SameSite::Lax,
        vote_window_seconds,
        database_url: "sqlite::memory:".to_owned(),
    }
}

fn with_cookie(cookie: &str) -> HeaderMap {
    let mut headers = HeaderMap::new();
    headers.insert(header::COOKIE, HeaderValue::from_str(cookie).unwrap());
    headers
}

fn cookie_pair(headers: &HeaderMap) -> String {
    headers
        .get(header::SET_COOKIE)
        .unwrap()
        .to_str()
        .unwrap()
        .split(';')
        .next()
        .unwrap()
        .to_owned()
}

fn get(store: &mut Memory, config: &Config, headers: &HeaderMap) -> HeartsResponse {
    let mut step = GetHearts::start(headers, config);
    loop {
        match step {
            GetStep::Ask(request, query) => {
                let answer = store.answer(query);
                step = request.next(answer, config);
            }
            GetStep::Reply(body) => return body,
            GetStep::Fail(error) => panic!("{:?}", error),
        }
    }
}

fn finish_post(
    store: &mut Memory,
    config: &Config,
    mut step: PostStep,
    clock: Option<Timestamp>,
) -> (HeaderMap, VoteResponse) {
    loop {
        match step {
            PostStep::Ask(vote, query) => {
                let answer = store.answer(query);
                step = match clock {
                    Some(now) => vote.next_at(answer, config.vote_window_seconds, now),
                    None => vote.next(answer, config),
                };
            }
            PostStep::Reply(reply) => return reply.into_answer(config).unwrap(),
            PostStep::Fail(error) => panic!("{:?}", error),
        }
    }
}

fn post(store: &mut Memory, config: &Config, headers: &HeaderMap) -> (HeaderMap, VoteResponse) {
    finish_post(store, config, PostHearts::start(headers, config), None)
}

fn post_at(store: &mut Memory, config: &Config, voter: &str, now: &str) -> VoteResponse {
    let clock = parse_sqlite_time(now);
    assert!(clock.is_some());
    finish_post(store, config, PostHearts::begin(voter.to_owned()), clock).1
}

#[test]
fn get_hearts_returns_initial_count_and_vote_state() {
    let mut store = Memory::new();
    let config = test_config(60);

    let json = get(&mut store, &config, &HeaderMap::new());

    assert_eq!(json.count, 0);
    assert_eq!(json.already_voted, false);
}

#[test]
fn post_hearts_accepts_first_vote_and_sets_http_only_cookie() {
    let mut store = Memory::new();
    let config = test_config(60);

    let (headers, json) = post(&mut store, &config, &HeaderMap::new());

    assert_eq!(json.count, 1);
    assert_eq!(json.voted, true);
    assert!(json.reason.is_none());

    let set_cookie = headers.get(header::SET_COOKIE).unwrap().to_str().unwrap();
    assert!(set_cookie.starts_with("test_heart_vote="));
    assert!(set_cookie.contains("HttpOnly"));
    assert!(set_cookie.contains("SameSite=Lax"));
    assert!(set_cookie.contains("Max-Age=60"));
    assert!(!set_cookie.contains("Secure"));
    assert_eq!(store.history.len(), 1);
}

#[test]
fn post_hearts_rejects_second_vote_with_same_cookie() {
    let mut store = Memory::new();
    let config = test_config(60);

    let (headers, first_json) = post(&mut store, &config, &HeaderMap::new());
    let cookie = cookie_pair(&headers);

    let (_headers, second_json) = post(&mut store, &config, &with_cookie(&cookie));

    assert_eq!(first_json.count, 1);
    assert_eq!(second_json.count, 1);
    assert_eq!(second_json.voted, false);
    assert_eq!(second_json.reason, Some("already_voted"));
    assert!(second_json.retry_after_seconds.unwrap() <= 60);
    assert_eq!(store.history.len(), 1);
}

#[test]
fn get_hearts_reports_already_voted_when_cookie_vote_is_recent() {
    let mut store = Memory::new();
    let config = test_config(60);

    let (headers, _json) = post(&mut store, &config, &HeaderMap::new());
    let json = get(&mut store, &config, &with_cookie(&cookie_pair(&headers)));

    assert_eq!(json.count, 1);
    assert_eq!(json.already_voted, true);
}

#[test]
fn post_hearts_allows_vote_after_window_expires() {
    let mut store = Memory::new();
    let config = test_config(60);

    let (headers, _json) = post(&mut store, &config, &HeaderMap::new());
    let cookie = cookie_pair(&headers);
    let voter_id = cookie.strip_prefix("test_heart_vote=").unwrap();
    let old_vote_time = (chrono::Utc::now() - chrono::Duration::seconds(61)).to_rfc3339();
    store.votes.insert(voter_id.to_owned(), old_vote_time);

    let (_headers, json) = post(&mut store, &config, &with_cookie(&cookie));

    assert_eq!(json.count, 2);
    assert_eq!(json.voted, true);
    assert_eq!(store.history.len(), 2);
}

#[test]
fn a_refused_vote_tells_the_whole_seconds_that_are_left() {
    let mut store = Memory::new();
    let config = test_config(172_800);

    let first = post_at(&mut store, &config, "ada", "2026-05-26T12:00:00Z");
    assert_eq!(
        first,
        VoteResponse { count: 1, voted: true, reason: None, retry_after_seconds: None }
    );
    let at_once = post_at(&mut store, &config, "ada", "2026-05-26T12:00:00Z");
    assert_eq!(
        at_once,
        VoteResponse {
            count: 1,
            voted: false,
            reason: Some("already_voted"),
            retry_after_seconds: Some(172_800),
        }
    );
    let a_little_later = post_at(&mut store, &config, "ada", "2026-05-26T12:00:00.25Z");
    assert_eq!(a_little_later.retry_after_seconds, Some(172_799));
    let at_the_end = post_at(&mut store, &config, "ada", "2026-05-28T11:59:59.9Z");
    assert_eq!(at_the_end.retry_after_seconds, Some(0));
    let after = post_at(&mut store, &config, "ada", "2026-05-28T12:00:00Z");
    assert_eq!(after.count, 2);
    assert!(after.voted);
}

#[test]
fn voters_do_not_stand_in_each_others_way() {
    let mut store = Memory::new();
    let config = test_config(60);

    assert!(post_at(&mut store, &config, "ada", "2026-05-26T12:00:00Z").voted);
    let other = post_at(&mut store, &config, "grace", "2026-05-26T12:00:00Z");
    assert!(other.voted);
    assert_eq!(other.count, 2);
    assert!(!post_at(&mut store, &config, "ada", "2026-05-26T12:00:30Z").voted);
}

#[test]
fn a_clock_that_went_back_keeps_the_whole_window() {
    let mut store = Memory::new();
    let config = test_config(60);

    assert!(post_at(&mut store, &config, "ada", "2026-05-26T12:00:00Z").voted);
    let before = post_at(&mut store, &config, "ada", "2026-05-26T11:00:00Z");
    assert_eq!(before.retry_after_seconds, Some(60));
}

#[test]
fn a_window_of_no_seconds_refuses_nobody() {
    let mut store = Memory::new();
    let config = test_config(0);

    assert!(post_at(&mut store, &config, "ada", "2026-05-26T12:00:00Z").voted);
    assert_eq!(post_at(&mut store, &config, "ada", "2026-05-26T12:00:00Z").count, 2);
}

#[test]
fn an_unreadable_vote_is_ignored() {
    let mut store = Memory::new();
    let config = test_config(60);
    store.votes.insert("ada".to_owned(), "pas une date".to_owned());

    assert!(!get(&mut store, &config, &with_cookie("test_heart_vote=ada")).already_voted);
    assert!(post_at(&mut store, &config, "ada", "2026-05-26T12:00:00Z").voted);
}

#[test]
fn a_voter_with_a_cookie_keeps_the_name() {
    let mut store = Memory::new();
    let config = test_config(60);

    let (headers, _) = post(&mut store, &config, &with_cookie("a=b; test_heart_vote=ada"));
    assert_eq!(cookie_pair(&headers), "test_heart_vote=ada");
    assert!(store.votes.contains_key("ada"));
    let (headers, refused) = post(&mut store, &config, &with_cookie("test_heart_vote=ada"));
    assert_eq!(cookie_pair(&headers), "test_heart_vote=ada");
    assert!(!refused.voted);
}

#[test]
fn the_vote_of_the_store_is_the_instant_of_the_vote() {
    let mut store = Memory::new();
    let config = test_config(60);

    post_at(&mut store, &config, "ada", "2026-05-26 12:34:56");
    assert_eq!(store.votes["ada"], "2026-05-26T12:34:56+00:00");
    assert_eq!(store.history, vec!["2026-05-26T12:34:56+00:00".to_owned()]);
}

#[test]
fn accepted_hearts_come_into_the_history_and_refused_ones_do_not() {
    let mut store = Memory::new();
    let config = test_config(60);

    post_at(&mut store, &config, "ada", "2026-05-26T13:10:22.123Z");
    post_at(&mut store, &config, "grace", "2026-05-26T12:34:56.789Z");
    post_at(&mut store, &config, "ada", "2026-05-26T13:10:30Z");

    let answer = store.answer(history_query());
    assert_eq!(
        get_history(answer).unwrap().events,
        vec!["2026-05-26T12:34:56.789Z".to_owned(), "2026-05-26T13:10:22.123Z".to_owned()]
    );
    assert_eq!(get(&mut store, &config, &HeaderMap::new()).count, 2);
}

#[test]
fn a_store_that_fails_ends_the_request() {
    let config = test_config(60);
    match PostHearts::start(&HeaderMap::new(), &config) {
        PostStep::Ask(vote, _) => {
            let next = vote.next(Answer::Failed, &config);
            assert!(matches!(next, PostStep::Fail(ApiError::StoreFailed)));
        }
        _ => unreachable!(),
    }
    match GetHearts::start(&HeaderMap::new(), &config) {
        GetStep::Ask(request, _) => {
            let next = request.next(Answer::Failed, &config);
            assert!(matches!(next, GetStep::Fail(ApiError::StoreFailed)));
        }
        _ => unreachable!(),
    }
    assert_eq!(get_history(Answer::Failed), Err(ApiError::StoreFailed));
}

/// Takes a vote with a store that fails when it has answered some queries, and says whether the
/// vote was accepted, where the store did not fail before the end.
fn post_failing(
    store: &mut Memory,
    config: &Config,
    voter: &str,
    now: &str,
    mut fails_after: usize,
) -> Result<bool, ApiError> {
    let now = parse_sqlite_time(now).unwrap();
    let mut step = PostHearts::begin(voter.to_owned());
    loop {
        match step {
            PostStep::Ask(vote, query) => {
                let answer = if fails_after == 0 {
                    Answer::Failed
                } else {
                    fails_after -= 1;
                    store.answer(query)
                };
                step = vote.next_at(answer, config.vote_window_seconds, now);
            }
            PostStep::Reply(reply) => return Ok(reply.body.voted),
            PostStep::Fail(error) => return Err(error),
        }
    }
}

#[test]
fn a_vote_that_fails_changes_nothing() {
    let config = test_config(60);
    let mut store = Memory::new();
    post_at(&mut store, &config, "ada", "2026-05-25T12:00:00Z");
    let history = store.history.clone();
    let votes = store.votes.clone();
    for fails_after in 0..3 {
        let ended =
            post_failing(&mut store, &config, "grace", "2026-05-25T12:00:30Z", fails_after);
        assert_eq!(ended, Err(ApiError::StoreFailed));
        assert_eq!(store.history, history);
        assert_eq!(store.votes, votes);
    }
    for fails_after in 0..2 {
        let ended = post_failing(&mut store, &config, "ada", "2026-05-25T12:00:30Z", fails_after);
        assert_eq!(ended, Err(ApiError::StoreFailed));
        assert_eq!(store.history, history);
        assert_eq!(store.votes, votes);
    }
    assert_eq!(post_failing(&mut store, &config, "ada", "2026-05-25T12:00:30Z", 2), Ok(false));
    assert_eq!(store.history, history);
    assert_eq!(post_failing(&mut store, &config, "grace", "2026-05-25T12:00:30Z", 3), Ok(true));
    assert_eq!(store.history.len(), 2);
    assert_eq!(store.votes.get("grace"), Some(&store.history[1]));
}

#[test]
fn a_store_that_answers_another_question_ends_the_request() {
    let config = test_config(60);
    match PostHearts::start(&HeaderMap::new(), &config) {
        PostStep::Ask(vote, _) => {
            let next = vote.next(Answer::Begun, &config);
            assert!(matches!(next, PostStep::Fail(ApiError::UnexpectedAnswer)));
        }
        _ => unreachable!(),
    }
    match GetHearts::start(&HeaderMap::new(), &config) {
        GetStep::Ask(request, _) => {
            let next = request.next(Answer::Recorded(1), &config);
            assert!(matches!(next, GetStep::Fail(ApiError::UnexpectedAnswer)));
        }
        _ => unreachable!(),
    }
    assert_eq!(get_history(Answer::Count(1)), Err(ApiError::UnexpectedAnswer));
}

#[test]
fn a_cookie_that_cannot_be_set_fails_the_answer() {
    let mut config = test_config(60);
    config.cookie_name = "two\nlines".to_owned();
    let mut store = Memory::new();
    let mut step = PostHearts::begin("ada".to_owned());
    loop {
        match step {
            PostStep::Ask(vote, query) => {
                let answer = store.answer(query);
                step = vote.next(answer, &config);
            }
            PostStep::Reply(reply) => {
                assert!(matches!(reply.into_answer(&config), Err(ApiError::InvalidSetCookie)));
                break;
            }
            PostStep::Fail(_) => unreachable!(),
        }
    }
    assert_eq!(store.history.len(), 1);
}

#[test]
fn failures_are_answered_without_their_cause() {
    for error in [ApiError::StoreFailed, ApiError::UnexpectedAnswer, ApiError::InvalidSetCookie] {
        let response = error.into_response();
        assert_eq!(response.status, 500);
        assert_eq!(response.error, "internal_server_error");
    }
}

#[test]
fn health_is_ok() {
    assert_eq!(health(), "ok");
}
