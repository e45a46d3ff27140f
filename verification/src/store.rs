//! What the service asks of the store that keeps its votes, and what the store answers.
//!
//! The store keeps two things: the history of the hearts that were accepted, each with the instant
//! of its acceptance, and for each voter the instant of the last vote.

use vstd::prelude::*;

verus! {

/// What the service asks of the store.
pub enum Query {
    /// When did this voter last vote?
    LastVote { voter_id: String },
    /// How many hearts does the history hold?
    CountHearts,
    /// Begin the one transaction in which a vote is recorded.
    BeginVote,
    /// Add a heart to the history, make it this voter's last vote, count the hearts of the history,
    /// and end the transaction.
    RecordVote { voter_id: String, voted_at: String },
    /// Which hearts does the history hold?
    ListHearts,
}

/// What the store answers.
pub enum Answer {
    /// The stored instant of the voter's last vote, where there is one.
    LastVote(Option<String>),
    /// The number of hearts in the history.
    Count(i64),
    /// The transaction has begun.
    Begun,
    /// The vote is recorded, and this is the number of hearts in the history with it.
    Recorded(i64),
    /// The stored instants of the hearts in the history.
    History(Vec<String>),
    /// The store could not do what it was asked, and keeps what it kept: a transaction that does not
    /// end leaves nothing behind.
    Failed,
}

/// A query, with characters for its strings.
pub enum QueryView {
    LastVote { voter_id: Seq<char> },
    CountHearts,
    BeginVote,
    RecordVote { voter_id: Seq<char>, voted_at: Seq<char> },
    ListHearts,
}

/// An answer, with characters for its strings.
pub enum AnswerView {
    LastVote(Option<Seq<char>>),
    Count(int),
    Begun,
    Recorded(int),
    History(Seq<Seq<char>>),
    Failed,
}

/// The characters of a string, where there is one.
pub open spec fn characters(text: Option<String>) -> Option<Seq<char>> {
    match text {
        Some(string) => Some(string@),
        None => None,
    }
}

/// The characters of each of the strings.
pub open spec fn rows_of(rows: Seq<String>) -> Seq<Seq<char>> {
    rows.map_values(|row: String| row@)
}

impl View for Query {
    type V = QueryView;

    open spec fn view(&self) -> QueryView {
        match *self {
            Query::LastVote { voter_id } => QueryView::LastVote { voter_id: voter_id@ },
            Query::CountHearts => QueryView::CountHearts,
            Query::BeginVote => QueryView::BeginVote,
            Query::RecordVote { voter_id, voted_at } => QueryView::RecordVote {
                voter_id: voter_id@,
                voted_at: voted_at@,
            },
            Query::ListHearts => QueryView::ListHearts,
        }
    }
}

impl View for Answer {
    type V = AnswerView;

    open spec fn view(&self) -> AnswerView {
        match *self {
            Answer::LastVote(voted_at) => AnswerView::LastVote(characters(voted_at)),
            Answer::Count(count) => AnswerView::Count(count as int),
            Answer::Begun => AnswerView::Begun,
            Answer::Recorded(count) => AnswerView::Recorded(count as int),
            Answer::History(rows) => AnswerView::History(rows_of(rows@)),
            Answer::Failed => AnswerView::Failed,
        }
    }
}

/// What a store keeps.
pub struct Store {
    /// The stored instants of the accepted hearts, in the order of their acceptance.
    pub history: Seq<Seq<char>>,
    /// The stored instant of each voter's last vote.
    pub votes: Map<Seq<char>, Seq<char>>,
}

impl Store {
    /// The stored instant of a voter's last vote, where there is one.
    pub open spec fn last_vote(self, voter_id: Seq<char>) -> Option<Seq<char>> {
        if self.votes.dom().contains(voter_id) {
            Some(self.votes[voter_id])
        } else {
            None
        }
    }

    /// The store with one more heart in it.
    pub open spec fn with_vote(self, voter_id: Seq<char>, voted_at: Seq<char>) -> Store {
        Store {
            history: self.history.push(voted_at),
            votes: self.votes.insert(voter_id, voted_at),
        }
    }

    /// What a store that works answers, and what it keeps from then on.
    pub open spec fn answer(self, query: QueryView) -> (Store, AnswerView) {
        match query {
            QueryView::LastVote { voter_id } => (
                self,
                AnswerView::LastVote(self.last_vote(voter_id)),
            ),
            QueryView::CountHearts => (self, AnswerView::Count(self.history.len() as int)),
            QueryView::BeginVote => (self, AnswerView::Begun),
            QueryView::RecordVote { voter_id, voted_at } => (
                self.with_vote(voter_id, voted_at),
                AnswerView::Recorded(self.history.len() as int + 1),
            ),
            QueryView::ListHearts => (self, AnswerView::History(self.history)),
        }
    }

    /// What a store answers that may fail, and what it keeps from then on. Where it fails, it keeps
    /// what it kept: all that a query writes is written, or none of it.
    pub open spec fn answer_or_fail(self, query: QueryView, fails: bool) -> (Store, AnswerView) {
        if fails {
            (self, AnswerView::Failed)
        } else {
            self.answer(query)
        }
    }
}

} // verus!
