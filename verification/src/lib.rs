//! The rules of a small service through which visitors send a heart.
//!
//! Each voter, told apart by a cookie, can send one heart in a window of time. Accepted hearts go
//! into a history, and the count that the service shows is the length of that history.
//!
//! The rules stand apart from the web server and from the database. A request is taken step by
//! step: each step says what to ask of the store ([`store::Query`]) or what to answer, and the next
//! step is made from what the store answers ([`store::Answer`]).
//!
//! - [`config`] and [`database`] read the settings;
//! - [`text`], [`timestamp`], [`headers`] and [`cookies`] deal with what requests and stores hold;
//! - [`votes`] is the rule of the window;
//! - [`post_hearts`], [`get_hearts`] and [`get_history`] are the three requests, and [`replies`] is
//!   what they answer;
//! - [`laws`] and [`cookie_laws`] state what holds over several requests;
//! - [`request_laws`], [`time_laws`], [`text_laws`] and [`settings_laws`] state what the requests, the
//!   instants, the texts and the settings come to, in numbers and letter by letter.

pub mod config;
pub mod cookie_laws;
pub mod cookies;
pub mod database;
pub mod get_hearts;
pub mod get_history;
pub mod headers;
pub mod laws;
pub mod post_hearts;
pub mod replies;
pub mod request_laws;
pub mod settings_laws;
pub mod store;
pub mod text;
pub mod text_laws;
pub mod time_laws;
pub mod timestamp;
pub mod votes;
