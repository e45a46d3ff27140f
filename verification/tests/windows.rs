use lovebin::get_history::{history_of, publish, sort_timestamps};
use lovebin::text::{find_ascii, is_lowercased, parse_unsigned, same_text, trim_ascii};
use lovebin::timestamp::{parse_sqlite_time, Timestamp};
use lovebin::votes::{recent_vote, recent_vote_at, remaining_wait};

fn at(seconds: i64, nanos: u32) -> Timestamp {
    Timestamp::from_parts(seconds, nanos).unwrap()
}

#[test]
fn the_wait_is_what_is_left_of_the_window() {
    let vote = Some(at(1_000, 0));
    assert_eq!(remaining_wait(vote, 60, at(1_000, 0)), Some(60));
    assert_eq!(remaining_wait(vote, 60, at(1_000, 1)), Some(59));
    assert_eq!(remaining_wait(vote, 60, at(1_030, 500_000_000)), Some(29));
    assert_eq!(remaining_wait(vote, 60, at(1_059, 999_999_999)), Some(0));
    assert_eq!(remaining_wait(vote, 60, at(1_060, 0)), None);
    assert_eq!(remaining_wait(vote, 60, at(900, 0)), Some(60));
    assert_eq!(remaining_wait(vote, 0, at(1_000, 0)), None);
    assert_eq!(remaining_wait(vote, u64::MAX, at(1_001, 0)), Some(u64::MAX - 1));
    assert_eq!(remaining_wait(None, 60, at(1_000, 0)), None);
}

#[test]
fn waiting_as_long_as_told_and_a_second_more_helps() {
    let vote = Some(at(1_000, 250_000_000));
    let now = at(1_010, 0);
    let wait = remaining_wait(vote, 60, now).unwrap();
    assert_eq!(wait, 50);
    assert!(remaining_wait(vote, 60, at(1_010 + wait as i64 - 1, 999_999_999)).is_some());
    assert!(remaining_wait(vote, 60, at(1_010 + wait as i64 + 1, 0)).is_none());
}

#[test]
fn a_stored_vote_is_read_before_the_wait_is_told() {
    let now = parse_sqlite_time("2026-05-26T12:00:30Z").unwrap();
    assert_eq!(recent_vote_at(Some("2026-05-26 12:00:00"), 60, now), Some(30));
    assert_eq!(recent_vote_at(Some("2026-05-26T14:00:00+02:00"), 60, now), Some(30));
    assert_eq!(recent_vote_at(Some("2026-05-26T11:00:00Z"), 60, now), None);
    assert_eq!(recent_vote_at(Some("pas une date"), 60, now), None);
    assert_eq!(recent_vote_at(None, 60, now), None);
}

#[test]
fn the_wait_goes_by_the_present() {
    let stored = Timestamp::now().to_rfc3339();
    assert!(recent_vote(Some(&stored), 3_600).unwrap() <= 3_600);
    assert!(recent_vote(Some(&stored), 3_600).unwrap() >= 3_500);
    assert_eq!(recent_vote(Some("2000-01-01 00:00:00"), 3_600), None);
    assert_eq!(recent_vote(None, 3_600), None);
}

#[test]
fn timestamps_are_sorted_from_oldest_to_newest() {
    let sorted = sort_timestamps(&vec![at(3, 0), at(1, 5), at(2, 0), at(1, 4), at(3, 0)]);
    let parts: Vec<(i64, u32)> = sorted.iter().map(|t| (t.seconds(), t.nanos())).collect();
    assert_eq!(parts, vec![(1, 4), (1, 5), (2, 0), (3, 0), (3, 0)]);
    assert!(sort_timestamps(&Vec::new()).is_empty());
}

#[test]
fn timestamps_are_published_to_the_millisecond() {
    assert_eq!(
        publish(&vec![at(0, 0), at(1, 234_567_890)]),
        vec!["1970-01-01T00:00:00.000Z".to_owned(), "1970-01-01T00:00:01.234Z".to_owned()]
    );
}

#[test]
fn the_history_leaves_out_what_cannot_be_read_and_ignores_the_order_of_rows() {
    let rows: Vec<String> = ["2026-05-26T13:10:22.123+00:00", "pas une date", "2026-05-26 12:34:56"]
        .iter()
        .map(|row| row.to_string())
        .collect();
    let told =
        vec!["2026-05-26T12:34:56.000Z".to_owned(), "2026-05-26T13:10:22.123Z".to_owned()];
    assert_eq!(history_of(&rows).events, told);
    let turned: Vec<String> = rows.into_iter().rev().collect();
    assert_eq!(history_of(&turned).events, told);
    assert!(history_of(&Vec::new()).events.is_empty());
}

#[test]
fn text_is_compared_searched_and_trimmed() {
    assert!(same_text("c\u{153}ur", "c\u{153}ur"));
    assert!(!same_text("a", "A"));
    assert!(is_lowercased("LaX", "lax"));
    assert!(!is_lowercased("\u{c9}", "\u{e9}"));
    assert!(!is_lowercased("laxe", "lax"));
    assert_eq!(find_ascii("a;b;c", ';'), 1);
    assert_eq!(find_ascii("abc", ';'), 3);
    assert_eq!(trim_ascii(" \t\r\n a b \x0b\x0c"), "a b");
    assert_eq!(trim_ascii(" \t "), "");
    assert_eq!(parse_unsigned("42"), Some(42));
    assert_eq!(parse_unsigned("4 2"), None);
}
