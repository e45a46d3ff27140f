use lovebin::timestamp::{parse_sqlite_time, Timestamp};

fn read(text: &str) -> Timestamp {
    parse_sqlite_time(text).unwrap()
}

fn parts(text: &str) -> (i64, u32) {
    let read = read(text);
    (read.seconds(), read.nanos())
}

#[test]
fn parses_sqlite_and_rfc3339_timestamps() {
    assert!(parse_sqlite_time("2026-05-25T14:27:09Z").is_some());
    assert!(parse_sqlite_time("2026-05-25 14:27:09").is_some());
    assert!(parse_sqlite_time("pas une date").is_none());
}

#[test]
fn both_forms_give_the_instant_in_utc() {
    assert_eq!(parts("1970-01-01T00:00:00Z"), (0, 0));
    assert_eq!(parts("1970-01-01 00:00:01"), (1, 0));
    assert_eq!(parts("1970-01-01T02:00:00.5+02:00"), (0, 500_000_000));
    assert_eq!(parts("2015-05-15T00:00:00Z"), (1_431_648_000, 0));
    assert_eq!(parts("1969-12-31T23:59:59.999999999Z"), (-1, 999_999_999));
}

#[test]
fn a_leap_second_goes_on_past_a_billion_nanoseconds() {
    assert_eq!(parts("2016-12-31T23:59:60.25Z"), (1_483_228_799, 1_250_000_000));
    assert_eq!(parts("2016-12-31 23:59:60"), (1_483_228_799, 1_000_000_000));
}

#[test]
fn texts_that_are_nearly_instants_are_not_read() {
    assert!(parse_sqlite_time("").is_none());
    assert!(parse_sqlite_time("2026-05-25").is_none());
    assert!(parse_sqlite_time("2026-13-25T14:27:09Z").is_none());
    assert!(parse_sqlite_time("2026-05-25T14:27:09").is_none());
    assert!(parse_sqlite_time("2026-05-25 14:27:09 UTC").is_none());
}

#[test]
fn the_stored_text_reads_back_as_the_same_instant() {
    for text in [
        "2026-05-25T14:27:09Z",
        "2026-05-25T14:27:09.000000001Z",
        "2026-05-25T14:27:09.123456Z",
        "0000-01-01T00:00:00Z",
        "9999-12-31T23:59:59.999999999Z",
        "2016-12-31T23:59:60.25Z",
    ] {
        let stored = read(text).to_rfc3339();
        assert_eq!(parts(&stored), parts(text));
    }
    assert_eq!(read("2026-05-25 14:27:09").to_rfc3339(), "2026-05-25T14:27:09+00:00");
}

#[test]
fn the_public_text_is_cut_to_the_millisecond() {
    let public = read("2026-05-26T12:34:56.789999Z").to_public_text();
    assert_eq!(public, "2026-05-26T12:34:56.789Z");
    assert_eq!(parts(&public), (read("2026-05-26T12:34:56Z").seconds(), 789_000_000));
    assert_eq!(read("2026-05-26 12:34:56").to_public_text(), "2026-05-26T12:34:56.000Z");
    assert_eq!(read("2016-12-31T23:59:60.25Z").to_public_text(), "2016-12-31T23:59:60.250Z");
}

#[test]
fn a_year_of_five_digits_does_not_read_back() {
    let late = Timestamp::from_parts(253_402_300_800, 0).unwrap();
    assert_eq!(late.to_rfc3339(), "+10000-01-01T00:00:00+00:00");
    assert!(parse_sqlite_time(&late.to_rfc3339()).is_none());
}

#[test]
fn instants_have_limits() {
    assert!(Timestamp::from_parts(-8_334_601_228_800, 0).is_some());
    assert!(Timestamp::from_parts(-8_334_601_228_801, 0).is_none());
    assert!(Timestamp::from_parts(8_210_266_876_799, 999_999_999).is_some());
    assert!(Timestamp::from_parts(8_210_266_876_800, 0).is_none());
    assert!(Timestamp::from_parts(59, 1_999_999_999).is_some());
    assert!(Timestamp::from_parts(-1, 1_000_000_000).is_some());
    assert!(Timestamp::from_parts(58, 1_000_000_000).is_none());
    assert!(Timestamp::from_parts(59, 2_000_000_000).is_none());
}

#[test]
fn the_limits_are_those_of_the_calendar() {
    for (seconds, nanos) in [
        (-8_334_601_228_800, 0),
        (-8_334_601_228_801, 0),
        (8_210_266_876_799, 999_999_999),
        (8_210_266_876_800, 0),
        (59, 1_999_999_999),
        (-1, 1_000_000_000),
        (58, 1_000_000_000),
        (59, 2_000_000_000),
    ] {
        assert_eq!(
            Timestamp::from_parts(seconds, nanos).is_some(),
            chrono::DateTime::from_timestamp(seconds, nanos).is_some()
        );
    }
}

#[test]
fn elapsed_time_is_the_time_between() {
    let vote = read("2026-05-26T12:00:00.75Z");
    assert_eq!(vote.elapsed_at(read("2026-05-26T12:00:02.5Z")), (1, 750_000_000));
    assert_eq!(vote.elapsed_at(read("2026-05-28T12:00:00.75Z")), (172_800, 0));
    assert_eq!(vote.elapsed_at(vote), (0, 0));
    assert_eq!(vote.elapsed_at(read("2026-05-26T12:00:00Z")), (0, 0));
}

#[test]
fn elapsed_time_counts_a_leap_second() {
    let leap = read("2016-12-31T23:59:60.25Z");
    assert_eq!(leap.elapsed_at(read("2017-01-01T00:00:00.25Z")), (0, 0));
    assert_eq!(read("2016-12-31T23:59:58.25Z").elapsed_at(leap), (2, 0));
    let morning = read("2016-12-31T11:59:60.5Z");
    assert_eq!(morning.elapsed_at(read("2016-12-31T12:00:00.5Z")), (1, 0));
}

#[test]
fn instants_are_ordered_in_time() {
    let earlier = read("2026-05-26T12:00:00.1Z");
    let later = read("2026-05-26T12:00:00.2Z");
    assert!(earlier.is_not_after(&later));
    assert!(earlier.is_not_after(&earlier));
    assert!(!later.is_not_after(&earlier));
    assert!(later.is_not_after(&read("2026-05-26T12:00:01Z")));
}

#[test]
fn the_clock_shows_the_present() {
    let before = chrono::Utc::now().timestamp();
    let now = Timestamp::now();
    let after = chrono::Utc::now().timestamp();
    assert!(before <= now.seconds() && now.seconds() <= after);
    assert!(now.nanos() < 1_000_000_000);
}

#[test]
fn a_date_and_time_reads_as_utc() {
    for text in ["2026-05-25 14:27:09", "0000-01-01 00:00:00", "2016-12-31 23:59:60"] {
        let joined = text.replace(' ', "T");
        assert_eq!(parts(text), parts(&format!("{}Z", joined)));
        assert_eq!(parts(text), parts(&format!("{}+00:00", joined)));
    }
    for text in ["2026-13-25 14:27:09", "2026-02-30 14:27:09", "2026-05-25 24:00:00"] {
        let joined = text.replace(' ', "T");
        assert!(parse_sqlite_time(text).is_none());
        assert!(parse_sqlite_time(&format!("{}Z", joined)).is_none());
        assert!(parse_sqlite_time(&format!("{}+00:00", joined)).is_none());
    }
}

#[test]
fn the_date_and_time_of_a_stored_text_reads_back_to_the_second() {
    for (seconds, nanos, read_nanos) in [
        (1_779_719_229, 0, 0),
        (1_779_719_229, 123_456_789, 0),
        (-62_167_219_200, 1, 0),
        (253_402_300_799, 999_999_999, 0),
        (1_483_228_799, 1_250_000_000, 1_000_000_000),
    ] {
        let stored = Timestamp::from_parts(seconds, nanos).unwrap().to_rfc3339();
        let text = stored[..19].replace('T', " ");
        assert_eq!(parts(&text), (seconds, read_nanos));
    }
}
