use axum::http::{header, HeaderMap, HeaderValue};
use lovebin::config::{Config, SameSite};
use lovebin::cookies::{
    add_vote_cookie, generate_voter_id, read_voter_cookie, vote_headers, voter_id_of,
};
use lovebin::replies::ApiError;

fn config() -> Config {
    Config {
        bind_addr: "127.0.0.1:0".to_owned(),
        cookie_name: "vote".to_owned(),
        cookie_secure: true,
        cookie_same_site: SameSite::Strict,
        vote_window_seconds: 172_800,
        database_url: "sqlite::memory:".to_owned(),
    }
}

fn request(cookies: &[u8]) -> HeaderMap {
    let mut headers = HeaderMap::new();
    headers.insert(header::COOKIE, HeaderValue::from_bytes(cookies).unwrap());
    headers
}

fn read(cookies: &str) -> Option<String> {
    read_voter_cookie(&request(cookies.as_bytes()), "vote")
}

fn set_cookie(config: &Config, voter_id: &str) -> String {
    let headers = vote_headers(config, voter_id).unwrap();
    headers.get(header::SET_COOKIE).unwrap().to_str().unwrap().to_owned()
}

#[test]
fn a_cookie_is_found_among_others() {
    assert_eq!(read("vote=ada"), Some("ada".to_owned()));
    assert_eq!(read("a=b; vote=ada; c=d"), Some("ada".to_owned()));
    assert_eq!(read("a=b;vote=ada"), Some("ada".to_owned()));
    assert_eq!(read(" \t vote \t=  ada  ;"), Some("ada".to_owned()));
    assert_eq!(read("nonsense; =x; vote=ada"), Some("ada".to_owned()));
    assert_eq!(read("vote=a=b"), Some("a=b".to_owned()));
    assert_eq!(read("vote=\"ada\""), Some("\"ada\"".to_owned()));
}

#[test]
fn the_first_cookie_of_the_name_decides() {
    assert_eq!(read("vote=ada; vote=grace"), Some("ada".to_owned()));
    assert_eq!(read("vote=; vote=grace"), None);
}

#[test]
fn no_cookie_is_read_where_there_is_none() {
    assert_eq!(read_voter_cookie(&HeaderMap::new(), "vote"), None);
    assert_eq!(read(""), None);
    assert_eq!(read("vote"), None);
    assert_eq!(read("vote="), None);
    assert_eq!(read("Vote=ada"), None);
    assert_eq!(read("votes=ada"), None);
    assert_eq!(read_voter_cookie(&request("vote=ad\u{e9}".as_bytes()), "vote"), None);
}

#[test]
fn only_the_first_cookie_header_is_read() {
    let mut headers = request(b"a=b");
    headers.append(header::COOKIE, HeaderValue::from_static("vote=ada"));
    assert_eq!(read_voter_cookie(&headers, "vote"), None);
}

#[test]
fn the_cookie_has_its_attributes() {
    assert_eq!(
        set_cookie(&config(), "ada"),
        "vote=ada; HttpOnly; SameSite=Strict; Secure; Path=/; Max-Age=172800"
    );
    let mut lax = config();
    lax.cookie_same_site = SameSite::Lax;
    lax.cookie_secure = false;
    lax.vote_window_seconds = 0;
    assert_eq!(set_cookie(&lax, "ada"), "vote=ada; HttpOnly; SameSite=Lax; Path=/; Max-Age=0");
    let mut unrestricted = config();
    unrestricted.cookie_same_site = SameSite::Unrestricted;
    unrestricted.cookie_secure = false;
    assert_eq!(
        set_cookie(&unrestricted, "ada"),
        "vote=ada; HttpOnly; SameSite=None; Path=/; Max-Age=172800"
    );
}

#[test]
fn the_age_of_the_cookie_has_a_limit() {
    let mut forever = config();
    forever.vote_window_seconds = u64::MAX;
    assert!(set_cookie(&forever, "ada").ends_with("; Max-Age=9223372036854775807"));
    forever.vote_window_seconds = i64::MAX as u64;
    assert!(set_cookie(&forever, "ada").ends_with("; Max-Age=9223372036854775807"));
    forever.vote_window_seconds = i64::MAX as u64 - 1;
    assert!(set_cookie(&forever, "ada").ends_with("; Max-Age=9223372036854775806"));
}

#[test]
fn the_cookie_is_added_to_the_headers_that_are_there() {
    let mut headers = HeaderMap::new();
    headers.insert(header::SET_COOKIE, HeaderValue::from_static("a=b"));
    headers.insert(header::CONTENT_TYPE, HeaderValue::from_static("application/json"));
    assert_eq!(add_vote_cookie(&mut headers, &config(), "ada"), Ok(()));
    let all: Vec<&HeaderValue> = headers.get_all(header::SET_COOKIE).iter().collect();
    assert_eq!(all.len(), 2);
    assert_eq!(all[0], "a=b");
    assert_eq!(all[1], "vote=ada; HttpOnly; SameSite=Strict; Secure; Path=/; Max-Age=172800");
    assert_eq!(headers.get(header::CONTENT_TYPE).unwrap(), "application/json");
}

#[test]
fn a_cookie_with_control_characters_cannot_be_set() {
    let mut headers = HeaderMap::new();
    let added = add_vote_cookie(&mut headers, &config(), "ada\r\nX: y");
    assert_eq!(added, Err(ApiError::InvalidSetCookie));
    assert!(headers.is_empty());
    assert!(vote_headers(&config(), "a\u{7f}b").is_err());
    assert!(vote_headers(&config(), "a\tb").is_ok());
}

#[test]
fn a_cookie_beyond_ascii_is_set_in_utf8() {
    let mut french = config();
    french.cookie_name = "c\u{153}ur".to_owned();
    let headers = vote_headers(&french, "ada").unwrap();
    let bytes = headers.get(header::SET_COOKIE).unwrap().as_bytes();
    assert!(bytes.starts_with("c\u{153}ur=ada; HttpOnly".as_bytes()));
}

#[test]
fn what_is_set_is_read_back() {
    for voter_id in ["ada", "a b", "a=b", "\"q\"", &generate_voter_id()] {
        let sent = set_cookie(&config(), voter_id).split(';').next().unwrap().to_owned();
        assert_eq!(read(&sent), Some(voter_id.to_owned()));
        assert_eq!(read(&format!("x=y; {}; vote=other", sent)), Some(voter_id.to_owned()));
    }
}

#[test]
fn voters_without_a_name_get_one() {
    let one = generate_voter_id();
    let other = generate_voter_id();
    assert_eq!(one.len(), 48);
    assert!(one.chars().all(|c| c.is_ascii_alphanumeric()));
    assert_ne!(one, other);
}

#[test]
fn drawn_bytes_make_a_name() {
    assert_eq!(voter_id_of(&b"aZ09".to_vec()), "aZ09");
    assert_eq!(voter_id_of(&vec![0xe9]), "\u{e9}");
    assert_eq!(voter_id_of(&Vec::new()), "");
}
