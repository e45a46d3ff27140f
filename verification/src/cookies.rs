//! The cookie that tells voters apart.

use crate::config::{Config, SameSite};
use crate::headers::{
    all_visible, append_set_cookie, ascii_text, cookie_header, header_values, is_header_text,
    no_headers, no_values, with_value, ROOMY_NAMES,
};
use crate::replies::ApiError;
use crate::text::{
    decimal, find_ascii, lemma_position, lemma_trimmed, position, same_text, split, trim_ascii,
    trimmed,
};
use axum::http::{HeaderMap, HeaderValue};
use rand::RngExt;
use vstd::prelude::*;

verus! {

broadcast use vstd::string::group_string_axioms;

/// The name and the value of a cookie that is written as the two with `=` between them. It has a
/// name, and no white space round the two counts.
pub open spec fn cookie_pair(part: Seq<char>) -> Option<(Seq<char>, Seq<char>)> {
    let at = position(part, '=');
    let name = trimmed(part.take(at));
    if at < part.len() && name.len() > 0 {
        Some((name, trimmed(part.skip(at + 1))))
    } else {
        None
    }
}

/// The value of the first among the parts that is a cookie of this name.
pub open spec fn cookie_named(parts: Seq<Seq<char>>, name: Seq<char>) -> Option<Seq<char>>
    decreases parts.len(),
{
    if parts.len() == 0 {
        None
    } else {
        match cookie_pair(trimmed(parts[0])) {
            Some(pair) => if pair.0 == name {
                Some(pair.1)
            } else {
                cookie_named(parts.drop_first(), name)
            },
            None => cookie_named(parts.drop_first(), name),
        }
    }
}

/// The value of the first cookie of this name in the text of a header, where it is not empty.
pub open spec fn cookie_value(text: Seq<char>, name: Seq<char>) -> Option<Seq<char>> {
    match cookie_named(split(text, ';'), name) {
        Some(value) => if value.len() > 0 {
            Some(value)
        } else {
            None
        },
        None => None,
    }
}

/// The voter that the headers of a request name in the cookie of this name.
pub open spec fn voter_in(
    headers: Map<Seq<char>, Seq<Seq<u8>>>,
    cookie_name: Seq<char>,
) -> Option<Seq<char>> {
    if headers.dom().contains("cookie"@) && all_visible(headers["cookie"@][0]) {
        cookie_value(ascii_text(headers["cookie"@][0]), cookie_name)
    } else {
        None
    }
}

/// Calls `cookie::Cookie::parse` on a text of one cookie without attributes. Claims that the parse
/// succeeds exactly where the text is a pair with a name, and gives that name and value.
#[verifier::external_body]
fn parse_cookie(part: &str) -> (pair: Option<(String, String)>)
    requires
        vstd::string::is_ascii(part),
        !part@.contains(';'),
    ensures
        pair is Some <==> cookie_pair(part@) is Some,
        pair matches Some(p) ==> cookie_pair(part@) == Some((p.0@, p.1@)),
{
    match cookie::Cookie::parse(part) {
        Ok(cookie) => Some((cookie.name().to_owned(), cookie.value().to_owned())),
        Err(_) => None,
    }
}

/// The value of the first cookie of this name in the text of a header, where it is not empty.
fn find_cookie(text: &str, name: &str) -> (value: Option<String>)
    requires
        vstd::string::is_ascii(text),
    ensures
        value is Some <==> cookie_value(text@, name@) is Some,
        value matches Some(v) ==> cookie_value(text@, name@) == Some(v@),
{
    let mut rest: &str = text;
    loop
        invariant
            vstd::string::is_ascii(rest),
            cookie_named(split(rest@, ';'), name@) == cookie_named(split(text@, ';'), name@),
        decreases rest@.len(),
    {
        let length: usize = rest.as_bytes().len();
        let at: usize = find_ascii(rest, ';');
        let part: &str = rest.substring_ascii(0, at);
        let ghost parts = split(rest@, ';');
        proof {
            lemma_position(rest@, ';');
            assert(part@ =~= rest@.take(at as int));
            assert(parts[0] == part@);
            lemma_trimmed(part@);
        }
        if let Some((found, value)) = parse_cookie(trim_ascii(part)) {
            if same_text(found.as_str(), name) {
                return if value.as_str().is_empty() {
                    None
                } else {
                    Some(value)
                };
            }
        }
        if at == length {
            assert(parts.drop_first().len() == 0);
            assert(cookie_named(parts.drop_first(), name@) is None);
            return None;
        }
        let ghost before = rest@;
        rest = rest.substring_ascii(at + 1, length);
        proof {
            assert(rest@ =~= before.skip(at + 1));
            assert(parts.drop_first() =~= split(rest@, ';'));
        }
    }
}

/// The voter that the headers of a request name in the cookie of this name.
pub fn read_voter_cookie(headers: &HeaderMap<HeaderValue>, cookie_name: &str) -> (voter: Option<
    String,
>)
    ensures
        voter is Some <==> voter_in(header_values(*headers), cookie_name@) is Some,
        voter matches Some(v) ==> voter_in(header_values(*headers), cookie_name@) == Some(v@),
{
    match cookie_header(headers) {
        Some(value) => match value.to_str() {
            Ok(text) => find_cookie(text, cookie_name),
            Err(_) => None,
        },
        None => None,
    }
}

impl SameSite {
    /// The policy's name in a cookie.
    pub open spec fn name(self) -> Seq<char> {
        match self {
            SameSite::Strict => "Strict"@,
            SameSite::Lax => "Lax"@,
            SameSite::Unrestricted => "None"@,
        }
    }
}

/// An attribute of a cookie, where it is set.
pub open spec fn attribute(set: bool, text: Seq<char>) -> Seq<char> {
    if set {
        text
    } else {
        Seq::empty()
    }
}

/// The text that sets a cookie with these attributes.
pub open spec fn cookie_text(
    name: Seq<char>,
    value: Seq<char>,
    http_only: bool,
    same_site: SameSite,
    secure: bool,
    path: Seq<char>,
    max_age: int,
) -> Seq<char> {
    name + "="@ + value + attribute(http_only, "; HttpOnly"@) + "; SameSite="@ + same_site.name()
        + attribute(secure, "; Secure"@) + "; Path="@ + path + "; Max-Age="@ + decimal(
        max_age as nat,
    )
}

/// Builds a cookie with `cookie::Cookie::build` and writes it out as `cookie::Cookie` displays
/// itself. Claims that the text is the pair followed by the attributes in a fixed order.
#[verifier::external_body]
fn write_cookie(
    pair: (&str, &str),
    http_only: bool,
    same_site: SameSite,
    secure: bool,
    path: &str,
    max_age: i64,
) -> (text: String)
    requires
        max_age >= 0,
    ensures
        text@ == cookie_text(pair.0@, pair.1@, http_only, same_site, secure, path@, max_age as int),
{
    let same_site = match same_site {
        SameSite::Strict => cookie::SameSite::Strict,
        SameSite::Lax => cookie::SameSite::Lax,
        SameSite::Unrestricted => cookie::SameSite::None,
    };
    let max_age = cookie::time::Duration::seconds(max_age);
    let built = cookie::Cookie::build(pair).path(path).http_only(http_only).secure(secure);
    built.same_site(same_site).max_age(max_age).build().to_string()
}

impl Config {
    /// How long a browser keeps the voter's cookie: as long as the vote window, or as long as
    /// cookies can be kept.
    pub open spec fn max_age(self) -> int {
        if self.vote_window_seconds <= i64::MAX {
            self.vote_window_seconds as int
        } else {
            i64::MAX as int
        }
    }

    /// The text that sets the cookie of a voter.
    pub open spec fn vote_cookie(self, voter_id: Seq<char>) -> Seq<char> {
        cookie_text(
            self.cookie_name@,
            voter_id,
            true,
            self.cookie_same_site,
            self.cookie_secure,
            "/"@,
            self.max_age(),
        )
    }
}

/// Adds the cookie of a voter to the headers of an answer.
pub fn add_vote_cookie(
    headers: &mut HeaderMap<HeaderValue>,
    config: &Config,
    voter_id: &str,
) -> (added: Result<(), ApiError>)
    requires
        header_values(*old(headers)).dom().len() <= ROOMY_NAMES,
    ensures
        added is Ok <==> is_header_text(config.vote_cookie(voter_id@)),
        added is Ok ==> header_values(*final(headers)) == with_value(
            header_values(*old(headers)),
            "set-cookie"@,
            vstd::utf8::encode_utf8(config.vote_cookie(voter_id@)),
        ),
        added is Err ==> added == Err::<(), ApiError>(ApiError::InvalidSetCookie),
        added is Err ==> *final(headers) == *old(headers),
{
    let max_age: i64 = if config.vote_window_seconds <= i64::MAX as u64 {
        config.vote_window_seconds as i64
    } else {
        i64::MAX
    };
    let text: String = write_cookie(
        (config.cookie_name.as_str(), voter_id),
        true,
        config.cookie_same_site,
        config.cookie_secure,
        "/",
        max_age,
    );
    match HeaderValue::from_str(text.as_str()) {
        Ok(value) => {
            append_set_cookie(headers, value);
            Ok(())
        },
        Err(_) => Err(ApiError::InvalidSetCookie),
    }
}

/// The headers of an answer that sets the cookie of a voter.
pub fn vote_headers(config: &Config, voter_id: &str) -> (headers: Result<
    HeaderMap<HeaderValue>,
    ApiError,
>)
    ensures
        match headers {
            Ok(made) => is_header_text(config.vote_cookie(voter_id@)) && header_values(made)
                == with_value(
                no_values(),
                "set-cookie"@,
                vstd::utf8::encode_utf8(config.vote_cookie(voter_id@)),
            ),
            Err(error) => !is_header_text(config.vote_cookie(voter_id@)) && error
                == ApiError::InvalidSetCookie,
        },
{
    let mut headers = no_headers();
    match add_vote_cookie(&mut headers, config, voter_id) {
        Ok(_) => Ok(headers),
        Err(error) => Err(error),
    }
}

/// The length of the names that the service gives to voters.
pub const VOTER_ID_LENGTH: usize = 48;

/// The letters and digits of ASCII.
pub open spec fn is_alphanumeric(c: char) -> bool {
    'a' <= c <= 'z' || 'A' <= c <= 'Z' || '0' <= c <= '9'
}

/// Samples `rand::distr::Alphanumeric` from `rand::rng` a number of times. Claims that there are as
/// many bytes as were asked for and that each is a letter or a digit of ASCII; which ones is left to
/// chance. The call panics where the system has no randomness to seed the generator with.
#[verifier::external_body]
fn random_alphanumeric(count: usize) -> (bytes: Vec<u8>)
    requires
        count <= VOTER_ID_LENGTH,
    ensures
        bytes@.len() == count,
        forall|i: int| 0 <= i < bytes@.len() ==> is_alphanumeric(#[trigger] bytes@[i] as char),
{
    rand::rng().sample_iter(rand::distr::Alphanumeric).take(count).collect()
}

/// Whether a draw of a voter's name from the generator gave these bytes. Nothing else can be known
/// to have.
pub closed spec fn is_draw(drawn: Vec<u8>) -> bool {
    call_ensures(random_alphanumeric, (VOTER_ID_LENGTH,), drawn)
}

/// `String::push`: adds the character to the end.
pub assume_specification[ String::push ](s: &mut String, ch: char)
    ensures
        final(s)@ == old(s)@.push(ch),
;

/// The name that drawn bytes make, each byte the code of one character.
pub fn voter_id_of(drawn: &Vec<u8>) -> (voter_id: String)
    ensures
        voter_id@ == ascii_text(drawn@),
{
    let mut voter_id: String = String::new();
    let mut i: usize = 0;
    while i < drawn.len()
        invariant
            i <= drawn@.len(),
            voter_id@ == ascii_text(drawn@.take(i as int)),
        decreases drawn@.len() - i,
    {
        voter_id.push(drawn[i] as char);
        assert(drawn@.take(i + 1) =~= drawn@.take(i as int).push(drawn@[i as int]));
        i += 1;
    }
    assert(drawn@.take(i as int) =~= drawn@);
    voter_id
}

/// A name for a voter who has none yet: the text of bytes drawn for it, left to chance.
pub fn generate_voter_id() -> (voter_id: String)
    ensures
        voter_id@.len() == VOTER_ID_LENGTH == 48,
        forall|i: int| 0 <= i < voter_id@.len() ==> is_alphanumeric(#[trigger] voter_id@[i]),
        exists|drawn: Vec<u8>| #[trigger] is_draw(drawn) && voter_id@ == ascii_text(drawn@),
{
    let drawn: Vec<u8> = random_alphanumeric(VOTER_ID_LENGTH);
    assert(is_draw(drawn));
    voter_id_of(&drawn)
}

} // verus!
