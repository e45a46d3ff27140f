//! What holds of the voter's cookie over requests that follow each other.

use crate::config::Config;
use crate::cookies::{
    attribute, cookie_named, cookie_pair, cookie_value, is_alphanumeric, voter_in,
};
use crate::get_hearts::GetStepView;
use crate::headers::{all_visible, ascii_text, is_header_char, is_header_text, is_visible};
use crate::laws::{
    get_outcome, law_count_after_vote, law_second_vote_is_refused, post_outcome, wait_of,
};
use crate::post_hearts::PostStepView;
use crate::store::Store;
use crate::text::{
    decimal, is_digit, is_space, lemma_decimal, lemma_position, lemma_position_is, lemma_trimmed,
    lemma_trimmed_already, position, split, trim_start, trimmed,
};
use crate::timestamp::{elapsed_nanos, rfc3339_text, stored_instant, NANOS_PER_SECOND};
use vstd::prelude::*;
use vstd::utf8::{encode_utf8, is_ascii_chars, is_ascii_chars_encode_utf8};

verus! {

/// The characters that the value of a header may have to be read as text.
pub open spec fn is_visible_char(c: char) -> bool {
    c as u32 == 9 || 32 <= c as u32 <= 126
}

/// A text that comes back unchanged as the value of a cookie: visible, not empty, without `;`, and
/// without white space at its ends.
pub open spec fn is_cookie_word(text: Seq<char>) -> bool {
    &&& text.len() > 0
    &&& forall|i: int|
        0 <= i < text.len() ==> is_visible_char(#[trigger] text[i]) && text[i] != ';'
    &&& !is_space(text[0])
    &&& !is_space(text.last())
}

/// A text that comes back unchanged as the name of a cookie: one that could be a value, without
/// `=`.
pub open spec fn is_cookie_name(name: Seq<char>) -> bool {
    is_cookie_word(name) && !name.contains('=')
}

/// A text that comes back unchanged as the value of a cookie, or nothing.
pub open spec fn is_cookie_value(text: Seq<char>) -> bool {
    text.len() == 0 || is_cookie_word(text)
}

/// What a browser sends back of a cookie: its name and value, which is all before the attributes.
pub open spec fn sent_back(set_cookie: Seq<char>) -> Seq<char> {
    set_cookie.take(position(set_cookie, ';'))
}

/// The headers of a request with this text as its cookies.
pub open spec fn request_with_cookies(text: Seq<char>) -> Map<Seq<char>, Seq<Seq<u8>>> {
    Map::empty().insert("cookie"@, seq![encode_utf8(text)])
}

/// Whether the value of a header with this text can be read as text.
pub open spec fn all_visible_chars(text: Seq<char>) -> bool {
    forall|i: int| 0 <= i < text.len() ==> is_visible_char(#[trigger] text[i])
}

/// The code of a character is not negative, and fits in 32 bits.
proof fn lemma_code(c: char)
    ensures
        0 <= c as int == c as u32,
{
}

/// A visible text that is sent as a header arrives as it is.
proof fn lemma_visible_text_arrives(text: Seq<char>)
    requires
        all_visible_chars(text),
    ensures
        all_visible(encode_utf8(text)),
        ascii_text(encode_utf8(text)) == text,
{
    assert(is_ascii_chars(text)) by {
        assert forall|i: int| 0 <= i < text.len() implies '\0' <= #[trigger] text[i] <= '\u{7f}' by {
            assert(is_visible_char(text[i]));
            lemma_code(text[i]);
        }
    }
    is_ascii_chars_encode_utf8(text);
    let bytes = encode_utf8(text);
    assert forall|i: int| 0 <= i < bytes.len() implies is_visible(#[trigger] bytes[i]) by {
        assert(is_visible_char(text[i]));
    }
    assert(ascii_text(bytes) =~= text) by {
        assert forall|i: int| 0 <= i < text.len() implies ascii_text(bytes)[i] == text[i] by {
            assert(is_visible_char(text[i]));
            assert(bytes[i] == text[i] as u8);
        }
    }
}

/// The pieces of two texts with a separator between them are the pieces of the one and the other.
proof fn lemma_split_at(left: Seq<char>, separator: char, right: Seq<char>)
    ensures
        split(left + seq![separator] + right, separator) == split(left, separator) + split(
            right,
            separator,
        ),
    decreases left.len(),
{
    let text = left + seq![separator] + right;
    lemma_position(left, separator);
    let at = position(left, separator);
    assert forall|j: int| 0 <= j < at implies text[j] != separator by {
        assert(text[j] == left[j]);
    }
    lemma_position_is(text, separator, at);
    assert(text.take(at) =~= left.take(at));
    if at < left.len() {
        let rest = left.skip(at + 1);
        lemma_split_at(rest, separator, right);
        assert(text.skip(at + 1) =~= rest + seq![separator] + right);
        assert(split(text, separator) =~= split(left, separator) + split(right, separator));
    } else {
        assert(left.take(at) =~= left);
        assert(text.skip(at + 1) =~= right);
        assert(split(text, separator) =~= split(left, separator) + split(right, separator));
    }
}

/// A text without the separator is one piece.
proof fn lemma_split_single(text: Seq<char>, separator: char)
    requires
        !text.contains(separator),
    ensures
        split(text, separator) == seq![text],
{
    assert forall|j: int| 0 <= j < text.len() implies text[j] != separator by {
        assert(text.contains(text[j]));
    }
    lemma_position_is(text, separator, text.len() as int);
}

/// Where the first parts have no cookie of the name, the others decide.
proof fn lemma_cookie_named_after(parts: Seq<Seq<char>>, more: Seq<Seq<char>>, name: Seq<char>)
    requires
        cookie_named(parts, name) is None,
    ensures
        cookie_named(parts + more, name) == cookie_named(more, name),
    decreases parts.len(),
{
    if parts.len() == 0 {
        assert(parts + more =~= more);
    } else {
        assert((parts + more).drop_first() =~= parts.drop_first() + more);
        assert((parts + more)[0] == parts[0]);
        lemma_cookie_named_after(parts.drop_first(), more, name);
    }
}

/// A name and a value with `=` between them, and perhaps a space before them, are read as that name
/// and value.
proof fn lemma_pair_is_read(name: Seq<char>, value: Seq<char>)
    requires
        is_cookie_name(name),
        is_cookie_value(value),
    ensures
        cookie_pair(trimmed(name + seq!['='] + value)) == Some((name, value)),
        cookie_pair(trimmed(seq![' '] + (name + seq!['='] + value))) == Some((name, value)),
        !(name + seq!['='] + value).contains(';'),
        all_visible_chars(name + seq!['='] + value),
{
    let pair = name + seq!['='] + value;
    assert(pair[0] == name[0]);
    assert(pair.last() == if value.len() > 0 {
        value.last()
    } else {
        '='
    });
    lemma_trimmed_already(pair);
    let spaced = seq![' '] + pair;
    assert(spaced.drop_first() =~= pair);
    assert(trim_start(spaced) == trim_start(pair));
    assert forall|j: int| 0 <= j < name.len() implies pair[j] != '=' by {
        assert(pair[j] == name[j]);
        assert(name.contains(name[j]));
    }
    assert(pair[name.len() as int] == '=');
    lemma_position_is(pair, '=', name.len() as int);
    assert(pair.take(name.len() as int) =~= name);
    assert(pair.skip(name.len() as int + 1) =~= value);
    lemma_trimmed_already(name);
    lemma_trimmed_already(value);
    assert forall|j: int| 0 <= j < pair.len() implies is_visible_char(#[trigger] pair[j]) && pair[j]
        != ';' by {
        if j < name.len() {
            assert(pair[j] == name[j]);
        } else if j > name.len() {
            assert(pair[j] == value[j - name.len() - 1]);
        }
    }
}

/// What a browser sends back of a voter's cookie is the cookie's name and the voter.
proof fn lemma_sent_back(config: Config, voter_id: Seq<char>)
    requires
        is_cookie_name(config.cookie_name@),
        is_cookie_word(voter_id),
    ensures
        sent_back(config.vote_cookie(voter_id)) == config.cookie_name@ + seq!['='] + voter_id,
{
    reveal_strlit("=");
    reveal_strlit("; HttpOnly");
    let name = config.cookie_name@;
    let pair = name + seq!['='] + voter_id;
    lemma_pair_is_read(name, voter_id);
    let text = config.vote_cookie(voter_id);
    assert("="@ =~= seq!['=']);
    let site = config.cookie_same_site.name();
    let secure = attribute(config.cookie_secure, "; Secure"@);
    let age = decimal(config.max_age() as nat);
    assert(text == pair + "; HttpOnly"@ + "; SameSite="@ + site + secure + "; Path="@ + "/"@
        + "; Max-Age="@ + age);
    let tail = "; HttpOnly"@ + "; SameSite="@ + site + secure + "; Path="@ + "/"@ + "; Max-Age="@
        + age;
    assert(text =~= pair + tail);
    assert(tail[0] == ';');
    assert forall|j: int| 0 <= j < pair.len() implies text[j] != ';' by {
        assert(text[j] == pair[j]);
        assert(pair.contains(pair[j]));
    }
    assert(text[pair.len() as int] == tail[0]);
    lemma_position_is(text, ';', pair.len() as int);
    assert(text.take(pair.len() as int) =~= pair);
}

/// A voter who sends the cookie back that the service set is the same voter again.
pub proof fn law_cookie_names_the_voter(config: Config, voter_id: Seq<char>)
    requires
        is_cookie_name(config.cookie_name@),
        is_cookie_word(voter_id),
    ensures
        voter_in(
            request_with_cookies(sent_back(config.vote_cookie(voter_id))),
            config.cookie_name@,
        ) == Some(voter_id),
{
    let name = config.cookie_name@;
    let pair = name + seq!['='] + voter_id;
    lemma_sent_back(config, voter_id);
    lemma_pair_is_read(name, voter_id);
    lemma_visible_text_arrives(pair);
    lemma_split_single(pair, ';');
    assert(split(pair, ';')[0] == pair);
    assert(cookie_value(pair, name) == Some(voter_id));
}

/// It is the same voter again too where the browser sends other cookies with it: some before it,
/// none of which has its name, and any after it.
pub proof fn law_cookie_names_the_voter_among_others(
    config: Config,
    voter_id: Seq<char>,
    before: Seq<char>,
    after: Seq<char>,
)
    requires
        is_cookie_name(config.cookie_name@),
        is_cookie_word(voter_id),
        all_visible_chars(before),
        all_visible_chars(after),
        cookie_named(split(before, ';'), config.cookie_name@) is None,
    ensures
        voter_in(
            request_with_cookies(
                before + seq![';', ' '] + sent_back(config.vote_cookie(voter_id)) + seq![';', ' ']
                    + after,
            ),
            config.cookie_name@,
        ) == Some(voter_id),
{
    let name = config.cookie_name@;
    let pair = name + seq!['='] + voter_id;
    lemma_sent_back(config, voter_id);
    lemma_pair_is_read(name, voter_id);
    let spaced = seq![' '] + pair;
    let last = seq![' '] + after;
    let text = before + seq![';', ' '] + pair + seq![';', ' '] + after;
    assert(text =~= before + seq![';'] + (spaced + seq![';'] + last));
    assert forall|j: int| 0 <= j < text.len() implies is_visible_char(#[trigger] text[j]) by {
        let start = before.len() + 2;
        let end = start + pair.len();
        if j < before.len() {
            assert(text[j] == before[j]);
        } else if start <= j < end {
            assert(text[j] == pair[j - start]);
        } else if j >= end + 2 {
            assert(text[j] == after[j - end - 2]);
        }
    }
    lemma_visible_text_arrives(text);
    lemma_split_at(before, ';', spaced + seq![';'] + last);
    lemma_split_at(spaced, ';', last);
    assert(!spaced.contains(';')) by {
        assert forall|j: int| 0 <= j < spaced.len() implies spaced[j] != ';' by {
            if j > 0 {
                assert(spaced[j] == pair[j - 1]);
                assert(pair.contains(pair[j - 1]));
            }
        }
    }
    lemma_split_single(spaced, ';');
    let more = seq![spaced] + split(last, ';');
    assert(split(text, ';') == split(before, ';') + more);
    lemma_cookie_named_after(split(before, ';'), more, name);
    assert(more[0] == spaced);
    assert(cookie_named(more, name) == Some(voter_id));
}

/// A voter whose vote was accepted, and who sends the cookie back that came with the answer, is
/// refused a second vote within the window and told of having voted. The instant of the first vote
/// has to read back from its text, as it does in years of four digits.
pub proof fn law_cookie_keeps_from_voting_twice(
    config: Config,
    store: Store,
    voter_id: Seq<char>,
    checked_at: (i64, u32),
    recorded_at: (i64, u32),
    second_at: (i64, u32),
    never_recorded_at: (i64, u32),
)
    requires
        is_cookie_name(config.cookie_name@),
        is_cookie_word(voter_id),
        wait_of(store, voter_id, config.vote_window_seconds, checked_at) is None,
        stored_instant(rfc3339_text(recorded_at.0, recorded_at.1)) == Some(recorded_at),
        elapsed_nanos(recorded_at, second_at) < config.vote_window_seconds * NANOS_PER_SECOND,
    ensures
        ({
            let window = config.vote_window_seconds;
            let (kept, _) = post_outcome(store, voter_id, window, checked_at, recorded_at);
            let request = request_with_cookies(sent_back(config.vote_cookie(voter_id)));
            &&& voter_in(request, config.cookie_name@) matches Some(again)
            &&& post_outcome(kept, again, window, second_at, never_recorded_at).0 == kept
            &&& post_outcome(kept, again, window, second_at, never_recorded_at).1
                matches PostStepView::Reply(reply)
            &&& !reply.voted
            &&& reply.reason == Some("already_voted"@)
            &&& reply.count == store.history.len() + 1
            &&& get_outcome(kept, Some(again), window, second_at).1 == (GetStepView::Reply {
                count: store.history.len() as int + 1,
                already_voted: true,
            })
        }),
{
    let window = config.vote_window_seconds;
    law_cookie_names_the_voter(config, voter_id);
    law_second_vote_is_refused(
        store,
        voter_id,
        window,
        checked_at,
        recorded_at,
        second_at,
        never_recorded_at,
    );
    law_count_after_vote(store, voter_id, window, checked_at, recorded_at, second_at);
}

/// The characters of the pieces are those of the text, but for the separator.
proof fn lemma_pieces_within(text: Seq<char>, separator: char)
    ensures
        forall|i: int, c: char|
            0 <= i < split(text, separator).len() && (#[trigger] split(
                text,
                separator,
            )[i].contains(c)) ==> text.contains(c) && c != separator,
    decreases text.len(),
{
    lemma_position(text, separator);
    let at = position(text, separator);
    let parts = split(text, separator);
    assert forall|i: int, c: char|
        0 <= i < parts.len() && #[trigger] parts[i].contains(c) implies text.contains(c) && c
        != separator by {
        if at < text.len() {
            let rest = text.skip(at + 1);
            lemma_pieces_within(rest, separator);
            if i == 0 {
                let j = choose|j: int| 0 <= j < parts[0].len() && parts[0][j] == c;
                assert(text[j] == c);
            } else {
                assert(parts[i] == split(rest, separator)[i - 1]);
                assert(rest.contains(c));
                let j = choose|j: int| 0 <= j < rest.len() && rest[j] == c;
                assert(text[at + 1 + j] == c);
            }
        } else {
            assert(parts[i] == text);
            let j = choose|j: int| 0 <= j < text.len() && text[j] == c;
            assert(text[j] != separator);
        }
    }
}

/// The value of a cookie that is found among visible parts is a word that comes back unchanged.
proof fn lemma_found_value_is_word(parts: Seq<Seq<char>>, name: Seq<char>)
    requires
        forall|i: int, c: char|
            0 <= i < parts.len() && (#[trigger] parts[i].contains(c)) ==> is_visible_char(c) && c
                != ';',
    ensures
        cookie_named(parts, name) matches Some(value) ==> (value.len() > 0 ==> is_cookie_word(
            value,
        )),
    decreases parts.len(),
{
    if parts.len() > 0 {
        let rest = parts.drop_first();
        assert forall|i: int, c: char|
            0 <= i < rest.len() && (#[trigger] rest[i].contains(c)) implies is_visible_char(c) && c
            != ';' by {
            assert(parts[i + 1].contains(c));
        }
        lemma_found_value_is_word(rest, name);
        let part = trimmed(parts[0]);
        lemma_trimmed(parts[0]);
        let at = position(part, '=');
        lemma_position(part, '=');
        if at < part.len() {
            let value = trimmed(part.skip(at + 1));
            lemma_trimmed(part.skip(at + 1));
            assert forall|i: int| 0 <= i < value.len() implies is_visible_char(#[trigger] value[i])
                && value[i] != ';' by {
                assert(value.contains(value[i]));
                let right = part.skip(at + 1);
                assert(right.contains(value[i]));
                let j = choose|j: int| 0 <= j < right.len() && right[j] == value[i];
                assert(part[at + 1 + j] == value[i]);
                assert(part.contains(value[i]));
                assert(parts[0].contains(value[i]));
            }
        }
    }
}

/// A voter that a request names is a word that comes back unchanged in a cookie.
pub proof fn law_named_voter_is_cookie_word(
    headers: Map<Seq<char>, Seq<Seq<u8>>>,
    cookie_name: Seq<char>,
)
    ensures
        voter_in(headers, cookie_name) matches Some(voter_id) ==> is_cookie_word(voter_id),
{
    if headers.dom().contains("cookie"@) && all_visible(headers["cookie"@][0]) {
        let bytes = headers["cookie"@][0];
        let text = ascii_text(bytes);
        lemma_pieces_within(text, ';');
        let parts = split(text, ';');
        assert forall|i: int, c: char|
            0 <= i < parts.len() && (#[trigger] parts[i].contains(c)) implies is_visible_char(c)
            && c != ';' by {
            let j = choose|j: int| 0 <= j < text.len() && text[j] == c;
            assert(is_visible(bytes[j]));
        }
        lemma_found_value_is_word(parts, cookie_name);
    }
}

/// A name that the service gives to a voter is a word that comes back unchanged in a cookie.
pub proof fn law_given_name_is_cookie_word(voter_id: Seq<char>)
    requires
        voter_id.len() > 0,
        forall|i: int| 0 <= i < voter_id.len() ==> is_alphanumeric(#[trigger] voter_id[i]),
    ensures
        is_cookie_word(voter_id),
{
    assert(is_alphanumeric(voter_id[0]));
    assert(is_alphanumeric(voter_id[voter_id.len() - 1]));
}

proof fn lemma_header_texts_join(left: Seq<char>, right: Seq<char>)
    requires
        is_header_text(left),
        is_header_text(right),
    ensures
        is_header_text(left + right),
{
    let both = left + right;
    assert forall|i: int| 0 <= i < both.len() implies is_header_char(both[i]) by {
        if i < left.len() {
            assert(both[i] == left[i]);
        } else {
            assert(both[i] == right[i - left.len()]);
        }
    }
}

/// The cookie of such a voter can always be set, where the cookie's name is one that comes back
/// unchanged.
pub proof fn law_vote_cookie_can_be_set(config: Config, voter_id: Seq<char>)
    requires
        is_cookie_name(config.cookie_name@),
        is_cookie_word(voter_id),
    ensures
        is_header_text(config.vote_cookie(voter_id)),
{
    reveal_strlit("=");
    reveal_strlit("; HttpOnly");
    reveal_strlit("; SameSite=");
    reveal_strlit("; Secure");
    reveal_strlit("; Path=");
    reveal_strlit("/");
    reveal_strlit("; Max-Age=");
    reveal_strlit("Strict");
    reveal_strlit("Lax");
    reveal_strlit("None");
    let name = config.cookie_name@;
    let site = config.cookie_same_site.name();
    let secure = attribute(config.cookie_secure, "; Secure"@);
    let age = decimal(config.max_age() as nat);
    lemma_decimal(config.max_age() as nat);
    assert(is_header_text(name));
    assert(is_header_text(voter_id));
    assert(is_header_text(site));
    assert(is_header_text(secure));
    assert forall|i: int| 0 <= i < age.len() implies is_header_char(age[i]) by {
        assert(is_digit(age[i]));
    }
    let s1 = name + "="@;
    lemma_header_texts_join(name, "="@);
    let s2 = s1 + voter_id;
    lemma_header_texts_join(s1, voter_id);
    let s3 = s2 + attribute(true, "; HttpOnly"@);
    lemma_header_texts_join(s2, attribute(true, "; HttpOnly"@));
    let s4 = s3 + "; SameSite="@;
    lemma_header_texts_join(s3, "; SameSite="@);
    let s5 = s4 + site;
    lemma_header_texts_join(s4, site);
    let s6 = s5 + secure;
    lemma_header_texts_join(s5, secure);
    let s7 = s6 + "; Path="@;
    lemma_header_texts_join(s6, "; Path="@);
    let s8 = s7 + "/"@;
    lemma_header_texts_join(s7, "/"@);
    let s9 = s8 + "; Max-Age="@;
    lemma_header_texts_join(s8, "; Max-Age="@);
    lemma_header_texts_join(s9, age);
}

/// The text of a cookie's name and value.
pub open spec fn pair_text(pair: (Seq<char>, Seq<char>)) -> Seq<char> {
    pair.0 + seq!['='] + pair.1
}

/// The text with which a browser sends cookies, given by their names and values.
pub open spec fn cookie_list(pairs: Seq<(Seq<char>, Seq<char>)>) -> Seq<char>
    decreases pairs.len(),
{
    if pairs.len() == 0 {
        Seq::empty()
    } else if pairs.len() == 1 {
        pair_text(pairs[0])
    } else {
        cookie_list(pairs.drop_last()) + seq![';', ' '] + pair_text(pairs.last())
    }
}

/// Whether each of the names and values comes back unchanged from a cookie.
pub open spec fn are_cookies(pairs: Seq<(Seq<char>, Seq<char>)>) -> bool {
    forall|i: int|
        0 <= i < pairs.len() ==> is_cookie_name((#[trigger] pairs[i]).0) && is_cookie_value(
            pairs[i].1,
        )
}

/// The pieces of a list of cookies are read as the cookies.
proof fn lemma_pieces_of_list(pairs: Seq<(Seq<char>, Seq<char>)>)
    requires
        pairs.len() > 0,
        are_cookies(pairs),
    ensures
        all_visible_chars(cookie_list(pairs)),
        split(cookie_list(pairs), ';').len() == pairs.len(),
        forall|i: int|
            0 <= i < pairs.len() ==> cookie_pair(
                trimmed(#[trigger] split(cookie_list(pairs), ';')[i]),
            ) == Some(pairs[i]),
    decreases pairs.len(),
{
    let last = pairs.last();
    let text = pair_text(last);
    lemma_pair_is_read(last.0, last.1);
    if pairs.len() == 1 {
        lemma_split_single(text, ';');
    } else {
        let shorter = pairs.drop_last();
        assert forall|i: int| 0 <= i < shorter.len() implies is_cookie_name(
            (#[trigger] shorter[i]).0,
        ) && is_cookie_value(shorter[i].1) by {
            assert(shorter[i] == pairs[i]);
        }
        lemma_pieces_of_list(shorter);
        let before = cookie_list(shorter);
        let spaced = seq![' '] + text;
        let list = cookie_list(pairs);
        assert(list =~= before + seq![';'] + spaced);
        lemma_split_at(before, ';', spaced);
        assert(!spaced.contains(';')) by {
            assert forall|j: int| 0 <= j < spaced.len() implies spaced[j] != ';' by {
                if j > 0 {
                    assert(spaced[j] == text[j - 1]);
                    assert(text.contains(text[j - 1]));
                }
            }
        }
        lemma_split_single(spaced, ';');
        let parts = split(list, ';');
        assert(parts == split(before, ';') + seq![spaced]);
        assert forall|i: int| 0 <= i < pairs.len() implies cookie_pair(trimmed(#[trigger] parts[i]))
            == Some(pairs[i]) by {
            if i < shorter.len() {
                assert(parts[i] == split(before, ';')[i]);
                assert(shorter[i] == pairs[i]);
            } else {
                assert(parts[i] == spaced);
            }
        }
        assert forall|j: int| 0 <= j < list.len() implies is_visible_char(#[trigger] list[j]) by {
            if j < before.len() {
                assert(list[j] == before[j]);
            } else if j >= before.len() + 2 {
                assert(list[j] == text[j - before.len() - 2]);
            }
        }
    }
}

/// Whether a part of a text of cookies is no cookie, or one of another name.
pub open spec fn is_other_cookie(part: Seq<char>, name: Seq<char>) -> bool {
    match cookie_pair(trimmed(part)) {
        Some(pair) => pair.0 != name,
        None => true,
    }
}

/// The first of the parts counts that is a cookie of the name, whatever the others are, and where
/// no part is, there is none.
pub proof fn law_first_cookie_of_the_name_counts(
    parts: Seq<Seq<char>>,
    name: Seq<char>,
    at: int,
    value: Seq<char>,
)
    requires
        0 <= at <= parts.len(),
        forall|i: int| 0 <= i < at ==> is_other_cookie(#[trigger] parts[i], name),
        at < parts.len() ==> cookie_pair(trimmed(parts[at])) == Some((name, value)),
    ensures
        at < parts.len() ==> cookie_named(parts, name) == Some(value),
        at == parts.len() ==> cookie_named(parts, name) is None,
    decreases parts.len(),
{
    if at > 0 {
        let rest = parts.drop_first();
        assert(is_other_cookie(parts[0], name));
        assert forall|i: int| 0 <= i < at - 1 implies is_other_cookie(#[trigger] rest[i], name) by {
            assert(rest[i] == parts[i + 1]);
        }
        if at < parts.len() {
            assert(rest[at - 1] == parts[at]);
        }
        law_first_cookie_of_the_name_counts(rest, name, at - 1, value);
    }
}

/// Of the cookies that a browser sends, the voter is the value of the first that has the name, where
/// it is not empty. Where none has the name, there is no voter.
pub proof fn law_voter_is_the_first_of_the_name(
    pairs: Seq<(Seq<char>, Seq<char>)>,
    name: Seq<char>,
    at: int,
)
    requires
        are_cookies(pairs),
        0 <= at <= pairs.len(),
        forall|i: int| 0 <= i < at ==> (#[trigger] pairs[i]).0 != name,
        at < pairs.len() ==> pairs[at].0 == name,
    ensures
        voter_in(request_with_cookies(cookie_list(pairs)), name) == if at < pairs.len()
            && pairs[at].1.len() > 0 {
            Some(pairs[at].1)
        } else {
            None
        },
{
    let text = cookie_list(pairs);
    if pairs.len() == 0 {
        lemma_visible_text_arrives(text);
        lemma_split_single(text, ';');
        let parts = split(text, ';');
        assert(parts =~= seq![text]);
        lemma_trimmed(text);
        assert(cookie_pair(trimmed(parts[0])) is None);
        law_first_cookie_of_the_name_counts(parts, name, 1, Seq::empty());
    } else {
        lemma_pieces_of_list(pairs);
        lemma_visible_text_arrives(text);
        let parts = split(text, ';');
        assert forall|i: int| 0 <= i < at implies is_other_cookie(#[trigger] parts[i], name) by {
            assert(pairs[i].0 != name);
        }
        law_first_cookie_of_the_name_counts(parts, name, at, pairs[at].1);
    }
}

/// Cookies of other names do not matter: a voter is named by the cookie of the name, whatever comes
/// before it that is no cookie of the name, and whatever comes after it or nothing.
pub proof fn law_cookies_of_other_names_do_not_matter(
    name: Seq<char>,
    voter_id: Seq<char>,
    before: Seq<char>,
    after: Seq<char>,
)
    requires
        is_cookie_name(name),
        is_cookie_word(voter_id),
        all_visible_chars(before),
        all_visible_chars(after),
        forall|i: int|
            0 <= i < split(before, ';').len() ==> is_other_cookie(
                #[trigger] split(before, ';')[i],
                name,
            ),
    ensures
        voter_in(
            request_with_cookies(before + seq![';', ' '] + pair_text((name, voter_id))),
            name,
        ) == Some(voter_id),
        voter_in(
            request_with_cookies(
                before + seq![';', ' '] + pair_text((name, voter_id)) + seq![';', ' '] + after,
            ),
            name,
        ) == Some(voter_id),
{
    let pair = pair_text((name, voter_id));
    lemma_pair_is_read(name, voter_id);
    let spaced = seq![' '] + pair;
    assert(!spaced.contains(';')) by {
        assert forall|j: int| 0 <= j < spaced.len() implies spaced[j] != ';' by {
            if j > 0 {
                assert(spaced[j] == pair[j - 1]);
                assert(pair.contains(pair[j - 1]));
            }
        }
    }
    lemma_split_single(spaced, ';');
    let head = split(before, ';');
    law_first_cookie_of_the_name_counts(head, name, head.len() as int, voter_id);

    let short = before + seq![';', ' '] + pair;
    assert(short =~= before + seq![';'] + spaced);
    assert forall|j: int| 0 <= j < short.len() implies is_visible_char(#[trigger] short[j]) by {
        if j < before.len() {
            assert(short[j] == before[j]);
        } else if j >= before.len() + 2 {
            assert(short[j] == pair[j - before.len() - 2]);
        }
    }
    lemma_visible_text_arrives(short);
    lemma_split_at(before, ';', spaced);
    lemma_cookie_named_after(head, seq![spaced], name);
    assert(seq![spaced][0] == spaced);
    assert(cookie_named(seq![spaced], name) == Some(voter_id));

    let last = seq![' '] + after;
    let long = short + seq![';', ' '] + after;
    assert(long =~= before + seq![';'] + (spaced + seq![';'] + last));
    assert forall|j: int| 0 <= j < long.len() implies is_visible_char(#[trigger] long[j]) by {
        if j < short.len() {
            assert(long[j] == short[j]);
        } else if j >= short.len() + 2 {
            assert(long[j] == after[j - short.len() - 2]);
        }
    }
    lemma_visible_text_arrives(long);
    lemma_split_at(before, ';', spaced + seq![';'] + last);
    lemma_split_at(spaced, ';', last);
    let more = seq![spaced] + split(last, ';');
    assert(split(long, ';') == head + more);
    lemma_cookie_named_after(head, more, name);
    assert(more[0] == spaced);
    assert(cookie_named(more, name) == Some(voter_id));
}

/// A request names a voter only in its first `Cookie` header, and only where every byte of that is a
/// visible character of ASCII, a space or a tab. Other headers do not matter.
pub proof fn law_only_the_first_header_counts(
    headers: Map<Seq<char>, Seq<Seq<u8>>>,
    other: Map<Seq<char>, Seq<Seq<u8>>>,
    name: Seq<char>,
)
    ensures
        !headers.dom().contains("cookie"@) ==> voter_in(headers, name) is None,
        headers.dom().contains("cookie"@) && (exists|i: int|
            0 <= i < headers["cookie"@][0].len() && !(32 <= #[trigger] headers["cookie"@][0][i]
                <= 126 || headers["cookie"@][0][i] == 9)) ==> voter_in(headers, name) is None,
        headers.dom().contains("cookie"@) && other.dom().contains("cookie"@)
            && headers["cookie"@][0] == other["cookie"@][0] ==> voter_in(headers, name) == voter_in(
            other,
            name,
        ),
{
}

/// A text with `=` in it is a cookie where something stands before the first one: that, and what
/// follows, are its name and value without the white space round them. A text without `=` is none.
pub proof fn law_text_of_a_cookie(name: Seq<char>, value: Seq<char>, text: Seq<char>)
    requires
        !name.contains('='),
        !text.contains('='),
    ensures
        cookie_pair(name + seq!['='] + value) == if trimmed(name).len() > 0 {
            Some((trimmed(name), trimmed(value)))
        } else {
            None
        },
        cookie_pair(text) is None,
{
    let pair = name + seq!['='] + value;
    assert forall|j: int| 0 <= j < name.len() implies pair[j] != '=' by {
        assert(pair[j] == name[j]);
        assert(name.contains(name[j]));
    }
    lemma_position_is(pair, '=', name.len() as int);
    assert(pair.take(name.len() as int) =~= name);
    assert(pair.skip(name.len() as int + 1) =~= value);
    assert forall|j: int| 0 <= j < text.len() implies text[j] != '=' by {
        assert(text.contains(text[j]));
    }
    lemma_position_is(text, '=', text.len() as int);
}

/// In any text that arrives, the first part between semicolons that is a cookie of the name gives
/// the voter, where its value is not empty, and no other part matters.
pub proof fn law_voter_in_any_text(
    text: Seq<char>,
    name: Seq<char>,
    at: int,
    value: Seq<char>,
)
    requires
        all_visible_chars(text),
        0 <= at <= split(text, ';').len(),
        forall|i: int| 0 <= i < at ==> is_other_cookie(#[trigger] split(text, ';')[i], name),
        at < split(text, ';').len() ==> cookie_pair(trimmed(split(text, ';')[at])) == Some(
            (name, value),
        ),
    ensures
        voter_in(request_with_cookies(text), name) == if at < split(text, ';').len() && value.len()
            > 0 {
            Some(value)
        } else {
            None
        },
{
    lemma_visible_text_arrives(text);
    law_first_cookie_of_the_name_counts(split(text, ';'), name, at, value);
}

/// Which bytes and characters can stand in a header, and which are letters and digits.
pub proof fn law_characters_of_headers(bytes: Seq<u8>, text: Seq<char>, c: char)
    ensures
        all_visible(bytes) <==> forall|i: int|
            0 <= i < bytes.len() ==> #[trigger] bytes[i] == 9 || 32 <= bytes[i] <= 126,
        ascii_text(bytes).len() == bytes.len(),
        forall|i: int|
            0 <= i < bytes.len() ==> (#[trigger] ascii_text(bytes)[i]) as u32 == bytes[i] as u32,
        is_header_text(text) <==> forall|i: int|
            0 <= i < text.len() ==> (#[trigger] text[i]) as u32 == 9 || (text[i] as u32 >= 32
                && text[i] as u32 != 127),
        is_alphanumeric(c) <==> 48 <= c as u32 <= 57 || 65 <= c as u32 <= 90 || 97 <= c as u32
            <= 122,
{
    assert(all_visible(bytes) ==> forall|i: int|
        0 <= i < bytes.len() ==> is_visible(#[trigger] bytes[i]));
    if is_header_text(text) {
        assert forall|i: int| 0 <= i < text.len() implies (#[trigger] text[i]) as u32 == 9 || (
        text[i] as u32 >= 32 && text[i] as u32 != 127) by {
            assert(is_header_char(text[i]));
        }
    }
}

} // verus!
