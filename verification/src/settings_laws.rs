//! What holds of the settings, word by word.

use crate::config::{
    named_same_site, value_or, yes_or_no, Config, ConfigError, Environment, SameSite,
};
use crate::database::{file_of, without_slash_pairs};
use crate::text::{decimal, lowercased, unsigned_value};
use vstd::prelude::*;

verus! {

/// Four words say yes and four say no, in capitals or not, and no other word says anything.
pub proof fn law_yes_or_no(word: Seq<char>)
    ensures
        ({
            let small = lowercased(word);
            let yes = small == "1"@ || small == "true"@ || small == "yes"@ || small == "on"@;
            let no = small == "0"@ || small == "false"@ || small == "no"@ || small == "off"@;
            &&& yes_or_no(word) == Some(true) <==> yes
            &&& yes_or_no(word) == Some(false) <==> no
            &&& yes_or_no(word) is None <==> !yes && !no
        }),
{
    reveal_strlit("1");
    reveal_strlit("true");
    reveal_strlit("yes");
    reveal_strlit("on");
    reveal_strlit("0");
    reveal_strlit("false");
    reveal_strlit("no");
    reveal_strlit("off");
    let small = lowercased(word);
    if small == "0"@ {
        assert(small[0] == '0');
    }
    if small == "false"@ {
        assert(small[0] == 'f');
    }
    if small == "no"@ {
        assert(small[0] == 'n');
    }
    if small == "off"@ {
        assert(small.len() == 3 && small[0] == 'o');
    }
}

/// Three words name a policy, in capitals or not, and no other word does.
pub proof fn law_named_same_site(word: Seq<char>)
    ensures
        ({
            let small = lowercased(word);
            &&& named_same_site(word) == Some(SameSite::Strict) <==> small == "strict"@
            &&& named_same_site(word) == Some(SameSite::Lax) <==> small == "lax"@
            &&& named_same_site(word) == Some(SameSite::Unrestricted) <==> small == "none"@
        }),
{
    reveal_strlit("strict");
    reveal_strlit("lax");
    reveal_strlit("none");
    let small = lowercased(word);
    if small == "lax"@ {
        assert(small[0] == 'l');
    }
    if small == "none"@ {
        assert(small[0] == 'n');
    }
}

/// A setting that the environment gives is the one that its words give, and one that it does not
/// give is a secure cookie, the policy `Lax` and a window of two days.
pub proof fn law_settings_of_the_environment(env: Environment, default: Seq<char>)
    ensures
        value_or(env.bind_addr, default) == match env.bind_addr {
            Some(text) => text@,
            None => default,
        },
        env.secure() == match env.cookie_secure {
            Some(word) => yes_or_no(word@),
            None => Some(true),
        },
        env.same_site() == match env.cookie_same_site {
            Some(word) => named_same_site(word@),
            None => Some(SameSite::Lax),
        },
        env.vote_window() == match env.vote_window_seconds {
            Some(digits) => unsigned_value(digits@),
            None => Some(172_800),
        },
{
    reveal_strlit("Lax");
    reveal_strlit("lax");
    reveal_strlit("strict");
    assert(lowercased("Lax"@) =~= "lax"@);
    assert("lax"@[0] != "strict"@[0]);
}

/// What is told of a wrong setting.
pub proof fn law_messages(name: String)
    ensures
        ConfigError::NotABindAddr.message_text()
            == "BIND_ADDR must be a socket address, for example 0.0.0.0:3000"@,
        (ConfigError::NotABool { name }).message_text() == name@ + " must be true or false"@,
        ConfigError::NotASameSite.message_text() == "COOKIE_SAME_SITE must be Strict, Lax, or None"@,
        ConfigError::NotAVoteWindow.message_text()
            == "VOTE_WINDOW_SECONDS must be a positive integer"@,
{
}

/// The cookie of a voter has the name, the voter and six attributes or five: it is for HTTP only and
/// for all paths, has the policy and the security of the settings, and lasts as long as the window,
/// or as long as a cookie can last.
pub proof fn law_text_of_the_cookie(config: Config, voter_id: Seq<char>)
    ensures
        ({
            let site = match config.cookie_same_site {
                SameSite::Strict => "Strict"@,
                SameSite::Lax => "Lax"@,
                SameSite::Unrestricted => "None"@,
            };
            let secure = if config.cookie_secure {
                "; Secure"@
            } else {
                Seq::empty()
            };
            let age: nat = if config.vote_window_seconds <= 9_223_372_036_854_775_807 {
                config.vote_window_seconds as nat
            } else {
                9_223_372_036_854_775_807
            };
            config.vote_cookie(voter_id) == config.cookie_name@ + "="@ + voter_id + "; HttpOnly"@
                + "; SameSite="@ + site + secure + "; Path="@ + "/"@ + "; Max-Age="@ + decimal(age)
        }),
{
}

/// A number of slashes.
pub open spec fn slashes(count: nat) -> Seq<char> {
    Seq::new(count, |i: int| '/')
}

/// Without the pairs of slashes before it, a path is what it is without one pair less.
proof fn lemma_slash_pairs(pairs: nat, path: Seq<char>)
    requires
        !(path.len() >= 2 && path[0] == '/' && path[1] == '/'),
    ensures
        without_slash_pairs(slashes(2 * pairs) + path) == path,
    decreases pairs,
{
    if pairs == 0 {
        assert(slashes(0) + path =~= path);
    } else {
        let whole = slashes(2 * pairs) + path;
        lemma_slash_pairs((pairs - 1) as nat, path);
        assert(whole.skip(2) =~= slashes((2 * (pairs - 1)) as nat) + path);
    }
}

/// A database URL names a file where it begins with `sqlite:` and goes on with anything but
/// `:memory:`. The file is what follows, without the pairs of slashes before it.
pub proof fn law_file_of_the_database(url: Seq<char>, pairs: nat, path: Seq<char>)
    requires
        !(path.len() >= 2 && path[0] == '/' && path[1] == '/'),
    ensures
        slashes(2 * pairs) + path != ":memory:"@ ==> file_of(
            "sqlite:"@ + (slashes(2 * pairs) + path),
        ) == Some(path),
        file_of("sqlite:"@ + ":memory:"@) is None,
        url.len() < 7 || url.take(7) != "sqlite:"@ ==> file_of(url) is None,
{
    reveal_strlit("sqlite:");
    let rest = slashes(2 * pairs) + path;
    lemma_slash_pairs(pairs, path);
    assert(("sqlite:"@ + rest).skip(7) =~= rest);
    assert("sqlite:"@.is_prefix_of("sqlite:"@ + rest));
    assert(("sqlite:"@ + ":memory:"@).skip(7) =~= ":memory:"@);
    if "sqlite:"@.is_prefix_of(url) {
        assert(url.take(7) =~= "sqlite:"@);
    }
}

} // verus!
