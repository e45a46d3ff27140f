//! The settings of the service, as its environment gives them.

use crate::text::{is_lowercased, lowercased, parse_unsigned, unsigned_value};
use vstd::prelude::*;

verus! {

/// The vote window where the environment sets none: two days.
pub const DEFAULT_VOTE_WINDOW_SECONDS: u64 = 172_800;

/// When a browser sends a cookie along with requests that come from other sites.
#[derive(Clone, Copy, Debug, PartialEq, Eq, Structural)]
pub enum SameSite {
    /// Never.
    Strict,
    /// With requests that only read.
    Lax,
    /// Always; the policy that cookies call `None`.
    Unrestricted,
}

/// Why the environment gives no settings.
#[derive(Debug, PartialEq, Eq)]
pub enum ConfigError {
    /// `BIND_ADDR` is not the address of a socket.
    NotABindAddr,
    /// The variable of this name is set, and to neither a yes nor a no.
    NotABool { name: String },
    /// `COOKIE_SAME_SITE` is none of the three policies.
    NotASameSite,
    /// `VOTE_WINDOW_SECONDS` is not a number of seconds.
    NotAVoteWindow,
}

/// The variables that the service reads, each where it is set.
pub struct Environment {
    pub database_url: Option<String>,
    pub bind_addr: Option<String>,
    pub cookie_name: Option<String>,
    pub cookie_secure: Option<String>,
    pub cookie_same_site: Option<String>,
    pub vote_window_seconds: Option<String>,
}

/// The settings of the service.
pub struct Config {
    pub bind_addr: String,
    pub cookie_name: String,
    pub cookie_secure: bool,
    pub cookie_same_site: SameSite,
    pub vote_window_seconds: u64,
    pub database_url: String,
}

/// The characters of a variable, or those of its default where it is not set.
pub open spec fn value_or(value: Option<String>, default: Seq<char>) -> Seq<char> {
    match value {
        Some(set) => set@,
        None => default,
    }
}

/// The answer that a word gives, in capitals or not.
pub open spec fn yes_or_no(word: Seq<char>) -> Option<bool> {
    let word = lowercased(word);
    if word == "1"@ || word == "true"@ || word == "yes"@ || word == "on"@ {
        Some(true)
    } else if word == "0"@ || word == "false"@ || word == "no"@ || word == "off"@ {
        Some(false)
    } else {
        None
    }
}

/// The policy that a word names, in capitals or not.
pub open spec fn named_same_site(word: Seq<char>) -> Option<SameSite> {
    let word = lowercased(word);
    if word == "strict"@ {
        Some(SameSite::Strict)
    } else if word == "lax"@ {
        Some(SameSite::Lax)
    } else if word == "none"@ {
        Some(SameSite::Unrestricted)
    } else {
        None
    }
}

impl Environment {
    /// Whether the cookie is for secure connections only, where the environment says so clearly or
    /// not at all.
    pub open spec fn secure(self) -> Option<bool> {
        match self.cookie_secure {
            Some(word) => yes_or_no(word@),
            None => Some(true),
        }
    }

    /// The policy for other sites, where the environment names one or says nothing.
    pub open spec fn same_site(self) -> Option<SameSite> {
        named_same_site(value_or(self.cookie_same_site, "Lax"@))
    }

    /// The seconds between two votes of one voter, where the environment gives a number of them or
    /// says nothing.
    pub open spec fn vote_window(self) -> Option<int> {
        match self.vote_window_seconds {
            Some(digits) => unsigned_value(digits@),
            None => Some(DEFAULT_VOTE_WINDOW_SECONDS as int),
        }
    }

    /// The address to listen on, as the environment or its default writes it.
    pub fn bind_addr_text(&self) -> (text: String)
        ensures
            text@ == value_or(self.bind_addr, "0.0.0.0:3000"@),
    {
        match &self.bind_addr {
            Some(set) => set.clone(),
            None => "0.0.0.0:3000".to_owned(),
        }
    }
}

/// The value of a variable, or a default where it is not set.
fn or_default(value: Option<String>, default: &str) -> (text: String)
    ensures
        text@ == value_or(value, default@),
{
    match value {
        Some(set) => set,
        None => default.to_owned(),
    }
}

/// Reads a variable that says yes or no; `default` answers where it is not set.
pub fn parse_bool_env(name: &str, value: Option<&str>, default: bool) -> (answer: Result<
    bool,
    ConfigError,
>)
    ensures
        value is None ==> answer == Ok::<bool, ConfigError>(default),
        value matches Some(word) ==> match yes_or_no(word@) {
            Some(yes) => answer == Ok::<bool, ConfigError>(yes),
            None => answer matches Err(ConfigError::NotABool { name: wrong }) && wrong@ == name@,
        },
{
    match value {
        Some(word) => {
            if is_lowercased(word, "1") || is_lowercased(word, "true") || is_lowercased(word, "yes")
                || is_lowercased(word, "on") {
                Ok(true)
            } else if is_lowercased(word, "0") || is_lowercased(word, "false") || is_lowercased(
                word,
                "no",
            ) || is_lowercased(word, "off") {
                Ok(false)
            } else {
                Err(ConfigError::NotABool { name: name.to_owned() })
            }
        },
        None => Ok(default),
    }
}

/// Reads the name of a policy for other sites.
pub fn parse_same_site(value: &str) -> (site: Result<SameSite, ConfigError>)
    ensures
        site == match named_same_site(value@) {
            Some(named) => Ok::<SameSite, ConfigError>(named),
            None => Err::<SameSite, ConfigError>(ConfigError::NotASameSite),
        },
{
    if is_lowercased(value, "strict") {
        Ok(SameSite::Strict)
    } else if is_lowercased(value, "lax") {
        Ok(SameSite::Lax)
    } else if is_lowercased(value, "none") {
        Ok(SameSite::Unrestricted)
    } else {
        Err(ConfigError::NotASameSite)
    }
}

impl ConfigError {
    /// What to tell the person who starts the service.
    pub open spec fn message_text(self) -> Seq<char> {
        match self {
            ConfigError::NotABindAddr => {
                "BIND_ADDR must be a socket address, for example 0.0.0.0:3000"@
            },
            ConfigError::NotABool { name } => name@ + " must be true or false"@,
            ConfigError::NotASameSite => "COOKIE_SAME_SITE must be Strict, Lax, or None"@,
            ConfigError::NotAVoteWindow => "VOTE_WINDOW_SECONDS must be a positive integer"@,
        }
    }

    /// What to tell the person who starts the service.
    pub fn message(&self) -> (text: String)
        ensures
            text@ == self.message_text(),
    {
        match self {
            ConfigError::NotABindAddr => {
                "BIND_ADDR must be a socket address, for example 0.0.0.0:3000".to_owned()
            },
            ConfigError::NotABool { name } => name.clone().concat(" must be true or false"),
            ConfigError::NotASameSite => {
                "COOKIE_SAME_SITE must be Strict, Lax, or None".to_owned()
            },
            ConfigError::NotAVoteWindow => {
                "VOTE_WINDOW_SECONDS must be a positive integer".to_owned()
            },
        }
    }
}

impl Config {
    /// The settings that the environment gives, where `bind_addr_is_valid` says whether the text of
    /// `Environment::bind_addr_text` is the address of a socket. Where several variables are wrong,
    /// the error is about the first of `BIND_ADDR`, `COOKIE_SECURE`, `COOKIE_SAME_SITE` and
    /// `VOTE_WINDOW_SECONDS`.
    pub fn from_env(env: Environment, bind_addr_is_valid: bool) -> (config: Result<
        Config,
        ConfigError,
    >)
        ensures
            !bind_addr_is_valid ==> config matches Err(ConfigError::NotABindAddr),
            bind_addr_is_valid ==> match (env.secure(), env.same_site(), env.vote_window()) {
                (Some(secure), Some(same_site), Some(window)) => {
                    &&& config matches Ok(made)
                    &&& made.database_url@ == value_or(env.database_url, "sqlite:data/hearts.db"@)
                    &&& made.bind_addr@ == value_or(env.bind_addr, "0.0.0.0:3000"@)
                    &&& made.cookie_name@ == value_or(env.cookie_name, "cleanup_heart_vote"@)
                    &&& made.cookie_secure == secure
                    &&& made.cookie_same_site == same_site
                    &&& made.vote_window_seconds == window
                },
                (None, _, _) => config matches Err(ConfigError::NotABool { name }) && name@
                    == "COOKIE_SECURE"@,
                (Some(_), None, _) => config matches Err(ConfigError::NotASameSite),
                (Some(_), Some(_), None) => config matches Err(ConfigError::NotAVoteWindow),
            },
    {
        let bind_addr = env.bind_addr_text();
        let database_url = or_default(env.database_url, "sqlite:data/hearts.db");
        if !bind_addr_is_valid {
            return Err(ConfigError::NotABindAddr);
        }
        let cookie_name = or_default(env.cookie_name, "cleanup_heart_vote");
        let secure_word = match &env.cookie_secure {
            Some(word) => Some(word.as_str()),
            None => None,
        };
        let cookie_secure = match parse_bool_env("COOKIE_SECURE", secure_word, true) {
            Ok(secure) => secure,
            Err(error) => {
                return Err(error);
            },
        };
        let same_site_word = or_default(env.cookie_same_site, "Lax");
        let cookie_same_site = match parse_same_site(same_site_word.as_str()) {
            Ok(same_site) => same_site,
            Err(error) => {
                return Err(error);
            },
        };
        let vote_window_seconds: u64 = match env.vote_window_seconds {
            Some(digits) => match parse_unsigned(digits.as_str()) {
                Some(seconds) => seconds,
                None => {
                    return Err(ConfigError::NotAVoteWindow);
                },
            },
            None => DEFAULT_VOTE_WINDOW_SECONDS,
        };
        Ok(
            Config {
                bind_addr,
                cookie_name,
                cookie_secure,
                cookie_same_site,
                vote_window_seconds,
                database_url,
            },
        )
    }
}

} // verus!
