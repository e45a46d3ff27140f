use lovebin::config::{parse_bool_env, parse_same_site, Config, ConfigError, Environment, SameSite};
use lovebin::database::{database_directory, database_file, directory_to_make};

fn nothing_set() -> Environment {
    Environment {
        database_url: None,
        bind_addr: None,
        cookie_name: None,
        cookie_secure: None,
        cookie_same_site: None,
        vote_window_seconds: None,
    }
}

fn error_of(env: Environment) -> ConfigError {
    match Config::from_env(env, true) {
        Ok(_) => panic!("there are settings"),
        Err(error) => error,
    }
}

#[test]
fn settings_have_defaults() {
    assert_eq!(nothing_set().bind_addr_text(), "0.0.0.0:3000");
    let config = Config::from_env(nothing_set(), true).unwrap();
    assert_eq!(config.database_url, "sqlite:data/hearts.db");
    assert_eq!(config.bind_addr, "0.0.0.0:3000");
    assert_eq!(config.cookie_name, "cleanup_heart_vote");
    assert!(config.cookie_secure);
    assert_eq!(config.cookie_same_site, SameSite::Lax);
    assert_eq!(config.vote_window_seconds, 172_800);
}

#[test]
fn settings_come_from_the_environment() {
    let env = Environment {
        database_url: Some("sqlite:/data/hearts.db".to_owned()),
        bind_addr: Some("127.0.0.1:80".to_owned()),
        cookie_name: Some("vote".to_owned()),
        cookie_secure: Some("False".to_owned()),
        cookie_same_site: Some("NONE".to_owned()),
        vote_window_seconds: Some("+60".to_owned()),
    };
    assert_eq!(env.bind_addr_text(), "127.0.0.1:80");
    let config = Config::from_env(env, true).unwrap();
    assert_eq!(config.database_url, "sqlite:/data/hearts.db");
    assert_eq!(config.bind_addr, "127.0.0.1:80");
    assert_eq!(config.cookie_name, "vote");
    assert!(!config.cookie_secure);
    assert_eq!(config.cookie_same_site, SameSite::Unrestricted);
    assert_eq!(config.vote_window_seconds, 60);
}

#[test]
fn the_first_wrong_setting_is_told() {
    let wrong = || Environment {
        cookie_secure: Some("maybe".to_owned()),
        cookie_same_site: Some("Loose".to_owned()),
        vote_window_seconds: Some("soon".to_owned()),
        ..nothing_set()
    };
    let bind_addr = Config::from_env(wrong(), false).err().unwrap();
    assert_eq!(bind_addr, ConfigError::NotABindAddr);
    assert_eq!(
        bind_addr.message(),
        "BIND_ADDR must be a socket address, for example 0.0.0.0:3000"
    );
    let secure = error_of(wrong());
    assert_eq!(secure, ConfigError::NotABool { name: "COOKIE_SECURE".to_owned() });
    assert_eq!(secure.message(), "COOKIE_SECURE must be true or false");
    let same_site = error_of(Environment { cookie_secure: None, ..wrong() });
    assert_eq!(same_site, ConfigError::NotASameSite);
    assert_eq!(same_site.message(), "COOKIE_SAME_SITE must be Strict, Lax, or None");
    let window =
        error_of(Environment { cookie_secure: None, cookie_same_site: None, ..wrong() });
    assert_eq!(window, ConfigError::NotAVoteWindow);
    assert_eq!(window.message(), "VOTE_WINDOW_SECONDS must be a positive integer");
}

#[test]
fn yes_and_no_have_several_words() {
    for word in ["1", "true", "yes", "on", "TRUE", "Yes", "oN"] {
        assert_eq!(parse_bool_env("X", Some(word), false), Ok(true));
    }
    for word in ["0", "false", "no", "off", "FALSE", "nO", "Off"] {
        assert_eq!(parse_bool_env("X", Some(word), true), Ok(false));
    }
    assert_eq!(parse_bool_env("X", None, true), Ok(true));
    assert_eq!(parse_bool_env("X", None, false), Ok(false));
    for word in ["", "2", "oui", " true", "tru\u{e9}"] {
        assert_eq!(
            parse_bool_env("X", Some(word), true),
            Err(ConfigError::NotABool { name: "X".to_owned() })
        );
    }
}

#[test]
fn the_policies_for_other_sites_have_names() {
    assert_eq!(parse_same_site("strict"), Ok(SameSite::Strict));
    assert_eq!(parse_same_site("LAX"), Ok(SameSite::Lax));
    assert_eq!(parse_same_site("None"), Ok(SameSite::Unrestricted));
    assert_eq!(parse_same_site(""), Err(ConfigError::NotASameSite));
    assert_eq!(parse_same_site("lax "), Err(ConfigError::NotASameSite));
}

#[test]
fn the_window_is_a_number_of_seconds() {
    for (text, seconds) in [
        ("0", 0),
        ("60", 60),
        ("+007", 7),
        ("18446744073709551615", u64::MAX),
    ] {
        let env = Environment { vote_window_seconds: Some(text.to_owned()), ..nothing_set() };
        assert_eq!(Config::from_env(env, true).unwrap().vote_window_seconds, seconds);
        assert_eq!(text.parse::<u64>(), Ok(seconds));
    }
    for text in ["", "+", "-1", "++1", "1 ", "1_000", "18446744073709551616", "\u{663}"] {
        let env = Environment { vote_window_seconds: Some(text.to_owned()), ..nothing_set() };
        assert_eq!(error_of(env), ConfigError::NotAVoteWindow);
        assert!(text.parse::<u64>().is_err());
    }
}

#[test]
fn a_database_url_names_a_file() {
    assert_eq!(database_file("sqlite:data/hearts.db"), Some("data/hearts.db".to_owned()));
    assert_eq!(database_file("sqlite:/data/hearts.db"), Some("/data/hearts.db".to_owned()));
    assert_eq!(database_file("sqlite://data/hearts.db"), Some("data/hearts.db".to_owned()));
    assert_eq!(database_file("sqlite:///data/hearts.db"), Some("/data/hearts.db".to_owned()));
    assert_eq!(database_file("sqlite:////data/hearts.db"), Some("data/hearts.db".to_owned()));
    assert_eq!(database_file("sqlite:"), Some("".to_owned()));
    assert_eq!(database_file("sqlite://:memory:"), Some(":memory:".to_owned()));
    assert_eq!(database_file("sqlite::memory:"), None);
    assert_eq!(database_file("postgres://data/hearts.db"), None);
    assert_eq!(database_file("sqlit"), None);
}

#[test]
fn the_directory_of_the_database_is_made() {
    assert_eq!(database_directory("sqlite:data/hearts.db"), Some("data".to_owned()));
    assert_eq!(database_directory("sqlite:///var/lib/hearts.db"), Some("/var/lib".to_owned()));
    assert_eq!(database_directory("sqlite:../data/hearts.db"), Some("../data".to_owned()));
    assert_eq!(database_directory("sqlite:./hearts.db"), Some(".".to_owned()));
    assert_eq!(database_directory("sqlite:/hearts.db"), Some("/".to_owned()));
    assert_eq!(database_directory("sqlite:data//hearts.db"), Some("data".to_owned()));
    assert_eq!(database_directory("sqlite:data/./hearts.db"), Some("data".to_owned()));
    assert_eq!(database_directory("sqlite:a/data/hearts.db/"), Some("a/data".to_owned()));
    assert_eq!(database_directory("sqlite:/./hearts.db"), Some("/".to_owned()));
    assert_eq!(database_directory("sqlite:a/../hearts.db"), Some("a/..".to_owned()));
    assert_eq!(database_directory("sqlite:hearts.db/."), None);
    assert_eq!(database_directory("sqlite:/."), None);
    assert_eq!(database_directory("sqlite:/"), None);
    assert_eq!(database_directory("sqlite:hearts.db"), None);
    assert_eq!(database_directory("sqlite:."), None);
    assert_eq!(database_directory("sqlite:"), None);
    assert_eq!(database_directory("sqlite::memory:"), None);
    assert_eq!(database_directory("postgres://data/hearts.db"), None);
    assert_eq!(directory_to_make(Some("data".to_owned())), Some("data".to_owned()));
    assert_eq!(directory_to_make(Some("".to_owned())), None);
    assert_eq!(directory_to_make(None), None);
}
