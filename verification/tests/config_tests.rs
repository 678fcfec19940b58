use std::collections::HashSet;

use ropds_bot::config::{
    env_number, mb_to_bytes, parse_allowlist, parse_bool_flag, resolve_allow_all, Config,
    ConfigError,
    EnvVars, NumericVar,
};

#[test]
fn parses_allowlist() {
    let ids = parse_allowlist("1, 2,3").unwrap();
    assert_eq!(ids.len(), 3);
    assert!(ids.contains(&2));
    assert!(parse_allowlist("").unwrap().is_empty());
    assert!(parse_allowlist("abc").is_err());
}

#[test]
fn parses_bool_flags() {
    assert!(parse_bool_flag("true").unwrap());
    assert!(!parse_bool_flag("0").unwrap());
    assert!(parse_bool_flag("maybe").is_err());
}

#[test]
fn converts_megabytes() {
    assert_eq!(mb_to_bytes(50), 50 * 1024 * 1024);
}

#[test]
fn debug_hides_secrets() {
    let cfg = Config {
        bot_token: "secret-token".into(),
        ropds_url: "http://localhost:8081".into(),
        ropds_user: Some("user".into()),
        ropds_password: Some("hunter2".into()),
        allowed_user_ids: HashSet::new(),
        allow_all_users: true,
        max_book_size: 1,
        max_cover_size: 1,
        max_feed_size: 1,
        max_concurrent_downloads: 1,
        request_cooldown_secs: 2,
        books_per_page: 5,
        books_timeout_secs: 180,
        feed_timeout_secs: 60,
        cover_timeout_secs: 15,
        download_timeout_secs: 120,
        redis_url: "redis://127.0.0.1:6379".into(),
        ready_file: None,
    };
    let debug = cfg.debug_text();
    assert!(!debug.contains("hunter2"));
    assert!(!debug.contains("secret-token"));
    assert!(debug.contains("***"));
}

fn env() -> EnvVars {
    EnvVars {
        bot_token: Some("token".to_string()),
        ropds_url: None,
        ropds_user: None,
        ropds_password: None,
        allowed_user_ids: None,
        allow_all_users: None,
        max_book_size_mb: None,
        max_cover_size_mb: None,
        max_feed_size_mb: None,
        max_concurrent_downloads: None,
        request_cooldown_secs: None,
        books_per_page: None,
        books_timeout_secs: None,
        feed_timeout_secs: None,
        cover_timeout_secs: None,
        download_timeout_secs: None,
        redis_url: None,
        bot_ready_file: None,
    }
}

#[test]
fn parses_allowlist_edge_cases() {
    let ids = parse_allowlist(" 5 ,,\t7, ").unwrap();
    assert_eq!(ids, HashSet::from([5, 7]));
    assert_eq!(parse_allowlist("1,1").unwrap().len(), 1);
    assert_eq!(parse_allowlist("+9").unwrap(), HashSet::from([9]));
    assert_eq!(parse_allowlist("18446744073709551616"), Err(ConfigError::InvalidUserId));
    assert_eq!(parse_allowlist("-1"), Err(ConfigError::InvalidUserId));
}

#[test]
fn parses_bool_flag_spellings() {
    for t in ["1", "TRUE", " Yes "] {
        assert_eq!(parse_bool_flag(t), Ok(true));
    }
    for f in ["0", "False", "no\n"] {
        assert_eq!(parse_bool_flag(f), Ok(false));
    }
    assert_eq!(parse_bool_flag(""), Err(ConfigError::InvalidAllowAll));
}

#[test]
fn saturates_megabytes() {
    assert_eq!(mb_to_bytes(0), 0);
    assert_eq!(mb_to_bytes(u64::MAX), u64::MAX);
}

#[test]
fn resolves_allow_all() {
    assert_eq!(resolve_allow_all(&None, true), Ok(true));
    assert_eq!(resolve_allow_all(&None, false), Ok(false));
    assert_eq!(resolve_allow_all(&Some("  ".to_string()), true), Ok(true));
    assert_eq!(resolve_allow_all(&Some("false".to_string()), true), Err(ConfigError::AllowlistRequired));
    assert_eq!(resolve_allow_all(&Some("false".to_string()), false), Ok(false));
    assert_eq!(resolve_allow_all(&Some("yes".to_string()), false), Ok(true));
    assert_eq!(resolve_allow_all(&Some("maybe".to_string()), false), Err(ConfigError::InvalidAllowAll));
}

#[test]
fn defaults_from_a_minimal_environment() {
    let c = Config::from_env(&env()).unwrap();
    assert_eq!(c.bot_token, "token");
    assert_eq!(c.ropds_url, "http://localhost:8081");
    assert!(c.allow_all_users);
    assert!(c.allowed_user_ids.is_empty());
    assert_eq!(c.max_book_size, 50 * 1024 * 1024);
    assert_eq!(c.max_cover_size, 5 * 1024 * 1024);
    assert_eq!(c.max_feed_size, 10 * 1024 * 1024);
    assert_eq!(c.max_concurrent_downloads, 2);
    assert_eq!(c.request_cooldown_secs, 2);
    assert_eq!(c.books_per_page, 5);
    assert_eq!(c.books_timeout_secs, 180);
    assert_eq!(c.feed_timeout_secs, 60);
    assert_eq!(c.cover_timeout_secs, 15);
    assert_eq!(c.download_timeout_secs, 120);
    assert_eq!(c.redis_url, "redis://127.0.0.1:6379");
    assert!(c.ready_file.is_none());
    assert!(c.ropds_user.is_none());
}

#[test]
fn reads_every_setting() {
    let mut e = env();
    e.ropds_url = Some("https://lib.example.test///".to_string());
    e.ropds_user = Some("u".to_string());
    e.ropds_password = Some(String::new());
    e.allowed_user_ids = Some("10,20".to_string());
    e.max_book_size_mb = Some(" 7 ".to_string());
    e.max_concurrent_downloads = Some("0".to_string());
    e.books_per_page = Some("0".to_string());
    e.request_cooldown_secs = Some("".to_string());
    e.redis_url = Some("redis://r:1".to_string());
    e.bot_ready_file = Some("/tmp/ready".to_string());
    let c = Config::from_env(&e).unwrap();
    assert_eq!(c.ropds_url, "https://lib.example.test");
    assert_eq!(c.ropds_user.as_deref(), Some("u"));
    assert!(c.ropds_password.is_none());
    assert_eq!(c.allowed_user_ids, HashSet::from([10, 20]));
    assert!(!c.allow_all_users);
    assert_eq!(c.max_book_size, 7 * 1024 * 1024);
    assert_eq!(c.max_concurrent_downloads, 1);
    assert_eq!(c.books_per_page, 1);
    assert_eq!(c.request_cooldown_secs, 2);
    assert_eq!(c.redis_url, "redis://r:1");
    assert_eq!(c.ready_file.as_deref(), Some("/tmp/ready"));
}

#[test]
fn reports_the_first_problem() {
    let mut e = env();
    e.bot_token = None;
    e.allowed_user_ids = Some("x".to_string());
    assert_eq!(Config::from_env(&e).err(), Some(ConfigError::MissingBotToken));

    let mut e = env();
    e.allowed_user_ids = Some("x".to_string());
    e.allow_all_users = Some("maybe".to_string());
    assert_eq!(Config::from_env(&e).err(), Some(ConfigError::InvalidUserId));

    let mut e = env();
    e.allow_all_users = Some("maybe".to_string());
    assert_eq!(Config::from_env(&e).err(), Some(ConfigError::InvalidAllowAll));

    let mut e = env();
    e.allow_all_users = Some("no".to_string());
    assert_eq!(Config::from_env(&e).err(), Some(ConfigError::AllowlistRequired));

    let mut e = env();
    e.max_cover_size_mb = Some("-1".to_string());
    e.download_timeout_secs = Some("x".to_string());
    assert_eq!(
        Config::from_env(&e).err(),
        Some(ConfigError::InvalidNumber(NumericVar::MaxCoverSizeMb))
    );

    let mut e = env();
    e.download_timeout_secs = Some("1.5".to_string());
    assert_eq!(
        Config::from_env(&e).err(),
        Some(ConfigError::InvalidNumber(NumericVar::DownloadTimeoutSecs))
    );
}

#[test]
fn debug_text_layout() {
    let mut e = env();
    e.ropds_password = Some("pw".to_string());
    e.ropds_user = Some("a\"b".to_string());
    let c = Config::from_env(&e).unwrap();
    assert_eq!(
        c.debug_text(),
        "Config { ropds_url: \"http://localhost:8081\", ropds_user: Some(\"a\\\"b\"), \
         ropds_password: Some(\"***\"), allowed_user_ids: 0, allow_all_users: true, \
         max_book_size: 52428800, max_cover_size: 5242880, max_feed_size: 10485760, \
         max_concurrent_downloads: 2, request_cooldown: 2s, books_per_page: 5, \
         books_timeout: 180s, feed_timeout: 60s, cover_timeout: 15s, download_timeout: 120s, \
         redis_url: \"redis://127.0.0.1:6379\", ready_file: None, .. }"
    );
}

#[test]
fn reads_numeric_variables() {
    assert_eq!(env_number(&None, 5, u64::MAX), Some(5));
    assert_eq!(env_number(&Some("   ".to_string()), 5, u64::MAX), Some(5));
    assert_eq!(env_number(&Some(" 7 ".to_string()), 5, u64::MAX), Some(7));
    assert_eq!(env_number(&Some("0".to_string()), 5, u64::MAX), Some(0));
    assert_eq!(env_number(&Some("x".to_string()), 5, u64::MAX), None);
    assert_eq!(env_number(&Some("8".to_string()), 5, 7), None);
    assert_eq!(env_number(&Some("7".to_string()), 5, 7), Some(7));
    assert_eq!(env_number(&Some("3".to_string()), 5, 2), None);
    assert_eq!(
        ConfigError::InvalidNumber(NumericVar::BooksPerPage).message(),
        "BOOKS_PER_PAGE must be a positive integer"
    );
}

#[test]
fn debug_text_escapes_like_debug() {
    let mut e = env();
    let user = "a\tb\nc\r\0\u{1b}\u{7f}\u{85}\\\"é";
    e.ropds_user = Some(user.to_string());
    let c = Config::from_env(&e).unwrap();
    let text = c.debug_text();
    let expected = format!("ropds_user: Some({:?})", user);
    assert!(text.contains(&expected), "{text}");
    assert!(text.contains("ropds_user: Some(\"a\\tb\\nc\\r\\0\\u{1b}\\u{7f}\\u{85}\\\\\\\"é\")"));
}
