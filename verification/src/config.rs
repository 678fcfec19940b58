//! Settings of the bot, computed from the values of its environment variables.
use std::collections::HashSet;
use vstd::prelude::*;
use crate::text::{
    all_digits, chars_eq_str, chars_of, decimal, digit_value, digits_value, is_space, lower_ascii_chars,
    opt_str_view, parse_u64, parse_unsigned, parse_unsigned_chars, push_char, push_decimal,
    push_str, string_of, to_lower_ascii, trim, trim_chars, trim_end, trim_start,
};

verus! {

broadcast use {
    vstd::std_specs::hash::axiom_u64_obeys_hash_table_key_model,
    vstd::std_specs::hash::axiom_random_state_builds_valid_hashers,
    vstd::std_specs::hash::axiom_spec_hash_set_len,
};

pub const DEFAULT_MAX_BOOK_MB: u64 = 50;
pub const DEFAULT_MAX_COVER_MB: u64 = 5;
pub const DEFAULT_MAX_FEED_MB: u64 = 10;
pub const DEFAULT_CONCURRENT_DOWNLOADS: usize = 2;
pub const DEFAULT_COOLDOWN_SECS: u64 = 2;
pub const DEFAULT_BOOKS_PER_PAGE: usize = 5;
pub const DEFAULT_BOOKS_TIMEOUT_SECS: u64 = 180;
pub const DEFAULT_FEED_TIMEOUT_SECS: u64 = 60;
pub const DEFAULT_COVER_TIMEOUT_SECS: u64 = 15;
pub const DEFAULT_DOWNLOAD_TIMEOUT_SECS: u64 = 120;

/// The raw values of the environment variables the bot reads; `None` where a
/// variable is not set (or is not valid Unicode).
pub struct EnvVars {
    pub bot_token: Option<String>,
    pub ropds_url: Option<String>,
    pub ropds_user: Option<String>,
    pub ropds_password: Option<String>,
    pub allowed_user_ids: Option<String>,
    pub allow_all_users: Option<String>,
    pub max_book_size_mb: Option<String>,
    pub max_cover_size_mb: Option<String>,
    pub max_feed_size_mb: Option<String>,
    pub max_concurrent_downloads: Option<String>,
    pub request_cooldown_secs: Option<String>,
    pub books_per_page: Option<String>,
    pub books_timeout_secs: Option<String>,
    pub feed_timeout_secs: Option<String>,
    pub cover_timeout_secs: Option<String>,
    pub download_timeout_secs: Option<String>,
    pub redis_url: Option<String>,
    pub bot_ready_file: Option<String>,
}

/// The settings of the bot. Sizes are in bytes, durations in seconds.
pub struct Config {
    pub bot_token: String,
    pub ropds_url: String,
    pub ropds_user: Option<String>,
    pub ropds_password: Option<String>,
    pub allowed_user_ids: HashSet<u64>,
    pub allow_all_users: bool,
    pub max_book_size: u64,
    pub max_cover_size: u64,
    pub max_feed_size: u64,
    pub max_concurrent_downloads: usize,
    pub request_cooldown_secs: u64,
    pub books_per_page: usize,
    pub books_timeout_secs: u64,
    pub feed_timeout_secs: u64,
    pub cover_timeout_secs: u64,
    pub download_timeout_secs: u64,
    pub redis_url: String,
    pub ready_file: Option<String>,
}

/// A numeric environment variable.
#[derive(Clone, Copy, Debug, PartialEq, Eq, Structural)]
pub enum NumericVar {
    MaxBookSizeMb,
    MaxCoverSizeMb,
    MaxFeedSizeMb,
    MaxConcurrentDownloads,
    RequestCooldownSecs,
    BooksPerPage,
    BooksTimeoutSecs,
    FeedTimeoutSecs,
    CoverTimeoutSecs,
    DownloadTimeoutSecs,
}

/// Why the environment does not describe a usable configuration.
#[derive(Clone, Copy, Debug, PartialEq, Eq, Structural)]
pub enum ConfigError {
    /// `BOT_TOKEN` is not set.
    MissingBotToken,
    /// `ALLOWED_USER_IDS` holds something that is not a user ID.
    InvalidUserId,
    /// `ALLOW_ALL_USERS` is neither true nor false.
    InvalidAllowAll,
    /// `ALLOW_ALL_USERS=false` with no `ALLOWED_USER_IDS`.
    AllowlistRequired,
    /// A numeric variable does not hold a number of its type.
    InvalidNumber(NumericVar),
}

/// The name of the environment variable behind a numeric setting.
pub open spec fn var_name(v: NumericVar) -> Seq<char> {
    match v {
        NumericVar::MaxBookSizeMb => "MAX_BOOK_SIZE_MB"@,
        NumericVar::MaxCoverSizeMb => "MAX_COVER_SIZE_MB"@,
        NumericVar::MaxFeedSizeMb => "MAX_FEED_SIZE_MB"@,
        NumericVar::MaxConcurrentDownloads => "MAX_CONCURRENT_DOWNLOADS"@,
        NumericVar::RequestCooldownSecs => "REQUEST_COOLDOWN_SECS"@,
        NumericVar::BooksPerPage => "BOOKS_PER_PAGE"@,
        NumericVar::BooksTimeoutSecs => "BOOKS_TIMEOUT_SECS"@,
        NumericVar::FeedTimeoutSecs => "FEED_TIMEOUT_SECS"@,
        NumericVar::CoverTimeoutSecs => "COVER_TIMEOUT_SECS"@,
        NumericVar::DownloadTimeoutSecs => "DOWNLOAD_TIMEOUT_SECS"@,
    }
}

impl NumericVar {
    /// The name of the environment variable.
    pub fn env_name(self) -> (r: &'static str)
        ensures
            r@ == var_name(self),
    {
        match self {
            NumericVar::MaxBookSizeMb => "MAX_BOOK_SIZE_MB",
            NumericVar::MaxCoverSizeMb => "MAX_COVER_SIZE_MB",
            NumericVar::MaxFeedSizeMb => "MAX_FEED_SIZE_MB",
            NumericVar::MaxConcurrentDownloads => "MAX_CONCURRENT_DOWNLOADS",
            NumericVar::RequestCooldownSecs => "REQUEST_COOLDOWN_SECS",
            NumericVar::BooksPerPage => "BOOKS_PER_PAGE",
            NumericVar::BooksTimeoutSecs => "BOOKS_TIMEOUT_SECS",
            NumericVar::FeedTimeoutSecs => "FEED_TIMEOUT_SECS",
            NumericVar::CoverTimeoutSecs => "COVER_TIMEOUT_SECS",
            NumericVar::DownloadTimeoutSecs => "DOWNLOAD_TIMEOUT_SECS",
        }
    }
}

/// What an operator is told about a configuration problem.
pub open spec fn error_text(e: ConfigError) -> Seq<char> {
    match e {
        ConfigError::MissingBotToken => "BOT_TOKEN must be set in .env"@,
        ConfigError::InvalidUserId => "ALLOWED_USER_IDS contains an invalid user ID"@,
        ConfigError::InvalidAllowAll => "ALLOW_ALL_USERS must be true or false"@,
        ConfigError::AllowlistRequired => "ALLOWED_USER_IDS must be set when ALLOW_ALL_USERS=false"@,
        ConfigError::InvalidNumber(v) => var_name(v) + " must be a positive integer"@,
    }
}

impl ConfigError {
    /// The message for the operator.
    pub fn message(self) -> (r: String)
        ensures
            r@ == error_text(self),
    {
        match self {
            ConfigError::MissingBotToken => String::from_str("BOT_TOKEN must be set in .env"),
            ConfigError::InvalidUserId => String::from_str(
                "ALLOWED_USER_IDS contains an invalid user ID",
            ),
            ConfigError::InvalidAllowAll => String::from_str("ALLOW_ALL_USERS must be true or false"),
            ConfigError::AllowlistRequired => String::from_str(
                "ALLOWED_USER_IDS must be set when ALLOW_ALL_USERS=false",
            ),
            ConfigError::InvalidNumber(v) => {
                let mut s = String::from_str(v.env_name());
                push_str(&mut s, " must be a positive integer");
                s
            },
        }
    }
}

// ---------------------------------------------------------------------------
// Specifications
// ---------------------------------------------------------------------------

pub struct EnvVarsView {
    pub bot_token: Option<Seq<char>>,
    pub ropds_url: Option<Seq<char>>,
    pub ropds_user: Option<Seq<char>>,
    pub ropds_password: Option<Seq<char>>,
    pub allowed_user_ids: Option<Seq<char>>,
    pub allow_all_users: Option<Seq<char>>,
    pub max_book_size_mb: Option<Seq<char>>,
    pub max_cover_size_mb: Option<Seq<char>>,
    pub max_feed_size_mb: Option<Seq<char>>,
    pub max_concurrent_downloads: Option<Seq<char>>,
    pub request_cooldown_secs: Option<Seq<char>>,
    pub books_per_page: Option<Seq<char>>,
    pub books_timeout_secs: Option<Seq<char>>,
    pub feed_timeout_secs: Option<Seq<char>>,
    pub cover_timeout_secs: Option<Seq<char>>,
    pub download_timeout_secs: Option<Seq<char>>,
    pub redis_url: Option<Seq<char>>,
    pub bot_ready_file: Option<Seq<char>>,
}

impl View for EnvVars {
    type V = EnvVarsView;

    open spec fn view(&self) -> EnvVarsView {
        EnvVarsView {
            bot_token: opt_str_view(self.bot_token),
            ropds_url: opt_str_view(self.ropds_url),
            ropds_user: opt_str_view(self.ropds_user),
            ropds_password: opt_str_view(self.ropds_password),
            allowed_user_ids: opt_str_view(self.allowed_user_ids),
            allow_all_users: opt_str_view(self.allow_all_users),
            max_book_size_mb: opt_str_view(self.max_book_size_mb),
            max_cover_size_mb: opt_str_view(self.max_cover_size_mb),
            max_feed_size_mb: opt_str_view(self.max_feed_size_mb),
            max_concurrent_downloads: opt_str_view(self.max_concurrent_downloads),
            request_cooldown_secs: opt_str_view(self.request_cooldown_secs),
            books_per_page: opt_str_view(self.books_per_page),
            books_timeout_secs: opt_str_view(self.books_timeout_secs),
            feed_timeout_secs: opt_str_view(self.feed_timeout_secs),
            cover_timeout_secs: opt_str_view(self.cover_timeout_secs),
            download_timeout_secs: opt_str_view(self.download_timeout_secs),
            redis_url: opt_str_view(self.redis_url),
            bot_ready_file: opt_str_view(self.bot_ready_file),
        }
    }
}

pub struct ConfigView {
    pub bot_token: Seq<char>,
    pub ropds_url: Seq<char>,
    pub ropds_user: Option<Seq<char>>,
    pub ropds_password: Option<Seq<char>>,
    pub allowed_user_ids: Set<u64>,
    pub allow_all_users: bool,
    pub max_book_size: u64,
    pub max_cover_size: u64,
    pub max_feed_size: u64,
    pub max_concurrent_downloads: usize,
    pub request_cooldown_secs: u64,
    pub books_per_page: usize,
    pub books_timeout_secs: u64,
    pub feed_timeout_secs: u64,
    pub cover_timeout_secs: u64,
    pub download_timeout_secs: u64,
    pub redis_url: Seq<char>,
    pub ready_file: Option<Seq<char>>,
}

impl View for Config {
    type V = ConfigView;

    open spec fn view(&self) -> ConfigView {
        ConfigView {
            bot_token: self.bot_token@,
            ropds_url: self.ropds_url@,
            ropds_user: opt_str_view(self.ropds_user),
            ropds_password: opt_str_view(self.ropds_password),
            allowed_user_ids: self.allowed_user_ids@,
            allow_all_users: self.allow_all_users,
            max_book_size: self.max_book_size,
            max_cover_size: self.max_cover_size,
            max_feed_size: self.max_feed_size,
            max_concurrent_downloads: self.max_concurrent_downloads,
            request_cooldown_secs: self.request_cooldown_secs,
            books_per_page: self.books_per_page,
            books_timeout_secs: self.books_timeout_secs,
            feed_timeout_secs: self.feed_timeout_secs,
            cover_timeout_secs: self.cover_timeout_secs,
            download_timeout_secs: self.download_timeout_secs,
            redis_url: self.redis_url@,
            ready_file: opt_str_view(self.ready_file),
        }
    }
}

/// Megabytes as bytes, saturating at `u64::MAX`.
pub open spec fn bytes_of_mb(mb: u64) -> u64 {
    if mb * 1048576 <= u64::MAX {
        (mb * 1048576) as u64
    } else {
        u64::MAX
    }
}

/// What a boolean flag means: `1`, `true`, `yes` or `0`, `false`, `no`, in
/// any ASCII case and with surrounding white space.
pub open spec fn bool_flag(raw: Seq<char>) -> Option<bool> {
    let v = to_lower_ascii(trim(raw));
    if v == "1"@ || v == "true"@ || v == "yes"@ {
        Some(true)
    } else if v == "0"@ || v == "false"@ || v == "no"@ {
        Some(false)
    } else {
        None
    }
}

/// `s` cut at every `sep` (`str::split`): always at least one piece.
pub open spec fn split_pieces(s: Seq<char>, sep: char) -> Seq<Seq<char>>
    decreases s.len(),
{
    if s.len() == 0 {
        seq![Seq::<char>::empty()]
    } else {
        let rest = split_pieces(s.drop_last(), sep);
        if s.last() == sep {
            rest.push(Seq::<char>::empty())
        } else {
            rest.update(rest.len() - 1, rest.last().push(s.last()))
        }
    }
}

/// The user IDs in a list of pieces: blank pieces are skipped, the others
/// must be `u64` numbers (after trimming); `None` if one is not.
pub open spec fn ids_of_pieces(pieces: Seq<Seq<char>>) -> Option<Set<u64>>
    decreases pieces.len(),
{
    if pieces.len() == 0 {
        Some(Set::empty())
    } else {
        match ids_of_pieces(pieces.drop_last()) {
            None => None,
            Some(ids) => {
                let t = trim(pieces.last());
                if t.len() == 0 {
                    Some(ids)
                } else {
                    match parse_u64(t) {
                        Some(id) => Some(ids.insert(id)),
                        None => None,
                    }
                }
            },
        }
    }
}

/// The user IDs of a comma-separated allowlist.
pub open spec fn allowlist(raw: Seq<char>) -> Option<Set<u64>> {
    ids_of_pieces(split_pieces(raw, ','))
}

/// Whether everyone may use the bot, from `ALLOW_ALL_USERS` and whether the
/// allowlist is empty.
pub open spec fn allow_all(raw: Option<Seq<char>>, no_ids: bool) -> Result<bool, ConfigError> {
    match raw {
        Some(v) => if trim(v).len() == 0 {
            Ok(no_ids)
        } else {
            match bool_flag(v) {
                None => Err(ConfigError::InvalidAllowAll),
                Some(flag) => if !flag && no_ids {
                    Err(ConfigError::AllowlistRequired)
                } else {
                    Ok(flag)
                },
            }
        },
        None => Ok(no_ids),
    }
}

/// A numeric variable: its default when unset or blank, else its trimmed
/// value parsed as a number no larger than `max`.
pub open spec fn number_var(raw: Option<Seq<char>>, default: nat, max: nat) -> Option<nat> {
    match raw {
        Some(v) => if trim(v).len() == 0 {
            Some(default)
        } else {
            parse_unsigned(trim(v), max)
        },
        None => Some(default),
    }
}

/// `s` without trailing `/` characters.
pub open spec fn trim_end_slashes(s: Seq<char>) -> Seq<char>
    decreases s.len(),
{
    if s.len() > 0 && s.last() == '/' {
        trim_end_slashes(s.drop_last())
    } else {
        s
    }
}

/// An optional value that counts only when it is not empty.
pub open spec fn non_empty(o: Option<Seq<char>>) -> Option<Seq<char>> {
    match o {
        Some(s) => if s.len() > 0 {
            Some(s)
        } else {
            None
        },
        None => None,
    }
}

pub open spec fn max1(n: nat) -> nat {
    if n == 0 {
        1
    } else {
        n
    }
}

/// The numeric settings in the order they are read, each with its default
/// and the largest value of its type; the first that does not parse is the
/// error.
pub open spec fn numbers_of(v: EnvVarsView) -> Result<Seq<nat>, ConfigError> {
    let m64 = u64::MAX as nat;
    let mus = usize::MAX as nat;
    match number_var(v.max_book_size_mb, DEFAULT_MAX_BOOK_MB as nat, m64) {
        None => Err(ConfigError::InvalidNumber(NumericVar::MaxBookSizeMb)),
        Some(a) => match number_var(v.max_cover_size_mb, DEFAULT_MAX_COVER_MB as nat, m64) {
            None => Err(ConfigError::InvalidNumber(NumericVar::MaxCoverSizeMb)),
            Some(b) => match number_var(v.max_feed_size_mb, DEFAULT_MAX_FEED_MB as nat, m64) {
                None => Err(ConfigError::InvalidNumber(NumericVar::MaxFeedSizeMb)),
                Some(c) => match number_var(
                    v.max_concurrent_downloads,
                    DEFAULT_CONCURRENT_DOWNLOADS as nat,
                    mus,
                ) {
                    None => Err(ConfigError::InvalidNumber(NumericVar::MaxConcurrentDownloads)),
                    Some(d) => match number_var(
                        v.request_cooldown_secs,
                        DEFAULT_COOLDOWN_SECS as nat,
                        m64,
                    ) {
                        None => Err(ConfigError::InvalidNumber(NumericVar::RequestCooldownSecs)),
                        Some(e) => match number_var(
                            v.books_per_page,
                            DEFAULT_BOOKS_PER_PAGE as nat,
                            mus,
                        ) {
                            None => Err(ConfigError::InvalidNumber(NumericVar::BooksPerPage)),
                            Some(f) => match number_var(
                                v.books_timeout_secs,
                                DEFAULT_BOOKS_TIMEOUT_SECS as nat,
                                m64,
                            ) {
                                None => Err(ConfigError::InvalidNumber(NumericVar::BooksTimeoutSecs)),
                                Some(g) => match number_var(
                                    v.feed_timeout_secs,
                                    DEFAULT_FEED_TIMEOUT_SECS as nat,
                                    m64,
                                ) {
                                    None => Err(
                                        ConfigError::InvalidNumber(NumericVar::FeedTimeoutSecs),
                                    ),
                                    Some(h) => match number_var(
                                        v.cover_timeout_secs,
                                        DEFAULT_COVER_TIMEOUT_SECS as nat,
                                        m64,
                                    ) {
                                        None => Err(
                                            ConfigError::InvalidNumber(NumericVar::CoverTimeoutSecs),
                                        ),
                                        Some(i) => match number_var(
                                            v.download_timeout_secs,
                                            DEFAULT_DOWNLOAD_TIMEOUT_SECS as nat,
                                            m64,
                                        ) {
                                            None => Err(
                                                ConfigError::InvalidNumber(
                                                    NumericVar::DownloadTimeoutSecs,
                                                ),
                                            ),
                                            Some(j) => Ok(seq![a, b, c, d, e, f, g, h, i, j]),
                                        },
                                    },
                                },
                            },
                        },
                    },
                },
            },
        },
    }
}

/// The configuration that the environment describes, or the first problem
/// found: the bot token, then the allowlist, then `ALLOW_ALL_USERS`, then
/// the numeric variables in order.
pub open spec fn configured(v: EnvVarsView) -> Result<ConfigView, ConfigError> {
    match v.bot_token {
        None => Err(ConfigError::MissingBotToken),
        Some(token) => {
            let raw_ids = match v.allowed_user_ids {
                Some(s) => s,
                None => Seq::<char>::empty(),
            };
            match allowlist(raw_ids) {
                None => Err(ConfigError::InvalidUserId),
                Some(ids) => match allow_all(v.allow_all_users, ids.len() == 0) {
                    Err(e) => Err(e),
                    Ok(everyone) => match numbers_of(v) {
                        Err(e) => Err(e),
                        Ok(ns) => Ok(
                            ConfigView {
                                bot_token: token,
                                ropds_url: trim_end_slashes(
                                    match v.ropds_url {
                                        Some(u) => u,
                                        None => "http://localhost:8081"@,
                                    },
                                ),
                                ropds_user: non_empty(v.ropds_user),
                                ropds_password: non_empty(v.ropds_password),
                                allowed_user_ids: ids,
                                allow_all_users: everyone,
                                max_book_size: bytes_of_mb(ns[0] as u64),
                                max_cover_size: bytes_of_mb(ns[1] as u64),
                                max_feed_size: bytes_of_mb(ns[2] as u64),
                                max_concurrent_downloads: max1(ns[3]) as usize,
                                request_cooldown_secs: ns[4] as u64,
                                books_per_page: max1(ns[5]) as usize,
                                books_timeout_secs: ns[6] as u64,
                                feed_timeout_secs: ns[7] as u64,
                                cover_timeout_secs: ns[8] as u64,
                                download_timeout_secs: ns[9] as u64,
                                redis_url: match v.redis_url {
                                    Some(u) => u,
                                    None => "redis://127.0.0.1:6379"@,
                                },
                                ready_file: non_empty(v.bot_ready_file),
                            },
                        ),
                    },
                },
            }
        },
    }
}

/// How a numeric variable is read: unset or blank gives the default;
/// otherwise the trimmed text must be an optional `+` and decimal digits
/// worth at most `max`, and gives that number.
pub proof fn lemma_number_var_reading(raw: Option<Seq<char>>, default: nat, max: nat)
    ensures
        (raw is None || trim(raw->Some_0).len() == 0) ==> number_var(raw, default, max) == Some(
            default,
        ),
        (raw is Some && trim(raw->Some_0).len() > 0) ==> number_var(raw, default, max)
            == parse_unsigned(trim(raw->Some_0), max),
        raw == Some(" 7 "@) ==> number_var(raw, default, max) == (if max >= 7 {
            Some(7nat)
        } else {
            None
        }),
{
    reveal_strlit(" 7 ");
    if raw == Some(" 7 "@) {
        let v = " 7 "@;
        assert(is_space(v[0]));
        assert(!is_space(v[1]));
        assert(v.drop_first() =~= seq!['7', ' ']);
        assert(trim_start(seq!['7', ' ']) == seq!['7', ' ']);
        assert(seq!['7', ' '].drop_last() =~= seq!['7']);
        assert(trim_end(seq!['7']) == seq!['7']);
        assert(trim(v) =~= seq!['7']);
        let d = seq!['7'];
        assert(d.drop_last() =~= Seq::<char>::empty());
        assert(digits_value(d.drop_last()) == 0);
        assert(('7' as u32) == 55);
        assert(digit_value(d.last()) == 7);
        assert(digits_value(d) == 7);
        assert(all_digits(d));
    }
}

proof fn lemma_number_var_bounded(raw: Option<Seq<char>>, default: nat, max: nat)
    requires
        default <= max,
    ensures
        number_var(raw, default, max) matches Some(n) ==> n <= max,
{
}

proof fn lemma_numbers_bounded(v: EnvVarsView)
    requires
        numbers_of(v) is Ok,
    ensures
        numbers_of(v)->Ok_0.len() == 10,
        numbers_of(v)->Ok_0[3] <= usize::MAX,
        numbers_of(v)->Ok_0[5] <= usize::MAX,
{
    let mus = usize::MAX as nat;
    lemma_number_var_bounded(v.max_concurrent_downloads, DEFAULT_CONCURRENT_DOWNLOADS as nat, mus);
    lemma_number_var_bounded(v.books_per_page, DEFAULT_BOOKS_PER_PAGE as nat, mus);
}

/// Each numeric setting of a configuration comes from its own variable: the
/// variable's number (its default when unset or blank), turned from
/// megabytes into bytes for the size limits and raised to at least 1 for the
/// download slots and the page size.
#[verifier::rlimit(60)]
pub proof fn lemma_configured_settings(v: EnvVarsView)
    requires
        configured(v) is Ok,
    ensures
        ({
            let c = configured(v)->Ok_0;
            let m64 = u64::MAX as nat;
            let mus = usize::MAX as nat;
            &&& number_var(v.max_book_size_mb, DEFAULT_MAX_BOOK_MB as nat, m64) matches Some(n)
                && c.max_book_size == bytes_of_mb(n as u64)
            &&& number_var(v.max_cover_size_mb, DEFAULT_MAX_COVER_MB as nat, m64) matches Some(n)
                && c.max_cover_size == bytes_of_mb(n as u64)
            &&& number_var(v.max_feed_size_mb, DEFAULT_MAX_FEED_MB as nat, m64) matches Some(n)
                && c.max_feed_size == bytes_of_mb(n as u64)
            &&& number_var(
                v.max_concurrent_downloads,
                DEFAULT_CONCURRENT_DOWNLOADS as nat,
                mus,
            ) matches Some(n) && c.max_concurrent_downloads as nat == max1(n)
            &&& number_var(v.request_cooldown_secs, DEFAULT_COOLDOWN_SECS as nat, m64) == Some(
                c.request_cooldown_secs as nat,
            )
            &&& number_var(v.books_per_page, DEFAULT_BOOKS_PER_PAGE as nat, mus) matches Some(n)
                && c.books_per_page as nat == max1(n)
            &&& number_var(v.books_timeout_secs, DEFAULT_BOOKS_TIMEOUT_SECS as nat, m64) == Some(
                c.books_timeout_secs as nat,
            )
            &&& number_var(v.feed_timeout_secs, DEFAULT_FEED_TIMEOUT_SECS as nat, m64) == Some(
                c.feed_timeout_secs as nat,
            )
            &&& number_var(v.cover_timeout_secs, DEFAULT_COVER_TIMEOUT_SECS as nat, m64) == Some(
                c.cover_timeout_secs as nat,
            )
            &&& number_var(v.download_timeout_secs, DEFAULT_DOWNLOAD_TIMEOUT_SECS as nat, m64)
                == Some(c.download_timeout_secs as nat)
        }),
{
    let m64 = u64::MAX as nat;
    let mus = usize::MAX as nat;
    lemma_number_var_bounded(v.max_book_size_mb, DEFAULT_MAX_BOOK_MB as nat, m64);
    lemma_number_var_bounded(v.max_cover_size_mb, DEFAULT_MAX_COVER_MB as nat, m64);
    lemma_number_var_bounded(v.max_feed_size_mb, DEFAULT_MAX_FEED_MB as nat, m64);
    lemma_number_var_bounded(v.max_concurrent_downloads, DEFAULT_CONCURRENT_DOWNLOADS as nat, mus);
    lemma_number_var_bounded(v.request_cooldown_secs, DEFAULT_COOLDOWN_SECS as nat, m64);
    lemma_number_var_bounded(v.books_per_page, DEFAULT_BOOKS_PER_PAGE as nat, mus);
    lemma_number_var_bounded(v.books_timeout_secs, DEFAULT_BOOKS_TIMEOUT_SECS as nat, m64);
    lemma_number_var_bounded(v.feed_timeout_secs, DEFAULT_FEED_TIMEOUT_SECS as nat, m64);
    lemma_number_var_bounded(v.cover_timeout_secs, DEFAULT_COVER_TIMEOUT_SECS as nat, m64);
    lemma_number_var_bounded(v.download_timeout_secs, DEFAULT_DOWNLOAD_TIMEOUT_SECS as nat, m64);
    assert(numbers_of(v) is Ok);
    let ns = numbers_of(v)->Ok_0;
    assert(ns[4] <= m64 && ns[6] <= m64 && ns[7] <= m64 && ns[8] <= m64 && ns[9] <= m64);
}

/// A configuration always allows at least one download at a time and shows
/// at least one book per page, and it needs an allowlist unless everyone is
/// let in.
pub proof fn lemma_configured_is_usable(v: EnvVarsView)
    requires
        configured(v) is Ok,
    ensures
        configured(v)->Ok_0.max_concurrent_downloads >= 1,
        configured(v)->Ok_0.books_per_page >= 1,
        configured(v)->Ok_0.allow_all_users || configured(v)->Ok_0.allowed_user_ids.len() > 0,
{
    let token = v.bot_token->Some_0;
    let raw_ids = match v.allowed_user_ids {
        Some(s) => s,
        None => Seq::<char>::empty(),
    };
    let ids = allowlist(raw_ids)->Some_0;
    let everyone = allow_all(v.allow_all_users, ids.len() == 0)->Ok_0;
    assert(everyone || ids.len() > 0);
    lemma_numbers_bounded(v);
    let ns = numbers_of(v)->Ok_0;
    assert(max1(ns[3]) as usize >= 1);
    assert(max1(ns[5]) as usize >= 1);
}

// ---------------------------------------------------------------------------
// Implementation
// ---------------------------------------------------------------------------

/// Megabytes as bytes, saturating at `u64::MAX`.
pub fn mb_to_bytes(mb: u64) -> (r: u64)
    ensures
        r == bytes_of_mb(mb),
{
    match mb.checked_mul(1024 * 1024) {
        Some(b) => b,
        None => u64::MAX,
    }
}

/// Reads a boolean flag (`ALLOW_ALL_USERS`).
pub fn parse_bool_flag(raw: &str) -> (r: Result<bool, ConfigError>)
    ensures
        match r {
            Ok(b) => bool_flag(raw@) == Some(b),
            Err(e) => bool_flag(raw@) is None && e == ConfigError::InvalidAllowAll,
        },
{
    let chars = chars_of(raw);
    let t = trim_chars(&chars);
    let v = lower_ascii_chars(&t);
    if chars_eq_str(&v, "1") || chars_eq_str(&v, "true") || chars_eq_str(&v, "yes") {
        Ok(true)
    } else if chars_eq_str(&v, "0") || chars_eq_str(&v, "false") || chars_eq_str(&v, "no") {
        Ok(false)
    } else {
        Err(ConfigError::InvalidAllowAll)
    }
}

proof fn lemma_split_pieces_len(s: Seq<char>, sep: char)
    ensures
        split_pieces(s, sep).len() >= 1,
    decreases s.len(),
{
    if s.len() > 0 {
        lemma_split_pieces_len(s.drop_last(), sep);
    }
}

/// Reads a comma-separated list of Telegram user IDs (`ALLOWED_USER_IDS`).
pub fn parse_allowlist(raw: &str) -> (r: Result<HashSet<u64>, ConfigError>)
    ensures
        match r {
            Ok(ids) => allowlist(raw@) == Some(ids@),
            Err(e) => allowlist(raw@) is None && e == ConfigError::InvalidUserId,
        },
{
    let chars = chars_of(raw);
    let n = chars.len();
    let mut ids: HashSet<u64> = HashSet::new();
    let mut piece: Vec<char> = Vec::new();
    for i in 0..n
        invariant
            n == chars.len(),
            chars@ == raw@,
            split_pieces(raw@.take(i as int), ',').len() >= 1,
            piece@ == split_pieces(raw@.take(i as int), ',').last(),
            ids_of_pieces(split_pieces(raw@.take(i as int), ',').drop_last()) == Some(ids@),
    {
        let ghost pre = raw@.take(i as int);
        let ghost post = raw@.take(i + 1);
        proof {
            assert(post.drop_last() =~= pre);
            assert(post.last() == chars@[i as int]);
            lemma_split_pieces_len(pre, ',');
        }
        if chars[i] == ',' {
            let t = trim_chars(&piece);
            if t.len() > 0 {
                match parse_unsigned_chars(&t, u64::MAX) {
                    Some(id) => {
                        ids.insert(id);
                    },
                    None => {
                        proof {
                            let ps = split_pieces(post, ',');
                            assert(ps.drop_last() =~= split_pieces(pre, ','));
                            let qs = split_pieces(pre, ',');
                            assert(qs.drop_last().push(qs.last()) =~= qs);
                            lemma_split_prefix(raw@, i + 1);
                            lemma_ids_none_extends(ps.drop_last(), split_pieces(raw@, ','));
                        }
                        return Err(ConfigError::InvalidUserId);
                    },
                }
            }
            proof {
                let ps = split_pieces(post, ',');
                assert(ps.drop_last() =~= split_pieces(pre, ','));
            }
            piece = Vec::new();
            assert(piece@ =~= split_pieces(post, ',').last());
        } else {
            piece.push(chars[i]);
            proof {
                let qs = split_pieces(pre, ',');
                let ps = split_pieces(post, ',');
                assert(ps.drop_last() =~= qs.drop_last());
                assert(piece@ =~= ps.last());
            }
        }
    }
    proof {
        assert(raw@.take(n as int) =~= raw@);
    }
    let t = trim_chars(&piece);
    if t.len() > 0 {
        match parse_unsigned_chars(&t, u64::MAX) {
            Some(id) => {
                ids.insert(id);
            },
            None => {
                return Err(ConfigError::InvalidUserId);
            },
        }
    }
    proof {
        let ps = split_pieces(raw@, ',');
        lemma_split_pieces_len(raw@, ',');
        assert(ps.drop_last().push(ps.last()) =~= ps);
        assert(ps.drop_last() =~= ps.take(ps.len() - 1));
    }
    Ok(ids)
}

/// The pieces completed in a prefix of `s` are the first pieces of `s`.
proof fn lemma_split_prefix(s: Seq<char>, k: int)
    requires
        0 <= k <= s.len(),
    ensures
        split_pieces(s.take(k), ',').len() <= split_pieces(s, ',').len(),
        split_pieces(s, ',').take(split_pieces(s.take(k), ',').len() - 1) == split_pieces(
            s.take(k),
            ',',
        ).drop_last(),
    decreases s.len(),
{
    lemma_split_pieces_len(s.take(k), ',');
    lemma_split_pieces_len(s, ',');
    if k == s.len() {
        assert(s.take(k) =~= s);
        let b = split_pieces(s, ',');
        assert(b.take(b.len() - 1) =~= b.drop_last());
    } else {
        let t = s.drop_last();
        assert(t.take(k) =~= s.take(k));
        lemma_split_prefix(t, k);
        lemma_split_pieces_len(t, ',');
        let a = split_pieces(s.take(k), ',');
        let b0 = split_pieces(t, ',');
        let b = split_pieces(s, ',');
        assert(b.take(a.len() - 1) =~= b0.take(a.len() - 1));
    }
}

/// Once some prefix of the pieces holds an invalid ID, the whole list does.
proof fn lemma_ids_none_extends(prefix: Seq<Seq<char>>, all: Seq<Seq<char>>)
    requires
        ids_of_pieces(prefix) is None,
        prefix.len() <= all.len(),
        all.take(prefix.len() as int) == prefix,
    ensures
        ids_of_pieces(all) is None,
    decreases all.len(),
{
    if all.len() > prefix.len() {
        assert(all.drop_last().take(prefix.len() as int) =~= prefix);
        lemma_ids_none_extends(prefix, all.drop_last());
    } else {
        assert(all =~= prefix);
    }
}

/// A numeric setting read from the value of its variable: the default when
/// the variable is unset or blank, else its trimmed value as a number no
/// larger than `max`; `None` when that value is not such a number.
pub fn env_number(raw: &Option<String>, default: u64, max: u64) -> (r: Option<u64>)
    ensures
        match r {
            Some(n) => number_var(opt_str_view(*raw), default as nat, max as nat) == Some(
                n as nat,
            ),
            None => number_var(opt_str_view(*raw), default as nat, max as nat) is None,
        },
{
    match raw {
        Some(v) => {
            let chars = chars_of(v.as_str());
            let t = trim_chars(&chars);
            if t.len() == 0 {
                Some(default)
            } else {
                parse_unsigned_chars(&t, max)
            }
        },
        None => Some(default),
    }
}

/// Whether everyone may use the bot (`ALLOW_ALL_USERS`, defaulting to
/// whether the allowlist is empty).
pub fn resolve_allow_all(raw: &Option<String>, no_ids: bool) -> (r: Result<bool, ConfigError>)
    ensures
        r == allow_all(opt_str_view(*raw), no_ids),
{
    match raw {
        Some(v) => {
            let chars = chars_of(v.as_str());
            let t = trim_chars(&chars);
            if t.len() == 0 {
                Ok(no_ids)
            } else {
                match parse_bool_flag(v.as_str()) {
                    Err(e) => Err(e),
                    Ok(flag) => if !flag && no_ids {
                        Err(ConfigError::AllowlistRequired)
                    } else {
                        Ok(flag)
                    },
                }
            }
        },
        None => Ok(no_ids),
    }
}

/// `s` without its trailing `/` characters.
fn trim_end_slashes_string(s: &str) -> (r: String)
    ensures
        r@ == trim_end_slashes(s@),
{
    let mut v = chars_of(s);
    while v.len() > 0 && v[v.len() - 1] == '/'
        invariant
            trim_end_slashes(v@) == trim_end_slashes(s@),
        decreases v.len(),
    {
        let ghost before = v@;
        v.pop();
        assert(v@ =~= before.drop_last());
    }
    string_of(&v)
}

/// A copy of an optional value, kept only when it is not empty.
fn non_empty_string(o: &Option<String>) -> (r: Option<String>)
    ensures
        opt_str_view(r) == non_empty(opt_str_view(*o)),
{
    match o {
        Some(s) => if s.as_str().is_empty() {
            None
        } else {
            Some(s.clone())
        },
        None => None,
    }
}

/// A copy of a string value, or `fallback` when it is unset.
fn string_or(o: &Option<String>, fallback: &str) -> (r: String)
    ensures
        r@ == (match opt_str_view(*o) {
            Some(s) => s,
            None => fallback@,
        }),
{
    match o {
        Some(s) => s.clone(),
        None => fallback.to_owned(),
    }
}

/// At least one.
fn at_least_one(n: u64) -> (r: usize)
    requires
        n <= usize::MAX,
    ensures
        r as nat == max1(n as nat),
{
    if n == 0 {
        1
    } else {
        n as usize
    }
}

impl Config {
    /// The configuration that the environment variables describe, or the
    /// first problem with them.
    #[verifier::rlimit(40)]
    pub fn from_env(vars: &EnvVars) -> (r: Result<Config, ConfigError>)
        ensures
            match r {
                Ok(c) => configured(vars@) == Ok::<ConfigView, ConfigError>(c@),
                Err(e) => configured(vars@) == Err::<ConfigView, ConfigError>(e),
            },
    {
        let v = Ghost(vars@);
        let bot_token = match &vars.bot_token {
            Some(t) => t.clone(),
            None => return Err(ConfigError::MissingBotToken),
        };
        let ropds_url = trim_end_slashes_string(
            string_or(&vars.ropds_url, "http://localhost:8081").as_str(),
        );
        let ropds_user = non_empty_string(&vars.ropds_user);
        let ropds_password = non_empty_string(&vars.ropds_password);
        let raw_ids = string_or(&vars.allowed_user_ids, "");
        proof {
            reveal_strlit("");
        }
        let allowed_user_ids = match parse_allowlist(raw_ids.as_str()) {
            Ok(ids) => ids,
            Err(e) => return Err(e),
        };
        let allow_all_users = match resolve_allow_all(
            &vars.allow_all_users,
            allowed_user_ids.len() == 0,
        ) {
            Ok(b) => b,
            Err(e) => return Err(e),
        };
        let m64 = u64::MAX;
        let mus = usize::MAX as u64;
        let a = match env_number(&vars.max_book_size_mb, DEFAULT_MAX_BOOK_MB, m64) {
            Some(n) => n,
            None => return Err(ConfigError::InvalidNumber(NumericVar::MaxBookSizeMb)),
        };
        let b = match env_number(&vars.max_cover_size_mb, DEFAULT_MAX_COVER_MB, m64) {
            Some(n) => n,
            None => return Err(ConfigError::InvalidNumber(NumericVar::MaxCoverSizeMb)),
        };
        let c = match env_number(&vars.max_feed_size_mb, DEFAULT_MAX_FEED_MB, m64) {
            Some(n) => n,
            None => return Err(ConfigError::InvalidNumber(NumericVar::MaxFeedSizeMb)),
        };
        let d = match env_number(
            &vars.max_concurrent_downloads,
            DEFAULT_CONCURRENT_DOWNLOADS as u64,
            mus,
        ) {
            Some(n) => n,
            None => return Err(ConfigError::InvalidNumber(NumericVar::MaxConcurrentDownloads)),
        };
        let e = match env_number(&vars.request_cooldown_secs, DEFAULT_COOLDOWN_SECS, m64) {
            Some(n) => n,
            None => return Err(ConfigError::InvalidNumber(NumericVar::RequestCooldownSecs)),
        };
        let f = match env_number(
            &vars.books_per_page,
            DEFAULT_BOOKS_PER_PAGE as u64,
            mus,
        ) {
            Some(n) => n,
            None => return Err(ConfigError::InvalidNumber(NumericVar::BooksPerPage)),
        };
        let g = match env_number(
            &vars.books_timeout_secs,
            DEFAULT_BOOKS_TIMEOUT_SECS,
            m64,
        ) {
            Some(n) => n,
            None => return Err(ConfigError::InvalidNumber(NumericVar::BooksTimeoutSecs)),
        };
        let h = match env_number(&vars.feed_timeout_secs, DEFAULT_FEED_TIMEOUT_SECS, m64) {
            Some(n) => n,
            None => return Err(ConfigError::InvalidNumber(NumericVar::FeedTimeoutSecs)),
        };
        let i = match env_number(
            &vars.cover_timeout_secs,
            DEFAULT_COVER_TIMEOUT_SECS,
            m64,
        ) {
            Some(n) => n,
            None => return Err(ConfigError::InvalidNumber(NumericVar::CoverTimeoutSecs)),
        };
        let j = match env_number(
            &vars.download_timeout_secs,
            DEFAULT_DOWNLOAD_TIMEOUT_SECS,
            m64,
        ) {
            Some(n) => n,
            None => return Err(ConfigError::InvalidNumber(NumericVar::DownloadTimeoutSecs)),
        };
        let redis_url = string_or(&vars.redis_url, "redis://127.0.0.1:6379");
        let ready_file = non_empty_string(&vars.bot_ready_file);
        let config = Config {
            bot_token,
            ropds_url,
            ropds_user,
            ropds_password,
            allowed_user_ids,
            allow_all_users,
            max_book_size: mb_to_bytes(a),
            max_cover_size: mb_to_bytes(b),
            max_feed_size: mb_to_bytes(c),
            max_concurrent_downloads: at_least_one(d),
            request_cooldown_secs: e,
            books_per_page: at_least_one(f),
            books_timeout_secs: g,
            feed_timeout_secs: h,
            cover_timeout_secs: i,
            download_timeout_secs: j,
            redis_url,
            ready_file,
        };
        proof {
            let ns = seq![
                a as nat,
                b as nat,
                c as nat,
                d as nat,
                e as nat,
                f as nat,
                g as nat,
                h as nat,
                i as nat,
                j as nat,
            ];
            assert(numbers_of(v@) == Ok::<Seq<nat>, ConfigError>(ns));
            assert(configured(v@) == Ok::<ConfigView, ConfigError>(config@));
        }
        Ok(config)
    }
}

// ---------------------------------------------------------------------------
// Diagnostic rendering
// ---------------------------------------------------------------------------

/// A lower-case hexadecimal digit.
pub open spec fn hex_digit(d: nat) -> char {
    if d < 10 {
        ((48 + d) as u32) as char
    } else {
        ((87 + d) as u32) as char
    }
}

/// A number below 256 in lower-case hexadecimal, without leading zeros.
pub open spec fn hex_byte(n: nat) -> Seq<char> {
    if n < 16 {
        seq![hex_digit(n)]
    } else {
        seq![hex_digit(n / 16), hex_digit(n % 16)]
    }
}

/// Whether a character is a C0 or C1 control character (or DEL).
pub open spec fn is_control(c: char) -> bool {
    (c as u32) < 0x20 || (0x7f <= (c as u32) && (c as u32) <= 0x9f)
}

/// A character as it stands inside a quoted string. These are escaped as
/// `Debug` escapes them: `\0`, `\t`, `\r`, `\n`, `\\`, `\"`, other control characters
/// as `\u{..}` in hexadecimal, every other character as it is.
pub open spec fn escaped_char(c: char) -> Seq<char> {
    if c == '\0' {
        seq!['\\', '0']
    } else if c == '\t' {
        seq!['\\', 't']
    } else if c == '\r' {
        seq!['\\', 'r']
    } else if c == '\n' {
        seq!['\\', 'n']
    } else if c == '"' || c == '\\' {
        seq!['\\', c]
    } else if is_control(c) {
        seq!['\\', 'u', '{'] + hex_byte(c as u32 as nat) + seq!['}']
    } else {
        seq![c]
    }
}

fn hex_digit_char(d: u32) -> (r: char)
    requires
        d < 16,
    ensures
        r == hex_digit(d as nat),
{
    let b: u8 = if d < 10 {
        (48 + d) as u8
    } else {
        (87 + d) as u8
    };
    b as char
}

/// Appends one character of a quoted string, escaped.
fn push_escaped_char(s: &mut String, c: char)
    ensures
        final(s)@ == old(s)@ + escaped_char(c),
{
    let u = c as u32;
    if c == '\0' {
        push_char(s, '\\');
        push_char(s, '0');
    } else if c == '\t' {
        push_char(s, '\\');
        push_char(s, 't');
    } else if c == '\r' {
        push_char(s, '\\');
        push_char(s, 'r');
    } else if c == '\n' {
        push_char(s, '\\');
        push_char(s, 'n');
    } else if c == '"' || c == '\\' {
        push_char(s, '\\');
        push_char(s, c);
    } else if u < 0x20 || (0x7f <= u && u <= 0x9f) {
        push_char(s, '\\');
        push_char(s, 'u');
        push_char(s, '{');
        if u >= 16 {
            let h = hex_digit_char(u / 16);
            push_char(s, h);
        }
        let l = hex_digit_char(u % 16);
        push_char(s, l);
        push_char(s, '}');
    } else {
        push_char(s, c);
    }
    assert(s@ =~= old(s)@ + escaped_char(c));
}

/// `s` with its characters escaped as in a quoted string.
pub open spec fn escaped(s: Seq<char>) -> Seq<char>
    decreases s.len(),
{
    if s.len() == 0 {
        s
    } else {
        escaped(s.drop_last()) + escaped_char(s.last())
    }
}

/// `s` in double quotes.
pub open spec fn quoted(s: Seq<char>) -> Seq<char> {
    seq!['"'] + escaped(s) + seq!['"']
}

/// An optional string: `Some("...")` or `None`.
pub open spec fn optional_quoted(o: Option<Seq<char>>) -> Seq<char> {
    match o {
        Some(s) => "Some("@ + quoted(s) + ")"@,
        None => "None"@,
    }
}

/// A secret: only whether it is set shows.
pub open spec fn masked(o: Option<Seq<char>>) -> Seq<char> {
    match o {
        Some(_) => "Some(\"***\")"@,
        None => "None"@,
    }
}

pub open spec fn flag_text(b: bool) -> Seq<char> {
    if b {
        "true"@
    } else {
        "false"@
    }
}

/// A number of seconds, as `Duration` prints a whole number of them.
pub open spec fn seconds_text(n: u64) -> Seq<char> {
    decimal(n as nat) + "s"@
}

/// The text that describes a configuration in logs. The bot token is left
/// out, the password is masked, and the allowlist shows only its size.
pub open spec fn config_text(c: ConfigView) -> Seq<char> {
    "Config { ropds_url: "@ + quoted(c.ropds_url) + ", ropds_user: "@ + optional_quoted(
        c.ropds_user,
    ) + ", ropds_password: "@ + masked(c.ropds_password) + ", allowed_user_ids: "@ + decimal(
        c.allowed_user_ids.len(),
    ) + ", allow_all_users: "@ + flag_text(c.allow_all_users) + ", max_book_size: "@ + decimal(
        c.max_book_size as nat,
    ) + ", max_cover_size: "@ + decimal(c.max_cover_size as nat) + ", max_feed_size: "@
        + decimal(c.max_feed_size as nat) + ", max_concurrent_downloads: "@ + decimal(
        c.max_concurrent_downloads as nat,
    ) + ", request_cooldown: "@ + seconds_text(c.request_cooldown_secs) + ", books_per_page: "@
        + decimal(c.books_per_page as nat) + ", books_timeout: "@ + seconds_text(
        c.books_timeout_secs,
    ) + ", feed_timeout: "@ + seconds_text(c.feed_timeout_secs) + ", cover_timeout: "@
        + seconds_text(c.cover_timeout_secs) + ", download_timeout: "@ + seconds_text(
        c.download_timeout_secs,
    ) + ", redis_url: "@ + quoted(c.redis_url) + ", ready_file: "@ + optional_quoted(
        c.ready_file,
    ) + ", .. }"@
}

/// Appends `t` in double quotes, escaped as `Debug` escapes a string.
fn push_quoted(s: &mut String, t: &str)
    ensures
        final(s)@ == old(s)@ + quoted(t@),
{
    let chars = chars_of(t);
    let n = chars.len();
    push_char(s, '"');
    let ghost start = s@;
    for k in 0..n
        invariant
            n == chars.len(),
            chars@ == t@,
            s@ == start + escaped(t@.take(k as int)),
    {
        let c = chars[k];
        proof {
            assert(t@.take(k + 1).drop_last() =~= t@.take(k as int));
        }
        push_escaped_char(s, c);
        assert(s@ =~= start + escaped(t@.take(k + 1)));
    }
    assert(t@.take(n as int) =~= t@);
    push_char(s, '"');
    assert(s@ =~= old(s)@ + quoted(t@));
}

/// Appends an optional string as `Some("...")` or `None`.
fn push_optional_quoted(s: &mut String, o: &Option<String>)
    ensures
        final(s)@ == old(s)@ + optional_quoted(opt_str_view(*o)),
{
    match o {
        Some(t) => {
            push_str(s, "Some(");
            push_quoted(s, t.as_str());
            push_str(s, ")");
        },
        None => push_str(s, "None"),
    }
}

/// Appends a number of seconds followed by `s`.
fn push_seconds(s: &mut String, n: u64)
    ensures
        final(s)@ == old(s)@ + seconds_text(n),
{
    push_decimal(s, n);
    push_str(s, "s");
}

impl Config {
    /// Whether the library is reached over plain HTTP, which deserves a
    /// warning when it is reachable over a network.
    pub fn uses_plain_http(&self) -> (r: bool)
        ensures
            r == crate::text::starts_with(self.ropds_url@, "http://"@),
    {
        let chars = chars_of(self.ropds_url.as_str());
        let prefix = chars_of("http://");
        crate::text::starts_with_chars(&chars, &prefix)
    }
}

impl Config {
    /// The text that describes this configuration in logs, without its
    /// secrets: the bot token is left out and the password shows as `***`.
    #[verifier::rlimit(40)]
    pub fn debug_text(&self) -> (r: String)
        ensures
            r@ == config_text(self@),
    {
        let mut s = String::new();
        push_str(&mut s, "Config { ropds_url: ");
        push_quoted(&mut s, self.ropds_url.as_str());
        push_str(&mut s, ", ropds_user: ");
        push_optional_quoted(&mut s, &self.ropds_user);
        push_str(&mut s, ", ropds_password: ");
        match &self.ropds_password {
            Some(_) => push_str(&mut s, "Some(\"***\")"),
            None => push_str(&mut s, "None"),
        }
        push_str(&mut s, ", allowed_user_ids: ");
        push_decimal(&mut s, self.allowed_user_ids.len() as u64);
        push_str(&mut s, ", allow_all_users: ");
        if self.allow_all_users {
            push_str(&mut s, "true");
        } else {
            push_str(&mut s, "false");
        }
        push_str(&mut s, ", max_book_size: ");
        push_decimal(&mut s, self.max_book_size);
        push_str(&mut s, ", max_cover_size: ");
        push_decimal(&mut s, self.max_cover_size);
        push_str(&mut s, ", max_feed_size: ");
        push_decimal(&mut s, self.max_feed_size);
        push_str(&mut s, ", max_concurrent_downloads: ");
        push_decimal(&mut s, self.max_concurrent_downloads as u64);
        push_str(&mut s, ", request_cooldown: ");
        push_seconds(&mut s, self.request_cooldown_secs);
        push_str(&mut s, ", books_per_page: ");
        push_decimal(&mut s, self.books_per_page as u64);
        push_str(&mut s, ", books_timeout: ");
        push_seconds(&mut s, self.books_timeout_secs);
        push_str(&mut s, ", feed_timeout: ");
        push_seconds(&mut s, self.feed_timeout_secs);
        push_str(&mut s, ", cover_timeout: ");
        push_seconds(&mut s, self.cover_timeout_secs);
        push_str(&mut s, ", download_timeout: ");
        push_seconds(&mut s, self.download_timeout_secs);
        push_str(&mut s, ", redis_url: ");
        push_quoted(&mut s, self.redis_url.as_str());
        push_str(&mut s, ", ready_file: ");
        push_optional_quoted(&mut s, &self.ready_file);
        push_str(&mut s, ", .. }");
        s
    }
}

/// The log text of a configuration does not depend on its secrets: two
/// configurations that differ only in their bot token and in the value of
/// their password (both set or both unset) are described by the same text.
pub proof fn lemma_config_text_hides_secrets(a: ConfigView, b: ConfigView)
    requires
        a.ropds_url == b.ropds_url,
        a.ropds_user == b.ropds_user,
        a.ropds_password is Some <==> b.ropds_password is Some,
        a.allowed_user_ids.len() == b.allowed_user_ids.len(),
        a.allow_all_users == b.allow_all_users,
        a.max_book_size == b.max_book_size,
        a.max_cover_size == b.max_cover_size,
        a.max_feed_size == b.max_feed_size,
        a.max_concurrent_downloads == b.max_concurrent_downloads,
        a.request_cooldown_secs == b.request_cooldown_secs,
        a.books_per_page == b.books_per_page,
        a.books_timeout_secs == b.books_timeout_secs,
        a.feed_timeout_secs == b.feed_timeout_secs,
        a.cover_timeout_secs == b.cover_timeout_secs,
        a.download_timeout_secs == b.download_timeout_secs,
        a.redis_url == b.redis_url,
        a.ready_file == b.ready_file,
    ensures
        config_text(a) == config_text(b),
{
}

} // verus!
