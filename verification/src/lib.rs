//! Verified core of a Telegram front end for an OPDS 2.0 e-book library.
//!
//! - `text`: character-level string helpers and their specifications.
//! - `names`: file names, log excerpts and media types of downloaded books.
//! - `config`: the settings computed from the environment variables.
//! - `links`: URLs, percent-encoding and Base64 (outside crates, trusted).
//! - `ropds`: the library's feeds, books and navigation entries, and which
//!   URLs may receive the library's credentials.
//! - `transfer`: redirects and size limits while fetching feeds and files.
//! - `caches`: the concurrent maps behind the bot's buttons (trusted).
//! - `messages`: texts shown to users and the data of inline buttons.
//! - `bot`: what a command or a pressed button leads to.
//! - `state`: keys and lifetime of the records kept in Redis.
pub mod text;
pub mod names;
pub mod config;
pub mod ropds;
pub mod links;
pub mod transfer;
pub mod caches;
pub mod messages;
pub mod bot;
pub mod state;
