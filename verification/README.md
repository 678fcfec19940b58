# ropds_bot

A Telegram bot that searches and browses an OPDS 2.0 e-book library (ROPDS)
and sends books to the users who ask for them.

- `src/` is the library, verified with Verus: settings, the OPDS feed model,
  the rules on which URLs may receive the library's credentials, redirect and
  size limits, file names, message texts, button data, and the bot's decisions
  (who may use it, the rate limit, what each command or button leads to, and
  the entries remembered behind the buttons). Calls into `url` (through
  `reqwest`), `urlencoding`, `base64` and `dashmap` stand behind trusted
  wrappers whose doc comments say what is assumed of them.
- `app/` is the program around it: reading the environment, HTTP requests to
  the library, JSON parsing, Redis, and the Telegram API with `teloxide`.
- `tests/` exercises the library on concrete values.

Configuration is read from the environment (or a `.env` file): `BOT_TOKEN`,
`ROPDS_URL`, `ROPDS_USER`, `ROPDS_PASSWORD`, `ALLOWED_USER_IDS`,
`ALLOW_ALL_USERS`, `MAX_BOOK_SIZE_MB`, `MAX_COVER_SIZE_MB`, `MAX_FEED_SIZE_MB`,
`MAX_CONCURRENT_DOWNLOADS`, `REQUEST_COOLDOWN_SECS`, `BOOKS_PER_PAGE`,
`BOOKS_TIMEOUT_SECS`, `FEED_TIMEOUT_SECS`, `COVER_TIMEOUT_SECS`,
`DOWNLOAD_TIMEOUT_SECS`, `REDIS_URL`, `BOT_READY_FILE`.
