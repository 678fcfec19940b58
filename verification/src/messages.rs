//! Texts shown to Telegram users and the data carried by inline buttons.
use vstd::prelude::*;
use crate::ropds::{Book, DownloadContext};
use crate::text::{
    chars_of, decimal, lemma_parse_decimal, parse_u64, parse_unsigned_chars,
    push_char, push_chars, push_decimal, push_str, strip_prefix, strip_prefix_chars, take_chars,
    starts_with,
};

verus! {

/// Longest label, in characters, of an inline button.
pub const TELEGRAM_BUTTON_TEXT_LIMIT: usize = 64;

/// Largest cover, in bytes, sent along as a document thumbnail.
pub const THUMBNAIL_LIMIT: usize = 204800;

// ---------------------------------------------------------------------------
// MarkdownV2
// ---------------------------------------------------------------------------

/// Characters that Telegram's MarkdownV2 requires to be escaped.
pub open spec fn is_markdown_special(c: char) -> bool {
    c == '_' || c == '*' || c == '[' || c == ']' || c == '(' || c == ')' || c == '~' || c == '`'
        || c == '>' || c == '#' || c == '+' || c == '-' || c == '=' || c == '|' || c == '{' || c
        == '}' || c == '.' || c == '!'
}

/// `s` with a backslash before every MarkdownV2 special character.
pub open spec fn escape_markdown(s: Seq<char>) -> Seq<char>
    decreases s.len(),
{
    if s.len() == 0 {
        Seq::empty()
    } else {
        escape_markdown(s.drop_last()) + if is_markdown_special(s.last()) {
            seq!['\\', s.last()]
        } else {
            seq![s.last()]
        }
    }
}

/// Escapes text for a MarkdownV2 message.
pub fn escape_md(s: &str) -> (r: String)
    ensures
        r@ == escape_markdown(s@),
{
    let chars = chars_of(s);
    let n = chars.len();
    let mut out = String::new();
    for i in 0..n
        invariant
            n == chars.len(),
            chars@ == s@,
            out@ == escape_markdown(s@.take(i as int)),
    {
        let c = chars[i];
        proof {
            assert(s@.take(i + 1).drop_last() =~= s@.take(i as int));
            assert(s@.take(i + 1).last() == c);
        }
        if c == '_' || c == '*' || c == '[' || c == ']' || c == '(' || c == ')' || c == '~' || c
            == '`' || c == '>' || c == '#' || c == '+' || c == '-' || c == '=' || c == '|' || c
            == '{' || c == '}' || c == '.' || c == '!' {
            push_char(&mut out, '\\');
        }
        push_char(&mut out, c);
        proof {
            if is_markdown_special(c) {
                assert(out@ =~= escape_markdown(s@.take(i as int)) + seq!['\\', c]);
            } else {
                assert(out@ =~= escape_markdown(s@.take(i as int)) + seq![c]);
            }
        }
    }
    proof {
        assert(s@.take(n as int) =~= s@);
    }
    out
}

/// MarkdownV2 text as it displays: a backslash in front of a special
/// character is dropped.
pub open spec fn unescape_markdown(s: Seq<char>) -> Seq<char>
    decreases s.len(),
{
    if s.len() == 0 {
        Seq::empty()
    } else if s.len() >= 2 && s[0] == '\\' && is_markdown_special(s[1]) {
        seq![s[1]] + unescape_markdown(s.skip(2))
    } else {
        seq![s[0]] + unescape_markdown(s.drop_first())
    }
}

/// Escaping a concatenation escapes each part.
proof fn lemma_escape_concat(a: Seq<char>, b: Seq<char>)
    ensures
        escape_markdown(a + b) == escape_markdown(a) + escape_markdown(b),
    decreases b.len(),
{
    if b.len() == 0 {
        assert(a + b =~= a);
        assert(escape_markdown(a) + escape_markdown(b) =~= escape_markdown(a));
    } else {
        assert((a + b).drop_last() =~= a + b.drop_last());
        assert((a + b).last() == b.last());
        lemma_escape_concat(a, b.drop_last());
    }
}

/// Escaped text starts with the first character of the text, or with the
/// backslash in front of it; never with a bare special character.
proof fn lemma_escape_first(s: Seq<char>)
    requires
        s.len() > 0,
    ensures
        escape_markdown(s) == (if is_markdown_special(s[0]) {
            seq!['\\', s[0]]
        } else {
            seq![s[0]]
        }) + escape_markdown(s.drop_first()),
        escape_markdown(s).len() > 0,
        !is_markdown_special(escape_markdown(s)[0]),
{
    let head = seq![s[0]];
    assert(s =~= head + s.drop_first());
    lemma_escape_concat(head, s.drop_first());
    assert(head.drop_last() =~= Seq::<char>::empty());
    assert(escape_markdown(head.drop_last()) =~= Seq::<char>::empty());
}

/// Removing the escapes from escaped text gives the text back: escaping
/// loses nothing of what the user typed.
pub proof fn lemma_unescape_escape(s: Seq<char>)
    ensures
        unescape_markdown(escape_markdown(s)) == s,
    decreases s.len(),
{
    if s.len() == 0 {
        assert(escape_markdown(s) =~= Seq::<char>::empty());
    } else {
        lemma_escape_first(s);
        let rest = s.drop_first();
        let e = escape_markdown(s);
        lemma_unescape_escape(rest);
        if is_markdown_special(s[0]) {
            assert(e.skip(2) =~= escape_markdown(rest));
        } else {
            assert(e.drop_first() =~= escape_markdown(rest));
            if rest.len() > 0 {
                lemma_escape_first(rest);
                assert(e[1] == escape_markdown(rest)[0]);
            }
        }
        assert(s =~= seq![s[0]] + rest);
    }
}

// ---------------------------------------------------------------------------
// Texts
// ---------------------------------------------------------------------------

/// A button label: the title, or its first 63 characters and `…` when it
/// is longer than `TELEGRAM_BUTTON_TEXT_LIMIT` characters.
pub open spec fn button_label(title: Seq<char>) -> Seq<char> {
    if title.len() <= TELEGRAM_BUTTON_TEXT_LIMIT {
        title
    } else {
        title.take(TELEGRAM_BUTTON_TEXT_LIMIT - 1).push('…')
    }
}

/// The label of an inline button for a title.
pub fn truncate_button_label(title: &str) -> (r: String)
    ensures
        r@ == button_label(title@),
{
    let chars = chars_of(title);
    if chars.len() <= TELEGRAM_BUTTON_TEXT_LIMIT {
        return title.to_owned();
    }
    let head = take_chars(&chars, TELEGRAM_BUTTON_TEXT_LIMIT - 1);
    let mut label = String::new();
    push_chars(&mut label, &head);
    push_char(&mut label, '…');
    label
}

/// A button label never exceeds `TELEGRAM_BUTTON_TEXT_LIMIT` characters, and
/// a title that fits is kept as it is.
pub proof fn lemma_button_label_fits(title: Seq<char>)
    ensures
        button_label(title).len() <= TELEGRAM_BUTTON_TEXT_LIMIT,
        title.len() <= TELEGRAM_BUTTON_TEXT_LIMIT ==> button_label(title) == title,
        title.len() > TELEGRAM_BUTTON_TEXT_LIMIT ==> button_label(title).take(
            TELEGRAM_BUTTON_TEXT_LIMIT - 1,
        ) == title.take(TELEGRAM_BUTTON_TEXT_LIMIT - 1),
{
    if title.len() > TELEGRAM_BUTTON_TEXT_LIMIT {
        let l = button_label(title);
        assert(l.take(TELEGRAM_BUTTON_TEXT_LIMIT - 1) =~= title.take(TELEGRAM_BUTTON_TEXT_LIMIT - 1));
    }
}

pub open spec fn searching_text(query: Seq<char>) -> Seq<char> {
    "🔍 Ищу: *"@ + escape_markdown(query) + "*\\.\\.\\."@
}

/// The status shown while a search runs (MarkdownV2).
pub fn searching_message(query: &str) -> (r: String)
    ensures
        r@ == searching_text(query@),
{
    let mut out = String::from_str("🔍 Ищу: *");
    let escaped = escape_md(query);
    push_str(&mut out, escaped.as_str());
    push_str(&mut out, "*\\.\\.\\.");
    out
}

pub open spec fn start_text(descriptions: Seq<char>) -> Seq<char> {
    "📚 *Бот библиотеки ROPDS*\n\n"@ + escape_markdown(descriptions)
        + "\n\nИспользуйте `/search <запрос>` для поиска книг\\."@
}

/// The welcome message, around the list of commands (MarkdownV2).
pub fn start_message(descriptions: &str) -> (r: String)
    ensures
        r@ == start_text(descriptions@),
{
    let mut out = String::from_str("📚 *Бот библиотеки ROPDS*\n\n");
    let escaped = escape_md(descriptions);
    push_str(&mut out, escaped.as_str());
    push_str(&mut out, "\n\nИспользуйте `/search <запрос>` для поиска книг\\.");
    out
}

pub open spec fn card_text(title: Seq<char>, author: Seq<char>) -> Seq<char> {
    "📚 *"@ + escape_markdown(title) + "*\n👤 *Автор:* "@ + escape_markdown(author)
        + "\n\nНажмите кнопку ниже, чтобы скачать\\."@
}

/// The text of a book card (MarkdownV2).
pub fn book_card_text(book: &Book) -> (r: String)
    ensures
        r@ == card_text(book.title@, book.author@),
{
    let mut out = String::from_str("📚 *");
    let title = escape_md(book.title.as_str());
    push_str(&mut out, title.as_str());
    push_str(&mut out, "*\n👤 *Автор:* ");
    let author = escape_md(book.author.as_str());
    push_str(&mut out, author.as_str());
    push_str(&mut out, "\n\nНажмите кнопку ниже, чтобы скачать\\.");
    out
}

pub open spec fn caption_text(title: Seq<char>, author: Seq<char>) -> Seq<char> {
    "📚 *"@ + escape_markdown(title) + "*\n👤 "@ + escape_markdown(author)
}

/// The caption of a sent book (MarkdownV2).
pub fn document_caption(context: &DownloadContext) -> (r: String)
    ensures
        r@ == caption_text(context.title@, context.author@),
{
    let mut out = String::from_str("📚 *");
    let title = escape_md(context.title.as_str());
    push_str(&mut out, title.as_str());
    push_str(&mut out, "*\n👤 ");
    let author = escape_md(context.author.as_str());
    push_str(&mut out, author.as_str());
    out
}

pub open spec fn too_large_text(size: u64, url: Seq<char>) -> Seq<char> {
    "⚠️ Файл слишком большой ("@ + decimal((size / 1024 / 1024) as nat) + " МБ)\\.\nСсылка:\n"@
        + escape_markdown(url)
}

/// What a user is told when a download fails (MarkdownV2): the size in
/// whole megabytes and the link when the file is too large, otherwise that
/// it could not be downloaded.
pub open spec fn failure_text(too_large: Option<u64>, url: Seq<char>) -> Seq<char> {
    match too_large {
        Some(size) => too_large_text(size, url),
        None => "❌ Не удалось скачать файл\\."@,
    }
}

/// The message for a failed download (MarkdownV2).
pub fn download_failure_text(too_large: Option<u64>, url: &str) -> (r: String)
    ensures
        r@ == failure_text(too_large, url@),
{
    match too_large {
        Some(size) => {
            let mut out = String::from_str("⚠️ Файл слишком большой (");
            push_decimal(&mut out, size / 1024 / 1024);
            push_str(&mut out, " МБ)\\.\nСсылка:\n");
            let link = escape_md(url);
            push_str(&mut out, link.as_str());
            out
        },
        None => String::from_str("❌ Не удалось скачать файл\\."),
    }
}

pub open spec fn progress_text(shown: nat, total: nat) -> Seq<char> {
    "Показано "@ + decimal(shown) + " из "@ + decimal(total) + ". Нажмите, чтобы увидеть ещё."@
}

pub open spec fn more_label_text(remaining: nat) -> Seq<char> {
    "📄 Показать ещё ("@ + decimal(remaining) + ")"@
}

/// "Shown `shown` of `total`" below a page of books.
pub fn progress_message(shown: usize, total: usize) -> (r: String)
    ensures
        r@ == progress_text(shown as nat, total as nat),
{
    let mut out = String::from_str("Показано ");
    push_decimal(&mut out, shown as u64);
    push_str(&mut out, " из ");
    push_decimal(&mut out, total as u64);
    push_str(&mut out, ". Нажмите, чтобы увидеть ещё.");
    out
}

/// The label of the button that shows the next page.
pub fn more_label(remaining: usize) -> (r: String)
    ensures
        r@ == more_label_text(remaining as nat),
{
    let mut out = String::from_str("📄 Показать ещё (");
    push_decimal(&mut out, remaining as u64);
    push_str(&mut out, ")");
    out
}

pub open spec fn catalog_title_text(title: Seq<char>) -> Seq<char> {
    "📂 *"@ + title + "* \\(выберите для поиска\\):"@
}

/// Whether a cover is small enough to go along as a thumbnail.
pub fn thumbnail_fits(len: usize) -> (r: bool)
    ensures
        r == (len < THUMBNAIL_LIMIT),
{
    len < THUMBNAIL_LIMIT
}

/// Fixed texts the bot sends.
#[derive(Clone, Copy, Debug, PartialEq, Eq, Structural)]
pub enum Notice {
    AccessDenied,
    TooManyRequests,
    SearchUsage,
    NothingFound,
    RopdsError,
    EmptyList,
    ListError,
    ChooseOption,
    LinkExpired,
    NotYourButton,
    Downloading,
    DownloadUnavailable,
    SendFailed,
}

/// The words of each fixed text.
pub open spec fn notice_words(n: Notice) -> Seq<char> {
    match n {
        Notice::AccessDenied => "Доступ запрещен."@,
        Notice::TooManyRequests => "Слишком много запросов. Попробуйте позже."@,
        Notice::SearchUsage => "⚠️ Укажите запрос\\. Пример: `/search Дюна`"@,
        Notice::NothingFound => "😔 Ничего не найдено\\."@,
        Notice::RopdsError => "❌ Ошибка при обращении к ROPDS\\."@,
        Notice::EmptyList => "😔 Список пуст\\."@,
        Notice::ListError => "❌ Ошибка при получении списка\\."@,
        Notice::ChooseOption => "📂 Выберите вариант:"@,
        Notice::LinkExpired => "⌛ Ссылка устарела."@,
        Notice::NotYourButton => "Эта кнопка предназначена для другого пользователя."@,
        Notice::Downloading => "⏳ Загружаю книгу..."@,
        Notice::DownloadUnavailable => "❌ Загрузка временно недоступна."@,
        Notice::SendFailed => "❌ Ошибка при отправке файла."@,
    }
}

/// Whether a fixed text is written in MarkdownV2.
pub open spec fn notice_is_markdown(n: Notice) -> bool {
    match n {
        Notice::SearchUsage | Notice::NothingFound | Notice::RopdsError | Notice::EmptyList
        | Notice::ListError => true,
        _ => false,
    }
}

impl Notice {
    /// The text.
    pub fn text(self) -> (r: &'static str)
        ensures
            r@ == notice_words(self),
    {
        match self {
            Notice::AccessDenied => "Доступ запрещен.",
            Notice::TooManyRequests => "Слишком много запросов. Попробуйте позже.",
            Notice::SearchUsage => "⚠️ Укажите запрос\\. Пример: `/search Дюна`",
            Notice::NothingFound => "😔 Ничего не найдено\\.",
            Notice::RopdsError => "❌ Ошибка при обращении к ROPDS\\.",
            Notice::EmptyList => "😔 Список пуст\\.",
            Notice::ListError => "❌ Ошибка при получении списка\\.",
            Notice::ChooseOption => "📂 Выберите вариант:",
            Notice::LinkExpired => "⌛ Ссылка устарела.",
            Notice::NotYourButton => "Эта кнопка предназначена для другого пользователя.",
            Notice::Downloading => "⏳ Загружаю книгу...",
            Notice::DownloadUnavailable => "❌ Загрузка временно недоступна.",
            Notice::SendFailed => "❌ Ошибка при отправке файла.",
        }
    }

    /// Whether the text is written in MarkdownV2.
    pub fn is_markdown(self) -> (r: bool)
        ensures
            r == notice_is_markdown(self),
    {
        match self {
            Notice::SearchUsage | Notice::NothingFound | Notice::RopdsError | Notice::EmptyList
            | Notice::ListError => true,
            _ => false,
        }
    }
}

// ---------------------------------------------------------------------------
// Button data
// ---------------------------------------------------------------------------

/// What an inline button asks for.
#[derive(Clone, Copy, Debug, PartialEq, Eq, Structural)]
pub enum CallbackKind {
    /// The next page of results.
    More,
    /// A navigation target.
    Nav,
    /// A download.
    Download,
}

pub open spec fn callback_prefix(kind: CallbackKind) -> Seq<char> {
    match kind {
        CallbackKind::More => "more:"@,
        CallbackKind::Nav => "nav:"@,
        CallbackKind::Download => "dl:"@,
    }
}

/// The data of a button: its kind and the ID of the entry it refers to.
pub open spec fn callback_text(kind: CallbackKind, id: u64) -> Seq<char> {
    callback_prefix(kind) + decimal(id as nat)
}

/// The data carried by a button.
pub fn callback_data(kind: CallbackKind, id: u64) -> (r: String)
    ensures
        r@ == callback_text(kind, id),
{
    let mut out = match kind {
        CallbackKind::More => String::from_str("more:"),
        CallbackKind::Nav => String::from_str("nav:"),
        CallbackKind::Download => String::from_str("dl:"),
    };
    push_decimal(&mut out, id);
    out
}

/// What the data of a pressed button asks for; the ID is `None` when the
/// rest of the data is not a number.
#[derive(Clone, Copy, Debug, PartialEq, Eq, Structural)]
pub enum CallbackRequest {
    More(Option<u64>),
    Nav(Option<u64>),
    Download(Option<u64>),
    Unknown,
}

/// How button data is read: `more:`, `nav:` or `dl:` followed by an ID.
pub open spec fn callback_request(data: Seq<char>) -> CallbackRequest {
    match strip_prefix(data, "more:"@) {
        Some(rest) => CallbackRequest::More(parse_u64(rest)),
        None => match strip_prefix(data, "nav:"@) {
            Some(rest) => CallbackRequest::Nav(parse_u64(rest)),
            None => match strip_prefix(data, "dl:"@) {
                Some(rest) => CallbackRequest::Download(parse_u64(rest)),
                None => CallbackRequest::Unknown,
            },
        },
    }
}

fn parse_id(rest: &Vec<char>) -> (r: Option<u64>)
    ensures
        r == parse_u64(rest@),
{
    match parse_unsigned_chars(rest, u64::MAX) {
        Some(n) => Some(n),
        None => None,
    }
}

/// Reads the data of a pressed button.
pub fn parse_callback_data(data: &str) -> (r: CallbackRequest)
    ensures
        r == callback_request(data@),
{
    let chars = chars_of(data);
    match strip_prefix_chars(&chars, "more:") {
        Some(rest) => CallbackRequest::More(parse_id(&rest)),
        None => match strip_prefix_chars(&chars, "nav:") {
            Some(rest) => CallbackRequest::Nav(parse_id(&rest)),
            None => match strip_prefix_chars(&chars, "dl:") {
                Some(rest) => CallbackRequest::Download(parse_id(&rest)),
                None => CallbackRequest::Unknown,
            },
        },
    }
}

/// The request a button's data reads back as.
pub open spec fn request_of(kind: CallbackKind, id: u64) -> CallbackRequest {
    match kind {
        CallbackKind::More => CallbackRequest::More(Some(id)),
        CallbackKind::Nav => CallbackRequest::Nav(Some(id)),
        CallbackKind::Download => CallbackRequest::Download(Some(id)),
    }
}

/// Reading the data of a button gives back its kind and ID.
pub proof fn lemma_callback_round_trip(kind: CallbackKind, id: u64)
    ensures
        callback_request(callback_text(kind, id)) == request_of(kind, id),
{
    reveal_strlit("more:");
    reveal_strlit("nav:");
    reveal_strlit("dl:");
    let d = decimal(id as nat);
    let t = callback_text(kind, id);
    lemma_parse_decimal(id);
    let p = callback_prefix(kind);
    assert(t.take(p.len() as int) =~= p);
    assert(t.skip(p.len() as int) =~= d);
    match kind {
        CallbackKind::More => {},
        CallbackKind::Nav => {
            assert(t[0] == 'n');
            assert(!starts_with(t, "more:"@)) by {
                assert(t.take(5)[0] != "more:"@[0]);
            }
        },
        CallbackKind::Download => {
            assert(t[0] == 'd');
            assert(!starts_with(t, "more:"@)) by {
                if t.len() >= 5 {
                    assert(t.take(5)[0] != "more:"@[0]);
                }
            }
            assert(!starts_with(t, "nav:"@)) by {
                if t.len() >= 4 {
                    assert(t.take(4)[0] != "nav:"@[0]);
                }
            }
        },
    }
}

} // verus!
