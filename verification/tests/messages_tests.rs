use ropds_bot::messages::{
    book_card_text, callback_data, download_failure_text, escape_md, more_label,
    parse_callback_data, progress_message, searching_message, thumbnail_fits,
    truncate_button_label, CallbackKind, CallbackRequest, Notice, TELEGRAM_BUTTON_TEXT_LIMIT,
};
use ropds_bot::ropds::Book;

#[test]
fn searching_message_escapes_markdown_dots() {
    assert_eq!(searching_message("Дюна"), "🔍 Ищу: *Дюна*\\.\\.\\.");
    assert_eq!(searching_message("A.B"), "🔍 Ищу: *A\\.B*\\.\\.\\.");
}

#[test]
fn truncates_telegram_button_labels() {
    let long = "а".repeat(80);
    let label = truncate_button_label(&long);
    assert_eq!(label.chars().count(), TELEGRAM_BUTTON_TEXT_LIMIT);
    assert!(label.ends_with('…'));
    assert_eq!(truncate_button_label("Дюна"), "Дюна");
}

#[test]
fn button_label_of_exactly_the_limit_is_kept() {
    let exact = "б".repeat(TELEGRAM_BUTTON_TEXT_LIMIT);
    assert_eq!(truncate_button_label(&exact), exact);
    let over = "б".repeat(TELEGRAM_BUTTON_TEXT_LIMIT + 1);
    let label = truncate_button_label(&over);
    assert_eq!(label, format!("{}…", "б".repeat(TELEGRAM_BUTTON_TEXT_LIMIT - 1)));
}

#[test]
fn escapes_every_markdown_special_character() {
    assert_eq!(escape_md("_*[]()~`>#+-=|{}.!"), "\\_\\*\\[\\]\\(\\)\\~\\`\\>\\#\\+\\-\\=\\|\\{\\}\\.\\!");
    assert_eq!(escape_md("plain text"), "plain text");
    assert_eq!(escape_md("a\\b"), "a\\b");
    assert_eq!(escape_md(""), "");
}

#[test]
fn escaping_then_unescaping_gives_the_text_back() {
    let text = "C++ (3rd ed.) \\ a_b!";
    let escaped = escape_md(text);
    let mut unescaped = String::new();
    let chars: Vec<char> = escaped.chars().collect();
    let mut i = 0;
    while i < chars.len() {
        if chars[i] == '\\' && i + 1 < chars.len() && "_*[]()~`>#+-=|{}.!".contains(chars[i + 1]) {
            unescaped.push(chars[i + 1]);
            i += 2;
        } else {
            unescaped.push(chars[i]);
            i += 1;
        }
    }
    assert_eq!(unescaped, text);
}

#[test]
fn callback_data_reads_back() {
    assert_eq!(callback_data(CallbackKind::Download, 42), "dl:42");
    assert_eq!(callback_data(CallbackKind::Nav, 7), "nav:7");
    assert_eq!(callback_data(CallbackKind::More, 0), "more:0");
    assert_eq!(parse_callback_data("dl:42"), CallbackRequest::Download(Some(42)));
    assert_eq!(parse_callback_data("nav:7"), CallbackRequest::Nav(Some(7)));
    assert_eq!(parse_callback_data("more:0"), CallbackRequest::More(Some(0)));
    let max = callback_data(CallbackKind::Download, u64::MAX);
    assert_eq!(parse_callback_data(&max), CallbackRequest::Download(Some(u64::MAX)));
}

#[test]
fn malformed_callback_data() {
    assert_eq!(parse_callback_data("dl:abc"), CallbackRequest::Download(None));
    assert_eq!(parse_callback_data("more:"), CallbackRequest::More(None));
    assert_eq!(parse_callback_data("nav:18446744073709551616"), CallbackRequest::Nav(None));
    assert_eq!(parse_callback_data("other"), CallbackRequest::Unknown);
    assert_eq!(parse_callback_data(""), CallbackRequest::Unknown);
}

#[test]
fn book_card_and_failure_texts() {
    let book = Book {
        title: "Дюна".to_string(),
        author: "Ф. Герберт".to_string(),
        url: "http://x/1".to_string(),
        cover_url: None,
    };
    assert_eq!(
        book_card_text(&book),
        "📚 *Дюна*\n👤 *Автор:* Ф\\. Герберт\n\nНажмите кнопку ниже, чтобы скачать\\."
    );
    assert_eq!(
        download_failure_text(Some(60 * 1024 * 1024 + 5), "http://x/a.b"),
        "⚠️ Файл слишком большой (60 МБ)\\.\nСсылка:\nhttp://x/a\\.b"
    );
    assert_eq!(download_failure_text(None, "http://x"), "❌ Не удалось скачать файл\\.");
}

#[test]
fn progress_texts() {
    assert_eq!(progress_message(5, 12), "Показано 5 из 12. Нажмите, чтобы увидеть ещё.");
    assert_eq!(more_label(7), "📄 Показать ещё (7)");
    assert!(thumbnail_fits(204799));
    assert!(!thumbnail_fits(204800));
}

#[test]
fn notices() {
    assert_eq!(Notice::AccessDenied.text(), "Доступ запрещен.");
    assert!(Notice::NothingFound.is_markdown());
    assert!(!Notice::LinkExpired.is_markdown());
}
