use std::collections::HashSet;

use ropds_bot::bot::{
    is_valid_query, BookResults, BotCore, CallbackAction, Catalog, Cmd, CommandAction,
    MIN_QUERY_CHARS,
};
use ropds_bot::messages::{callback_data, CallbackKind};
use ropds_bot::ropds::{Book, DownloadContext, NavItem};
use ropds_bot::state::{ENTRY_TTL_MS, STATE_TTL_SECS};

fn bot(cooldown_secs: u64, per_page: usize) -> BotCore {
    BotCore::new(HashSet::from([1, 2]), false, cooldown_secs, per_page)
}

fn context(title: &str) -> DownloadContext {
    DownloadContext {
        url: format!("http://lib/{title}"),
        title: title.to_string(),
        author: "A".to_string(),
        cover_url: None,
    }
}

fn books(n: usize) -> Vec<Book> {
    (0..n)
        .map(|i| Book {
            title: format!("B{i}"),
            author: "A".to_string(),
            url: format!("http://lib/{i}"),
            cover_url: None,
        })
        .collect()
}

#[test]
fn offered_download_is_claimed_once_by_its_owner() {
    let mut c = bot(0, 5);
    let id = c.offer_download(1, context("Дюна"), 5);
    assert_eq!(id, 1);
    let data = callback_data(CallbackKind::Download, id);

    assert!(matches!(c.on_callback(2, Some(data.clone()), 10), CallbackAction::NotYours));
    match c.on_callback(1, Some(data.clone()), 11) {
        CallbackAction::Download { context } => assert_eq!(context.title, "Дюна"),
        _ => panic!("owner should get the book"),
    }
    assert!(matches!(c.on_callback(1, Some(data.clone()), 12), CallbackAction::Expired));
    assert!(matches!(c.on_callback(3, Some(data), 13), CallbackAction::Denied));
}

#[test]
fn ids_are_consecutive() {
    let mut c = bot(0, 5);
    assert_eq!(c.offer_download(1, context("a"), 0), 1);
    assert_eq!(c.offer_navigation(1, "/x/".to_string(), 0), 2);
    assert_eq!(c.offer_results(1, books(3), 1, 0), 3);
    assert_eq!(c.offer_download(2, context("b"), 0), 4);
}

#[test]
fn cooldown_throttles_requests() {
    let mut c = bot(2, 5);
    assert!(matches!(c.on_command(Some(1), Cmd::Recent, 1000), CommandAction::Recent));
    assert!(matches!(c.on_command(Some(1), Cmd::Recent, 2999), CommandAction::Throttled));
    assert!(matches!(c.on_command(Some(2), Cmd::Recent, 2999), CommandAction::Recent));
    assert!(matches!(c.on_command(Some(1), Cmd::Recent, 3000), CommandAction::Recent));
    assert!(!c.allow_request(1, 3500));
    assert!(c.allow_request(1, 5000));
}

#[test]
fn commands() {
    let mut c = bot(0, 5);
    assert!(matches!(c.on_command(None, Cmd::Start, 0), CommandAction::Ignore));
    assert!(matches!(c.on_command(Some(9), Cmd::Start, 0), CommandAction::Unauthorized(9)));
    assert!(matches!(c.on_command(Some(1), Cmd::Start, 0), CommandAction::Start));
    assert!(matches!(
        c.on_command(Some(1), Cmd::Search("  ".to_string()), 0),
        CommandAction::SearchUsage
    ));
    match c.on_command(Some(1), Cmd::Search("Дюна".to_string()), 0) {
        CommandAction::Search(q) => assert_eq!(q, "Дюна"),
        _ => panic!("expected a search"),
    }
    assert!(matches!(
        c.on_command(Some(1), Cmd::Authors, 0),
        CommandAction::Browse(Catalog::Authors)
    ));
    assert!(matches!(
        c.on_command(Some(1), Cmd::Genres, 0),
        CommandAction::Browse(Catalog::Genres)
    ));
    assert_eq!(Catalog::Genres.path(), "/opds/v2/genres/?lang=ru");
}

#[test]
fn everyone_allowed_when_allow_all() {
    let c = BotCore::new(HashSet::new(), true, 0, 5);
    assert!(c.is_allowed(12345));
    let d = bot(0, 5);
    assert!(d.is_allowed(2));
    assert!(!d.is_allowed(3));
}

#[test]
fn pages_show_every_book_once() {
    let mut c = bot(0, 5);
    let all = books(12);
    let mut seen: Vec<String> = Vec::new();
    let mut page = c.book_page(1, all, 0, 0);
    loop {
        for card in &page.cards {
            seen.push(card.book.title.clone());
            assert!(card.data.starts_with("dl:"));
        }
        match page.more {
            None => break,
            Some(more) => match c.on_callback(1, Some(more.data.clone()), 0) {
                CallbackAction::ShowPage { books, offset } => {
                    page = c.book_page(1, books, offset, 0);
                }
                _ => panic!("the next page should be shown"),
            },
        }
    }
    let expected: Vec<String> = (0..12).map(|i| format!("B{i}")).collect();
    assert_eq!(seen, expected);
}

#[test]
fn first_page_texts() {
    let mut c = bot(0, 5);
    let page = c.book_page(1, books(12), 0, 0);
    assert_eq!(page.cards.len(), 5);
    assert_eq!(page.cards[0].data, "dl:1");
    assert_eq!(page.cards[4].data, "dl:5");
    let more = page.more.expect("more books follow");
    assert_eq!(more.text, "Показано 5 из 12. Нажмите, чтобы увидеть ещё.");
    assert_eq!(more.label, "📄 Показать ещё (7)");
    assert_eq!(more.data, "more:6");
    assert!(matches!(c.on_callback(2, Some(more.data), 0), CallbackAction::Acknowledge));
}

#[test]
fn book_results_outcomes() {
    let mut c = bot(0, 5);
    assert!(matches!(c.book_results(1, None, 0), BookResults::Failed));
    assert!(matches!(c.book_results(1, Some(Vec::new()), 0), BookResults::Empty));
    match c.book_results(1, Some(books(3)), 0) {
        BookResults::Page(p) => {
            assert_eq!(p.cards.len(), 3);
            assert!(p.more.is_none());
        }
        _ => panic!("expected a page"),
    }
}

#[test]
fn navigation_buttons_lead_to_feeds_searches_and_downloads() {
    let mut c = bot(0, 5);
    let items = vec![
        NavItem { title: "Авторы".to_string(), href: Some("/opds/v2/authors/1/".to_string()), download: None },
        NavItem { title: "Дюна".to_string(), href: None, download: None },
        NavItem { title: "Книга".to_string(), href: None, download: Some(context("Книга")) },
    ];
    let menu = c.catalog_menu(1, Catalog::Authors, items, 0).expect("a menu");
    assert_eq!(menu.title, "📂 *Авторы* \\(выберите для поиска\\):");
    assert_eq!(menu.buttons.len(), 3);
    assert_eq!(menu.buttons[0].data, "nav:1");
    assert_eq!(menu.buttons[1].data, "nav:2");
    assert_eq!(menu.buttons[2].data, "dl:3");
    assert_eq!(menu.buttons[1].label, "Дюна");

    match c.on_callback(1, Some("nav:1".to_string()), 0) {
        CallbackAction::OpenFeed { href } => assert_eq!(href, "/opds/v2/authors/1/"),
        _ => panic!("expected a feed"),
    }
    match c.on_callback(1, Some("nav:2".to_string()), 0) {
        CallbackAction::Search { query } => assert_eq!(query, "Дюна"),
        _ => panic!("expected a search"),
    }
    assert!(matches!(c.on_callback(1, Some("nav:2".to_string()), 0), CallbackAction::Acknowledge));
    match c.on_callback(1, Some("dl:3".to_string()), 0) {
        CallbackAction::Download { context } => assert_eq!(context.title, "Книга"),
        _ => panic!("expected a download"),
    }
    assert!(c.catalog_menu(1, Catalog::Genres, Vec::new(), 0).is_none());
}

#[test]
fn unreadable_button_data() {
    let mut c = bot(0, 5);
    assert!(matches!(c.on_callback(1, None, 0), CallbackAction::Ignore));
    assert!(matches!(c.on_callback(1, Some("dl:x".to_string()), 0), CallbackAction::Ignore));
    assert!(matches!(c.on_callback(1, Some("more:x".to_string()), 0), CallbackAction::Acknowledge));
    assert!(matches!(c.on_callback(1, Some("zzz".to_string()), 0), CallbackAction::Ignore));
}

#[test]
fn covers_expire_after_an_hour() {
    let mut c = bot(0, 5);
    c.store_cover("http://lib/c.jpg", vec![1, 2, 3], 1000);
    assert_eq!(c.cached_cover("http://lib/c.jpg", 2000), Some(vec![1, 2, 3]));
    assert_eq!(c.cached_cover("http://lib/other.jpg", 2000), None);
    assert_eq!(c.cached_cover("http://lib/c.jpg", 1000 + 3_600_000), None);
    c.prune(1000 + 3_600_000);
    assert_eq!(c.cached_cover("http://lib/c.jpg", 1000), None);
}

#[test]
fn pruning_forgets_old_request_times() {
    let mut c = bot(10_000, 5);
    assert!(c.allow_request(1, 0));
    c.prune(3_600_000);
    assert!(c.allow_request(1, 3_600_001));
}

#[test]
fn entries_expire_after_thirty_minutes() {
    let mut c = bot(0, 5);
    let id = c.offer_download(1, context("Дюна"), 1000);
    let data = callback_data(CallbackKind::Download, id);
    assert!(matches!(
        c.on_callback(1, Some(data.clone()), 1000 + ENTRY_TTL_MS),
        CallbackAction::Expired
    ));
    let nav = c.offer_navigation(1, "/opds/v2/genres/1/".to_string(), 1000);
    let nav_data = callback_data(CallbackKind::Nav, nav);
    assert!(matches!(
        c.on_callback(1, Some(nav_data), 1000 + ENTRY_TTL_MS),
        CallbackAction::Acknowledge
    ));
    let fresh = c.offer_download(1, context("Книга"), 1000);
    let fresh_data = callback_data(CallbackKind::Download, fresh);
    match c.on_callback(1, Some(fresh_data), 1000 + ENTRY_TTL_MS - 1) {
        CallbackAction::Download { context } => assert_eq!(context.title, "Книга"),
        _ => panic!("a live entry should be handed out"),
    }
    c.prune(1000 + ENTRY_TTL_MS);
    assert!(matches!(c.on_callback(1, Some(data), 0), CallbackAction::Expired));
    assert_eq!(ENTRY_TTL_MS, STATE_TTL_SECS * 1000);
}

#[test]
fn search_queries_are_validated() {
    let mut c = bot(0, 5);
    for q in ["?!", "a", "  x  ", "...", ""] {
        assert!(matches!(
            c.on_command(Some(1), Cmd::Search(q.to_string()), 0),
            CommandAction::SearchUsage
        ));
    }
    for q in ["42", "Дюна", " Я! "] {
        match c.on_command(Some(1), Cmd::Search(q.to_string()), 0) {
            CommandAction::Search(sent) => assert_eq!(sent, q),
            _ => panic!("{q} should be searched"),
        }
    }
    assert!(is_valid_query("C++"));
    assert!(!is_valid_query("++"));
    assert_eq!(MIN_QUERY_CHARS, 2);
}
