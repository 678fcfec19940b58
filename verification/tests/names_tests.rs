use ropds_bot::names::{
    extension_from_content_type, floor_char_boundary, sanitize_filename, truncate_for_log,
    LOG_BODY_LIMIT, MAX_FILENAME_STEM,
};

#[test]
fn detects_supported_extensions() {
    assert_eq!(extension_from_content_type("application/pdf"), Some("pdf"));
    assert_eq!(
        extension_from_content_type("application/epub+zip; charset=binary"),
        Some("epub")
    );
    assert_eq!(
        extension_from_content_type("application/octet-stream"),
        None
    );
}

#[test]
fn sanitizes_filenames() {
    assert_eq!(sanitize_filename("a/b:c"), "a_b_c");
    assert_eq!(sanitize_filename("  Дюна  "), "Дюна");
    assert_eq!(sanitize_filename("///"), "book");
}

#[test]
fn truncates_long_cyrillic_titles_without_panicking() {
    let titles = [
        "Основания и империя. Часть вторая: Генерал и его замысел о власти",
        "Приключения Незнайки и его друзей в солнечном городе, полное издание",
        "Мастер и Маргарита. Том первый: Чёрная магия и её разоблачение",
        "Гарри Поттер и философский камень. Иллюстрированное издание, глава 1",
    ];
    for title in titles {
        assert!(title.len() > MAX_FILENAME_STEM, "{title} too short");
        let name = sanitize_filename(title);
        assert!(name.ends_with("..."), "{name}");
        assert!(name.len() <= MAX_FILENAME_STEM + 3, "{name}");
        assert!(name.chars().all(|c| c != '/' && c != ':'), "{name}");
    }
}

#[test]
fn floor_char_boundary_never_splits_a_character() {
    let text = "абвгдежзийклмнопрстуфхцчшщъыьэюя";
    for limit in 0..=text.len() + 1 {
        let cut = floor_char_boundary(text, limit);
        assert!(cut.len() <= limit);
        assert!(text.starts_with(cut));
    }
}

#[test]
fn truncates_long_log_bodies() {
    assert_eq!(truncate_for_log("short", LOG_BODY_LIMIT), "short");
    let long = "ы".repeat(LOG_BODY_LIMIT + 10);
    let truncated = truncate_for_log(&long, LOG_BODY_LIMIT);
    assert!(truncated.ends_with('…'));
    assert!(truncated.len() <= LOG_BODY_LIMIT + "…".len());
}

#[test]
fn sanitizing_twice_changes_nothing() {
    for name in [
        "a/b:c",
        "  Дюна  ",
        "///",
        "_ _",
        "Основания и империя. Часть вторая: Генерал и его замысел о власти",
    ] {
        let once = sanitize_filename(name);
        assert_eq!(sanitize_filename(&once), once);
    }
}
