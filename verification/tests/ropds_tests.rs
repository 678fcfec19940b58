use ropds_bot::links::UrlParts;
use ropds_bot::ropds::{
    ensure_allowed_url, extract_author_name, is_feed_target_parsed, is_opds_href, resolve_href,
    AuthorEntry, AuthorValue, OpdsOrigin, OriginError, Opds2Feed, Opds2Group, Opds2Image,
    Opds2Link, Opds2Metadata, Opds2Nav, Opds2Publication, UrlRejection, MAX_NAV_ITEMS,
};

fn parts(text: &str) -> UrlParts {
    let u = reqwest::Url::parse(text).unwrap();
    UrlParts {
        serialized: u.as_str().to_string(),
        scheme: u.scheme().to_string(),
        host: u.host_str().map(|h| h.to_string()),
        port: u.port_or_known_default(),
    }
}

fn book_publication(title: &str, author: AuthorValue, href: &str) -> Opds2Publication {
    Opds2Publication {
        metadata: Opds2Metadata { title: title.to_string(), author, authors: AuthorValue::Null },
        links: vec![Opds2Link {
            href: href.to_string(),
            rel: Some("acquisition".to_string()),
            media_type: None,
        }],
        images: Vec::new(),
    }
}

#[test]
fn rejects_cross_origin_urls() {
    let base = parts("https://library.example.test:8443");
    let external = parts("https://attacker.example.test:8443/book");
    assert!(ensure_allowed_url(&external, &base).is_err());
}

#[test]
fn rejects_https_downgrade() {
    let base = parts("https://library.example.test");
    let insecure = parts("http://library.example.test/book");
    assert!(ensure_allowed_url(&insecure, &base).is_err());
}

#[test]
fn url_rejection_reasons() {
    let base = parts("https://library.example.test");
    assert_eq!(
        ensure_allowed_url(&parts("http://library.example.test/book"), &base),
        Err(UrlRejection::OutsideOrigin)
    );
    assert_eq!(
        ensure_allowed_url(&parts("http://library.example.test:443/book"), &base),
        Err(UrlRejection::HttpsDowngrade)
    );
    assert_eq!(
        ensure_allowed_url(&parts("https://library.example.test:8443/book"), &base),
        Err(UrlRejection::OutsideOrigin)
    );
    assert_eq!(
        ensure_allowed_url(&parts("ftp://library.example.test/book"), &base),
        Err(UrlRejection::SchemeNotAllowed)
    );
    assert_eq!(ensure_allowed_url(&parts("https://library.example.test/a/b"), &base), Ok(()));
    let plain = parts("http://library.example.test:8081");
    assert_eq!(ensure_allowed_url(&parts("https://library.example.test:8081/x"), &plain), Ok(()));
}

#[test]
fn resolves_acquisition_links_without_duplicate_slashes() {
    let publication = book_publication(
        "Book",
        AuthorValue::Text("Author".to_string()),
        "/opds/download/123/0/",
    );
    let book = publication.into_book("http://library.example.test:8081");
    assert_eq!(book.url, "http://library.example.test:8081/opds/download/123/0/");
}

#[test]
fn book_fields_and_cover() {
    let mut publication = book_publication("Дюна", AuthorValue::Null, "/opds/download/1/0/");
    publication.metadata.authors = AuthorValue::List(vec![AuthorEntry::Object {
        name: Some("Фрэнк Герберт".to_string()),
    }]);
    publication.images = vec![Opds2Image { href: "/covers/1.jpg".to_string(), media_type: None }];
    let book = publication.into_book("http://library.example.test:8081/");
    assert_eq!(book.title, "Дюна");
    assert_eq!(book.author, "Фрэнк Герберт");
    assert_eq!(book.cover_url.as_deref(), Some("http://library.example.test:8081/covers/1.jpg"));
    let unknown = book_publication("X", AuthorValue::Null, "/d/").into_book("http://h/");
    assert_eq!(unknown.author, "Неизвестный автор");
    assert!(unknown.cover_url.is_none());
}

#[test]
fn extracts_author_names() {
    assert_eq!(extract_author_name(&AuthorValue::Text("A".to_string())).as_deref(), Some("A"));
    assert_eq!(
        extract_author_name(&AuthorValue::Object { name: Some("B".to_string()) }).as_deref(),
        Some("B")
    );
    assert_eq!(extract_author_name(&AuthorValue::Object { name: None }), None);
    assert_eq!(
        extract_author_name(&AuthorValue::List(vec![
            AuthorEntry::Text("C".to_string()),
            AuthorEntry::Text("D".to_string()),
        ]))
        .as_deref(),
        Some("C")
    );
    assert_eq!(extract_author_name(&AuthorValue::List(Vec::new())), None);
    assert_eq!(extract_author_name(&AuthorValue::Null), None);
    assert_eq!(extract_author_name(&AuthorValue::Other), None);
}

#[test]
fn detects_opds_hrefs() {
    assert!(is_opds_href("/opds/v2/authors/1/"));
    assert!(is_opds_href("opds/v2/authors/1/"));
    assert!(is_opds_href("http://library.example.test:8081/opds/v2/authors/1/"));
    assert!(!is_opds_href("search:Дюна"));
    assert!(!is_opds_href("Дюна"));
    assert!(!is_opds_href(""));
}

#[test]
fn feed_targets_by_parsed_url() {
    let web = Some(parts("https://library.example.test/opds/"));
    assert!(is_feed_target_parsed("https://library.example.test/opds/", &web));
    let mail = Some(parts("mailto:someone@example.test"));
    assert!(!is_feed_target_parsed("mailto:someone@example.test", &mail));
    assert!(is_feed_target_parsed("a/b", &None));
    assert!(!is_feed_target_parsed("ab", &None));
}

#[test]
fn navigation_includes_grouped_links_and_downloadable_books() {
    let feed = Opds2Feed {
        publications: Vec::new(),
        navigation: vec![Opds2Nav {
            title: "Top".to_string(),
            href: Some("/opds/v2/authors/1/".to_string()),
        }],
        groups: vec![Opds2Group {
            navigation: vec![Opds2Nav {
                title: "Grouped".to_string(),
                href: Some("http://library.example.test:8081/opds/v2/genres/2/".to_string()),
            }],
            publications: vec![book_publication(
                "Book",
                AuthorValue::Text("Author".to_string()),
                "/opds/download/123/0/",
            )],
        }],
    };

    let items = feed.into_nav_items("http://library.example.test:8081");
    assert_eq!(items.len(), 3);
    assert_eq!(
        items[0].href.as_deref(),
        Some("http://library.example.test:8081/opds/v2/authors/1/")
    );
    assert_eq!(
        items[1].href.as_deref(),
        Some("http://library.example.test:8081/opds/v2/genres/2/")
    );
    let download = items[2].download.as_ref().expect("book should be downloadable");
    assert_eq!(download.url, "http://library.example.test:8081/opds/download/123/0/");
}

#[test]
fn navigation_is_capped() {
    let navigation: Vec<Opds2Nav> = (0..30)
        .map(|i| Opds2Nav { title: format!("N{i}"), href: Some(format!("/n/{i}/")) })
        .collect();
    let feed = Opds2Feed { publications: Vec::new(), groups: Vec::new(), navigation };
    let items = feed.into_nav_items("http://h/");
    assert_eq!(items.len(), MAX_NAV_ITEMS);
    assert_eq!(items[19].title, "N19");
}

#[test]
fn books_come_from_publications_and_groups() {
    let feed = Opds2Feed {
        publications: vec![book_publication("A", AuthorValue::Null, "/d/1/")],
        groups: vec![Opds2Group {
            publications: vec![book_publication("B", AuthorValue::Null, "/d/2/")],
            navigation: Vec::new(),
        }],
        navigation: Vec::new(),
    };
    let books = feed.into_books("http://h/");
    assert_eq!(books.len(), 2);
    assert_eq!(books[0].title, "A");
    assert_eq!(books[1].url, "http://h/d/2/");
}

#[test]
fn publications_without_acquisition_are_not_downloads() {
    let publication = Opds2Publication {
        metadata: Opds2Metadata {
            title: "Дюна".to_string(),
            author: AuthorValue::Null,
            authors: AuthorValue::Null,
        },
        links: Vec::new(),
        images: Vec::new(),
    };

    let item = publication.into_nav_item("http://library.example.test:8081");
    assert!(item.download.is_none());
    assert!(item.href.is_none());
    assert_eq!(item.title, "Дюна");
}

#[test]
fn resolves_relative_and_keeps_unjoinable_hrefs() {
    assert_eq!(resolve_href("http://h:1/a/", "b/c"), "http://h:1/a/b/c");
    assert_eq!(resolve_href("not a url", "x/y"), "x/y");
}

#[test]
fn origin_credentials_and_feed_urls() {
    let origin = OpdsOrigin::new(
        "http://library.example.test:8081",
        Some("user".to_string()),
        Some("pass".to_string()),
    )
    .unwrap();
    assert_eq!(origin.auth_header.as_deref(), Some("Basic dXNlcjpwYXNz"));
    assert_eq!(
        origin.search_url("Дюна 2").as_deref(),
        Some("http://library.example.test:8081/opds/v2/search/%D0%94%D1%8E%D0%BD%D0%B0%202/?lang=ru")
    );
    assert_eq!(
        origin.recent_url().as_deref(),
        Some("http://library.example.test:8081/opds/v2/recent/1/?lang=ru")
    );
    assert_eq!(
        origin.navigation_url("/opds/v2/authors/1/").as_deref(),
        Some("http://library.example.test:8081/opds/v2/authors/1/")
    );
    let anonymous = OpdsOrigin::new("https://h", Some("user".to_string()), None).unwrap();
    assert!(anonymous.auth_header.is_none());
    assert_eq!(OpdsOrigin::new("not a url", None, None).err(), Some(OriginError::InvalidUrl));
    assert_eq!(
        OpdsOrigin::new("ftp://h/", None, None).err(),
        Some(OriginError::UnsupportedUrl)
    );
}

#[test]
fn publications_without_acquisition_are_not_books() {
    let link_less = Opds2Publication {
        metadata: Opds2Metadata {
            title: "Дюна".to_string(),
            author: AuthorValue::Null,
            authors: AuthorValue::Null,
        },
        links: vec![Opds2Link {
            href: "/opds/v2/authors/1/".to_string(),
            rel: Some("related".to_string()),
            media_type: None,
        }],
        images: Vec::new(),
    };
    let feed = Opds2Feed {
        publications: vec![link_less, book_publication("A", AuthorValue::Null, "/d/1/")],
        groups: Vec::new(),
        navigation: Vec::new(),
    };
    let books = feed.into_books("http://h/");
    assert_eq!(books.len(), 1);
    assert_eq!(books[0].title, "A");
    assert_eq!(books[0].url, "http://h/d/1/");
}

#[test]
fn basic_credentials_are_padded_base64() {
    let origin = OpdsOrigin::new("http://h/", Some("ab".to_string()), Some("c".to_string())).unwrap();
    assert_eq!(origin.auth_header.as_deref(), Some("Basic YWI6Yw=="));
    let origin = OpdsOrigin::new("http://h/", Some("a".to_string()), Some(String::new())).unwrap();
    assert_eq!(origin.auth_header.as_deref(), Some("Basic YTo="));
}
