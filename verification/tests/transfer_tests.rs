use ropds_bot::ropds::{OpdsOrigin, UrlRejection, MAX_DOWNLOAD_REDIRECTS, MAX_FEED_REDIRECTS};
use ropds_bot::transfer::{
    book_file_name, check_declared_size, check_received_size, read_limit, DownloadFetch,
    DownloadStep, FeedFetch, FeedStep, Location, TransferError,
};

fn origin() -> OpdsOrigin {
    OpdsOrigin::new("https://library.example.test", None, None).unwrap()
}

#[test]
fn feed_redirects_are_followed_a_limited_number_of_times() {
    let o = origin();
    let mut fetch = FeedFetch::start("https://library.example.test/opds/".to_string());
    for _ in 0..=MAX_FEED_REDIRECTS {
        assert_eq!(fetch.next_request(&o).unwrap(), fetch.url);
        match fetch.on_response(302, Location::Text("/opds/v2/".to_string())) {
            FeedStep::Follow(next) => fetch = next,
            _ => panic!("a redirect should be followed"),
        }
    }
    assert_eq!(fetch.url, "https://library.example.test/opds/v2/");
    assert_eq!(fetch.next_request(&o), Err(TransferError::TooManyRedirects));
}

#[test]
fn feed_responses() {
    let o = origin();
    let fetch = FeedFetch::start("https://library.example.test/opds/".to_string());
    assert!(matches!(fetch.on_response(200, Location::Absent), FeedStep::ReadBody));
    let fetch = FeedFetch::start("https://library.example.test/opds/".to_string());
    assert!(matches!(
        fetch.on_response(404, Location::Absent),
        FeedStep::Failed(TransferError::Status(404))
    ));
    let fetch = FeedFetch::start("https://library.example.test/opds/".to_string());
    assert!(matches!(
        fetch.on_response(301, Location::Absent),
        FeedStep::Failed(TransferError::MissingLocation)
    ));
    let fetch = FeedFetch::start("https://library.example.test/opds/".to_string());
    assert!(matches!(
        fetch.on_response(301, Location::NotText),
        FeedStep::Failed(TransferError::LocationNotText)
    ));
    let outside = FeedFetch::start("https://elsewhere.example.test/".to_string());
    assert_eq!(
        outside.next_request(&o),
        Err(TransferError::Rejected(UrlRejection::OutsideOrigin))
    );
    let broken = FeedFetch::start("not a url".to_string());
    assert_eq!(broken.next_request(&o), Err(TransferError::InvalidUrl));
}

#[test]
fn download_redirects_stay_with_the_library() {
    let o = origin();
    let fetch = DownloadFetch::start(&o, "https://library.example.test/d/1").unwrap();
    match fetch.on_response(&o, 302, Location::Text("https://cdn.example.test/d/1".to_string())) {
        DownloadStep::Failed(TransferError::Rejected(UrlRejection::OutsideOrigin)) => {}
        _ => panic!("a redirect away from the library must be refused"),
    }
    let fetch = DownloadFetch::start(&o, "https://library.example.test/d/1").unwrap();
    match fetch.on_response(&o, 302, Location::Text("http://library.example.test:443/d/1".to_string())) {
        DownloadStep::Failed(TransferError::Rejected(UrlRejection::HttpsDowngrade)) => {}
        _ => panic!("a downgrade must be refused"),
    }
    let mut fetch = DownloadFetch::start(&o, "https://library.example.test/d/1").unwrap();
    for _ in 0..=MAX_DOWNLOAD_REDIRECTS {
        assert!(fetch.next_request().is_ok());
        match fetch.on_response(&o, 307, Location::Text("/d/2".to_string())) {
            DownloadStep::Follow(next) => fetch = next,
            _ => panic!("a redirect within the library should be followed"),
        }
    }
    assert_eq!(fetch.url, "https://library.example.test/d/2");
    assert_eq!(fetch.next_request(), Err(TransferError::TooManyRedirects));
    let fetch = DownloadFetch::start(&o, "https://library.example.test/d/1").unwrap();
    assert!(matches!(fetch.on_response(&o, 200, Location::Absent), DownloadStep::Accept));
    let fetch = DownloadFetch::start(&o, "https://library.example.test/d/1").unwrap();
    assert!(matches!(
        fetch.on_response(&o, 500, Location::Absent),
        DownloadStep::Failed(TransferError::Status(500))
    ));
    assert_eq!(
        DownloadFetch::start(&o, "http://library.example.test/d/1").err(),
        Some(TransferError::Rejected(UrlRejection::OutsideOrigin))
    );
    assert_eq!(
        DownloadFetch::start(&o, "ftp://library.example.test/d/1").err(),
        Some(TransferError::Rejected(UrlRejection::SchemeNotAllowed))
    );
}

#[test]
fn size_limits() {
    assert_eq!(check_declared_size(Some(11), 10), Err(TransferError::TooLarge(11)));
    assert_eq!(check_declared_size(Some(10), 10), Ok(()));
    assert_eq!(check_declared_size(None, 0), Ok(()));
    assert_eq!(check_received_size(11, 10), Err(TransferError::TooLarge(11)));
    assert_eq!(check_received_size(10, 10), Ok(()));
    assert_eq!(read_limit(10), 11);
    assert_eq!(read_limit(u64::MAX), u64::MAX);
}

#[test]
fn book_file_names() {
    assert_eq!(
        book_file_name("Дюна", "Фрэнк Герберт", Some("application/epub+zip")),
        "Дюна - Фрэнк Герберт.epub"
    );
    assert_eq!(book_file_name("a/b", "", None), "a_b - book.fb2");
    assert_eq!(
        book_file_name("x", "y", Some("application/octet-stream")),
        "x - y.fb2"
    );
    assert_eq!(book_file_name("x", "y", Some("text/xml; charset=utf-8")), "x - y.fb2");
}

#[test]
fn resolved_redirect_targets() {
    let o = origin();
    let fetch = FeedFetch::start("https://library.example.test/opds/".to_string());
    match fetch.on_redirect(Ok("https://library.example.test/opds/v2/".to_string())) {
        FeedStep::Follow(next) => {
            assert_eq!(next.url, "https://library.example.test/opds/v2/");
            assert_eq!(next.attempts, 1);
        }
        _ => panic!("a resolved redirect should be followed"),
    }
    let fetch = FeedFetch::start("https://library.example.test/opds/".to_string());
    assert!(matches!(
        fetch.on_redirect(Err(TransferError::BadRedirectTarget)),
        FeedStep::Failed(TransferError::BadRedirectTarget)
    ));
    let fetch = DownloadFetch::start(&o, "https://library.example.test/d/1").unwrap();
    assert!(matches!(
        fetch.on_redirect(&o, Ok("https://other.example.test/d/1".to_string())),
        DownloadStep::Failed(TransferError::Rejected(UrlRejection::OutsideOrigin))
    ));
    let fetch = DownloadFetch::start(&o, "https://library.example.test/d/1").unwrap();
    match fetch.on_redirect(&o, Ok("https://library.example.test/d/2".to_string())) {
        DownloadStep::Follow(next) => {
            assert_eq!(next.url, "https://library.example.test/d/2");
            assert_eq!(next.redirects, 1);
        }
        _ => panic!("a redirect within the library should be followed"),
    }
}
