//! The decisions taken while fetching feeds and downloading files: which URL
//! to request next, how to treat a response, and what size is acceptable.
//! The requests themselves are made by the caller, which hands back the
//! status and the `Location` header of each response.
use vstd::prelude::*;
use crate::links::{join_url, joined_url, parse_url, parsed_url, UrlPartsView};
use crate::names::{extension_for, extension_from_content_type, media_type_of, sanitize_filename, sanitized_name};
use crate::ropds::{ensure_allowed_url, url_verdict, OpdsOrigin, UrlRejection, MAX_DOWNLOAD_REDIRECTS, MAX_FEED_REDIRECTS};
use crate::text::push_str;

verus! {

/// Why a feed or a file could not be fetched.
#[derive(Clone, Copy, Debug, PartialEq, Eq, Structural)]
pub enum TransferError {
    /// The URL does not parse.
    InvalidUrl,
    /// The URL may not be requested with the library's credentials.
    Rejected(UrlRejection),
    /// A redirect came without a `Location` header.
    MissingLocation,
    /// The `Location` header is not readable text.
    LocationNotText,
    /// The `Location` header cannot be resolved against the current URL.
    BadRedirectTarget,
    /// More redirects than allowed.
    TooManyRedirects,
    /// The server answered with an error status.
    Status(u16),
    /// The file is larger than allowed; its size in bytes.
    TooLarge(u64),
}

/// HTTP status classes, as `http::StatusCode` defines them.
pub open spec fn is_redirection(status: u16) -> bool {
    300 <= status <= 399
}

pub open spec fn is_success(status: u16) -> bool {
    200 <= status <= 299
}

/// The `Location` header of a response: absent, present but not text, or
/// its text.
pub enum Location {
    Absent,
    NotText,
    Text(String),
}

/// Where a redirect leads from `current`: the joined URL, or why there is
/// none.
pub open spec fn redirect_target(current: Seq<char>, location: Location) -> Result<
    Seq<char>,
    TransferError,
> {
    match location {
        Location::Absent => Err(TransferError::MissingLocation),
        Location::NotText => Err(TransferError::LocationNotText),
        Location::Text(l) => match joined_url(current, l@) {
            Some(u) => Ok(u),
            None => Err(TransferError::BadRedirectTarget),
        },
    }
}

/// Whether the library's credentials may go to the URL `text`.
pub open spec fn allowed(text: Seq<char>, origin_base: UrlPartsView) -> Result<(), TransferError> {
    match parsed_url(text) {
        None => Err(TransferError::InvalidUrl),
        Some(p) => match url_verdict(p, origin_base) {
            Ok(()) => Ok(()),
            Err(e) => Err(TransferError::Rejected(e)),
        },
    }
}

fn check_allowed(text: &str, origin: &OpdsOrigin) -> (r: Result<(), TransferError>)
    ensures
        r == allowed(text@, origin.base@),
{
    match parse_url(text) {
        None => Err(TransferError::InvalidUrl),
        Some(p) => match ensure_allowed_url(&p, &origin.base) {
            Ok(()) => Ok(()),
            Err(e) => Err(TransferError::Rejected(e)),
        },
    }
}

fn follow_location(current: &str, location: Location) -> (r: Result<String, TransferError>)
    ensures
        match r {
            Ok(u) => redirect_target(current@, location) == Ok::<Seq<char>, TransferError>(u@),
            Err(e) => redirect_target(current@, location) == Err::<Seq<char>, TransferError>(e),
        },
{
    match location {
        Location::Absent => Err(TransferError::MissingLocation),
        Location::NotText => Err(TransferError::LocationNotText),
        Location::Text(l) => match join_url(current, l.as_str()) {
            Some(u) => Ok(u),
            None => Err(TransferError::BadRedirectTarget),
        },
    }
}

// ---------------------------------------------------------------------------
// Feeds
// ---------------------------------------------------------------------------

/// A feed being fetched: the URL to request and how many requests were
/// made before.
pub struct FeedFetch {
    pub url: String,
    pub attempts: u32,
}

/// What to do after a response to a feed request.
pub enum FeedStep {
    /// Request the feed again at the redirect target.
    Follow(FeedFetch),
    /// Read the body: it is the feed.
    ReadBody,
    /// Give up.
    Failed(TransferError),
}

impl FeedFetch {
    /// A fetch of the feed at `url`.
    pub fn start(url: String) -> (f: FeedFetch)
        ensures
            f.url@ == url@,
            f.attempts == 0,
    {
        FeedFetch { url, attempts: 0 }
    }

    /// The URL to request next: refused after `MAX_FEED_REDIRECTS`
    /// redirects, and whenever the library's credentials may not go there.
    pub fn next_request(&self, origin: &OpdsOrigin) -> (r: Result<String, TransferError>)
        ensures
            self.attempts > MAX_FEED_REDIRECTS ==> r == Err::<String, TransferError>(
                TransferError::TooManyRedirects,
            ),
            self.attempts <= MAX_FEED_REDIRECTS ==> match r {
                Ok(u) => u@ == self.url@ && allowed(self.url@, origin.base@) is Ok,
                Err(e) => allowed(self.url@, origin.base@) == Err::<(), TransferError>(e),
            },
    {
        if self.attempts > MAX_FEED_REDIRECTS {
            return Err(TransferError::TooManyRedirects);
        }
        match check_allowed(self.url.as_str(), origin) {
            Ok(()) => Ok(self.url.clone()),
            Err(e) => Err(e),
        }
    }

    /// What to do with a response of status `status` and `Location` header
    /// `location`: follow a redirect, fail on an error status, or read the
    /// body of a success.
    pub fn on_response(self, status: u16, location: Location) -> (step: FeedStep)
        requires
            self.attempts <= MAX_FEED_REDIRECTS,
        ensures
            is_redirection(status) ==> match redirect_target(self.url@, location) {
                Ok(u) => step matches FeedStep::Follow(f) && f.url@ == u && f.attempts
                    == self.attempts as int + 1,
                Err(e) => step == FeedStep::Failed(e),
            },
            !is_redirection(status) && !is_success(status) ==> step == FeedStep::Failed(
                TransferError::Status(status),
            ),
            is_success(status) ==> step is ReadBody,
    {
        if 300 <= status && status <= 399 {
            let target = follow_location(self.url.as_str(), location);
            self.on_redirect(target)
        } else if !(200 <= status && status <= 299) {
            FeedStep::Failed(TransferError::Status(status))
        } else {
            FeedStep::ReadBody
        }
    }
}

impl FeedFetch {
    /// What to do with a redirect whose target was resolved as `target`:
    /// request the feed there, or give up with the resolution's error.
    pub fn on_redirect(self, target: Result<String, TransferError>) -> (step: FeedStep)
        requires
            self.attempts <= MAX_FEED_REDIRECTS,
        ensures
            match target {
                Ok(u) => step matches FeedStep::Follow(f) && f.url@ == u@ && f.attempts
                    == self.attempts + 1,
                Err(e) => step == FeedStep::Failed(e),
            },
    {
        match target {
            Ok(u) => FeedStep::Follow(FeedFetch { url: u, attempts: self.attempts + 1 }),
            Err(e) => FeedStep::Failed(e),
        }
    }
}

// ---------------------------------------------------------------------------
// Downloads
// ---------------------------------------------------------------------------

/// A book or a cover being downloaded: the URL to request and the number of
/// redirects followed so far. The URL is always one the library's
/// credentials may go to.
pub struct DownloadFetch {
    pub url: String,
    pub redirects: u32,
}

/// What to do after a response to a download request.
pub enum DownloadStep {
    /// Request the file again at the redirect target.
    Follow(DownloadFetch),
    /// The response carries the file.
    Accept,
    /// Give up.
    Failed(TransferError),
}

impl DownloadFetch {
    /// A download of the file at `url`, refused when the URL does not parse
    /// or the library's credentials may not go there.
    pub fn start(origin: &OpdsOrigin, url: &str) -> (r: Result<DownloadFetch, TransferError>)
        ensures
            match r {
                Ok(d) => d.url@ == url@ && d.redirects == 0 && allowed(url@, origin.base@) is Ok,
                Err(e) => allowed(url@, origin.base@) == Err::<(), TransferError>(e),
            },
    {
        match check_allowed(url, origin) {
            Ok(()) => Ok(DownloadFetch { url: url.to_owned(), redirects: 0 }),
            Err(e) => Err(e),
        }
    }

    /// The URL to request next: refused after `MAX_DOWNLOAD_REDIRECTS`
    /// redirects.
    pub fn next_request(&self) -> (r: Result<String, TransferError>)
        ensures
            self.redirects > MAX_DOWNLOAD_REDIRECTS ==> r == Err::<String, TransferError>(
                TransferError::TooManyRedirects,
            ),
            self.redirects <= MAX_DOWNLOAD_REDIRECTS ==> (r matches Ok(u) && u@ == self.url@),
    {
        if self.redirects > MAX_DOWNLOAD_REDIRECTS {
            Err(TransferError::TooManyRedirects)
        } else {
            Ok(self.url.clone())
        }
    }

    /// What to do with a response: follow a redirect to a URL the library's
    /// credentials may go to, accept a success, or fail.
    pub fn on_response(self, origin: &OpdsOrigin, status: u16, location: Location) -> (step:
        DownloadStep)
        requires
            self.redirects <= MAX_DOWNLOAD_REDIRECTS,
        ensures
            is_redirection(status) ==> match redirect_target(self.url@, location) {
                Ok(u) => match allowed(u, origin.base@) {
                    Ok(()) => step matches DownloadStep::Follow(d) && d.url@ == u && d.redirects
                        == self.redirects + 1,
                    Err(e) => step == DownloadStep::Failed(e),
                },
                Err(e) => step == DownloadStep::Failed(e),
            },
            !is_redirection(status) && is_success(status) ==> step is Accept,
            !is_redirection(status) && !is_success(status) ==> step == DownloadStep::Failed(
                TransferError::Status(status),
            ),
    {
        if !(300 <= status && status <= 399) {
            if 200 <= status && status <= 299 {
                return DownloadStep::Accept;
            } else {
                return DownloadStep::Failed(TransferError::Status(status));
            }
        }
        let target = follow_location(self.url.as_str(), location);
        self.on_redirect(origin, target)
    }

    /// What to do with a redirect whose target was resolved as `target`:
    /// request the file there if the library's credentials may go there,
    /// else give up.
    pub fn on_redirect(self, origin: &OpdsOrigin, target: Result<String, TransferError>) -> (step:
        DownloadStep)
        requires
            self.redirects <= MAX_DOWNLOAD_REDIRECTS,
        ensures
            match target {
                Ok(u) => match allowed(u@, origin.base@) {
                    Ok(()) => step matches DownloadStep::Follow(d) && d.url@ == u@ && d.redirects
                        == self.redirects + 1,
                    Err(e) => step == DownloadStep::Failed(e),
                },
                Err(e) => step == DownloadStep::Failed(e),
            },
    {
        let redirects = self.redirects + 1;
        match target {
            Err(e) => DownloadStep::Failed(e),
            Ok(u) => match check_allowed(u.as_str(), origin) {
                Ok(()) => DownloadStep::Follow(DownloadFetch { url: u, redirects }),
                Err(e) => DownloadStep::Failed(e),
            },
        }
    }
}

/// Checks the size a response declares (`Content-Length`, absent counting
/// as 0) against a limit.
pub fn check_declared_size(content_length: Option<u64>, max: u64) -> (r: Result<(), TransferError>)
    ensures
        match content_length {
            Some(n) => if n > max {
                r == Err::<(), TransferError>(TransferError::TooLarge(n))
            } else {
                r is Ok
            },
            None => r is Ok,
        },
{
    match content_length {
        Some(n) => if n > max {
            Err(TransferError::TooLarge(n))
        } else {
            Ok(())
        },
        None => Ok(()),
    }
}

/// Checks the number of bytes received against a limit. The caller reads
/// at most [`read_limit`] bytes, one more than the limit, so a larger file
/// is noticed without reading all of it.
pub fn check_received_size(received: u64, max: u64) -> (r: Result<(), TransferError>)
    ensures
        received > max ==> r == Err::<(), TransferError>(TransferError::TooLarge(received)),
        received <= max ==> r is Ok,
{
    if received > max {
        Err(TransferError::TooLarge(received))
    } else {
        Ok(())
    }
}

/// How many bytes of a body to read when at most `max` are accepted.
pub fn read_limit(max: u64) -> (r: u64)
    ensures
        r == if max == u64::MAX {
            u64::MAX as int
        } else {
            max + 1
        },
{
    if max == u64::MAX {
        max
    } else {
        max + 1
    }
}

/// The name a downloaded book is sent under: title and author made safe for
/// a file system, and the extension for its media type (`fb2` by default).
pub open spec fn book_file_name_of(title: Seq<char>, author: Seq<char>, content_type: Option<
    Seq<char>,
>) -> Seq<char> {
    let ext = match content_type {
        Some(ct) => match extension_for(media_type_of(ct)) {
            Some(e) => e,
            None => "fb2"@,
        },
        None => "fb2"@,
    };
    sanitized_name(title) + " - "@ + sanitized_name(author) + "."@ + ext
}

/// The name a downloaded book is sent under.
pub fn book_file_name(title: &str, author: &str, content_type: Option<&str>) -> (r: String)
    ensures
        r@ == book_file_name_of(
            title@,
            author@,
            match content_type {
                Some(ct) => Some(ct@),
                None => None,
            },
        ),
{
    let ext: &str = match content_type {
        Some(ct) => match extension_from_content_type(ct) {
            Some(e) => e,
            None => "fb2",
        },
        None => "fb2",
    };
    let mut name = sanitize_filename(title);
    push_str(&mut name, " - ");
    let safe_author = sanitize_filename(author);
    push_str(&mut name, safe_author.as_str());
    push_str(&mut name, ".");
    push_str(&mut name, ext);
    name
}

} // verus!
