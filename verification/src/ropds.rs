//! Books and navigation entries of an OPDS 2.0 library, and the rules for
//! the requests made to it.
use vstd::prelude::*;
use crate::links::{
    base64_encode, base64_standard, join_url, joined_url, opt_parts_view, parse_url, parsed_url,
    percent_encode, url_encode, UrlParts, UrlPartsView,
};
use crate::text::{chars_eq, chars_eq_str, chars_of, opt_str_view, push_str};
use vstd::string::StringSliceAdditionalSpecFns;
use vstd::utf8::encode_utf8;

verus! {

/// Most redirects followed while fetching a feed.
pub const MAX_FEED_REDIRECTS: u32 = 5;

/// Most redirects followed while downloading a book or a cover.
pub const MAX_DOWNLOAD_REDIRECTS: u32 = 5;

/// Most entries of a navigation feed that are offered at once.
pub const MAX_NAV_ITEMS: usize = 20;

// ---------------------------------------------------------------------------
// Books and navigation entries
// ---------------------------------------------------------------------------

/// A book found in the library.
#[derive(Clone, Debug)]
pub struct Book {
    pub title: String,
    pub author: String,
    pub url: String,
    pub cover_url: Option<String>,
}

/// What is needed to download a book and describe it.
#[derive(Clone, Debug)]
pub struct DownloadContext {
    pub url: String,
    pub title: String,
    pub author: String,
    pub cover_url: Option<String>,
}

/// An entry of a navigation feed: a link to another feed, a book that can
/// be downloaded, or neither.
#[derive(Clone, Debug)]
pub struct NavItem {
    pub title: String,
    pub href: Option<String>,
    pub download: Option<DownloadContext>,
}

pub struct BookView {
    pub title: Seq<char>,
    pub author: Seq<char>,
    pub url: Seq<char>,
    pub cover_url: Option<Seq<char>>,
}

pub struct DownloadContextView {
    pub url: Seq<char>,
    pub title: Seq<char>,
    pub author: Seq<char>,
    pub cover_url: Option<Seq<char>>,
}

pub struct NavItemView {
    pub title: Seq<char>,
    pub href: Option<Seq<char>>,
    pub download: Option<DownloadContextView>,
}

impl View for Book {
    type V = BookView;

    open spec fn view(&self) -> BookView {
        BookView {
            title: self.title@,
            author: self.author@,
            url: self.url@,
            cover_url: opt_str_view(self.cover_url),
        }
    }
}

impl View for DownloadContext {
    type V = DownloadContextView;

    open spec fn view(&self) -> DownloadContextView {
        DownloadContextView {
            url: self.url@,
            title: self.title@,
            author: self.author@,
            cover_url: opt_str_view(self.cover_url),
        }
    }
}

pub open spec fn opt_download_view(o: Option<DownloadContext>) -> Option<DownloadContextView> {
    match o {
        Some(d) => Some(d@),
        None => None,
    }
}

impl View for NavItem {
    type V = NavItemView;

    open spec fn view(&self) -> NavItemView {
        NavItemView {
            title: self.title@,
            href: opt_str_view(self.href),
            download: opt_download_view(self.download),
        }
    }
}

impl Book {
    /// A copy of the book.
    pub fn duplicate(&self) -> (b: Book)
        ensures
            b@ == self@,
    {
        Book {
            title: self.title.clone(),
            author: self.author.clone(),
            url: self.url.clone(),
            cover_url: clone_opt_string(&self.cover_url),
        }
    }

    /// What is needed to download this book.
    pub fn download_context(&self) -> (d: DownloadContext)
        ensures
            d@ == context_of(self@),
    {
        DownloadContext {
            url: self.url.clone(),
            title: self.title.clone(),
            author: self.author.clone(),
            cover_url: clone_opt_string(&self.cover_url),
        }
    }
}

impl DownloadContext {
    /// A copy of the context.
    pub fn duplicate(&self) -> (d: DownloadContext)
        ensures
            d@ == self@,
    {
        DownloadContext {
            url: self.url.clone(),
            title: self.title.clone(),
            author: self.author.clone(),
            cover_url: clone_opt_string(&self.cover_url),
        }
    }
}

/// A copy of an optional string.
pub fn clone_opt_string(o: &Option<String>) -> (r: Option<String>)
    ensures
        opt_str_view(r) == opt_str_view(*o),
{
    match o {
        Some(s) => Some(s.clone()),
        None => None,
    }
}

/// The download context of a book.
pub open spec fn context_of(b: BookView) -> DownloadContextView {
    DownloadContextView { url: b.url, title: b.title, author: b.author, cover_url: b.cover_url }
}

// ---------------------------------------------------------------------------
// The OPDS 2.0 feed model
// ---------------------------------------------------------------------------

/// The JSON value of an author field, reduced to what is read from it.
pub enum AuthorValue {
    /// Absent or `null`.
    Null,
    /// A string.
    Text(String),
    /// An object; `name` is its `name` member when that is a string.
    Object { name: Option<String> },
    /// An array of entries.
    List(Vec<AuthorEntry>),
    /// A boolean or a number.
    Other,
}

/// An element of an author array, reduced to what is read from it.
pub enum AuthorEntry {
    /// A string.
    Text(String),
    /// An object; `name` is its `name` member when that is a string.
    Object { name: Option<String> },
    /// Anything else.
    Other,
}

pub struct Opds2Feed {
    pub publications: Vec<Opds2Publication>,
    pub groups: Vec<Opds2Group>,
    pub navigation: Vec<Opds2Nav>,
}

pub struct Opds2Group {
    pub publications: Vec<Opds2Publication>,
    pub navigation: Vec<Opds2Nav>,
}

pub struct Opds2Publication {
    pub metadata: Opds2Metadata,
    pub links: Vec<Opds2Link>,
    pub images: Vec<Opds2Image>,
}

pub struct Opds2Metadata {
    pub title: String,
    pub author: AuthorValue,
    pub authors: AuthorValue,
}

pub struct Opds2Link {
    pub href: String,
    pub rel: Option<String>,
    pub media_type: Option<String>,
}

pub struct Opds2Image {
    pub href: String,
    pub media_type: Option<String>,
}

pub struct Opds2Nav {
    pub title: String,
    pub href: Option<String>,
}

/// The author name an author field holds: a string, the `name` of an
/// object, or the `name` (else the string) of an array's first element.
pub open spec fn author_name(v: AuthorValue) -> Option<Seq<char>> {
    match v {
        AuthorValue::Text(s) => Some(s@),
        AuthorValue::Object { name } => opt_str_view(name),
        AuthorValue::List(entries) => if entries@.len() > 0 {
            match entries@[0] {
                AuthorEntry::Text(s) => Some(s@),
                AuthorEntry::Object { name } => opt_str_view(name),
                AuthorEntry::Other => None,
            }
        } else {
            None
        },
        _ => None,
    }
}

/// Whether a link relation marks an acquisition (download) link.
pub open spec fn is_acquisition_rel(rel: Seq<char>) -> bool {
    rel == "http://opds-spec.org/acquisition"@ || rel == "acquisition"@ || rel
        == "http://opds-spec.org/acquisition/open-access"@
}

pub open spec fn link_rel(l: Opds2Link) -> Seq<char> {
    match l.rel {
        Some(r) => r@,
        None => Seq::empty(),
    }
}

/// The target of the first acquisition link with a non-empty target.
pub open spec fn acquisition(links: Seq<Opds2Link>) -> Option<Seq<char>>
    decreases links.len(),
{
    if links.len() == 0 {
        None
    } else if is_acquisition_rel(link_rel(links[0])) && links[0].href@.len() > 0 {
        Some(links[0].href@)
    } else {
        acquisition(links.drop_first())
    }
}

/// A link target resolved against the base URL, or kept as it is when it
/// cannot be.
pub open spec fn resolved(base: Seq<char>, href: Seq<char>) -> Seq<char> {
    match joined_url(base, href) {
        Some(u) => u,
        None => href,
    }
}

/// The book a publication describes.
pub open spec fn book_of(p: Opds2Publication, base: Seq<char>) -> BookView {
    let author = match author_name(p.metadata.author) {
        Some(a) => a,
        None => match author_name(p.metadata.authors) {
            Some(a) => a,
            None => "Неизвестный автор"@,
        },
    };
    let relative = match acquisition(p.links@) {
        Some(h) => h,
        None => Seq::empty(),
    };
    BookView {
        title: p.metadata.title@,
        author: author,
        url: resolved(base, relative),
        cover_url: if p.images@.len() > 0 {
            Some(resolved(base, p.images@[0].href@))
        } else {
            None
        },
    }
}

/// The navigation entry for a navigation link.
pub open spec fn nav_entry(n: Opds2Nav, base: Seq<char>) -> NavItemView {
    NavItemView {
        title: n.title@,
        href: match n.href {
            Some(h) => Some(resolved(base, h@)),
            None => None,
        },
        download: None,
    }
}

/// The navigation entry for a publication: a download when it has an
/// acquisition link, otherwise only its title.
pub open spec fn publication_entry(p: Opds2Publication, base: Seq<char>) -> NavItemView {
    if acquisition(p.links@) is None {
        NavItemView { title: p.metadata.title@, href: None, download: None }
    } else {
        let b = book_of(p, base);
        NavItemView { title: b.title, href: None, download: Some(context_of(b)) }
    }
}

pub open spec fn group_publications(groups: Seq<Opds2Group>) -> Seq<Opds2Publication>
    decreases groups.len(),
{
    if groups.len() == 0 {
        Seq::empty()
    } else {
        group_publications(groups.drop_last()) + groups.last().publications@
    }
}

pub open spec fn group_navigation(groups: Seq<Opds2Group>) -> Seq<Opds2Nav>
    decreases groups.len(),
{
    if groups.len() == 0 {
        Seq::empty()
    } else {
        group_navigation(groups.drop_last()) + groups.last().navigation@
    }
}

/// All publications of a feed: its own, then those of each group in order.
pub open spec fn feed_publications(f: Opds2Feed) -> Seq<Opds2Publication> {
    f.publications@ + group_publications(f.groups@)
}

/// All navigation links of a feed: its own, then those of each group.
pub open spec fn feed_navigation(f: Opds2Feed) -> Seq<Opds2Nav> {
    f.navigation@ + group_navigation(f.groups@)
}

/// The books of a list of publications, in order; a publication without an
/// acquisition link is skipped.
pub open spec fn books_of(pubs: Seq<Opds2Publication>, base: Seq<char>) -> Seq<BookView>
    decreases pubs.len(),
{
    if pubs.len() == 0 {
        Seq::empty()
    } else {
        let rest = books_of(pubs.drop_last(), base);
        if acquisition(pubs.last().links@) is Some {
            rest.push(book_of(pubs.last(), base))
        } else {
            rest
        }
    }
}

/// The entries a navigation feed offers: navigation links first, then
/// publications, at most `MAX_NAV_ITEMS` of them.
pub open spec fn nav_entries(f: Opds2Feed, base: Seq<char>) -> Seq<NavItemView> {
    let all = feed_navigation(f).map_values(|n: Opds2Nav| nav_entry(n, base)) + feed_publications(
        f,
    ).map_values(|p: Opds2Publication| publication_entry(p, base));
    if all.len() <= MAX_NAV_ITEMS {
        all
    } else {
        all.take(MAX_NAV_ITEMS as int)
    }
}

/// A navigation menu holds at most `MAX_NAV_ITEMS` entries, and its first
/// entries are the feed's navigation links, in order.
pub proof fn lemma_nav_entries_bounded(f: Opds2Feed, base: Seq<char>)
    ensures
        nav_entries(f, base).len() <= MAX_NAV_ITEMS,
        forall|i: int|
            0 <= i < nav_entries(f, base).len() && i < feed_navigation(f).len() ==> #[trigger] nav_entries(
                f,
                base,
            )[i] == nav_entry(feed_navigation(f)[i], base),
{
}

/// The relations that mark a download link.
pub open spec fn is_download_rel(rel: Seq<char>) -> bool {
    ||| rel == "http://opds-spec.org/acquisition"@
    ||| rel == "acquisition"@
    ||| rel == "http://opds-spec.org/acquisition/open-access"@
}

/// A publication's download target is the target of its first link whose
/// relation is `http://opds-spec.org/acquisition`, `acquisition` or
/// `http://opds-spec.org/acquisition/open-access` and whose target is not
/// empty; a publication without such a link has none.
pub proof fn lemma_acquisition_is_first_download_link(links: Seq<Opds2Link>)
    ensures
        forall|i: int|
            0 <= i < links.len() && is_download_rel(link_rel(#[trigger] links[i]))
                && links[i].href@.len() > 0 && (forall|j: int|
                0 <= j < i ==> !(is_download_rel(link_rel(links[j])) && links[j].href@.len()
                    > 0)) ==> acquisition(links) == Some(links[i].href@),
        (forall|j: int|
            0 <= j < links.len() ==> !(is_download_rel(link_rel(#[trigger] links[j]))
                && links[j].href@.len() > 0)) ==> acquisition(links) is None,
    decreases links.len(),
{
    if links.len() > 0 {
        let rest = links.drop_first();
        lemma_acquisition_is_first_download_link(rest);
        assert forall|i: int|
            0 <= i < links.len() && is_download_rel(link_rel(#[trigger] links[i]))
                && links[i].href@.len() > 0 && (forall|j: int|
                0 <= j < i ==> !(is_download_rel(link_rel(links[j])) && links[j].href@.len()
                    > 0)) implies acquisition(links) == Some(links[i].href@) by {
            if i > 0 {
                assert(!(is_download_rel(link_rel(links[0])) && links[0].href@.len() > 0));
                assert(rest[i - 1] == links[i]);
                assert forall|j: int| 0 <= j < i - 1 implies !(is_download_rel(
                    link_rel(rest[j]),
                ) && rest[j].href@.len() > 0) by {
                    assert(rest[j] == links[j + 1]);
                }
            }
        }
        if forall|j: int|
            0 <= j < links.len() ==> !(is_download_rel(link_rel(#[trigger] links[j]))
                && links[j].href@.len() > 0) {
            assert(!(is_download_rel(link_rel(links[0])) && links[0].href@.len() > 0));
            assert forall|j: int| 0 <= j < rest.len() implies !(is_download_rel(
                link_rel(#[trigger] rest[j]),
            ) && rest[j].href@.len() > 0) by {
                assert(rest[j] == links[j + 1]);
            }
        }
    }
}

/// The menu entry of a publication that can be downloaded is labelled with
/// the publication's title, and so is the book it downloads; its link is
/// the publication's download target resolved against the base URL.
pub proof fn lemma_publication_entry_is_the_book(p: Opds2Publication, base: Seq<char>)
    ensures
        publication_entry(p, base).title == p.metadata.title@,
        acquisition(p.links@) is None <==> publication_entry(p, base).download is None,
        acquisition(p.links@) matches Some(h) ==> {
            &&& publication_entry(p, base).download matches Some(d)
            &&& d.title == p.metadata.title@
            &&& d.url == resolved(base, h)
        },
        publication_entry(p, base).href is None,
{
}

pub open spec fn books_view(v: Seq<Book>) -> Seq<BookView> {
    v.map_values(|b: Book| b@)
}

pub open spec fn nav_items_view(v: Seq<NavItem>) -> Seq<NavItemView> {
    v.map_values(|n: NavItem| n@)
}

/// The author name an author field holds, if any.
pub fn extract_author_name(value: &AuthorValue) -> (r: Option<String>)
    ensures
        opt_str_view(r) == author_name(*value),
{
    match value {
        AuthorValue::Text(s) => Some(s.clone()),
        AuthorValue::Object { name } => clone_opt_string(name),
        AuthorValue::List(entries) => {
            if entries.len() > 0 {
                match &entries[0] {
                    AuthorEntry::Text(s) => Some(s.clone()),
                    AuthorEntry::Object { name } => clone_opt_string(name),
                    AuthorEntry::Other => None,
                }
            } else {
                None
            }
        },
        _ => None,
    }
}

/// A link target resolved against the base URL, or the target itself when
/// the two cannot be joined.
pub fn resolve_href(base_url: &str, href: &str) -> (r: String)
    ensures
        r@ == resolved(base_url@, href@),
{
    match join_url(base_url, href) {
        Some(u) => u,
        None => href.to_owned(),
    }
}

/// Whether a navigation target names a feed (a URL or a path) rather than a
/// search (`search:` followed by a query, or a bare word).
pub open spec fn is_feed_target(target: Seq<char>, parsed: Option<UrlPartsView>) -> bool {
    if crate::text::starts_with(target, "search:"@) || target.len() == 0 {
        false
    } else {
        match parsed {
            Some(p) => p.1 == "http"@ || p.1 == "https"@,
            None => target.contains('/'),
        }
    }
}

/// Whether a navigation target names a feed rather than a search, given
/// what URL parsing made of it.
pub fn is_feed_target_parsed(target: &str, parsed: &Option<UrlParts>) -> (r: bool)
    ensures
        r == is_feed_target(target@, opt_parts_view(*parsed)),
{
    let chars = chars_of(target);
    let prefix = chars_of("search:");
    if crate::text::starts_with_chars(&chars, &prefix) || chars.len() == 0 {
        return false;
    }
    match parsed {
        Some(p) => {
            let s = chars_of(p.scheme.as_str());
            chars_eq_str(&s, "http") || chars_eq_str(&s, "https")
        },
        None => {
            let n = chars.len();
            for i in 0..n
                invariant
                    n == chars.len(),
                    chars@ == target@,
                    !crate::text::starts_with(target@, "search:"@),
                    target@.len() > 0,
                    opt_parts_view(*parsed) is None,
                    forall|j: int| 0 <= j < i ==> chars@[j] != '/',
            {
                if chars[i] == '/' {
                    assert(target@[i as int] == '/');
                    return true;
                }
            }
            false
        },
    }
}

/// Whether a navigation target names a feed rather than a search.
pub fn is_opds_href(target: &str) -> (r: bool)
    ensures
        r == is_feed_target(target@, parsed_url(target@)),
{
    let parsed = parse_url(target);
    is_feed_target_parsed(target, &parsed)
}

impl Opds2Publication {
    /// The target of the first acquisition link with a non-empty target.
    pub fn acquisition_href(&self) -> (r: Option<&str>)
        ensures
            match r {
                Some(h) => acquisition(self.links@) == Some(h@),
                None => acquisition(self.links@) is None,
            },
    {
        let n = self.links.len();
        assert(self.links@.skip(0) =~= self.links@);
        for i in 0..n
            invariant
                n == self.links.len(),
                acquisition(self.links@) == acquisition(self.links@.skip(i as int)),
        {
            let link = &self.links[i];
            let ghost rest = self.links@.skip(i as int);
            proof {
                assert(rest[0] == self.links@[i as int]);
                assert(*link == self.links@[i as int]);
                assert(rest.drop_first() =~= self.links@.skip(i + 1));
            }
            let ghost is_acq = is_acquisition_rel(link_rel(*link));
            let acq = match &link.rel {
                Some(rel) => {
                    let r = chars_of(rel.as_str());
                    assert(link_rel(*link) == r@);
                    let a1 = chars_eq_str(&r, "http://opds-spec.org/acquisition");
                    let a2 = chars_eq_str(&r, "acquisition");
                    let a3 = chars_eq_str(&r, "http://opds-spec.org/acquisition/open-access");
                    a1 || a2 || a3
                },
                None => {
                    proof {
                        reveal_strlit("acquisition");
                        reveal_strlit("http://opds-spec.org/acquisition");
                        reveal_strlit("http://opds-spec.org/acquisition/open-access");
                        assert(link_rel(*link) == Seq::<char>::empty());
                        assert("acquisition"@.len() > 0);
                        assert("http://opds-spec.org/acquisition"@.len() > 0);
                        assert("http://opds-spec.org/acquisition/open-access"@.len() > 0);
                    }
                    false
                },
            };
            assert(acq == is_acq);
            if acq && !link.href.as_str().is_empty() {
                return Some(link.href.as_str());
            }
            assert(!(is_acq && link.href@.len() > 0));
        }
        proof {
            assert(self.links@.skip(n as int).len() == 0);
        }
        None
    }

    /// The book this publication describes.
    pub fn into_book(self, base_url: &str) -> (b: Book)
        ensures
            b@ == book_of(self, base_url@),
    {
        let first = extract_author_name(&self.metadata.author);
        let author = match first {
            Some(a) => a,
            None => match extract_author_name(&self.metadata.authors) {
                Some(a) => a,
                None => String::from_str("Неизвестный автор"),
            },
        };
        let relative = match self.acquisition_href() {
            Some(h) => h.to_owned(),
            None => String::new(),
        };
        let url = resolve_href(base_url, relative.as_str());
        let cover_url = if self.images.len() > 0 {
            Some(resolve_href(base_url, self.images[0].href.as_str()))
        } else {
            None
        };
        Book { title: self.metadata.title, author, url, cover_url }
    }

    /// The navigation entry for this publication.
    pub fn into_nav_item(self, base_url: &str) -> (n: NavItem)
        ensures
            n@ == publication_entry(self, base_url@),
    {
        if self.acquisition_href().is_none() {
            return NavItem { title: self.metadata.title, href: None, download: None };
        }
        let book = self.into_book(base_url);
        let context = book.download_context();
        NavItem { title: book.title, href: None, download: Some(context) }
    }
}

impl Opds2Nav {
    /// The navigation entry for this link.
    pub fn into_nav_item(self, base_url: &str) -> (n: NavItem)
        ensures
            n@ == nav_entry(self, base_url@),
    {
        let href = match self.href {
            Some(h) => Some(resolve_href(base_url, h.as_str())),
            None => None,
        };
        NavItem { title: self.title, href, download: None }
    }
}

impl Opds2Feed {
    /// All publications, the feed's own first, then each group's.
    fn all_publications(self) -> (r: (Vec<Opds2Publication>, Vec<Opds2Nav>))
        ensures
            r.0@ == feed_publications(self),
            r.1@ == feed_navigation(self),
    {
        let mut pubs = self.publications;
        let mut navs = self.navigation;
        let ghost own_pubs = pubs@;
        let ghost own_navs = navs@;
        let ghost groups = self.groups@;
        let mut k: usize = 0;
        let mut groups_left = self.groups;
        let group_total = groups_left.len();
        proof {
            assert(groups.take(0) =~= Seq::<Opds2Group>::empty());
            assert(own_pubs + group_publications(Seq::<Opds2Group>::empty()) =~= own_pubs);
            assert(own_navs + group_navigation(Seq::<Opds2Group>::empty()) =~= own_navs);
            assert(groups_left@.skip(0) =~= groups);
        }
        while groups_left.len() > 0
            invariant
                groups.len() == group_total,
                k <= groups.len(),
                groups_left@ == groups.skip(k as int),
                pubs@ == own_pubs + group_publications(groups.take(k as int)),
                navs@ == own_navs + group_navigation(groups.take(k as int)),
            decreases groups_left.len(),
        {
            let mut g = groups_left.remove(0);
            proof {
                assert(g == groups[k as int]);
                assert(groups.take(k + 1).drop_last() =~= groups.take(k as int));
                assert(groups.take(k + 1).last() == g);
                assert(groups_left@ =~= groups.skip(k + 1));
            }
            let ghost gp = g.publications@;
            let ghost gn = g.navigation@;
            pubs.append(&mut g.publications);
            navs.append(&mut g.navigation);
            proof {
                assert(pubs@ =~= own_pubs + group_publications(groups.take(k + 1)));
                assert(navs@ =~= own_navs + group_navigation(groups.take(k + 1)));
            }
            k = k + 1;
        }
        proof {
            assert(groups.take(k as int) =~= groups);
        }
        (pubs, navs)
    }

    /// The books of the feed: its own publications, then those of its
    /// groups; publications without an acquisition link are skipped.
    pub fn into_books(self, base_url: &str) -> (r: Vec<Book>)
        ensures
            books_view(r@) == books_of(feed_publications(self), base_url@),
    {
        let (mut pubs, _navs) = self.all_publications();
        let ghost all = pubs@;
        let total = pubs.len();
        let mut books: Vec<Book> = Vec::new();
        let mut k: usize = 0;
        assert(all.skip(0) =~= all);
        assert(books_view(books@) =~= books_of(all.take(0), base_url@));
        while pubs.len() > 0
            invariant
                all.len() == total,
                k <= all.len(),
                pubs@ == all.skip(k as int),
                books_view(books@) == books_of(all.take(k as int), base_url@),
            decreases pubs.len(),
        {
            let p = pubs.remove(0);
            proof {
                assert(p == all[k as int]);
                assert(pubs@ =~= all.skip(k + 1));
                assert(all.take(k + 1).drop_last() =~= all.take(k as int));
                assert(all.take(k + 1).last() == all[k as int]);
            }
            if p.acquisition_href().is_some() {
                let ghost before = books@;
                let b = p.into_book(base_url);
                books.push(b);
                proof {
                    assert(books_view(books@) =~= books_view(before).push(b@));
                }
            }
            k = k + 1;
        }
        proof {
            assert(all.take(k as int) =~= all);
        }
        books
    }

    /// The entries of a navigation feed: its navigation links, then its
    /// publications, at most `MAX_NAV_ITEMS` of them.
    pub fn into_nav_items(self, base_url: &str) -> (r: Vec<NavItem>)
        ensures
            nav_items_view(r@) == nav_entries(self, base_url@),
    {
        let ghost feed = self;
        let (mut pubs, mut navs) = self.all_publications();
        let ghost all_navs = navs@;
        let ghost all_pubs = pubs@;
        let ghost entries = all_navs.map_values(|n: Opds2Nav| nav_entry(n, base_url@))
            + all_pubs.map_values(|p: Opds2Publication| publication_entry(p, base_url@));
        let mut items: Vec<NavItem> = Vec::new();
        let mut k: usize = 0;
        let nav_total = navs.len();
        let pub_total = pubs.len();
        assert(all_navs.skip(0) =~= all_navs);
        assert(nav_items_view(items@) =~= entries.take(0));
        while navs.len() > 0 && items.len() < MAX_NAV_ITEMS
            invariant
                entries == all_navs.map_values(|n: Opds2Nav| nav_entry(n, base_url@))
                    + all_pubs.map_values(|p: Opds2Publication| publication_entry(p, base_url@)),
                all_navs.len() == nav_total,
                all_pubs.len() == pub_total,
                k <= all_navs.len(),
                k <= MAX_NAV_ITEMS,
                items@.len() == k,
                navs@ == all_navs.skip(k as int),
                pubs@ == all_pubs,
                nav_items_view(items@) == entries.take(k as int),
                entries.len() == all_navs.len() + all_pubs.len(),
            decreases navs.len(),
        {
            let n = navs.remove(0);
            proof {
                assert(n == all_navs[k as int]);
                assert(navs@ =~= all_navs.skip(k + 1));
            }
            let ghost before = items@;
            let item = n.into_nav_item(base_url);
            items.push(item);
            proof {
                assert(entries[k as int] == nav_entry(all_navs[k as int], base_url@));
                assert(items@ == before.push(item));
                assert forall|j: int| 0 <= j < k + 1 implies nav_items_view(items@)[j] == entries.take(
                    k + 1,
                )[j] by {
                    if j < k {
                        assert(items@[j] == before[j]);
                        assert(nav_items_view(before)[j] == entries.take(k as int)[j]);
                    }
                }
                assert(nav_items_view(items@) =~= entries.take(k + 1));
            }
            k = k + 1;
        }
        let mut m: usize = 0;
        assert(all_pubs.skip(0) =~= all_pubs);
        while pubs.len() > 0 && items.len() < MAX_NAV_ITEMS
            invariant
                entries == all_navs.map_values(|n: Opds2Nav| nav_entry(n, base_url@))
                    + all_pubs.map_values(|p: Opds2Publication| publication_entry(p, base_url@)),
                all_navs.len() == nav_total,
                all_pubs.len() == pub_total,
                k <= all_navs.len(),
                k + m <= MAX_NAV_ITEMS,
                m <= all_pubs.len(),
                items@.len() == k + m,
                k < all_navs.len() ==> k == MAX_NAV_ITEMS,
                pubs@ == all_pubs.skip(m as int),
                nav_items_view(items@) == entries.take(k + m),
                entries.len() == all_navs.len() + all_pubs.len(),
                m > 0 ==> k == all_navs.len(),
            decreases pubs.len(),
        {
            let p = pubs.remove(0);
            proof {
                assert(k == all_navs.len());
                assert(p == all_pubs[m as int]);
                assert(pubs@ =~= all_pubs.skip(m + 1));
            }
            let ghost before = items@;
            let item = p.into_nav_item(base_url);
            items.push(item);
            proof {
                assert(entries[k + m] == publication_entry(all_pubs[m as int], base_url@));
                assert(items@ == before.push(item));
                assert forall|j: int| 0 <= j < k + m + 1 implies nav_items_view(items@)[j]
                    == entries.take(k + m + 1)[j] by {
                    if j < k + m {
                        assert(items@[j] == before[j]);
                        assert(nav_items_view(before)[j] == entries.take(k + m)[j]);
                    }
                }
                assert(nav_items_view(items@) =~= entries.take(k + m + 1));
            }
            m = m + 1;
        }
        proof {
            if entries.len() <= MAX_NAV_ITEMS {
                assert(k == all_navs.len());
                assert(m == all_pubs.len());
                assert(entries.take(k + m) =~= entries);
            }
        }
        items
    }
}

// ---------------------------------------------------------------------------
// The origin of the library and the URLs it accepts
// ---------------------------------------------------------------------------

/// Why a URL may not be requested with the library's credentials.
#[derive(Clone, Copy, Debug, PartialEq, Eq, Structural)]
pub enum UrlRejection {
    /// The scheme is neither `http` nor `https`.
    SchemeNotAllowed,
    /// The host or the port differs from the library's.
    OutsideOrigin,
    /// The library is reached over HTTPS but the URL uses HTTP.
    HttpsDowngrade,
}

pub open spec fn is_web_scheme(scheme: Seq<char>) -> bool {
    scheme == "http"@ || scheme == "https"@
}

/// Whether `url` may be requested with the credentials of the library at
/// `base`: an HTTP(S) URL on the same host and port, and no downgrade from
/// HTTPS to HTTP.
pub open spec fn url_verdict(url: UrlPartsView, base: UrlPartsView) -> Result<(), UrlRejection> {
    if !is_web_scheme(url.1) {
        Err(UrlRejection::SchemeNotAllowed)
    } else if url.2 != base.2 || url.3 != base.3 {
        Err(UrlRejection::OutsideOrigin)
    } else if base.1 == "https"@ && url.1 != "https"@ {
        Err(UrlRejection::HttpsDowngrade)
    } else {
        Ok(())
    }
}

fn opt_string_eq(a: &Option<String>, b: &Option<String>) -> (r: bool)
    ensures
        r == (opt_str_view(*a) == opt_str_view(*b)),
{
    match (a, b) {
        (Some(x), Some(y)) => {
            let xc = chars_of(x.as_str());
            let yc = chars_of(y.as_str());
            chars_eq(&xc, &yc)
        },
        (None, None) => true,
        _ => false,
    }
}

/// Checks that `url` may be requested with the credentials of the library
/// at `base_url`.
pub fn ensure_allowed_url(url: &UrlParts, base_url: &UrlParts) -> (r: Result<(), UrlRejection>)
    ensures
        r == url_verdict(url@, base_url@),
{
    let scheme = chars_of(url.scheme.as_str());
    let is_https = chars_eq_str(&scheme, "https");
    if !(chars_eq_str(&scheme, "http") || is_https) {
        return Err(UrlRejection::SchemeNotAllowed);
    }
    if !opt_string_eq(&url.host, &base_url.host) || url.port != base_url.port {
        return Err(UrlRejection::OutsideOrigin);
    }
    let base_scheme = chars_of(base_url.scheme.as_str());
    if chars_eq_str(&base_scheme, "https") && !is_https {
        return Err(UrlRejection::HttpsDowngrade);
    }
    Ok(())
}

/// The library's own address is always allowed when it is an HTTP(S) URL,
/// and any allowed URL has the library's host and port.
pub proof fn lemma_url_verdict(url: UrlPartsView, base: UrlPartsView)
    ensures
        is_web_scheme(base.1) ==> url_verdict(base, base) is Ok,
        url_verdict(url, base) is Ok ==> url.2 == base.2 && url.3 == base.3 && is_web_scheme(
            url.1,
        ),
        url_verdict(url, base) is Ok && base.1 == "https"@ ==> url.1 == "https"@,
{
}

/// Why the configured library address cannot be used.
#[derive(Clone, Copy, Debug, PartialEq, Eq, Structural)]
pub enum OriginError {
    /// The address is not a URL.
    InvalidUrl,
    /// The address is not an HTTP(S) URL with a host.
    UnsupportedUrl,
}

/// The library the bot talks to: its parsed base URL and the
/// `Authorization` header sent with every request, if any.
pub struct OpdsOrigin {
    pub base: UrlParts,
    pub auth_header: Option<String>,
}

/// The `Authorization` header for a user name and password: HTTP Basic
/// credentials, present only when both are.
pub open spec fn basic_auth(user: Option<Seq<char>>, password: Option<Seq<char>>) -> Option<
    Seq<char>,
> {
    match (user, password) {
        (Some(u), Some(p)) => Some("Basic "@ + base64_standard(encode_utf8(u + ":"@ + p))),
        _ => None,
    }
}

/// The path of a search feed for a query.
pub open spec fn search_path(query: Seq<char>) -> Seq<char> {
    "/opds/v2/search/"@ + percent_encode(encode_utf8(query)) + "/?lang=ru"@
}

impl OpdsOrigin {
    /// Checks the library address and prepares the credentials.
    pub fn new(base_url: &str, user: Option<String>, password: Option<String>) -> (r: Result<
        OpdsOrigin,
        OriginError,
    >)
        ensures
            match r {
                Ok(o) => {
                    &&& parsed_url(base_url@) == Some(o.base@)
                    &&& is_web_scheme(o.base@.1)
                    &&& o.base@.2 is Some
                    &&& opt_str_view(o.auth_header) == basic_auth(
                        opt_str_view(user),
                        opt_str_view(password),
                    )
                },
                Err(OriginError::InvalidUrl) => parsed_url(base_url@) is None,
                Err(OriginError::UnsupportedUrl) => match parsed_url(base_url@) {
                    Some(p) => !(is_web_scheme(p.1) && p.2 is Some),
                    None => false,
                },
            },
    {
        match parse_url(base_url) {
            Some(p) => OpdsOrigin::from_parts(p, user, password),
            None => Err(OriginError::InvalidUrl),
        }
    }

    /// The library at the parsed address `base`, when it is an HTTP(S) URL
    /// with a host, with credentials when both a user and a password are
    /// given.
    pub fn from_parts(base: UrlParts, user: Option<String>, password: Option<String>) -> (r:
        Result<OpdsOrigin, OriginError>)
        ensures
            match r {
                Ok(o) => {
                    &&& o.base@ == base@
                    &&& opt_str_view(o.auth_header) == basic_auth(
                        opt_str_view(user),
                        opt_str_view(password),
                    )
                },
                Err(e) => e == OriginError::UnsupportedUrl,
            },
            r is Ok <==> is_web_scheme(base@.1) && base@.2 is Some,
    {
        let scheme = chars_of(base.scheme.as_str());
        if !(chars_eq_str(&scheme, "http") || chars_eq_str(&scheme, "https")) || base.host.is_none() {
            return Err(OriginError::UnsupportedUrl);
        }
        let auth_header = match (user, password) {
            (Some(u), Some(p)) => {
                let mut creds = u;
                push_str(&mut creds, ":");
                push_str(&mut creds, p.as_str());
                let encoded = base64_encode(creds.as_str());
                let mut header = String::from_str("Basic ");
                push_str(&mut header, encoded.as_str());
                Some(header)
            },
            _ => None,
        };
        Ok(OpdsOrigin { base, auth_header })
    }

    /// The URL of the search feed for a query.
    pub fn search_url(&self, query: &str) -> (r: Option<String>)
        ensures
            opt_str_view(r) == joined_url(self.base@.0, search_path(query@)),
    {
        let encoded = url_encode(query);
        let mut path = String::from_str("/opds/v2/search/");
        push_str(&mut path, encoded.as_str());
        push_str(&mut path, "/?lang=ru");
        join_url(self.base.serialized.as_str(), path.as_str())
    }

    /// The URL of the feed of recent additions.
    pub fn recent_url(&self) -> (r: Option<String>)
        ensures
            opt_str_view(r) == joined_url(self.base@.0, "/opds/v2/recent/1/?lang=ru"@),
    {
        join_url(self.base.serialized.as_str(), "/opds/v2/recent/1/?lang=ru")
    }

    /// The URL of a navigation feed named by a link target.
    pub fn navigation_url(&self, href: &str) -> (r: Option<String>)
        ensures
            opt_str_view(r) == joined_url(self.base@.0, href@),
    {
        join_url(self.base.serialized.as_str(), href)
    }
}

} // verus!
