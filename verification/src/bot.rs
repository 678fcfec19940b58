//! The decisions of the bot: who may use it, how often, what a command or a
//! pressed button leads to, and the entries it remembers for its buttons.
//! The caller performs the Telegram and library requests that a decision
//! asks for.
use std::collections::HashSet;
use vstd::prelude::*;
use crate::caches::{
    activity_entries, activity_map_get, activity_map_insert, activity_map_new,
    activity_map_retain_fresh, cover_entries, cover_map_get, cover_map_insert, cover_map_new,
    cover_map_retain_fresh, download_entries, download_map_get, download_map_insert,
    download_map_new, download_map_remove, download_map_retain_fresh, fresh, is_fresh,
    navigation_entries, navigation_map_get, navigation_map_insert, navigation_map_new,
    navigation_map_remove, navigation_map_retain_fresh, result_entries, results_map_get,
    results_map_insert, results_map_new, results_map_remove, results_map_retain_fresh,
    ActivityMap, CachedCover, CachedCoverView, CachedDownload, CachedDownloadView,
    CachedResults, CachedResultsView, CoverMap, DownloadMap, NavigationMap, NavigationTarget,
    NavigationTargetView, ResultsMap,
};
use crate::links::parsed_url;
use crate::messages::{
    book_card_text, button_label, callback_data, callback_request, callback_text, card_text,
    lemma_callback_round_trip, more_label, more_label_text, parse_callback_data,
    progress_message, progress_text, truncate_button_label, CallbackKind, CallbackRequest,
};
use crate::ropds::{
    books_view, context_of, is_feed_target, is_opds_href, nav_items_view, Book, BookView,
    DownloadContext, DownloadContextView, NavItem, NavItemView,
};
use crate::state::ENTRY_TTL_MS;
use crate::text::{
    alphanumeric, chars_of, is_alphanumeric_char, is_space, opt_str_view, trim_start, push_str, string_of,
    strip_prefix, strip_prefix_chars, trim, trim_chars,
};

verus! {

broadcast use {
    vstd::std_specs::hash::axiom_u64_obeys_hash_table_key_model,
    vstd::std_specs::hash::axiom_random_state_builds_valid_hashers,
    vstd::std_specs::hash::axiom_set_contains_deref_key,
};

/// How long a cover stays cached, in milliseconds.
pub const COVER_CACHE_TTL_MS: u64 = 3600000;

/// How long a user's last request time is kept, in milliseconds.
pub const ACTIVITY_TTL_MS: u64 = 3600000;

/// The commands of the bot.
pub enum Cmd {
    /// Show the help.
    Start,
    /// Search books: `/search <query>`.
    Search(String),
    /// Recent additions.
    Recent,
    /// The list of authors.
    Authors,
    /// The list of genres.
    Genres,
}

pub enum CmdView {
    Start,
    Search(Seq<char>),
    Recent,
    Authors,
    Genres,
}

impl View for Cmd {
    type V = CmdView;

    open spec fn view(&self) -> CmdView {
        match self {
            Cmd::Start => CmdView::Start,
            Cmd::Search(q) => CmdView::Search(q@),
            Cmd::Recent => CmdView::Recent,
            Cmd::Authors => CmdView::Authors,
            Cmd::Genres => CmdView::Genres,
        }
    }
}

/// A browsable catalogue of the library.
#[derive(Clone, Copy, Debug, PartialEq, Eq, Structural)]
pub enum Catalog {
    Authors,
    Genres,
}

pub open spec fn catalog_path_text(c: Catalog) -> Seq<char> {
    match c {
        Catalog::Authors => "/opds/v2/authors/?lang=ru"@,
        Catalog::Genres => "/opds/v2/genres/?lang=ru"@,
    }
}

pub open spec fn catalog_name_text(c: Catalog) -> Seq<char> {
    match c {
        Catalog::Authors => "Авторы"@,
        Catalog::Genres => "Жанры"@,
    }
}

/// Each catalogue opens its own feed: the authors' list is the library's
/// authors feed, the genres' list its genres feed, and the two differ.
pub proof fn lemma_catalog_feeds(a: Catalog, b: Catalog)
    ensures
        a != b ==> catalog_path_text(a) != catalog_path_text(b),
        catalog_path_text(Catalog::Authors) == "/opds/v2/authors/?lang=ru"@,
        catalog_path_text(Catalog::Genres) == "/opds/v2/genres/?lang=ru"@,
{
    reveal_strlit("/opds/v2/authors/?lang=ru");
    reveal_strlit("/opds/v2/genres/?lang=ru");
    let x = "/opds/v2/authors/?lang=ru"@;
    let y = "/opds/v2/genres/?lang=ru"@;
    assert(x[9] != y[9]);
}

impl Catalog {
    /// The feed of the catalogue, relative to the library.
    pub fn path(self) -> (r: &'static str)
        ensures
            r@ == catalog_path_text(self),
    {
        match self {
            Catalog::Authors => "/opds/v2/authors/?lang=ru",
            Catalog::Genres => "/opds/v2/genres/?lang=ru",
        }
    }

    /// The heading of the catalogue's menu.
    pub fn name(self) -> (r: &'static str)
        ensures
            r@ == catalog_name_text(self),
    {
        match self {
            Catalog::Authors => "Авторы",
            Catalog::Genres => "Жанры",
        }
    }
}

/// An inline button: its label and its data.
pub struct Button {
    pub label: String,
    pub data: String,
}

pub struct ButtonView {
    pub label: Seq<char>,
    pub data: Seq<char>,
}

impl View for Button {
    type V = ButtonView;

    open spec fn view(&self) -> ButtonView {
        ButtonView { label: self.label@, data: self.data@ }
    }
}

// ---------------------------------------------------------------------------
// State
// ---------------------------------------------------------------------------

/// What the bot remembers: the entries behind its buttons, cached covers,
/// users' last request times, the next button ID, and who may use it.
pub struct BotCore {
    downloads: DownloadMap,
    navigation: NavigationMap,
    results: ResultsMap,
    covers: CoverMap,
    last_activity: ActivityMap,
    next_id: u64,
    allowed_user_ids: HashSet<u64>,
    allow_all_users: bool,
    request_cooldown_ms: u64,
    books_per_page: usize,
}

pub struct BotCoreView {
    pub downloads: Map<u64, CachedDownloadView>,
    pub navigation: Map<u64, NavigationTargetView>,
    pub results: Map<u64, CachedResultsView>,
    pub covers: Map<Seq<char>, CachedCoverView>,
    pub activity: Map<u64, u64>,
    pub next_id: u64,
    pub allowed: Set<u64>,
    pub allow_all: bool,
    pub cooldown: u64,
    pub per_page: usize,
}

impl View for BotCore {
    type V = BotCoreView;

    closed spec fn view(&self) -> BotCoreView {
        BotCoreView {
            downloads: download_entries(self.downloads),
            navigation: navigation_entries(self.navigation),
            results: result_entries(self.results),
            covers: cover_entries(self.covers),
            activity: activity_entries(self.last_activity),
            next_id: self.next_id,
            allowed: self.allowed_user_ids@,
            allow_all: self.allow_all_users,
            cooldown: self.request_cooldown_ms,
            per_page: self.books_per_page,
        }
    }
}

/// The ID after `id`, wrapping around as an atomic counter does.
pub open spec fn next_after(id: u64) -> u64 {
    if id == u64::MAX {
        0
    } else {
        (id + 1) as u64
    }
}

/// The `i`-th ID handed out from `start` on.
pub open spec fn id_at(start: u64, i: nat) -> u64
    decreases i,
{
    if i == 0 {
        start
    } else {
        next_after(id_at(start, (i - 1) as nat))
    }
}

/// Whether the user may use the bot at all.
pub open spec fn user_allowed(s: BotCoreView, user: u64) -> bool {
    s.allow_all || s.allowed.contains(user)
}

/// The rate limit: a request within the cooldown of the user's last
/// accepted request is refused and changes nothing; any other is accepted
/// and becomes the user's last request.
pub open spec fn admission(s: BotCoreView, user: u64, now: u64) -> (bool, BotCoreView) {
    if s.activity.contains_key(user) && is_fresh(s.activity[user], now, s.cooldown) {
        (false, s)
    } else {
        (true, BotCoreView { activity: s.activity.insert(user, now), ..s })
    }
}

/// Whether an entry remembered at `created` can still be used at `now`:
/// entries behind buttons last `ENTRY_TTL_MS`.
pub open spec fn live(created: u64, now: u64) -> bool {
    is_fresh(created, now, ENTRY_TTL_MS)
}

impl BotCore {
    /// A bot with nothing remembered, handing out IDs from 1.
    pub fn new(
        allowed_user_ids: HashSet<u64>,
        allow_all_users: bool,
        request_cooldown_secs: u64,
        books_per_page: usize,
    ) -> (r: BotCore)
        ensures
            r@.downloads.dom() == Set::<u64>::empty(),
            r@.navigation.dom() == Set::<u64>::empty(),
            r@.results.dom() == Set::<u64>::empty(),
            r@.covers.dom() == Set::<Seq<char>>::empty(),
            r@.activity.dom() == Set::<u64>::empty(),
            r@.next_id == 1,
            r@.allowed == allowed_user_ids@,
            r@.allow_all == allow_all_users,
            r@.cooldown == (if request_cooldown_secs * 1000 <= u64::MAX {
                request_cooldown_secs * 1000
            } else {
                u64::MAX as int
            }),
            r@.per_page == books_per_page,
    {
        let cooldown = match request_cooldown_secs.checked_mul(1000) {
            Some(ms) => ms,
            None => u64::MAX,
        };
        BotCore {
            downloads: download_map_new(),
            navigation: navigation_map_new(),
            results: results_map_new(),
            covers: cover_map_new(),
            last_activity: activity_map_new(),
            next_id: 1,
            allowed_user_ids,
            allow_all_users,
            request_cooldown_ms: cooldown,
            books_per_page,
        }
    }

    /// Whether the user may use the bot.
    pub fn is_allowed(&self, user_id: u64) -> (r: bool)
        ensures
            r == user_allowed(self@, user_id),
    {
        self.allow_all_users || self.allowed_user_ids.contains(&user_id)
    }

    /// Applies the rate limit to a request of the user at `now`
    /// (milliseconds on a monotonic clock).
    pub fn allow_request(&mut self, user_id: u64, now: u64) -> (r: bool)
        ensures
            (r, final(self)@) == admission(old(self)@, user_id, now),
    {
        match activity_map_get(&self.last_activity, user_id) {
            Some(last) => {
                if fresh(last, now, self.request_cooldown_ms) {
                    return false;
                }
            },
            None => {},
        }
        activity_map_insert(&mut self.last_activity, user_id, now);
        true
    }

    fn take_id(&mut self) -> (id: u64)
        ensures
            id == old(self)@.next_id,
            final(self)@ == (BotCoreView { next_id: next_after(old(self)@.next_id), ..old(self)@ }),
    {
        let id = self.next_id;
        self.next_id = if self.next_id == u64::MAX {
            0
        } else {
            self.next_id + 1
        };
        id
    }

    /// Remembers a book offered to a user at `now` and returns the ID of the
    /// entry.
    pub fn offer_download(&mut self, owner_id: u64, context: DownloadContext, now: u64) -> (id:
        u64)
        ensures
            id == old(self)@.next_id,
            final(self)@ == offered_download(old(self)@, owner_id, context@, now),
    {
        let id = self.take_id();
        download_map_insert(
            &mut self.downloads,
            id,
            CachedDownload { owner_id, context, created: now },
        );
        id
    }

    /// Remembers a navigation target offered to a user at `now` and returns
    /// the ID of the entry.
    pub fn offer_navigation(&mut self, owner_id: u64, target: String, now: u64) -> (id: u64)
        ensures
            id == old(self)@.next_id,
            final(self)@ == offered_navigation(old(self)@, owner_id, target@, now),
    {
        let id = self.take_id();
        navigation_map_insert(
            &mut self.navigation,
            id,
            NavigationTarget { owner_id, target, created: now },
        );
        id
    }

    /// Remembers at `now` the rest of a list of books shown to a user and
    /// returns the ID of the entry.
    pub fn offer_results(&mut self, owner_id: u64, books: Vec<Book>, offset: usize, now: u64) -> (id:
        u64)
        ensures
            id == old(self)@.next_id,
            final(self)@ == offered_results(old(self)@, owner_id, books_view(books@), offset, now),
    {
        let id = self.take_id();
        results_map_insert(
            &mut self.results,
            id,
            CachedResults { owner_id, books, offset, created: now },
        );
        id
    }
}


// ---------------------------------------------------------------------------
// Commands
// ---------------------------------------------------------------------------

/// What a command leads to.
pub enum CommandAction {
    /// Nothing: the message has no sender.
    Ignore,
    /// Nothing but a log line: the user may not use the bot.
    Unauthorized(u64),
    /// Tell the user to slow down (`Notice::TooManyRequests`).
    Throttled,
    /// Send the welcome message with the menu.
    Start,
    /// Explain how to search (`Notice::SearchUsage`).
    SearchUsage,
    /// Search the library for the query.
    Search(String),
    /// Show the recent additions.
    Recent,
    /// Show a catalogue.
    Browse(Catalog),
}

pub enum CommandActionView {
    Ignore,
    Unauthorized(u64),
    Throttled,
    Start,
    SearchUsage,
    Search(Seq<char>),
    Recent,
    Browse(Catalog),
}

impl View for CommandAction {
    type V = CommandActionView;

    open spec fn view(&self) -> CommandActionView {
        match self {
            CommandAction::Ignore => CommandActionView::Ignore,
            CommandAction::Unauthorized(u) => CommandActionView::Unauthorized(*u),
            CommandAction::Throttled => CommandActionView::Throttled,
            CommandAction::Start => CommandActionView::Start,
            CommandAction::SearchUsage => CommandActionView::SearchUsage,
            CommandAction::Search(q) => CommandActionView::Search(q@),
            CommandAction::Recent => CommandActionView::Recent,
            CommandAction::Browse(c) => CommandActionView::Browse(*c),
        }
    }
}

/// Fewest characters a search query has, white space around it aside.
pub const MIN_QUERY_CHARS: usize = 2;

/// Whether a search query is worth sending to the library: after trimming
/// it has at least `MIN_QUERY_CHARS` characters, one of them alphanumeric.
pub open spec fn valid_query(query: Seq<char>) -> bool {
    let t = trim(query);
    t.len() >= MIN_QUERY_CHARS && exists|i: int| 0 <= i < t.len() && #[trigger] alphanumeric(t[i])
}

/// Checks a search query (see [`valid_query`]).
pub fn is_valid_query(query: &str) -> (r: bool)
    ensures
        r == valid_query(query@),
{
    let chars = chars_of(query);
    let t = trim_chars(&chars);
    if t.len() < MIN_QUERY_CHARS {
        return false;
    }
    let n = t.len();
    for i in 0..n
        invariant
            n == t.len(),
            n >= MIN_QUERY_CHARS,
            t@ == trim(query@),
            forall|j: int| 0 <= j < i ==> !#[trigger] alphanumeric(t@[j]),
    {
        if is_alphanumeric_char(t[i]) {
            assert(alphanumeric(t@[i as int]));
            return true;
        }
    }
    false
}

/// What a command from `user` at `now` leads to, and the state after it:
/// senders are checked against the allowlist, then the rate limit; a search
/// needs a valid query.
pub open spec fn command_step(s: BotCoreView, user: Option<u64>, cmd: CmdView, now: u64) -> (
    CommandActionView,
    BotCoreView,
) {
    match user {
        None => (CommandActionView::Ignore, s),
        Some(u) => if !user_allowed(s, u) {
            (CommandActionView::Unauthorized(u), s)
        } else {
            let (ok, s1) = admission(s, u, now);
            if !ok {
                (CommandActionView::Throttled, s1)
            } else {
                let action = match cmd {
                    CmdView::Start => CommandActionView::Start,
                    CmdView::Search(q) => if valid_query(q) {
                        CommandActionView::Search(q)
                    } else {
                        CommandActionView::SearchUsage
                    },
                    CmdView::Recent => CommandActionView::Recent,
                    CmdView::Authors => CommandActionView::Browse(Catalog::Authors),
                    CmdView::Genres => CommandActionView::Browse(Catalog::Genres),
                };
                (action, s1)
            }
        },
    }
}

// ---------------------------------------------------------------------------
// Pressed buttons
// ---------------------------------------------------------------------------

/// What a pressed button leads to.
pub enum CallbackAction {
    /// Answer with `Notice::AccessDenied`.
    Denied,
    /// Answer with `Notice::TooManyRequests`.
    Throttled,
    /// Do nothing.
    Ignore,
    /// Answer the button, nothing more.
    Acknowledge,
    /// Answer, then show the books from `offset` on.
    ShowPage { books: Vec<Book>, offset: usize },
    /// Answer, then show the navigation feed at `href`.
    OpenFeed { href: String },
    /// Answer, then search the library for `query`.
    Search { query: String },
    /// Answer with `Notice::LinkExpired`.
    Expired,
    /// Answer with `Notice::NotYourButton`.
    NotYours,
    /// Answer, then download the book.
    Download { context: DownloadContext },
}

pub enum CallbackActionView {
    Denied,
    Throttled,
    Ignore,
    Acknowledge,
    ShowPage { books: Seq<BookView>, offset: usize },
    OpenFeed { href: Seq<char> },
    Search { query: Seq<char> },
    Expired,
    NotYours,
    Download { context: DownloadContextView },
}

impl View for CallbackAction {
    type V = CallbackActionView;

    open spec fn view(&self) -> CallbackActionView {
        match self {
            CallbackAction::Denied => CallbackActionView::Denied,
            CallbackAction::Throttled => CallbackActionView::Throttled,
            CallbackAction::Ignore => CallbackActionView::Ignore,
            CallbackAction::Acknowledge => CallbackActionView::Acknowledge,
            CallbackAction::ShowPage { books, offset } => CallbackActionView::ShowPage {
                books: books_view(books@),
                offset: *offset,
            },
            CallbackAction::OpenFeed { href } => CallbackActionView::OpenFeed { href: href@ },
            CallbackAction::Search { query } => CallbackActionView::Search { query: query@ },
            CallbackAction::Expired => CallbackActionView::Expired,
            CallbackAction::NotYours => CallbackActionView::NotYours,
            CallbackAction::Download { context } => CallbackActionView::Download {
                context: context@,
            },
        }
    }
}

/// The search a navigation target that is not a feed stands for.
pub open spec fn search_query_of(target: Seq<char>) -> Seq<char> {
    match strip_prefix(target, "search:"@) {
        Some(q) => q,
        None => target,
    }
}

/// What a button pressed by `requester` at `now` leads to, and the state
/// after it. An entry is used once, only by the user it was offered to, and
/// only while it is live: the entry of a button pressed by its owner is
/// removed, one pressed by anyone else stays.
pub open spec fn callback_step(s: BotCoreView, requester: u64, data: Option<Seq<char>>, now: u64) -> (
    CallbackActionView,
    BotCoreView,
) {
    if !user_allowed(s, requester) {
        (CallbackActionView::Denied, s)
    } else {
        let (ok, s1) = admission(s, requester, now);
        if !ok {
            (CallbackActionView::Throttled, s1)
        } else {
            match data {
                None => (CallbackActionView::Ignore, s1),
                Some(d) => match callback_request(d) {
                    CallbackRequest::More(Some(id)) => if s1.results.contains_key(id) && live(
                        s1.results[id].created,
                        now,
                    ) && s1.results[id].owner_id == requester {
                        (
                            CallbackActionView::ShowPage {
                                books: s1.results[id].books,
                                offset: s1.results[id].offset,
                            },
                            BotCoreView { results: s1.results.remove(id), ..s1 },
                        )
                    } else {
                        (CallbackActionView::Acknowledge, s1)
                    },
                    CallbackRequest::More(None) => (CallbackActionView::Acknowledge, s1),
                    CallbackRequest::Nav(Some(id)) => if s1.navigation.contains_key(id) && live(
                        s1.navigation[id].created,
                        now,
                    ) && s1.navigation[id].owner_id == requester {
                        let t = s1.navigation[id].target;
                        let s2 = BotCoreView { navigation: s1.navigation.remove(id), ..s1 };
                        if is_feed_target(t, parsed_url(t)) {
                            (CallbackActionView::OpenFeed { href: t }, s2)
                        } else {
                            (CallbackActionView::Search { query: search_query_of(t) }, s2)
                        }
                    } else {
                        (CallbackActionView::Acknowledge, s1)
                    },
                    CallbackRequest::Nav(None) => (CallbackActionView::Acknowledge, s1),
                    CallbackRequest::Download(Some(id)) => if !s1.downloads.contains_key(id) || !live(
                        s1.downloads[id].created,
                        now,
                    ) {
                        (CallbackActionView::Expired, s1)
                    } else if s1.downloads[id].owner_id != requester {
                        (CallbackActionView::NotYours, s1)
                    } else {
                        (
                            CallbackActionView::Download { context: s1.downloads[id].context },
                            BotCoreView { downloads: s1.downloads.remove(id), ..s1 },
                        )
                    },
                    CallbackRequest::Download(None) => (CallbackActionView::Ignore, s1),
                    CallbackRequest::Unknown => (CallbackActionView::Ignore, s1),
                },
            }
        }
    }
}

impl BotCore {
    /// Decides what a command from `user_id` at `now` leads to.
    pub fn on_command(&mut self, user_id: Option<u64>, cmd: Cmd, now: u64) -> (r: CommandAction)
        ensures
            (r@, final(self)@) == command_step(old(self)@, user_id, cmd@, now),
    {
        let user = match user_id {
            None => return CommandAction::Ignore,
            Some(u) => u,
        };
        if !self.is_allowed(user) {
            return CommandAction::Unauthorized(user);
        }
        if !self.allow_request(user, now) {
            return CommandAction::Throttled;
        }
        match cmd {
            Cmd::Start => CommandAction::Start,
            Cmd::Search(query) => if is_valid_query(query.as_str()) {
                CommandAction::Search(query)
            } else {
                CommandAction::SearchUsage
            },
            Cmd::Recent => CommandAction::Recent,
            Cmd::Authors => CommandAction::Browse(Catalog::Authors),
            Cmd::Genres => CommandAction::Browse(Catalog::Genres),
        }
    }

    /// Decides what a button with `data`, pressed by `requester` at `now`,
    /// leads to.
    pub fn on_callback(&mut self, requester: u64, data: Option<String>, now: u64) -> (r:
        CallbackAction)
        ensures
            (r@, final(self)@) == callback_step(old(self)@, requester, opt_str_view(data), now),
    {
        if !self.is_allowed(requester) {
            return CallbackAction::Denied;
        }
        if !self.allow_request(requester, now) {
            return CallbackAction::Throttled;
        }
        let data = match data {
            None => return CallbackAction::Ignore,
            Some(d) => d,
        };
        match parse_callback_data(data.as_str()) {
            CallbackRequest::More(Some(id)) => match results_map_get(&self.results, id) {
                Some(page) => if fresh(page.created, now, ENTRY_TTL_MS) && page.owner_id
                    == requester {
                    results_map_remove(&mut self.results, id);
                    CallbackAction::ShowPage { books: page.books, offset: page.offset }
                } else {
                    CallbackAction::Acknowledge
                },
                None => CallbackAction::Acknowledge,
            },
            CallbackRequest::More(None) => CallbackAction::Acknowledge,
            CallbackRequest::Nav(Some(id)) => match navigation_map_get(&self.navigation, id) {
                Some(entry) => if fresh(entry.created, now, ENTRY_TTL_MS) && entry.owner_id
                    == requester {
                    navigation_map_remove(&mut self.navigation, id);
                    let target = entry.target;
                    if is_opds_href(target.as_str()) {
                        CallbackAction::OpenFeed { href: target }
                    } else {
                        let chars = chars_of(target.as_str());
                        match strip_prefix_chars(&chars, "search:") {
                            Some(rest) => CallbackAction::Search { query: string_of(&rest) },
                            None => CallbackAction::Search { query: target },
                        }
                    }
                } else {
                    CallbackAction::Acknowledge
                },
                None => CallbackAction::Acknowledge,
            },
            CallbackRequest::Nav(None) => CallbackAction::Acknowledge,
            CallbackRequest::Download(Some(id)) => match download_map_get(&self.downloads, id) {
                None => CallbackAction::Expired,
                Some(entry) => if !fresh(entry.created, now, ENTRY_TTL_MS) {
                    CallbackAction::Expired
                } else if entry.owner_id != requester {
                    CallbackAction::NotYours
                } else {
                    download_map_remove(&mut self.downloads, id);
                    CallbackAction::Download { context: entry.context }
                },
            },
            CallbackRequest::Download(None) => CallbackAction::Ignore,
            CallbackRequest::Unknown => CallbackAction::Ignore,
        }
    }
}


// ---------------------------------------------------------------------------
// Buttons for navigation entries
// ---------------------------------------------------------------------------

/// Where a navigation entry that is not a download leads: its link, or a
/// search for its title.
pub open spec fn nav_target(item: NavItemView) -> Seq<char> {
    match item.href {
        Some(h) => h,
        None => "search:"@ + item.title,
    }
}

/// The button for a navigation entry remembered under `id`.
pub open spec fn nav_button(item: NavItemView, id: u64) -> ButtonView {
    ButtonView {
        label: button_label(item.title),
        data: if item.download is Some {
            callback_text(CallbackKind::Download, id)
        } else {
            callback_text(CallbackKind::Nav, id)
        },
    }
}

/// The state after remembering at `now` one navigation entry for `owner`:
/// a download entry for a book, a navigation target otherwise, under the
/// next ID.
pub open spec fn after_nav_item(s: BotCoreView, owner: u64, item: NavItemView, now: u64) -> BotCoreView {
    match item.download {
        Some(ctx) => offered_download(s, owner, ctx, now),
        None => offered_navigation(s, owner, nav_target(item), now),
    }
}

/// The state after remembering navigation entries one after the other.
pub open spec fn after_nav_items(
    s: BotCoreView,
    owner: u64,
    items: Seq<NavItemView>,
    now: u64,
) -> BotCoreView
    decreases items.len(),
{
    if items.len() == 0 {
        s
    } else {
        after_nav_item(after_nav_items(s, owner, items.drop_last(), now), owner, items.last(), now)
    }
}

pub proof fn lemma_after_nav_items_next_id(
    s: BotCoreView,
    owner: u64,
    items: Seq<NavItemView>,
    now: u64,
)
    ensures
        after_nav_items(s, owner, items, now).next_id == id_at(s.next_id, items.len()),
    decreases items.len(),
{
    if items.len() > 0 {
        lemma_after_nav_items_next_id(s, owner, items.drop_last(), now);
    }
}

pub open spec fn buttons_view(v: Seq<Button>) -> Seq<ButtonView> {
    v.map_values(|b: Button| b@)
}

impl BotCore {
    /// The button for a navigation entry offered to `owner` at `now`,
    /// remembering the entry behind it.
    pub fn nav_or_download_button(&mut self, owner_id: u64, item: NavItem, now: u64) -> (r: Button)
        ensures
            r@ == nav_button(item@, old(self)@.next_id),
            final(self)@ == after_nav_item(old(self)@, owner_id, item@, now),
    {
        let label = truncate_button_label(item.title.as_str());
        match item.download {
            Some(context) => {
                let id = self.offer_download(owner_id, context, now);
                Button { label, data: callback_data(CallbackKind::Download, id) }
            },
            None => {
                let target = match item.href {
                    Some(h) => h,
                    None => {
                        let mut t = String::from_str("search:");
                        push_str(&mut t, item.title.as_str());
                        t
                    },
                };
                let id = self.offer_navigation(owner_id, target, now);
                Button { label, data: callback_data(CallbackKind::Nav, id) }
            },
        }
    }

    /// One button per navigation entry, in order, each remembered for
    /// `owner` at `now` under consecutive IDs.
    pub fn cache_nav_rows(&mut self, owner_id: u64, items: Vec<NavItem>, now: u64) -> (r: Vec<
        Button,
    >)
        ensures
            r@.len() == items@.len(),
            forall|i: int|
                0 <= i < r@.len() ==> #[trigger] r@[i]@ == nav_button(
                    items@[i]@,
                    id_at(old(self)@.next_id, i as nat),
                ),
            final(self)@ == after_nav_items(old(self)@, owner_id, nav_items_view(items@), now),
    {
        let ghost all = items@;
        let ghost start = self@;
        let total = items.len();
        let mut rest = items;
        let mut buttons: Vec<Button> = Vec::new();
        let mut k: usize = 0;
        proof {
            assert(all.skip(0) =~= all);
            assert(nav_items_view(all.take(0)) =~= Seq::<NavItemView>::empty());
        }
        while rest.len() > 0
            invariant
                all.len() == total,
                k <= total,
                rest@ == all.skip(k as int),
                buttons@.len() == k,
                forall|i: int|
                    0 <= i < k ==> #[trigger] buttons@[i]@ == nav_button(
                        all[i]@,
                        id_at(start.next_id, i as nat),
                    ),
                self@ == after_nav_items(start, owner_id, nav_items_view(all.take(k as int)), now),
            decreases rest.len(),
        {
            let item = rest.remove(0);
            proof {
                assert(item == all[k as int]);
                assert(rest@ =~= all.skip(k + 1));
                lemma_after_nav_items_next_id(
                    start,
                    owner_id,
                    nav_items_view(all.take(k as int)),
                    now,
                );
            }
            let ghost before = buttons@;
            let b = self.nav_or_download_button(owner_id, item, now);
            buttons.push(b);
            proof {
                let prev = nav_items_view(all.take(k as int));
                let next = nav_items_view(all.take(k + 1));
                assert(next =~= prev.push(all[k as int]@));
                assert(next.drop_last() =~= prev);
                assert forall|i: int| 0 <= i < k + 1 implies #[trigger] buttons@[i]@ == nav_button(
                    all[i]@,
                    id_at(start.next_id, i as nat),
                ) by {
                    if i < k {
                        assert(buttons@[i] == before[i]);
                    }
                }
            }
            k = k + 1;
        }
        proof {
            assert(all.take(k as int) =~= all);
        }
        buttons
    }
}

// ---------------------------------------------------------------------------
// Pages of books
// ---------------------------------------------------------------------------

/// A book shown as a card with a download button.
pub struct BookCard {
    pub book: Book,
    pub data: String,
    pub text: String,
}

/// The message and the button below a page when more books follow.
pub struct MoreButton {
    pub text: String,
    pub label: String,
    pub data: String,
}

/// A page of a list of books.
pub struct BookPage {
    pub cards: Vec<BookCard>,
    pub more: Option<MoreButton>,
}

pub open spec fn min_nat(a: nat, b: nat) -> nat {
    if a <= b {
        a
    } else {
        b
    }
}

/// Index of the first book on the page at `offset`.
pub open spec fn page_start(offset: nat, total: nat) -> nat {
    min_nat(offset, total)
}

/// Index after the last book on the page at `offset`.
pub open spec fn page_end(offset: nat, per_page: nat, total: nat) -> nat {
    min_nat(offset + per_page, total)
}

/// Offset of the page after the one at `offset`, saturating.
pub open spec fn next_offset(offset: usize, per_page: usize) -> nat {
    min_nat((offset + per_page) as nat, usize::MAX as nat)
}

/// The state after remembering at `now` a download entry for each of
/// `books`.
pub open spec fn after_cards(s: BotCoreView, owner: u64, books: Seq<BookView>, now: u64) -> BotCoreView
    decreases books.len(),
{
    if books.len() == 0 {
        s
    } else {
        offered_download(
            after_cards(s, owner, books.drop_last(), now),
            owner,
            context_of(books.last()),
            now,
        )
    }
}

pub proof fn lemma_after_cards_next_id(s: BotCoreView, owner: u64, books: Seq<BookView>, now: u64)
    ensures
        after_cards(s, owner, books, now).next_id == id_at(s.next_id, books.len()),
    decreases books.len(),
{
    if books.len() > 0 {
        lemma_after_cards_next_id(s, owner, books.drop_last(), now);
    }
}

/// The books of the page at `offset`.
pub open spec fn page_books(books: Seq<BookView>, offset: usize, per_page: usize) -> Seq<BookView> {
    books.subrange(
        page_start(offset as nat, books.len()) as int,
        page_end(offset as nat, per_page as nat, books.len()) as int,
    )
}

/// The state after a page is shown at `now`: each book gets a download
/// entry, and when books remain after the page, the list is remembered
/// with the offset of the next page.
pub open spec fn page_state(
    s: BotCoreView,
    owner: u64,
    books: Seq<BookView>,
    offset: usize,
    now: u64,
) -> BotCoreView {
    let s1 = after_cards(s, owner, page_books(books, offset, s.per_page), now);
    let next = next_offset(offset, s.per_page);
    if next < books.len() {
        offered_results(s1, owner, books, next as usize, now)
    } else {
        s1
    }
}

/// What the page of `books` at `offset`, shown to `owner` at `now` from
/// state `s`, holds: one card per book of the page, in order, with the
/// book, its text and the data of its download button (consecutive IDs
/// from `s.next_id`); and, exactly when books remain after the page, the
/// progress text and the "more" button under the next ID.
pub open spec fn shows_page(
    r: BookPage,
    s: BotCoreView,
    owner: u64,
    books: Seq<BookView>,
    offset: usize,
    now: u64,
) -> bool {
    let shown = page_books(books, offset, s.per_page);
    let s1 = after_cards(s, owner, shown, now);
    let next = next_offset(offset, s.per_page);
    &&& r.cards@.len() == shown.len()
    &&& forall|i: int|
        0 <= i < shown.len() ==> {
            &&& (#[trigger] r.cards@[i]).book@ == shown[i]
            &&& r.cards@[i].data@ == callback_text(CallbackKind::Download, id_at(s.next_id, i as nat))
            &&& r.cards@[i].text@ == card_text(shown[i].title, shown[i].author)
        }
    &&& (next < books.len()) == (r.more is Some)
    &&& r.more matches Some(m) ==> {
        &&& m.text@ == progress_text(next, books.len())
        &&& m.label@ == more_label_text((books.len() - next) as nat)
        &&& m.data@ == callback_text(CallbackKind::More, s1.next_id)
    }
}

impl BotCore {
    /// The page of `books` at `offset` for `owner` at `now`, with a
    /// download button per book and, when books remain, a button for the
    /// next page.
    pub fn book_page(&mut self, owner_id: u64, books: Vec<Book>, offset: usize, now: u64) -> (r:
        BookPage)
        ensures
            shows_page(r, old(self)@, owner_id, books_view(books@), offset, now),
            final(self)@ == page_state(old(self)@, owner_id, books_view(books@), offset, now),
    {
        let ghost start_state = self@;
        let ghost all = books_view(books@);
        let per_page = self.books_per_page;
        let total = books.len();
        let first = if offset < total {
            offset
        } else {
            total
        };
        let last = if per_page < total && offset < total - per_page {
            offset + per_page
        } else {
            total
        };
        let ghost shown = page_books(all, offset, per_page);
        assert(shown.len() == last - first);
        let mut cards: Vec<BookCard> = Vec::new();
        let mut i: usize = first;
        proof {
            assert(shown.take(0) =~= Seq::<BookView>::empty());
        }
        while i < last
            invariant
                first <= i <= last <= total,
                total == books@.len(),
                all == books_view(books@),
                shown == all.subrange(first as int, last as int),
                cards@.len() == i - first,
                forall|j: int|
                    0 <= j < i - first ==> {
                        &&& (#[trigger] cards@[j]).book@ == shown[j]
                        &&& cards@[j].data@ == callback_text(
                            CallbackKind::Download,
                            id_at(start_state.next_id, j as nat),
                        )
                        &&& cards@[j].text@ == card_text(shown[j].title, shown[j].author)
                    },
                self@ == after_cards(start_state, owner_id, shown.take(i - first), now),
            decreases last - i,
        {
            let book = books[i].duplicate();
            let context = book.download_context();
            proof {
                lemma_after_cards_next_id(start_state, owner_id, shown.take(i - first), now);
                assert(all[i as int] == books@[i as int]@);
                assert(shown[i - first] == all[i as int]);
            }
            let id = self.offer_download(owner_id, context, now);
            let data = callback_data(CallbackKind::Download, id);
            let text = book_card_text(&book);
            let ghost before = cards@;
            cards.push(BookCard { book, data, text });
            proof {
                let prev = shown.take(i - first);
                let next = shown.take(i + 1 - first);
                assert(next.drop_last() =~= prev);
                assert(next.last() == shown[i - first]);
                assert forall|j: int| 0 <= j < i + 1 - first implies {
                    &&& (#[trigger] cards@[j]).book@ == shown[j]
                    &&& cards@[j].data@ == callback_text(
                        CallbackKind::Download,
                        id_at(start_state.next_id, j as nat),
                    )
                    &&& cards@[j].text@ == card_text(shown[j].title, shown[j].author)
                } by {
                    if j < i - first {
                        assert(cards@[j] == before[j]);
                    }
                }
            }
            i = i + 1;
        }
        proof {
            assert(shown.take(last - first) =~= shown);
            lemma_after_cards_next_id(start_state, owner_id, shown, now);
        }
        let next = offset.saturating_add(per_page);
        if next < total {
            let remaining = total - next;
            let text = progress_message(next, total);
            let label = more_label(remaining);
            let id = self.offer_results(owner_id, books, next, now);
            let data = callback_data(CallbackKind::More, id);
            BookPage { cards, more: Some(MoreButton { text, label, data }) }
        } else {
            BookPage { cards, more: None }
        }
    }
}


// ---------------------------------------------------------------------------
// Results, covers and housekeeping
// ---------------------------------------------------------------------------

/// How a list of books fetched for a user is presented.
pub enum BookResults {
    /// The library could not be asked (`Notice::RopdsError`).
    Failed,
    /// Nothing was found (`Notice::NothingFound`).
    Empty,
    /// The first page.
    Page(BookPage),
}

/// The texts and buttons of a catalogue menu.
pub struct CatalogMenu {
    pub title: String,
    pub buttons: Vec<Button>,
}

pub open spec fn catalog_menu_title(c: Catalog) -> Seq<char> {
    crate::messages::catalog_title_text(catalog_name_text(c))
}

impl BotCore {
    /// Presents at `now` the outcome of a search or of the recent additions:
    /// an error, nothing found, or the first page for `owner`.
    pub fn book_results(&mut self, owner_id: u64, result: Option<Vec<Book>>, now: u64) -> (r:
        BookResults)
        ensures
            result is None ==> r is Failed && final(self)@ == old(self)@,
            result matches Some(books) ==> (books@.len() == 0 ==> r is Empty && final(self)@ == old(
                self,
            )@),
            result matches Some(books) ==> (books@.len() > 0 ==> (r matches BookResults::Page(p)
                && shows_page(p, old(self)@, owner_id, books_view(books@), 0, now)) && final(self)@
                == page_state(old(self)@, owner_id, books_view(books@), 0, now)),
    {
        match result {
            None => BookResults::Failed,
            Some(books) => if books.len() == 0 {
                BookResults::Empty
            } else {
                BookResults::Page(self.book_page(owner_id, books, 0, now))
            },
        }
    }

    /// The menu of a catalogue whose feed held `items`, for `owner` at `now`;
    /// `None` when the list is empty (`Notice::EmptyList`).
    pub fn catalog_menu(
        &mut self,
        owner_id: u64,
        catalog: Catalog,
        items: Vec<NavItem>,
        now: u64,
    ) -> (r: Option<CatalogMenu>)
        ensures
            items@.len() == 0 ==> r is None && final(self)@ == old(self)@,
            items@.len() > 0 ==> (r matches Some(m) && m.title@ == catalog_menu_title(catalog)
                && m.buttons@.len() == items@.len() && final(self)@ == after_nav_items(
                old(self)@,
                owner_id,
                nav_items_view(items@),
                now,
            ) && forall|i: int|
                0 <= i < m.buttons@.len() ==> #[trigger] m.buttons@[i]@ == nav_button(
                    items@[i]@,
                    id_at(old(self)@.next_id, i as nat),
                )),
    {
        if items.len() == 0 {
            return None;
        }
        let buttons = self.cache_nav_rows(owner_id, items, now);
        let mut title = String::from_str("📂 *");
        push_str(&mut title, catalog.name());
        push_str(&mut title, "* \\(выберите для поиска\\):");
        Some(CatalogMenu { title, buttons })
    }

    /// The buttons of a navigation feed whose entries are `items`, for
    /// `owner` at `now`; `None` when the feed is empty (`Notice::EmptyList`).
    pub fn navigation_menu(&mut self, owner_id: u64, items: Vec<NavItem>, now: u64) -> (r: Option<
        Vec<Button>,
    >)
        ensures
            items@.len() == 0 ==> r is None && final(self)@ == old(self)@,
            items@.len() > 0 ==> (r matches Some(buttons) && buttons@.len() == items@.len()
                && final(self)@ == after_nav_items(old(self)@, owner_id, nav_items_view(items@), now)
                && forall|i: int|
                0 <= i < buttons@.len() ==> #[trigger] buttons@[i]@ == nav_button(
                    items@[i]@,
                    id_at(old(self)@.next_id, i as nat),
                )),
    {
        if items.len() == 0 {
            return None;
        }
        Some(self.cache_nav_rows(owner_id, items, now))
    }

    /// The cover cached for `url`, if it is younger than
    /// `COVER_CACHE_TTL_MS` at `now`.
    pub fn cached_cover(&self, url: &str, now: u64) -> (r: Option<Vec<u8>>)
        ensures
            r is Some <==> self@.covers.contains_key(url@) && is_fresh(
                self@.covers[url@].created,
                now,
                COVER_CACHE_TTL_MS,
            ),
            r matches Some(b) ==> b@ == self@.covers[url@].bytes,
    {
        match cover_map_get(&self.covers, url) {
            Some(c) => if fresh(c.created, now, COVER_CACHE_TTL_MS) {
                Some(c.bytes)
            } else {
                None
            },
            None => None,
        }
    }

    /// Caches the cover fetched from `url` at `now`.
    pub fn store_cover(&mut self, url: &str, bytes: Vec<u8>, now: u64)
        ensures
            final(self)@ == (BotCoreView {
                covers: old(self)@.covers.insert(url@, CachedCoverView { created: now, bytes: bytes@ }),
                ..old(self)@
            }),
    {
        cover_map_insert(&mut self.covers, url.to_owned(), CachedCover { created: now, bytes });
    }

    /// Forgets, at `now`, covers and request times older than an hour and
    /// entries behind buttons that are no longer live.
    pub fn prune(&mut self, now: u64)
        ensures
            final(self)@.covers == old(self)@.covers.restrict(
                Set::new(
                    |k: Seq<char>|
                        old(self)@.covers.contains_key(k) && is_fresh(
                            old(self)@.covers[k].created,
                            now,
                            COVER_CACHE_TTL_MS,
                        ),
                ),
            ),
            final(self)@.activity == old(self)@.activity.restrict(
                Set::new(
                    |k: u64|
                        old(self)@.activity.contains_key(k) && is_fresh(
                            old(self)@.activity[k],
                            now,
                            ACTIVITY_TTL_MS,
                        ),
                ),
            ),
            final(self)@.downloads == old(self)@.downloads.restrict(
                Set::new(
                    |k: u64|
                        old(self)@.downloads.contains_key(k) && live(
                            old(self)@.downloads[k].created,
                            now,
                        ),
                ),
            ),
            final(self)@.navigation == old(self)@.navigation.restrict(
                Set::new(
                    |k: u64|
                        old(self)@.navigation.contains_key(k) && live(
                            old(self)@.navigation[k].created,
                            now,
                        ),
                ),
            ),
            final(self)@.results == old(self)@.results.restrict(
                Set::new(
                    |k: u64|
                        old(self)@.results.contains_key(k) && live(
                            old(self)@.results[k].created,
                            now,
                        ),
                ),
            ),
            final(self)@ == (BotCoreView {
                covers: final(self)@.covers,
                activity: final(self)@.activity,
                downloads: final(self)@.downloads,
                navigation: final(self)@.navigation,
                results: final(self)@.results,
                ..old(self)@
            }),
    {
        cover_map_retain_fresh(&mut self.covers, now, COVER_CACHE_TTL_MS);
        activity_map_retain_fresh(&mut self.last_activity, now, ACTIVITY_TTL_MS);
        download_map_retain_fresh(&mut self.downloads, now, ENTRY_TTL_MS);
        navigation_map_retain_fresh(&mut self.navigation, now, ENTRY_TTL_MS);
        results_map_retain_fresh(&mut self.results, now, ENTRY_TTL_MS);
    }
}

// ---------------------------------------------------------------------------
// Laws
// ---------------------------------------------------------------------------

/// The state after `BotCore::offer_download` at `at`.
pub open spec fn offered_download(
    s: BotCoreView,
    owner: u64,
    context: DownloadContextView,
    at: u64,
) -> BotCoreView {
    BotCoreView {
        downloads: s.downloads.insert(
            s.next_id,
            CachedDownloadView { owner_id: owner, context, created: at },
        ),
        next_id: next_after(s.next_id),
        ..s
    }
}

/// The state after `BotCore::offer_navigation` at `at`.
pub open spec fn offered_navigation(s: BotCoreView, owner: u64, target: Seq<char>, at: u64) -> BotCoreView {
    BotCoreView {
        navigation: s.navigation.insert(
            s.next_id,
            NavigationTargetView { owner_id: owner, target, created: at },
        ),
        next_id: next_after(s.next_id),
        ..s
    }
}

/// The state after `BotCore::offer_results` at `at`.
pub open spec fn offered_results(
    s: BotCoreView,
    owner: u64,
    books: Seq<BookView>,
    offset: usize,
    at: u64,
) -> BotCoreView {
    BotCoreView {
        results: s.results.insert(
            s.next_id,
            CachedResultsView { owner_id: owner, books, offset, created: at },
        ),
        next_id: next_after(s.next_id),
        ..s
    }
}

/// A request within the cooldown of the last accepted one is refused; one
/// after it is accepted. A refused request changes nothing.
pub proof fn lemma_cooldown(s: BotCoreView, user: u64, first: u64, second: u64)
    requires
        admission(s, user, first).0,
        first <= second,
    ensures
        admission(admission(s, user, first).1, user, second).0 <==> second - first >= s.cooldown,
        !admission(admission(s, user, first).1, user, second).0 ==> admission(
            admission(s, user, first).1,
            user,
            second,
        ).1 == admission(s, user, first).1,
{
}

/// A download button pressed, while its entry is live, by the user it was
/// offered to hands out the book and forgets the entry.
pub proof fn lemma_download_claimed_by_owner(
    s: BotCoreView,
    owner: u64,
    context: DownloadContextView,
    at: u64,
    now: u64,
)
    requires
        user_allowed(s, owner),
        live(at, now),
        admission(offered_download(s, owner, context, at), owner, now).0,
    ensures
        ({
            let s1 = offered_download(s, owner, context, at);
            let (action, s2) = callback_step(
                s1,
                owner,
                Some(callback_text(CallbackKind::Download, s.next_id)),
                now,
            );
            &&& action == CallbackActionView::Download { context }
            &&& !s2.downloads.contains_key(s.next_id)
            &&& s2 == BotCoreView {
                downloads: s1.downloads.remove(s.next_id),
                ..admission(s1, owner, now).1
            }
        }),
{
    lemma_callback_round_trip(CallbackKind::Download, s.next_id);
}

/// A download button pressed by anyone else while its entry is live is
/// refused as someone else's, and the entry stays for its owner.
pub proof fn lemma_download_not_claimed_by_others(
    s: BotCoreView,
    owner: u64,
    other: u64,
    context: DownloadContextView,
    at: u64,
    now: u64,
)
    requires
        other != owner,
        user_allowed(s, other),
        live(at, now),
        admission(offered_download(s, owner, context, at), other, now).0,
    ensures
        ({
            let s1 = offered_download(s, owner, context, at);
            let (action, s2) = callback_step(
                s1,
                other,
                Some(callback_text(CallbackKind::Download, s.next_id)),
                now,
            );
            &&& action == CallbackActionView::NotYours
            &&& s2.downloads == s1.downloads
        }),
{
    lemma_callback_round_trip(CallbackKind::Download, s.next_id);
}

/// A download button whose entry is gone (claimed, pruned, or never there)
/// or no longer live is answered as expired and changes no entry.
pub proof fn lemma_forgotten_download_expired(s: BotCoreView, user: u64, id: u64, now: u64)
    requires
        !s.downloads.contains_key(id) || !live(s.downloads[id].created, now),
        user_allowed(s, user),
        admission(s, user, now).0,
    ensures
        callback_step(s, user, Some(callback_text(CallbackKind::Download, id)), now).0
            == CallbackActionView::Expired,
        callback_step(s, user, Some(callback_text(CallbackKind::Download, id)), now).1
            == admission(s, user, now).1,
{
    lemma_callback_round_trip(CallbackKind::Download, id);
}

/// An entry offered at `at` is live for `ENTRY_TTL_MS` and no longer: a
/// download button pressed `ENTRY_TTL_MS` or more after its offer is
/// answered as expired, whoever presses it.
pub proof fn lemma_download_expires(
    s: BotCoreView,
    owner: u64,
    user: u64,
    context: DownloadContextView,
    at: u64,
    now: u64,
)
    requires
        at <= now,
        now - at >= ENTRY_TTL_MS,
        user_allowed(s, user),
        admission(offered_download(s, owner, context, at), user, now).0,
    ensures
        callback_step(
            offered_download(s, owner, context, at),
            user,
            Some(callback_text(CallbackKind::Download, s.next_id)),
            now,
        ).0 == CallbackActionView::Expired,
{
    lemma_forgotten_download_expired(
        offered_download(s, owner, context, at),
        user,
        s.next_id,
        now,
    );
}

/// A navigation button pressed by its owner while its entry is live opens
/// the feed it stands for, or runs the search it stands for, and forgets
/// the entry; pressed by anyone else it is only acknowledged and the entry
/// stays.
pub proof fn lemma_navigation_claimed_by_owner(
    s: BotCoreView,
    owner: u64,
    requester: u64,
    target: Seq<char>,
    at: u64,
    now: u64,
)
    requires
        user_allowed(s, requester),
        live(at, now),
        admission(offered_navigation(s, owner, target, at), requester, now).0,
    ensures
        ({
            let s1 = offered_navigation(s, owner, target, at);
            let (action, s2) = callback_step(
                s1,
                requester,
                Some(callback_text(CallbackKind::Nav, s.next_id)),
                now,
            );
            &&& requester == owner ==> {
                &&& action == (if is_feed_target(target, parsed_url(target)) {
                    CallbackActionView::OpenFeed { href: target }
                } else {
                    CallbackActionView::Search { query: search_query_of(target) }
                })
                &&& !s2.navigation.contains_key(s.next_id)
            }
            &&& requester != owner ==> {
                &&& action == CallbackActionView::Acknowledge
                &&& s2.navigation == s1.navigation
            }
        }),
{
    lemma_callback_round_trip(CallbackKind::Nav, s.next_id);
}

/// A "more" button pressed by its owner while its entry is live shows the
/// remembered books from the remembered offset and forgets the entry;
/// pressed by anyone else it is only acknowledged and the entry stays.
pub proof fn lemma_results_claimed_by_owner(
    s: BotCoreView,
    owner: u64,
    requester: u64,
    books: Seq<BookView>,
    offset: usize,
    at: u64,
    now: u64,
)
    requires
        user_allowed(s, requester),
        live(at, now),
        admission(offered_results(s, owner, books, offset, at), requester, now).0,
    ensures
        ({
            let s1 = offered_results(s, owner, books, offset, at);
            let (action, s2) = callback_step(
                s1,
                requester,
                Some(callback_text(CallbackKind::More, s.next_id)),
                now,
            );
            &&& requester == owner ==> {
                &&& action == CallbackActionView::ShowPage { books, offset }
                &&& !s2.results.contains_key(s.next_id)
            }
            &&& requester != owner ==> {
                &&& action == CallbackActionView::Acknowledge
                &&& s2.results == s1.results
            }
        }),
{
    lemma_callback_round_trip(CallbackKind::More, s.next_id);
}

/// The books of the pages shown one after the other from `offset` on: the
/// page at `offset`, then, while books remain, the pages that its "more"
/// buttons lead to.
pub open spec fn pages_from(books: Seq<BookView>, offset: usize, per_page: usize) -> Seq<BookView>
    decreases books.len() - offset,
{
    let next = next_offset(offset, per_page);
    if offset < next < books.len() {
        page_books(books, offset, per_page) + pages_from(books, next as usize, per_page)
    } else {
        page_books(books, offset, per_page)
    }
}

/// Paging through a list shows every book once, in order: the pages from
/// `offset` on hold exactly the books from `offset` on.
pub proof fn lemma_pages_cover_books(books: Seq<BookView>, offset: usize, per_page: usize)
    requires
        per_page > 0,
        books.len() <= usize::MAX,
        offset <= books.len(),
    ensures
        pages_from(books, offset, per_page) == books.skip(offset as int),
    decreases books.len() - offset,
{
    let next = next_offset(offset, per_page);
    if next < books.len() {
        assert(next == offset + per_page);
        lemma_pages_cover_books(books, next as usize, per_page);
        assert(books.subrange(offset as int, next as int) + books.skip(next as int) =~= books.skip(
            offset as int,
        ));
    } else {
        assert(books.subrange(offset as int, books.len() as int) =~= books.skip(offset as int));
    }
}

/// A request from a user who may not use the bot, or one within the
/// cooldown, is answered as refused and changes nothing.
pub proof fn lemma_refused_requests_change_nothing(
    s: BotCoreView,
    user: u64,
    cmd: CmdView,
    data: Option<Seq<char>>,
    now: u64,
)
    ensures
        !user_allowed(s, user) ==> command_step(s, Some(user), cmd, now) == (
            CommandActionView::Unauthorized(user),
            s,
        ),
        !user_allowed(s, user) ==> callback_step(s, user, data, now) == (
            CallbackActionView::Denied,
            s,
        ),
        user_allowed(s, user) && !admission(s, user, now).0 ==> command_step(
            s,
            Some(user),
            cmd,
            now,
        ) == (CommandActionView::Throttled, s),
        user_allowed(s, user) && !admission(s, user, now).0 ==> callback_step(s, user, data, now)
            == (CallbackActionView::Throttled, s),
{
}

/// A search needs a query of at least `MIN_QUERY_CHARS` characters with a
/// letter or a digit among them; any other query is answered with the usage
/// notice. So `/search ?!` is refused and `/search 42` is sent on.
pub proof fn lemma_query_rule(s: BotCoreView, user: u64, q: Seq<char>, now: u64)
    requires
        user_allowed(s, user),
        admission(s, user, now).0,
    ensures
        trim(q).len() < MIN_QUERY_CHARS ==> command_step(s, Some(user), CmdView::Search(q), now).0
            == CommandActionView::SearchUsage,
        command_step(s, Some(user), CmdView::Search("?!"@), now).0
            == CommandActionView::SearchUsage,
        command_step(s, Some(user), CmdView::Search("42"@), now).0 == CommandActionView::Search(
            "42"@,
        ),
{
    reveal_strlit("?!");
    reveal_strlit("42");
    let a = "?!"@;
    assert(!is_space(a[0]) && !is_space(a[1]));
    assert(trim_start(a) == a);
    assert(trim(a) == a);
    assert(!alphanumeric(a[0]) && !alphanumeric(a[1]));
    assert(!valid_query(a));
    let b = "42"@;
    assert(!is_space(b[0]) && !is_space(b[1]));
    assert(trim_start(b) == b);
    assert(trim(b) == b);
    assert(alphanumeric(b[0]));
    assert(valid_query(b));
}

} // verus!
