//! The entries the bot remembers between messages, and the concurrent maps
//! (`dashmap::DashMap`) that hold them.
//!
//! The maps are an outside type. What each map holds is named by a spec
//! function of the map; the wrappers below state, for every operation used,
//! how it changes or reads that content. They take `&mut` where the map is
//! changed, so that the content before and after a call can be told apart.
use dashmap::DashMap;
use vstd::prelude::*;
use crate::ropds::{books_view, Book, BookView, DownloadContext, DownloadContextView};

verus! {

/// `dashmap::DashMap`, declared so that it can stand in signatures and
/// fields. Verus sees nothing inside it; what a map holds is named below.
#[verifier::external_type_specification]
#[verifier::external_body]
#[verifier::reject_recursive_types(K)]
#[verifier::reject_recursive_types(V)]
#[verifier::reject_recursive_types(S)]
pub struct ExDashMap<K, V, S>(DashMap<K, V, S>);

/// Offered downloads by callback ID.
pub type DownloadMap = DashMap<u64, CachedDownload>;

/// Offered navigation targets by callback ID.
pub type NavigationMap = DashMap<u64, NavigationTarget>;

/// Remaining result pages by callback ID.
pub type ResultsMap = DashMap<u64, CachedResults>;

/// Cover images by URL.
pub type CoverMap = DashMap<String, CachedCover>;

/// Last request time (milliseconds on the bot's clock) by user ID.
pub type ActivityMap = DashMap<u64, u64>;

/// A book offered for download to one user, and when it was offered
/// (milliseconds on the bot's clock).
#[derive(Clone)]
pub struct CachedDownload {
    pub owner_id: u64,
    pub context: DownloadContext,
    pub created: u64,
}

/// A navigation target offered to one user: a feed link, or `search:` and a
/// query; and when it was offered.
#[derive(Clone)]
pub struct NavigationTarget {
    pub owner_id: u64,
    pub target: String,
    pub created: u64,
}

/// The rest of a list of books shown to one user, from `offset` on; and
/// when it was remembered.
#[derive(Clone)]
pub struct CachedResults {
    pub owner_id: u64,
    pub books: Vec<Book>,
    pub offset: usize,
    pub created: u64,
}

/// A cover image and when it was fetched (milliseconds on the bot's clock).
#[derive(Clone)]
pub struct CachedCover {
    pub created: u64,
    pub bytes: Vec<u8>,
}

pub struct CachedDownloadView {
    pub owner_id: u64,
    pub context: DownloadContextView,
    pub created: u64,
}

pub struct NavigationTargetView {
    pub owner_id: u64,
    pub target: Seq<char>,
    pub created: u64,
}

pub struct CachedResultsView {
    pub owner_id: u64,
    pub books: Seq<BookView>,
    pub offset: usize,
    pub created: u64,
}

pub struct CachedCoverView {
    pub created: u64,
    pub bytes: Seq<u8>,
}

impl View for CachedDownload {
    type V = CachedDownloadView;

    open spec fn view(&self) -> CachedDownloadView {
        CachedDownloadView {
            owner_id: self.owner_id,
            context: self.context@,
            created: self.created,
        }
    }
}

impl View for NavigationTarget {
    type V = NavigationTargetView;

    open spec fn view(&self) -> NavigationTargetView {
        NavigationTargetView {
            owner_id: self.owner_id,
            target: self.target@,
            created: self.created,
        }
    }
}

impl View for CachedResults {
    type V = CachedResultsView;

    open spec fn view(&self) -> CachedResultsView {
        CachedResultsView {
            owner_id: self.owner_id,
            books: books_view(self.books@),
            offset: self.offset,
            created: self.created,
        }
    }
}

impl View for CachedCover {
    type V = CachedCoverView;

    open spec fn view(&self) -> CachedCoverView {
        CachedCoverView { created: self.created, bytes: self.bytes@ }
    }
}

/// What a map of offered downloads holds.
pub uninterp spec fn download_entries(m: DownloadMap) -> Map<u64, CachedDownloadView>;

/// What a map of offered navigation targets holds.
pub uninterp spec fn navigation_entries(m: NavigationMap) -> Map<u64, NavigationTargetView>;

/// What a map of remaining result pages holds.
pub uninterp spec fn result_entries(m: ResultsMap) -> Map<u64, CachedResultsView>;

/// What a map of cover images, keyed by URL, holds.
pub uninterp spec fn cover_entries(m: CoverMap) -> Map<Seq<char>, CachedCoverView>;

/// What a map of users' last request times holds.
pub uninterp spec fn activity_entries(m: ActivityMap) -> Map<u64, u64>;

// --- offered downloads -----------------------------------------------------

/// `DashMap::new`: an empty map.
#[verifier::external_body]
pub(crate) fn download_map_new() -> (r: DownloadMap)
    ensures
        download_entries(r).dom() == Set::<u64>::empty(),
{
    DashMap::new()
}

/// `DashMap::insert`: the key now maps to the value.
#[verifier::external_body]
pub(crate) fn download_map_insert(m: &mut DownloadMap, k: u64, v: CachedDownload)
    ensures
        download_entries(*final(m)) == download_entries(*old(m)).insert(k, v@),
{
    m.insert(k, v);
}

/// `DashMap::get`, cloned: the value the key maps to, if any.
#[verifier::external_body]
pub(crate) fn download_map_get(m: &DownloadMap, k: u64) -> (r: Option<CachedDownload>)
    ensures
        r is Some <==> download_entries(*m).contains_key(k),
        r matches Some(v) ==> download_entries(*m)[k] == v@,
{
    match m.get(&k) {
        Some(entry) => Some(entry.value().clone()),
        None => None,
    }
}

/// `DashMap::remove`: the key no longer maps to anything.
#[verifier::external_body]
pub(crate) fn download_map_remove(m: &mut DownloadMap, k: u64)
    ensures
        download_entries(*final(m)) == download_entries(*old(m)).remove(k),
{
    m.remove(&k);
}

/// `DashMap::retain` with [`fresh`] on the offer time: exactly the offers
/// younger than `ttl` stay.
#[verifier::external_body]
pub(crate) fn download_map_retain_fresh(m: &mut DownloadMap, now: u64, ttl: u64)
    ensures
        download_entries(*final(m)) == download_entries(*old(m)).restrict(
            Set::new(
                |k: u64|
                    download_entries(*old(m)).contains_key(k) && is_fresh(
                        download_entries(*old(m))[k].created,
                        now,
                        ttl,
                    ),
            ),
        ),
{
    m.retain(|_, entry| fresh(entry.created, now, ttl));
}

// --- offered navigation targets --------------------------------------------

/// `DashMap::new`: an empty map.
#[verifier::external_body]
pub(crate) fn navigation_map_new() -> (r: NavigationMap)
    ensures
        navigation_entries(r).dom() == Set::<u64>::empty(),
{
    DashMap::new()
}

/// `DashMap::insert`: the key now maps to the value.
#[verifier::external_body]
pub(crate) fn navigation_map_insert(m: &mut NavigationMap, k: u64, v: NavigationTarget)
    ensures
        navigation_entries(*final(m)) == navigation_entries(*old(m)).insert(k, v@),
{
    m.insert(k, v);
}

/// `DashMap::get`, cloned: the value the key maps to, if any.
#[verifier::external_body]
pub(crate) fn navigation_map_get(m: &NavigationMap, k: u64) -> (r: Option<NavigationTarget>)
    ensures
        r is Some <==> navigation_entries(*m).contains_key(k),
        r matches Some(v) ==> navigation_entries(*m)[k] == v@,
{
    match m.get(&k) {
        Some(entry) => Some(entry.value().clone()),
        None => None,
    }
}

/// `DashMap::remove`: the key no longer maps to anything.
#[verifier::external_body]
pub(crate) fn navigation_map_remove(m: &mut NavigationMap, k: u64)
    ensures
        navigation_entries(*final(m)) == navigation_entries(*old(m)).remove(k),
{
    m.remove(&k);
}

/// `DashMap::retain` with [`fresh`] on the offer time: exactly the offers
/// younger than `ttl` stay.
#[verifier::external_body]
pub(crate) fn navigation_map_retain_fresh(m: &mut NavigationMap, now: u64, ttl: u64)
    ensures
        navigation_entries(*final(m)) == navigation_entries(*old(m)).restrict(
            Set::new(
                |k: u64|
                    navigation_entries(*old(m)).contains_key(k) && is_fresh(
                        navigation_entries(*old(m))[k].created,
                        now,
                        ttl,
                    ),
            ),
        ),
{
    m.retain(|_, entry| fresh(entry.created, now, ttl));
}

// --- remaining result pages ------------------------------------------------

/// `DashMap::new`: an empty map.
#[verifier::external_body]
pub(crate) fn results_map_new() -> (r: ResultsMap)
    ensures
        result_entries(r).dom() == Set::<u64>::empty(),
{
    DashMap::new()
}

/// `DashMap::insert`: the key now maps to the value.
#[verifier::external_body]
pub(crate) fn results_map_insert(m: &mut ResultsMap, k: u64, v: CachedResults)
    ensures
        result_entries(*final(m)) == result_entries(*old(m)).insert(k, v@),
{
    m.insert(k, v);
}

/// `DashMap::get`, cloned: the value the key maps to, if any.
#[verifier::external_body]
pub(crate) fn results_map_get(m: &ResultsMap, k: u64) -> (r: Option<CachedResults>)
    ensures
        r is Some <==> result_entries(*m).contains_key(k),
        r matches Some(v) ==> result_entries(*m)[k] == v@,
{
    match m.get(&k) {
        Some(entry) => Some(entry.value().clone()),
        None => None,
    }
}

/// `DashMap::remove`: the key no longer maps to anything.
#[verifier::external_body]
pub(crate) fn results_map_remove(m: &mut ResultsMap, k: u64)
    ensures
        result_entries(*final(m)) == result_entries(*old(m)).remove(k),
{
    m.remove(&k);
}

/// `DashMap::retain` with [`fresh`] on the time the list was remembered:
/// exactly the lists younger than `ttl` stay.
#[verifier::external_body]
pub(crate) fn results_map_retain_fresh(m: &mut ResultsMap, now: u64, ttl: u64)
    ensures
        result_entries(*final(m)) == result_entries(*old(m)).restrict(
            Set::new(
                |k: u64|
                    result_entries(*old(m)).contains_key(k) && is_fresh(
                        result_entries(*old(m))[k].created,
                        now,
                        ttl,
                    ),
            ),
        ),
{
    m.retain(|_, entry| fresh(entry.created, now, ttl));
}

// --- cover images ----------------------------------------------------------

/// `DashMap::new`: an empty map.
#[verifier::external_body]
pub(crate) fn cover_map_new() -> (r: CoverMap)
    ensures
        cover_entries(r).dom() == Set::<Seq<char>>::empty(),
{
    DashMap::new()
}

/// `DashMap::insert`: the URL now maps to the cover. `String` keys are equal
/// exactly when their characters are.
#[verifier::external_body]
pub(crate) fn cover_map_insert(m: &mut CoverMap, k: String, v: CachedCover)
    ensures
        cover_entries(*final(m)) == cover_entries(*old(m)).insert(k@, v@),
{
    m.insert(k, v);
}

/// `DashMap::get`, cloned: the cover stored for the URL, if any.
#[verifier::external_body]
pub(crate) fn cover_map_get(m: &CoverMap, k: &str) -> (r: Option<CachedCover>)
    ensures
        r is Some <==> cover_entries(*m).contains_key(k@),
        r matches Some(v) ==> cover_entries(*m)[k@] == v@,
{
    match m.get(k) {
        Some(entry) => Some(entry.value().clone()),
        None => None,
    }
}

/// Whether something created at `created` is still younger than `ttl` at
/// `now` (milliseconds).
pub open spec fn is_fresh(created: u64, now: u64, ttl: u64) -> bool {
    (if now >= created {
        now - created
    } else {
        0
    }) < ttl
}

/// Whether something created at `created` is still younger than `ttl`.
pub fn fresh(created: u64, now: u64, ttl: u64) -> (r: bool)
    ensures
        r == is_fresh(created, now, ttl),
{
    now.saturating_sub(created) < ttl
}

/// `DashMap::retain` with [`fresh`] on the creation time: exactly the
/// covers younger than `ttl` stay.
#[verifier::external_body]
pub(crate) fn cover_map_retain_fresh(m: &mut CoverMap, now: u64, ttl: u64)
    ensures
        cover_entries(*final(m)) == cover_entries(*old(m)).restrict(
            Set::new(
                |k: Seq<char>|
                    cover_entries(*old(m)).contains_key(k) && is_fresh(
                        cover_entries(*old(m))[k].created,
                        now,
                        ttl,
                    ),
            ),
        ),
{
    m.retain(|_, cover| fresh(cover.created, now, ttl));
}

// --- last request times ----------------------------------------------------

/// `DashMap::new`: an empty map.
#[verifier::external_body]
pub(crate) fn activity_map_new() -> (r: ActivityMap)
    ensures
        activity_entries(r).dom() == Set::<u64>::empty(),
{
    DashMap::new()
}

/// `DashMap::insert`: the user's last request time is now `t`.
#[verifier::external_body]
pub(crate) fn activity_map_insert(m: &mut ActivityMap, k: u64, t: u64)
    ensures
        activity_entries(*final(m)) == activity_entries(*old(m)).insert(k, t),
{
    m.insert(k, t);
}

/// `DashMap::get`, copied: the user's last request time, if any.
#[verifier::external_body]
pub(crate) fn activity_map_get(m: &ActivityMap, k: u64) -> (r: Option<u64>)
    ensures
        r is Some <==> activity_entries(*m).contains_key(k),
        r matches Some(t) ==> activity_entries(*m)[k] == t,
{
    match m.get(&k) {
        Some(entry) => Some(*entry.value()),
        None => None,
    }
}

/// `DashMap::retain` with [`fresh`] on the stored time: exactly the users
/// seen within `ttl` stay.
#[verifier::external_body]
pub(crate) fn activity_map_retain_fresh(m: &mut ActivityMap, now: u64, ttl: u64)
    ensures
        activity_entries(*final(m)) == activity_entries(*old(m)).restrict(
            Set::new(
                |k: u64|
                    activity_entries(*old(m)).contains_key(k) && is_fresh(
                        activity_entries(*old(m))[k],
                        now,
                        ttl,
                    ),
            ),
        ),
{
    m.retain(|_, t| fresh(*t, now, ttl));
}

} // verus!
