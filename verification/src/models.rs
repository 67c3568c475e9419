//! Value objects the engine works on: watchlist entries, the manager's
//! reported tiers, roots and tags, and the per-entry outcome taxonomy.

use vstd::prelude::*;

verus! {

/// The kind of a tracked title; each kind is served by its own manager.
#[derive(Clone, Copy, Debug, PartialEq, Eq, Structural)]
pub enum ItemType {
    Movie,
    Show,
}

/// One title to track, normalised from the watchlist source.
///
/// `id` is the source's stable identifier (its rating key); the
/// cross-reference ids are unknown until a manager lookup resolves them.
#[derive(Clone, Debug)]
pub struct Item {
    pub id: String,
    pub title: String,
    pub year: Option<i32>,
    pub item_type: ItemType,
    pub guid: Option<String>,
    pub imdb_id: Option<String>,
    pub tmdb_id: Option<i32>,
    pub tvdb_id: Option<i32>,
}

/// An item together with when it was observed and whose watchlist it
/// came from. `added_at` is seconds since the Unix epoch.
#[derive(Clone, Debug)]
pub struct WatchlistItem {
    pub item: Item,
    pub added_at: i64,
    pub user_id: String,
}

/// Mathematical image of an `Item`.
pub struct ItemV {
    pub id: Seq<char>,
    pub title: Seq<char>,
    pub year: Option<i32>,
    pub item_type: ItemType,
    pub guid: Option<Seq<char>>,
    pub imdb_id: Option<Seq<char>>,
    pub tmdb_id: Option<i32>,
    pub tvdb_id: Option<i32>,
}

impl View for Item {
    type V = ItemV;

    open spec fn view(&self) -> ItemV {
        ItemV {
            id: self.id@,
            title: self.title@,
            year: self.year,
            item_type: self.item_type,
            guid: match self.guid {
                Some(g) => Some(g@),
                None => None,
            },
            imdb_id: match self.imdb_id {
                Some(g) => Some(g@),
                None => None,
            },
            tmdb_id: self.tmdb_id,
            tvdb_id: self.tvdb_id,
        }
    }
}

/// Mathematical image of a `WatchlistItem`.
pub struct WatchlistItemV {
    pub item: ItemV,
    pub added_at: i64,
    pub user_id: Seq<char>,
}

impl View for WatchlistItem {
    type V = WatchlistItemV;

    open spec fn view(&self) -> WatchlistItemV {
        WatchlistItemV { item: self.item@, added_at: self.added_at, user_id: self.user_id@ }
    }
}

/// The images of a list of watchlist items, in order.
pub open spec fn watchlist_views(l: Seq<WatchlistItem>) -> Seq<WatchlistItemV> {
    l.map_values(|w: WatchlistItem| w@)
}

/// A quality tier as the manager reports it.
#[derive(Clone, Debug)]
pub struct QualityProfile {
    pub id: i32,
    pub name: String,
}

/// A storage root as the manager reports it.
#[derive(Clone, Debug)]
pub struct RootFolder {
    pub id: i32,
    pub path: String,
}

/// A label as the manager reports it.
#[derive(Clone, Debug)]
pub struct Tag {
    pub id: i32,
    pub label: String,
}

/// Why one entry's add attempt failed. Every variant is a per-item or
/// per-cycle outcome; none aborts a batch.
#[derive(Clone, Copy, Debug, PartialEq, Eq, Structural)]
pub enum SyncError {
    /// The watchlist source could not be reached or refused the call.
    SourceUnavailable,
    /// The manager could not be reached or refused a read.
    ManagerUnavailable,
    /// A response body could not be decoded.
    ParseFailure,
    /// The manager's lookup returned no candidate for the title.
    NotFound,
    /// The manager declined the add request.
    AddRejected,
    /// An entry was routed to a manager of the wrong kind.
    KindMismatch,
}

/// Terminal outcome of one entry within a reconciliation pass.
#[derive(Clone, Copy, Debug, PartialEq, Eq, Structural)]
pub enum Outcome {
    /// An add request was issued and accepted.
    Added,
    /// The manager's library already carries the resolved title.
    AlreadyExists,
    /// No manager is configured for the entry's kind.
    Skipped,
    /// The attempt ended with the recorded error.
    Failed(SyncError),
}

} // verus!
