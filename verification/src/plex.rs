//! The watchlist reader: turning the source's markup document into
//! normalised watchlist entries.
//!
//! Movie records arrive as `Video` start tags and show records as
//! `Directory` start tags, each carrying its kind in a `type` attribute
//! beside `title`, `ratingKey`, `year` and `guid`. A record whose
//! identifier, title or kind marker is missing is dropped, never turned
//! into a partial entry; every other attribute is ignored.

use vstd::prelude::*;
use vstd::string::StringExecFns;
use crate::config::PlexConfig;
use crate::markup::{elem_views, scan_elements, scan_from, AttrV, Element, ElementV};
use crate::models::{watchlist_views, Item, ItemType, ItemV, WatchlistItem, WatchlistItemV};
use crate::text::{chars_eq_str, parse_i32_chars, parse_i32_spec, string_from_chars, to_chars};

verus! {

broadcast use vstd::string::group_string_axioms;

/// The value of the first attribute with the given name, if any.
pub open spec fn attr_search(attrs: Seq<AttrV>, name: Seq<char>) -> Option<Seq<char>>
    decreases attrs.len(),
{
    if attrs.len() == 0 {
        None
    } else if attrs[0].name == name {
        Some(attrs[0].value)
    } else {
        attr_search(attrs.drop_first(), name)
    }
}

pub open spec fn attr_of(e: ElementV, name: Seq<char>) -> Option<Seq<char>> {
    attr_search(e.attrs, name)
}

/// The kind a record claims: element name and `type` attribute must
/// agree, else the record carries no usable kind marker.
pub open spec fn kind_marker(e: ElementV) -> Option<ItemType> {
    if e.name == "Video"@ && attr_of(e, "type"@) == Some("movie"@) {
        Some(ItemType::Movie)
    } else if e.name == "Directory"@ && attr_of(e, "type"@) == Some("show"@) {
        Some(ItemType::Show)
    } else {
        None
    }
}

/// The entry a record yields: `None` unless the kind marker, the
/// identifier and the title are all present.
pub open spec fn entry_of(e: ElementV, now: i64) -> Option<WatchlistItemV> {
    match kind_marker(e) {
        None => None,
        Some(k) => match (attr_of(e, "ratingKey"@), attr_of(e, "title"@)) {
            (Some(id), Some(title)) => Some(
                WatchlistItemV {
                    item: ItemV {
                        id: id,
                        title: title,
                        year: match attr_of(e, "year"@) {
                            Some(y) => parse_i32_spec(y),
                            None => None,
                        },
                        item_type: k,
                        guid: attr_of(e, "guid"@),
                        imdb_id: None,
                        tmdb_id: None,
                        tvdb_id: None,
                    },
                    added_at: now,
                    user_id: "self"@,
                },
            ),
            _ => None,
        },
    }
}

/// The entries of a list of records, in record order, complete records
/// only.
pub open spec fn entries_of(elems: Seq<ElementV>, now: i64) -> Seq<WatchlistItemV>
    decreases elems.len(),
{
    if elems.len() == 0 {
        Seq::empty()
    } else {
        let rest = entries_of(elems.drop_last(), now);
        match entry_of(elems.last(), now) {
            Some(w) => rest.push(w),
            None => rest,
        }
    }
}

/// The whole reader, mathematically: scan the document, keep the
/// complete records.
pub open spec fn spec_watchlist(s: Seq<char>, now: i64) -> Seq<WatchlistItemV> {
    entries_of(scan_from(s, 0), now)
}

/// Whether `w` is the entry of some record in `elems` that carries the
/// identifier, the title and the kind marker.
pub open spec fn complete_record_origin(elems: Seq<ElementV>, now: i64, w: WatchlistItemV) -> bool {
    exists|j: int|
        {
            &&& 0 <= j < elems.len()
            &&& attr_of(#[trigger] elems[j], "ratingKey"@) is Some
            &&& attr_of(elems[j], "title"@) is Some
            &&& kind_marker(elems[j]) is Some
            &&& entry_of(elems[j], now) == Some(w)
        }
}

/// Law: the reader never produces a partial entry. Every entry it yields
/// comes from a record that carries the identifier, the title and the
/// kind marker, and is exactly that record's entry; records missing any
/// of the three contribute nothing.
pub proof fn lemma_reader_excludes_partial(elems: Seq<ElementV>, now: i64)
    ensures
        forall|k: int|
            0 <= k < entries_of(elems, now).len() ==> complete_record_origin(
                elems,
                now,
                #[trigger] entries_of(elems, now)[k],
            ),
    decreases elems.len(),
{
    if elems.len() > 0 {
        let rest = elems.drop_last();
        lemma_reader_excludes_partial(rest, now);
        let es = entries_of(elems, now);
        let rs = entries_of(rest, now);
        assert forall|k: int| 0 <= k < es.len() implies complete_record_origin(
            elems,
            now,
            es[k],
        ) by {
            if k < rs.len() {
                assert(complete_record_origin(rest, now, rs[k]));
                let j0 = choose|j: int|
                    {
                        &&& 0 <= j < rest.len()
                        &&& attr_of(#[trigger] rest[j], "ratingKey"@) is Some
                        &&& attr_of(rest[j], "title"@) is Some
                        &&& kind_marker(rest[j]) is Some
                        &&& entry_of(rest[j], now) == Some(rs[k])
                    };
                assert(elems[j0] == rest[j0]);
                assert(es[k] == rs[k]);
            } else {
                let j1 = elems.len() - 1;
                assert(entry_of(elems[j1], now) == Some(es[k]));
            }
        }
    }
}

/// First attribute of an element with the given name, as executable
/// code.
fn find_attr<'a>(e: &'a Element, name: &str) -> (r: Option<&'a Vec<char>>)
    ensures
        match r {
            Some(v) => attr_of(e@, name@) == Some(v@),
            None => attr_of(e@, name@) is None,
        },
{
    let n = e.attrs.len();
    proof {
        assert(e@.attrs.skip(0) =~= e@.attrs);
    }
    let mut i: usize = 0;
    while i < n
        invariant
            i <= n,
            n == e.attrs@.len(),
            attr_search(e@.attrs, name@) == attr_search(e@.attrs.skip(i as int), name@),
        decreases n - i,
    {
        let a = &e.attrs[i];
        let ghost tail = e@.attrs.skip(i as int);
        proof {
            assert(tail[0] == e@.attrs[i as int]);
            assert(tail.drop_first() =~= e@.attrs.skip(i as int + 1));
        }
        if chars_eq_str(&a.name, name) {
            return Some(&e.attrs[i].value);
        }
        i = i + 1;
    }
    proof {
        assert(e@.attrs.skip(n as int) =~= Seq::<AttrV>::empty());
    }
    None
}

/// The entry one record yields, as executable code.
fn extract_entry(e: &Element, now: i64) -> (r: Option<WatchlistItem>)
    ensures
        match r {
            Some(w) => entry_of(e@, now) == Some(w@),
            None => entry_of(e@, now) is None,
        },
{
    let kind_opt: Option<ItemType> = if chars_eq_str(&e.name, "Video") {
        match find_attr(e, "type") {
            Some(tv) => if chars_eq_str(tv, "movie") {
                Some(ItemType::Movie)
            } else {
                None
            },
            None => None,
        }
    } else if chars_eq_str(&e.name, "Directory") {
        match find_attr(e, "type") {
            Some(tv) => if chars_eq_str(tv, "show") {
                Some(ItemType::Show)
            } else {
                None
            },
            None => None,
        }
    } else {
        None
    };
    proof {
        reveal_strlit("Video");
        reveal_strlit("Directory");
        assert("Video"@.len() == 5);
        assert("Directory"@.len() == 9);
        assert(kind_opt == kind_marker(e@));
    }
    let k = match kind_opt {
        Some(k) => k,
        None => {
            return None;
        },
    };
    let id_v = match find_attr(e, "ratingKey") {
        Some(x) => x,
        None => {
            return None;
        },
    };
    let title_v = match find_attr(e, "title") {
        Some(x) => x,
        None => {
            return None;
        },
    };
    let year: Option<i32> = match find_attr(e, "year") {
        Some(y) => parse_i32_chars(y),
        None => None,
    };
    let guid: Option<String> = match find_attr(e, "guid") {
        Some(g) => Some(string_from_chars(g)),
        None => None,
    };
    let item = Item {
        id: string_from_chars(id_v),
        title: string_from_chars(title_v),
        year,
        item_type: k,
        guid,
        imdb_id: None,
        tmdb_id: None,
        tvdb_id: None,
    };
    let w = WatchlistItem { item, added_at: now, user_id: String::from_str("self") };
    Some(w)
}

/// Normalise a watchlist markup document into entries, dropping every
/// record that misses its identifier, title or kind marker. `now` is the
/// observation timestamp stamped onto each entry, in seconds since the
/// Unix epoch. Output order is document order.
pub fn parse_watchlist(xml: &str, now: i64) -> (out: Vec<WatchlistItem>)
    ensures
        watchlist_views(out@) == spec_watchlist(xml@, now),
{
    let chars = to_chars(xml);
    let elems = scan_elements(&chars);
    let mut out: Vec<WatchlistItem> = Vec::new();
    let n = elems.len();
    let mut i: usize = 0;
    while i < n
        invariant
            i <= n,
            n == elems@.len(),
            elem_views(elems@) == scan_from(chars@, 0),
            chars@ == xml@,
            watchlist_views(out@) == entries_of(elem_views(elems@).take(i as int), now),
        decreases n - i,
    {
        let e = &elems[i];
        let ghost prev = watchlist_views(out@);
        let ghost taken = elem_views(elems@).take(i as int + 1);
        proof {
            assert(taken.drop_last() =~= elem_views(elems@).take(i as int));
            assert(taken.last() == elem_views(elems@)[i as int]);
            assert(elem_views(elems@)[i as int] == e@);
        }
        match extract_entry(e, now) {
            Some(w) => {
                out.push(w);
                proof {
                    assert(watchlist_views(out@) =~= prev.push(w@)) by {
                        assert(forall|t: int|
                            0 <= t < out@.len() ==> watchlist_views(out@)[t] == #[trigger] out@[t]@);
                    }
                }
            },
            None => {},
        }
        i = i + 1;
    }
    proof {
        assert(elem_views(elems@).take(n as int) =~= elem_views(elems@));
    }
    out
}

/// The source's watchlist endpoint with the account token attached.
pub fn watchlist_url(cfg: &PlexConfig) -> (u: String)
    ensures
        u@ == "https://metadata.provider.plex.tv/library/sections/watchlist/all?X-Plex-Token="@
            + cfg.token@,
{
    let mut u = String::from_str(
        "https://metadata.provider.plex.tv/library/sections/watchlist/all?X-Plex-Token=",
    );
    u.append(cfg.token.as_str());
    u
}

} // verus!
