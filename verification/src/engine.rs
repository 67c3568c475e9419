//! The reconciliation engine: route each watchlist entry to the manager
//! of its kind, resolve it against that manager's state, and record one
//! terminal outcome per entry. One entry's failure never aborts the
//! batch, and a pass issues no write for a title the library already
//! carries.
//!
//! The engine works over a manager model: the manager's configuration,
//! its current library projection, its reported tiers, roots and tags,
//! and a table of ranked lookup responses keyed by search term. A
//! successful add grows the library projection, which is exactly what
//! makes a second pass over the same watchlist idempotent.

use vstd::prelude::*;
use crate::config::{RadarrConfig, SonarrConfig};
use crate::models::{Item, ItemType, Outcome, SyncError, WatchlistItem};
use crate::radarr::{spec_movie_in_library, movie_in_library, RadarrLookupResult, RadarrMovieSimple};
use crate::sonarr::{
    spec_series_in_library, series_in_library, SonarrLookupResult, SonarrSeriesSimple,
};
use crate::urls::{search_term, spec_search_term};

verus! {

/// One ranked lookup response of the movie manager, keyed by the term
/// that was asked.
pub struct MovieLookupEntry {
    pub term: String,
    pub results: Vec<RadarrLookupResult>,
}

/// One ranked lookup response of the show manager, keyed by the term
/// that was asked.
pub struct SeriesLookupEntry {
    pub term: String,
    pub results: Vec<SonarrLookupResult>,
}

/// The movie manager's state as the engine sees it.
pub struct MovieManagerModel {
    pub config: RadarrConfig,
    pub library: Vec<RadarrMovieSimple>,
    pub profiles: Vec<crate::models::QualityProfile>,
    pub roots: Vec<crate::models::RootFolder>,
    pub tags: Vec<crate::models::Tag>,
    pub lookups: Vec<MovieLookupEntry>,
}

/// The show manager's state as the engine sees it.
pub struct ShowManagerModel {
    pub config: SonarrConfig,
    pub library: Vec<SonarrSeriesSimple>,
    pub profiles: Vec<crate::models::QualityProfile>,
    pub roots: Vec<crate::models::RootFolder>,
    pub tags: Vec<crate::models::Tag>,
    pub lookups: Vec<SeriesLookupEntry>,
}

/// The managers a reconciliation pass may target; either may be absent.
pub struct Managers {
    pub movie: Option<MovieManagerModel>,
    pub show: Option<ShowManagerModel>,
}

/// Per-entry outcomes of one pass, in entry order.
pub struct ReconciliationReport {
    pub outcomes: Vec<Outcome>,
}

/// The results of the first table entry asked with this term, if any.
pub open spec fn movie_lookup_search(l: Seq<MovieLookupEntry>, term: Seq<char>) -> Option<
    Seq<RadarrLookupResult>,
>
    decreases l.len(),
{
    if l.len() == 0 {
        None
    } else if l[0].term@ == term {
        Some(l[0].results@)
    } else {
        movie_lookup_search(l.drop_first(), term)
    }
}

/// The results of the first table entry asked with this term, if any.
pub open spec fn series_lookup_search(l: Seq<SeriesLookupEntry>, term: Seq<char>) -> Option<
    Seq<SonarrLookupResult>,
>
    decreases l.len(),
{
    if l.len() == 0 {
        None
    } else if l[0].term@ == term {
        Some(l[0].results@)
    } else {
        series_lookup_search(l.drop_first(), term)
    }
}

/// One movie entry against the movie manager: outcome and the library
/// as the add leaves it.
pub open spec fn spec_movie_step(it: Item, m: MovieManagerModel, lib: Seq<RadarrMovieSimple>) -> (
    Outcome,
    Seq<RadarrMovieSimple>,
) {
    if it.item_type != ItemType::Movie {
        (Outcome::Failed(SyncError::KindMismatch), lib)
    } else {
        match movie_lookup_search(m.lookups@, spec_search_term(it.title@, it.year)) {
            None => (Outcome::Failed(SyncError::NotFound), lib),
            Some(results) => if results.len() == 0 {
                (Outcome::Failed(SyncError::NotFound), lib)
            } else if spec_movie_in_library(results[0].tmdb_id, lib) {
                (Outcome::AlreadyExists, lib)
            } else {
                (Outcome::Added, lib.push(RadarrMovieSimple { tmdb_id: results[0].tmdb_id }))
            },
        }
    }
}

/// One show entry against the show manager.
pub open spec fn spec_series_step(it: Item, m: ShowManagerModel, lib: Seq<SonarrSeriesSimple>) -> (
    Outcome,
    Seq<SonarrSeriesSimple>,
) {
    if it.item_type != ItemType::Show {
        (Outcome::Failed(SyncError::KindMismatch), lib)
    } else {
        match series_lookup_search(m.lookups@, spec_search_term(it.title@, it.year)) {
            None => (Outcome::Failed(SyncError::NotFound), lib),
            Some(results) => if results.len() == 0 {
                (Outcome::Failed(SyncError::NotFound), lib)
            } else if spec_series_in_library(results[0].tvdb_id, results[0].tmdb_id, lib) {
                (Outcome::AlreadyExists, lib)
            } else {
                (
                    Outcome::Added,
                    lib.push(
                        SonarrSeriesSimple {
                            tvdb_id: results[0].tvdb_id,
                            tmdb_id: results[0].tmdb_id,
                        },
                    ),
                )
            },
        }
    }
}

/// One entry routed by kind: entries of a kind with no configured
/// manager are skipped, not failed.
pub open spec fn spec_step(
    it: Item,
    managers: Managers,
    movie_lib: Seq<RadarrMovieSimple>,
    show_lib: Seq<SonarrSeriesSimple>,
) -> (Outcome, Seq<RadarrMovieSimple>, Seq<SonarrSeriesSimple>) {
    match it.item_type {
        ItemType::Movie => match managers.movie {
            None => (Outcome::Skipped, movie_lib, show_lib),
            Some(m) => {
                let r = spec_movie_step(it, m, movie_lib);
                (r.0, r.1, show_lib)
            },
        },
        ItemType::Show => match managers.show {
            None => (Outcome::Skipped, movie_lib, show_lib),
            Some(m) => {
                let r = spec_series_step(it, m, show_lib);
                (r.0, movie_lib, r.1)
            },
        },
    }
}

/// Everything one reconciliation pass produces: the outcomes in entry
/// order and the libraries as the adds leave them.
pub struct RunState {
    pub outcomes: Seq<Outcome>,
    pub movie_lib: Seq<RadarrMovieSimple>,
    pub show_lib: Seq<SonarrSeriesSimple>,
}

/// The whole pass: entries in watchlist order, one outcome each, the
/// libraries threaded through.
pub open spec fn spec_run(
    entries: Seq<WatchlistItem>,
    managers: Managers,
    movie_lib: Seq<RadarrMovieSimple>,
    show_lib: Seq<SonarrSeriesSimple>,
) -> RunState
    decreases entries.len(),
{
    if entries.len() == 0 {
        RunState { outcomes: Seq::empty(), movie_lib, show_lib }
    } else {
        let st = spec_step(entries[0].item, managers, movie_lib, show_lib);
        let rest = spec_run(entries.drop_first(), managers, st.1, st.2);
        RunState {
            outcomes: seq![st.0] + rest.outcomes,
            movie_lib: rest.movie_lib,
            show_lib: rest.show_lib,
        }
    }
}

/// Law: every entry reaches exactly one terminal outcome; no entry's
/// failure shortens the batch.
pub proof fn lemma_run_one_outcome_per_entry(
    entries: Seq<WatchlistItem>,
    managers: Managers,
    movie_lib: Seq<RadarrMovieSimple>,
    show_lib: Seq<SonarrSeriesSimple>,
)
    ensures
        spec_run(entries, managers, movie_lib, show_lib).outcomes.len() == entries.len(),
    decreases entries.len(),
{
    if entries.len() > 0 {
        let st = spec_step(entries[0].item, managers, movie_lib, show_lib);
        lemma_run_one_outcome_per_entry(entries.drop_first(), managers, st.1, st.2);
    }
}

/// The library of the configured movie manager, or empty.
pub open spec fn spec_movie_lib(m: Managers) -> Seq<RadarrMovieSimple> {
    match m.movie {
        Some(mm) => mm.library@,
        None => Seq::empty(),
    }
}

/// The library of the configured show manager, or empty.
pub open spec fn spec_show_lib(m: Managers) -> Seq<SonarrSeriesSimple> {
    match m.show {
        Some(mm) => mm.library@,
        None => Seq::empty(),
    }
}

/// A pass changes nothing about the managers but their libraries.
pub open spec fn managers_frame(a: Managers, b: Managers) -> bool {
    &&& (a.movie is Some <==> b.movie is Some)
    &&& (a.show is Some <==> b.show is Some)
    &&& (a.movie is Some ==> {
        &&& a.movie->0.config == b.movie->0.config
        &&& a.movie->0.profiles == b.movie->0.profiles
        &&& a.movie->0.roots == b.movie->0.roots
        &&& a.movie->0.tags == b.movie->0.tags
        &&& a.movie->0.lookups == b.movie->0.lookups
    })
    &&& (a.show is Some ==> {
        &&& a.show->0.config == b.show->0.config
        &&& a.show->0.profiles == b.show->0.profiles
        &&& a.show->0.roots == b.show->0.roots
        &&& a.show->0.tags == b.show->0.tags
        &&& a.show->0.lookups == b.show->0.lookups
    })
}

/// `a` is an initial segment of `b`.
pub open spec fn seq_prefix<T>(a: Seq<T>, b: Seq<T>) -> bool {
    a.len() <= b.len() && forall|i: int| 0 <= i < a.len() ==> a[i] == #[trigger] b[i]
}

proof fn lemma_prefix_trans<T>(a: Seq<T>, b: Seq<T>, c: Seq<T>)
    requires
        seq_prefix(a, b),
        seq_prefix(b, c),
    ensures
        seq_prefix(a, c),
{
    assert forall|i: int| 0 <= i < a.len() implies a[i] == #[trigger] c[i] by {
        assert(a[i] == b[i]);
    }
}

/// A step never removes a library record: the library before the step is
/// an initial segment of the library after it.
pub proof fn lemma_step_monotone(
    it: Item,
    managers: Managers,
    ml: Seq<RadarrMovieSimple>,
    sl: Seq<SonarrSeriesSimple>,
)
    ensures
        seq_prefix(ml, spec_step(it, managers, ml, sl).1),
        seq_prefix(sl, spec_step(it, managers, ml, sl).2),
{
    let st = spec_step(it, managers, ml, sl);
    assert(seq_prefix(ml, st.1));
    assert(seq_prefix(sl, st.2));
}

/// A pass never removes a library record.
pub proof fn lemma_run_monotone(
    entries: Seq<WatchlistItem>,
    managers: Managers,
    ml: Seq<RadarrMovieSimple>,
    sl: Seq<SonarrSeriesSimple>,
)
    ensures
        seq_prefix(ml, spec_run(entries, managers, ml, sl).movie_lib),
        seq_prefix(sl, spec_run(entries, managers, ml, sl).show_lib),
    decreases entries.len(),
{
    if entries.len() == 0 {
    } else {
        let st = spec_step(entries[0].item, managers, ml, sl);
        lemma_step_monotone(entries[0].item, managers, ml, sl);
        lemma_run_monotone(entries.drop_first(), managers, st.1, st.2);
        let r = spec_run(entries, managers, ml, sl);
        lemma_prefix_trans(ml, st.1, r.movie_lib);
        lemma_prefix_trans(sl, st.2, r.show_lib);
    }
}

/// Law: a resolved movie whose external-db id already stands in the
/// library ends as `AlreadyExists`, and the library is left untouched —
/// no write is issued.
pub proof fn lemma_existing_movie_never_rewritten(
    it: Item,
    m: MovieManagerModel,
    lib: Seq<RadarrMovieSimple>,
)
    requires
        it.item_type == ItemType::Movie,
        movie_lookup_search(m.lookups@, spec_search_term(it.title@, it.year)) is Some,
        (movie_lookup_search(m.lookups@, spec_search_term(it.title@, it.year))->0).len() > 0,
        spec_movie_in_library(
            (movie_lookup_search(m.lookups@, spec_search_term(it.title@, it.year))->0)[0].tmdb_id,
            lib,
        ),
    ensures
        spec_movie_step(it, m, lib) == (Outcome::AlreadyExists, lib),
{
}

/// Law: a resolved show already present under either id namespace ends
/// as `AlreadyExists`, and the library is left untouched — a match on
/// the show-db id alone or on the external-db id alone is sufficient.
pub proof fn lemma_existing_series_never_rewritten(
    it: Item,
    m: ShowManagerModel,
    lib: Seq<SonarrSeriesSimple>,
)
    requires
        it.item_type == ItemType::Show,
        series_lookup_search(m.lookups@, spec_search_term(it.title@, it.year)) is Some,
        (series_lookup_search(m.lookups@, spec_search_term(it.title@, it.year))->0).len() > 0,
        spec_series_in_library(
            (series_lookup_search(m.lookups@, spec_search_term(it.title@, it.year))->0)[0].tvdb_id,
            (series_lookup_search(m.lookups@, spec_search_term(it.title@, it.year))->0)[0].tmdb_id,
            lib,
        ),
    ensures
        spec_series_step(it, m, lib) == (Outcome::AlreadyExists, lib),
{
}

/// Every movie lookup response with any result names the external-db id
/// of its top result.
pub open spec fn movie_lookups_identified(l: Seq<MovieLookupEntry>) -> bool {
    forall|i: int|
        0 <= i < l.len() && (#[trigger] l[i]).results@.len() > 0 ==> l[i].results@[0].tmdb_id
            is Some
}

/// Every show lookup response with any result names at least one of the
/// two ids of its top result.
pub open spec fn series_lookups_identified(l: Seq<SeriesLookupEntry>) -> bool {
    forall|i: int|
        0 <= i < l.len() && (#[trigger] l[i]).results@.len() > 0 ==> (l[i].results@[0].tvdb_id
            is Some || l[i].results@[0].tmdb_id is Some)
}

/// Both configured managers' lookup tables identify their top results.
pub open spec fn lookups_identified(m: Managers) -> bool {
    &&& (m.movie is Some ==> movie_lookups_identified(m.movie->0.lookups@))
    &&& (m.show is Some ==> series_lookups_identified(m.show->0.lookups@))
}

proof fn lemma_movie_search_identified(l: Seq<MovieLookupEntry>, term: Seq<char>)
    requires
        movie_lookups_identified(l),
        movie_lookup_search(l, term) is Some,
        (movie_lookup_search(l, term)->0).len() > 0,
    ensures
        (movie_lookup_search(l, term)->0)[0].tmdb_id is Some,
    decreases l.len(),
{
    if l.len() > 0 {
        if l[0].term@ == term {
            assert(l[0].results@.len() > 0);
        } else {
            let d = l.drop_first();
            assert(movie_lookups_identified(d)) by {
                assert(forall|i: int|
                    0 <= i < d.len() ==> #[trigger] d[i] == l[i + 1]);
            }
            lemma_movie_search_identified(d, term);
        }
    }
}

proof fn lemma_series_search_identified(l: Seq<SeriesLookupEntry>, term: Seq<char>)
    requires
        series_lookups_identified(l),
        series_lookup_search(l, term) is Some,
        (series_lookup_search(l, term)->0).len() > 0,
    ensures
        (series_lookup_search(l, term)->0)[0].tvdb_id is Some || (series_lookup_search(
            l,
            term,
        )->0)[0].tmdb_id is Some,
    decreases l.len(),
{
    if l.len() > 0 {
        if l[0].term@ == term {
            assert(l[0].results@.len() > 0);
        } else {
            let d = l.drop_first();
            assert(series_lookups_identified(d)) by {
                assert(forall|i: int|
                    0 <= i < d.len() ==> #[trigger] d[i] == l[i + 1]);
            }
            lemma_series_search_identified(d, term);
        }
    }
}

proof fn lemma_rerun_added_becomes_existing(
    entries: Seq<WatchlistItem>,
    managers: Managers,
    ml1: Seq<RadarrMovieSimple>,
    sl1: Seq<SonarrSeriesSimple>,
    ml2: Seq<RadarrMovieSimple>,
    sl2: Seq<SonarrSeriesSimple>,
)
    requires
        lookups_identified(managers),
        seq_prefix(spec_run(entries, managers, ml1, sl1).movie_lib, ml2),
        seq_prefix(spec_run(entries, managers, ml1, sl1).show_lib, sl2),
    ensures
        forall|k: int|
            0 <= k < entries.len() && spec_run(entries, managers, ml1, sl1).outcomes[k]
                == Outcome::Added ==> #[trigger] spec_run(
                entries,
                managers,
                ml2,
                sl2,
            ).outcomes[k] == Outcome::AlreadyExists,
    decreases entries.len(),
{
    if entries.len() == 0 {
    } else {
        let it = entries[0].item;
        let st1 = spec_step(it, managers, ml1, sl1);
        let st2 = spec_step(it, managers, ml2, sl2);
        let r1 = spec_run(entries, managers, ml1, sl1);
        let r2 = spec_run(entries, managers, ml2, sl2);
        let rest = entries.drop_first();
        let r1rest = spec_run(rest, managers, st1.1, st1.2);
        let r2rest = spec_run(rest, managers, st2.1, st2.2);
        lemma_run_one_outcome_per_entry(entries, managers, ml1, sl1);
        lemma_run_one_outcome_per_entry(rest, managers, st1.1, st1.2);
        lemma_run_one_outcome_per_entry(entries, managers, ml2, sl2);
        lemma_run_one_outcome_per_entry(rest, managers, st2.1, st2.2);
        lemma_run_monotone(rest, managers, st1.1, st1.2);
        lemma_step_monotone(it, managers, ml2, sl2);

        // Head: an entry added by the first pass is found in the second
        // pass's library, which extends everything the first pass wrote.
        if st1.0 == Outcome::Added {
            if it.item_type == ItemType::Movie {
                let m = managers.movie->0;
                let term = spec_search_term(it.title@, it.year);
                let results = movie_lookup_search(m.lookups@, term)->0;
                lemma_movie_search_identified(m.lookups@, term);
                let t = results[0].tmdb_id;
                assert(st1.1 == ml1.push(RadarrMovieSimple { tmdb_id: t }));
                assert(st1.1[ml1.len() as int].tmdb_id == t);
                assert(seq_prefix(st1.1, r1.movie_lib));
                assert(r1.movie_lib[ml1.len() as int].tmdb_id == t);
                assert(ml2[ml1.len() as int].tmdb_id == t);
                assert(spec_movie_in_library(t, ml2));
                assert(st2.0 == Outcome::AlreadyExists);
            } else {
                let m = managers.show->0;
                let term = spec_search_term(it.title@, it.year);
                let results = series_lookup_search(m.lookups@, term)->0;
                lemma_series_search_identified(m.lookups@, term);
                let tv = results[0].tvdb_id;
                let tm = results[0].tmdb_id;
                let rec = SonarrSeriesSimple { tvdb_id: tv, tmdb_id: tm };
                assert(st1.2 == sl1.push(rec));
                assert(st1.2[sl1.len() as int] == rec);
                assert(seq_prefix(st1.2, r1.show_lib));
                assert(r1.show_lib[sl1.len() as int] == rec);
                assert(sl2[sl1.len() as int] == rec);
                assert(spec_series_in_library(tv, tm, sl2));
                assert(st2.0 == Outcome::AlreadyExists);
            }
        }

        // Tail: the first pass's final libraries extend the tail run's
        // starting point, so induction applies.
        assert(r1rest.movie_lib == r1.movie_lib);
        assert(r1rest.show_lib == r1.show_lib);
        lemma_prefix_trans(r1rest.movie_lib, ml2, st2.1);
        lemma_prefix_trans(r1rest.show_lib, sl2, st2.2);
        lemma_rerun_added_becomes_existing(rest, managers, st1.1, st1.2, st2.1, st2.2);

        assert forall|k: int|
            0 <= k < entries.len() && r1.outcomes[k] == Outcome::Added implies #[trigger] r2.outcomes[k]
            == Outcome::AlreadyExists by {
            if k == 0 {
                assert(r1.outcomes[0] == st1.0);
                assert(r2.outcomes[0] == st2.0);
            } else {
                assert(r1.outcomes[k] == r1rest.outcomes[k - 1]);
                assert(r2.outcomes[k] == r2rest.outcomes[k - 1]);
                assert(r1rest.outcomes[k - 1] == Outcome::Added ==> r2rest.outcomes[k - 1]
                    == Outcome::AlreadyExists);
            }
        }
    }
}

/// Law: reconciliation is idempotent. Running a pass again over the same
/// watchlist, against the libraries the first pass left behind and with
/// the managers otherwise unchanged, turns every entry the first pass
/// added into `AlreadyExists`. This needs every lookup's top result to
/// carry an id in some namespace: a top result with no id at all is
/// never recognised as present and would be added again.
pub proof fn lemma_reconcile_idempotent(entries: Seq<WatchlistItem>, managers: Managers)
    requires
        lookups_identified(managers),
    ensures
        ({
            let r1 = spec_run(
                entries,
                managers,
                spec_movie_lib(managers),
                spec_show_lib(managers),
            );
            let r2 = spec_run(entries, managers, r1.movie_lib, r1.show_lib);
            forall|k: int|
                0 <= k < entries.len() && r1.outcomes[k] == Outcome::Added ==> #[trigger] r2.outcomes[k]
                    == Outcome::AlreadyExists
        }),
{
    let r1 = spec_run(entries, managers, spec_movie_lib(managers), spec_show_lib(managers));
    assert(seq_prefix(r1.movie_lib, r1.movie_lib));
    assert(seq_prefix(r1.show_lib, r1.show_lib));
    lemma_rerun_added_becomes_existing(
        entries,
        managers,
        spec_movie_lib(managers),
        spec_show_lib(managers),
        r1.movie_lib,
        r1.show_lib,
    );
}

fn find_movie_lookup<'a>(l: &'a Vec<MovieLookupEntry>, term: &String) -> (r: Option<
    &'a Vec<RadarrLookupResult>,
>)
    ensures
        match r {
            Some(rs) => movie_lookup_search(l@, term@) == Some(rs@),
            None => movie_lookup_search(l@, term@) is None,
        },
{
    let n = l.len();
    proof {
        assert(l@.skip(0) =~= l@);
    }
    let mut i: usize = 0;
    while i < n
        invariant
            i <= n,
            n == l@.len(),
            movie_lookup_search(l@, term@) == movie_lookup_search(l@.skip(i as int), term@),
        decreases n - i,
    {
        let ghost tail = l@.skip(i as int);
        proof {
            assert(tail[0] == l@[i as int]);
            assert(tail.drop_first() =~= l@.skip(i as int + 1));
        }
        if l[i].term == *term {
            return Some(&l[i].results);
        }
        i = i + 1;
    }
    proof {
        assert(l@.skip(n as int) =~= Seq::<MovieLookupEntry>::empty());
    }
    None
}

fn find_series_lookup<'a>(l: &'a Vec<SeriesLookupEntry>, term: &String) -> (r: Option<
    &'a Vec<SonarrLookupResult>,
>)
    ensures
        match r {
            Some(rs) => series_lookup_search(l@, term@) == Some(rs@),
            None => series_lookup_search(l@, term@) is None,
        },
{
    let n = l.len();
    proof {
        assert(l@.skip(0) =~= l@);
    }
    let mut i: usize = 0;
    while i < n
        invariant
            i <= n,
            n == l@.len(),
            series_lookup_search(l@, term@) == series_lookup_search(l@.skip(i as int), term@),
        decreases n - i,
    {
        let ghost tail = l@.skip(i as int);
        proof {
            assert(tail[0] == l@[i as int]);
            assert(tail.drop_first() =~= l@.skip(i as int + 1));
        }
        if l[i].term == *term {
            return Some(&l[i].results);
        }
        i = i + 1;
    }
    proof {
        assert(l@.skip(n as int) =~= Seq::<SeriesLookupEntry>::empty());
    }
    None
}

/// One movie entry against the live movie-manager state: resolve the
/// lookup, dedup against the library, and on an add record the new
/// library entry. Exactly `spec_movie_step`; nothing else changes.
pub fn movie_step(mm: &mut MovieManagerModel, it: &Item) -> (o: Outcome)
    ensures
        ({
            let st = spec_movie_step(*it, *old(mm), old(mm).library@);
            &&& o == st.0
            &&& final(mm).library@ == st.1
            &&& final(mm).config == old(mm).config
            &&& final(mm).profiles == old(mm).profiles
            &&& final(mm).roots == old(mm).roots
            &&& final(mm).tags == old(mm).tags
            &&& final(mm).lookups == old(mm).lookups
        }),
{
    if !matches!(it.item_type, ItemType::Movie) {
        return Outcome::Failed(SyncError::KindMismatch);
    }
    let term = search_term(it.title.as_str(), it.year);
    let tmdb = match find_movie_lookup(&mm.lookups, &term) {
        None => {
            return Outcome::Failed(SyncError::NotFound);
        },
        Some(results) => {
            if results.len() == 0 {
                return Outcome::Failed(SyncError::NotFound);
            }
            results[0].tmdb_id
        },
    };
    if movie_in_library(tmdb, &mm.library) {
        return Outcome::AlreadyExists;
    }
    mm.library.push(RadarrMovieSimple { tmdb_id: tmdb });
    Outcome::Added
}

/// One show entry against the live show-manager state: resolve the
/// lookup, dedup on both id namespaces, and on an add record the new
/// library entry. Exactly `spec_series_step`; nothing else changes.
pub fn series_step(mm: &mut ShowManagerModel, it: &Item) -> (o: Outcome)
    ensures
        ({
            let st = spec_series_step(*it, *old(mm), old(mm).library@);
            &&& o == st.0
            &&& final(mm).library@ == st.1
            &&& final(mm).config == old(mm).config
            &&& final(mm).profiles == old(mm).profiles
            &&& final(mm).roots == old(mm).roots
            &&& final(mm).tags == old(mm).tags
            &&& final(mm).lookups == old(mm).lookups
        }),
{
    if !matches!(it.item_type, ItemType::Show) {
        return Outcome::Failed(SyncError::KindMismatch);
    }
    let term = search_term(it.title.as_str(), it.year);
    let (tvdb, tmdb) = match find_series_lookup(&mm.lookups, &term) {
        None => {
            return Outcome::Failed(SyncError::NotFound);
        },
        Some(results) => {
            if results.len() == 0 {
                return Outcome::Failed(SyncError::NotFound);
            }
            (results[0].tvdb_id, results[0].tmdb_id)
        },
    };
    if series_in_library(tvdb, tmdb, &mm.library) {
        return Outcome::AlreadyExists;
    }
    mm.library.push(SonarrSeriesSimple { tvdb_id: tvdb, tmdb_id: tmdb });
    Outcome::Added
}

/// One reconciliation pass: for each entry in watchlist order, route by
/// kind to the configured manager, resolve, dedup, and add when new.
/// Exactly one outcome is recorded per entry; a failed entry never
/// aborts the pass, and nothing but the libraries changes.
pub fn reconcile(entries: &Vec<WatchlistItem>, managers: &mut Managers) -> (report:
    ReconciliationReport)
    ensures
        ({
            let r = spec_run(
                entries@,
                *old(managers),
                spec_movie_lib(*old(managers)),
                spec_show_lib(*old(managers)),
            );
            &&& report.outcomes@ == r.outcomes
            &&& report.outcomes@.len() == entries@.len()
            &&& spec_movie_lib(*final(managers)) == r.movie_lib
            &&& spec_show_lib(*final(managers)) == r.show_lib
            &&& managers_frame(*old(managers), *final(managers))
        }),
{
    let n = entries.len();
    let mut outcomes: Vec<Outcome> = Vec::new();
    let mut i: usize = 0;
    proof {
        assert(entries@.skip(0) =~= entries@);
    }
    while i < n
        invariant
            i <= n,
            n == entries@.len(),
            outcomes@.len() == i,
            managers_frame(*old(managers), *managers),
            ({
                let r_total = spec_run(
                    entries@,
                    *old(managers),
                    spec_movie_lib(*old(managers)),
                    spec_show_lib(*old(managers)),
                );
                let r_rest = spec_run(
                    entries@.skip(i as int),
                    *old(managers),
                    spec_movie_lib(*managers),
                    spec_show_lib(*managers),
                );
                &&& r_total.outcomes == outcomes@ + r_rest.outcomes
                &&& r_total.movie_lib == r_rest.movie_lib
                &&& r_total.show_lib == r_rest.show_lib
            }),
        decreases n - i,
    {
        let ghost pre = *managers;
        let ghost iold = i as int;
        let it = &entries[i].item;
        let outcome: Outcome = match it.item_type {
            ItemType::Movie => match &mut managers.movie {
                Some(mm) => movie_step(mm, it),
                None => Outcome::Skipped,
            },
            ItemType::Show => match &mut managers.show {
                Some(mm) => series_step(mm, it),
                None => Outcome::Skipped,
            },
        };
        proof {
            let s = entries@.skip(iold);
            assert(s[0] == entries@[iold]);
            assert(s.drop_first() =~= entries@.skip(iold + 1));
            let st = spec_step(
                entries@[iold].item,
                *old(managers),
                spec_movie_lib(pre),
                spec_show_lib(pre),
            );
            if entries@[iold].item.item_type == ItemType::Movie && pre.movie is Some {
                assert(spec_movie_step(
                    entries@[iold].item,
                    (*old(managers)).movie->0,
                    spec_movie_lib(pre),
                ) == spec_movie_step(entries@[iold].item, pre.movie->0, spec_movie_lib(pre)));
            }
            if entries@[iold].item.item_type == ItemType::Show && pre.show is Some {
                assert(spec_series_step(
                    entries@[iold].item,
                    (*old(managers)).show->0,
                    spec_show_lib(pre),
                ) == spec_series_step(entries@[iold].item, pre.show->0, spec_show_lib(pre)));
            }
            assert(outcome == st.0);
            assert(spec_movie_lib(*managers) == st.1);
            assert(spec_show_lib(*managers) == st.2);
        }
        let ghost prev_outcomes = outcomes@;
        outcomes.push(outcome);
        i = i + 1;
        proof {
            let r_rest_new = spec_run(
                entries@.skip(i as int),
                *old(managers),
                spec_movie_lib(*managers),
                spec_show_lib(*managers),
            );
            assert(prev_outcomes + (seq![outcome] + r_rest_new.outcomes) =~= outcomes@
                + r_rest_new.outcomes);
        }
    }
    proof {
        assert(entries@.skip(n as int) =~= Seq::<WatchlistItem>::empty());
        assert(outcomes@ + Seq::<Outcome>::empty() =~= outcomes@);
        lemma_run_one_outcome_per_entry(
            entries@,
            *old(managers),
            spec_movie_lib(*old(managers)),
            spec_show_lib(*old(managers)),
        );
    }
    ReconciliationReport { outcomes }
}

} // verus!
