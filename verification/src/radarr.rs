//! The movie-manager adapter's decision logic: picking the authoritative
//! lookup result, deduplicating against the current library by
//! cross-reference id, and building the add request.

use vstd::prelude::*;
use crate::config::RadarrConfig;
use crate::models::{QualityProfile, RootFolder, SyncError, Tag};
use crate::placement::{
    default_profile_id, opt_str_view, profile_id_search, resolve_profile_post,
    resolve_quality_profile, resolve_root_folder, resolve_tag_ids, spec_resolve_tags,
    spec_root_path,
};

verus! {

/// Canonical metadata for a movie as the manager's lookup reports it.
#[derive(Clone, Debug)]
pub struct RadarrLookupResult {
    pub title: String,
    pub original_title: String,
    pub sort_title: String,
    pub year: Option<i32>,
    pub tmdb_id: Option<i32>,
    pub imdb_id: Option<String>,
}

impl RadarrLookupResult {
    /// A copy that is provably the same value.
    pub fn duplicate(&self) -> (r: Self)
        ensures
            r == *self,
    {
        RadarrLookupResult {
            title: self.title.clone(),
            original_title: self.original_title.clone(),
            sort_title: self.sort_title.clone(),
            year: self.year,
            tmdb_id: self.tmdb_id,
            imdb_id: match &self.imdb_id {
                Some(s) => Some(s.clone()),
                None => None,
            },
        }
    }
}

/// The dedup projection of one existing library entry: only its
/// cross-reference id, never title or year.
#[derive(Clone, Copy, Debug)]
pub struct RadarrMovieSimple {
    pub tmdb_id: Option<i32>,
}

/// Instructions attached to an add request.
#[derive(Clone, Copy, Debug)]
pub struct RadarrAddOptions {
    pub search_for_movie: bool,
}

/// A complete movie add request.
#[derive(Clone, Debug)]
pub struct RadarrMovie {
    pub title: String,
    pub original_title: String,
    pub sort_title: String,
    pub year: i32,
    pub tmdb_id: Option<i32>,
    pub imdb_id: Option<String>,
    pub quality_profile_id: i32,
    pub root_folder_path: String,
    pub add_options: RadarrAddOptions,
    pub monitored: bool,
    pub tags: Vec<i32>,
}

/// The authoritative result of a ranked lookup response: the first
/// element; an empty response means the title cannot be resolved.
pub fn select_lookup(results: &Vec<RadarrLookupResult>) -> (r: Result<
    RadarrLookupResult,
    SyncError,
>)
    ensures
        results@.len() > 0 ==> r == Ok::<RadarrLookupResult, SyncError>(results@[0]),
        results@.len() == 0 ==> r == Err::<RadarrLookupResult, SyncError>(SyncError::NotFound),
{
    if results.len() == 0 {
        Err(SyncError::NotFound)
    } else {
        Ok(results[0].duplicate())
    }
}

/// Whether the resolved movie already stands in the library: its
/// external-db id is known and some existing record carries the same id.
pub open spec fn spec_movie_in_library(tmdb: Option<i32>, lib: Seq<RadarrMovieSimple>) -> bool {
    tmdb is Some && exists|i: int| 0 <= i < lib.len() && (#[trigger] lib[i]).tmdb_id == tmdb
}

pub fn movie_in_library(tmdb_id: Option<i32>, existing: &Vec<RadarrMovieSimple>) -> (b: bool)
    ensures
        b == spec_movie_in_library(tmdb_id, existing@),
{
    let t = match tmdb_id {
        None => {
            return false;
        },
        Some(t) => t,
    };
    let n = existing.len();
    let mut i: usize = 0;
    while i < n
        invariant
            i <= n,
            n == existing@.len(),
            tmdb_id == Some(t),
            forall|k: int| 0 <= k < i ==> (#[trigger] existing@[k]).tmdb_id != Some(t),
        decreases n - i,
    {
        match existing[i].tmdb_id {
            Some(et) => if et == t {
                return true;
            },
            None => {},
        }
        i = i + 1;
    }
    false
}

/// The tier id an add must carry: the configured name's tier when it
/// matches, else the default tier.
pub open spec fn spec_movie_profile(cfg: RadarrConfig, profiles: Seq<QualityProfile>) -> i32 {
    match cfg.quality_profile {
        Some(n) => match profile_id_search(profiles, n@) {
            Some(id) => id,
            None => default_profile_id(profiles),
        },
        None => default_profile_id(profiles),
    }
}

/// The storage root an add must carry; the manager-specific fixed path
/// stands in when nothing is configured and no root is reported.
pub open spec fn spec_movie_root(cfg: RadarrConfig, roots: Seq<RootFolder>) -> Seq<char> {
    spec_root_path(opt_str_view(cfg.root_folder), roots, "/mnt/shared/movies"@)
}

/// The label ids an add must carry.
pub open spec fn spec_movie_tags(cfg: RadarrConfig, tags: Seq<Tag>) -> Seq<i32> {
    match cfg.tags {
        Some(names) => spec_resolve_tags(names@, tags),
        None => Seq::empty(),
    }
}

/// Build the add request from the resolved lookup and placement.
pub fn build_movie_add(
    lookup: RadarrLookupResult,
    quality_profile_id: i32,
    root_folder_path: String,
    tag_ids: Vec<i32>,
) -> (m: RadarrMovie)
    ensures
        m.title == lookup.title,
        m.original_title == lookup.original_title,
        m.sort_title == lookup.sort_title,
        m.year == (match lookup.year {
            Some(y) => y,
            None => 0,
        }),
        m.tmdb_id == lookup.tmdb_id,
        m.imdb_id == lookup.imdb_id,
        m.quality_profile_id == quality_profile_id,
        m.root_folder_path == root_folder_path,
        m.add_options.search_for_movie == true,
        m.monitored == true,
        m.tags == tag_ids,
{
    let year = match lookup.year {
        Some(y) => y,
        None => 0,
    };
    RadarrMovie {
        title: lookup.title,
        original_title: lookup.original_title,
        sort_title: lookup.sort_title,
        year,
        tmdb_id: lookup.tmdb_id,
        imdb_id: lookup.imdb_id,
        quality_profile_id,
        root_folder_path,
        add_options: RadarrAddOptions { search_for_movie: true },
        monitored: true,
        tags: tag_ids,
    }
}

/// What one resolved movie entry leads to: no write when it is already
/// present, else a fully resolved add request.
pub enum MoviePlan {
    AlreadyExists,
    Submit(RadarrMovie),
}

/// Decide for one resolved movie: dedup first, then resolve placement
/// and build the request.
pub fn plan_movie_add(
    cfg: &RadarrConfig,
    lookup: RadarrLookupResult,
    existing: &Vec<RadarrMovieSimple>,
    profiles: &Vec<QualityProfile>,
    roots: &Vec<RootFolder>,
    tags: &Vec<Tag>,
) -> (p: MoviePlan)
    ensures
        spec_movie_in_library(lookup.tmdb_id, existing@) ==> p is AlreadyExists,
        !spec_movie_in_library(lookup.tmdb_id, existing@) ==> (p matches MoviePlan::Submit(m)
            && m.title == lookup.title && m.original_title == lookup.original_title
            && m.sort_title == lookup.sort_title && m.year == (match lookup.year {
            Some(y) => y,
            None => 0,
        }) && m.tmdb_id == lookup.tmdb_id && m.imdb_id == lookup.imdb_id
            && m.quality_profile_id == spec_movie_profile(*cfg, profiles@)
            && m.root_folder_path@ == spec_movie_root(*cfg, roots@) && m.tags@
            == spec_movie_tags(*cfg, tags@) && m.add_options.search_for_movie && m.monitored),
{
    if movie_in_library(lookup.tmdb_id, existing) {
        MoviePlan::AlreadyExists
    } else {
        let (qid, _profile_warn) = resolve_quality_profile(&cfg.quality_profile, profiles);
        let root = resolve_root_folder(&cfg.root_folder, roots, "/mnt/shared/movies");
        let tag_ids = match &cfg.tags {
            Some(names) => resolve_tag_ids(names, tags),
            None => Vec::new(),
        };
        MoviePlan::Submit(build_movie_add(lookup, qid, root, tag_ids))
    }
}

} // verus!
