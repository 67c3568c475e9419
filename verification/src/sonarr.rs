//! The show-manager adapter's decision logic. Shows are indexed under
//! two id namespaces, so dedup treats a match on either the show-db id
//! or the external-db id as sufficient on its own.

use vstd::prelude::*;
use vstd::string::StringExecFns;
use crate::config::SonarrConfig;
use crate::models::{QualityProfile, RootFolder, SyncError, Tag};
use crate::placement::{
    default_profile_id, opt_str_view, profile_id_search, resolve_quality_profile,
    resolve_root_folder, resolve_tag_ids, spec_resolve_tags, spec_root_path,
};

verus! {

/// Canonical metadata for a show as the manager's lookup reports it.
#[derive(Clone, Debug)]
pub struct SonarrLookupResult {
    pub title: String,
    pub sort_title: String,
    pub year: Option<i32>,
    pub tvdb_id: Option<i32>,
    pub tmdb_id: Option<i32>,
    pub imdb_id: Option<String>,
}

impl SonarrLookupResult {
    /// A copy that is provably the same value.
    pub fn duplicate(&self) -> (r: Self)
        ensures
            r == *self,
    {
        SonarrLookupResult {
            title: self.title.clone(),
            sort_title: self.sort_title.clone(),
            year: self.year,
            tvdb_id: self.tvdb_id,
            tmdb_id: self.tmdb_id,
            imdb_id: match &self.imdb_id {
                Some(s) => Some(s.clone()),
                None => None,
            },
        }
    }
}

/// The dedup projection of one existing library entry: both
/// cross-reference ids, nothing else.
#[derive(Clone, Copy, Debug)]
pub struct SonarrSeriesSimple {
    pub tvdb_id: Option<i32>,
    pub tmdb_id: Option<i32>,
}

/// Instructions attached to an add request.
#[derive(Clone, Debug)]
pub struct SonarrAddOptions {
    pub monitor: String,
    pub search_for_missing_episodes: bool,
}

/// A complete show add request.
#[derive(Clone, Debug)]
pub struct SonarrSeries {
    pub title: String,
    pub sort_title: String,
    pub year: i32,
    pub tvdb_id: Option<i32>,
    pub imdb_id: Option<String>,
    pub tmdb_id: Option<i32>,
    pub quality_profile_id: i32,
    pub root_folder_path: String,
    pub add_options: SonarrAddOptions,
    pub monitored: bool,
    pub tags: Vec<i32>,
}

/// The authoritative result of a ranked lookup response: the first
/// element; an empty response means the title cannot be resolved.
pub fn select_series_lookup(results: &Vec<SonarrLookupResult>) -> (r: Result<
    SonarrLookupResult,
    SyncError,
>)
    ensures
        results@.len() > 0 ==> r == Ok::<SonarrLookupResult, SyncError>(results@[0]),
        results@.len() == 0 ==> r == Err::<SonarrLookupResult, SyncError>(SyncError::NotFound),
{
    if results.len() == 0 {
        Err(SyncError::NotFound)
    } else {
        Ok(results[0].duplicate())
    }
}

/// Whether a known show-db id matches some existing record.
pub open spec fn spec_tvdb_match(tvdb: Option<i32>, lib: Seq<SonarrSeriesSimple>) -> bool {
    tvdb is Some && exists|i: int| 0 <= i < lib.len() && (#[trigger] lib[i]).tvdb_id == tvdb
}

/// Whether a known external-db id matches some existing record.
pub open spec fn spec_tmdb_match(tmdb: Option<i32>, lib: Seq<SonarrSeriesSimple>) -> bool {
    tmdb is Some && exists|i: int| 0 <= i < lib.len() && (#[trigger] lib[i]).tmdb_id == tmdb
}

/// Whether the resolved show already stands in the library: a match on
/// either id namespace alone is sufficient.
pub open spec fn spec_series_in_library(
    tvdb: Option<i32>,
    tmdb: Option<i32>,
    lib: Seq<SonarrSeriesSimple>,
) -> bool {
    spec_tvdb_match(tvdb, lib) || spec_tmdb_match(tmdb, lib)
}

/// Law: a match on either the show-db id or the external-db id alone
/// suppresses the add; neither namespace needs the other's agreement.
pub proof fn lemma_either_id_suffices(
    tvdb: Option<i32>,
    tmdb: Option<i32>,
    lib: Seq<SonarrSeriesSimple>,
)
    ensures
        spec_tvdb_match(tvdb, lib) ==> spec_series_in_library(tvdb, tmdb, lib),
        spec_tmdb_match(tmdb, lib) ==> spec_series_in_library(tvdb, tmdb, lib),
{
}

pub fn series_in_library(
    tvdb_id: Option<i32>,
    tmdb_id: Option<i32>,
    existing: &Vec<SonarrSeriesSimple>,
) -> (b: bool)
    ensures
        b == spec_series_in_library(tvdb_id, tmdb_id, existing@),
{
    let n = existing.len();
    let mut i: usize = 0;
    while i < n
        invariant
            i <= n,
            n == existing@.len(),
            forall|k: int|
                0 <= k < i ==> !(tvdb_id is Some && (#[trigger] existing@[k]).tvdb_id
                    == tvdb_id),
            forall|k: int|
                0 <= k < i ==> !(tmdb_id is Some && (#[trigger] existing@[k]).tmdb_id
                    == tmdb_id),
        decreases n - i,
    {
        let rec = existing[i];
        match (tvdb_id, rec.tvdb_id) {
            (Some(a), Some(b)) => if a == b {
                return true;
            },
            _ => {},
        }
        match (tmdb_id, rec.tmdb_id) {
            (Some(a), Some(b)) => if a == b {
                return true;
            },
            _ => {},
        }
        i = i + 1;
    }
    false
}

/// The tier id an add must carry: the configured name's tier when it
/// matches, else the default tier.
pub open spec fn spec_series_profile(cfg: SonarrConfig, profiles: Seq<QualityProfile>) -> i32 {
    match cfg.quality_profile {
        Some(n) => match profile_id_search(profiles, n@) {
            Some(id) => id,
            None => default_profile_id(profiles),
        },
        None => default_profile_id(profiles),
    }
}

/// The storage root an add must carry; the manager-specific fixed path
/// stands in when nothing is configured and no root is reported.
pub open spec fn spec_series_root(cfg: SonarrConfig, roots: Seq<RootFolder>) -> Seq<char> {
    spec_root_path(opt_str_view(cfg.root_folder), roots, "/tv"@)
}

/// The label ids an add must carry.
pub open spec fn spec_series_tags(cfg: SonarrConfig, tags: Seq<Tag>) -> Seq<i32> {
    match cfg.tags {
        Some(names) => spec_resolve_tags(names@, tags),
        None => Seq::empty(),
    }
}

/// The season-monitoring policy an add must carry: the configured name,
/// or every season when none is configured.
pub open spec fn spec_monitor_policy(cfg: SonarrConfig) -> Seq<char> {
    match cfg.season_monitoring {
        Some(m) => m@,
        None => "all"@,
    }
}

fn monitor_policy(cfg: &SonarrConfig) -> (r: String)
    ensures
        r@ == spec_monitor_policy(*cfg),
{
    match &cfg.season_monitoring {
        Some(m) => m.clone(),
        None => String::from_str("all"),
    }
}

/// Build the add request from the resolved lookup and placement.
pub fn build_series_add(
    lookup: SonarrLookupResult,
    quality_profile_id: i32,
    root_folder_path: String,
    monitor: String,
    tag_ids: Vec<i32>,
) -> (m: SonarrSeries)
    ensures
        m.title == lookup.title,
        m.sort_title == lookup.sort_title,
        m.year == (match lookup.year {
            Some(y) => y,
            None => 0,
        }),
        m.tvdb_id == lookup.tvdb_id,
        m.tmdb_id == lookup.tmdb_id,
        m.imdb_id == lookup.imdb_id,
        m.quality_profile_id == quality_profile_id,
        m.root_folder_path == root_folder_path,
        m.add_options.monitor == monitor,
        m.add_options.search_for_missing_episodes == true,
        m.monitored == true,
        m.tags == tag_ids,
{
    let year = match lookup.year {
        Some(y) => y,
        None => 0,
    };
    SonarrSeries {
        title: lookup.title,
        sort_title: lookup.sort_title,
        year,
        tvdb_id: lookup.tvdb_id,
        imdb_id: lookup.imdb_id,
        tmdb_id: lookup.tmdb_id,
        quality_profile_id,
        root_folder_path,
        add_options: SonarrAddOptions { monitor, search_for_missing_episodes: true },
        monitored: true,
        tags: tag_ids,
    }
}

/// What one resolved show entry leads to: no write when it is already
/// present, else a fully resolved add request.
pub enum SeriesPlan {
    AlreadyExists,
    Submit(SonarrSeries),
}

/// Decide for one resolved show: dedup on both id namespaces first,
/// then resolve placement and build the request.
pub fn plan_series_add(
    cfg: &SonarrConfig,
    lookup: SonarrLookupResult,
    existing: &Vec<SonarrSeriesSimple>,
    profiles: &Vec<QualityProfile>,
    roots: &Vec<RootFolder>,
    tags: &Vec<Tag>,
) -> (p: SeriesPlan)
    ensures
        spec_series_in_library(lookup.tvdb_id, lookup.tmdb_id, existing@) ==> p
            is AlreadyExists,
        !spec_series_in_library(lookup.tvdb_id, lookup.tmdb_id, existing@) ==> (p matches
            SeriesPlan::Submit(m) && m.title == lookup.title && m.sort_title
            == lookup.sort_title && m.year == (match lookup.year {
            Some(y) => y,
            None => 0,
        }) && m.tvdb_id == lookup.tvdb_id && m.tmdb_id == lookup.tmdb_id && m.imdb_id
            == lookup.imdb_id && m.quality_profile_id == spec_series_profile(*cfg, profiles@)
            && m.root_folder_path@ == spec_series_root(*cfg, roots@) && m.tags@
            == spec_series_tags(*cfg, tags@) && m.add_options.monitor@ == spec_monitor_policy(
            *cfg,
        ) && m.add_options.search_for_missing_episodes && m.monitored),
{
    if series_in_library(lookup.tvdb_id, lookup.tmdb_id, existing) {
        SeriesPlan::AlreadyExists
    } else {
        let (qid, _profile_warn) = resolve_quality_profile(&cfg.quality_profile, profiles);
        let root = resolve_root_folder(&cfg.root_folder, roots, "/tv");
        let monitor = monitor_policy(cfg);
        let tag_ids = match &cfg.tags {
            Some(names) => resolve_tag_ids(names, tags),
            None => Vec::new(),
        };
        SeriesPlan::Submit(build_series_add(lookup, qid, root, monitor, tag_ids))
    }
}

} // verus!
