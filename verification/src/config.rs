//! Configuration values the engine runs with.
//!
//! The process boots with a fully resolved `Configuration`; the library
//! never reads a file itself. Every section is optional: the operator may
//! run only one target manager, or none.

use vstd::prelude::*;

verus! {

/// Polling interval for the incremental sync, in seconds.
#[derive(Clone, Debug)]
pub struct IntervalConfig {
    pub seconds: u64,
}

/// Settings for the show manager target.
#[derive(Clone, Debug)]
pub struct SonarrConfig {
    pub base_url: String,
    pub api_key: String,
    pub quality_profile: Option<String>,
    pub root_folder: Option<String>,
    pub bypass_ignored: Option<bool>,
    pub season_monitoring: Option<String>,
    pub tags: Option<Vec<String>>,
}

/// Settings for the movie manager target.
#[derive(Clone, Debug)]
pub struct RadarrConfig {
    pub base_url: String,
    pub api_key: String,
    pub quality_profile: Option<String>,
    pub root_folder: Option<String>,
    pub bypass_ignored: Option<bool>,
    pub tags: Option<Vec<String>>,
}

/// Settings for the watchlist source.
#[derive(Clone, Debug)]
pub struct PlexConfig {
    pub token: String,
    pub skip_friend_sync: Option<bool>,
}

/// Gates and interval for the removal sync.
#[derive(Clone, Debug)]
pub struct DeleteConfig {
    pub movie: Option<bool>,
    pub ended_show: Option<bool>,
    pub continuing_show: Option<bool>,
    pub interval: Option<DeleteIntervalConfig>,
    pub delete_files: Option<bool>,
}

/// Removal-sync interval, in days.
#[derive(Clone, Debug)]
pub struct DeleteIntervalConfig {
    pub days: u64,
}

/// The whole configuration, resolved once at startup and read-only after.
#[derive(Clone, Debug)]
pub struct Configuration {
    pub interval: Option<IntervalConfig>,
    pub sonarr: Option<SonarrConfig>,
    pub radarr: Option<RadarrConfig>,
    pub plex: Option<PlexConfig>,
    pub delete: Option<DeleteConfig>,
}

pub const DEFAULT_REFRESH_SECONDS: u64 = 10;

pub const SECONDS_PER_DAY: u64 = 86400;

pub const DEFAULT_DELETE_DAYS: u64 = 7;

impl Configuration {
    /// Incremental-sync period in seconds: the configured value, or ten
    /// seconds when no interval section is present.
    pub open spec fn spec_refresh_interval(&self) -> u64 {
        if self.interval is Some {
            self.interval->0.seconds
        } else {
            DEFAULT_REFRESH_SECONDS
        }
    }

    /// Removal-sync period in seconds: the configured day count times the
    /// seconds of a day, or seven days when nothing is configured.
    pub open spec fn spec_delete_interval(&self) -> int {
        if self.delete is Some && self.delete->0.interval is Some {
            self.delete->0.interval->0.days * SECONDS_PER_DAY
        } else {
            DEFAULT_DELETE_DAYS * SECONDS_PER_DAY
        }
    }

    pub fn refresh_interval(&self) -> (s: u64)
        ensures
            s == self.spec_refresh_interval(),
    {
        match &self.interval {
            Some(i) => i.seconds,
            None => DEFAULT_REFRESH_SECONDS,
        }
    }

    pub fn delete_interval(&self) -> (s: u64)
        requires
            self.spec_delete_interval() <= u64::MAX,
        ensures
            s == self.spec_delete_interval(),
    {
        match &self.delete {
            Some(d) => match &d.interval {
                Some(i) => i.days * SECONDS_PER_DAY,
                None => DEFAULT_DELETE_DAYS * SECONDS_PER_DAY,
            },
            None => DEFAULT_DELETE_DAYS * SECONDS_PER_DAY,
        }
    }
}

impl DeleteConfig {
    /// Whether any removal gate is switched on; the removal loop only runs
    /// a cycle when at least one of the three is.
    pub open spec fn spec_prune_enabled(&self) -> bool {
        self.movie == Some(true) || self.ended_show == Some(true) || self.continuing_show
            == Some(true)
    }

    pub fn prune_enabled(&self) -> (b: bool)
        ensures
            b == self.spec_prune_enabled(),
    {
        matches!(self.movie, Some(true)) || matches!(self.ended_show, Some(true)) || matches!(
            self.continuing_show,
            Some(true),
        )
    }
}

impl PlexConfig {
    /// Whether a cycle should also read collaborator watchlists: only a
    /// full sync does, and only while friend sync is not disabled.
    pub open spec fn spec_include_collaborators(&self, full_sync: bool) -> bool {
        full_sync && !(self.skip_friend_sync == Some(true))
    }

    pub fn include_collaborators(&self, full_sync: bool) -> (b: bool)
        ensures
            b == self.spec_include_collaborators(full_sync),
    {
        full_sync && !matches!(self.skip_friend_sync, Some(true))
    }
}

} // verus!
