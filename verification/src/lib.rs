//! Core of a watchlist-to-library synchroniser.
//!
//! The library holds the reconciliation logic: normalising a watchlist
//! markup document into entries, deciding which entries are new for a
//! downstream manager, resolving placement parameters (quality tier,
//! storage root, tags) and building the add requests. All network and
//! file transport lives outside the library; the functions here go from
//! plain values to plain values and carry contracts for what they return.

pub mod config;
pub mod engine;
pub mod markup;
pub mod models;
pub mod placement;
pub mod plex;
pub mod radarr;
pub mod sonarr;
pub mod text;
pub mod urls;
