use watchlistarr::config::{
    Configuration, DeleteConfig, DeleteIntervalConfig, IntervalConfig, PlexConfig,
};
use watchlistarr::plex::watchlist_url;
use watchlistarr::urls::{api_url, lookup_url, search_term};

fn bare_config() -> Configuration {
    Configuration { interval: None, sonarr: None, radarr: None, plex: None, delete: None }
}

#[test]
fn refresh_interval_defaults_to_ten_seconds() {
    assert_eq!(bare_config().refresh_interval(), 10);
}

#[test]
fn refresh_interval_uses_configured_seconds() {
    let mut c = bare_config();
    c.interval = Some(IntervalConfig { seconds: 42 });
    assert_eq!(c.refresh_interval(), 42);
}

#[test]
fn delete_interval_defaults_to_seven_days() {
    assert_eq!(bare_config().delete_interval(), 7 * 24 * 60 * 60);
}

#[test]
fn delete_interval_uses_configured_days() {
    let mut c = bare_config();
    c.delete = Some(DeleteConfig {
        movie: None,
        ended_show: None,
        continuing_show: None,
        interval: Some(DeleteIntervalConfig { days: 2 }),
        delete_files: None,
    });
    assert_eq!(c.delete_interval(), 2 * 24 * 60 * 60);
}

#[test]
fn prune_runs_only_when_some_gate_is_on() {
    let off = DeleteConfig {
        movie: Some(false),
        ended_show: None,
        continuing_show: None,
        interval: None,
        delete_files: None,
    };
    assert!(!off.prune_enabled());
    let on = DeleteConfig {
        movie: None,
        ended_show: Some(true),
        continuing_show: None,
        interval: None,
        delete_files: None,
    };
    assert!(on.prune_enabled());
}

#[test]
fn collaborators_join_only_a_full_sync_and_only_unless_skipped() {
    let open = PlexConfig { token: "t".to_string(), skip_friend_sync: None };
    assert!(open.include_collaborators(true));
    assert!(!open.include_collaborators(false));
    let skipping = PlexConfig { token: "t".to_string(), skip_friend_sync: Some(true) };
    assert!(!skipping.include_collaborators(true));
}

#[test]
fn search_term_appends_known_year() {
    assert_eq!(search_term("Dune", Some(2021)), "Dune 2021");
}

#[test]
fn search_term_without_year_is_the_bare_title() {
    assert_eq!(search_term("Dune", None), "Dune");
}

#[test]
fn api_url_carries_key_as_query() {
    assert_eq!(
        api_url("http://radarr:7878", "/api/v3/movie", "secret"),
        "http://radarr:7878/api/v3/movie?apikey=secret"
    );
}

#[test]
fn lookup_url_percent_encodes_the_term() {
    let u = lookup_url("http://radarr:7878", "/api/v3/movie/lookup", "Dune 2021", "secret");
    assert_eq!(u, "http://radarr:7878/api/v3/movie/lookup?term=Dune%202021&apikey=secret");
}

#[test]
fn lookup_url_encodes_reserved_characters() {
    let u = lookup_url("http://sonarr:8989", "/api/v3/series/lookup", "M*A*S*H & more", "k");
    assert_eq!(
        u,
        "http://sonarr:8989/api/v3/series/lookup?term=M%2AA%2AS%2AH%20%26%20more&apikey=k"
    );
}

#[test]
fn watchlist_url_carries_the_token() {
    let cfg = PlexConfig { token: "tok123".to_string(), skip_friend_sync: None };
    assert_eq!(
        watchlist_url(&cfg),
        "https://metadata.provider.plex.tv/library/sections/watchlist/all?X-Plex-Token=tok123"
    );
}
