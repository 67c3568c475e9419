use watchlistarr::config::{RadarrConfig, SonarrConfig};
use watchlistarr::engine::{
    movie_step, reconcile, series_step, Managers, MovieLookupEntry, MovieManagerModel,
    SeriesLookupEntry, ShowManagerModel,
};
use watchlistarr::models::{Item, ItemType, Outcome, QualityProfile, RootFolder, SyncError, Tag, WatchlistItem};
use watchlistarr::radarr::{plan_movie_add, select_lookup, MoviePlan, RadarrLookupResult, RadarrMovieSimple};
use watchlistarr::sonarr::{plan_series_add, SeriesPlan, SonarrLookupResult, SonarrSeriesSimple};

fn entry(id: &str, title: &str, year: Option<i32>, kind: ItemType) -> WatchlistItem {
    WatchlistItem {
        item: Item {
            id: id.to_string(),
            title: title.to_string(),
            year,
            item_type: kind,
            guid: None,
            imdb_id: None,
            tmdb_id: None,
            tvdb_id: None,
        },
        added_at: 1700000000,
        user_id: "self".to_string(),
    }
}

fn radarr_cfg() -> RadarrConfig {
    RadarrConfig {
        base_url: "http://radarr:7878".to_string(),
        api_key: "key".to_string(),
        quality_profile: Some("HD-1080p".to_string()),
        root_folder: None,
        bypass_ignored: None,
        tags: None,
    }
}

fn sonarr_cfg() -> SonarrConfig {
    SonarrConfig {
        base_url: "http://sonarr:8989".to_string(),
        api_key: "key".to_string(),
        quality_profile: None,
        root_folder: None,
        bypass_ignored: None,
        season_monitoring: None,
        tags: None,
    }
}

fn dune_lookup() -> RadarrLookupResult {
    RadarrLookupResult {
        title: "Dune".to_string(),
        original_title: "Dune".to_string(),
        sort_title: "dune".to_string(),
        year: Some(2021),
        tmdb_id: Some(438631),
        imdb_id: Some("tt1160419".to_string()),
    }
}

fn movie_model(library: Vec<RadarrMovieSimple>, lookups: Vec<MovieLookupEntry>) -> MovieManagerModel {
    MovieManagerModel {
        config: radarr_cfg(),
        library,
        profiles: vec![QualityProfile { id: 4, name: "HD-1080p".to_string() }],
        roots: vec![RootFolder { id: 1, path: "/movies".to_string() }],
        tags: Vec::new(),
        lookups,
    }
}

fn show_model(library: Vec<SonarrSeriesSimple>, lookups: Vec<SeriesLookupEntry>) -> ShowManagerModel {
    ShowManagerModel {
        config: sonarr_cfg(),
        library,
        profiles: vec![QualityProfile { id: 2, name: "Any".to_string() }],
        roots: vec![RootFolder { id: 1, path: "/tv".to_string() }],
        tags: Vec::new(),
        lookups,
    }
}

#[test]
fn scenario_new_movie_is_added() {
    // Watchlist entry {id:"123", title:"Dune", year:2021, kind:Movie},
    // lookup for "Dune 2021" resolves, library empty, tier "HD-1080p"
    // exists with id 4.
    let mut managers = Managers {
        movie: Some(movie_model(
            Vec::new(),
            vec![MovieLookupEntry { term: "Dune 2021".to_string(), results: vec![dune_lookup()] }],
        )),
        show: None,
    };
    let entries = vec![entry("123", "Dune", Some(2021), ItemType::Movie)];
    let report = reconcile(&entries, &mut managers);
    assert_eq!(report.outcomes, vec![Outcome::Added]);
    let lib = &managers.movie.as_ref().unwrap().library;
    assert_eq!(lib.len(), 1);
    assert_eq!(lib[0].tmdb_id, Some(438631));

    // The add request the plan builds for that entry.
    let m = movie_model(Vec::new(), Vec::new());
    match plan_movie_add(&m.config, dune_lookup(), &m.library, &m.profiles, &m.roots, &m.tags) {
        MoviePlan::Submit(req) => {
            assert_eq!(req.quality_profile_id, 4);
            assert!(req.monitored);
            assert!(req.add_options.search_for_movie);
            assert_eq!(req.title, "Dune");
            assert_eq!(req.year, 2021);
            assert_eq!(req.tmdb_id, Some(438631));
            assert_eq!(req.root_folder_path, "/movies");
            assert_eq!(req.tags, Vec::<i32>::new());
        }
        MoviePlan::AlreadyExists => panic!("expected an add request"),
    }
}

#[test]
fn scenario_existing_movie_is_not_readded() {
    // Same entry, but the library already carries externalDbId 438631:
    // no write request, outcome AlreadyExists.
    let mut managers = Managers {
        movie: Some(movie_model(
            vec![RadarrMovieSimple { tmdb_id: Some(438631) }],
            vec![MovieLookupEntry { term: "Dune 2021".to_string(), results: vec![dune_lookup()] }],
        )),
        show: None,
    };
    let entries = vec![entry("123", "Dune", Some(2021), ItemType::Movie)];
    let report = reconcile(&entries, &mut managers);
    assert_eq!(report.outcomes, vec![Outcome::AlreadyExists]);
    assert_eq!(managers.movie.as_ref().unwrap().library.len(), 1);

    let m = movie_model(vec![RadarrMovieSimple { tmdb_id: Some(438631) }], Vec::new());
    match plan_movie_add(&m.config, dune_lookup(), &m.library, &m.profiles, &m.roots, &m.tags) {
        MoviePlan::AlreadyExists => {}
        MoviePlan::Submit(_) => panic!("a duplicate must not produce an add request"),
    }
}

fn severance_lookup() -> SonarrLookupResult {
    SonarrLookupResult {
        title: "Severance".to_string(),
        sort_title: "severance".to_string(),
        year: Some(2022),
        tvdb_id: Some(371980),
        tmdb_id: Some(95396),
        imdb_id: None,
    }
}

#[test]
fn show_match_on_show_db_id_alone_suppresses_add() {
    let mut model = show_model(
        vec![SonarrSeriesSimple { tvdb_id: Some(371980), tmdb_id: None }],
        vec![SeriesLookupEntry { term: "Severance 2022".to_string(), results: vec![severance_lookup()] }],
    );
    let it = entry("77", "Severance", Some(2022), ItemType::Show);
    let o = series_step(&mut model, &it.item);
    assert_eq!(o, Outcome::AlreadyExists);
    assert_eq!(model.library.len(), 1);
}

#[test]
fn show_match_on_external_db_id_alone_suppresses_add() {
    let mut model = show_model(
        vec![SonarrSeriesSimple { tvdb_id: None, tmdb_id: Some(95396) }],
        vec![SeriesLookupEntry { term: "Severance 2022".to_string(), results: vec![severance_lookup()] }],
    );
    let it = entry("77", "Severance", Some(2022), ItemType::Show);
    let o = series_step(&mut model, &it.item);
    assert_eq!(o, Outcome::AlreadyExists);
    assert_eq!(model.library.len(), 1);
}

#[test]
fn show_with_neither_id_matching_is_added() {
    let mut model = show_model(
        vec![SonarrSeriesSimple { tvdb_id: Some(1), tmdb_id: Some(2) }],
        vec![SeriesLookupEntry { term: "Severance 2022".to_string(), results: vec![severance_lookup()] }],
    );
    let it = entry("77", "Severance", Some(2022), ItemType::Show);
    let o = series_step(&mut model, &it.item);
    assert_eq!(o, Outcome::Added);
    assert_eq!(model.library.len(), 2);
    assert_eq!(model.library[1].tvdb_id, Some(371980));
    assert_eq!(model.library[1].tmdb_id, Some(95396));
}

#[test]
fn one_failing_entry_never_short_circuits_the_batch() {
    // Three entries; the middle one cannot be resolved. The first and
    // third still reach their terminal outcomes.
    let lk = |title: &str, year: i32, tmdb: i32| MovieLookupEntry {
        term: format!("{} {}", title, year),
        results: vec![RadarrLookupResult {
            title: title.to_string(),
            original_title: title.to_string(),
            sort_title: title.to_lowercase(),
            year: Some(year),
            tmdb_id: Some(tmdb),
            imdb_id: None,
        }],
    };
    let mut managers = Managers {
        movie: Some(movie_model(Vec::new(), vec![lk("Dune", 2021, 438631), lk("Arrival", 2016, 329865)])),
        show: None,
    };
    let entries = vec![
        entry("1", "Dune", Some(2021), ItemType::Movie),
        entry("2", "Unknown Film", Some(1901), ItemType::Movie),
        entry("3", "Arrival", Some(2016), ItemType::Movie),
    ];
    let report = reconcile(&entries, &mut managers);
    assert_eq!(
        report.outcomes,
        vec![Outcome::Added, Outcome::Failed(SyncError::NotFound), Outcome::Added]
    );
    assert_eq!(managers.movie.as_ref().unwrap().library.len(), 2);
}

#[test]
fn empty_lookup_response_is_not_found() {
    let mut managers = Managers {
        movie: Some(movie_model(
            Vec::new(),
            vec![MovieLookupEntry { term: "Dune 2021".to_string(), results: Vec::new() }],
        )),
        show: None,
    };
    let entries = vec![entry("1", "Dune", Some(2021), ItemType::Movie)];
    let report = reconcile(&entries, &mut managers);
    assert_eq!(report.outcomes, vec![Outcome::Failed(SyncError::NotFound)]);
}

#[test]
fn entry_without_configured_manager_is_skipped() {
    let mut managers = Managers { movie: None, show: None };
    let entries = vec![
        entry("1", "Dune", Some(2021), ItemType::Movie),
        entry("2", "Severance", Some(2022), ItemType::Show),
    ];
    let report = reconcile(&entries, &mut managers);
    assert_eq!(report.outcomes, vec![Outcome::Skipped, Outcome::Skipped]);
}

#[test]
fn wrong_kind_handed_to_a_manager_is_a_kind_mismatch() {
    let mut model = movie_model(Vec::new(), Vec::new());
    let it = entry("77", "Severance", Some(2022), ItemType::Show);
    let o = movie_step(&mut model, &it.item);
    assert_eq!(o, Outcome::Failed(SyncError::KindMismatch));
    assert_eq!(model.library.len(), 0);
}

#[test]
fn empty_ranked_response_yields_not_found_error() {
    let results: Vec<RadarrLookupResult> = Vec::new();
    match select_lookup(&results) {
        Err(SyncError::NotFound) => {}
        _ => panic!("an empty response must be NotFound"),
    }
}

#[test]
fn top_ranked_result_is_authoritative() {
    let mut results = vec![dune_lookup()];
    results.push(RadarrLookupResult {
        title: "Dune (1984)".to_string(),
        original_title: "Dune".to_string(),
        sort_title: "dune 1984".to_string(),
        year: Some(1984),
        tmdb_id: Some(841),
        imdb_id: None,
    });
    let picked = select_lookup(&results).unwrap();
    assert_eq!(picked.tmdb_id, Some(438631));
    assert_eq!(picked.title, "Dune");
}

#[test]
fn second_pass_reports_already_exists_for_added_entries() {
    // Idempotence: nothing changed between the two passes, so what the
    // first pass added, the second recognises.
    let lookups = vec![
        MovieLookupEntry { term: "Dune 2021".to_string(), results: vec![dune_lookup()] },
    ];
    let show_lookups = vec![
        SeriesLookupEntry { term: "Severance 2022".to_string(), results: vec![severance_lookup()] },
    ];
    let mut managers = Managers {
        movie: Some(movie_model(Vec::new(), lookups)),
        show: Some(show_model(Vec::new(), show_lookups)),
    };
    let entries = vec![
        entry("123", "Dune", Some(2021), ItemType::Movie),
        entry("77", "Severance", Some(2022), ItemType::Show),
    ];
    let first = reconcile(&entries, &mut managers);
    assert_eq!(first.outcomes, vec![Outcome::Added, Outcome::Added]);
    let second = reconcile(&entries, &mut managers);
    assert_eq!(second.outcomes, vec![Outcome::AlreadyExists, Outcome::AlreadyExists]);
    assert_eq!(managers.movie.as_ref().unwrap().library.len(), 1);
    assert_eq!(managers.show.as_ref().unwrap().library.len(), 1);
}

#[test]
fn duplicate_entries_within_one_pass_are_added_once() {
    let mut managers = Managers {
        movie: Some(movie_model(
            Vec::new(),
            vec![MovieLookupEntry { term: "Dune 2021".to_string(), results: vec![dune_lookup()] }],
        )),
        show: None,
    };
    let entries = vec![
        entry("123", "Dune", Some(2021), ItemType::Movie),
        entry("124", "Dune", Some(2021), ItemType::Movie),
    ];
    let report = reconcile(&entries, &mut managers);
    assert_eq!(report.outcomes, vec![Outcome::Added, Outcome::AlreadyExists]);
    assert_eq!(managers.movie.as_ref().unwrap().library.len(), 1);
}

#[test]
fn show_add_request_carries_monitoring_policy_and_placement() {
    let cfg = SonarrConfig {
        base_url: "http://sonarr:8989".to_string(),
        api_key: "key".to_string(),
        quality_profile: Some("Any".to_string()),
        root_folder: None,
        bypass_ignored: None,
        season_monitoring: Some("firstSeason".to_string()),
        tags: Some(vec!["kids".to_string()]),
    };
    let profiles = vec![QualityProfile { id: 2, name: "Any".to_string() }];
    let roots: Vec<RootFolder> = Vec::new();
    let tags = vec![Tag { id: 7, label: "kids".to_string() }];
    let existing: Vec<SonarrSeriesSimple> = Vec::new();
    match plan_series_add(&cfg, severance_lookup(), &existing, &profiles, &roots, &tags) {
        SeriesPlan::Submit(req) => {
            assert_eq!(req.quality_profile_id, 2);
            assert_eq!(req.root_folder_path, "/tv");
            assert_eq!(req.add_options.monitor, "firstSeason");
            assert!(req.add_options.search_for_missing_episodes);
            assert!(req.monitored);
            assert_eq!(req.tags, vec![7]);
            assert_eq!(req.tvdb_id, Some(371980));
        }
        SeriesPlan::AlreadyExists => panic!("expected an add request"),
    }
}

#[test]
fn movie_without_external_id_skips_dedup_and_is_added() {
    let lookup = RadarrLookupResult {
        title: "Obscure".to_string(),
        original_title: "Obscure".to_string(),
        sort_title: "obscure".to_string(),
        year: None,
        tmdb_id: None,
        imdb_id: None,
    };
    let mut managers = Managers {
        movie: Some(movie_model(
            vec![RadarrMovieSimple { tmdb_id: Some(438631) }],
            vec![MovieLookupEntry { term: "Obscure".to_string(), results: vec![lookup] }],
        )),
        show: None,
    };
    let entries = vec![entry("9", "Obscure", None, ItemType::Movie)];
    let report = reconcile(&entries, &mut managers);
    assert_eq!(report.outcomes, vec![Outcome::Added]);
    assert_eq!(managers.movie.as_ref().unwrap().library.len(), 2);
}
