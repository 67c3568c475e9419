use watchlistarr::models::{QualityProfile, RootFolder, Tag};
use watchlistarr::placement::{resolve_quality_profile, resolve_root_folder, resolve_tag_ids};

fn tiers() -> Vec<QualityProfile> {
    vec![
        QualityProfile { id: 1, name: "SD".to_string() },
        QualityProfile { id: 4, name: "HD-1080p".to_string() },
        QualityProfile { id: 9, name: "4K".to_string() },
    ]
}

#[test]
fn configured_tier_name_matching_uses_that_id() {
    let (id, warned) = resolve_quality_profile(&Some("HD-1080p".to_string()), &tiers());
    assert_eq!(id, 4);
    assert!(!warned);
}

#[test]
fn absent_tier_name_uses_first_reported() {
    let (id, warned) = resolve_quality_profile(&None, &tiers());
    assert_eq!(id, 1);
    assert!(!warned);
}

#[test]
fn unmatched_tier_name_uses_first_reported_and_warns() {
    let (id, warned) = resolve_quality_profile(&Some("Ultra".to_string()), &tiers());
    assert_eq!(id, 1);
    assert!(warned);
}

#[test]
fn tier_matching_is_case_sensitive() {
    let (id, warned) = resolve_quality_profile(&Some("hd-1080p".to_string()), &tiers());
    assert_eq!(id, 1);
    assert!(warned);
}

#[test]
fn no_reported_tiers_defaults_to_one() {
    let none: Vec<QualityProfile> = Vec::new();
    assert_eq!(resolve_quality_profile(&None, &none), (1, false));
    assert_eq!(resolve_quality_profile(&Some("HD".to_string()), &none), (1, true));
}

#[test]
fn configured_root_is_used_verbatim() {
    let roots = vec![RootFolder { id: 1, path: "/data".to_string() }];
    let r = resolve_root_folder(&Some("/custom".to_string()), &roots, "/fallback");
    assert_eq!(r, "/custom");
}

#[test]
fn first_reported_root_is_the_default() {
    let roots = vec![
        RootFolder { id: 1, path: "/data".to_string() },
        RootFolder { id: 2, path: "/other".to_string() },
    ];
    assert_eq!(resolve_root_folder(&None, &roots, "/fallback"), "/data");
}

#[test]
fn no_reported_roots_falls_back_to_fixed_path() {
    let roots: Vec<RootFolder> = Vec::new();
    assert_eq!(resolve_root_folder(&None, &roots, "/mnt/shared/movies"), "/mnt/shared/movies");
}

#[test]
fn known_tag_names_resolve_in_order_and_unknown_are_dropped() {
    let tags = vec![
        Tag { id: 3, label: "anime".to_string() },
        Tag { id: 7, label: "kids".to_string() },
    ];
    let names = vec!["kids".to_string(), "missing".to_string(), "anime".to_string()];
    assert_eq!(resolve_tag_ids(&names, &tags), vec![7, 3]);
}

#[test]
fn no_tag_names_resolve_to_nothing() {
    let tags = vec![Tag { id: 3, label: "anime".to_string() }];
    let names: Vec<String> = Vec::new();
    assert_eq!(resolve_tag_ids(&names, &tags), Vec::<i32>::new());
}
