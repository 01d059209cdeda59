use boa::version::{
    answer_from_cache, cached_version_health, classify_releases_behind, classify_update_status,
    filter_releases, get_cached_releases, is_newer_version, latest_release_version,
    release_info_from, release_page_url, update_info_disabled, update_info_for, version_parts_of,
    ReleaseInfo, ReleasesBehind, UpdateCache, UpdateStatus,
};

fn make_release(version: &str) -> ReleaseInfo {
    ReleaseInfo {
        version: version.to_string(),
        body: format!("Release notes for {}", version),
        published_at: None,
    }
}

#[test]
fn test_version_comparison() {
    assert!(is_newer_version("1.0.1", "1.0.0"));
    assert!(is_newer_version("1.1.0", "1.0.9"));
    assert!(is_newer_version("2.0.0", "1.9.9"));
    assert!(!is_newer_version("1.0.0", "1.0.0"));
    assert!(!is_newer_version("1.0.0", "1.0.1"));
}

#[test]
fn test_cache_should_invalidate_when_current_newer_than_cached() {
    let cached_latest = "0.4.5";
    let current_version = "0.5.0";
    let current_is_newer = is_newer_version(current_version, cached_latest);
    assert!(current_is_newer, "0.5.0 should be newer than 0.4.5");
    let same_version = is_newer_version("0.4.5", "0.4.5");
    assert!(!same_version, "same version should not trigger invalidation");
    let downgrade = is_newer_version("0.4.0", "0.4.5");
    assert!(!downgrade, "downgrade should not trigger invalidation");
}

#[test]
fn test_filter_releases_returns_all_when_no_filter() {
    let releases = vec![
        make_release("0.5.0"),
        make_release("0.4.3"),
        make_release("0.4.2"),
    ];
    let filtered = filter_releases(releases.clone(), None);
    assert_eq!(filtered.len(), 3);
    assert_eq!(filtered[0].version, "0.5.0");
    assert_eq!(filtered[1].version, "0.4.3");
    assert_eq!(filtered[2].version, "0.4.2");
}

#[test]
fn test_filter_releases_stops_at_from_version() {
    let releases = vec![
        make_release("0.5.0"),
        make_release("0.4.3"),
        make_release("0.4.2"),
        make_release("0.4.1"),
    ];
    let filtered = filter_releases(releases, Some("0.4.3"));
    assert_eq!(filtered.len(), 1);
    assert_eq!(filtered[0].version, "0.5.0");
}

#[test]
fn test_filter_releases_returns_empty_when_from_version_is_latest() {
    let releases = vec![make_release("0.5.0"), make_release("0.4.3")];
    let filtered = filter_releases(releases, Some("0.5.0"));
    assert!(filtered.is_empty());
}

#[test]
fn test_filter_releases_returns_all_when_from_version_not_found() {
    let releases = vec![make_release("0.5.0"), make_release("0.4.3")];
    let filtered = filter_releases(releases.clone(), Some("0.3.0"));
    assert_eq!(filtered.len(), 2);
}

#[test]
fn test_classify_update_status_buckets_by_semver_distance() {
    assert_eq!(classify_update_status("1.2.3", None), UpdateStatus::Unknown);
    assert_eq!(classify_update_status("1.2.3", Some("")), UpdateStatus::Unknown);
    assert_eq!(classify_update_status("1.2.3", Some("   ")), UpdateStatus::Unknown);
    assert_eq!(classify_update_status("1.2.3", Some("garbage")), UpdateStatus::Unknown);
    assert_eq!(classify_update_status("1.2.3", Some("1.2.3")), UpdateStatus::Current);
    assert_eq!(classify_update_status("1.2.3", Some("1.2.0")), UpdateStatus::Current);
    assert_eq!(classify_update_status("1.2.3", Some("1.2.4")), UpdateStatus::PatchBehind);
    assert_eq!(classify_update_status("1.2.3", Some("1.3.0")), UpdateStatus::MinorBehind);
    assert_eq!(classify_update_status("1.2.3", Some("2.0.0")), UpdateStatus::MajorBehind);
}

#[test]
fn test_classify_releases_behind_counts_cached_releases() {
    let releases = vec![
        make_release("1.3.0"),
        make_release("1.2.5"),
        make_release("1.2.3"),
        make_release("1.2.0"),
    ];
    assert_eq!(classify_releases_behind("1.2.3", None, &[]), ReleasesBehind::Unknown);
    assert_eq!(
        classify_releases_behind("1.3.0", Some("1.3.0"), &releases),
        ReleasesBehind::Current
    );
    assert_eq!(
        classify_releases_behind("1.2.3", Some("1.3.0"), &releases),
        ReleasesBehind::SeveralBehind
    );
    assert_eq!(
        classify_releases_behind("1.2.5", Some("1.3.0"), &releases),
        ReleasesBehind::OneBehind
    );
    assert_eq!(
        classify_releases_behind("1.2.3", Some("9.9.9"), &[]),
        ReleasesBehind::OneBehind
    );
}

#[test]
fn test_filter_releases_handles_empty_list() {
    let releases: Vec<ReleaseInfo> = vec![];
    let filtered = filter_releases(releases.clone(), Some("0.4.3"));
    assert!(filtered.is_empty());
    let filtered = filter_releases(releases, None);
    assert!(filtered.is_empty());
}

// ---------------------------------------------------------------------------
// Further cases
// ---------------------------------------------------------------------------

#[test]
fn version_parts_parse_dotted_numbers() {
    assert_eq!(version_parts_of("1.2.3"), vec![1, 2, 3]);
    assert_eq!(version_parts_of("10.0"), vec![10, 0]);
    assert_eq!(version_parts_of("1.x.3"), vec![1, 3]);
    assert!(version_parts_of("garbage").is_empty());
}

#[test]
fn newer_version_is_irreflexive_and_asymmetric() {
    for (a, b) in [("1.2.3", "1.2.4"), ("0.9", "0.10"), ("2", "1.9.9")] {
        assert!(!is_newer_version(a, a));
        assert!(!(is_newer_version(a, b) && is_newer_version(b, a)));
    }
    assert!(is_newer_version("0.10", "0.9"));
    assert!(is_newer_version("1.0.0.1", "1.0.0"));
}

#[test]
fn newer_version_is_transitive_on_examples() {
    assert!(is_newer_version("1.3.0", "1.2.5"));
    assert!(is_newer_version("1.2.5", "1.2.3"));
    assert!(is_newer_version("1.3.0", "1.2.3"));
}

#[test]
fn cached_releases_are_filtered_from_the_cache() {
    let cached = Some(vec![
        make_release("0.5.0"),
        make_release("0.4.3"),
        make_release("0.4.2"),
    ]);
    let got = get_cached_releases(cached, Some("0.4.3"));
    assert_eq!(got.len(), 1);
    assert_eq!(got[0].version, "0.5.0");
    assert!(get_cached_releases(None, None).is_empty());
}

#[test]
fn version_health_without_cache_is_unknown() {
    assert_eq!(
        cached_version_health("1.2.3", None),
        (UpdateStatus::Unknown, ReleasesBehind::Unknown)
    );
    let cache = UpdateCache {
        checked_at_ms: 0,
        latest_version: "1.3.0".to_string(),
        releases: vec![make_release("1.3.0"), make_release("1.2.5")],
    };
    assert_eq!(
        cached_version_health("1.2.3", Some(&cache)),
        (UpdateStatus::MinorBehind, ReleasesBehind::SeveralBehind)
    );
}

#[test]
fn fresh_cache_answers_and_stale_cache_refetches() {
    let cache = UpdateCache {
        checked_at_ms: 1_000,
        latest_version: "1.3.0".to_string(),
        releases: vec![],
    };
    let hour = 3_600_000;
    let info = answer_from_cache("1.2.0", &cache, 1_000 + hour, 24).unwrap();
    assert!(info.available);
    assert_eq!(info.latest_version, "1.3.0");
    assert_eq!(info.current_version, "1.2.0");
    assert!(answer_from_cache("1.2.0", &cache, 1_000 + 24 * hour, 24).is_none());
    // A build newer than the cached latest ignores the cache.
    assert!(answer_from_cache("1.4.0", &cache, 1_000, 24).is_none());
}

#[test]
fn update_info_reports_availability() {
    let info = update_info_for("1.0.0", "1.0.1");
    assert!(info.available);
    let info = update_info_for("1.0.1", "1.0.1");
    assert!(!info.available);
    let off = update_info_disabled("1.0.0");
    assert!(!off.available);
    assert_eq!(off.latest_version, "");
}

#[test]
fn release_entries_strip_the_tag_prefix() {
    let r = release_info_from("v1.2.3", None, Some("2024-01-01".to_string()));
    assert_eq!(r.version, "1.2.3");
    assert_eq!(r.body, "");
    assert_eq!(r.published_at.as_deref(), Some("2024-01-01"));
    let r = release_info_from("1.2.3", Some("notes".to_string()), None);
    assert_eq!(r.version, "1.2.3");
    assert_eq!(r.body, "notes");
    let list = vec![make_release("2.0.0"), make_release("1.0.0")];
    assert_eq!(latest_release_version(&list), "2.0.0");
    assert_eq!(latest_release_version(&vec![]), "");
}

#[test]
fn release_page_url_adds_v_prefix_once() {
    assert_eq!(
        release_page_url("1.2.3"),
        "https://github.com/agent-of-empires/agent-of-empires/releases/tag/v1.2.3"
    );
    assert_eq!(
        release_page_url("v1.2.3"),
        "https://github.com/agent-of-empires/agent-of-empires/releases/tag/v1.2.3"
    );
}

#[test]
fn unlisted_version_keeps_only_newer_releases() {
    let releases = vec![make_release("0.5.0"), make_release("0.4.3"), make_release("0.4.1")];
    let got = get_cached_releases(Some(releases), Some("0.4.2"));
    let versions: Vec<&str> = got.iter().map(|r| r.version.as_str()).collect();
    assert_eq!(versions, vec!["0.5.0", "0.4.3"]);
}
