use scamper::ids::cache_dir_for_version;
use scamper::versions::{calculate_merge, get_version_name, LegacyVersion, VersionEntry, Versions};

fn entry(uuid: u128, name: &str, url: &str) -> VersionEntry {
    VersionEntry {
        uuid,
        name: Some(name.to_string()),
        parent_uuid: None,
        asset_url: url.to_string(),
        main_file_url: None,
    }
}

#[test]
fn cache_dir_joins_base_and_canonical_id() {
    let dir = cache_dir_for_version("/caches", 1);
    assert_eq!(dir, "/caches/00000000-0000-0000-0000-000000000001");
    let dir2 = cache_dir_for_version("/caches", 0x2a);
    assert_eq!(dir2, "/caches/00000000-0000-0000-0000-00000000002a");
}

#[test]
fn version_name_falls_back_to_canonical_id() {
    let named = entry(1, "beta", "http://assets");
    assert_eq!(get_version_name(&named), "beta");
    let nameless = VersionEntry {
        uuid: 0x2a,
        name: None,
        parent_uuid: None,
        asset_url: "http://assets".to_string(),
        main_file_url: None,
    };
    assert_eq!(
        get_version_name(&nameless),
        "00000000-0000-0000-0000-00000000002a"
    );
}

#[test]
fn legacy_asset_url_drops_one_trailing_slash() {
    let legacy = LegacyVersion {
        name: "old".to_string(),
        url: "http://assets/build/".to_string(),
    };
    assert_eq!(legacy.get_asset_url(), "http://assets/build");
    let clean = LegacyVersion {
        name: "old".to_string(),
        url: "http://assets/build".to_string(),
    };
    assert_eq!(clean.get_asset_url(), "http://assets/build");
    let empty = LegacyVersion { name: "old".to_string(), url: String::new() };
    assert_eq!(empty.get_asset_url(), "");
}

#[test]
fn legacy_entry_keeps_name_and_cleaned_url() {
    let legacy = LegacyVersion {
        name: "old".to_string(),
        url: "http://assets/".to_string(),
    };
    let e = legacy.to_entry();
    assert_eq!(e.name.as_deref(), Some("old"));
    assert_eq!(e.asset_url, "http://assets");
    assert!(e.parent_uuid.is_none());
    assert!(e.main_file_url.is_none());
}

#[test]
fn main_file_url_defaults_under_asset_url() {
    let e = entry(1, "a", "http://assets");
    assert_eq!(e.main_file_url_or_default(), "http://assets/main.unity3d");
    let mut with_main = entry(1, "a", "http://assets");
    with_main.main_file_url = Some("http://cdn/main.unity3d".to_string());
    assert_eq!(with_main.main_file_url_or_default(), "http://cdn/main.unity3d");
}

#[test]
fn catalog_lookup_by_id_and_name() {
    let mut catalog = Versions::new();
    catalog.add_entry(entry(1, "alpha", "http://a"));
    catalog.add_entry(entry(2, "beta", "http://b"));
    assert_eq!(catalog.get_entry(1).unwrap().asset_url, "http://a");
    assert!(catalog.get_entry(3).is_none());
    assert_eq!(catalog.get_entry_by_name("beta").unwrap().uuid, 2);
    assert!(catalog.get_entry_by_name("gamma").is_none());
    catalog.remove_entry(1);
    assert!(catalog.get_entry(1).is_none());
    assert!(catalog.get_entry(2).is_some());
}

#[test]
fn merge_skips_known_ids_and_urls() {
    let existing = vec![entry(1, "alpha", "http://a"), entry(2, "beta", "http://b")];
    let incoming = vec![
        entry(1, "alpha-again", "http://a2"), // known id
        entry(3, "gamma", "http://b"),        // known url
        entry(4, "delta", "http://d"),        // genuinely new
    ];
    let merged = calculate_merge(&existing, incoming);
    assert_eq!(merged.len(), 1);
    assert_eq!(merged[0].uuid, 4);
}

#[test]
fn recorded_file_names_win_over_the_default() {
    let mut catalog = Versions::new();
    assert_eq!(
        catalog.version_file_name(1),
        "00000000-0000-0000-0000-000000000001.json"
    );
    catalog.record_file_name(1, "custom.json".to_string());
    assert_eq!(catalog.version_file_name(1), "custom.json");
    // a later record overwrites the earlier one
    catalog.record_file_name(1, "newer.json".to_string());
    assert_eq!(catalog.version_file_name(1), "newer.json");
    // other ids are unaffected
    assert_eq!(
        catalog.version_file_name(2),
        "00000000-0000-0000-0000-000000000002.json"
    );
}
