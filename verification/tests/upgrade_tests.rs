use scamper::servers::{NewServerDetails, Servers};
use scamper::upgrade::{
    offline_cache_usable, offline_main_file_url, plan_offline_cache, should_prune_parent_cache,
    should_upgrade_cache, OfflineCachePlan,
};
use scamper::versions::{VersionEntry, Versions};

fn child_of(uuid: u128, parent: u128) -> VersionEntry {
    VersionEntry {
        uuid,
        name: None,
        parent_uuid: Some(parent),
        asset_url: "http://assets".to_string(),
        main_file_url: None,
    }
}

fn parentless(uuid: u128) -> VersionEntry {
    VersionEntry {
        uuid,
        name: None,
        parent_uuid: None,
        asset_url: "http://assets".to_string(),
        main_file_url: None,
    }
}

#[test]
fn upgrade_copies_from_known_populated_parent() {
    // Scenario: the child's cache is absent and the parent's game cache is
    // populated, so launch preparation copies the parent's tree; with the
    // prune policy on and no server still using the parent, the parent's
    // cache goes away afterwards.
    let mut catalog = Versions::new();
    catalog.add_entry(parentless(1));
    catalog.add_entry(child_of(2, 1));
    let child = catalog.get_entry(2).unwrap().duplicate();
    assert!(should_upgrade_cache(&catalog, &child, false, true, true));

    let servers = Servers::new();
    assert_eq!(servers.get_version_use_count(1), 0);
    let copied = true;
    assert!(should_prune_parent_cache(copied, true, servers.get_version_use_count(1)));
}

#[test]
fn upgrade_needs_every_condition() {
    let mut catalog = Versions::new();
    catalog.add_entry(parentless(1));
    catalog.add_entry(child_of(2, 1));
    let child = catalog.get_entry(2).unwrap().duplicate();
    // target cache already exists
    assert!(!should_upgrade_cache(&catalog, &child, true, true, true));
    // parent cache missing or empty
    assert!(!should_upgrade_cache(&catalog, &child, false, false, true));
    assert!(!should_upgrade_cache(&catalog, &child, false, true, false));
    // no parent declared
    let orphan = parentless(3);
    assert!(!should_upgrade_cache(&catalog, &orphan, false, true, true));
    // parent not in the catalog
    let stranger = child_of(4, 99);
    assert!(!should_upgrade_cache(&catalog, &stranger, false, true, true));
}

#[test]
fn prune_needs_policy_and_zero_use_count() {
    assert!(!should_prune_parent_cache(false, true, 0));
    assert!(!should_prune_parent_cache(true, false, 0));
    assert!(!should_prune_parent_cache(true, true, 1));
    assert!(should_prune_parent_cache(true, true, 0));
}

#[test]
fn prune_is_held_back_while_a_server_still_uses_the_parent() {
    let mut servers = Servers::new();
    servers.add_entry(NewServerDetails {
        description: "still on the old version".to_string(),
        ip: Some("1.1.1.1".to_string()),
        version: Some("00000000-0000-0000-0000-000000000001".to_string()),
        endpoint: None,
    });
    assert_eq!(servers.get_version_use_count(1), 1);
    assert!(!should_prune_parent_cache(true, true, servers.get_version_use_count(1)));
}

#[test]
fn offline_cache_planning() {
    assert_eq!(plan_offline_cache(false, true, true), OfflineCachePlan::Skip);
    assert_eq!(plan_offline_cache(true, false, false), OfflineCachePlan::Skip);
    assert_eq!(plan_offline_cache(true, true, false), OfflineCachePlan::UseDirectly);
    assert_eq!(plan_offline_cache(true, true, true), OfflineCachePlan::VerifyFirst);
}

#[test]
fn verified_offline_cache_is_used_only_when_intact() {
    assert!(offline_cache_usable(true, false));
    assert!(!offline_cache_usable(true, true));
    assert!(!offline_cache_usable(false, false));
}

#[test]
fn offline_main_file_sits_inside_the_cache_dir() {
    assert_eq!(
        offline_main_file_url("C:/caches/v1"),
        "C:/caches/v1\\main.unity3d"
    );
}
