use scamper::cache::CacheKind;
use scamper::errors::CacheError;
use scamper::orchestrator::{require_known_version, CacheOrchestrator, ValidateStart};
use scamper::versions::{VersionEntry, Versions};

#[test]
fn same_key_one_accepted_one_rejected() {
    let mut orch = CacheOrchestrator::new();
    let first = orch.begin_validate(7, CacheKind::Game, true);
    assert!(matches!(first, Ok(ValidateStart::Started)));
    // the competing call on the same key is rejected at once, never queued
    let second = orch.begin_validate(7, CacheKind::Game, true);
    assert!(matches!(second, Err(CacheError::AlreadyInProgress)));
    // and a download on the same key is rejected too
    let third = orch.begin_download(7, CacheKind::Game, false, false);
    assert!(matches!(third, Err(CacheError::NotImplemented)));
    let fourth = orch.begin_delete(7, CacheKind::Game);
    assert!(matches!(fourth, Err(CacheError::AlreadyInProgress)));
}

#[test]
fn distinct_keys_proceed_independently() {
    let mut orch = CacheOrchestrator::new();
    assert!(matches!(
        orch.begin_validate(1, CacheKind::Game, true),
        Ok(ValidateStart::Started)
    ));
    assert!(matches!(
        orch.begin_validate(2, CacheKind::Game, true),
        Ok(ValidateStart::Started)
    ));
    // the same id under the other cache kind is a different key
    assert!(matches!(
        orch.begin_validate(1, CacheKind::Offline, true),
        Ok(ValidateStart::Started)
    ));
}

#[test]
fn validation_pool_holds_two_permits() {
    let mut orch = CacheOrchestrator::new();
    assert!(orch.try_acquire_validation_permit());
    assert!(orch.try_acquire_validation_permit());
    // the third concurrent validation must wait
    assert!(!orch.try_acquire_validation_permit());
    assert_eq!(orch.validation_in_flight(), 2);
    assert_eq!(orch.download_in_flight(), 0);
}

#[test]
fn download_pool_holds_one_permit() {
    let mut orch = CacheOrchestrator::new();
    assert!(orch.try_acquire_download_permit());
    assert!(!orch.try_acquire_download_permit());
    assert_eq!(orch.download_in_flight(), 1);
    // the pools are independent
    assert!(orch.try_acquire_validation_permit());
}

#[test]
fn finished_key_is_immediately_eligible() {
    let mut orch = CacheOrchestrator::new();
    assert!(matches!(
        orch.begin_validate(9, CacheKind::Offline, true),
        Ok(ValidateStart::Started)
    ));
    assert!(orch.try_acquire_validation_permit());
    assert!(orch.is_held(CacheKind::Offline, 9));
    orch.finish_validate(9, CacheKind::Offline);
    assert!(!orch.is_held(CacheKind::Offline, 9));
    assert_eq!(orch.validation_in_flight(), 0);
    // a subsequent call on the same key proceeds
    assert!(matches!(
        orch.begin_validate(9, CacheKind::Offline, true),
        Ok(ValidateStart::Started)
    ));
}

#[test]
fn empty_cache_validation_is_a_clean_skip() {
    // Scenario: a missing or empty cache directory validates trivially,
    // with no registry key and no permit ever taken.
    let mut orch = CacheOrchestrator::new();
    let r = orch.begin_validate(5, CacheKind::Game, false);
    assert!(matches!(r, Ok(ValidateStart::CleanSkip)));
    assert!(!orch.is_held(CacheKind::Game, 5));
    assert_eq!(orch.validation_in_flight(), 0);
    assert_eq!(orch.download_in_flight(), 0);
}

#[test]
fn game_download_is_not_implemented() {
    let mut orch = CacheOrchestrator::new();
    let r = orch.begin_download(3, CacheKind::Game, false, false);
    assert!(matches!(r, Err(CacheError::NotImplemented)));
    assert!(!orch.is_held(CacheKind::Game, 3));
}

#[test]
fn non_repair_download_into_dirty_directory_is_refused() {
    // Scenario: download with repair off while the offline directory
    // already has contents fails before any network work.
    let mut orch = CacheOrchestrator::new();
    let r = orch.begin_download(3, CacheKind::Offline, false, true);
    assert!(matches!(r, Err(CacheError::DirectoryNotEmpty)));
    assert!(!orch.is_held(CacheKind::Offline, 3));
    assert_eq!(orch.download_in_flight(), 0);
}

#[test]
fn repair_download_proceeds_into_dirty_directory() {
    let mut orch = CacheOrchestrator::new();
    let r = orch.begin_download(3, CacheKind::Offline, true, true);
    assert!(r.is_ok());
    assert!(orch.is_held(CacheKind::Offline, 3));
    assert!(orch.try_acquire_download_permit());
    orch.finish_download(3, CacheKind::Offline);
    assert!(!orch.is_held(CacheKind::Offline, 3));
    assert_eq!(orch.download_in_flight(), 0);
}

#[test]
fn delete_takes_key_but_no_permit() {
    let mut orch = CacheOrchestrator::new();
    assert!(orch.begin_delete(11, CacheKind::Game).is_ok());
    assert!(orch.is_held(CacheKind::Game, 11));
    assert_eq!(orch.validation_in_flight(), 0);
    assert_eq!(orch.download_in_flight(), 0);
    orch.finish_delete(11, CacheKind::Game);
    assert!(!orch.is_held(CacheKind::Game, 11));
    assert!(orch.begin_delete(11, CacheKind::Game).is_ok());
}

#[test]
fn unknown_versions_are_rejected_up_front() {
    let mut catalog = Versions::new();
    catalog.add_entry(VersionEntry {
        uuid: 8,
        name: None,
        parent_uuid: None,
        asset_url: "http://assets".to_string(),
        main_file_url: None,
    });
    assert!(require_known_version(&catalog, 8).is_ok());
    assert!(matches!(
        require_known_version(&catalog, 9),
        Err(CacheError::NotFound)
    ));
}

#[test]
fn error_messages_name_the_failure() {
    assert_eq!(
        CacheError::AlreadyInProgress.message(),
        "Cache operation in progress"
    );
    assert_eq!(CacheError::NotFound.message(), "Version not found");
    assert_eq!(CacheError::NotImplemented.message(), "Not implemented");
    assert_eq!(
        CacheError::DirectoryNotEmpty.message(),
        "Cache directory not empty"
    );
    assert_eq!(
        CacheError::IoError("disk full".to_string()).message(),
        "disk full"
    );
}
