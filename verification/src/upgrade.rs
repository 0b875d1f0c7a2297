use vstd::prelude::*;
use vstd::string::StringExecFns;
use crate::versions::{has_version, VersionEntry, Versions};

verus! {

/// Whether launch preparation should warm-start the target version's game
/// cache from its declared parent's: only when the target's cache directory
/// does not exist, the version declares a parent that the catalog knows,
/// and the parent's cache directory exists and is non-empty.  The copy is a
/// best-effort optimization, never a correctness dependency: without it a
/// later validate or download simply starts from empty.
pub fn should_upgrade_cache(
    versions: &Versions,
    version: &VersionEntry,
    target_dir_exists: bool,
    parent_dir_exists: bool,
    parent_dir_nonempty: bool,
) -> (r: bool)
    ensures
        r == (!target_dir_exists && (version.parent_uuid matches Some(p) && has_version(
            versions.entries(),
            p,
        )) && parent_dir_exists && parent_dir_nonempty),
{
    if target_dir_exists {
        return false;
    }
    match version.parent_uuid {
        None => false,
        Some(p) => versions.get_entry(p).is_some() && parent_dir_exists
            && parent_dir_nonempty,
    }
}

/// Whether the parent's superseded cache should be deleted after a
/// successful copy: only when the policy says to delete old game caches and
/// no configured server still prefers or selects the parent version.
pub fn should_prune_parent_cache(
    copy_succeeded: bool,
    delete_old_game_caches: bool,
    parent_use_count: usize,
) -> (r: bool)
    ensures
        r == (copy_succeeded && delete_old_game_caches && parent_use_count == 0),
{
    copy_succeeded && delete_old_game_caches && parent_use_count == 0
}

/// How launch preparation treats an existing offline cache.
#[derive(Clone, Copy, PartialEq, Eq, Structural, Debug)]
pub enum OfflineCachePlan {
    /// Offline caches are off, or there is none: launch from the network.
    Skip,
    /// Use the offline cache without checking it first.
    UseDirectly,
    /// Verify the offline cache and use it only if it is intact.
    VerifyFirst,
}

/// Decide what to do about the offline cache before launch.
pub fn plan_offline_cache(
    use_offline_caches: bool,
    offline_dir_exists: bool,
    verify_offline_caches: bool,
) -> (r: OfflineCachePlan)
    ensures
        r is Skip <==> (!use_offline_caches || !offline_dir_exists),
        r is UseDirectly <==> (use_offline_caches && offline_dir_exists
            && !verify_offline_caches),
        r is VerifyFirst <==> (use_offline_caches && offline_dir_exists
            && verify_offline_caches),
{
    if !use_offline_caches || !offline_dir_exists {
        OfflineCachePlan::Skip
    } else if verify_offline_caches {
        OfflineCachePlan::VerifyFirst
    } else {
        OfflineCachePlan::UseDirectly
    }
}

/// After a verification pass over the offline cache: use it only when the
/// check ran to completion and found nothing corrupt.
pub fn offline_cache_usable(validation_completed: bool, corrupt: bool) -> (r: bool)
    ensures
        r == (validation_completed && !corrupt),
{
    validation_completed && !corrupt
}

/// The main asset file inside an offline cache directory, as the launched
/// game expects it.
pub fn offline_main_file_url(offline_cache_dir: &str) -> (r: String)
    ensures
        r@ == offline_cache_dir@ + "\\main.unity3d"@,
{
    let mut r = offline_cache_dir.to_owned();
    r.append("\\main.unity3d");
    r
}

} // verus!
