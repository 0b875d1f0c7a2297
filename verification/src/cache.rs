use vstd::prelude::*;

verus! {

/// The two kinds of per-version asset cache.
#[derive(Clone, Copy, PartialEq, Eq, Structural, Debug)]
pub enum CacheKind {
    /// Uncompressed asset tree, live-mounted by the running game.
    Game,
    /// Compressed asset tree, packaged for offline or portable use.
    Offline,
}

/// Why an item failed verification or transfer.
#[derive(Clone, Copy, PartialEq, Eq, Structural, Debug)]
pub enum FailReason {
    /// The item is absent from the cache.
    Missing,
    /// The item is present but its content does not match the manifest.
    Mismatch,
}

/// Per-item progress reported by the delegated validation or transfer
/// routine through its progress callback.
#[derive(Clone, Copy, PartialEq, Eq, Structural, Debug)]
pub enum ItemProgress {
    Queued,
    InProgress,
    /// The item passed verification or transfer; carries the item size.
    Completed(u64),
    /// The item is absent or its content mismatches; carries the item size.
    Failed { item_size: u64, reason: FailReason },
}

/// The recorded status of one manifest item within a progress snapshot.
#[derive(Clone, Copy, PartialEq, Eq, Structural, Debug)]
pub struct CacheProgressItem {
    pub item_size: u64,
    pub corrupt: bool,
    pub missing: bool,
}

/// A message from the progress callback to the aggregation loop.
#[derive(Debug)]
pub enum CacheEvent {
    /// A later event for the same item name overwrites the earlier record.
    ItemProcessed(String, CacheProgressItem),
    /// The operation finished; the next snapshot is the terminal one.
    Done,
}

/// The item record that a progress report translates to, if any.
/// Queued and in-progress reports carry no completion status and are dropped.
pub open spec fn item_for_progress(progress: ItemProgress) -> Option<CacheProgressItem> {
    match progress {
        ItemProgress::Queued => None,
        ItemProgress::InProgress => None,
        ItemProgress::Completed(sz) => Some(
            CacheProgressItem { item_size: sz, corrupt: false, missing: false },
        ),
        ItemProgress::Failed { item_size, reason } => Some(
            CacheProgressItem { item_size, corrupt: true, missing: reason is Missing },
        ),
    }
}

/// Translate one callback report into an aggregation event: completed items
/// are recorded as clean, failed items as corrupt (and as missing when the
/// failure says so); queued and in-progress reports produce no event.
pub fn event_for_item_progress(item_name: &str, progress: ItemProgress) -> (r: Option<CacheEvent>)
    ensures
        match r {
            Some(e) => e matches CacheEvent::ItemProcessed(n, it) && n@ == item_name@
                && item_for_progress(progress) == Some(it),
            None => item_for_progress(progress) is None,
        },
{
    match progress {
        ItemProgress::Queued => None,
        ItemProgress::InProgress => None,
        ItemProgress::Completed(sz) => Some(
            CacheEvent::ItemProcessed(
                item_name.to_owned(),
                CacheProgressItem { item_size: sz, corrupt: false, missing: false },
            ),
        ),
        ItemProgress::Failed { item_size, reason } => Some(
            CacheEvent::ItemProcessed(
                item_name.to_owned(),
                CacheProgressItem {
                    item_size,
                    corrupt: true,
                    missing: matches!(reason, FailReason::Missing),
                },
            ),
        ),
    }
}

} // verus!
