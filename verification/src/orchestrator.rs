use vstd::prelude::*;
use crate::cache::CacheKind;
use crate::errors::CacheError;
use crate::registry::OperationRegistry;
use crate::throttle::{ConcurrencyThrottle, DOWNLOAD_POOL_SIZE, VALIDATION_POOL_SIZE};
use crate::versions::{has_version, Versions};

verus! {

/// Every cache operation is keyed by a version id; an id the catalog does
/// not know is rejected with `NotFound` before anything is acquired.
pub fn require_known_version(versions: &Versions, id: u128) -> (r: Result<(), CacheError>)
    ensures
        r is Ok <==> has_version(versions.entries(), id),
        r is Err ==> r matches Err(CacheError::NotFound),
{
    match versions.get_entry(id) {
        Some(_) => Ok(()),
        None => Err(CacheError::NotFound),
    }
}

/// How a validation request starts.
#[derive(Clone, Copy, PartialEq, Eq, Structural, Debug)]
pub enum ValidateStart {
    /// The cache directory is missing or empty: the operation succeeds at
    /// once with an empty terminal snapshot.  Nothing was acquired.
    CleanSkip,
    /// The key is registered.  The caller must take a validation permit, run
    /// the delegated verification, and call `finish_validate` when it
    /// returns, whatever the outcome.
    Started,
}

/// The public operation surface of the cache engine.  It owns the
/// mutual-exclusion registry and the two throttle pools; the surrounding
/// application resolves directories, performs the delegated I/O between a
/// `begin_*` and its `finish_*`, and feeds progress events to the
/// aggregator.
pub struct CacheOrchestrator {
    registry: OperationRegistry,
    throttle: ConcurrencyThrottle,
}

impl CacheOrchestrator {
    /// The key (kind, id) is held by an in-flight operation.
    pub closed spec fn holds(&self, kind: CacheKind, id: u128) -> bool {
        self.registry.holds(kind, id)
    }

    /// Validation permits currently held.
    pub closed spec fn validation_active(&self) -> int {
        self.throttle.validation_active()
    }

    /// Download permits currently held.
    pub closed spec fn download_active(&self) -> int {
        self.throttle.download_active()
    }

    pub closed spec fn wf(&self) -> bool {
        self.registry.wf() && self.throttle.wf()
    }

    /// A fresh orchestrator: no key held, no permit out.  Constructed once at
    /// startup and shared by every handler.
    pub fn new() -> (r: Self)
        ensures
            r.wf(),
            forall|k: CacheKind, i: u128| !r.holds(k, i),
            r.validation_active() == 0,
            r.download_active() == 0,
    {
        CacheOrchestrator { registry: OperationRegistry::new(), throttle: ConcurrencyThrottle::new() }
    }

    /// Start a validation of (kind, id).  `cache_populated` says whether the
    /// resolved cache directory exists and is non-empty.  A missing or empty
    /// directory succeeds immediately with an empty terminal snapshot and
    /// acquires nothing; otherwise the key is registered, or the call is
    /// rejected with `AlreadyInProgress` when another operation holds it.
    /// No permit is taken here.
    pub fn begin_validate(&mut self, id: u128, kind: CacheKind, cache_populated: bool) -> (r:
        Result<ValidateStart, CacheError>)
        requires
            old(self).wf(),
        ensures
            final(self).wf(),
            final(self).validation_active() == old(self).validation_active(),
            final(self).download_active() == old(self).download_active(),
            !cache_populated ==> (r matches Ok(ValidateStart::CleanSkip) && *final(self) == *old(
                self,
            )),
            cache_populated && old(self).holds(kind, id) ==> (r matches Err(
                CacheError::AlreadyInProgress,
            ) && *final(self) == *old(self)),
            cache_populated && !old(self).holds(kind, id) ==> r matches Ok(
                ValidateStart::Started,
            ),
            forall|k: CacheKind, i: u128|
                #[trigger] final(self).holds(k, i) <==> (old(self).holds(k, i) || (
                cache_populated && !old(self).holds(kind, id) && k == kind && i == id)),
    {
        if !cache_populated {
            return Ok(ValidateStart::CleanSkip);
        }
        match self.registry.try_acquire(kind, id) {
            Ok(()) => Ok(ValidateStart::Started),
            Err(e) => Err(e),
        }
    }

    /// Start a download into (kind, id).  Game-kind download is unsupported
    /// and fails at once with `NotImplemented`.  A non-repair download into a
    /// directory that already has contents fails with `DirectoryNotEmpty`
    /// before any network work.  Otherwise the key is registered, or the
    /// call is rejected with `AlreadyInProgress`.  No permit is taken here.
    pub fn begin_download(
        &mut self,
        id: u128,
        kind: CacheKind,
        repair: bool,
        dir_nonempty: bool,
    ) -> (r: Result<(), CacheError>)
        requires
            old(self).wf(),
        ensures
            final(self).wf(),
            final(self).validation_active() == old(self).validation_active(),
            final(self).download_active() == old(self).download_active(),
            kind is Game ==> (r matches Err(CacheError::NotImplemented) && *final(self) == *old(
                self,
            )),
            kind is Offline && !repair && dir_nonempty ==> (r matches Err(
                CacheError::DirectoryNotEmpty,
            ) && *final(self) == *old(self)),
            kind is Offline && (repair || !dir_nonempty) && old(self).holds(kind, id) ==> (
            r matches Err(CacheError::AlreadyInProgress) && *final(self) == *old(self)),
            r is Ok <==> (kind is Offline && (repair || !dir_nonempty) && !old(self).holds(
                kind,
                id,
            )),
            forall|k: CacheKind, i: u128|
                #[trigger] final(self).holds(k, i) <==> (old(self).holds(k, i) || (r is Ok && k
                    == kind && i == id)),
    {
        match kind {
            CacheKind::Game => Err(CacheError::NotImplemented),
            CacheKind::Offline => {
                if !repair && dir_nonempty {
                    Err(CacheError::DirectoryNotEmpty)
                } else {
                    self.registry.try_acquire(kind, id)
                }
            },
        }
    }

    /// Start a delete of (kind, id).  Deletes take the registry key only and
    /// bypass the throttle: directory removal is local and not rate-limited.
    pub fn begin_delete(&mut self, id: u128, kind: CacheKind) -> (r: Result<(), CacheError>)
        requires
            old(self).wf(),
        ensures
            final(self).wf(),
            final(self).validation_active() == old(self).validation_active(),
            final(self).download_active() == old(self).download_active(),
            r is Ok <==> !old(self).holds(kind, id),
            r is Err ==> (r matches Err(CacheError::AlreadyInProgress) && *final(self) == *old(
                self,
            )),
            forall|k: CacheKind, i: u128|
                #[trigger] final(self).holds(k, i) <==> (old(self).holds(k, i) || (r is Ok && k
                    == kind && i == id)),
    {
        self.registry.try_acquire(kind, id)
    }

    /// Try to take a validation permit for a started validation.  When the
    /// pool is full the caller waits and retries; the key stays held.
    pub fn try_acquire_validation_permit(&mut self) -> (granted: bool)
        requires
            old(self).wf(),
        ensures
            final(self).wf(),
            granted <==> old(self).validation_active() < VALIDATION_POOL_SIZE,
            final(self).validation_active() == old(self).validation_active() + if granted {
                1int
            } else {
                0int
            },
            final(self).download_active() == old(self).download_active(),
            forall|k: CacheKind, i: u128|
                #[trigger] final(self).holds(k, i) <==> old(self).holds(k, i),
    {
        self.throttle.try_acquire_validation()
    }

    /// Try to take the download permit for a started download.
    pub fn try_acquire_download_permit(&mut self) -> (granted: bool)
        requires
            old(self).wf(),
        ensures
            final(self).wf(),
            granted <==> old(self).download_active() < DOWNLOAD_POOL_SIZE,
            final(self).download_active() == old(self).download_active() + if granted {
                1int
            } else {
                0int
            },
            final(self).validation_active() == old(self).validation_active(),
            forall|k: CacheKind, i: u128|
                #[trigger] final(self).holds(k, i) <==> old(self).holds(k, i),
    {
        self.throttle.try_acquire_download()
    }

    /// End a started validation: give the permit back and free the key,
    /// whatever the delegated routine's outcome was.
    pub fn finish_validate(&mut self, id: u128, kind: CacheKind)
        requires
            old(self).wf(),
            old(self).holds(kind, id),
            old(self).validation_active() > 0,
        ensures
            final(self).wf(),
            final(self).validation_active() == old(self).validation_active() - 1,
            final(self).download_active() == old(self).download_active(),
            !final(self).holds(kind, id),
            forall|k: CacheKind, i: u128|
                #[trigger] final(self).holds(k, i) <==> (old(self).holds(k, i) && !(k == kind
                    && i == id)),
    {
        self.throttle.release_validation();
        self.registry.release(kind, id);
    }

    /// End a started download: give the permit back and free the key,
    /// whatever the delegated routine's outcome was.
    pub fn finish_download(&mut self, id: u128, kind: CacheKind)
        requires
            old(self).wf(),
            old(self).holds(kind, id),
            old(self).download_active() > 0,
        ensures
            final(self).wf(),
            final(self).download_active() == old(self).download_active() - 1,
            final(self).validation_active() == old(self).validation_active(),
            !final(self).holds(kind, id),
            forall|k: CacheKind, i: u128|
                #[trigger] final(self).holds(k, i) <==> (old(self).holds(k, i) && !(k == kind
                    && i == id)),
    {
        self.throttle.release_download();
        self.registry.release(kind, id);
    }

    /// End a delete: free the key.  The caller's filesystem result is
    /// propagated by the caller; the key is freed either way.
    pub fn finish_delete(&mut self, id: u128, kind: CacheKind)
        requires
            old(self).wf(),
            old(self).holds(kind, id),
        ensures
            final(self).wf(),
            final(self).validation_active() == old(self).validation_active(),
            final(self).download_active() == old(self).download_active(),
            !final(self).holds(kind, id),
            forall|k: CacheKind, i: u128|
                #[trigger] final(self).holds(k, i) <==> (old(self).holds(k, i) && !(k == kind
                    && i == id)),
    {
        self.registry.release(kind, id);
    }

    /// Whether the key (kind, id) is held, for callers and tests.
    pub fn is_held(&self, kind: CacheKind, id: u128) -> (r: bool)
        ensures
            r == self.holds(kind, id),
    {
        self.registry.is_held(kind, id)
    }

    /// Validation permits held, for callers and tests.
    pub fn validation_in_flight(&self) -> (n: usize)
        ensures
            n == self.validation_active(),
    {
        self.throttle.validation_in_flight()
    }

    /// Download permits held, for callers and tests.
    pub fn download_in_flight(&self) -> (n: usize)
        ensures
            n == self.download_active(),
    {
        self.throttle.download_in_flight()
    }
}

/// For every (id, kind): of two concurrent validate or download calls on the
/// same key, exactly one is accepted and the other is rejected immediately,
/// never queued.  `before` is the state the accepted call saw — under the
/// `begin_*` contracts acceptance is equivalent to the key being absent —
/// and `after` the state it left; the key is then held, so the competing
/// call, arriving before the `finish_*`, is refused with
/// `AlreadyInProgress`.
pub proof fn lemma_same_key_one_accepted_one_rejected(
    before: CacheOrchestrator,
    after: CacheOrchestrator,
    kind: CacheKind,
    id: u128,
)
    requires
        !before.holds(kind, id),
        forall|k: CacheKind, i: u128|
            #[trigger] after.holds(k, i) <==> (before.holds(k, i) || (k == kind && i == id)),
    ensures
        after.holds(kind, id),
{
}

/// After an operation on a key terminates by any path — success, error, or a
/// rejection upstream of acquisition — the key is absent from the registry,
/// and a subsequent call on the same key is immediately eligible to proceed.
/// `after` is the state a `finish_*` leaves behind (a rejected call never
/// inserted the key, so for it the claim holds of its unchanged state); no
/// other key's membership moves.
pub proof fn lemma_terminated_key_absent(
    before: CacheOrchestrator,
    after: CacheOrchestrator,
    kind: CacheKind,
    id: u128,
)
    requires
        forall|k: CacheKind, i: u128|
            #[trigger] after.holds(k, i) <==> (before.holds(k, i) && !(k == kind && i == id)),
    ensures
        !after.holds(kind, id),
        forall|k: CacheKind, i: u128|
            !(k == kind && i == id) ==> (#[trigger] after.holds(k, i) <==> before.holds(k, i)),
{
}

} // verus!

