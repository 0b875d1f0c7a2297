use vstd::prelude::*;

verus! {

/// How many validation operations may run at once, across all keys.
/// A compromise between spinning and solid-state storage parallelism.
pub const VALIDATION_POOL_SIZE: usize = 2;

/// How many download operations may run at once, across all keys.
/// One, to avoid saturating a single server or link with parallel transfers.
pub const DOWNLOAD_POOL_SIZE: usize = 1;

/// Two independent counting permit pools bounding how many validation and
/// download operations execute simultaneously.  A permit is taken before the
/// delegated operation starts and given back when it returns, whatever the
/// outcome.  Delete operations bypass the throttle entirely.
pub struct ConcurrencyThrottle {
    validation_active: usize,
    download_active: usize,
}

impl ConcurrencyThrottle {
    /// Validation permits currently held.
    pub closed spec fn validation_active(&self) -> int {
        self.validation_active as int
    }

    /// Download permits currently held.
    pub closed spec fn download_active(&self) -> int {
        self.download_active as int
    }

    /// Well-formedness: the pools never hand out more permits than their size.
    pub open spec fn wf(&self) -> bool {
        &&& self.validation_active() <= VALIDATION_POOL_SIZE
        &&& self.download_active() <= DOWNLOAD_POOL_SIZE
    }

    /// A fresh throttle with no permits out.
    pub fn new() -> (t: Self)
        ensures
            t.wf(),
            t.validation_active() == 0,
            t.download_active() == 0,
    {
        ConcurrencyThrottle { validation_active: 0, download_active: 0 }
    }

    /// Try to take a validation permit.  When the pool is exhausted the caller
    /// must wait and retry; the registry key it may hold is unaffected.
    pub fn try_acquire_validation(&mut self) -> (granted: bool)
        requires
            old(self).wf(),
        ensures
            final(self).wf(),
            granted <==> old(self).validation_active() < VALIDATION_POOL_SIZE,
            final(self).validation_active() == old(self).validation_active() + if granted {
                1int
            } else {
                0int
            },
            final(self).download_active() == old(self).download_active(),
    {
        if self.validation_active < VALIDATION_POOL_SIZE {
            self.validation_active = self.validation_active + 1;
            true
        } else {
            false
        }
    }

    /// Give a validation permit back.
    pub fn release_validation(&mut self)
        requires
            old(self).wf(),
            old(self).validation_active() > 0,
        ensures
            final(self).wf(),
            final(self).validation_active() == old(self).validation_active() - 1,
            final(self).download_active() == old(self).download_active(),
    {
        self.validation_active = self.validation_active - 1;
    }

    /// Try to take a download permit.
    pub fn try_acquire_download(&mut self) -> (granted: bool)
        requires
            old(self).wf(),
        ensures
            final(self).wf(),
            granted <==> old(self).download_active() < DOWNLOAD_POOL_SIZE,
            final(self).download_active() == old(self).download_active() + if granted {
                1int
            } else {
                0int
            },
            final(self).validation_active() == old(self).validation_active(),
    {
        if self.download_active < DOWNLOAD_POOL_SIZE {
            self.download_active = self.download_active + 1;
            true
        } else {
            false
        }
    }

    /// Give a download permit back.
    pub fn release_download(&mut self)
        requires
            old(self).wf(),
            old(self).download_active() > 0,
        ensures
            final(self).wf(),
            final(self).download_active() == old(self).download_active() - 1,
            final(self).validation_active() == old(self).validation_active(),
    {
        self.download_active = self.download_active - 1;
    }

    /// Validation permits held, for observation by callers and tests.
    pub fn validation_in_flight(&self) -> (n: usize)
        ensures
            n == self.validation_active(),
    {
        self.validation_active
    }

    /// Download permits held, for observation by callers and tests.
    pub fn download_in_flight(&self) -> (n: usize)
        ensures
            n == self.download_active(),
    {
        self.download_active
    }
}

/// At no instant are more than two validation operations or more than one
/// download operation executing concurrently, across all keys combined: a
/// well-formed throttle never has more than two validation permits or one
/// download permit out, and every throttle operation preserves
/// well-formedness.
pub proof fn lemma_throttle_bounds(t: &ConcurrencyThrottle)
    requires
        t.wf(),
    ensures
        t.validation_active() <= 2,
        t.download_active() <= 1,
{
}

} // verus!
