use vstd::prelude::*;
use crate::cache::CacheKind;
use crate::errors::CacheError;

verus! {

/// No value occurs twice in the sequence.
pub open spec fn no_dup(s: Seq<u128>) -> bool {
    forall|i: int, j: int| 0 <= i < j < s.len() ==> s[i] != s[j]
}

proof fn lemma_push_contains(s: Seq<u128>, x: u128, y: u128)
    ensures
        s.push(x).contains(y) <==> (s.contains(y) || y == x),
{
    if s.push(x).contains(y) {
        let i = choose|i: int| 0 <= i < s.push(x).len() && s.push(x)[i] == y;
        if i < s.len() {
            assert(s[i] == y);
        }
    }
    if s.contains(y) {
        let i = choose|i: int| 0 <= i < s.len() && s[i] == y;
        assert(s.push(x)[i] == y);
    }
    assert(s.push(x)[s.len() as int] == x);
}

proof fn lemma_push_no_dup(s: Seq<u128>, x: u128)
    requires
        no_dup(s),
        !s.contains(x),
    ensures
        no_dup(s.push(x)),
{
    assert forall|i: int, j: int| 0 <= i < j < s.push(x).len() implies s.push(x)[i] != s.push(
        x,
    )[j] by {
        if j == s.len() {
            assert(s[i] == s.push(x)[i]);
            if s.push(x)[i] == x {
                assert(s.contains(x));
            }
        }
    }
}

/// Membership test on a plain vector of ids.
fn vec_contains(v: &Vec<u128>, x: u128) -> (r: bool)
    ensures
        r == v@.contains(x),
{
    let mut i: usize = 0;
    while i < v.len()
        invariant
            i <= v@.len(),
            forall|j: int| 0 <= j < i ==> v@[j] != x,
        decreases v@.len() - i,
    {
        if v[i] == x {
            assert(v@.contains(x));
            return true;
        }
        i = i + 1;
    }
    assert(!v@.contains(x));
    false
}

/// Remove every occurrence of a value, keeping the rest.
fn vec_remove_value(v: &mut Vec<u128>, x: u128)
    requires
        no_dup(old(v)@),
    ensures
        no_dup(final(v)@),
        forall|y: u128| final(v)@.contains(y) <==> (old(v)@.contains(y) && y != x),
{
    let mut out: Vec<u128> = Vec::new();
    let mut i: usize = 0;
    while i < v.len()
        invariant
            i <= v@.len(),
            no_dup(v@),
            no_dup(out@),
            forall|y: u128| out@.contains(y) <==> (v@.take(i as int).contains(y) && y != x),
        decreases v@.len() - i,
    {
        let e = v[i];
        let ghost out_before = out@;
        let ghost i0 = i as int;
        if e != x {
            proof {
                if out@.contains(e) {
                    let j = choose|j: int| 0 <= j < v@.take(i0).len() && v@.take(i0)[j] == e;
                    assert(v@[j] == v@[i0]);
                }
                lemma_push_no_dup(out@, e);
            }
            out.push(e);
        }
        i = i + 1;
        proof {
            assert(v@.take(i0 + 1) =~= v@.take(i0).push(v@[i0]));
            assert forall|y: u128| out@.contains(y) <==> (v@.take(i0 + 1).contains(y) && y
                != x) by {
                lemma_push_contains(v@.take(i0), v@[i0], y);
                if e != x {
                    lemma_push_contains(out_before, e, y);
                }
            }
        }
    }
    proof {
        assert(v@.take(v@.len() as int) =~= v@);
    }
    *v = out;
}

/// The process-wide mutual-exclusion set: for each (cache kind, version id)
/// key, at most one operation may be a member at any time.  A conflicting
/// caller is rejected immediately, never queued.
pub struct OperationRegistry {
    game_ops: Vec<u128>,
    offline_ops: Vec<u128>,
}

impl OperationRegistry {
    /// The ids currently registered for one cache kind.
    pub closed spec fn ops(&self, kind: CacheKind) -> Seq<u128> {
        match kind {
            CacheKind::Game => self.game_ops@,
            CacheKind::Offline => self.offline_ops@,
        }
    }

    /// The key (kind, id) is currently held by some operation.
    pub open spec fn holds(&self, kind: CacheKind, id: u128) -> bool {
        self.ops(kind).contains(id)
    }

    /// Well-formedness: each membership set records a key at most once.
    pub closed spec fn wf(&self) -> bool {
        no_dup(self.game_ops@) && no_dup(self.offline_ops@)
    }

    /// An empty registry: no key is held.
    pub fn new() -> (r: Self)
        ensures
            r.wf(),
            forall|k: CacheKind, i: u128| !r.holds(k, i),
    {
        let r = OperationRegistry { game_ops: Vec::new(), offline_ops: Vec::new() };
        proof {
            assert forall|k: CacheKind, i: u128| !r.holds(k, i) by {
                if r.ops(k).contains(i) {
                    let j = choose|j: int| 0 <= j < r.ops(k).len() && r.ops(k)[j] == i;
                }
            }
        }
        r
    }

    /// Try to register the key (kind, id).  Succeeds exactly when no other
    /// operation holds the key; a conflicting caller gets `AlreadyInProgress`
    /// at once, with no side effect and no queuing.
    pub fn try_acquire(&mut self, kind: CacheKind, id: u128) -> (r: Result<(), CacheError>)
        requires
            old(self).wf(),
        ensures
            final(self).wf(),
            r is Ok <==> !old(self).holds(kind, id),
            r is Err ==> (r matches Err(CacheError::AlreadyInProgress) && *final(self) == *old(
                self,
            )),
            forall|k: CacheKind, i: u128|
                #[trigger] final(self).holds(k, i) <==> (old(self).holds(k, i) || (r is Ok && k
                    == kind && i == id)),
    {
        let held = match kind {
            CacheKind::Game => vec_contains(&self.game_ops, id),
            CacheKind::Offline => vec_contains(&self.offline_ops, id),
        };
        if held {
            Err(CacheError::AlreadyInProgress)
        } else {
            let ghost before = self.ops(kind);
            match kind {
                CacheKind::Game => self.game_ops.push(id),
                CacheKind::Offline => self.offline_ops.push(id),
            }
            proof {
                lemma_push_no_dup(before, id);
                assert forall|k: CacheKind, i: u128|
                    #[trigger] self.holds(k, i) <==> (old(self).holds(k, i) || (k == kind && i
                        == id)) by {
                    lemma_push_contains(before, id, i);
                }
            }
            Ok(())
        }
    }

    /// Remove the key (kind, id).  Called exactly once when the holding
    /// operation terminates by any path; afterwards the key is absent and a
    /// subsequent acquisition of the same key is immediately eligible.
    pub fn release(&mut self, kind: CacheKind, id: u128)
        requires
            old(self).wf(),
        ensures
            final(self).wf(),
            forall|k: CacheKind, i: u128|
                #[trigger] final(self).holds(k, i) <==> (old(self).holds(k, i) && !(k == kind
                    && i == id)),
    {
        match kind {
            CacheKind::Game => vec_remove_value(&mut self.game_ops, id),
            CacheKind::Offline => vec_remove_value(&mut self.offline_ops, id),
        }
    }

    /// Whether the key (kind, id) is currently held, for callers and tests.
    pub fn is_held(&self, kind: CacheKind, id: u128) -> (r: bool)
        ensures
            r == self.holds(kind, id),
    {
        match kind {
            CacheKind::Game => vec_contains(&self.game_ops, id),
            CacheKind::Offline => vec_contains(&self.offline_ops, id),
        }
    }
}

} // verus!
