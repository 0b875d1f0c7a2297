use vstd::prelude::*;
use crate::cache::{CacheEvent, CacheKind, CacheProgressItem};

verus! {

/// First record for key `k` in an association list of item records.
pub open spec fn lookup_pairs(
    s: Seq<(String, CacheProgressItem)>,
    k: Seq<char>,
) -> Option<CacheProgressItem>
    decreases s.len(),
{
    if s.len() == 0 {
        None
    } else if s[0].0@ == k {
        Some(s[0].1)
    } else {
        lookup_pairs(s.drop_first(), k)
    }
}

/// No item name occurs twice in the list.
pub open spec fn pairs_keys_distinct(s: Seq<(String, CacheProgressItem)>) -> bool {
    forall|i: int, j: int| 0 <= i < j < s.len() ==> s[i].0@ != s[j].0@
}

/// The item map an association list denotes.
pub open spec fn pairs_map(s: Seq<(String, CacheProgressItem)>) -> Map<
    Seq<char>,
    CacheProgressItem,
> {
    Map::new(|k: Seq<char>| lookup_pairs(s, k) is Some, |k: Seq<char>| lookup_pairs(s, k)->Some_0)
}

proof fn lemma_lookup_some_iff_index(s: Seq<(String, CacheProgressItem)>, k: Seq<char>)
    ensures
        (lookup_pairs(s, k) is Some) <==> (exists|i: int| 0 <= i < s.len() && s[i].0@ == k),
    decreases s.len(),
{
    if s.len() == 0 {
    } else if s[0].0@ == k {
        assert(0 <= 0 < s.len() && s[0].0@ == k);
    } else {
        lemma_lookup_some_iff_index(s.drop_first(), k);
        if lookup_pairs(s, k) is Some {
            let i = choose|i: int| 0 <= i < s.drop_first().len() && s.drop_first()[i].0@ == k;
            assert(s[i + 1].0@ == k);
        }
        if exists|i: int| 0 <= i < s.len() && s[i].0@ == k {
            let i = choose|i: int| 0 <= i < s.len() && s[i].0@ == k;
            assert(i != 0);
            assert(s.drop_first()[i - 1].0@ == k);
        }
    }
}

proof fn lemma_distinct_drop_first(s: Seq<(String, CacheProgressItem)>)
    requires
        pairs_keys_distinct(s),
        s.len() > 0,
    ensures
        pairs_keys_distinct(s.drop_first()),
{
    assert forall|i: int, j: int|
        0 <= i < j < s.drop_first().len() implies s.drop_first()[i].0@ != s.drop_first()[j].0@ by {
        assert(s[i + 1].0@ != s[j + 1].0@);
    }
}

proof fn lemma_lookup_at_index(s: Seq<(String, CacheProgressItem)>, i: int)
    requires
        pairs_keys_distinct(s),
        0 <= i < s.len(),
    ensures
        lookup_pairs(s, s[i].0@) == Some(s[i].1),
    decreases s.len(),
{
    if i == 0 {
    } else {
        assert(s[0].0@ != s[i].0@);
        lemma_distinct_drop_first(s);
        lemma_lookup_at_index(s.drop_first(), i - 1);
        assert(s.drop_first()[i - 1] == s[i]);
    }
}

proof fn lemma_lookup_update(
    s: Seq<(String, CacheProgressItem)>,
    j: int,
    p: (String, CacheProgressItem),
    k: Seq<char>,
)
    requires
        pairs_keys_distinct(s),
        0 <= j < s.len(),
        p.0@ == s[j].0@,
    ensures
        lookup_pairs(s.update(j, p), k) == if k == p.0@ {
            Some(p.1)
        } else {
            lookup_pairs(s, k)
        },
    decreases s.len(),
{
    let t = s.update(j, p);
    if j == 0 {
        assert(t[0] == p);
        assert(t.drop_first() =~= s.drop_first());
    } else {
        assert(t[0] == s[0]);
        assert(s[0].0@ != s[j].0@);
        assert(t.drop_first() =~= s.drop_first().update(j - 1, p));
        lemma_distinct_drop_first(s);
        assert(s.drop_first()[j - 1] == s[j]);
        lemma_lookup_update(s.drop_first(), j - 1, p, k);
    }
}

proof fn lemma_lookup_push(
    s: Seq<(String, CacheProgressItem)>,
    p: (String, CacheProgressItem),
    k: Seq<char>,
)
    requires
        lookup_pairs(s, p.0@) is None,
    ensures
        lookup_pairs(s.push(p), k) == if k == p.0@ {
            Some(p.1)
        } else {
            lookup_pairs(s, k)
        },
    decreases s.len(),
{
    if s.len() == 0 {
        assert(s.push(p)[0] == p);
        assert(s.push(p).drop_first() =~= Seq::<(String, CacheProgressItem)>::empty());
        if k == p.0@ {
            assert(lookup_pairs(s.push(p), k) == Some(p.1));
        } else {
            assert(lookup_pairs(Seq::<(String, CacheProgressItem)>::empty(), k) is None);
            assert(lookup_pairs(s.push(p), k) is None);
            assert(lookup_pairs(s, k) is None);
        }
    } else {
        assert(s.push(p)[0] == s[0]);
        assert(s[0].0@ != p.0@);
        assert(s.push(p).drop_first() =~= s.drop_first().push(p));
        lemma_lookup_push(s.drop_first(), p, k);
        if k == s[0].0@ {
            assert(lookup_pairs(s.push(p), k) == Some(s[0].1));
            assert(lookup_pairs(s, k) == Some(s[0].1));
        } else {
            assert(lookup_pairs(s.push(p), k) == lookup_pairs(s.drop_first().push(p), k));
            assert(lookup_pairs(s, k) == lookup_pairs(s.drop_first(), k));
        }
    }
}

/// Find the index of an item name in the record list, if present.
fn find_key(items: &Vec<(String, CacheProgressItem)>, name: &String) -> (r: Option<usize>)
    ensures
        match r {
            Some(j) => j < items@.len() && items@[j as int].0@ == name@,
            None => forall|j: int| 0 <= j < items@.len() ==> items@[j].0@ != name@,
        },
{
    let mut i: usize = 0;
    while i < items.len()
        invariant
            i <= items@.len(),
            forall|j: int| 0 <= j < i ==> items@[j].0@ != name@,
        decreases items@.len() - i,
    {
        if items[i].0 == *name {
            return Some(i);
        }
        i = i + 1;
    }
    None
}

/// Copy the record list for a snapshot.
fn clone_pairs(v: &Vec<(String, CacheProgressItem)>) -> (r: Vec<(String, CacheProgressItem)>)
    ensures
        r@ == v@,
{
    let mut r: Vec<(String, CacheProgressItem)> = Vec::new();
    let mut i: usize = 0;
    while i < v.len()
        invariant
            i <= v@.len(),
            r@ == v@.take(i as int),
        decreases v@.len() - i,
    {
        let name = v[i].0.clone();
        let item = v[i].1;
        proof {
            assert((name, item) == v@[i as int]);
            assert(v@.take(i as int + 1) =~= v@.take(i as int).push(v@[i as int]));
        }
        r.push((name, item));
        i = i + 1;
    }
    proof {
        assert(v@.take(v@.len() as int) =~= v@);
    }
    r
}

/// A coalesced progress snapshot for one in-flight operation: the owning
/// (version id, cache kind), the full accumulated item map so far, and
/// whether the operation has finished.  The snapshot with `done == true` is
/// the terminal, authoritative summary.
#[derive(Debug)]
pub struct CacheProgress {
    pub version_id: u128,
    pub kind: CacheKind,
    pub items: Vec<(String, CacheProgressItem)>,
    pub done: bool,
}

impl CacheProgress {
    /// The operation-level corrupt signal.  It is derived, not stored: true
    /// exactly when some recorded item failed.
    pub fn is_corrupt(&self) -> (r: bool)
        ensures
            r == exists|i: int| 0 <= i < self.items@.len() && self.items@[i].1.corrupt,
    {
        let mut i: usize = 0;
        while i < self.items.len()
            invariant
                i <= self.items@.len(),
                forall|j: int| 0 <= j < i ==> !self.items@[j].1.corrupt,
            decreases self.items@.len() - i,
        {
            if self.items[i].1.corrupt {
                return true;
            }
            i = i + 1;
        }
        false
    }
}

/// The snapshot a validation emits when the cache directory is missing or
/// empty: no items, terminal at once.
pub fn empty_done_snapshot(version_id: u128, kind: CacheKind) -> (s: CacheProgress)
    ensures
        s.version_id == version_id,
        s.kind == kind,
        s.done,
        s.items@.len() == 0,
{
    CacheProgress { version_id, kind, items: Vec::new(), done: true }
}

/// One aggregation step: an item event overwrites that name's record; the
/// terminal event sets the done flag.
pub open spec fn apply_event_model(
    m: Map<Seq<char>, CacheProgressItem>,
    done: bool,
    e: CacheEvent,
) -> (Map<Seq<char>, CacheProgressItem>, bool) {
    match e {
        CacheEvent::ItemProcessed(n, it) => (m.insert(n@, it), done),
        CacheEvent::Done => (m, true),
    }
}

/// The aggregation of a whole batch of events, in arrival order.
pub open spec fn apply_events_model(
    m: Map<Seq<char>, CacheProgressItem>,
    done: bool,
    evs: Seq<CacheEvent>,
) -> (Map<Seq<char>, CacheProgressItem>, bool)
    decreases evs.len(),
{
    if evs.len() == 0 {
        (m, done)
    } else {
        apply_events_model(
            apply_event_model(m, done, evs[0]).0,
            apply_event_model(m, done, evs[0]).1,
            evs.drop_first(),
        )
    }
}

/// The accumulating state of the aggregation loop for one operation: a map
/// from item name to its most recent record, and the done flag.  Events
/// arrive in batches, one batch per tick; each tick emits one snapshot.
pub struct ProgressTracker {
    version_id: u128,
    kind: CacheKind,
    items: Vec<(String, CacheProgressItem)>,
    done: bool,
}

impl ProgressTracker {
    /// The owning version id.
    pub closed spec fn version_id(&self) -> u128 {
        self.version_id
    }

    /// The owning cache kind.
    pub closed spec fn kind(&self) -> CacheKind {
        self.kind
    }

    /// Whether the terminal event has been seen.
    pub closed spec fn done(&self) -> bool {
        self.done
    }

    /// The accumulated records, in first-arrival order of their names.
    pub closed spec fn items(&self) -> Seq<(String, CacheProgressItem)> {
        self.items@
    }

    /// The accumulated item map.
    pub open spec fn items_map(&self) -> Map<Seq<char>, CacheProgressItem> {
        pairs_map(self.items())
    }

    /// Well-formedness: one record per item name.
    pub open spec fn wf(&self) -> bool {
        pairs_keys_distinct(self.items())
    }

    /// A fresh tracker for one operation: no items, not done.
    pub fn new(version_id: u128, kind: CacheKind) -> (t: Self)
        ensures
            t.wf(),
            t.version_id() == version_id,
            t.kind() == kind,
            !t.done(),
            t.items().len() == 0,
            t.items_map() == Map::<Seq<char>, CacheProgressItem>::empty(),
    {
        let t = ProgressTracker { version_id, kind, items: Vec::new(), done: false };
        proof {
            assert(t.items_map() =~= Map::<Seq<char>, CacheProgressItem>::empty());
        }
        t
    }

    /// Apply one event.  A later item event for a name already recorded
    /// overwrites that record in place — the map gains no entry and the list
    /// no duplicate; a name not yet recorded is appended.  The terminal
    /// event sets the done flag and leaves the records untouched.
    pub fn apply_event(&mut self, event: CacheEvent)
        requires
            old(self).wf(),
        ensures
            final(self).wf(),
            final(self).version_id() == old(self).version_id(),
            final(self).kind() == old(self).kind(),
            match event {
                CacheEvent::ItemProcessed(n, it) => {
                    &&& final(self).done() == old(self).done()
                    &&& final(self).items_map() == old(self).items_map().insert(n@, it)
                    &&& final(self).items().len() == old(self).items().len() + (
                    if old(self).items_map().dom().contains(n@) {
                        0int
                    } else {
                        1int
                    })
                },
                CacheEvent::Done => {
                    &&& final(self).done()
                    &&& final(self).items() == old(self).items()
                },
            },
    {
        match event {
            CacheEvent::Done => {
                self.done = true;
            },
            CacheEvent::ItemProcessed(name, item) => {
                let ghost s0 = self.items@;
                match find_key(&self.items, &name) {
                    Some(j) => {
                        proof {
                            lemma_lookup_some_iff_index(s0, name@);
                            assert(s0[j as int].0@ == name@);
                        }
                        self.items[j] = (name, item);
                        proof {
                            let s1 = self.items@;
                            assert(s1 == s0.update(j as int, s1[j as int]));
                            assert(s1[j as int].0@ == name@);
                            assert forall|a: int, b: int| 0 <= a < b < s1.len() implies s1[a].0@
                                != s1[b].0@ by {
                                assert(s0[a].0@ == s1[a].0@ || a == j);
                                assert(s0[b].0@ == s1[b].0@ || b == j);
                                assert(s0[a].0@ != s0[b].0@);
                            }
                            assert forall|k: Seq<char>|
                                lookup_pairs(s1, k) == (if k == name@ {
                                    Some(s1[j as int].1)
                                } else {
                                    lookup_pairs(s0, k)
                                }) by {
                                lemma_lookup_update(s0, j as int, s1[j as int], k);
                            }
                            assert(pairs_map(s1) =~= pairs_map(s0).insert(
                                name@,
                                s1[j as int].1,
                            ));
                        }
                    },
                    None => {
                        proof {
                            lemma_lookup_some_iff_index(s0, name@);
                        }
                        let ghost p = (name, item);
                        self.items.push((name, item));
                        proof {
                            let s1 = self.items@;
                            assert(s1 == s0.push(p));
                            assert forall|a: int, b: int| 0 <= a < b < s1.len() implies s1[a].0@
                                != s1[b].0@ by {
                                if b == s1.len() - 1 {
                                    assert(s1[a] == s0[a]);
                                } else {
                                    assert(s0[a].0@ != s0[b].0@);
                                }
                            }
                            assert forall|k: Seq<char>|
                                lookup_pairs(s1, k) == (if k == name@ {
                                    Some(item)
                                } else {
                                    lookup_pairs(s0, k)
                                }) by {
                                lemma_lookup_push(s0, p, k);
                            }
                            assert(pairs_map(s1) =~= pairs_map(s0).insert(name@, item));
                        }
                    },
                }
            },
        }
    }

    /// One tick of the aggregation loop: drain the batch of currently queued
    /// events into the accumulating map, in order, and emit exactly one
    /// snapshot holding the full map and the current done state.  The loop
    /// ends with the snapshot whose done flag is true.
    pub fn drain_tick(&mut self, events: Vec<CacheEvent>) -> (snap: CacheProgress)
        requires
            old(self).wf(),
        ensures
            final(self).wf(),
            final(self).version_id() == old(self).version_id(),
            final(self).kind() == old(self).kind(),
            final(self).items_map() == apply_events_model(
                old(self).items_map(),
                old(self).done(),
                events@,
            ).0,
            final(self).done() == apply_events_model(
                old(self).items_map(),
                old(self).done(),
                events@,
            ).1,
            snap.version_id == old(self).version_id(),
            snap.kind == old(self).kind(),
            snap.done == final(self).done(),
            snap.items@ == final(self).items(),
            pairs_keys_distinct(snap.items@),
    {
        let ghost target = apply_events_model(old(self).items_map(), old(self).done(), events@);
        let mut events = events;
        while events.len() > 0
            invariant
                self.wf(),
                self.version_id() == old(self).version_id(),
                self.kind() == old(self).kind(),
                apply_events_model(self.items_map(), self.done(), events@) == target,
            decreases events@.len(),
        {
            let ghost evs0 = events@;
            let e = events.remove(0);
            proof {
                assert(evs0.remove(0) =~= evs0.drop_first());
                assert(e == evs0[0]);
            }
            let ghost m0 = self.items_map();
            let ghost d0 = self.done();
            self.apply_event(e);
            proof {
                assert((self.items_map(), self.done()) == apply_event_model(m0, d0, e));
            }
        }
        let snap_items = clone_pairs(&self.items);
        CacheProgress {
            version_id: self.version_id,
            kind: self.kind,
            items: snap_items,
            done: self.done,
        }
    }

    /// The records accumulated so far, for callers and tests.
    pub fn current_items(&self) -> (r: Vec<(String, CacheProgressItem)>)
        ensures
            r@ == self.items(),
    {
        clone_pairs(&self.items)
    }

    /// Whether the terminal event has been seen, for callers and tests.
    pub fn is_done(&self) -> (r: bool)
        ensures
            r == self.done(),
    {
        self.done
    }
}

/// Duplicate item events for the same name update that name's record without
/// creating a duplicate entry: recording `first` and then `second` under one
/// name leaves the map that records `second` alone, over the same domain as
/// recording `first` alone.
pub proof fn lemma_duplicate_item_overwrites(
    m: Map<Seq<char>, CacheProgressItem>,
    name: Seq<char>,
    first: CacheProgressItem,
    second: CacheProgressItem,
)
    ensures
        m.insert(name, first).insert(name, second) == m.insert(name, second),
        m.insert(name, first).insert(name, second).dom() == m.insert(name, first).dom(),
{
    assert(m.insert(name, first).insert(name, second) =~= m.insert(name, second));
    assert(m.insert(name, first).insert(name, second).dom() =~= m.insert(name, first).dom());
}

/// Once the done flag is set it stays set: whatever events still arrive, the
/// aggregation loop's terminal snapshot is its last — no later batch can
/// clear `done`.
pub proof fn lemma_done_monotone(m: Map<Seq<char>, CacheProgressItem>, evs: Seq<CacheEvent>)
    ensures
        apply_events_model(m, true, evs).1,
    decreases evs.len(),
{
    if evs.len() > 0 {
        lemma_done_monotone(apply_event_model(m, true, evs[0]).0, evs.drop_first());
    }
}

} // verus!
