//! ConnectionRegistry: the admitted connections, by handle.
//!
//! The registry is the sole authority on which connections are currently
//! admitted. Each entry has a unique handle and exactly one current state.
//! `remove` is idempotent: removing an absent handle changes nothing.

use vstd::prelude::*;

verus! {

/// Lifecycle state of a connection attempt.
///
/// `Pending` describes an attempt whose admission decision is not yet made;
/// only admitted connections enter the registry, as `Active`. A connection
/// that finishes closing becomes `Closed` and is evicted at that moment, so
/// the registry never holds a `Closed` entry.
#[derive(Clone, Copy, PartialEq, Eq, Structural, Debug)]
pub enum ConnectionState {
    Pending,
    Active,
    Closed,
}

/// The only lifecycle transitions an admitted connection may take.
pub open spec fn valid_transition(from: ConnectionState, to: ConnectionState) -> bool {
    (from is Pending && to is Active) || (from is Active && to is Closed)
}

/// The admitted connections, modelled as a finite map from handle to state.
pub struct ConnectionRegistry {
    entries: Vec<(u64, ConnectionState)>,
}

/// The map a sequence of entries denotes; later entries would win, but the
/// registry keeps its keys unique.
pub open spec fn map_of(s: Seq<(u64, ConnectionState)>) -> Map<u64, ConnectionState>
    decreases s.len(),
{
    if s.len() == 0 {
        Map::empty()
    } else {
        map_of(s.drop_last()).insert(s.last().0, s.last().1)
    }
}

pub open spec fn keys_unique(s: Seq<(u64, ConnectionState)>) -> bool {
    forall|i: int, j: int| 0 <= i < j < s.len() ==> s[i].0 != s[j].0
}

pub proof fn lemma_map_of_dom(s: Seq<(u64, ConnectionState)>)
    ensures
        forall|h: u64| map_of(s).dom().contains(h) <==> exists|i: int| 0 <= i < s.len() && s[i].0 == h,
    decreases s.len(),
{
    if s.len() > 0 {
        lemma_map_of_dom(s.drop_last());
        assert forall|h: u64| map_of(s).dom().contains(h)
            implies exists|i: int| 0 <= i < s.len() && s[i].0 == h by {
            if h == s.last().0 {
                assert(s[s.len() - 1].0 == h);
            } else {
                assert(map_of(s.drop_last()).dom().contains(h));
                let i = choose|i: int| 0 <= i < s.drop_last().len() && s.drop_last()[i].0 == h;
                assert(s.drop_last()[i] == s[i]);
                assert(s[i].0 == h);
            }
        }
        assert forall|h: u64| (exists|i: int| 0 <= i < s.len() && s[i].0 == h)
            implies map_of(s).dom().contains(h) by {
            let i = choose|i: int| 0 <= i < s.len() && s[i].0 == h;
            if i == s.len() - 1 {
                assert(h == s.last().0);
                assert(map_of(s).dom().contains(s.last().0));
            } else {
                assert(s.drop_last()[i].0 == h);
                assert(exists|k: int| 0 <= k < s.drop_last().len() && s.drop_last()[k].0 == h);
                assert(map_of(s.drop_last()).dom().contains(h));
                assert(map_of(s).dom() == map_of(s.drop_last()).dom().insert(s.last().0));
            }
        }
    }
}

pub proof fn lemma_map_of_get(s: Seq<(u64, ConnectionState)>, i: int)
    requires
        keys_unique(s),
        0 <= i < s.len(),
    ensures
        map_of(s).dom().contains(s[i].0),
        map_of(s)[s[i].0] == s[i].1,
    decreases s.len(),
{
    lemma_map_of_dom(s);
    if i < s.len() - 1 {
        assert(s.drop_last()[i] == s[i]);
        lemma_map_of_get(s.drop_last(), i);
        assert(s.last().0 != s[i].0);
    }
}

pub proof fn lemma_map_of_finite_len(s: Seq<(u64, ConnectionState)>)
    requires
        keys_unique(s),
    ensures
        map_of(s).dom().finite(),
        map_of(s).dom().len() == s.len(),
    decreases s.len(),
{
    if s.len() == 0 {
        assert(map_of(s).dom() =~= Set::<u64>::empty());
    } else {
        lemma_map_of_finite_len(s.drop_last());
        lemma_map_of_dom(s.drop_last());
        assert(!map_of(s.drop_last()).dom().contains(s.last().0));
        assert(map_of(s).dom() =~= map_of(s.drop_last()).dom().insert(s.last().0));
    }
}

pub proof fn lemma_map_of_remove(s: Seq<(u64, ConnectionState)>, i: int)
    requires
        keys_unique(s),
        0 <= i < s.len(),
    ensures
        map_of(s.remove(i)) =~= map_of(s).remove(s[i].0),
    decreases s.len(),
{
    lemma_map_of_dom(s);
    lemma_map_of_dom(s.remove(i));
    if i == s.len() - 1 {
        assert(s.remove(i) =~= s.drop_last());
        lemma_map_of_dom(s.drop_last());
        assert(!map_of(s.drop_last()).dom().contains(s.last().0));
        assert(map_of(s.drop_last()) =~= map_of(s.drop_last()).insert(s.last().0, s.last().1).remove(s.last().0));
    } else {
        assert(s.remove(i).drop_last() =~= s.drop_last().remove(i));
        assert(s.remove(i).last() == s.last());
        lemma_map_of_remove(s.drop_last(), i);
        assert(map_of(s.remove(i))
            == map_of(s.drop_last().remove(i)).insert(s.last().0, s.last().1));
        assert(s[i].0 != s.last().0);
        assert(map_of(s.drop_last()).remove(s[i].0).insert(s.last().0, s.last().1)
            =~= map_of(s.drop_last()).insert(s.last().0, s.last().1).remove(s[i].0));
    }
}

impl ConnectionRegistry {
    /// The registry's well-formedness: no two entries share a handle.
    pub closed spec fn wf(&self) -> bool {
        keys_unique(self.entries@)
    }

    pub closed spec fn view(&self) -> Map<u64, ConnectionState> {
        map_of(self.entries@)
    }

    pub fn new() -> (r: Self)
        ensures
            r.wf(),
            r@ == Map::<u64, ConnectionState>::empty(),
    {
        ConnectionRegistry { entries: Vec::new() }
    }

    /// How many connections are admitted.
    pub fn len(&self) -> (r: usize)
        requires
            self.wf(),
        ensures
            r == self@.dom().len(),
    {
        proof {
            lemma_map_of_finite_len(self.entries@);
        }
        self.entries.len()
    }

    pub fn contains(&self, handle: u64) -> (r: bool)
        ensures
            r == self@.dom().contains(handle),
    {
        let mut i: usize = 0;
        while i < self.entries.len()
            invariant
                i <= self.entries@.len(),
                forall|j: int| 0 <= j < i ==> self.entries@[j].0 != handle,
            decreases self.entries@.len() - i,
        {
            if self.entries[i].0 == handle {
                proof {
                    lemma_map_of_dom(self.entries@);
                }
                return true;
            }
            i = i + 1;
        }
        proof {
            lemma_map_of_dom(self.entries@);
        }
        false
    }

    /// The state recorded under a handle, if any.
    pub fn get(&self, handle: u64) -> (r: Option<ConnectionState>)
        requires
            self.wf(),
        ensures
            match r {
                Some(st) => self@.dom().contains(handle) && self@[handle] == st,
                None => !self@.dom().contains(handle),
            },
    {
        let mut i: usize = 0;
        while i < self.entries.len()
            invariant
                self.wf(),
                i <= self.entries@.len(),
                forall|j: int| 0 <= j < i ==> self.entries@[j].0 != handle,
            decreases self.entries@.len() - i,
        {
            if self.entries[i].0 == handle {
                proof {
                    lemma_map_of_get(self.entries@, i as int);
                }
                return Some(self.entries[i].1);
            }
            i = i + 1;
        }
        proof {
            lemma_map_of_dom(self.entries@);
        }
        None
    }

    /// Track a new connection. No two insertions may share a handle, so the
    /// handle must not be present.
    pub fn insert(&mut self, handle: u64, state: ConnectionState)
        requires
            old(self).wf(),
            !old(self)@.dom().contains(handle),
        ensures
            final(self).wf(),
            final(self)@ == old(self)@.insert(handle, state),
    {
        proof {
            lemma_map_of_dom(self.entries@);
            assert(!(exists|k: int|
                0 <= k < self.entries@.len() && self.entries@[k].0 == handle));
        }
        self.entries.push((handle, state));
        proof {
            assert(self.entries@.drop_last() =~= old(self).entries@);
            assert forall|a: int, b: int| 0 <= a < b < self.entries@.len()
                implies self.entries@[a].0 != self.entries@[b].0 by {
                if b == self.entries@.len() - 1 {
                    assert(old(self).entries@[a].0 != handle);
                }
            }
        }
    }

    /// Stop tracking a handle. Idempotent: removing an absent handle is a
    /// no-op, not an error.
    pub fn remove(&mut self, handle: u64)
        requires
            old(self).wf(),
        ensures
            final(self).wf(),
            final(self)@ == old(self)@.remove(handle),
    {
        let mut i: usize = 0;
        while i < self.entries.len()
            invariant
                old(self).wf(),
                i <= self.entries@.len(),
                self.entries@ == old(self).entries@,
                forall|j: int| 0 <= j < i ==> self.entries@[j].0 != handle,
            decreases self.entries@.len() - i,
        {
            if self.entries[i].0 == handle {
                proof {
                    lemma_map_of_remove(self.entries@, i as int);
                }
                self.entries.remove(i);
                proof {
                    let s = old(self).entries@;
                    assert forall|a: int, b: int| 0 <= a < b < s.remove(i as int).len()
                        implies s.remove(i as int)[a].0 != s.remove(i as int)[b].0 by {
                        if a < i {
                            assert(s.remove(i as int)[a] == s[a]);
                        } else {
                            assert(s.remove(i as int)[a] == s[a + 1]);
                        }
                        if b < i {
                            assert(s.remove(i as int)[b] == s[b]);
                        } else {
                            assert(s.remove(i as int)[b] == s[b + 1]);
                        }
                    }
                }
                return;
            }
            i = i + 1;
        }
        proof {
            lemma_map_of_dom(self.entries@);
            assert(!self@.dom().contains(handle));
            assert(self@ =~= self@.remove(handle));
        }
    }
}

} // verus!
