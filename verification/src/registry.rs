//! Session registry: the single shared table from session identifier to
//! channel.
//!
//! The registry is generic in the channel value it stores, so the same
//! verified table serves whatever handle bundle the host keeps per session.
//! Its model is a map from the identifier's characters to that value.

use vstd::prelude::*;

verus! {

struct RegistryEntry<T> {
    id: String,
    chan: T,
}

/// The table of live sessions.
///
/// Every lifecycle mutation goes through this table; an identifier is the
/// sole key for routing write, resize and close requests.
pub struct SessionRegistry<T> {
    entries: Vec<RegistryEntry<T>>,
    model: Ghost<Map<Seq<char>, T>>,
}

impl<T> View for SessionRegistry<T> {
    type V = Map<Seq<char>, T>;

    closed spec fn view(&self) -> Map<Seq<char>, T> {
        self.model@
    }
}

impl<T> SessionRegistry<T> {
    /// The registry's bookkeeping is consistent: identifiers are unique and
    /// the stored entries carry exactly the sessions of the model map.
    pub closed spec fn inv(&self) -> bool {
        &&& forall|i: int, j: int|
            0 <= i < self.entries@.len() && 0 <= j < self.entries@.len() && i != j
                ==> #[trigger] self.entries@[i].id@ != #[trigger] self.entries@[j].id@
        &&& forall|k: Seq<char>|
            #[trigger] self.model@.contains_key(k)
                ==> exists|i: int| 0 <= i < self.entries@.len() && #[trigger] self.entries@[i].id@ == k
        &&& forall|i: int|
            0 <= i < self.entries@.len()
                ==> #[trigger] self.model@.contains_key(self.entries@[i].id@)
                    && self.model@[self.entries@[i].id@] == self.entries@[i].chan
    }

    /// An empty registry.
    pub fn new() -> (r: Self)
        ensures
            r.inv(),
            r@ == Map::<Seq<char>, T>::empty(),
    {
        SessionRegistry { entries: Vec::new(), model: Ghost(Map::empty()) }
    }

    /// The index of the entry that carries `id`, if one does.
    fn find_index(&self, id: &String) -> (r: Option<usize>)
        ensures
            match r {
                Some(i) => i < self.entries@.len() && self.entries@[i as int].id@ == id@,
                None => forall|i: int|
                    0 <= i < self.entries@.len() ==> #[trigger] self.entries@[i].id@ != id@,
            },
    {
        let mut i: usize = 0;
        while i < self.entries.len()
            invariant
                i <= self.entries@.len(),
                forall|j: int| 0 <= j < i ==> #[trigger] self.entries@[j].id@ != id@,
            decreases self.entries@.len() - i,
        {
            if self.entries[i].id == *id {
                return Some(i);
            }
            i += 1;
        }
        None
    }

    /// Whether a session is open under `id`.
    pub fn contains(&self, id: &String) -> (r: bool)
        requires
            self.inv(),
        ensures
            r == self@.contains_key(id@),
    {
        self.find_index(id).is_some()
    }

    /// Borrow the channel stored under `id`.
    pub fn get(&self, id: &String) -> (r: Option<&T>)
        requires
            self.inv(),
        ensures
            self@.contains_key(id@) ==> (r matches Some(c) && *c == self@[id@]),
            !self@.contains_key(id@) ==> r is None,
    {
        match self.find_index(id) {
            Some(i) => Some(&self.entries[i].chan),
            None => None,
        }
    }

    /// Remove the entry under `id` and hand its channel back, if one was
    /// there; absent identifiers leave the registry untouched.
    pub fn take(&mut self, id: &String) -> (r: Option<T>)
        requires
            old(self).inv(),
        ensures
            final(self).inv(),
            final(self)@ == old(self)@.remove(id@),
            old(self)@.contains_key(id@) ==> (r matches Some(c) && c == old(self)@[id@]),
            !old(self)@.contains_key(id@) ==> r is None && *final(self) == *old(self),
    {
        match self.find_index(id) {
            Some(i) => {
                let ghost s_old = self.entries@;
                let ghost m_old = self.model@;
                let entry = self.entries.remove(i);
                self.model = Ghost(self.model@.remove(id@));
                proof {
                    assert(s_old == old(self).entries@ && m_old == old(self).model@);
                    assert(s_old[i as int].id@ == id@);
                    lemma_registry_remove(s_old, m_old, i as int);
                    assert(self.entries@ == s_old.remove(i as int));
                    assert(self.model@ == m_old.remove(id@));
                }
                Some(entry.chan)
            },
            None => {
                proof {
                    assert(!self.model@.contains_key(id@));
                    assert(self.model@.remove(id@) =~= self.model@);
                }
                None
            },
        }
    }

    /// Store `chan` under `id`.
    ///
    /// A still-open session under the same identifier is silently replaced;
    /// its old channel is dropped. Whether a duplicate open should instead be
    /// rejected is left to the caller, which can test `contains` first.
    pub fn insert(&mut self, id: String, chan: T)
        requires
            old(self).inv(),
        ensures
            final(self).inv(),
            final(self)@ == old(self)@.insert(id@, chan),
    {
        let ghost id_chars = id@;
        let ghost chan_val = chan;
        let _previous = self.take(&id);
        let ghost s_mid = self.entries@;
        let ghost m_mid = self.model@;
        self.entries.push(RegistryEntry { id, chan });
        self.model = Ghost(self.model@.insert(id_chars, chan_val));
        proof {
            assert(!m_mid.contains_key(id_chars));
            assert forall|p: int| 0 <= p < s_mid.len() implies #[trigger] s_mid[p].id@
                != id_chars by {
                assert(m_mid.contains_key(s_mid[p].id@));
            }
            assert forall|p: int, q: int|
                0 <= p < self.entries@.len() && 0 <= q < self.entries@.len() && p
                    != q implies #[trigger] self.entries@[p].id@ != #[trigger] self.entries@[q].id@ by {
                if p < s_mid.len() && q < s_mid.len() {
                    assert(self.entries@[p] == s_mid[p] && self.entries@[q] == s_mid[q]);
                } else if p == s_mid.len() {
                    assert(self.entries@[q] == s_mid[q] && self.entries@[p].id@ == id_chars);
                } else {
                    assert(self.entries@[p] == s_mid[p] && self.entries@[q].id@ == id_chars);
                }
            }
            assert forall|k: Seq<char>| #[trigger] self.model@.contains_key(k) implies exists|i: int|
                0 <= i < self.entries@.len() && #[trigger] self.entries@[i].id@ == k by {
                if k == id_chars {
                    assert(self.entries@[s_mid.len() as int].id@ == k);
                } else {
                    assert(m_mid.contains_key(k));
                    let i = choose|i: int| 0 <= i < s_mid.len() && #[trigger] s_mid[i].id@ == k;
                    assert(self.entries@[i].id@ == k);
                }
            }
            assert forall|i: int| 0 <= i < self.entries@.len() implies #[trigger] self
                .model@
                .contains_key(self.entries@[i].id@) && self.model@[self.entries@[i].id@]
                == self.entries@[i].chan by {
                if i < s_mid.len() {
                    assert(self.entries@[i] == s_mid[i]);
                    assert(m_mid.contains_key(s_mid[i].id@) && m_mid[s_mid[i].id@]
                        == s_mid[i].chan);
                    assert(s_mid[i].id@ != id_chars);
                }
            }
            assert(old(self)@.remove(id_chars).insert(id_chars, chan_val) =~= old(self)@.insert(
                id_chars,
                chan_val,
            ));
        }
    }
}

/// After removing the entry at `i`, the remaining entries still have unique
/// identifiers and still carry exactly the sessions of the model map with
/// that entry's identifier removed.
proof fn lemma_registry_remove<T>(s: Seq<RegistryEntry<T>>, m: Map<Seq<char>, T>, i: int)
    requires
        0 <= i < s.len(),
        forall|p: int, q: int|
            0 <= p < s.len() && 0 <= q < s.len() && p != q ==> #[trigger] s[p].id@
                != #[trigger] s[q].id@,
        forall|k: Seq<char>|
            #[trigger] m.contains_key(k) ==> exists|p: int| 0 <= p < s.len() && #[trigger] s[p].id@
                == k,
        forall|p: int|
            0 <= p < s.len() ==> #[trigger] m.contains_key(s[p].id@) && m[s[p].id@] == s[p].chan,
    ensures
        forall|p: int, q: int|
            0 <= p < s.remove(i).len() && 0 <= q < s.remove(i).len() && p != q ==> #[trigger] s.remove(
                i,
            )[p].id@ != #[trigger] s.remove(i)[q].id@,
        forall|k: Seq<char>|
            #[trigger] m.remove(s[i].id@).contains_key(k) ==> exists|p: int|
                0 <= p < s.remove(i).len() && #[trigger] s.remove(i)[p].id@ == k,
        forall|p: int|
            0 <= p < s.remove(i).len() ==> #[trigger] m.remove(s[i].id@).contains_key(
                s.remove(i)[p].id@,
            ) && m.remove(s[i].id@)[s.remove(i)[p].id@] == s.remove(i)[p].chan,
{
    s.remove_ensures(i);
    let s2 = s.remove(i);
    assert forall|p: int| 0 <= p < s2.len() implies #[trigger] s2[p] == s[if p < i {
        p
    } else {
        p + 1
    }] by {}
    assert forall|k: Seq<char>| #[trigger] m.remove(s[i].id@).contains_key(k) implies exists|p: int|
        0 <= p < s2.len() && #[trigger] s2[p].id@ == k by {
        let p = choose|p: int| 0 <= p < s.len() && #[trigger] s[p].id@ == k;
        assert(p != i);
        if p < i {
            assert(s2[p].id@ == k);
        } else {
            assert(s2[p - 1].id@ == k);
        }
    }
    assert forall|p: int| 0 <= p < s2.len() implies #[trigger] m.remove(s[i].id@).contains_key(
        s2[p].id@,
    ) && m.remove(s[i].id@)[s2[p].id@] == s2[p].chan by {
        let orig = if p < i {
            p
        } else {
            p + 1
        };
        assert(s2[p] == s[orig]);
        assert(orig != i);
        assert(s[orig].id@ != s[i].id@);
        assert(m.contains_key(s[orig].id@) && m[s[orig].id@] == s[orig].chan);
    }
}

} // verus!
