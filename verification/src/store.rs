//! Persistent key-value store adapter.
//!
//! The host offers a durable string-to-string store; the core addresses it
//! with flat keys built from an entity kind and an ID.  The adapter tracks
//! its own key listing so that housekeeping can enumerate stored records.

use vstd::prelude::*;
use vstd::hash_map::StringHashMap;
use vstd::string::*;

verus! {

/// Durable key-value store, viewed as a map from key to value.
pub struct Store {
    entries: StringHashMap<String>,
    keys: Vec<String>,
}

impl View for Store {
    type V = Map<Seq<char>, Seq<char>>;

    closed spec fn view(&self) -> Map<Seq<char>, Seq<char>> {
        self.entries@.map_values(|v: String| v@)
    }
}

impl Store {
    /// The tracked key listing names each stored key exactly once.
    pub closed spec fn wf(&self) -> bool {
        &&& forall|i: int, j: int|
            0 <= i < j < self.keys@.len() ==> self.keys@[i]@ != self.keys@[j]@
        &&& forall|i: int|
            0 <= i < self.keys@.len() ==> self.entries@.contains_key(#[trigger] self.keys@[i]@)
        &&& forall|k: Seq<char>|
            self.entries@.contains_key(k) ==> exists|i: int|
                0 <= i < self.keys@.len() && self.keys@[i]@ == k
    }

    proof fn lemma_view_dom(&self)
        ensures
            forall|k: Seq<char>| self@.contains_key(k) <==> self.entries@.contains_key(k),
            forall|k: Seq<char>|
                self.entries@.contains_key(k) ==> self@[k] == self.entries@[k]@,
    {
    }

    pub fn new() -> (r: Store)
        ensures
            r@ == Map::<Seq<char>, Seq<char>>::empty(),
            r.wf(),
    {
        let r = Store { entries: StringHashMap::new(), keys: Vec::new() };
        proof {
            assert(r@ =~= Map::<Seq<char>, Seq<char>>::empty());
        }
        r
    }

    /// Value stored under `key`, if any.
    pub fn get(&self, key: &str) -> (r: Option<String>)
        ensures
            match r {
                Some(v) => self@.contains_key(key@) && v@ == self@[key@],
                None => !self@.contains_key(key@),
            },
    {
        proof {
            self.lemma_view_dom();
        }
        match self.entries.get(key) {
            Some(v) => Some(v.clone()),
            None => None,
        }
    }

    /// Whether some value is stored under `key`.
    pub fn has_key(&self, key: &str) -> (r: bool)
        ensures
            r == self@.contains_key(key@),
    {
        proof {
            self.lemma_view_dom();
        }
        self.entries.contains_key(key)
    }

    /// Stores `value` under `key`, replacing any previous value.
    pub fn set(&mut self, key: &str, value: String)
        requires
            old(self).wf(),
        ensures
            final(self).wf(),
            final(self)@ == old(self)@.insert(key@, value@),
    {
        proof {
            self.lemma_view_dom();
        }
        if !self.entries.contains_key(key) {
            self.keys.push(String::from_str(key));
        }
        self.entries.insert(String::from_str(key), value);
        proof {
            assert(self@ =~= old(self)@.insert(key@, value@));
            assert forall|k: Seq<char>| self.entries@.contains_key(k) implies exists|i: int|
                0 <= i < self.keys@.len() && self.keys@[i]@ == k by {
                if k == key@ {
                    if old(self).entries@.contains_key(key@) {
                        let i = choose|i: int|
                            0 <= i < old(self).keys@.len() && old(self).keys@[i]@ == k;
                        assert(self.keys@[i]@ == k);
                    } else {
                        assert(self.keys@[self.keys@.len() - 1]@ == k);
                    }
                } else {
                    let i = choose|i: int|
                        0 <= i < old(self).keys@.len() && old(self).keys@[i]@ == k;
                    assert(self.keys@[i]@ == k);
                }
            }
        }
    }

    /// Removes any value stored under `key`.
    pub fn delete(&mut self, key: &str)
        requires
            old(self).wf(),
        ensures
            final(self).wf(),
            final(self)@ == old(self)@.remove(key@),
    {
        proof {
            self.lemma_view_dom();
        }
        if self.entries.contains_key(key) {
            let mut i: usize = 0;
            let n = self.keys.len();
            while !crate::text::str_eq(self.keys[i].as_str(), key)
                invariant
                    self.keys == old(self).keys,
                    self.entries == old(self).entries,
                    n == self.keys@.len(),
                    i < n,
                    forall|j: int| 0 <= j < i ==> self.keys@[j]@ != key@,
                    exists|j: int| i <= j < n && self.keys@[j]@ == key@,
                decreases n - i,
            {
                proof {
                    let j = choose|j: int| i <= j < n && self.keys@[j]@ == key@;
                    assert(j >= i + 1);
                }
                i += 1;
            }
            self.keys.swap_remove(i);
            self.entries.remove(key);
            proof {
                assert(self@ =~= old(self)@.remove(key@));
                assert forall|k: Seq<char>| self.entries@.contains_key(k) implies exists|j: int|
                    0 <= j < self.keys@.len() && self.keys@[j]@ == k by {
                    let j0 = choose|j: int|
                        0 <= j < old(self).keys@.len() && old(self).keys@[j]@ == k;
                    if j0 < self.keys@.len() {
                        if j0 == i {
                            assert(k == key@);
                        } else {
                            assert(self.keys@[j0]@ == k);
                        }
                    } else {
                        assert(j0 == old(self).keys@.len() - 1);
                        if i < self.keys@.len() {
                            assert(self.keys@[i as int]@ == k);
                        } else {
                            assert(k == key@);
                        }
                    }
                }
            }
        } else {
            proof {
                assert(self@ =~= old(self)@.remove(key@));
            }
        }
    }

    /// A copy of every stored key, each exactly once.
    pub fn stored_keys(&self) -> (r: Vec<String>)
        requires
            self.wf(),
        ensures
            forall|i: int, j: int| 0 <= i < j < r@.len() ==> r@[i]@ != r@[j]@,
            forall|i: int| 0 <= i < r@.len() ==> self@.contains_key(#[trigger] r@[i]@),
            forall|k: Seq<char>|
                self@.contains_key(k) ==> exists|i: int| 0 <= i < r@.len() && r@[i]@ == k,
    {
        proof {
            self.lemma_view_dom();
        }
        let mut r: Vec<String> = Vec::new();
        let n = self.keys.len();
        let mut i: usize = 0;
        while i < n
            invariant
                n == self.keys@.len(),
                i <= n,
                r@.len() == i,
                forall|j: int| 0 <= j < i ==> r@[j] == self.keys@[j],
            decreases n - i,
        {
            r.push(self.keys[i].clone());
            i += 1;
        }
        proof {
            assert forall|k: Seq<char>| self@.contains_key(k) implies exists|m: int|
                0 <= m < r@.len() && r@[m]@ == k by {
                let m = choose|m: int| 0 <= m < self.keys@.len() && self.keys@[m]@ == k;
                assert(r@[m]@ == k);
            }
        }
        r
    }
}

/// Store key for a unit's persisted task list.
pub open spec fn creep_key(name: Seq<char>) -> Seq<char> {
    "creeps:"@ + name
}

/// Store key for a colony's persisted stage.
pub open spec fn colony_key(room: Seq<char>) -> Seq<char> {
    "colony:"@ + room
}

/// Builds the store key for a unit's task list.
pub fn creep_key_of(name: &str) -> (r: String)
    ensures
        r@ == creep_key(name@),
{
    let mut s = String::from_str("creeps:");
    s.append(name);
    s
}

/// Builds the store key for a colony's stage.
pub fn colony_key_of(room: &str) -> (r: String)
    ensures
        r@ == colony_key(room@),
{
    let mut s = String::from_str("colony:");
    s.append(room);
    s
}

/// Whether a stored key addresses a unit's task record.
pub open spec fn is_creep_key(k: Seq<char>) -> bool {
    "creeps:"@.len() <= k.len() && k.take("creeps:"@.len() as int) == "creeps:"@
}

/// The unit name a unit-record key addresses.
pub open spec fn creep_key_name(k: Seq<char>) -> Seq<char> {
    k.skip("creeps:"@.len() as int)
}

/// Keys of the two kinds never collide, and each kind's keys are distinct
/// for distinct IDs.
pub proof fn lemma_key_scheme(a: Seq<char>, b: Seq<char>)
    ensures
        creep_key(a) != colony_key(b),
        a != b ==> creep_key(a) != creep_key(b),
        a != b ==> colony_key(a) != colony_key(b),
{
    reveal_strlit("creeps:");
    reveal_strlit("colony:");
    assert("creeps:"@.len() == 7);
    assert("colony:"@.len() == 7);
    assert(creep_key(a)[1] == 'r');
    assert(colony_key(b)[1] == 'o');
    if a != b {
        if creep_key(a) == creep_key(b) {
            assert(creep_key(a).len() == 7 + a.len());
            assert(creep_key(b).len() == 7 + b.len());
            assert(a.len() == b.len());
            assert(a =~= b) by {
                assert forall|m: int| 0 <= m < a.len() implies a[m] == b[m] by {
                    assert(creep_key(a)[7 + m] == a[m]);
                    assert(creep_key(b)[7 + m] == b[m]);
                }
            }
        }
        if colony_key(a) == colony_key(b) {
            assert(colony_key(a).len() == 7 + a.len());
            assert(colony_key(b).len() == 7 + b.len());
            assert(a.len() == b.len());
            assert(a =~= b) by {
                assert forall|m: int| 0 <= m < a.len() implies a[m] == b[m] by {
                    assert(colony_key(a)[7 + m] == a[m]);
                    assert(colony_key(b)[7 + m] == b[m]);
                }
            }
        }
    }
}

} // verus!
