//! Per-tick control core for an agent in a persistent-world simulation.
//!
//! The host invokes the program once per tick and hands it short-lived
//! listings of live objects; everything the program derives (classification,
//! task progress, colony stage) must survive across ticks on its own.  This
//! crate holds the tick-scoped snapshot types, the entity cache with its
//! reconciliation pass, the serializable task state machine, and the
//! persistent key-value store adapter.

pub mod codec;

pub mod colony;

pub mod creep;

pub mod game;

pub mod harvest;

pub mod host;

pub mod spawn;

pub mod store;

pub mod task;

pub mod text;

use vstd::prelude::*;
use vstd::string::*;
use crate::store::{creep_key_name, is_creep_key, Store};

verus! {

/// Whether the listing of living units carries the name `n`.
pub open spec fn alive_has(alive: Seq<String>, n: Seq<char>) -> bool {
    exists|i: int| 0 <= i < alive.len() && (#[trigger] alive[i])@ == n
}

/// Periodic housekeeping of the persistent store: deletes the task record
/// of every unit that is no longer alive.  A record survives exactly when
/// it is not a unit record, or its unit is still listed; surviving records
/// keep their values.
pub fn cleanup_memory(store: &mut Store, alive: &Vec<String>)
    requires
        old(store).wf(),
    ensures
        final(store).wf(),
        forall|k: Seq<char>| #[trigger] final(store)@.contains_key(k) ==> final(store)@[k]
            == old(store)@[k],
        forall|k: Seq<char>|
            #[trigger] final(store)@.contains_key(k) <==> (old(store)@.contains_key(k) && (
            is_creep_key(k) ==> alive_has(alive@, creep_key_name(k)))),
{
    let keys = store.stored_keys();
    let nkeys = keys.len();
    let mut i: usize = 0;
    while i < nkeys
        invariant
            old(store).wf(),
            store.wf(),
            nkeys == keys@.len(),
            i <= nkeys,
            forall|a: int, b: int| 0 <= a < b < nkeys ==> keys@[a]@ != keys@[b]@,
            forall|a: int| 0 <= a < nkeys ==> old(store)@.contains_key(#[trigger] keys@[a]@),
            forall|k: Seq<char>|
                old(store)@.contains_key(k) ==> exists|a: int|
                    0 <= a < nkeys && keys@[a]@ == k,
            forall|k: Seq<char>| #[trigger] store@.contains_key(k) ==> old(store)@.contains_key(
                k,
            ) && store@[k] == old(store)@[k],
            forall|a: int|
                0 <= a < i ==> (store@.contains_key(#[trigger] keys@[a]@) <==> (is_creep_key(
                    keys@[a]@,
                ) ==> alive_has(alive@, creep_key_name(keys@[a]@)))),
            forall|a: int| i <= a < nkeys ==> store@.contains_key(#[trigger] keys@[a]@),
        decreases nkeys - i,
    {
        let key = &keys[i];
        let klen = key.as_str().unicode_len();
        let plen = "creeps:".unicode_len();
        if crate::text::has_prefix(key.as_str(), "creeps:") {
            let name = key.as_str().substring_char(plen, klen);
            proof {
                assert(name@ =~= creep_key_name(key@));
            }
            let mut found = false;
            let nalive = alive.len();
            let mut j: usize = 0;
            while j < nalive && !found
                invariant
                    nalive == alive@.len(),
                    j <= nalive,
                    found ==> alive_has(alive@, name@),
                    !found ==> forall|m: int| 0 <= m < j ==> (#[trigger] alive@[m])@ != name@,
                decreases nalive - j,
            {
                if crate::text::str_eq(alive[j].as_str(), name) {
                    found = true;
                }
                j += 1;
            }
            if !found {
                store.delete(key.as_str());
            }
        } else {
            proof {
                assert(!is_creep_key(key@));
            }
        }
        proof {
            assert forall|a: int|
                0 <= a < i + 1 implies (store@.contains_key(#[trigger] keys@[a]@) <==> (
            is_creep_key(keys@[a]@) ==> alive_has(alive@, creep_key_name(keys@[a]@)))) by {
                if a < i {
                    assert(keys@[a]@ != keys@[i as int]@);
                }
            }
        }
        i += 1;
    }
    proof {
        assert forall|k: Seq<char>|
            #[trigger] store@.contains_key(k) <==> (old(store)@.contains_key(k) && (
        is_creep_key(k) ==> alive_has(alive@, creep_key_name(k)))) by {
            if old(store)@.contains_key(k) {
                let a = choose|a: int| 0 <= a < nkeys && (#[trigger] keys@[a])@ == k;
            }
        }
    }
}

} // verus!
