//! Colony wrappers: clusters of structures bound to one region.
//!
//! A colony is created lazily the first time a structure of an unseen region
//! is observed, and never destroyed within a session.  Its stage is
//! persisted and only ever advances through an explicit transition; it never
//! regresses on its own.  The member roster records registrations in order
//! and does not deduplicate: registering one structure twice keeps both
//! entries, a known limitation of the current scope.

use vstd::prelude::*;
use vstd::string::*;
use crate::store::{colony_key, colony_key_of, Store};

verus! {

/// Lifecycle stage of a colony, persisted across ticks.
#[derive(Clone, Copy, PartialEq, Eq, Structural, Debug)]
pub enum ColonyStage {
    Bootstrap,
    Running,
}

/// Persisted name of each stage.
pub open spec fn spec_stage_str(s: ColonyStage) -> Seq<char> {
    match s {
        ColonyStage::Bootstrap => "bootstrap"@,
        ColonyStage::Running => "running"@,
    }
}

/// Stage named by a persisted string; anything unrecognized falls back to
/// `Bootstrap`.
pub open spec fn spec_stage_from(s: Seq<char>) -> ColonyStage {
    if s == "running"@ {
        ColonyStage::Running
    } else {
        ColonyStage::Bootstrap
    }
}

/// The stage the store holds for a region, `Bootstrap` when none is stored.
pub open spec fn spec_stage_for(st: Map<Seq<char>, Seq<char>>, room: Seq<char>) -> ColonyStage {
    if st.contains_key(colony_key(room)) {
        spec_stage_from(st[colony_key(room)])
    } else {
        ColonyStage::Bootstrap
    }
}

impl ColonyStage {
    /// Stage named by a persisted string; unrecognized means `Bootstrap`.
    pub fn from_string(stage: String) -> (r: ColonyStage)
        ensures
            r == spec_stage_from(stage@),
    {
        if crate::text::str_eq(stage.as_str(), "running") {
            ColonyStage::Running
        } else {
            ColonyStage::Bootstrap
        }
    }

    /// The stage's persisted name.
    pub fn as_str(&self) -> (r: &str)
        ensures
            r@ == spec_stage_str(*self),
    {
        match self {
            ColonyStage::Bootstrap => "bootstrap",
            ColonyStage::Running => "running",
        }
    }
}

/// Ghost image of a [`Colony`].
#[verifier::ext_equal]
pub struct ColonyV {
    pub name: Seq<char>,
    pub stage: ColonyStage,
    pub spawns: Seq<Seq<char>>,
}

/// A cluster of structures bound to one region, keyed by the region's ID.
pub struct Colony {
    name: String,
    stage: ColonyStage,
    spawns: Vec<String>,
}

impl View for Colony {
    type V = ColonyV;

    closed spec fn view(&self) -> ColonyV {
        ColonyV {
            name: self.name@,
            stage: self.stage,
            spawns: self.spawns@.map_values(|s: String| s@),
        }
    }
}

impl Clone for Colony {
    fn clone(&self) -> (r: Self)
        ensures
            r@ == self@,
    {
        let mut spawns: Vec<String> = Vec::new();
        let n = self.spawns.len();
        let mut i: usize = 0;
        while i < n
            invariant
                n == self.spawns@.len(),
                i <= n,
                spawns@.len() == i,
                forall|j: int| 0 <= j < i ==> spawns@[j] == self.spawns@[j],
            decreases n - i,
        {
            spawns.push(self.spawns[i].clone());
            i += 1;
        }
        let r = Colony { name: self.name.clone(), stage: self.stage, spawns };
        proof {
            assert(r@.spawns =~= self@.spawns);
            assert(r@ =~= self@);
        }
        r
    }
}

impl Colony {
    /// Creates the colony for a region first observed this tick: the stage
    /// comes from the store, and a region with no stored stage starts at
    /// `Bootstrap`, persisted immediately.
    pub fn from(room_id: String, store: &mut Store) -> (r: Colony)
        requires
            old(store).wf(),
        ensures
            final(store).wf(),
            r@.name == room_id@,
            r@.stage == spec_stage_for(old(store)@, room_id@),
            r@.spawns == Seq::<Seq<char>>::empty(),
            final(store)@ == if old(store)@.contains_key(colony_key(room_id@)) {
                old(store)@
            } else {
                old(store)@.insert(colony_key(room_id@), "bootstrap"@)
            },
    {
        let key = colony_key_of(room_id.as_str());
        let stage = match store.get(key.as_str()) {
            Some(v) => ColonyStage::from_string(v),
            None => {
                store.set(key.as_str(), String::from_str("bootstrap"));
                ColonyStage::Bootstrap
            },
        };
        let r = Colony { name: room_id, stage, spawns: Vec::new() };
        proof {
            assert(r@.spawns =~= Seq::<Seq<char>>::empty());
        }
        r
    }

    /// Appends a structure to the member roster.  Membership is not
    /// deduplicated: a second registration of the same ID is kept.
    pub fn register_spawn(&mut self, spawn_id: String)
        ensures
            final(self)@ == (ColonyV {
                spawns: old(self)@.spawns.push(spawn_id@),
                ..old(self)@
            }),
    {
        self.spawns.push(spawn_id);
        proof {
            assert(self@.spawns =~= old(self)@.spawns.push(self.spawns@.last()@));
        }
    }

    /// The explicit stage transition: advances to `Running` and persists the
    /// new stage.  The write is idempotent, and nothing else ever moves a
    /// stage backwards.
    pub fn advance_stage(&mut self, store: &mut Store)
        requires
            old(store).wf(),
        ensures
            final(store).wf(),
            final(self)@ == (ColonyV { stage: ColonyStage::Running, ..old(self)@ }),
            final(store)@ == old(store)@.insert(colony_key(old(self)@.name), "running"@),
    {
        self.stage = ColonyStage::Running;
        let key = colony_key_of(self.name.as_str());
        store.set(key.as_str(), String::from_str("running"));
    }

    /// The region ID that keys this colony.
    pub fn name(&self) -> (r: &String)
        ensures
            r@ == self@.name,
    {
        &self.name
    }

    /// The colony's current stage.
    pub fn stage(&self) -> (r: &ColonyStage)
        ensures
            *r == self@.stage,
    {
        &self.stage
    }

    /// The region ID (the same key `name` answers).
    pub fn room(&self) -> (r: &String)
        ensures
            r@ == self@.name,
    {
        &self.name
    }

    /// The member roster, in registration order.
    pub fn spawns(&self) -> (r: &Vec<String>)
        ensures
            r@.map_values(|s: String| s@) == self@.spawns,
    {
        &self.spawns
    }
}

} // verus!
