//! The root registry and its per-tick reconciliation pass.
//!
//! The registry owns one map per entity kind, keyed by the host's stable ID.
//! Each tick the driver hands in the live listings; `refresh_state` inserts
//! wrappers for newly observed IDs, rebinds the snapshot fields of cached
//! ones, and evicts whatever vanished from the listing — the listing is
//! ground truth for existence.  Inserting a spawn also registers it with its
//! region's colony, creating the colony on first sight of the region.

use vstd::prelude::*;
use vstd::hash_map::StringHashMap;
use vstd::string::*;
use crate::colony::{spec_stage_for, Colony, ColonyV};
use crate::creep::{
    spec_fresh_creep, spec_raw_for, spec_refreshed_creep, Creep, CreepV, Job,
};
use crate::host::{CreepHandle, SpawnHandle};
use crate::spawn::{spec_spawn_of, Spawn, SpawnV};
use crate::store::{colony_key, lemma_key_scheme, Store};

verus! {

/// Units with no more remaining lifetime than this count as almost expired
/// and are skipped when only active units are asked for.
pub const CONSIDER_CREEP_EXPIRED_AT: u32 = 150;

/// Whether the live unit listing carries the name `n`.
pub open spec fn listing_has_creep(hs: Seq<CreepHandle>, n: Seq<char>) -> bool {
    exists|i: int| 0 <= i < hs.len() && (#[trigger] hs[i]).name@ == n
}

/// The listed handle carrying the name `n`.
pub open spec fn creep_listing_at(hs: Seq<CreepHandle>, n: Seq<char>) -> CreepHandle {
    hs[choose|i: int| 0 <= i < hs.len() && (#[trigger] hs[i]).name@ == n]
}

/// A listing names each unit at most once.
pub open spec fn distinct_creep_names(hs: Seq<CreepHandle>) -> bool {
    forall|i: int, j: int| 0 <= i < j < hs.len() ==> hs[i].name@ != hs[j].name@
}

/// Every handle in the listing is well-formed.
pub open spec fn wf_creep_handles(hs: Seq<CreepHandle>) -> bool {
    forall|i: int| 0 <= i < hs.len() ==> (#[trigger] hs[i]).wf()
}

/// Whether the live spawn listing carries the name `n`.
pub open spec fn listing_has_spawn(hs: Seq<SpawnHandle>, n: Seq<char>) -> bool {
    exists|i: int| 0 <= i < hs.len() && (#[trigger] hs[i]).name@ == n
}

/// The listed spawn handle carrying the name `n`.
pub open spec fn spawn_listing_at(hs: Seq<SpawnHandle>, n: Seq<char>) -> SpawnHandle {
    hs[choose|i: int| 0 <= i < hs.len() && (#[trigger] hs[i]).name@ == n]
}

/// A listing names each spawn at most once.
pub open spec fn distinct_spawn_names(hs: Seq<SpawnHandle>) -> bool {
    forall|i: int, j: int| 0 <= i < j < hs.len() ==> hs[i].name@ != hs[j].name@
}

proof fn lemma_creep_listing_at(hs: Seq<CreepHandle>, k: int)
    requires
        distinct_creep_names(hs),
        0 <= k < hs.len(),
    ensures
        listing_has_creep(hs, hs[k].name@),
        creep_listing_at(hs, hs[k].name@) == hs[k],
{
    assert(0 <= k < hs.len() && hs[k].name@ == hs[k].name@);
    let j = choose|i: int| 0 <= i < hs.len() && (#[trigger] hs[i]).name@ == hs[k].name@;
    if j != k {
        assert(false);
    }
}

proof fn lemma_spawn_listing_at(hs: Seq<SpawnHandle>, k: int)
    requires
        distinct_spawn_names(hs),
        0 <= k < hs.len(),
    ensures
        listing_has_spawn(hs, hs[k].name@),
        spawn_listing_at(hs, hs[k].name@) == hs[k],
{
    assert(0 <= k < hs.len() && hs[k].name@ == hs[k].name@);
    let j = choose|i: int| 0 <= i < hs.len() && (#[trigger] hs[i]).name@ == hs[k].name@;
    if j != k {
        assert(false);
    }
}

proof fn lemma_creep_listing_push(hs: Seq<CreepHandle>, h: CreepHandle, m: Seq<char>)
    ensures
        listing_has_creep(hs.push(h), m) <==> listing_has_creep(hs, m) || h.name@ == m,
{
    if listing_has_creep(hs, m) {
        let i = choose|i: int| 0 <= i < hs.len() && (#[trigger] hs[i]).name@ == m;
        assert(hs.push(h)[i].name@ == m);
    }
    if h.name@ == m {
        assert(hs.push(h)[hs.len() as int].name@ == m);
    }
    if listing_has_creep(hs.push(h), m) {
        let i = choose|i: int|
            0 <= i < hs.push(h).len() && (#[trigger] hs.push(h)[i]).name@ == m;
        if i < hs.len() {
            assert(hs[i].name@ == m);
        } else {
            assert(hs.push(h)[i] == h);
        }
    }
}

proof fn lemma_spawn_listing_push(hs: Seq<SpawnHandle>, h: SpawnHandle, m: Seq<char>)
    ensures
        listing_has_spawn(hs.push(h), m) <==> listing_has_spawn(hs, m) || h.name@ == m,
{
    if listing_has_spawn(hs, m) {
        let i = choose|i: int| 0 <= i < hs.len() && (#[trigger] hs[i]).name@ == m;
        assert(hs.push(h)[i].name@ == m);
    }
    if h.name@ == m {
        assert(hs.push(h)[hs.len() as int].name@ == m);
    }
    if listing_has_spawn(hs.push(h), m) {
        let i = choose|i: int|
            0 <= i < hs.push(h).len() && (#[trigger] hs.push(h)[i]).name@ == m;
        if i < hs.len() {
            assert(hs[i].name@ == m);
        } else {
            assert(hs.push(h)[i] == h);
        }
    }
}

/// The wrapper the cache must hold for name `n` after a reconciliation
/// against listing `hs` and store contents `st`: a cached unit refreshed
/// against its handle, or a fresh wrapper for a newly observed one.
pub open spec fn expected_creep(
    pre: Map<Seq<char>, CreepV>,
    hs: Seq<CreepHandle>,
    st: Map<Seq<char>, Seq<char>>,
    n: Seq<char>,
) -> CreepV {
    let h = creep_listing_at(hs, n);
    let raw = spec_raw_for(st, n);
    if pre.contains_key(n) {
        spec_refreshed_creep(pre[n], h, raw)
    } else {
        spec_fresh_creep(h, raw)
    }
}

/// The unit-cache contract of one reconciliation pass: afterwards the cache
/// holds exactly the listed names — vanished units are evicted — and each
/// entry is pinned by [`expected_creep`].
pub open spec fn creeps_reconciled(
    pre: Map<Seq<char>, CreepV>,
    post: Map<Seq<char>, CreepV>,
    hs: Seq<CreepHandle>,
    st: Map<Seq<char>, Seq<char>>,
) -> bool {
    &&& forall|n: Seq<char>| #[trigger] post.contains_key(n) <==> listing_has_creep(hs, n)
    &&& forall|n: Seq<char>|
        listing_has_creep(hs, n) ==> #[trigger] post[n] == expected_creep(pre, hs, st, n)
}

/// The spawn-cache contract of one reconciliation pass: the cache holds
/// exactly the listed names, each a pure snapshot of its handle.
pub open spec fn spawns_reconciled(post: Map<Seq<char>, SpawnV>, hs: Seq<SpawnHandle>) -> bool {
    &&& forall|n: Seq<char>| #[trigger] post.contains_key(n) <==> listing_has_spawn(hs, n)
    &&& forall|n: Seq<char>|
        listing_has_spawn(hs, n) ==> #[trigger] post[n] == spec_spawn_of(spawn_listing_at(hs, n))
}

/// Whether position `i` of the listing is a spawn not yet cached.
pub open spec fn is_new_spawn(
    pre: Map<Seq<char>, SpawnV>,
    hs: Seq<SpawnHandle>,
    i: int,
) -> bool {
    0 <= i < hs.len() && !pre.contains_key(hs[i].name@)
}

/// Whether some newly observed spawn stands in region `r`.
pub open spec fn new_spawn_in_room(
    pre: Map<Seq<char>, SpawnV>,
    hs: Seq<SpawnHandle>,
    r: Seq<char>,
) -> bool {
    exists|i: int| #[trigger] is_new_spawn(pre, hs, i) && hs[i].pos.room@ == r
}

/// The colony contract of one reconciliation pass.  Cached colonies keep
/// their name and stage and only ever have registrations appended; colonies
/// appear exactly for the regions of newly observed spawns, starting at the
/// stage the store held; every new spawn ends up on its colony's roster;
/// a pass that observes nothing new leaves colonies and store alone; and
/// the store is only ever extended with freshly persisted bootstrap stages.
pub open spec fn colonies_registered(
    pre: Map<Seq<char>, ColonyV>,
    post: Map<Seq<char>, ColonyV>,
    pre_spawns: Map<Seq<char>, SpawnV>,
    hs: Seq<SpawnHandle>,
    st_pre: Map<Seq<char>, Seq<char>>,
    st_post: Map<Seq<char>, Seq<char>>,
) -> bool {
    &&& forall|r: Seq<char>| #[trigger] pre.contains_key(r) ==> post.contains_key(r)
        && post[r].name == pre[r].name
        && post[r].stage == pre[r].stage
        && post[r].spawns.len() >= pre[r].spawns.len()
        && post[r].spawns.take(pre[r].spawns.len() as int) == pre[r].spawns
    &&& forall|r: Seq<char>| #[trigger] post.contains_key(r) <==> pre.contains_key(r)
        || new_spawn_in_room(pre_spawns, hs, r)
    &&& forall|r: Seq<char>|
        !pre.contains_key(r) && #[trigger] new_spawn_in_room(pre_spawns, hs, r)
            ==> post.contains_key(r) && post[r].name == r && post[r].stage == spec_stage_for(
            st_pre,
            r,
        )
    &&& forall|i: int| #[trigger] is_new_spawn(pre_spawns, hs, i) ==> post.contains_key(
        hs[i].pos.room@,
    ) && post[hs[i].pos.room@].spawns.contains(hs[i].name@)
    &&& ((forall|i: int|
        0 <= i < hs.len() ==> pre_spawns.contains_key(#[trigger] hs[i].name@)) ==> post == pre
        && st_post == st_pre)
    &&& forall|k: Seq<char>| #[trigger] st_pre.contains_key(k) ==> st_post.contains_key(k)
        && st_post[k] == st_pre[k]
    &&& forall|k: Seq<char>| #[trigger] st_post.contains_key(k) && !st_pre.contains_key(k) ==> (
    exists|r: Seq<char>| k == colony_key(r) && new_spawn_in_room(pre_spawns, hs, r))
        && st_post[k] == "bootstrap"@
}

/// The next value of the tick counter.
pub open spec fn counter_next(c: u32) -> u32 {
    if c == u32::MAX {
        0
    } else {
        (c + 1) as u32
    }
}

/// The root registry: the tick counter and one map per entity kind, each
/// keyed by the host's stable ID for the object.
pub struct Game {
    counter: u32,
    creeps: StringHashMap<Creep>,
    creep_names: Vec<String>,
    spawns: StringHashMap<Spawn>,
    colonies: StringHashMap<Colony>,
}

impl Game {
    /// Ticks counted so far.
    pub closed spec fn spec_counter(&self) -> u32 {
        self.counter
    }

    /// The unit cache, by ID.
    pub closed spec fn creeps_map(&self) -> Map<Seq<char>, CreepV> {
        self.creeps@.map_values(|c: Creep| c@)
    }

    /// The spawn cache, by ID.
    pub closed spec fn spawns_map(&self) -> Map<Seq<char>, SpawnV> {
        self.spawns@.map_values(|s: Spawn| s@)
    }

    /// The colony cache, by region ID.
    pub closed spec fn colonies_map(&self) -> Map<Seq<char>, ColonyV> {
        self.colonies@.map_values(|c: Colony| c@)
    }

    /// The registry's own key listing names each cached unit exactly once.
    pub closed spec fn wf(&self) -> bool {
        &&& forall|i: int, j: int|
            0 <= i < j < self.creep_names@.len() ==> self.creep_names@[i]@
                != self.creep_names@[j]@
        &&& forall|i: int|
            0 <= i < self.creep_names@.len() ==> self.creeps@.contains_key(
                #[trigger] self.creep_names@[i]@,
            )
        &&& forall|n: Seq<char>| #[trigger] self.creeps@.contains_key(n) ==> exists|i: int|
            0 <= i < self.creep_names@.len() && self.creep_names@[i]@ == n
        &&& forall|n: Seq<char>| #[trigger] self.creeps@.contains_key(n) ==> self.creeps@[n]@.name
            == n
    }

    /// An empty registry at tick zero.
    pub fn new() -> (r: Game)
        ensures
            r.spec_counter() == 0,
            r.creeps_map() == Map::<Seq<char>, CreepV>::empty(),
            r.spawns_map() == Map::<Seq<char>, SpawnV>::empty(),
            r.colonies_map() == Map::<Seq<char>, ColonyV>::empty(),
            r.wf(),
    {
        let r = Game {
            counter: 0,
            creeps: StringHashMap::new(),
            creep_names: Vec::new(),
            spawns: StringHashMap::new(),
            colonies: StringHashMap::new(),
        };
        proof {
            assert(r.creeps_map() =~= Map::<Seq<char>, CreepV>::empty());
            assert(r.spawns_map() =~= Map::<Seq<char>, SpawnV>::empty());
            assert(r.colonies_map() =~= Map::<Seq<char>, ColonyV>::empty());
        }
        r
    }

    /// Ticks counted so far.
    pub fn counter(&self) -> (r: u32)
        ensures
            r == self.spec_counter(),
    {
        self.counter
    }

    /// The cached unit of that ID, if it is in the cache.
    pub fn get_creep(&self, name: &str) -> (r: Option<&Creep>)
        ensures
            match r {
                Some(c) => self.creeps_map().contains_key(name@) && c@ == self.creeps_map()[name@],
                None => !self.creeps_map().contains_key(name@),
            },
    {
        self.creeps.get(name)
    }

    /// The cached spawn of that ID, if it is in the cache.
    pub fn get_spawn(&self, name: &str) -> (r: Option<&Spawn>)
        ensures
            match r {
                Some(s) => self.spawns_map().contains_key(name@) && s@ == self.spawns_map()[name@],
                None => !self.spawns_map().contains_key(name@),
            },
    {
        self.spawns.get(name)
    }

    /// The cached colony of that region, if it is in the cache.
    pub fn get_colony(&self, room: &str) -> (r: Option<&Colony>)
        ensures
            match r {
                Some(c) => self.colonies_map().contains_key(room@)
                    && c@ == self.colonies_map()[room@],
                None => !self.colonies_map().contains_key(room@),
            },
    {
        self.colonies.get(room)
    }

    /// Registers a spawn with its region's colony, creating the colony —
    /// with its persisted stage — on first sight of the region.
    fn insert_spawn_into_colony(&mut self, store: &mut Store, room: &String, spawn_name: &String)
        requires
            old(store).wf(),
        ensures
            final(store).wf(),
            final(self).creeps == old(self).creeps,
            final(self).creep_names == old(self).creep_names,
            final(self).spawns == old(self).spawns,
            final(self).counter == old(self).counter,
            old(self).colonies_map().contains_key(room@) ==> final(self).colonies_map() == old(
                self,
            ).colonies_map().insert(
                room@,
                ColonyV {
                    spawns: old(self).colonies_map()[room@].spawns.push(spawn_name@),
                    ..old(self).colonies_map()[room@]
                },
            ) && final(store)@ == old(store)@,
            !old(self).colonies_map().contains_key(room@) ==> final(self).colonies_map() == old(
                self,
            ).colonies_map().insert(
                room@,
                ColonyV {
                    name: room@,
                    stage: spec_stage_for(old(store)@, room@),
                    spawns: seq![spawn_name@],
                },
            ) && final(store)@ == (if old(store)@.contains_key(colony_key(room@)) {
                old(store)@
            } else {
                old(store)@.insert(colony_key(room@), "bootstrap"@)
            }),
    {
        match self.colonies.get(room.as_str()) {
            Some(c0) => {
                let mut c = c0.clone();
                c.register_spawn(spawn_name.clone());
                self.colonies.insert(room.clone(), c);
                proof {
                    assert(self.colonies_map() =~= old(self).colonies_map().insert(
                        room@,
                        ColonyV {
                            spawns: old(self).colonies_map()[room@].spawns.push(spawn_name@),
                            ..old(self).colonies_map()[room@]
                        },
                    ));
                }
            },
            None => {
                let mut c = Colony::from(room.clone(), store);
                c.register_spawn(spawn_name.clone());
                self.colonies.insert(room.clone(), c);
                proof {
                    assert(Seq::<Seq<char>>::empty().push(spawn_name@) =~= seq![spawn_name@]);
                    assert(self.colonies_map() =~= old(self).colonies_map().insert(
                        room@,
                        ColonyV {
                            name: room@,
                            stage: spec_stage_for(old(store)@, room@),
                            spawns: seq![spawn_name@],
                        },
                    ));
                }
            },
        }
    }
}

proof fn lemma_new_room_push(
    pre_spawns: Map<Seq<char>, SpawnV>,
    hs: Seq<SpawnHandle>,
    k: int,
    r: Seq<char>,
)
    requires
        0 <= k < hs.len(),
    ensures
        new_spawn_in_room(pre_spawns, hs.take(k + 1), r) <==> (new_spawn_in_room(
            pre_spawns,
            hs.take(k),
            r,
        ) || (!pre_spawns.contains_key(hs[k].name@) && hs[k].pos.room@ == r)),
{
    assert(hs.take(k + 1) =~= hs.take(k).push(hs[k]));
    let t0 = hs.take(k);
    let t1 = hs.take(k + 1);
    if new_spawn_in_room(pre_spawns, t0, r) {
        let i = choose|i: int| #[trigger] is_new_spawn(pre_spawns, t0, i) && t0[i].pos.room@ == r;
        assert(t1[i] == t0[i]);
        assert(is_new_spawn(pre_spawns, t1, i) && t1[i].pos.room@ == r);
    }
    if !pre_spawns.contains_key(hs[k].name@) && hs[k].pos.room@ == r {
        assert(t1[k] == hs[k]);
        assert(is_new_spawn(pre_spawns, t1, k) && t1[k].pos.room@ == r);
    }
    if new_spawn_in_room(pre_spawns, t1, r) {
        let i = choose|i: int| #[trigger] is_new_spawn(pre_spawns, t1, i) && t1[i].pos.room@ == r;
        if i < k {
            assert(t1[i] == t0[i]);
            assert(is_new_spawn(pre_spawns, t0, i) && t0[i].pos.room@ == r);
        } else {
            assert(t1[i] == hs[k]);
        }
    }
}

/// One step of the spawn pass preserves the colony contract: however the
/// k-th handle was handled — cached spawn, registration into an existing
/// colony, or colony creation — the contract extends to the longer prefix.
proof fn lemma_colonies_step(
    pre_c: Map<Seq<char>, ColonyV>,
    mid_c: Map<Seq<char>, ColonyV>,
    post_c: Map<Seq<char>, ColonyV>,
    pre_spawns: Map<Seq<char>, SpawnV>,
    hs: Seq<SpawnHandle>,
    k: int,
    st0: Map<Seq<char>, Seq<char>>,
    st_mid: Map<Seq<char>, Seq<char>>,
    st_post: Map<Seq<char>, Seq<char>>,
)
    requires
        0 <= k < hs.len(),
        colonies_registered(pre_c, mid_c, pre_spawns, hs.take(k), st0, st_mid),
        pre_spawns.contains_key(hs[k].name@) ==> post_c == mid_c && st_post == st_mid,
        !pre_spawns.contains_key(hs[k].name@) && mid_c.contains_key(hs[k].pos.room@)
            ==> post_c == mid_c.insert(
            hs[k].pos.room@,
            ColonyV {
                spawns: mid_c[hs[k].pos.room@].spawns.push(hs[k].name@),
                ..mid_c[hs[k].pos.room@]
            },
        ) && st_post == st_mid,
        !pre_spawns.contains_key(hs[k].name@) && !mid_c.contains_key(hs[k].pos.room@)
            ==> post_c == mid_c.insert(
            hs[k].pos.room@,
            ColonyV {
                name: hs[k].pos.room@,
                stage: spec_stage_for(st_mid, hs[k].pos.room@),
                spawns: seq![hs[k].name@],
            },
        ) && st_post == (if st_mid.contains_key(colony_key(hs[k].pos.room@)) {
            st_mid
        } else {
            st_mid.insert(colony_key(hs[k].pos.room@), "bootstrap"@)
        }),
    ensures
        colonies_registered(pre_c, post_c, pre_spawns, hs.take(k + 1), st0, st_post),
{
    let t0 = hs.take(k);
    let t1 = hs.take(k + 1);
    let hk = hs[k];
    let r0 = hk.pos.room@;
    assert(t1 =~= t0.push(hs[k]));
    assert(t1[k] == hs[k]);
    assert forall|i: int| 0 <= i < k implies t1[i] == t0[i] by {}
    assert forall|r: Seq<char>|
        new_spawn_in_room(pre_spawns, t1, r) <==> (new_spawn_in_room(pre_spawns, t0, r) || (
        !pre_spawns.contains_key(hk.name@) && r0 == r)) by {
        lemma_new_room_push(pre_spawns, hs, k, r);
    }
    if pre_spawns.contains_key(hk.name@) {
        // a cached spawn registers nothing; only the listing prefix grew
        assert forall|i: int| #[trigger] is_new_spawn(pre_spawns, t1, i)
            implies post_c.contains_key(t1[i].pos.room@) && post_c[t1[i].pos.room@].spawns.contains(
            t1[i].name@,
        ) by {
            assert(i < k);
            assert(is_new_spawn(pre_spawns, t0, i));
        }
        assert(colonies_registered(pre_c, post_c, pre_spawns, t1, st0, st_post));
    } else {
        if mid_c.contains_key(r0) {
            let updated = ColonyV { spawns: mid_c[r0].spawns.push(hk.name@), ..mid_c[r0] };
            // clause: cached colonies keep stage and extend rosters
            assert forall|r: Seq<char>| #[trigger] pre_c.contains_key(r) implies post_c.contains_key(
                r,
            ) && post_c[r].name == pre_c[r].name && post_c[r].stage == pre_c[r].stage
                && post_c[r].spawns.len() >= pre_c[r].spawns.len() && post_c[r].spawns.take(
                pre_c[r].spawns.len() as int,
            ) == pre_c[r].spawns by {
                if r == r0 {
                    assert(mid_c[r0].spawns.push(hk.name@).take(pre_c[r].spawns.len() as int)
                        =~= mid_c[r0].spawns.take(pre_c[r].spawns.len() as int));
                }
            }
            // clause: every new spawn of the prefix is on its roster
            assert forall|i: int| #[trigger] is_new_spawn(pre_spawns, t1, i)
                implies post_c.contains_key(t1[i].pos.room@)
                && post_c[t1[i].pos.room@].spawns.contains(t1[i].name@) by {
                if i < k {
                    assert(is_new_spawn(pre_spawns, t0, i));
                    if t1[i].pos.room@ == r0 {
                        let s0 = mid_c[r0].spawns;
                        let m = choose|m: int| 0 <= m < s0.len() && s0[m] == t0[i].name@;
                        assert(s0.push(hk.name@)[m] == t0[i].name@);
                    }
                } else {
                    assert(updated.spawns[updated.spawns.len() - 1] == hk.name@);
                }
            }
            // clause: fresh colonies carry the stored stage
            assert forall|r: Seq<char>|
                !pre_c.contains_key(r) && #[trigger] new_spawn_in_room(pre_spawns, t1, r)
                implies post_c.contains_key(r) && post_c[r].name == r && post_c[r].stage
                == spec_stage_for(st0, r) by {
                if r == r0 {
                    assert(mid_c.contains_key(r0));
                    assert(new_spawn_in_room(pre_spawns, t0, r0) || pre_c.contains_key(r0));
                    assert(mid_c[r0].name == r0 && mid_c[r0].stage == spec_stage_for(st0, r0));
                }
            }
            assert(colonies_registered(pre_c, post_c, pre_spawns, t1, st0, st_post));
        } else {
            let fresh = ColonyV {
                name: r0,
                stage: spec_stage_for(st_mid, r0),
                spawns: seq![hk.name@],
            };
            // the stage read now is the stage the pass started from
            assert(spec_stage_for(st_mid, r0) == spec_stage_for(st0, r0)) by {
                let key = colony_key(r0);
                if st_mid.contains_key(key) {
                    if st0.contains_key(key) {
                    } else {
                        let r1 = choose|r1: Seq<char>|
                            key == colony_key(r1) && new_spawn_in_room(pre_spawns, t0, r1);
                        lemma_key_scheme(r0, r1);
                        if r1 != r0 {
                            assert(false);
                        }
                        assert(mid_c.contains_key(r0));
                        assert(false);
                    }
                }
            }
            assert(!pre_c.contains_key(r0));
            // rosters of other rooms are untouched; the new room's roster is
            // exactly the one new spawn
            assert forall|i: int| #[trigger] is_new_spawn(pre_spawns, t1, i)
                implies post_c.contains_key(t1[i].pos.room@)
                && post_c[t1[i].pos.room@].spawns.contains(t1[i].name@) by {
                if i < k {
                    assert(is_new_spawn(pre_spawns, t0, i));
                    assert(mid_c.contains_key(t0[i].pos.room@));
                    assert(t1[i].pos.room@ != r0);
                } else {
                    assert(fresh.spawns[0] == hk.name@);
                }
            }
            // store: at most one fresh bootstrap record was appended
            assert forall|kk: Seq<char>| #[trigger] st_post.contains_key(kk) && !st0.contains_key(
                kk,
            ) implies (exists|r: Seq<char>|
                kk == colony_key(r) && new_spawn_in_room(pre_spawns, t1, r)) && st_post[kk]
                == "bootstrap"@ by {
                if st_mid.contains_key(kk) {
                    let r1 = choose|r1: Seq<char>|
                        kk == colony_key(r1) && new_spawn_in_room(pre_spawns, t0, r1);
                    assert(kk == colony_key(r1) && new_spawn_in_room(pre_spawns, t1, r1));
                } else {
                    assert(kk == colony_key(r0));
                    assert(new_spawn_in_room(pre_spawns, t1, r0));
                }
            }
            assert(colonies_registered(pre_c, post_c, pre_spawns, t1, st0, st_post));
        }
    }
}

impl Game {
    /// The spawn half of the reconciliation pass: rebuilds the spawn cache
    /// from the live listing — insert new, rebind cached, drop vanished —
    /// and registers every newly observed spawn with its region's colony.
    fn refresh_spawns(&mut self, store: &mut Store, handles: &Vec<SpawnHandle>)
        requires
            distinct_spawn_names(handles@),
            old(store).wf(),
        ensures
            final(store).wf(),
            spawns_reconciled(final(self).spawns_map(), handles@),
            colonies_registered(
                old(self).colonies_map(),
                final(self).colonies_map(),
                old(self).spawns_map(),
                handles@,
                old(store)@,
                final(store)@,
            ),
            final(self).creeps == old(self).creeps,
            final(self).creep_names == old(self).creep_names,
            final(self).counter == old(self).counter,
    {
        let ghost pre_spawns = old(self).spawns_map();
        let ghost pre_colonies = old(self).colonies_map();
        let ghost st0 = old(store)@;
        let mut next: StringHashMap<Spawn> = StringHashMap::new();
        let n = handles.len();
        let mut k: usize = 0;
        proof {
            assert(handles@.take(0) =~= Seq::<SpawnHandle>::empty());
            assert forall|r: Seq<char>| #[trigger] pre_colonies.contains_key(r)
                implies pre_colonies[r].spawns.take(pre_colonies[r].spawns.len() as int)
                == pre_colonies[r].spawns by {
                assert(pre_colonies[r].spawns.take(pre_colonies[r].spawns.len() as int)
                    =~= pre_colonies[r].spawns);
            }
            assert(colonies_registered(
                pre_colonies,
                pre_colonies,
                pre_spawns,
                handles@.take(0),
                st0,
                st0,
            ));
        }
        while k < n
            invariant
                n == handles@.len(),
                distinct_spawn_names(handles@),
                store.wf(),
                self.spawns == old(self).spawns,
                self.creeps == old(self).creeps,
                self.creep_names == old(self).creep_names,
                self.counter == old(self).counter,
                pre_spawns == old(self).spawns_map(),
                pre_colonies == old(self).colonies_map(),
                st0 == old(store)@,
                k <= n,
                forall|m: Seq<char>| #[trigger] next@.contains_key(m) <==> listing_has_spawn(
                    handles@.take(k as int),
                    m,
                ),
                forall|m: Seq<char>| #[trigger] next@.contains_key(m) ==> next@[m]@
                    == spec_spawn_of(spawn_listing_at(handles@, m)),
                colonies_registered(
                    pre_colonies,
                    self.colonies_map(),
                    pre_spawns,
                    handles@.take(k as int),
                    st0,
                    store@,
                ),
            decreases n - k,
        {
            let h = &handles[k];
            proof {
                lemma_spawn_listing_at(handles@, k as int);
            }
            let ghost mid_c = self.colonies_map();
            let ghost st_mid = store@;
            let is_new = !self.spawns.contains_key(h.name.as_str());
            next.insert(h.name.clone(), Spawn::from(h));
            if is_new {
                self.insert_spawn_into_colony(store, &h.pos.room, &h.name);
            }
            proof {
                lemma_colonies_step(
                    pre_colonies,
                    mid_c,
                    self.colonies_map(),
                    pre_spawns,
                    handles@,
                    k as int,
                    st0,
                    st_mid,
                    store@,
                );
                assert forall|m: Seq<char>| #[trigger] next@.contains_key(m)
                    <==> listing_has_spawn(handles@.take(k + 1), m) by {
                    assert(handles@.take(k + 1) =~= handles@.take(k as int).push(handles@[k as int]));
                    lemma_spawn_listing_push(handles@.take(k as int), handles@[k as int], m);
                }
            }
            k += 1;
        }
        self.spawns = next;
        proof {
            assert(handles@.take(n as int) =~= handles@);
            assert forall|m: Seq<char>|
                #![trigger self.spawns_map().contains_key(m)]
                self.spawns_map().contains_key(m) <==> listing_has_spawn(handles@, m) by {
                assert(self.spawns_map().contains_key(m) == next@.contains_key(m));
            }
            assert forall|m: Seq<char>| listing_has_spawn(handles@, m)
                implies #[trigger] self.spawns_map()[m] == spec_spawn_of(
                spawn_listing_at(handles@, m),
            ) by {
                assert(next@.contains_key(m));
                assert(self.spawns_map()[m] == next@[m]@);
            }
        }
    }

    /// The unit half of the reconciliation pass: rebuilds the unit cache
    /// from the live listing — insert new, refresh cached, evict vanished.
    fn refresh_creeps(&mut self, store: &Store, handles: &Vec<CreepHandle>)
        requires
            old(self).wf(),
            distinct_creep_names(handles@),
            wf_creep_handles(handles@),
        ensures
            creeps_reconciled(
                old(self).creeps_map(),
                final(self).creeps_map(),
                handles@,
                store@,
            ),
            final(self).wf(),
            final(self).spawns == old(self).spawns,
            final(self).colonies == old(self).colonies,
            final(self).counter == old(self).counter,
    {
        let ghost pre = old(self).creeps_map();
        proof {
            assert forall|m: Seq<char>| #[trigger] pre.contains_key(m) implies pre[m].name == m by {
                assert(old(self).creeps@.contains_key(m));
            }
        }
        let mut next: StringHashMap<Creep> = StringHashMap::new();
        let mut names: Vec<String> = Vec::new();
        let n = handles.len();
        let mut k: usize = 0;
        proof {
            assert(handles@.take(0) =~= Seq::<CreepHandle>::empty());
        }
        while k < n
            invariant
                n == handles@.len(),
                distinct_creep_names(handles@),
                wf_creep_handles(handles@),
                self.creeps == old(self).creeps,
                self.spawns == old(self).spawns,
                self.colonies == old(self).colonies,
                self.counter == old(self).counter,
                pre == old(self).creeps_map(),
                k <= n,
                names@.len() == k,
                forall|j: int| 0 <= j < k ==> (#[trigger] names@[j])@ == handles@[j].name@,
                forall|m: Seq<char>| #[trigger] next@.contains_key(m) <==> listing_has_creep(
                    handles@.take(k as int),
                    m,
                ),
                forall|m: Seq<char>| #[trigger] next@.contains_key(m) ==> next@[m]@
                    == expected_creep(pre, handles@, store@, m),
            decreases n - k,
        {
            let h = &handles[k];
            proof {
                lemma_creep_listing_at(handles@, k as int);
                assert(handles@[k as int].wf());
            }
            let c = match self.creeps.get(h.name.as_str()) {
                Some(c0) => {
                    let mut c = c0.clone();
                    c.refresh(h, store);
                    c
                },
                None => Creep::from(h, store),
            };
            next.insert(h.name.clone(), c);
            names.push(h.name.clone());
            proof {
                assert forall|m: Seq<char>| #[trigger] next@.contains_key(m)
                    <==> listing_has_creep(handles@.take(k + 1), m) by {
                    assert(handles@.take(k + 1) =~= handles@.take(k as int).push(handles@[k as int]));
                    lemma_creep_listing_push(handles@.take(k as int), handles@[k as int], m);
                }
            }
            k += 1;
        }
        self.creeps = next;
        self.creep_names = names;
        proof {
            assert(handles@.take(n as int) =~= handles@);
            assert forall|m: Seq<char>| #[trigger] self.creeps@.contains_key(m) implies exists|i: int|
                0 <= i < self.creep_names@.len() && self.creep_names@[i]@ == m by {
                let i = choose|i: int|
                    0 <= i < handles@.len() && (#[trigger] handles@[i]).name@ == m;
                assert(self.creep_names@[i]@ == m);
            }
            assert forall|i: int|
                0 <= i < self.creep_names@.len() implies self.creeps@.contains_key(
                #[trigger] self.creep_names@[i]@,
            ) by {
                assert(listing_has_creep(handles@, handles@[i].name@));
            }
            assert forall|m: Seq<char>| #[trigger] self.creeps@.contains_key(m)
                implies self.creeps@[m]@.name == m by {
                assert(listing_has_creep(handles@, m));
                assert(self.creeps@[m]@ == expected_creep(pre, handles@, store@, m));
            }
        }
    }

    /// The per-tick reconciliation: bumps the tick counter, then runs the
    /// full insert/update/evict pass for spawns — registering new spawns
    /// into their colonies — and then for units, before any behavior logic
    /// reads the refreshed cache.
    pub fn refresh_state(&mut self, store: &mut Store, creeps: &Vec<CreepHandle>, spawns: &Vec<SpawnHandle>)
        requires
            old(self).wf(),
            old(store).wf(),
            distinct_creep_names(creeps@),
            wf_creep_handles(creeps@),
            distinct_spawn_names(spawns@),
        ensures
            final(store).wf(),
            final(self).wf(),
            final(self).spec_counter() == counter_next(old(self).spec_counter()),
            spawns_reconciled(final(self).spawns_map(), spawns@),
            colonies_registered(
                old(self).colonies_map(),
                final(self).colonies_map(),
                old(self).spawns_map(),
                spawns@,
                old(store)@,
                final(store)@,
            ),
            creeps_reconciled(
                old(self).creeps_map(),
                final(self).creeps_map(),
                creeps@,
                final(store)@,
            ),
    {
        self.counter = if self.counter == u32::MAX {
            0
        } else {
            self.counter + 1
        };
        self.refresh_spawns(store, spawns);
        self.refresh_creeps(store, creeps);
    }

    /// Cached units with the given job, skipping almost-expired ones when
    /// asked to: every returned unit is a cache entry matching the query,
    /// and every matching cache entry is returned.
    pub fn get_creep_by_job(&self, job: &Job, ignore_almost_expired: bool) -> (r: Vec<&Creep>)
        requires
            self.wf(),
        ensures
            forall|i: int|
                0 <= i < r@.len() ==> self.creeps_map().contains_key((#[trigger] r@[i])@.name)
                    && r@[i]@ == self.creeps_map()[r@[i]@.name] && spec_job_match(
                    r@[i]@,
                    *job,
                    ignore_almost_expired,
                ),
            forall|n: Seq<char>|
                #[trigger] self.creeps_map().contains_key(n) && spec_job_match(
                    self.creeps_map()[n],
                    *job,
                    ignore_almost_expired,
                ) ==> exists|i: int| 0 <= i < r@.len() && (#[trigger] r@[i])@.name == n,
    {
        let mut r: Vec<&Creep> = Vec::new();
        let n = self.creep_names.len();
        let mut i: usize = 0;
        while i < n
            invariant
                self.wf(),
                n == self.creep_names@.len(),
                i <= n,
                forall|m: int|
                    0 <= m < r@.len() ==> self.creeps_map().contains_key(
                        (#[trigger] r@[m])@.name,
                    ) && r@[m]@ == self.creeps_map()[r@[m]@.name] && spec_job_match(
                        r@[m]@,
                        *job,
                        ignore_almost_expired,
                    ),
                forall|j: int|
                    0 <= j < i && spec_job_match(
                        self.creeps_map()[#[trigger] self.creep_names@[j]@],
                        *job,
                        ignore_almost_expired,
                    ) ==> exists|m: int|
                        0 <= m < r@.len() && (#[trigger] r@[m])@.name == self.creep_names@[j]@,
            decreases n - i,
        {
            let ghost r0 = r@;
            let name = &self.creep_names[i];
            proof {
                assert(name@ == self.creep_names@[i as int]@);
                assert(self.creeps@.contains_key(self.creep_names@[i as int]@));
            }
            match self.creeps.get(name.as_str()) {
                Some(c) => {
                    let expired = ignore_almost_expired && c.ticks_to_live()
                        <= CONSIDER_CREEP_EXPIRED_AT;
                    if !expired && *c.job() == *job {
                        proof {
                            assert(c@ == self.creeps_map()[self.creep_names@[i as int]@]);
                            assert(c@.name == self.creep_names@[i as int]@);
                            assert(spec_job_match(c@, *job, ignore_almost_expired));
                        }
                        r.push(c);
                        proof {
                            assert(r@[r@.len() - 1]@.name == self.creep_names@[i as int]@);
                        }
                    } else {
                        proof {
                            assert(c@ == self.creeps_map()[self.creep_names@[i as int]@]);
                            assert(!spec_job_match(
                                self.creeps_map()[self.creep_names@[i as int]@],
                                *job,
                                ignore_almost_expired,
                            ));
                        }
                    }
                },
                None => {
                    proof {
                        assert(false);
                    }
                },
            }
            i += 1;
            proof {
                assert forall|j: int|
                    0 <= j < i && spec_job_match(
                        self.creeps_map()[#[trigger] self.creep_names@[j]@],
                        *job,
                        ignore_almost_expired,
                    ) implies exists|m: int|
                    0 <= m < r@.len() && (#[trigger] r@[m])@.name == self.creep_names@[j]@ by {
                    if j < i - 1 {
                        let m = choose|m: int|
                            0 <= m < r0.len() && (#[trigger] r0[m])@.name
                                == self.creep_names@[j]@;
                        assert(r@[m] == r0[m]);
                        assert((r@[m])@.name == self.creep_names@[j]@);
                    } else {
                        assert(r@.len() > r0.len());
                        assert((r@[r@.len() - 1])@.name == self.creep_names@[j]@);
                    }
                }
            }
        }
        proof {
            assert forall|m: Seq<char>|
                #[trigger] self.creeps_map().contains_key(m) && spec_job_match(
                    self.creeps_map()[m],
                    *job,
                    ignore_almost_expired,
                ) implies exists|w: int| 0 <= w < r@.len() && (#[trigger] r@[w])@.name == m by {
                let j = choose|j: int|
                    0 <= j < self.creep_names@.len() && (#[trigger] self.creep_names@[j])@ == m;
            }
        }
        r
    }

    /// The explicit stage transition, applied to the cached colony and
    /// persisted: after it the colony reads `Running`, in this tick and — by
    /// way of the store — in every later session.  A region without a
    /// cached colony is left alone.
    pub fn advance_colony_stage(&mut self, store: &mut Store, room: &str)
        requires
            old(store).wf(),
        ensures
            final(store).wf(),
            old(self).wf() ==> final(self).wf(),
            final(self).spec_counter() == old(self).spec_counter(),
            final(self).creeps_map() == old(self).creeps_map(),
            final(self).spawns_map() == old(self).spawns_map(),
            old(self).colonies_map().contains_key(room@) ==> final(self).colonies_map() == old(
                self,
            ).colonies_map().insert(
                room@,
                ColonyV {
                    stage: crate::colony::ColonyStage::Running,
                    ..old(self).colonies_map()[room@]
                },
            ) && final(store)@ == old(store)@.insert(
                colony_key(old(self).colonies_map()[room@].name),
                "running"@,
            ),
            !old(self).colonies_map().contains_key(room@) ==> final(self).colonies_map() == old(
                self,
            ).colonies_map() && final(store)@ == old(store)@,
    {
        match self.colonies.get(room) {
            Some(c0) => {
                let mut c = c0.clone();
                c.advance_stage(store);
                self.colonies.insert(String::from_str(room), c);
                proof {
                    assert(self.creeps == old(self).creeps);
                    assert(self.creep_names == old(self).creep_names);
                    assert(self.colonies_map() =~= old(self).colonies_map().insert(
                        room@,
                        ColonyV {
                            stage: crate::colony::ColonyStage::Running,
                            ..old(self).colonies_map()[room@]
                        },
                    ));
                }
            },
            None => {},
        }
    }

    /// Cached units with the given job that are not almost expired.
    pub fn get_active_creep_by_job(&self, job: &Job) -> (r: Vec<&Creep>)
        requires
            self.wf(),
        ensures
            forall|i: int|
                0 <= i < r@.len() ==> self.creeps_map().contains_key((#[trigger] r@[i])@.name)
                    && r@[i]@ == self.creeps_map()[r@[i]@.name] && spec_job_match(r@[i]@, *job, true),
            forall|n: Seq<char>|
                #[trigger] self.creeps_map().contains_key(n) && spec_job_match(
                    self.creeps_map()[n],
                    *job,
                    true,
                ) ==> exists|i: int| 0 <= i < r@.len() && (#[trigger] r@[i])@.name == n,
    {
        self.get_creep_by_job(job, true)
    }
}

/// Whether a cached unit answers a job query: its job matches, and it is
/// not almost expired when almost-expired units are to be skipped.
pub open spec fn spec_job_match(c: CreepV, job: Job, ignore_almost_expired: bool) -> bool {
    c.job == job && !(ignore_almost_expired && c.ticks_to_live <= CONSIDER_CREEP_EXPIRED_AT)
}

/// A unit listed live on one tick stands in the cache at that tick's end;
/// when the next tick's listing no longer carries it, the cache no longer
/// holds it at that tick's end.
pub proof fn lemma_observed_then_evicted(
    c0: Map<Seq<char>, CreepV>,
    c1: Map<Seq<char>, CreepV>,
    c2: Map<Seq<char>, CreepV>,
    hs_t: Seq<CreepHandle>,
    hs_t1: Seq<CreepHandle>,
    st1: Map<Seq<char>, Seq<char>>,
    st2: Map<Seq<char>, Seq<char>>,
    n: Seq<char>,
)
    requires
        creeps_reconciled(c0, c1, hs_t, st1),
        creeps_reconciled(c1, c2, hs_t1, st2),
        listing_has_creep(hs_t, n),
        !listing_has_creep(hs_t1, n),
    ensures
        c1.contains_key(n),
        !c2.contains_key(n),
{
}

/// Classification is stable across reconciliation: a cached unit that is
/// still listed keeps its name and its job, so the job derived from the ID
/// at first observation is unchanged across any number of refreshes.
pub proof fn lemma_classification_preserved(
    pre: Map<Seq<char>, CreepV>,
    post: Map<Seq<char>, CreepV>,
    hs: Seq<CreepHandle>,
    st: Map<Seq<char>, Seq<char>>,
    n: Seq<char>,
)
    requires
        creeps_reconciled(pre, post, hs, st),
        pre.contains_key(n),
        listing_has_creep(hs, n),
    ensures
        post.contains_key(n),
        post[n].job == pre[n].job,
        post[n].name == pre[n].name,
{
}

/// A colony's stage is preserved by every reconciliation pass: once a stage
/// stands — in particular once it was advanced from `Bootstrap` — no pass
/// ever shows an earlier stage again; only the explicit transition call
/// writes a stage.
pub proof fn lemma_stage_preserved(
    pre: Map<Seq<char>, ColonyV>,
    post: Map<Seq<char>, ColonyV>,
    pre_spawns: Map<Seq<char>, SpawnV>,
    hs: Seq<SpawnHandle>,
    st_pre: Map<Seq<char>, Seq<char>>,
    st_post: Map<Seq<char>, Seq<char>>,
    r: Seq<char>,
)
    requires
        colonies_registered(pre, post, pre_spawns, hs, st_pre, st_post),
        pre.contains_key(r),
    ensures
        post.contains_key(r),
        post[r].stage == pre[r].stage,
{
}

proof fn lemma_refreshed_stable(c1: CreepV, h: CreepHandle, raw: Option<Seq<char>>)
    requires
        exists|c0: CreepV| c1 == spec_refreshed_creep(c0, h, raw) || c1 == spec_fresh_creep(
            h,
            raw,
        ),
    ensures
        spec_refreshed_creep(c1, h, raw) == c1,
{
    let c0 = choose|c0: CreepV|
        c1 == spec_refreshed_creep(c0, h, raw) || c1 == spec_fresh_creep(h, raw);
    assert(spec_refreshed_creep(c1, h, raw) =~= c1);
}

/// Idempotence of the reconciliation: a second refresh against the same
/// unchanged live listings and the store state the first one left behind
/// performs no insert, no eviction and no entry mutation, and writes
/// nothing to the store.  (The tick counter alone advances each call.)
pub proof fn lemma_refresh_idempotent(
    g0: Game,
    g1: Game,
    g2: Game,
    st0: Map<Seq<char>, Seq<char>>,
    st1: Map<Seq<char>, Seq<char>>,
    st2: Map<Seq<char>, Seq<char>>,
    ch: Seq<CreepHandle>,
    sh: Seq<SpawnHandle>,
)
    requires
        spawns_reconciled(g1.spawns_map(), sh),
        colonies_registered(g0.colonies_map(), g1.colonies_map(), g0.spawns_map(), sh, st0, st1),
        creeps_reconciled(g0.creeps_map(), g1.creeps_map(), ch, st1),
        spawns_reconciled(g2.spawns_map(), sh),
        colonies_registered(g1.colonies_map(), g2.colonies_map(), g1.spawns_map(), sh, st1, st2),
        creeps_reconciled(g1.creeps_map(), g2.creeps_map(), ch, st2),
    ensures
        st2 == st1,
        g2.spawns_map() == g1.spawns_map(),
        g2.colonies_map() == g1.colonies_map(),
        g2.creeps_map() == g1.creeps_map(),
{
    assert forall|i: int| 0 <= i < sh.len() implies g1.spawns_map().contains_key(
        #[trigger] sh[i].name@,
    ) by {
        assert(0 <= i < sh.len() && sh[i].name@ == sh[i].name@);
        assert(listing_has_spawn(sh, sh[i].name@));
    }
    assert(g2.colonies_map() == g1.colonies_map() && st2 == st1);
    assert(g2.spawns_map() =~= g1.spawns_map());
    assert forall|n: Seq<char>| #[trigger] g1.creeps_map().contains_key(n)
        implies g2.creeps_map().contains_key(n) && g2.creeps_map()[n] == g1.creeps_map()[n] by {
        assert(listing_has_creep(ch, n));
        let h = creep_listing_at(ch, n);
        let raw = spec_raw_for(st1, n);
        assert(g1.creeps_map()[n] == expected_creep(g0.creeps_map(), ch, st1, n));
        assert(g2.creeps_map()[n] == expected_creep(g1.creeps_map(), ch, st2, n));
        lemma_refreshed_stable(g1.creeps_map()[n], h, raw);
    }
    assert(g2.creeps_map() =~= g1.creeps_map());
}

} // verus!
