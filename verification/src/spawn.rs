//! Structure wrappers: per-tick snapshots of spawn structures.
//!
//! A spawn has no persisted mutable state of its own; every field is read
//! fresh from the live handle each tick.  Spawning a new unit is a host
//! command; the core contributes the generated unit name — which encodes the
//! job classification — and the retry decision on a name conflict.

use vstd::prelude::*;
use vstd::string::*;
use crate::creep::{spec_job_str, Job};
use crate::host::{Pos, PosV, ReturnCode, SpawnHandle};
use crate::text::{spec_dec, u32_to_dec};

verus! {

/// Ghost image of a [`Spawn`].
#[verifier::ext_equal]
pub struct SpawnV {
    pub name: Seq<char>,
    pub pos: PosV,
    pub energy: u32,
    pub energy_capacity: u32,
}

/// A cached spawn structure: a pure snapshot, rebuilt from the live handle
/// on every tick it appears in the listing.
pub struct Spawn {
    name: String,
    pos: Pos,
    energy: u32,
    energy_capacity: u32,
}

impl View for Spawn {
    type V = SpawnV;

    closed spec fn view(&self) -> SpawnV {
        SpawnV {
            name: self.name@,
            pos: self.pos@,
            energy: self.energy,
            energy_capacity: self.energy_capacity,
        }
    }
}

/// The snapshot a handle determines.
pub open spec fn spec_spawn_of(h: SpawnHandle) -> SpawnV {
    SpawnV { name: h.name@, pos: h.pos@, energy: h.energy, energy_capacity: h.energy_capacity }
}

impl Spawn {
    /// Builds the wrapper for a spawn first observed this tick.
    pub fn from(handle: &SpawnHandle) -> (r: Spawn)
        ensures
            r@ == spec_spawn_of(*handle),
    {
        Spawn {
            name: handle.name.clone(),
            pos: handle.pos.clone(),
            energy: handle.energy,
            energy_capacity: handle.energy_capacity,
        }
    }

    /// Rebinds every pass-through field from this tick's handle.
    pub fn refresh(&mut self, handle: &SpawnHandle)
        requires
            old(self)@.name == handle.name@,
        ensures
            final(self)@ == spec_spawn_of(*handle),
    {
        self.name = handle.name.clone();
        self.pos = handle.pos.clone();
        self.energy = handle.energy;
        self.energy_capacity = handle.energy_capacity;
    }

    /// The spawn's stable ID.
    pub fn name(&self) -> (r: &str)
        ensures
            r@ == self@.name,
    {
        self.name.as_str()
    }

    /// This tick's position.
    pub fn pos(&self) -> (r: &Pos)
        ensures
            r@ == self@.pos,
    {
        &self.pos
    }

    /// ID of the region the spawn stands in.
    pub fn room(&self) -> (r: &String)
        ensures
            r@ == self@.pos.room,
    {
        &self.pos.room
    }

    /// ID of the region the spawn stands in (its owning colony's key).
    pub fn room_id(&self) -> (r: &String)
        ensures
            r@ == self@.pos.room,
    {
        &self.pos.room
    }

    /// Energy currently available for spawning.
    pub fn energy(&self) -> (r: u32)
        ensures
            r == self@.energy,
    {
        self.energy
    }

    /// Energy capacity.
    pub fn energy_capacity(&self) -> (r: u32)
        ensures
            r == self@.energy_capacity,
    {
        self.energy_capacity
    }
}

/// The generated name for a unit spawned for `job`: the job's name — which
/// the unit's classification is later derived from — a colon, the tick the
/// attempt started, and the retry counter.
pub open spec fn spec_spawn_name(job: Job, time: u32, additional: u32) -> Seq<char> {
    spec_job_str(job) + ":"@ + spec_dec(time as int) + spec_dec(additional as int)
}

/// Builds the generated unit name for a spawn attempt.
pub fn spawn_name(job: &Job, time: u32, additional: u32) -> (r: String)
    ensures
        r@ == spec_spawn_name(*job, time, additional),
{
    let mut s = String::from_str(job.as_str());
    s.append(":");
    let t = u32_to_dec(time);
    s.append(t.as_str());
    let a = u32_to_dec(additional);
    s.append(a.as_str());
    proof {
        assert(s@ =~= spec_spawn_name(*job, time, additional));
    }
    s
}

/// What a spawn attempt decides next: try again under a fresh name, or stop
/// and report the host's code.
#[derive(Clone, Copy, PartialEq, Eq, Structural, Debug)]
pub enum SpawnStep {
    Retry(u32),
    Done(ReturnCode),
}

/// The retry policy for spawning: a name conflict bumps the retry counter
/// and tries again; any other code ends the attempt.
pub fn spawn_retry_step(res: ReturnCode, additional: u32) -> (r: SpawnStep)
    requires
        additional < u32::MAX,
    ensures
        res == ReturnCode::NameExists ==> r == SpawnStep::Retry((additional + 1) as u32),
        res != ReturnCode::NameExists ==> r == SpawnStep::Done(res),
{
    if res == ReturnCode::NameExists {
        SpawnStep::Retry(additional + 1)
    } else {
        SpawnStep::Done(res)
    }
}

} // verus!
