//! Unit wrappers: per-tick snapshots with persisted behavior state.
//!
//! A unit's ID doubles as its classification: the part of the name before
//! the first `:` names the job, derived once at first observation and
//! immutable for the unit's lifetime.  The task list is the unit's persisted
//! mutable state, re-read from the store on every refresh but deserialized
//! only when the raw record has changed since it was last read.

use vstd::prelude::*;
use vstd::string::*;
use crate::codec;
use crate::host::{Action, CreepHandle, Pos, PosV, SourceInfo};
use crate::store::{creep_key, creep_key_of, Store};
use crate::task::{Task, TaskV};

verus! {

/// Placeholder lifetime reported while a unit is still spawning, when the
/// host leaves the real counter undefined.
pub const SPAWNING_TICKS_PLACEHOLDER: u32 = 1500;

/// A unit's job classification, encoded as a prefix of its ID.
#[derive(Clone, Copy, PartialEq, Eq, Structural, Debug)]
pub enum Job {
    Upgrader,
    Starter,
    Builder,
    Unassigned,
}

/// Display name of each job.
pub open spec fn spec_job_str(j: Job) -> Seq<char> {
    match j {
        Job::Upgrader => "Upgrader"@,
        Job::Starter => "Starter"@,
        Job::Builder => "Builder"@,
        Job::Unassigned => "Unassigned"@,
    }
}

/// Job named by a string; anything unrecognized is `Unassigned`.
pub open spec fn spec_job_from(s: Seq<char>) -> Job {
    if s == "Upgrader"@ {
        Job::Upgrader
    } else if s == "Starter"@ {
        Job::Starter
    } else if s == "Builder"@ {
        Job::Builder
    } else {
        Job::Unassigned
    }
}

/// Classification encoded in a unit ID: the prefix before the first `:`.
pub open spec fn spec_classify(name: Seq<char>) -> Job {
    spec_job_from(name.take(crate::text::first_index_of(name, ':')))
}

impl Job {
    /// Job named by a string; anything unrecognized is `Unassigned`.
    pub fn from_string(job: String) -> (r: Job)
        ensures
            r == spec_job_from(job@),
    {
        if crate::text::str_eq(job.as_str(), "Upgrader") {
            Job::Upgrader
        } else if crate::text::str_eq(job.as_str(), "Starter") {
            Job::Starter
        } else if crate::text::str_eq(job.as_str(), "Builder") {
            Job::Builder
        } else {
            Job::Unassigned
        }
    }

    /// The job's display name.
    pub fn as_str(&self) -> (r: &str)
        ensures
            r@ == spec_job_str(*self),
    {
        match self {
            Job::Upgrader => "Upgrader",
            Job::Starter => "Starter",
            Job::Builder => "Builder",
            Job::Unassigned => "Unassigned",
        }
    }
}

/// Classification encoded in a unit ID.
pub fn classify(name: &str) -> (r: Job)
    ensures
        r == spec_classify(name@),
{
    let idx = crate::text::find_char(name, ':');
    let prefix = name.substring_char(0, idx);
    proof {
        assert(prefix@ == name@.take(crate::text::first_index_of(name@, ':')));
    }
    Job::from_string(String::from_str(prefix))
}

/// Ghost image of a [`Creep`].
#[verifier::ext_equal]
pub struct CreepV {
    pub name: Seq<char>,
    pub job: Job,
    pub spawning: bool,
    pub carry_total: u32,
    pub carry_capacity: u32,
    pub ticks_to_live: u32,
    pub pos: PosV,
    pub tasks: Seq<TaskV>,
    pub raw_tasks: Option<Seq<char>>,
}

/// A cached unit: snapshot fields refreshed each tick, plus the persisted
/// classification and task list that survive across ticks.
pub struct Creep {
    name: String,
    spawning: bool,
    carry_total: u32,
    carry_capacity: u32,
    ticks_to_live: u32,
    pos: Pos,
    job: Job,
    tasks: Vec<Task>,
    raw_tasks: Option<String>,
}

impl View for Creep {
    type V = CreepV;

    closed spec fn view(&self) -> CreepV {
        CreepV {
            name: self.name@,
            job: self.job,
            spawning: self.spawning,
            carry_total: self.carry_total,
            carry_capacity: self.carry_capacity,
            ticks_to_live: self.ticks_to_live,
            pos: self.pos@,
            tasks: self.tasks@.map_values(|t: Task| t@),
            raw_tasks: match self.raw_tasks {
                Some(ref s) => Some(s@),
                None => None,
            },
        }
    }
}

impl Clone for Creep {
    fn clone(&self) -> (r: Self)
        ensures
            r@ == self@,
    {
        let mut tasks: Vec<Task> = Vec::new();
        let n = self.tasks.len();
        let mut i: usize = 0;
        while i < n
            invariant
                n == self.tasks@.len(),
                i <= n,
                tasks@.len() == i,
                forall|j: int| 0 <= j < i ==> tasks@[j]@ == self.tasks@[j]@,
            decreases n - i,
        {
            tasks.push(self.tasks[i].clone());
            i += 1;
        }
        let r = Creep {
            name: self.name.clone(),
            spawning: self.spawning,
            carry_total: self.carry_total,
            carry_capacity: self.carry_capacity,
            ticks_to_live: self.ticks_to_live,
            pos: self.pos.clone(),
            job: self.job,
            tasks,
            raw_tasks: match &self.raw_tasks {
                Some(s) => Some(s.clone()),
                None => None,
            },
        };
        proof {
            assert(r@.tasks =~= self@.tasks);
            assert(r@ =~= self@);
        }
        r
    }
}

/// The raw task record stored for a unit of the given name, if any.
pub open spec fn spec_raw_for(st: Map<Seq<char>, Seq<char>>, name: Seq<char>) -> Option<
    Seq<char>,
> {
    if st.contains_key(creep_key(name)) {
        Some(st[creep_key(name)])
    } else {
        None
    }
}

/// How the cached task list reacts to the raw record read this tick: an
/// unchanged or absent record keeps the cache, a changed record replaces it
/// when it parses and is otherwise ignored.
pub open spec fn spec_tasks_update(
    cur_tasks: Seq<TaskV>,
    cur_raw: Option<Seq<char>>,
    raw: Option<Seq<char>>,
) -> (Seq<TaskV>, Option<Seq<char>>) {
    if raw == cur_raw {
        (cur_tasks, cur_raw)
    } else {
        match raw {
            None => (cur_tasks, cur_raw),
            Some(r) => match codec::parse_tasks(r) {
                Some(ts) => (ts, Some(r)),
                None => (cur_tasks, cur_raw),
            },
        }
    }
}

/// A unit as first observed: classification derived from the ID, snapshot
/// fields from the handle, task list loaded from the store.
pub open spec fn spec_fresh_creep(h: CreepHandle, raw: Option<Seq<char>>) -> CreepV {
    CreepV {
        name: h.name@,
        job: spec_classify(h.name@),
        spawning: h.spawning,
        carry_total: h.carry_total,
        carry_capacity: h.carry_capacity,
        ticks_to_live: if h.spawning {
            SPAWNING_TICKS_PLACEHOLDER
        } else {
            h.ticks_to_live->0
        },
        pos: h.pos@,
        tasks: spec_tasks_update(Seq::empty(), None, raw).0,
        raw_tasks: spec_tasks_update(Seq::empty(), None, raw).1,
    }
}

/// A cached unit refreshed against this tick's handle: identity fields kept,
/// snapshot fields rebound, task list re-read as [`spec_tasks_update`] says.
/// The lifetime counter is read only when the unit is not spawning.
pub open spec fn spec_refreshed_creep(c: CreepV, h: CreepHandle, raw: Option<Seq<char>>) -> CreepV {
    CreepV {
        name: c.name,
        job: c.job,
        spawning: h.spawning,
        carry_total: h.carry_total,
        carry_capacity: h.carry_capacity,
        ticks_to_live: if h.spawning {
            c.ticks_to_live
        } else {
            h.ticks_to_live->0
        },
        pos: h.pos@,
        tasks: spec_tasks_update(c.tasks, c.raw_tasks, raw).0,
        raw_tasks: spec_tasks_update(c.tasks, c.raw_tasks, raw).1,
    }
}

impl Creep {
    /// Builds the wrapper for a unit first observed this tick.
    pub fn from(handle: &CreepHandle, store: &Store) -> (r: Creep)
        requires
            handle.wf(),
        ensures
            r@ == spec_fresh_creep(*handle, spec_raw_for(store@, handle.name@)),
    {
        let key = creep_key_of(handle.name.as_str());
        let raw = store.get(key.as_str());
        let ticks_to_live = if handle.spawning {
            SPAWNING_TICKS_PLACEHOLDER
        } else {
            match handle.ticks_to_live {
                Some(t) => t,
                None => SPAWNING_TICKS_PLACEHOLDER,
            }
        };
        let (tasks, raw_tasks) = match raw {
            None => (Vec::new(), None),
            Some(r) => match codec::deserialize_tasks(r.as_str()) {
                Some(ts) => (ts, Some(r)),
                None => (Vec::new(), None),
            },
        };
        let r = Creep {
            name: handle.name.clone(),
            spawning: handle.spawning,
            carry_total: handle.carry_total,
            carry_capacity: handle.carry_capacity,
            ticks_to_live,
            pos: handle.pos.clone(),
            job: classify(handle.name.as_str()),
            tasks,
            raw_tasks,
        };
        proof {
            assert(r@ =~= spec_fresh_creep(*handle, spec_raw_for(store@, handle.name@)));
        }
        r
    }

    /// Rebinds the snapshot fields from this tick's handle and re-reads the
    /// persisted task record, deserializing only when it changed.
    pub fn refresh(&mut self, handle: &CreepHandle, store: &Store)
        requires
            handle.wf(),
        ensures
            final(self)@ == spec_refreshed_creep(
                old(self)@,
                *handle,
                spec_raw_for(store@, handle.name@),
            ),
    {
        self.spawning = handle.spawning;
        self.carry_total = handle.carry_total;
        self.carry_capacity = handle.carry_capacity;
        if !handle.spawning {
            self.ticks_to_live = match handle.ticks_to_live {
                Some(t) => t,
                None => SPAWNING_TICKS_PLACEHOLDER,
            };
        }
        self.pos = handle.pos.clone();
        let key = creep_key_of(handle.name.as_str());
        let raw = store.get(key.as_str());
        match raw {
            None => {},
            Some(r) => {
                let unchanged = match &self.raw_tasks {
                    Some(cur) => crate::text::str_eq(cur.as_str(), r.as_str()),
                    None => false,
                };
                if !unchanged {
                    match codec::deserialize_tasks(r.as_str()) {
                        Some(ts) => {
                            self.tasks = ts;
                            self.raw_tasks = Some(r);
                        },
                        None => {},
                    }
                }
            },
        }
        proof {
            assert(self@ =~= spec_refreshed_creep(
                old(self)@,
                *handle,
                spec_raw_for(store@, handle.name@),
            ));
        }
    }

    /// Replaces the unit's task list and persists its printed record, so
    /// that the next refresh reads back exactly what was written.
    pub fn save_tasks(&mut self, tasks: Vec<Task>, store: &mut Store)
        requires
            old(store).wf(),
        ensures
            final(store).wf(),
            final(store)@ == old(store)@.insert(
                creep_key(old(self)@.name),
                codec::print_tasks(tasks@.map_values(|t: Task| t@)),
            ),
            final(self)@ == (CreepV {
                tasks: tasks@.map_values(|t: Task| t@),
                raw_tasks: Some(codec::print_tasks(tasks@.map_values(|t: Task| t@))),
                ..old(self)@
            }),
    {
        let packed = codec::serialize_tasks(&tasks);
        let key = creep_key_of(self.name.as_str());
        store.set(key.as_str(), packed.clone());
        self.tasks = tasks;
        self.raw_tasks = Some(packed);
        proof {
            assert(self@ =~= (CreepV {
                tasks: self.tasks@.map_values(|t: Task| t@),
                raw_tasks: self@.raw_tasks,
                ..old(self)@
            }));
        }
    }

    /// The unit's stable ID.
    pub fn name(&self) -> (r: &str)
        ensures
            r@ == self@.name,
    {
        self.name.as_str()
    }

    /// Whether the unit is still spawning this tick.
    pub fn spawning(&self) -> (r: bool)
        ensures
            r == self@.spawning,
    {
        self.spawning
    }

    /// Resources currently carried.
    pub fn carry_total(&self) -> (r: u32)
        ensures
            r == self@.carry_total,
    {
        self.carry_total
    }

    /// Carrying capacity.
    pub fn carry_capacity(&self) -> (r: u32)
        ensures
            r == self@.carry_capacity,
    {
        self.carry_capacity
    }

    /// Remaining lifetime as last read (a placeholder while spawning).
    pub fn ticks_to_live(&self) -> (r: u32)
        ensures
            r == self@.ticks_to_live,
    {
        self.ticks_to_live
    }

    /// This tick's position.
    pub fn pos(&self) -> (r: &Pos)
        ensures
            r@ == self@.pos,
    {
        &self.pos
    }

    /// ID of the region the unit stands in.
    pub fn room(&self) -> (r: &String)
        ensures
            r@ == self@.pos.room,
    {
        &self.pos.room
    }

    /// The classification derived from the ID at first observation.
    pub fn job(&self) -> (r: &Job)
        ensures
            *r == self@.job,
    {
        &self.job
    }

    /// The unit's current task list.
    pub fn tasks(&self) -> (r: &Vec<Task>)
        ensures
            r@.map_values(|t: Task| t@) == self@.tasks,
    {
        &self.tasks
    }

    /// The move command toward a target position, for the driver to issue
    /// against this unit's live handle.
    pub fn move_to(&self, target: &Pos) -> (r: Action)
        ensures
            r matches Action::MoveTo(p) && p@ == target@,
    {
        Action::MoveTo(target.clone())
    }

    /// The harvest command against a source, for the driver to issue.
    pub fn harvest(&self, source: &SourceInfo) -> (r: Action)
        ensures
            r matches Action::HarvestFrom(id) && id@ == source.id@,
    {
        Action::HarvestFrom(source.id.clone())
    }

    /// The build command against a construction site, for the driver to
    /// issue.
    pub fn build(&self, construction_site_id: &str) -> (r: Action)
        ensures
            r matches Action::Build(id) && id@ == construction_site_id@,
    {
        Action::Build(String::from_str(construction_site_id))
    }

    /// The controller-upgrade command, for the driver to issue.
    pub fn upgrade_controller(&self, controller_id: &str) -> (r: Action)
        ensures
            r matches Action::UpgradeController(id) && id@ == controller_id@,
    {
        Action::UpgradeController(String::from_str(controller_id))
    }

    /// The command that hands over all carried energy, for the driver to
    /// issue.
    pub fn transfer_all_energy(&self, target_id: &str) -> (r: Action)
        ensures
            r matches Action::TransferAllEnergy(id) && id@ == target_id@,
    {
        Action::TransferAllEnergy(String::from_str(target_id))
    }
}

} // verus!
