//! Plain-data snapshots of what the host hands the core each tick.
//!
//! A live handle is only valid for the tick that produced it, so nothing in
//! this crate ever stores one.  Instead the driver reads each live object
//! once per tick and passes these snapshot records in; decisions flow back
//! out as [`Action`] values for the driver to issue.

use vstd::prelude::*;

verus! {

/// A position inside a region, as reported by the host.
#[derive(Debug)]
pub struct Pos {
    pub room: String,
    pub x: u32,
    pub y: u32,
}

/// Ghost image of a [`Pos`].
#[verifier::ext_equal]
pub struct PosV {
    pub room: Seq<char>,
    pub x: u32,
    pub y: u32,
}

impl View for Pos {
    type V = PosV;

    open spec fn view(&self) -> PosV {
        PosV { room: self.room@, x: self.x, y: self.y }
    }
}

impl Clone for Pos {
    fn clone(&self) -> (r: Self)
        ensures
            r@ == self@,
    {
        Pos { room: self.room.clone(), x: self.x, y: self.y }
    }
}

/// Two positions are adjacent when they lie in the same region and differ by
/// at most one step on each axis (a position is adjacent to itself).
pub open spec fn spec_near(a: PosV, b: PosV) -> bool {
    &&& a.room == b.room
    &&& -1 <= a.x - b.x <= 1
    &&& -1 <= a.y - b.y <= 1
}

impl Pos {
    pub fn new(room: String, x: u32, y: u32) -> (r: Pos)
        ensures
            r@ == (PosV { room: room@, x, y }),
    {
        Pos { room, x, y }
    }

    /// Range-one adjacency check, mirroring the host's own notion.
    pub fn is_near_to(&self, other: &Pos) -> (r: bool)
        ensures
            r == spec_near(self@, other@),
    {
        let dx_ok = if self.x >= other.x {
            self.x - other.x <= 1
        } else {
            other.x - self.x <= 1
        };
        let dy_ok = if self.y >= other.y {
            self.y - other.y <= 1
        } else {
            other.y - self.y <= 1
        };
        crate::text::str_eq(self.room.as_str(), other.room.as_str()) && dx_ok && dy_ok
    }
}

/// Status codes the host returns for issued commands.  `Success` is plain
/// success, `NotEnough` is the temporarily-blocked code tolerated during
/// harvesting, `NameExists` is the name-conflict code seen while spawning;
/// everything else is folded into `Other` and treated as a loggable anomaly.
#[derive(Clone, Copy, PartialEq, Eq, Structural, Debug)]
pub enum ReturnCode {
    Success,
    NotEnough,
    NameExists,
    Other,
}

/// One tick's snapshot of a live unit, read by the driver from the host.
///
/// The remaining-lifetime counter is undefined on the host while the unit is
/// still spawning, so the snapshot carries it as an `Option`; well-formed
/// snapshots have it present whenever the unit is not spawning.
#[derive(Debug)]
pub struct CreepHandle {
    pub name: String,
    pub spawning: bool,
    pub carry_total: u32,
    pub carry_capacity: u32,
    pub ticks_to_live: Option<u32>,
    pub pos: Pos,
}

impl CreepHandle {
    /// The host defines the lifetime counter exactly when spawning is over.
    pub open spec fn wf(&self) -> bool {
        !self.spawning ==> self.ticks_to_live is Some
    }
}

/// One tick's snapshot of a live spawn structure.
#[derive(Debug)]
pub struct SpawnHandle {
    pub name: String,
    pub pos: Pos,
    pub energy: u32,
    pub energy_capacity: u32,
}

/// Snapshot of a harvestable source, used when resolving a harvest target.
#[derive(Debug)]
pub struct SourceInfo {
    pub id: String,
    pub pos: Pos,
    pub energy: u32,
    pub ticks_to_regeneration: u32,
}

/// Outcome of asking the host to resolve a stored target ID into a live
/// object: the ID may fail to parse, parse but match nothing this tick, or
/// resolve to a source snapshot.
#[derive(Debug)]
pub enum SourceLookup {
    ConversionFailed,
    NotFound,
    Found(SourceInfo),
}

/// A command decision handed back to the driver, which issues it against the
/// live handle and reports the host's return code.  Commands aimed at an
/// object carry the target's stable ID.
#[derive(Debug)]
pub enum Action {
    MoveTo(Pos),
    HarvestFrom(String),
    Build(String),
    UpgradeController(String),
    TransferAllEnergy(String),
}

} // verus!
