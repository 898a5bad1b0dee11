//! The task framework: a closed union of behavior variants.
//!
//! A task is a serializable state machine attached to a unit.  Every variant
//! answers to the same three operations — `name`, `start`, `execute` — and
//! adding a behavior kind means adding a variant to [`Task`], matched
//! exhaustively wherever tasks are dispatched.

use vstd::prelude::*;
use crate::creep::Creep;
use crate::harvest::{Harvest, HarvestV};
use crate::host::{Action, SourceInfo, SourceLookup};

verus! {

/// How a task execution can fail.  `Invalid` reports a false runtime
/// precondition, `OptionFailed` an absent expected value (an unresolved
/// target), `ConversionError` a host identifier that could not be parsed,
/// and `Unclassified` any other collaborator failure.
#[derive(Clone, Copy, PartialEq, Eq, Structural, Debug)]
pub enum TaskError {
    Invalid,
    OptionFailed,
    ConversionError,
    Unclassified,
}

/// Shorthand for lifting an absent optional into a task error.
pub trait TaskOption<T>: Sized {
    fn ok_or_invalid(self) -> Result<T, TaskError>;
}

impl<T> TaskOption<T> for Option<T> {
    fn ok_or_invalid(self) -> (r: Result<T, TaskError>)
        ensures
            self is Some ==> r == Ok::<T, TaskError>(self->0),
            self is None ==> r == Err::<T, TaskError>(TaskError::OptionFailed),
    {
        match self {
            Some(v) => Ok(v),
            None => Err(TaskError::OptionFailed),
        }
    }
}

/// What task execution decides: either an action for the driver to issue,
/// or an error telling the caller to discard or replace the task.
pub type TaskResult = Result<Action, TaskError>;

/// The three-operation contract every task variant implements.
pub trait TaskTrait {
    fn name(&self) -> &str;

    fn start(&mut self, creep: &Creep, sources: &Vec<SourceInfo>);

    fn execute(&self, creep: &Creep, lookup: &SourceLookup) -> TaskResult;
}

/// A unit's behavior state: one variant per behavior kind.
#[derive(Debug)]
pub enum Task {
    Harvest(Harvest),
}

/// Ghost image of a [`Task`].
#[verifier::ext_equal]
pub enum TaskV {
    Harvest(HarvestV),
}

impl View for Task {
    type V = TaskV;

    open spec fn view(&self) -> TaskV {
        match self {
            Task::Harvest(h) => TaskV::Harvest(h@),
        }
    }
}

impl Clone for Task {
    fn clone(&self) -> (r: Self)
        ensures
            r@ == self@,
    {
        match self {
            Task::Harvest(h) => Task::Harvest(h.clone()),
        }
    }
}

impl Task {
    /// The variant's display name.
    pub fn name(&self) -> (r: &str)
        ensures
            self@ matches TaskV::Harvest(_) ==> r@ == "Harvest"@,
    {
        match self {
            Task::Harvest(h) => h.name(),
        }
    }

    /// One-time setup: resolves derived fields from this tick's candidates.
    pub fn start(&mut self, creep: &Creep, sources: &Vec<SourceInfo>)
        ensures
            old(self)@ matches TaskV::Harvest(h0) ==> final(self)@ matches TaskV::Harvest(h1)
                && crate::harvest::spec_started(h0, sources@, h1),
    {
        match self {
            Task::Harvest(h) => h.start(creep, sources),
        }
    }

    /// Re-validates preconditions and decides this tick's action.
    pub fn execute(&self, creep: &Creep, lookup: &SourceLookup) -> (r: TaskResult)
        ensures
            self@ matches TaskV::Harvest(h) ==> crate::harvest::spec_executed(
                h,
                creep@,
                *lookup,
                r,
            ),
    {
        match self {
            Task::Harvest(h) => h.execute(creep, lookup),
        }
    }
}

} // verus!
