//! The harvest behavior: walk to an energy source and draw from it.

use vstd::prelude::*;
use crate::creep::{Creep, CreepV};
use crate::host::{spec_near, Action, SourceInfo, SourceLookup};
use crate::task::{TaskError, TaskResult, TaskTrait};

verus! {

/// Harvest task state: the resolved target source ID, once known.
#[derive(Debug)]
pub struct Harvest {
    _source_id: Option<String>,
}

/// Ghost image of a [`Harvest`].
#[verifier::ext_equal]
pub struct HarvestV {
    pub source_id: Option<Seq<char>>,
}

impl View for Harvest {
    type V = HarvestV;

    closed spec fn view(&self) -> HarvestV {
        HarvestV {
            source_id: match self._source_id {
                Some(ref s) => Some(s@),
                None => None,
            },
        }
    }
}

impl Clone for Harvest {
    fn clone(&self) -> (r: Self)
        ensures
            r@ == self@,
    {
        Harvest {
            _source_id: match &self._source_id {
                Some(s) => Some(s.clone()),
                None => None,
            },
        }
    }
}

impl Default for Harvest {
    /// A fresh harvest task with no target resolved yet.
    fn default() -> (r: Self)
        ensures
            r@.source_id is None,
    {
        Harvest { _source_id: None }
    }
}

/// A harvest attempt is invalid when the target is depleted with no quick
/// regeneration ahead, or the unit has no room left to carry more.
pub open spec fn spec_invalid(creep: CreepV, source: SourceInfo) -> bool {
    ||| source.energy == 0 && source.ticks_to_regeneration > 10
    ||| creep.carry_total == creep.carry_capacity
}

/// ID of the first listed source that still holds energy, if any.
pub open spec fn spec_first_energetic(sources: Seq<SourceInfo>) -> Option<Seq<char>>
    decreases sources.len(),
{
    if sources.len() == 0 {
        None
    } else if sources[0].energy > 0 {
        Some(sources[0].id@)
    } else {
        spec_first_energetic(sources.drop_first())
    }
}

proof fn lemma_first_energetic(sources: Seq<SourceInfo>, i: int)
    requires
        0 <= i <= sources.len(),
        forall|j: int| 0 <= j < i ==> sources[j].energy == 0,
        i < sources.len() ==> sources[i].energy > 0,
    ensures
        spec_first_energetic(sources) == if i < sources.len() {
            Some(sources[i].id@)
        } else {
            Option::<Seq<char>>::None
        },
    decreases sources.len(),
{
    if i > 0 {
        lemma_first_energetic(sources.drop_first(), i - 1);
    }
}

/// How `start` relates the task state before and after target resolution.
pub open spec fn spec_started(pre: HarvestV, sources: Seq<SourceInfo>, post: HarvestV) -> bool {
    if pre.source_id is Some {
        post == pre
    } else {
        post.source_id == spec_first_energetic(sources)
    }
}

/// What `execute` decides, for every task state, unit and lookup outcome.
pub open spec fn spec_executed(
    task: HarvestV,
    creep: CreepV,
    lookup: SourceLookup,
    r: TaskResult,
) -> bool {
    match task.source_id {
        None => r == Err::<Action, TaskError>(TaskError::OptionFailed),
        Some(_) => match lookup {
            SourceLookup::ConversionFailed => r == Err::<Action, TaskError>(
                TaskError::ConversionError,
            ),
            SourceLookup::NotFound => r == Err::<Action, TaskError>(TaskError::OptionFailed),
            SourceLookup::Found(source) => {
                if spec_invalid(creep, source) {
                    r == Err::<Action, TaskError>(TaskError::Invalid)
                } else if spec_near(creep.pos, source.pos@) {
                    &&& r matches Ok(a)
                    &&& a matches Action::HarvestFrom(id) && id@ == source.id@
                } else {
                    &&& r matches Ok(a)
                    &&& a matches Action::MoveTo(p) && p@ == source.pos@
                }
            },
        },
    }
}

impl Harvest {
    /// A harvest task with the given resolved target, or none.
    pub fn new(source_id: Option<String>) -> (r: Harvest)
        ensures
            r@.source_id == (match source_id {
                Some(s) => Some(s@),
                None => None::<Seq<char>>,
            }),
    {
        Harvest { _source_id: source_id }
    }

    /// The resolved target source ID, if resolution has happened.
    pub fn source_id(&self) -> (r: &Option<String>)
        ensures
            self@.source_id == (match r {
                Some(s) => Some(s@),
                None => None::<Seq<char>>,
            }),
    {
        &self._source_id
    }

    /// Re-validation run on every execution attempt.
    fn is_valid(&self, creep: &Creep, source: &SourceInfo) -> (r: Result<(), TaskError>)
        ensures
            r == if spec_invalid(creep@, *source) {
                Err::<(), TaskError>(TaskError::Invalid)
            } else {
                Ok::<(), TaskError>(())
            },
    {
        if source.energy == 0 && source.ticks_to_regeneration > 10
            || creep.carry_total() == creep.carry_capacity() {
            return Err(TaskError::Invalid);
        }
        Ok(())
    }
}

impl TaskTrait for Harvest {
    fn name(&self) -> (r: &str)
        ensures
            r@ == "Harvest"@,
    {
        "Harvest"
    }

    /// Resolves and caches a target from this tick's source listing; keeps
    /// an already-resolved target.  Resolution failure leaves the target
    /// empty, deferring the failure to `execute`.
    fn start(&mut self, _creep: &Creep, sources: &Vec<SourceInfo>)
        ensures
            spec_started(old(self)@, sources@, final(self)@),
    {
        if self._source_id.is_none() {
            let n = sources.len();
            let mut i: usize = 0;
            while i < n
                invariant
                    n == sources@.len(),
                    i <= n,
                    self@.source_id is None,
                    self == old(self),
                    forall|j: int| 0 <= j < i ==> sources@[j].energy == 0,
                decreases n - i,
            {
                if sources[i].energy > 0 {
                    self._source_id = Some(sources[i].id.clone());
                    proof {
                        lemma_first_energetic(sources@, i as int);
                    }
                    return ;
                }
                i += 1;
            }
            proof {
                lemma_first_energetic(sources@, n as int);
            }
        }
    }

    /// Decides this tick's harvest action: re-validates the stored target
    /// against the lookup outcome, then picks a move or a harvest command.
    fn execute(&self, creep: &Creep, lookup: &SourceLookup) -> (r: TaskResult)
        ensures
            spec_executed(self@, creep@, *lookup, r),
    {
        if self._source_id.is_none() {
            return Err(TaskError::OptionFailed);
        }
        let source = match lookup {
            SourceLookup::ConversionFailed => {
                return Err(TaskError::ConversionError);
            },
            SourceLookup::NotFound => {
                return Err(TaskError::OptionFailed);
            },
            SourceLookup::Found(source) => source,
        };
        match self.is_valid(creep, source) {
            Err(e) => Err(e),
            Ok(()) => {
                if creep.pos().is_near_to(&source.pos) {
                    Ok(creep.harvest(source))
                } else {
                    Ok(creep.move_to(&source.pos))
                }
            },
        }
    }
}

} // verus!
