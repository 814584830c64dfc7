use vstd::prelude::*;

use crate::error::BuildError;

verus! {

/// The two unit registries of a project, built one after the other.
#[derive(Clone, Copy, Debug, PartialEq, Eq, Structural)]
pub enum Registry {
    /// Textures of model units.
    Model,
    /// Textures of texture-mod units.
    TextureMod,
}

/// Where a build run stands.
#[derive(Clone, Copy, Debug, PartialEq, Eq, Structural)]
pub enum RunState {
    /// The next batch to run is that of this registry.
    Building(Registry),
    /// The run is over; `true` when every batch succeeded.
    Done(bool),
}

/// The state after the batch of `state`'s registry finished, `ok` when all its units were
/// built. A failed batch ends the run at once: the second registry is not attempted.
pub open spec fn step(state: RunState, ok: bool) -> RunState {
    match state {
        RunState::Building(Registry::Model) => if ok {
            RunState::Building(Registry::TextureMod)
        } else {
            RunState::Done(false)
        },
        RunState::Building(Registry::TextureMod) => RunState::Done(ok),
        RunState::Done(s) => RunState::Done(s),
    }
}

impl RunState {
    /// A run starts with the model registry.
    pub fn start() -> (r: RunState)
        ensures
            r == RunState::Building(Registry::Model),
    {
        RunState::Building(Registry::Model)
    }

    /// The state that follows once the current registry's batch finished, `ok` when all
    /// of its units were built.
    pub fn next(self, ok: bool) -> (r: RunState)
        ensures
            r == step(self, ok),
    {
        match self {
            RunState::Building(Registry::Model) => if ok {
                RunState::Building(Registry::TextureMod)
            } else {
                RunState::Done(false)
            },
            RunState::Building(Registry::TextureMod) => RunState::Done(ok),
            RunState::Done(s) => RunState::Done(s),
        }
    }
}

/// The outcome of one registry's batch: success when every unit was built, otherwise
/// the error of the first failed unit in `results`.
pub fn batch_outcome(results: &Vec<Result<(), BuildError>>) -> (r: Result<(), BuildError>)
    ensures
        r is Ok <==> forall|i: int| 0 <= i < results@.len() ==> (#[trigger] results@[i]) is Ok,
        r matches Err(e) ==> exists|i: int|
            0 <= i < results@.len() && #[trigger] results@[i] == Err::<(), BuildError>(e)
                && forall|j: int| 0 <= j < i ==> (#[trigger] results@[j]) is Ok,
{
    let mut i: usize = 0;
    while i < results.len()
        invariant
            i <= results@.len(),
            forall|j: int| 0 <= j < i ==> (#[trigger] results@[j]) is Ok,
        decreases results@.len() - i,
    {
        match &results[i] {
            Err(e) => {
                assert(results@[i as int] == Err::<(), BuildError>(*e));
                return Err(*e);
            },
            Ok(()) => {},
        }
        i = i + 1;
    }
    Ok(())
}

/// A run succeeds exactly when both registries' batches succeed, and a failed model
/// batch ends the run before the texture-mod batch.
pub proof fn lemma_run_needs_both(model_ok: bool, mod_ok: bool)
    ensures
        step(RunState::Building(Registry::Model), false) == RunState::Done(false),
        model_ok ==> step(step(RunState::Building(Registry::Model), model_ok), mod_ok)
            == RunState::Done(mod_ok),
{
}

} // verus!
