//! The reload loop: sleep, load a fresh image, install it, sleep again.
//!
//! The loop is a state machine whose transitions are decided here. Whoever runs
//! it does the waiting and the reading of the file, and reports back what
//! happened. A load that fails is reported and skipped: the machine goes back to
//! sleep and the installed snapshot stays.
//!
//! The machine is a value with one owner, and every transition consumes it:
//! cycles follow one another and never overlap.

use crate::database::opened;
use crate::database::OpenFault;
use crate::database::Snapshot;
use crate::state::AppState;
use vstd::prelude::*;

verus! {

/// Where the reload loop stands.
pub enum ReloadLoop {
    /// Waiting for the interval to pass.
    Sleeping,
    /// The interval has passed; a fresh image is to be read and opened.
    Loading,
    /// A fresh snapshot is at hand and is to be installed.
    Installing(Snapshot),
}

/// The failure that an outcome carries, if it is one.
pub open spec fn failure_of(outcome: Result<Snapshot, OpenFault>) -> Option<OpenFault> {
    match outcome {
        Ok(_) => None,
        Err(cause) => Some(cause),
    }
}

impl ReloadLoop {
    /// The machine after the interval has passed.
    pub open spec fn after_interval(self) -> ReloadLoop {
        match self {
            ReloadLoop::Sleeping => ReloadLoop::Loading,
            other => other,
        }
    }

    /// The machine after a load has ended in `outcome`.
    pub open spec fn after_load(self, outcome: Result<Snapshot, OpenFault>) -> ReloadLoop {
        match self {
            ReloadLoop::Loading => match outcome {
                Ok(snapshot) => ReloadLoop::Installing(snapshot),
                Err(_) => ReloadLoop::Sleeping,
            },
            other => other,
        }
    }

    /// The machine after it has installed what it had at hand.
    pub open spec fn after_install(self) -> ReloadLoop {
        match self {
            ReloadLoop::Installing(_) => ReloadLoop::Sleeping,
            other => other,
        }
    }

    /// The holder after the machine has installed what it had at hand.
    pub open spec fn installed_into(self, state: AppState) -> AppState {
        match self {
            ReloadLoop::Installing(snapshot) => state.replaced(snapshot),
            _ => state,
        }
    }

    /// The machine as it starts, right after the first snapshot is installed.
    pub fn new() -> (r: ReloadLoop)
        ensures
            r == ReloadLoop::Sleeping,
    {
        ReloadLoop::Sleeping
    }

    /// The interval has passed: a sleeping machine starts to load.
    pub fn interval_elapsed(self) -> (r: ReloadLoop)
        ensures
            r == self.after_interval(),
    {
        match self {
            ReloadLoop::Sleeping => ReloadLoop::Loading,
            other => other,
        }
    }

    /// A load has ended. A loading machine goes on to install the snapshot, or
    /// back to sleep where there is none. The failure is handed back to be reported.
    pub fn loaded(self, outcome: Result<Snapshot, OpenFault>) -> (r: (
        ReloadLoop,
        Option<OpenFault>,
    ))
        ensures
            r.0 == self.after_load(outcome),
            r.1 == failure_of(outcome),
    {
        match self {
            ReloadLoop::Loading => match outcome {
                Ok(snapshot) => (ReloadLoop::Installing(snapshot), None),
                Err(cause) => (ReloadLoop::Sleeping, Some(cause)),
            },
            other => match outcome {
                Ok(_) => (other, None),
                Err(cause) => (other, Some(cause)),
            },
        }
    }

    /// A fresh image has been read: opens it and takes the outcome as `loaded`
    /// does. An image that is cut short or otherwise out of order is a failure
    /// like any other.
    pub fn load(self, image: Vec<u8>) -> (r: (ReloadLoop, Option<OpenFault>))
        ensures
            match opened(image@) {
                Some(entries) => r.1 is None && match self {
                    ReloadLoop::Loading => r.0 matches ReloadLoop::Installing(snapshot)
                        && snapshot@ == entries,
                    other => r.0 == other,
                },
                None => r.1 is Some && r.0 == self.after_load(Err(r.1.unwrap())),
            },
    {
        self.loaded(Snapshot::open(image))
    }

    /// Installs what the machine has at hand into `state` and goes back to
    /// sleep. In any other state nothing changes.
    pub fn install(self, state: &mut AppState) -> (r: ReloadLoop)
        ensures
            r == self.after_install(),
            *final(state) == self.installed_into(*old(state)),
    {
        match self {
            ReloadLoop::Installing(snapshot) => {
                state.replace(snapshot);
                ReloadLoop::Sleeping
            },
            other => other,
        }
    }
}

/// One cycle with a load that succeeds goes from sleep back to sleep and leaves
/// the fresh snapshot installed.
pub proof fn lemma_cycle_installs(state: AppState, fresh: Snapshot)
    ensures
        ReloadLoop::Sleeping.after_interval() == ReloadLoop::Loading,
        ReloadLoop::Loading.after_load(Ok(fresh)) == ReloadLoop::Installing(fresh),
        ReloadLoop::Installing(fresh).after_install() == ReloadLoop::Sleeping,
        ReloadLoop::Installing(fresh).installed_into(state).database == fresh,
{
}

/// A cycle whose load fails goes back to sleep with the failure to report, and
/// the previous snapshot stays installed, whatever the machine does next short
/// of a load that succeeds.
pub proof fn lemma_failed_load_keeps_snapshot(state: AppState, cause: OpenFault)
    ensures
        ReloadLoop::Loading.after_load(Err(cause)) == ReloadLoop::Sleeping,
        failure_of(Err(cause)) == Some(cause),
        ReloadLoop::Loading.after_load(Err(cause)).installed_into(state) == state,
        ReloadLoop::Loading.after_load(Err(cause)).after_interval().installed_into(state)
            == state,
{
}

/// The machine never comes to rest: from every state one event leads on.
pub proof fn lemma_never_terminal(machine: ReloadLoop, outcome: Result<Snapshot, OpenFault>)
    ensures
        machine is Sleeping ==> machine.after_interval() is Loading,
        machine is Loading ==> !(machine.after_load(outcome) is Loading),
        machine is Installing ==> machine.after_install() is Sleeping,
{
}

/// The holder changes only when a machine that is installing installs.
pub proof fn lemma_only_install_changes_state(machine: ReloadLoop, state: AppState)
    ensures
        !(machine is Installing) ==> machine.installed_into(state) == state,
{
}

} // verus!
