//! Running an action in mutual exclusion: the mutex is acquired, the action
//! runs, and the mutex is released. When the mutex cannot be acquired the
//! action does not run and the error is returned.
use crate::dist_mutex::MutexError;
use crate::packet_dispatcher::error::LockedOutcome;
use vstd::prelude::*;

verus! {

/// Where a run under the lock stands.
#[derive(PartialEq, Eq, Structural, Copy, Clone, Debug, Hash)]
pub enum LockPhase {
    /// The mutex is being acquired.
    Acquiring,
    /// The mutex is held: the action runs, then the mutex is released.
    Running,
    /// The run is over.
    Finished,
}

/// What follows the acquisition.
#[derive(PartialEq, Eq, Clone, Debug)]
pub enum LockStep {
    /// The mutex is held: run the action, then release the mutex.
    RunAction,
    /// The mutex could not be acquired: the action does not run and the run
    /// fails with this error.
    Fail(MutexError),
}

/// A run of an action under the lock of a mutex.
pub struct DoWithLock {
    phase: LockPhase,
}

impl View for DoWithLock {
    type V = LockPhase;

    closed spec fn view(&self) -> LockPhase {
        self.phase
    }
}

impl DoWithLock {
    /// A run that starts by acquiring the mutex.
    pub fn new() -> (r: Self)
        ensures
            r@ == LockPhase::Acquiring,
    {
        DoWithLock { phase: LockPhase::Acquiring }
    }

    /// The acquisition ended with `acquired` (a mutex that could not be
    /// reached counts as a timeout). The action runs only if the mutex is
    /// held.
    pub fn after_acquire(&mut self, acquired: Result<(), MutexError>) -> (s: LockStep)
        requires
            old(self)@ == LockPhase::Acquiring,
        ensures
            acquired is Ok <==> s == LockStep::RunAction,
            acquired matches Err(e) ==> s == LockStep::Fail(e),
            final(self)@ == if acquired is Ok {
                LockPhase::Running
            } else {
                LockPhase::Finished
            },
    {
        match acquired {
            Ok(()) => {
                self.phase = LockPhase::Running;
                LockStep::RunAction
            },
            Err(e) => {
                self.phase = LockPhase::Finished;
                LockStep::Fail(e)
            },
        }
    }

    /// The action ran with result `r`, and then the release was asked
    /// (`released` tells whether the mutex could be reached). The run gives
    /// the action's result; a release that could not be delivered counts as
    /// a timeout.
    pub fn after_action<T>(&mut self, r: T, released: bool) -> (o: LockedOutcome<T>)
        requires
            old(self)@ == LockPhase::Running,
        ensures
            released ==> o == LockedOutcome::Ran(r),
            !released ==> o == LockedOutcome::<T>::NotAcquired(MutexError::Timeout),
            final(self)@ == LockPhase::Finished,
    {
        self.phase = LockPhase::Finished;
        if released {
            LockedOutcome::Ran(r)
        } else {
            LockedOutcome::NotAcquired(MutexError::Timeout)
        }
    }
}

} // verus!
