//! Adding points to a user: under the user's lock, the increase is first
//! requested from the commit coordinator, and completed only if the request
//! allowed it; then the lock is released.
use crate::dist_mutex::MutexError;
use crate::packet_dispatcher::error::{add_points_steps_spec, PacketDispatcherError};
use vstd::prelude::*;

verus! {

/// Where an addition of points stands.
#[derive(PartialEq, Eq, Copy, Clone, Debug, Hash)]
pub enum AddPointsState {
    /// The user's mutex is being acquired.
    Acquiring,
    /// The commit request was sent; its answer is awaited.
    Requesting,
    /// The completion of the commit was sent; its answer is awaited.
    Completing,
    /// The mutex is being released; the addition ends with this result.
    Releasing(Result<(), PacketDispatcherError>),
    /// The addition ended with this result.
    Done(Result<(), PacketDispatcherError>),
}

/// What happened during an addition of points.
#[derive(PartialEq, Eq, Debug)]
pub enum AddPointsEvent {
    /// The user's mutex answered the acquisition.
    Acquired(Result<(), MutexError>),
    /// The commit coordinator answered the request: whether the points can
    /// be added, or why the request failed.
    RequestAnswered(Result<bool, PacketDispatcherError>),
    /// The commit coordinator answered the completion: whether it
    /// succeeded, or why it could not be asked.
    CompletionAnswered(Result<bool, PacketDispatcherError>),
    /// The release was sent; whether the mutex could be reached.
    Released(bool),
    /// The user's mutex could not be reached at all.
    MutexUnreachable,
}

/// What to do next in an addition of points.
#[derive(PartialEq, Eq, Copy, Clone, Debug, Hash)]
pub enum AddPointsAction {
    SendCommitRequest,
    SendCommitComplete,
    Release,
    Finish(Result<(), PacketDispatcherError>),
}

/// The next state and action of an addition of points in state `state` on
/// `event`. An event that does not belong to the state changes nothing.
pub open spec fn add_points_step(state: AddPointsState, event: AddPointsEvent) -> (AddPointsState, Option<AddPointsAction>) {
    match (state, event) {
        (AddPointsState::Done(_), _) => (state, None),
        (_, AddPointsEvent::MutexUnreachable) => (
            AddPointsState::Done(Err(PacketDispatcherError::ActixMailboxFull)),
            Some(AddPointsAction::Finish(Err(PacketDispatcherError::ActixMailboxFull))),
        ),
        (AddPointsState::Acquiring, AddPointsEvent::Acquired(Ok(()))) => (
            AddPointsState::Requesting,
            Some(AddPointsAction::SendCommitRequest),
        ),
        (AddPointsState::Acquiring, AddPointsEvent::Acquired(Err(_))) => (
            AddPointsState::Done(Err(PacketDispatcherError::IncreaseFailed)),
            Some(AddPointsAction::Finish(Err(PacketDispatcherError::IncreaseFailed))),
        ),
        (AddPointsState::Requesting, AddPointsEvent::RequestAnswered(Ok(true))) => (
            AddPointsState::Completing,
            Some(AddPointsAction::SendCommitComplete),
        ),
        (AddPointsState::Requesting, AddPointsEvent::RequestAnswered(answer)) => (
            AddPointsState::Releasing(add_points_steps_spec(answer, Ok(true))),
            Some(AddPointsAction::Release),
        ),
        (AddPointsState::Completing, AddPointsEvent::CompletionAnswered(answer)) => (
            AddPointsState::Releasing(add_points_steps_spec(Ok(true), answer)),
            Some(AddPointsAction::Release),
        ),
        (AddPointsState::Releasing(result), AddPointsEvent::Released(true)) => (
            AddPointsState::Done(result),
            Some(AddPointsAction::Finish(result)),
        ),
        (AddPointsState::Releasing(_), AddPointsEvent::Released(false)) => (
            AddPointsState::Done(Err(PacketDispatcherError::IncreaseFailed)),
            Some(AddPointsAction::Finish(Err(PacketDispatcherError::IncreaseFailed))),
        ),
        _ => (state, None),
    }
}

/// The next state and action of an addition of points.
pub fn add_points_next(state: AddPointsState, event: AddPointsEvent) -> (r: (AddPointsState, Option<AddPointsAction>))
    ensures
        r == add_points_step(state, event),
{
    match (state, event) {
        (AddPointsState::Done(_), _) => (state, None),
        (_, AddPointsEvent::MutexUnreachable) => (
            AddPointsState::Done(Err(PacketDispatcherError::ActixMailboxFull)),
            Some(AddPointsAction::Finish(Err(PacketDispatcherError::ActixMailboxFull))),
        ),
        (AddPointsState::Acquiring, AddPointsEvent::Acquired(Ok(()))) => (
            AddPointsState::Requesting,
            Some(AddPointsAction::SendCommitRequest),
        ),
        (AddPointsState::Acquiring, AddPointsEvent::Acquired(Err(_))) => (
            AddPointsState::Done(Err(PacketDispatcherError::IncreaseFailed)),
            Some(AddPointsAction::Finish(Err(PacketDispatcherError::IncreaseFailed))),
        ),
        (AddPointsState::Requesting, AddPointsEvent::RequestAnswered(Ok(true))) => (
            AddPointsState::Completing,
            Some(AddPointsAction::SendCommitComplete),
        ),
        (AddPointsState::Requesting, AddPointsEvent::RequestAnswered(answer)) => {
            let result = match answer {
                Err(e) => Err(e),
                Ok(_) => Err(PacketDispatcherError::IncreaseFailed),
            };
            (AddPointsState::Releasing(result), Some(AddPointsAction::Release))
        },
        (AddPointsState::Completing, AddPointsEvent::CompletionAnswered(answer)) => {
            let result = match answer {
                Err(e) => Err(e),
                Ok(true) => Ok(()),
                Ok(false) => Err(PacketDispatcherError::IncreaseFailed),
            };
            (AddPointsState::Releasing(result), Some(AddPointsAction::Release))
        },
        (AddPointsState::Releasing(result), AddPointsEvent::Released(true)) => (
            AddPointsState::Done(result),
            Some(AddPointsAction::Finish(result)),
        ),
        (AddPointsState::Releasing(_), AddPointsEvent::Released(false)) => (
            AddPointsState::Done(Err(PacketDispatcherError::IncreaseFailed)),
            Some(AddPointsAction::Finish(Err(PacketDispatcherError::IncreaseFailed))),
        ),
        _ => (state, None),
    }
}

/// The completion of the commit is asked for only after the request
/// allowed the points, while the lock is held.
pub proof fn lemma_completion_only_after_allowed(state: AddPointsState, event: AddPointsEvent)
    requires
        add_points_step(state, event).1 == Some(AddPointsAction::SendCommitComplete),
    ensures
        state == AddPointsState::Requesting,
        event == AddPointsEvent::RequestAnswered(Ok(true)),
{
}

/// The commit is requested only once the lock is held, as the first step.
pub proof fn lemma_request_first(state: AddPointsState, event: AddPointsEvent)
    requires
        add_points_step(state, event).1 == Some(AddPointsAction::SendCommitRequest),
    ensures
        state == AddPointsState::Acquiring,
        event matches AddPointsEvent::Acquired(Ok(_)),
{
}

/// An addition succeeds only through a completed commit and a delivered
/// release: every success passes through releasing the lock.
pub proof fn lemma_success_after_release(state: AddPointsState, event: AddPointsEvent)
    requires
        add_points_step(state, event).1 == Some(AddPointsAction::Finish(Ok(()))),
    ensures
        state == AddPointsState::Releasing(Ok(())),
        event == AddPointsEvent::Released(true),
{
}

/// A release that carries success is asked only when the completion
/// succeeded.
pub proof fn lemma_release_success_after_completion(state: AddPointsState, event: AddPointsEvent)
    requires
        add_points_step(state, event) == (AddPointsState::Releasing(Ok(())), Some(AddPointsAction::Release)),
    ensures
        state == AddPointsState::Completing,
        event == AddPointsEvent::CompletionAnswered(Ok(true)),
{
}

/// While the user's lock is held (a request or a completion is awaited),
/// no step ends the addition: every answer leads to releasing the lock
/// first. Only a mutex that cannot be reached at all ends it at once.
pub proof fn lemma_lock_held_steps_release(state: AddPointsState, event: AddPointsEvent)
    requires
        state is Requesting || state is Completing,
        !(event is MutexUnreachable),
    ensures
        !(add_points_step(state, event).0 is Done),
        !(add_points_step(state, event).1 matches Some(AddPointsAction::Finish(_))),
{
}

/// An addition ends (with any result) only from acquiring (the lock was not
/// taken), from releasing (the lock was let go), or when the mutex cannot be
/// reached.
pub proof fn lemma_finish_only_without_lock(state: AddPointsState, event: AddPointsEvent)
    requires
        add_points_step(state, event).1 matches Some(AddPointsAction::Finish(_)),
    ensures
        state is Acquiring || state is Releasing || event is MutexUnreachable,
{
}

/// Every answer to the completion, successful or not, leads to releasing
/// the lock.
pub proof fn lemma_completion_answer_releases(answer: Result<bool, PacketDispatcherError>)
    ensures
        add_points_step(AddPointsState::Completing, AddPointsEvent::CompletionAnswered(answer)).1
            == Some(AddPointsAction::Release),
        add_points_step(AddPointsState::Completing, AddPointsEvent::CompletionAnswered(answer)).0 is Releasing,
{
}

} // verus!
