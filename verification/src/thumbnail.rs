//! The cache of thumbnails: a thumbnail is made when it is first asked for,
//! by the one request that manages to create its file, and served from its
//! file ever after.

use vstd::prelude::*;
use crate::http::HttpError;
use crate::server::PhotoServer;

verus! {

/// How far the serving of a thumbnail has come.
#[derive(Debug, Clone, Copy, PartialEq, Eq, Structural)]
pub enum ThumbState {
    /// Nothing was done yet.
    Idle,
    /// The file of the thumbnail is being created.
    Creating,
    /// The thumbnail is being made and written into its new file.
    Generating,
    /// The request was answered.
    Finished,
}

/// What came of the last step.
#[derive(Debug, Clone, Copy, PartialEq, Eq, Structural)]
pub enum ThumbEvent {
    /// A thumbnail is asked for.
    Request,
    /// The file of the thumbnail did not exist and was created, empty.
    Created,
    /// The file of the thumbnail was not created because it exists.
    Exists,
    /// The thumbnail was made and written into its file.
    Stored,
    /// The step failed; `not_found` says whether it failed because a file
    /// or a directory does not exist.
    Failed { not_found: bool },
}

/// What is to be done next.
#[derive(Debug, Clone, Copy, PartialEq, Eq, Structural)]
pub enum ThumbAction {
    /// Make sure that the directory of the thumbnail exists, then create the
    /// file of the thumbnail, failing if the file exists.
    Create,
    /// Read the picture, scale it to the size of a thumbnail and write the
    /// result into the new file.
    Generate,
    /// Open the file of the thumbnail and send it.
    Serve,
    /// Remove the new file, which holds no thumbnail, and answer with the
    /// error of the failed step.
    Discard { not_found: bool },
    /// Answer with the error of the failed step.
    Fail { not_found: bool },
}

/// The next state and the next step, given the state and what came of the
/// last step. A thumbnail is made only after its file was created, which
/// the file system lets happen once; a file that exists is served as it
/// is; and a file that was created but not filled is removed again. A
/// failure is answered in kind; an event out of turn is answered as a
/// failure of the server.
pub open spec fn thumb_step(state: ThumbState, event: ThumbEvent) -> (ThumbState, ThumbAction) {
    match (state, event) {
        (ThumbState::Idle, ThumbEvent::Request) => (ThumbState::Creating, ThumbAction::Create),
        (ThumbState::Creating, ThumbEvent::Created) => (
            ThumbState::Generating,
            ThumbAction::Generate,
        ),
        (ThumbState::Creating, ThumbEvent::Exists) => (ThumbState::Finished, ThumbAction::Serve),
        (ThumbState::Creating, ThumbEvent::Failed { not_found }) => (
            ThumbState::Finished,
            ThumbAction::Fail { not_found },
        ),
        (ThumbState::Generating, ThumbEvent::Stored) => (ThumbState::Finished, ThumbAction::Serve),
        (ThumbState::Generating, ThumbEvent::Failed { not_found }) => (
            ThumbState::Finished,
            ThumbAction::Discard { not_found },
        ),
        _ => (ThumbState::Finished, ThumbAction::Fail { not_found: false }),
    }
}

/// The event that reports the failure of a step with the error `e`.
pub open spec fn failure_of(e: HttpError) -> ThumbEvent {
    ThumbEvent::Failed { not_found: e is NotFound }
}

/// The error that answers the request where the action says so, given the
/// detail of the failed step; `None` for an action that goes on.
pub open spec fn answer_of(action: ThumbAction, detail: String) -> Option<HttpError> {
    match action {
        ThumbAction::Discard { not_found } => Some(
            if not_found {
                HttpError::NotFound
            } else {
                HttpError::Error(detail)
            },
        ),
        ThumbAction::Fail { not_found } => Some(
            if not_found {
                HttpError::NotFound
            } else {
                HttpError::Error(detail)
            },
        ),
        _ => None,
    }
}

/// The state after a run of events.
pub open spec fn state_after(events: Seq<ThumbEvent>) -> ThumbState
    decreases events.len(),
{
    if events.len() == 0 {
        ThumbState::Idle
    } else {
        thumb_step(state_after(events.drop_last()), events.last()).0
    }
}

/// How often a run of events has led to the making of a thumbnail.
pub open spec fn generations(events: Seq<ThumbEvent>) -> nat
    decreases events.len(),
{
    if events.len() == 0 {
        0
    } else {
        let before = events.drop_last();
        generations(before) + if thumb_step(state_after(before), events.last()).1
            == ThumbAction::Generate {
            1nat
        } else {
            0nat
        }
    }
}

/// How often the runs of several requests, one run to a request, have led
/// to the making of a thumbnail.
pub open spec fn all_generations(runs: Seq<Seq<ThumbEvent>>) -> nat
    decreases runs.len(),
{
    if runs.len() == 0 {
        0
    } else {
        all_generations(runs.drop_last()) + generations(runs.last())
    }
}

/// In how many of the runs the file of the thumbnail was created.
pub open spec fn creations(runs: Seq<Seq<ThumbEvent>>) -> nat
    decreases runs.len(),
{
    if runs.len() == 0 {
        0
    } else {
        creations(runs.drop_last()) + if runs.last().contains(ThumbEvent::Created) {
            1nat
        } else {
            0nat
        }
    }
}

impl PhotoServer {
    /// Serve a JPEG thumbnail, step by step: the caller does what the
    /// action says and comes back with what came of it, until the action is
    /// one that answers the request.
    pub fn thumb(state: ThumbState, event: ThumbEvent) -> (next: (ThumbState, ThumbAction))
        ensures
            next == thumb_step(state, event),
    {
        match (state, event) {
            (ThumbState::Idle, ThumbEvent::Request) => (ThumbState::Creating, ThumbAction::Create),
            (ThumbState::Creating, ThumbEvent::Created) => (
                ThumbState::Generating,
                ThumbAction::Generate,
            ),
            (ThumbState::Creating, ThumbEvent::Exists) => (
                ThumbState::Finished,
                ThumbAction::Serve,
            ),
            (ThumbState::Creating, ThumbEvent::Failed { not_found }) => (
                ThumbState::Finished,
                ThumbAction::Fail { not_found },
            ),
            (ThumbState::Generating, ThumbEvent::Stored) => (
                ThumbState::Finished,
                ThumbAction::Serve,
            ),
            (ThumbState::Generating, ThumbEvent::Failed { not_found }) => (
                ThumbState::Finished,
                ThumbAction::Discard { not_found },
            ),
            _ => (ThumbState::Finished, ThumbAction::Fail { not_found: false }),
        }
    }

    /// The event with which the caller reports that a step failed with the
    /// error `e`.
    pub fn thumb_failed(e: &HttpError) -> (event: ThumbEvent)
        ensures
            event == failure_of(*e),
    {
        match e {
            HttpError::NotFound => ThumbEvent::Failed { not_found: true },
            _ => ThumbEvent::Failed { not_found: false },
        }
    }

    /// The error with which the request is answered where `action` ends it
    /// in failure, given the detail of the failed step for the log: a step
    /// that failed because something does not exist is answered with
    /// `NotFound`, any other with a failure of the server. `None` for an
    /// action that does not end the request in failure.
    pub fn thumb_answer(action: ThumbAction, detail: String) -> (answer: Option<HttpError>)
        ensures
            answer == answer_of(action, detail),
    {
        match action {
            ThumbAction::Discard { not_found } => Some(HttpError::from_io(not_found, detail)),
            ThumbAction::Fail { not_found } => Some(HttpError::from_io(not_found, detail)),
            _ => None,
        }
    }
}

/// A thumbnail is made only in answer to the creation of its file.
pub proof fn lemma_generate_follows_creation(state: ThumbState, event: ThumbEvent)
    ensures
        thumb_step(state, event).1 == ThumbAction::Generate ==> state == ThumbState::Creating
            && event == ThumbEvent::Created,
{
}

/// A step that fails while the file is created or filled ends the request
/// with an error of the same kind: `NotFound`, with the status 404, exactly
/// where the step failed with `NotFound`, as it does where the picture of
/// the thumbnail does not exist. The file that was created for a thumbnail
/// that could not be made is removed.
pub proof fn lemma_failure_is_answered_in_kind(state: ThumbState, e: HttpError, detail: String)
    requires
        state == ThumbState::Creating || state == ThumbState::Generating,
    ensures
        thumb_step(state, failure_of(e)).0 == ThumbState::Finished,
        answer_of(thumb_step(state, failure_of(e)).1, detail) is Some,
        answer_of(thumb_step(state, failure_of(e)).1, detail) == Some(HttpError::NotFound) <==> e
            is NotFound,
        e is NotFound ==> answer_of(thumb_step(state, failure_of(e)).1, detail).unwrap().status()
            == 404,
        state == ThumbState::Generating ==> thumb_step(state, failure_of(e)).1 is Discard,
{
}

/// Whatever happens, one request makes its thumbnail at most once, and not
/// at all where the file of the thumbnail exists.
pub proof fn lemma_at_most_one_generation(events: Seq<ThumbEvent>)
    ensures
        generations(events) <= 1,
        generations(events) == 1 ==> events.contains(ThumbEvent::Created),
        generations(events) == 1 ==> state_after(events) == ThumbState::Generating || state_after(
            events,
        ) == ThumbState::Finished,
        state_after(events) == ThumbState::Idle ==> events.len() == 0,
    decreases events.len(),
{
    if events.len() > 0 {
        let before = events.drop_last();
        lemma_at_most_one_generation(before);
        if before.contains(ThumbEvent::Created) {
            let k = before.index_of(ThumbEvent::Created);
            assert(events[k] == ThumbEvent::Created);
        }
        if thumb_step(state_after(before), events.last()).1 == ThumbAction::Generate {
            assert(events[events.len() - 1] == ThumbEvent::Created);
            lemma_creating_comes_first(before);
        }
    }
}

/// The file is being created right after the request, and then only.
proof fn lemma_creating_comes_first(events: Seq<ThumbEvent>)
    ensures
        state_after(events) == ThumbState::Creating ==> generations(events) == 0,
    decreases events.len(),
{
    if events.len() > 0 {
        let before = events.drop_last();
        lemma_creating_comes_first(before);
        if state_after(events) == ThumbState::Creating {
            assert(state_after(before) == ThumbState::Idle);
            lemma_at_most_one_generation(before);
            assert(before.len() == 0);
        }
    }
}

/// However many requests ask for one thumbnail, and in whatever order their
/// steps are taken, thumbnails are made at most as often as the file of the
/// thumbnail was created. So where the file system creates the file for one
/// request at most, the thumbnail is made at most once, and where the file
/// was there before and is created for none, it is not made at all.
pub proof fn lemma_generations_follow_creations(runs: Seq<Seq<ThumbEvent>>)
    ensures
        all_generations(runs) <= creations(runs),
        creations(runs) <= 1 ==> all_generations(runs) <= 1,
        creations(runs) == 0 ==> all_generations(runs) == 0,
    decreases runs.len(),
{
    if runs.len() > 0 {
        lemma_generations_follow_creations(runs.drop_last());
        lemma_at_most_one_generation(runs.last());
    }
}

} // verus!
