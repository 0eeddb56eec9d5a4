//! Closing one segment: flush, read the metadata, seal, release.
//!
//! A segment is sealed by making its file read-only; nothing else marks the end
//! of a segment. Closing therefore takes four outside steps, each of which may
//! report that it has not finished yet. The progress made is kept in
//! [`ClosingFile`], so that a close which was interrupted after a step picks up
//! at the following one and never repeats a step that has completed.
use crate::channel::error::Error;
use crate::channel::poll::Async;
use vstd::prelude::*;

verus! {

/// What the engine reads and writes of a file's permissions.
#[derive(Debug, Clone, Copy, PartialEq, Eq, Structural)]
pub struct Permissions {
    /// Whether the file refuses writes. A read-only segment is sealed.
    pub readonly: bool,
}

impl Permissions {
    /// Whether the file refuses writes.
    pub fn readonly(&self) -> (readonly: bool)
        ensures
            readonly == self.readonly,
    {
        self.readonly
    }

    /// Makes the permissions refuse or allow writes.
    pub fn set_readonly(&mut self, readonly: bool)
        ensures
            *final(self) == (Permissions { readonly }),
    {
        self.readonly = readonly;
    }
}

/// How far the close of a segment has come.
#[derive(Debug, Clone, Copy, PartialEq, Eq, Structural)]
pub enum ClosingFile {
    /// Close has not been asked for.
    Idle,
    /// Buffered bytes still have to reach the file.
    FlushPending,
    /// The file's current permissions still have to be read.
    MetadataPending,
    /// The permissions, already made read-only, still have to be written back.
    SealPending(Permissions),
    /// The file handle still has to be released.
    ReleasePending,
    /// The segment is sealed and its handle released.
    Done,
}

/// One outside step of the close sequence.
#[derive(Debug, Clone, Copy, PartialEq, Eq, Structural)]
pub enum CloseStep {
    /// Drive the buffered bytes to the file.
    Flush,
    /// Read the file's metadata.
    ReadMetadata,
    /// Write these permissions to the file. This is what seals the segment.
    SetPermissions(Permissions),
    /// Release the file handle.
    Release,
}

/// What a completed step of the close sequence hands back.
#[derive(Debug, Clone, Copy, PartialEq, Eq, Structural)]
pub enum CloseDone {
    /// The buffered bytes are in the file.
    Flushed,
    /// The permissions that the file has now.
    Metadata(Permissions),
    /// The permissions were written.
    PermissionsSet,
    /// The handle is released.
    Released,
}

/// What the caller of a close has to do next.
#[derive(Debug, PartialEq, Eq)]
pub enum CloseAction {
    /// Attempt this step and report its outcome with `resume`.
    Attempt(CloseStep),
    /// The step in hand has not finished: give up the turn and call `close` again later.
    Suspend,
    /// The segment is closed.
    Finish,
    /// The step in hand failed; the close stays where it was.
    Fail(Error),
}

impl ClosingFile {
    /// The number of steps of the close sequence that lie behind this state,
    /// counting the request to close as the first.
    pub open spec fn progress(self) -> nat {
        match self {
            ClosingFile::Idle => 0,
            ClosingFile::FlushPending => 1,
            ClosingFile::MetadataPending => 2,
            ClosingFile::SealPending(_) => 3,
            ClosingFile::ReleasePending => 4,
            ClosingFile::Done => 5,
        }
    }

    /// The step that has to complete next, if close is under way.
    pub open spec fn pending(self) -> Option<CloseStep> {
        match self {
            ClosingFile::Idle => None,
            ClosingFile::FlushPending => Some(CloseStep::Flush),
            ClosingFile::MetadataPending => Some(CloseStep::ReadMetadata),
            ClosingFile::SealPending(permissions) => Some(CloseStep::SetPermissions(permissions)),
            ClosingFile::ReleasePending => Some(CloseStep::Release),
            ClosingFile::Done => None,
        }
    }

    /// Whether `done` is what the pending step hands back.
    pub open spec fn answered_by(self, done: CloseDone) -> bool {
        match (self, done) {
            (ClosingFile::FlushPending, CloseDone::Flushed) => true,
            (ClosingFile::MetadataPending, CloseDone::Metadata(_)) => true,
            (ClosingFile::SealPending(_), CloseDone::PermissionsSet) => true,
            (ClosingFile::ReleasePending, CloseDone::Released) => true,
            _ => false,
        }
    }

    /// The state after the pending step has completed.
    pub open spec fn next(self) -> ClosingFile {
        match self {
            ClosingFile::Idle => ClosingFile::FlushPending,
            ClosingFile::FlushPending => ClosingFile::MetadataPending,
            ClosingFile::MetadataPending => ClosingFile::SealPending(Permissions { readonly: true }),
            ClosingFile::SealPending(_) => ClosingFile::ReleasePending,
            ClosingFile::ReleasePending => ClosingFile::Done,
            ClosingFile::Done => ClosingFile::Done,
        }
    }

    /// What to do in this state when nothing new has happened outside.
    pub open spec fn action(self) -> CloseAction {
        match self.pending() {
            Some(step) => CloseAction::Attempt(step),
            None => CloseAction::Finish,
        }
    }

    /// Whether close has been asked for and has not finished.
    pub open spec fn under_way(self) -> bool {
        self.pending() is Some
    }
}

/// The close state of one segment writer.
///
/// Appending and flushing need no decision and are made directly on the file.
#[derive(Debug, Clone, Copy, PartialEq, Eq, Structural)]
pub struct UnboundedFileSender {
    /// How far the close has come.
    pub closing: ClosingFile,
}

/// The writer state for a segment that was just opened.
pub fn unbounded() -> (sender: UnboundedFileSender)
    ensures
        sender.closing == ClosingFile::Idle,
{
    UnboundedFileSender { closing: ClosingFile::Idle }
}

impl UnboundedFileSender {
    /// `close` as a function: a close that has not begun begins with the flush,
    /// one that is under way asks for its pending step again, and a finished one
    /// stays finished.
    pub open spec fn spec_close(self) -> (UnboundedFileSender, CloseAction) {
        let closing = if self.closing is Idle {
            ClosingFile::FlushPending
        } else {
            self.closing
        };
        (UnboundedFileSender { closing }, closing.action())
    }

    /// `resume` as a function of the state and of the outcome of the pending step.
    pub open spec fn spec_resume(self, outcome: Result<Async<CloseDone>, Error>) -> (
        UnboundedFileSender,
        CloseAction,
    ) {
        if !self.closing.under_way() {
            self.spec_close()
        } else {
            match outcome {
                Err(error) => (self, CloseAction::Fail(error)),
                Ok(Async::NotReady) => (self, CloseAction::Suspend),
                Ok(Async::Ready(done)) => if self.closing.answered_by(done) {
                    let closing = self.closing.next();
                    (UnboundedFileSender { closing }, closing.action())
                } else {
                    (self, self.closing.action())
                },
            }
        }
    }

    /// Whether the segment is sealed and released.
    pub fn is_closed(&self) -> (closed: bool)
        ensures
            closed == (self.closing is Done),
    {
        match self.closing {
            ClosingFile::Done => true,
            _ => false,
        }
    }

    /// The step that has to complete next, if close is under way.
    pub fn pending(&self) -> (step: Option<CloseStep>)
        ensures
            step == self.closing.pending(),
    {
        match self.closing {
            ClosingFile::Idle => None,
            ClosingFile::FlushPending => Some(CloseStep::Flush),
            ClosingFile::MetadataPending => Some(CloseStep::ReadMetadata),
            ClosingFile::SealPending(permissions) => Some(CloseStep::SetPermissions(permissions)),
            ClosingFile::ReleasePending => Some(CloseStep::Release),
            ClosingFile::Done => None,
        }
    }

    fn action(&self) -> (action: CloseAction)
        ensures
            action == self.closing.action(),
    {
        match self.pending() {
            Some(step) => CloseAction::Attempt(step),
            None => CloseAction::Finish,
        }
    }

    /// Begins or resumes the close of the segment.
    ///
    /// Returns the step to attempt, or `Finish` when the segment is closed
    /// already. A step that completed before is not asked for again.
    pub fn close(&mut self) -> (action: CloseAction)
        ensures
            (*final(self), action) == old(self).spec_close(),
    {
        if let ClosingFile::Idle = self.closing {
            self.closing = ClosingFile::FlushPending;
        }
        self.action()
    }

    /// Takes the outcome of the step that `close` or `resume` asked for.
    ///
    /// A completed step moves the close on by exactly one state. A step that has
    /// not finished, or that failed, leaves the state as it was, and so does an
    /// outcome that belongs to another step.
    pub fn resume(&mut self, outcome: Result<Async<CloseDone>, Error>) -> (action: CloseAction)
        ensures
            (*final(self), action) == old(self).spec_resume(outcome),
    {
        match self.closing {
            ClosingFile::Idle | ClosingFile::Done => {
                return self.close();
            },
            _ => {},
        }
        match outcome {
            Err(error) => CloseAction::Fail(error),
            Ok(Async::NotReady) => CloseAction::Suspend,
            Ok(Async::Ready(done)) => {
                match (self.closing, done) {
                    (ClosingFile::FlushPending, CloseDone::Flushed) => {
                        self.closing = ClosingFile::MetadataPending;
                    },
                    (ClosingFile::MetadataPending, CloseDone::Metadata(current)) => {
                        let mut permissions = current;
                        permissions.set_readonly(true);
                        self.closing = ClosingFile::SealPending(permissions);
                    },
                    (ClosingFile::SealPending(_), CloseDone::PermissionsSet) => {
                        self.closing = ClosingFile::ReleasePending;
                    },
                    (ClosingFile::ReleasePending, CloseDone::Released) => {
                        self.closing = ClosingFile::Done;
                    },
                    _ => {},
                }
                self.action()
            },
        }
    }
}

/// One thing that happens to a close: the caller asks for it, once more
/// perhaps, or the step in hand reports.
pub enum CloseEvent {
    /// `close` is called.
    Call,
    /// `resume` is called with this outcome.
    Outcome(Result<Async<CloseDone>, Error>),
}

impl CloseStep {
    /// The place of the step in the close sequence, counted from one.
    pub open spec fn position(self) -> nat {
        match self {
            CloseStep::Flush => 1,
            CloseStep::ReadMetadata => 2,
            CloseStep::SetPermissions(_) => 3,
            CloseStep::Release => 4,
        }
    }
}

/// A close together with the record of the steps that have completed in it.
pub struct CloseRun {
    /// The close state.
    pub sender: UnboundedFileSender,
    /// The steps that completed, oldest first.
    pub completed: Seq<CloseStep>,
}

impl CloseRun {
    /// The run after one more event.
    pub open spec fn step(self, event: CloseEvent) -> CloseRun {
        match event {
            CloseEvent::Call => CloseRun { sender: self.sender.spec_close().0, completed: self.completed },
            CloseEvent::Outcome(outcome) => CloseRun {
                sender: self.sender.spec_resume(outcome).0,
                completed: match (self.sender.closing.pending(), outcome) {
                    (Some(step), Ok(Async::Ready(done))) => if self.sender.closing.answered_by(done) {
                        self.completed.push(step)
                    } else {
                        self.completed
                    },
                    _ => self.completed,
                },
            },
        }
    }

    /// The run that starts at `sender` and sees `events` in turn.
    pub open spec fn after(sender: UnboundedFileSender, events: Seq<CloseEvent>) -> CloseRun
        decreases events.len(),
    {
        if events.len() == 0 {
            CloseRun { sender, completed: Seq::empty() }
        } else {
            Self::after(sender, events.drop_last()).step(events.last())
        }
    }
}

/// The place of the step that a close in this state waits for: a close that
/// has not begun waits for the first.
pub open spec fn waiting_at(closing: ClosingFile) -> nat {
    if closing is Idle {
        1
    } else {
        closing.progress()
    }
}

/// Closing goes through flush, metadata, seal and release in this order and
/// completes each at most once, however often it is interrupted, fails or is
/// asked for again: the steps that complete during any run are the consecutive
/// steps from the one the close waited for at the start up to the one it waits
/// for at the end.
pub proof fn law_close_completes_each_step_once(sender: UnboundedFileSender, events: Seq<CloseEvent>)
    ensures
        ({
            let run = CloseRun::after(sender, events);
            &&& waiting_at(sender.closing) <= waiting_at(run.sender.closing)
            &&& run.completed.len() == waiting_at(run.sender.closing) - waiting_at(sender.closing)
            &&& forall|i: int|
                0 <= i < run.completed.len() ==> (#[trigger] run.completed[i]).position()
                    == waiting_at(sender.closing) + i
        }),
    decreases events.len(),
{
    if events.len() > 0 {
        law_close_completes_each_step_once(sender, events.drop_last());
    }
}

/// A close is finished exactly when the last step, the release, has completed,
/// and the action it hands out says so.
pub proof fn law_close_finishes_after_release(sender: UnboundedFileSender, outcome: Result<Async<CloseDone>, Error>)
    ensures
        sender.spec_close().1 is Finish <==> sender.closing is Done,
        sender.spec_resume(outcome).1 is Finish <==> sender.spec_resume(outcome).0.closing is Done,
        sender.spec_resume(outcome).1 matches CloseAction::Attempt(step) ==> sender.spec_resume(
            outcome,
        ).0.closing.pending() == Some(step),
        sender.spec_resume(outcome).1 is Suspend || sender.spec_resume(outcome).1 is Fail
            ==> sender.spec_resume(outcome).0 == sender,
{
}

} // verus!
