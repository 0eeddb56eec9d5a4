//! Writing to a directory of capped, numbered segments.
//!
//! A [`FileSender`] counts the items of one segment against a cap. A
//! [`DirSender`] owns the active segment and rotates: when the active segment
//! is full it has the next segment created, then drives the close of the
//! outgoing one to its end, and only then lets the new segment take items. The
//! next segment exists before the outgoing one is sealed, so a reader that
//! finds a sealed segment always finds its successor.
//!
//! The machine never touches a file. It hands out a [`SenderAction`]; the
//! caller performs it and reports back through [`DirSender::resume`].
use crate::channel::closing::{
    CloseAction,
    CloseDone,
    CloseStep,
    ClosingFile,
    UnboundedFileSender,
    unbounded,
};
use crate::channel::error::Error;
use crate::channel::poll::{Async, AsyncSink};
use vstd::prelude::*;

verus! {

/// Why a capped segment did not take an item.
#[derive(Debug, PartialEq, Eq)]
pub enum WrapError<T> {
    /// The segment holds as many items as it may; the item comes back.
    MaxItems(T),
    /// The file failed.
    Failed(Error),
}

/// The cap that a configured value stands for: zero means no cap.
pub open spec fn effective_cap(max_number_of_items: usize) -> usize {
    if max_number_of_items == 0 {
        usize::MAX
    } else {
        max_number_of_items
    }
}

/// One segment with a ceiling on the number of its items.
#[derive(Debug, Clone, Copy, PartialEq, Eq, Structural)]
pub struct FileSender {
    /// The close state of the segment's file.
    pub file: UnboundedFileSender,
    /// The items that the file has taken.
    pub number_of_items: usize,
    /// The most items that the file may take; at least one.
    pub max_number_of_items: usize,
}

/// The state for a segment that was just opened, capped at `max_number_of_items`
/// items, or at no number if that is zero.
pub fn new_file_sender(max_number_of_items: usize) -> (sender: FileSender)
    ensures
        sender == (FileSender {
            file: UnboundedFileSender { closing: ClosingFile::Idle },
            number_of_items: 0,
            max_number_of_items: effective_cap(max_number_of_items),
        }),
        sender.wf(),
{
    let max_number_of_items = if max_number_of_items == 0 {
        usize::MAX
    } else {
        max_number_of_items
    };
    FileSender { file: unbounded(), number_of_items: 0, max_number_of_items }
}

impl FileSender {
    /// The count never passes the cap, and the cap admits at least one item.
    pub open spec fn wf(self) -> bool {
        &&& 1 <= self.max_number_of_items
        &&& self.number_of_items <= self.max_number_of_items
    }

    /// Whether the cap is reached.
    pub open spec fn spec_is_full(self) -> bool {
        self.max_number_of_items <= self.number_of_items
    }

    /// Whether the cap is reached.
    #[verifier::when_used_as_spec(spec_is_full)]
    pub fn is_full(self) -> (full: bool)
        ensures
            full == self.spec_is_full(),
    {
        self.max_number_of_items <= self.number_of_items
    }

    /// Whether the close of the segment has not begun.
    pub open spec fn spec_is_open(self) -> bool {
        self.file.closing is Idle
    }

    /// Whether the close of the segment has not begun.
    #[verifier::when_used_as_spec(spec_is_open)]
    pub fn is_open(self) -> (open: bool)
        ensures
            open == self.spec_is_open(),
    {
        match self.file.closing {
            ClosingFile::Idle => true,
            _ => false,
        }
    }

    /// The state after the file answered `outcome` to an item.
    pub open spec fn spec_sent<T>(self, outcome: Result<AsyncSink<T>, Error>) -> FileSender {
        if outcome matches Ok(AsyncSink::Ready) && !self.spec_is_full() {
            FileSender { number_of_items: (self.number_of_items + 1) as usize, ..self }
        } else {
            self
        }
    }

    /// Decides whether the segment takes `item`.
    ///
    /// A full segment hands the item back inside `MaxItems` and is otherwise
    /// untouched; any other segment passes the item on to be enqueued on its file.
    pub fn start_send<T>(&self, item: T) -> (admitted: Result<T, WrapError<T>>)
        ensures
            admitted == if self.spec_is_full() {
                Err::<T, WrapError<T>>(WrapError::MaxItems(item))
            } else {
                Ok::<T, WrapError<T>>(item)
            },
    {
        if self.max_number_of_items <= self.number_of_items {
            return Err(WrapError::MaxItems(item));
        }
        Ok(item)
    }

    /// Records what the file answered to an item that was passed on to it, and
    /// hands the answer through.
    ///
    /// An item that the file took counts against the cap; one that it handed
    /// back, or failed on, does not.
    pub fn sent<T>(&mut self, outcome: Result<AsyncSink<T>, Error>) -> (result: Result<
        AsyncSink<T>,
        WrapError<T>,
    >)
        ensures
            *final(self) == old(self).spec_sent(outcome),
            old(self).wf() ==> final(self).wf(),
            result == match outcome {
                Ok(answer) => Ok::<AsyncSink<T>, WrapError<T>>(answer),
                Err(error) => Err::<AsyncSink<T>, WrapError<T>>(WrapError::Failed(error)),
            },
    {
        match outcome {
            Ok(AsyncSink::Ready) => {
                if self.number_of_items < self.max_number_of_items {
                    self.number_of_items = self.number_of_items + 1;
                }
                Ok(AsyncSink::Ready)
            },
            Ok(AsyncSink::NotReady(item)) => Ok(AsyncSink::NotReady(item)),
            Err(error) => Err(WrapError::Failed(error)),
        }
    }
}

/// What a [`DirSender`] was doing when it had to finish a rotation first, and
/// goes back to once the outgoing segment is closed.
#[derive(Debug, PartialEq, Eq)]
pub enum Resume<T> {
    /// Taking this item.
    Send(T),
    /// Flushing.
    Flush,
    /// Closing.
    Close,
}

/// What the caller of a [`DirSender`] has to do next.
///
/// The first five are requests: perform them and report the outcome with
/// [`DirSender::resume`]. The last two end the call that was made.
#[derive(Debug, PartialEq, Eq)]
pub enum SenderAction<T> {
    /// Create the segment with this index, for appending, and make it the
    /// active one; the segment that was active becomes the outgoing one.
    Open(u32, T),
    /// Attempt this close step on the outgoing segment.
    Retire(CloseStep, Resume<T>),
    /// Enqueue the item on the active segment.
    Write(T),
    /// Drive the buffered bytes of the active segment to its file.
    Flush,
    /// Attempt this close step on the active segment.
    Seal(CloseStep),
    /// The end of `start_send`.
    Sent(Result<AsyncSink<T>, Error>),
    /// The end of `poll_complete` or `close`.
    Done(Result<Async<()>, Error>),
}

/// The outcome of a request of a [`DirSender`].
#[derive(Debug, PartialEq, Eq)]
pub enum SenderResponse<T> {
    /// Answers `Open`, with the item of the request.
    Opened(Result<(), Error>, T),
    /// Answers `Retire`, with what the request said to go back to.
    Retired(Result<Async<CloseDone>, Error>, Resume<T>),
    /// Answers `Write`.
    Written(Result<AsyncSink<T>, Error>),
    /// Answers `Flush`.
    Flushed(Result<Async<()>, Error>),
    /// Answers `Seal`.
    Sealed(Result<Async<CloseDone>, Error>),
}

/// The writer of a directory queue.
#[derive(Debug, Clone, Copy, PartialEq, Eq, Structural)]
pub struct DirSender {
    /// The active segment.
    pub file: FileSender,
    /// The outgoing segment, while a rotation is closing it.
    pub retiring: Option<UnboundedFileSender>,
    /// The index of the segment that the next rotation creates.
    pub next_file_index: u32,
    /// The cap of every segment; at least one.
    pub max_number_of_items: usize,
}

/// The writer state for a directory whose segment `0` was just opened.
///
/// Every segment takes at most `max_number_of_items` items, or any number if
/// that is zero.
pub fn new_dir_sender(max_number_of_items: usize) -> (sender: DirSender)
    ensures
        sender == DirSender::spec_new(max_number_of_items),
        sender.wf(),
{
    let next_file_index: u32 = 0;
    let max_number_of_items = if max_number_of_items == 0 {
        usize::MAX
    } else {
        max_number_of_items
    };
    DirSender {
        file: new_file_sender(max_number_of_items),
        retiring: None,
        next_file_index: next_file_index + 1,
        max_number_of_items,
    }
}

impl<T> Resume<T> {
    /// The end of the interrupted call when the rotation has not finished.
    pub open spec fn not_ready(self) -> SenderAction<T> {
        match self {
            Resume::Send(item) => SenderAction::Sent(Ok(AsyncSink::NotReady(item))),
            Resume::Flush => SenderAction::Done(Ok(Async::NotReady)),
            Resume::Close => SenderAction::Done(Ok(Async::NotReady)),
        }
    }

    /// The end of the interrupted call when the rotation failed.
    pub open spec fn failed(self, error: Error) -> SenderAction<T> {
        match self {
            Resume::Send(_) => SenderAction::Sent(Err(error)),
            Resume::Flush => SenderAction::Done(Err(error)),
            Resume::Close => SenderAction::Done(Err(error)),
        }
    }
}

impl DirSender {
    /// The state that `new_dir_sender` makes.
    pub open spec fn spec_new(max_number_of_items: usize) -> DirSender {
        DirSender {
            file: FileSender {
                file: UnboundedFileSender { closing: ClosingFile::Idle },
                number_of_items: 0,
                max_number_of_items: effective_cap(max_number_of_items),
            },
            retiring: None,
            next_file_index: 1,
            max_number_of_items: effective_cap(max_number_of_items),
        }
    }

    /// What holds of every state that the machine reaches: segment `0` exists,
    /// the active segment has the directory's cap, and an outgoing segment is
    /// one whose close is under way.
    pub open spec fn wf(self) -> bool {
        &&& self.file.wf()
        &&& self.file.max_number_of_items == self.max_number_of_items
        &&& 1 <= self.next_file_index
        &&& self.retiring matches Some(outgoing) ==> outgoing.closing.under_way()
    }

    /// Whether a rotation is due: the active segment is full and still open.
    pub open spec fn rotation_due(self) -> bool {
        self.file.spec_is_full() && self.file.spec_is_open()
    }

    /// The state after segment `next_file_index` was created: the active
    /// segment becomes the outgoing one, its close begun, and the new segment is
    /// active and empty.
    pub open spec fn rotated(self) -> DirSender {
        DirSender {
            file: FileSender {
                file: UnboundedFileSender { closing: ClosingFile::Idle },
                number_of_items: 0,
                max_number_of_items: self.max_number_of_items,
            },
            retiring: Some(self.file.file.spec_close().0),
            next_file_index: (self.next_file_index + 1) as u32,
            max_number_of_items: self.max_number_of_items,
        }
    }

    /// What to do for `resume` when no segment is outgoing.
    pub open spec fn spec_route<T>(self, resume: Resume<T>) -> (DirSender, SenderAction<T>) {
        match resume {
            Resume::Send(item) => if !self.file.spec_is_open() {
                (self, SenderAction::Sent(Ok(AsyncSink::NotReady(item))))
            } else if !self.file.spec_is_full() {
                (self, SenderAction::Write(item))
            } else if self.next_file_index < u32::MAX {
                (self, SenderAction::Open(self.next_file_index, item))
            } else {
                (self, SenderAction::Sent(Ok(AsyncSink::NotReady(item))))
            },
            Resume::Flush => (self, SenderAction::Flush),
            Resume::Close => {
                let (file, action) = self.file.file.spec_close();
                (
                    DirSender { file: FileSender { file, ..self.file }, ..self },
                    match action {
                        CloseAction::Attempt(step) => SenderAction::Seal(step),
                        _ => SenderAction::Done(Ok(Async::Ready(()))),
                    },
                )
            },
        }
    }

    /// What to do for `resume`: an outgoing segment is closed first.
    pub open spec fn spec_settle<T>(self, resume: Resume<T>) -> (DirSender, SenderAction<T>) {
        match self.retiring {
            Some(outgoing) => {
                let (outgoing, action) = outgoing.spec_close();
                match action {
                    CloseAction::Attempt(step) => (
                        DirSender { retiring: Some(outgoing), ..self },
                        SenderAction::Retire(step, resume),
                    ),
                    _ => (DirSender { retiring: None, ..self }).spec_route(resume),
                }
            },
            None => self.spec_route(resume),
        }
    }

    /// `resume` as a function of the state and the response.
    pub open spec fn spec_resume<T>(self, response: SenderResponse<T>) -> (
        DirSender,
        SenderAction<T>,
    ) {
        match response {
            SenderResponse::Opened(Ok(()), item) => if self.retiring is None && self.rotation_due()
                && self.next_file_index < u32::MAX {
                self.rotated().spec_settle(Resume::Send(item))
            } else {
                self.spec_settle(Resume::Send(item))
            },
            SenderResponse::Opened(Err(error), _) => (self, SenderAction::Sent(Err(error))),
            SenderResponse::Retired(outcome, resume) => match self.retiring {
                Some(outgoing) => {
                    let (outgoing, action) = outgoing.spec_resume(outcome);
                    match action {
                        CloseAction::Attempt(step) => (
                            DirSender { retiring: Some(outgoing), ..self },
                            SenderAction::Retire(step, resume),
                        ),
                        CloseAction::Suspend => (self, resume.not_ready()),
                        CloseAction::Fail(error) => (self, resume.failed(error)),
                        CloseAction::Finish => (DirSender { retiring: None, ..self }).spec_route(
                            resume,
                        ),
                    }
                },
                None => self.spec_route(resume),
            },
            SenderResponse::Written(outcome) => (
                DirSender { file: self.file.spec_sent(outcome), ..self },
                SenderAction::Sent(outcome),
            ),
            SenderResponse::Flushed(outcome) => (self, SenderAction::Done(outcome)),
            SenderResponse::Sealed(outcome) => {
                let (file, action) = self.file.file.spec_resume(outcome);
                (
                    DirSender { file: FileSender { file, ..self.file }, ..self },
                    match action {
                        CloseAction::Attempt(step) => SenderAction::Seal(step),
                        CloseAction::Suspend => SenderAction::Done(Ok(Async::NotReady)),
                        CloseAction::Fail(error) => SenderAction::Done(Err(error)),
                        CloseAction::Finish => SenderAction::Done(Ok(Async::Ready(()))),
                    },
                )
            },
        }
    }

    fn route<T>(&mut self, resume: Resume<T>) -> (action: SenderAction<T>)
        ensures
            (*final(self), action) == old(self).spec_route(resume),
    {
        match resume {
            Resume::Send(item) => {
                if !self.file.is_open() {
                    return SenderAction::Sent(Ok(AsyncSink::NotReady(item)));
                }
                match self.file.start_send(item) {
                    Ok(item) => SenderAction::Write(item),
                    Err(WrapError::MaxItems(item)) => {
                        if self.next_file_index < u32::MAX {
                            SenderAction::Open(self.next_file_index, item)
                        } else {
                            SenderAction::Sent(Ok(AsyncSink::NotReady(item)))
                        }
                    },
                    Err(WrapError::Failed(error)) => SenderAction::Sent(Err(error)),
                }
            },
            Resume::Flush => SenderAction::Flush,
            Resume::Close => {
                match self.file.file.close() {
                    CloseAction::Attempt(step) => SenderAction::Seal(step),
                    _ => SenderAction::Done(Ok(Async::Ready(()))),
                }
            },
        }
    }

    fn settle<T>(&mut self, resume: Resume<T>) -> (action: SenderAction<T>)
        ensures
            (*final(self), action) == old(self).spec_settle(resume),
    {
        match self.retiring {
            Some(mut outgoing) => {
                match outgoing.close() {
                    CloseAction::Attempt(step) => {
                        self.retiring = Some(outgoing);
                        SenderAction::Retire(step, resume)
                    },
                    _ => {
                        self.retiring = None;
                        self.route(resume)
                    },
                }
            },
            None => self.route(resume),
        }
    }

    /// Offers `item` to the directory queue.
    ///
    /// If a rotation is in progress it is carried on first. Otherwise an active
    /// segment with room has the item written, and a full one starts a rotation.
    /// The item is part of whatever comes back: it is in the request, or in
    /// `Sent(Ok(NotReady(item)))` where the queue cannot take it now.
    pub fn start_send<T>(&mut self, item: T) -> (action: SenderAction<T>)
        ensures
            (*final(self), action) == old(self).spec_settle(Resume::Send(item)),
            old(self).wf() ==> final(self).wf(),
    {
        self.settle(Resume::Send(item))
    }

    /// Drives buffered items to disk: finishes a rotation in progress, then
    /// flushes the active segment.
    pub fn poll_complete<T>(&mut self) -> (action: SenderAction<T>)
        ensures
            (*final(self), action) == old(self).spec_settle(Resume::<T>::Flush),
            old(self).wf() ==> final(self).wf(),
    {
        self.settle(Resume::Flush)
    }

    /// Closes the directory queue: finishes a rotation in progress, then closes
    /// the active segment, which seals it.
    pub fn close<T>(&mut self) -> (action: SenderAction<T>)
        ensures
            (*final(self), action) == old(self).spec_settle(Resume::<T>::Close),
            old(self).wf() ==> final(self).wf(),
    {
        self.settle(Resume::Close)
    }

    /// Takes the outcome of the request that the machine made last.
    pub fn resume<T>(&mut self, response: SenderResponse<T>) -> (action: SenderAction<T>)
        ensures
            (*final(self), action) == old(self).spec_resume(response),
            old(self).wf() ==> final(self).wf(),
    {
        match response {
            SenderResponse::Opened(Ok(()), item) => {
                if self.retiring.is_none() && self.file.is_full() && self.file.is_open()
                    && self.next_file_index < u32::MAX {
                    let mut outgoing = self.file.file;
                    let _ = outgoing.close();
                    self.retiring = Some(outgoing);
                    self.file = FileSender {
                        file: unbounded(),
                        number_of_items: 0,
                        max_number_of_items: self.max_number_of_items,
                    };
                    self.next_file_index = self.next_file_index + 1;
                }
                self.settle(Resume::Send(item))
            },
            SenderResponse::Opened(Err(error), _) => SenderAction::Sent(Err(error)),
            SenderResponse::Retired(outcome, resume) => {
                match self.retiring {
                    Some(mut outgoing) => {
                        match outgoing.resume(outcome) {
                            CloseAction::Attempt(step) => {
                                self.retiring = Some(outgoing);
                                SenderAction::Retire(step, resume)
                            },
                            CloseAction::Suspend => {
                                match resume {
                                    Resume::Send(item) => SenderAction::Sent(
                                        Ok(AsyncSink::NotReady(item)),
                                    ),
                                    _ => SenderAction::Done(Ok(Async::NotReady)),
                                }
                            },
                            CloseAction::Fail(error) => {
                                match resume {
                                    Resume::Send(_) => SenderAction::Sent(Err(error)),
                                    _ => SenderAction::Done(Err(error)),
                                }
                            },
                            CloseAction::Finish => {
                                self.retiring = None;
                                self.route(resume)
                            },
                        }
                    },
                    None => self.route(resume),
                }
            },
            SenderResponse::Written(outcome) => {
                match self.file.sent(outcome) {
                    Ok(answer) => SenderAction::Sent(Ok(answer)),
                    Err(WrapError::Failed(error)) => SenderAction::Sent(Err(error)),
                    Err(WrapError::MaxItems(item)) => SenderAction::Sent(
                        Ok(AsyncSink::NotReady(item)),
                    ),
                }
            },
            SenderResponse::Flushed(outcome) => SenderAction::Done(outcome),
            SenderResponse::Sealed(outcome) => {
                match self.file.file.resume(outcome) {
                    CloseAction::Attempt(step) => SenderAction::Seal(step),
                    CloseAction::Suspend => SenderAction::Done(Ok(Async::NotReady)),
                    CloseAction::Fail(error) => SenderAction::Done(Err(error)),
                    CloseAction::Finish => SenderAction::Done(Ok(Async::Ready(()))),
                }
            },
        }
    }
}

impl<T> SenderAction<T> {
    /// The item that travels with the action.
    pub open spec fn item(self) -> Option<T> {
        match self {
            SenderAction::Open(_, item) => Some(item),
            SenderAction::Retire(_, Resume::Send(item)) => Some(item),
            SenderAction::Write(item) => Some(item),
            SenderAction::Sent(Ok(AsyncSink::NotReady(item))) => Some(item),
            _ => None,
        }
    }
}

impl<T> SenderResponse<T> {
    /// The item that travels with the response.
    pub open spec fn item(self) -> Option<T> {
        match self {
            SenderResponse::Opened(_, item) => Some(item),
            SenderResponse::Retired(_, Resume::Send(item)) => Some(item),
            SenderResponse::Written(Ok(AsyncSink::NotReady(item))) => Some(item),
            _ => None,
        }
    }
}

/// Whatever the writer is told, it stays well-formed.
pub proof fn law_sender_stays_well_formed<T>(
    sender: DirSender,
    resume: Resume<T>,
    response: SenderResponse<T>,
)
    requires
        sender.wf(),
    ensures
        sender.spec_settle(resume).0.wf(),
        sender.spec_resume(response).0.wf(),
        sender.spec_settle(resume).0.max_number_of_items == sender.max_number_of_items,
        sender.spec_resume(response).0.max_number_of_items == sender.max_number_of_items,
        sender.next_file_index <= sender.spec_resume(response).0.next_file_index
            <= sender.next_file_index + 1,
        sender.spec_settle(resume).0.next_file_index == sender.next_file_index,
{
}

/// The writer keeps no item and drops none: the item that is offered, and the
/// item that comes with a response, goes out again with the action, to the
/// file or back to the caller, unless the action reports a failure.
pub proof fn law_sender_hands_every_item_on<T>(sender: DirSender, item: T, response: SenderResponse<T>)
    ensures
        sender.spec_settle(Resume::Send(item)).1.item() == Some(item),
        response.item() is Some ==> sender.spec_resume(response).1.item() == response.item()
            || sender.spec_resume(response).1 matches SenderAction::Sent(Err(_)),
{
}

/// Rotation happens only when the active segment is full, and then exactly
/// once per full segment: a new segment is asked for only when the active one
/// holds the cap and no rotation is in progress, and on its creation the
/// index moves on by one, the new active segment is empty, and the close of
/// the outgoing one has begun.
pub proof fn law_rotation_moves_on_by_one<T>(sender: DirSender, item: T)
    requires
        sender.wf(),
    ensures
        sender.spec_settle(Resume::Send(item)).1 matches SenderAction::Open(index, _) ==> {
            &&& index == sender.next_file_index
            &&& sender.retiring is None
            &&& sender.file.number_of_items == sender.max_number_of_items
            &&& sender.spec_resume(SenderResponse::Opened(Ok(()), item)).0.next_file_index == index
                + 1
            &&& sender.spec_resume(SenderResponse::Opened(Ok(()), item)).0.file.number_of_items == 0
            &&& sender.spec_resume(SenderResponse::Opened(Ok(()), item)).1 == SenderAction::Retire(
                CloseStep::Flush,
                Resume::Send(item),
            )
        },
{
}


/// A writer that is open and has an index left gives up its turn only when
/// someone will wake it: it ends a call with "not ready" only in answer to a
/// request that has reported just that.
pub proof fn law_sender_suspends_only_to_be_woken<T>(
    sender: DirSender,
    resume: Resume<T>,
    response: SenderResponse<T>,
)
    requires
        sender.wf(),
        sender.file.spec_is_open(),
        sender.next_file_index < u32::MAX,
    ensures
        !(sender.spec_settle(resume).1 matches SenderAction::Sent(Ok(AsyncSink::NotReady(_)))),
        !(sender.spec_settle(resume).1 matches SenderAction::Done(Ok(Async::NotReady))),
        sender.spec_resume(response).1 matches SenderAction::Sent(Ok(AsyncSink::NotReady(_))) ==> {
            ||| response matches SenderResponse::Written(Ok(AsyncSink::NotReady(_)))
            ||| response matches SenderResponse::Retired(Ok(Async::NotReady), _)
        },
        sender.spec_resume(response).1 matches SenderAction::Done(Ok(Async::NotReady)) ==> {
            ||| response matches SenderResponse::Flushed(Ok(Async::NotReady))
            ||| response matches SenderResponse::Sealed(Ok(Async::NotReady))
            ||| response matches SenderResponse::Retired(Ok(Async::NotReady), _)
        },
{
}

} // verus!
