//! Reading a directory of numbered segments, oldest first.
//!
//! A [`FileReciver`] reads one segment. When the segment has nothing more to
//! decode it asks whether the file is sealed. An unsealed segment may still
//! grow: the reader subscribes to changes of the file, once, and suspends until
//! a change is reported. A sealed segment cannot grow: the reader looks once
//! more for items that arrived before the seal, and when there are none it
//! deletes the file and reports the end of the segment.
//!
//! A [`DirReciver`] chains segments: at the end of one it asks for the next
//! index to be opened, and reports the end of the queue when that segment does
//! not exist. A gap in the numbering therefore reads as the end of the queue.
//!
//! Neither machine touches a file. They hand out a [`ReceiverAction`]; the caller
//! performs it and reports back through `resume`.
use crate::channel::closing::Permissions;
use crate::channel::error::Error;
use crate::channel::poll::Async;
use vstd::prelude::*;

verus! {

/// What the caller of a reader has to do next.
///
/// All but the last are requests: perform them and report the outcome with
/// `resume`. `Yield` ends the call of `poll`.
#[derive(Debug, PartialEq, Eq)]
pub enum ReceiverAction<T> {
    /// Try to decode the next item of the current segment.
    Decode,
    /// Read the metadata of the current segment's file.
    ReadMetadata,
    /// Delete the current segment's file.
    Remove,
    /// Subscribe to changes of the current segment's file.
    Watch,
    /// Poll the subscription for a change.
    PollWatcher,
    /// Open the segment with this index and make it the current one.
    Open(usize),
    /// The end of `poll`: an item, the end of the stream, not ready, or a failure.
    Yield(Result<Async<Option<T>>, Error>),
}

/// The outcome of a request of a reader.
#[derive(Debug, PartialEq, Eq)]
pub enum ReceiverResponse<T> {
    /// Answers `Decode`: an item, or `None` where the file has no further bytes now.
    Decoded(Result<Async<Option<T>>, Error>),
    /// Answers `ReadMetadata`.
    Metadata(Result<Async<Permissions>, Error>),
    /// Answers `Remove`.
    Removed(Result<Async<()>, Error>),
    /// Answers `Watch`.
    Watching(Result<(), Error>),
    /// Answers `PollWatcher`: a change, or `None` where the subscription has ended.
    Watched(Result<Async<Option<()>>, Error>),
    /// Answers `Open`.
    Opened(Result<(), Error>),
}

/// Sorts what the mailbox of a watch subscription delivered.
///
/// The mailbox hands over raw events, each of which is either a change or a
/// failure of the notification subsystem. A failure ends the subscription's
/// stream with that error; everything else passes, stripped of its payload,
/// since a change only ever means "look again".
pub fn poll_watcher(delivered: Async<Option<Result<(), Error>>>) -> (event: Result<
    Async<Option<()>>,
    Error,
>)
    ensures
        event == match delivered {
            Async::Ready(Some(Err(error))) => Err::<Async<Option<()>>, Error>(error),
            Async::Ready(Some(Ok(()))) => Ok::<Async<Option<()>>, Error>(Async::Ready(Some(()))),
            Async::Ready(None) => Ok::<Async<Option<()>>, Error>(Async::Ready(None)),
            Async::NotReady => Ok::<Async<Option<()>>, Error>(Async::NotReady),
        },
{
    match delivered {
        Async::Ready(Some(raw)) => {
            match raw {
                Err(error) => Err(error),
                Ok(()) => Ok(Async::Ready(Some(()))),
            }
        },
        Async::Ready(None) => Ok(Async::Ready(None)),
        Async::NotReady => Ok(Async::NotReady),
    }
}

/// The reader of one segment.
#[derive(Debug, Clone, Copy, PartialEq, Eq, Structural)]
pub struct FileReciver {
    /// Whether a watch subscription is attached to the file. There is never
    /// more than one.
    pub watching: bool,
    /// Whether the file was seen to be sealed.
    pub sealed: bool,
}

/// The reader state for a segment that was just opened.
pub fn new() -> (reciver: FileReciver)
    ensures
        reciver == FileReciver::spec_new(),
{
    FileReciver { watching: false, sealed: false }
}

impl FileReciver {
    /// The state that `new` makes.
    pub open spec fn spec_new() -> FileReciver {
        FileReciver { watching: false, sealed: false }
    }

    /// `resume` as a function of the state and the response.
    pub open spec fn spec_resume<T>(self, response: ReceiverResponse<T>) -> (
        FileReciver,
        ReceiverAction<T>,
    ) {
        match response {
            ReceiverResponse::Decoded(Ok(Async::Ready(None))) => if self.sealed {
                (self, ReceiverAction::Remove)
            } else {
                (self, ReceiverAction::ReadMetadata)
            },
            ReceiverResponse::Decoded(outcome) => (self, ReceiverAction::Yield(outcome)),
            ReceiverResponse::Metadata(Ok(Async::Ready(permissions))) => if permissions.readonly {
                (FileReciver { sealed: true, ..self }, ReceiverAction::Decode)
            } else if !self.watching {
                (self, ReceiverAction::Watch)
            } else {
                (self, ReceiverAction::PollWatcher)
            },
            ReceiverResponse::Metadata(Ok(Async::NotReady)) => (
                self,
                ReceiverAction::Yield(Ok(Async::NotReady)),
            ),
            ReceiverResponse::Metadata(Err(error)) => (self, ReceiverAction::Yield(Err(error))),
            ReceiverResponse::Removed(Ok(Async::Ready(()))) => (
                self,
                ReceiverAction::Yield(Ok(Async::Ready(None))),
            ),
            ReceiverResponse::Removed(Ok(Async::NotReady)) => (
                self,
                ReceiverAction::Yield(Ok(Async::NotReady)),
            ),
            ReceiverResponse::Removed(Err(error)) => if error.spec_is_not_found() {
                (self, ReceiverAction::Yield(Ok(Async::Ready(None))))
            } else {
                (self, ReceiverAction::Yield(Err(error)))
            },
            ReceiverResponse::Watching(Ok(())) => (
                FileReciver { watching: true, ..self },
                ReceiverAction::Decode,
            ),
            ReceiverResponse::Watching(Err(error)) => (self, ReceiverAction::Yield(Err(error))),
            ReceiverResponse::Watched(Ok(Async::Ready(Some(())))) => (self, ReceiverAction::Decode),
            ReceiverResponse::Watched(Ok(Async::Ready(None))) => (
                FileReciver { watching: false, ..self },
                ReceiverAction::Watch,
            ),
            ReceiverResponse::Watched(Ok(Async::NotReady)) => (
                self,
                ReceiverAction::Yield(Ok(Async::NotReady)),
            ),
            ReceiverResponse::Watched(Err(error)) => (self, ReceiverAction::Yield(Err(error))),
            ReceiverResponse::Opened(_) => (self, ReceiverAction::Decode),
        }
    }

    /// Asks for the next item of the segment: every poll starts with a decode.
    pub fn poll<T>(&mut self) -> (action: ReceiverAction<T>)
        ensures
            *final(self) == *old(self),
            action == ReceiverAction::<T>::Decode,
    {
        ReceiverAction::Decode
    }

    /// Takes the outcome of the request that the machine made last.
    ///
    /// An item is yielded at once. The end of the stream is yielded only after
    /// the file was seen sealed, a decode after that found nothing, and the file
    /// was deleted or found deleted already. On an unsealed file with nothing to
    /// decode the reader subscribes, if it has not, and otherwise waits for the
    /// subscription; a reported change makes it decode again.
    pub fn resume<T>(&mut self, response: ReceiverResponse<T>) -> (action: ReceiverAction<T>)
        ensures
            (*final(self), action) == old(self).spec_resume(response),
    {
        match response {
            ReceiverResponse::Decoded(outcome) => {
                match outcome {
                    Ok(Async::Ready(None)) => {
                        if self.sealed {
                            ReceiverAction::Remove
                        } else {
                            ReceiverAction::ReadMetadata
                        }
                    },
                    other => ReceiverAction::Yield(other),
                }
            },
            ReceiverResponse::Metadata(outcome) => {
                match outcome {
                    Ok(Async::Ready(permissions)) => {
                        if permissions.readonly() {
                            self.sealed = true;
                            ReceiverAction::Decode
                        } else if !self.watching {
                            ReceiverAction::Watch
                        } else {
                            ReceiverAction::PollWatcher
                        }
                    },
                    Ok(Async::NotReady) => ReceiverAction::Yield(Ok(Async::NotReady)),
                    Err(error) => ReceiverAction::Yield(Err(error)),
                }
            },
            ReceiverResponse::Removed(outcome) => {
                match outcome {
                    Ok(Async::Ready(())) => ReceiverAction::Yield(Ok(Async::Ready(None))),
                    Ok(Async::NotReady) => ReceiverAction::Yield(Ok(Async::NotReady)),
                    Err(error) => {
                        if error.is_not_found() {
                            ReceiverAction::Yield(Ok(Async::Ready(None)))
                        } else {
                            ReceiverAction::Yield(Err(error))
                        }
                    },
                }
            },
            ReceiverResponse::Watching(outcome) => {
                match outcome {
                    Ok(()) => {
                        self.watching = true;
                        ReceiverAction::Decode
                    },
                    Err(error) => ReceiverAction::Yield(Err(error)),
                }
            },
            ReceiverResponse::Watched(outcome) => {
                match outcome {
                    Ok(Async::Ready(Some(()))) => ReceiverAction::Decode,
                    Ok(Async::Ready(None)) => {
                        self.watching = false;
                        ReceiverAction::Watch
                    },
                    Ok(Async::NotReady) => ReceiverAction::Yield(Ok(Async::NotReady)),
                    Err(error) => ReceiverAction::Yield(Err(error)),
                }
            },
            ReceiverResponse::Opened(_) => ReceiverAction::Decode,
        }
    }
}

/// The reader of a directory queue.
#[derive(Debug, Clone, Copy, PartialEq, Eq, Structural)]
pub struct DirReciver {
    /// The reader of the current segment.
    pub file: FileReciver,
    /// The index of the segment to open when the current one ends.
    pub next_file_index: usize,
}

/// The reader state for a directory whose segment `0` was just opened.
pub fn new_dir_reciver() -> (reciver: DirReciver)
    ensures
        reciver == DirReciver::spec_new(),
{
    let next_file_index: usize = 0;
    DirReciver { file: new(), next_file_index: next_file_index + 1 }
}

impl DirReciver {
    /// The state that `new_dir_reciver` makes.
    pub open spec fn spec_new() -> DirReciver {
        DirReciver { file: FileReciver::spec_new(), next_file_index: 1 }
    }

    /// The index of the current segment.
    pub open spec fn current_index(self) -> int {
        self.next_file_index - 1
    }

    /// What to do at the end of the current segment.
    pub open spec fn spec_use_next_file<T>(self) -> ReceiverAction<T> {
        if self.next_file_index < usize::MAX {
            ReceiverAction::Open(self.next_file_index)
        } else {
            ReceiverAction::Yield(Ok(Async::Ready(None)))
        }
    }

    /// `resume` as a function of the state and the response.
    pub open spec fn spec_resume<T>(self, response: ReceiverResponse<T>) -> (
        DirReciver,
        ReceiverAction<T>,
    ) {
        match response {
            ReceiverResponse::Opened(Ok(())) => if self.next_file_index < usize::MAX {
                (
                    DirReciver {
                        file: FileReciver::spec_new(),
                        next_file_index: (self.next_file_index + 1) as usize,
                    },
                    ReceiverAction::Decode,
                )
            } else {
                (self, ReceiverAction::Yield(Ok(Async::Ready(None))))
            },
            ReceiverResponse::Opened(Err(error)) => if error.spec_is_not_found() {
                (self, ReceiverAction::Yield(Ok(Async::Ready(None))))
            } else {
                (self, ReceiverAction::Yield(Err(error)))
            },
            _ => {
                let (file, action) = self.file.spec_resume(response);
                let reciver = DirReciver { file, ..self };
                if action == ReceiverAction::<T>::Yield(Ok(Async::Ready(None))) {
                    (reciver, reciver.spec_use_next_file())
                } else {
                    (reciver, action)
                }
            },
        }
    }

    fn use_next_file<T>(&self) -> (action: ReceiverAction<T>)
        ensures
            action == self.spec_use_next_file::<T>(),
    {
        if self.next_file_index < usize::MAX {
            ReceiverAction::Open(self.next_file_index)
        } else {
            ReceiverAction::Yield(Ok(Async::Ready(None)))
        }
    }

    /// Asks for the next item of the queue.
    pub fn poll<T>(&mut self) -> (action: ReceiverAction<T>)
        ensures
            *final(self) == *old(self),
            action == ReceiverAction::<T>::Decode,
    {
        self.file.poll()
    }

    /// Takes the outcome of the request that the machine made last.
    ///
    /// Within a segment this is the segment reader's `resume`. At the end of a
    /// segment the next index is asked to be opened. When it opens, the cursor
    /// moves on and reading continues there; when it does not exist, the queue
    /// is exhausted and the cursor stays.
    pub fn resume<T>(&mut self, response: ReceiverResponse<T>) -> (action: ReceiverAction<T>)
        ensures
            (*final(self), action) == old(self).spec_resume(response),
    {
        match response {
            ReceiverResponse::Opened(outcome) => {
                match outcome {
                    Ok(()) => {
                        if self.next_file_index < usize::MAX {
                            self.file = new();
                            self.next_file_index = self.next_file_index + 1;
                            ReceiverAction::Decode
                        } else {
                            ReceiverAction::Yield(Ok(Async::Ready(None)))
                        }
                    },
                    Err(error) => {
                        if error.is_not_found() {
                            ReceiverAction::Yield(Ok(Async::Ready(None)))
                        } else {
                            ReceiverAction::Yield(Err(error))
                        }
                    },
                }
            },
            other => {
                match self.file.resume(other) {
                    ReceiverAction::Yield(Ok(Async::Ready(None))) => self.use_next_file(),
                    action => action,
                }
            },
        }
    }
}


/// A segment reader is careful with the end of a segment. It takes a file
/// for sealed only when the metadata say that it is read-only. It asks for
/// the file to be deleted only when it has taken the file for sealed and a
/// decode has found nothing since. It reports the end of the segment only in
/// answer to that deletion, done or found done already. And it never
/// subscribes while it is subscribed.
pub proof fn law_segment_ends_only_after_seal_and_last_look<T>(
    reciver: FileReciver,
    response: ReceiverResponse<T>,
)
    ensures
        ({
            let (next, action) = reciver.spec_resume(response);
            &&& next.sealed && !reciver.sealed ==> response == ReceiverResponse::<T>::Metadata(
                Ok(Async::Ready(Permissions { readonly: true })),
            )
            &&& reciver.sealed ==> next.sealed
            &&& action is Remove ==> reciver.sealed && response == ReceiverResponse::<T>::Decoded(
                Ok(Async::Ready(None)),
            )
            &&& action == ReceiverAction::<T>::Yield(Ok(Async::Ready(None))) ==> response
                is Removed
            &&& action is Watch ==> !next.watching
            &&& action is PollWatcher ==> reciver.watching
        }),
{
}

/// A directory reader moves its cursor forward only, by one segment at a
/// time, and only when that segment has been opened. It asks for the next
/// segment only at the end of the current one, and reports the end of the
/// queue only when the next segment is missing or no index is left.
pub proof fn law_cursor_follows_opened_segments<T>(reciver: DirReciver, response: ReceiverResponse<T>)
    ensures
        ({
            let (next, action) = reciver.spec_resume(response);
            &&& next.next_file_index == reciver.next_file_index || (next.next_file_index
                == reciver.next_file_index + 1 && (response matches ReceiverResponse::Opened(Ok(_))))
            &&& action matches ReceiverAction::Open(index) ==> index == reciver.next_file_index
                && response is Removed && next == reciver
            &&& action == ReceiverAction::<T>::Yield(Ok(Async::Ready(None))) ==> response is Opened
                || (response is Removed && reciver.next_file_index == usize::MAX)
        }),
{
}


/// A reader gives up its turn only when someone will wake it: it yields "not
/// ready" only in answer to a request that has reported just that.
pub proof fn law_reader_suspends_only_to_be_woken<T>(reciver: DirReciver, response: ReceiverResponse<T>)
    ensures
        reciver.spec_resume(response).1 == ReceiverAction::<T>::Yield(Ok(Async::NotReady)) ==> {
            ||| response == ReceiverResponse::<T>::Decoded(Ok(Async::NotReady))
            ||| response == ReceiverResponse::<T>::Metadata(Ok(Async::NotReady))
            ||| response == ReceiverResponse::<T>::Removed(Ok(Async::NotReady))
            ||| response == ReceiverResponse::<T>::Watched(Ok(Async::NotReady))
        },
        reciver.file.spec_resume(response).1 == ReceiverAction::<T>::Yield(Ok(Async::NotReady))
            ==> {
            ||| response == ReceiverResponse::<T>::Decoded(Ok(Async::NotReady))
            ||| response == ReceiverResponse::<T>::Metadata(Ok(Async::NotReady))
            ||| response == ReceiverResponse::<T>::Removed(Ok(Async::NotReady))
            ||| response == ReceiverResponse::<T>::Watched(Ok(Async::NotReady))
        },
{
}

} // verus!
