//! A directory writer together with the directory it writes to.
//!
//! The world pairs the [`DirSender`] machine with a model of what its requests
//! do outside: a write enqueues the item on the active segment's writer, a
//! flush moves what is enqueued into the file, setting read-only permissions
//! seals the file, and opening segment `n` creates it and turns the segment
//! that was active into the outgoing one. Every request can also come back
//! unfinished or failed, and then changes nothing, but for a flush, which may
//! have moved some of the enqueued items before it stopped.
//!
//! A run of the world is a sequence of [`WriterEvent`]s: calls of the
//! caller, and outcomes of the outstanding request. The laws at the end hold
//! for every run.
use crate::channel::closing::{CloseDone, CloseStep, ClosingFile, Permissions};
use crate::channel::directory::{
    Segment,
    all_sealed,
    contents,
    lemma_contents_grow_before_empty,
    lemma_contents_grow_last,
    lemma_contents_of_two,
    lemma_contents_push_fresh,
    lemma_contents_same_items,
};
use crate::channel::error::Error;
use crate::channel::fs_sender::{DirSender, Resume, SenderAction, SenderResponse, effective_cap};
use crate::channel::poll::{Async, AsyncSink};
use vstd::prelude::*;

verus! {

/// One thing that happens in the world of a directory writer.
pub enum WriterEvent<T> {
    /// The caller offers an item.
    StartSend(T),
    /// The caller asks for a flush.
    PollComplete,
    /// The caller asks for the close.
    Close,
    /// The outstanding request completes.
    Succeed,
    /// The outstanding request reports that it has not finished.
    NotReady,
    /// The outstanding request is a flush, and reports that it has not
    /// finished, but so many of the enqueued items have reached the file.
    Partly(nat),
    /// The outstanding request fails.
    Fail(Error),
}

/// A directory writer and its surroundings.
#[verifier::ext_equal]
pub struct WriterWorld<T> {
    /// The machine.
    pub sender: DirSender,
    /// The segment files.
    pub directory: Seq<Segment<T>>,
    /// The items enqueued on the active segment's writer that are not in its
    /// file yet. A crash loses them.
    pub active_buffer: Seq<T>,
    /// The same for the outgoing segment's writer.
    pub outgoing_buffer: Seq<T>,
    /// The items that the writer has taken, oldest first.
    pub accepted: Seq<T>,
    /// The request that the machine has made and that has not come back.
    pub request: Option<SenderAction<T>>,
}

/// What a completed close step does to a file and to what is enqueued on its
/// writer, and what it hands back.
pub open spec fn close_step_effect<T>(segment: Segment<T>, buffer: Seq<T>, step: CloseStep) -> (
    Segment<T>,
    Seq<T>,
    CloseDone,
) {
    match step {
        CloseStep::Flush => (segment.grown(buffer), Seq::empty(), CloseDone::Flushed),
        CloseStep::ReadMetadata => (
            segment,
            buffer,
            CloseDone::Metadata(Permissions { readonly: segment.sealed }),
        ),
        CloseStep::SetPermissions(permissions) => (
            Segment { sealed: permissions.readonly, ..segment },
            buffer,
            CloseDone::PermissionsSet,
        ),
        CloseStep::Release => (segment, buffer, CloseDone::Released),
    }
}

/// What a flush that stops half-way does to a file and to what is enqueued on
/// its writer: the first `count` of the enqueued items, or all where there are
/// fewer, have reached the file.
pub open spec fn partial_flush_effect<T>(segment: Segment<T>, buffer: Seq<T>, count: nat) -> (
    Segment<T>,
    Seq<T>,
) {
    let moved = if count <= buffer.len() {
        count as int
    } else {
        buffer.len() as int
    };
    (segment.grown(buffer.take(moved)), buffer.skip(moved))
}

impl<T> WriterWorld<T> {
    /// The world of a writer that was just made for an empty directory:
    /// segment `0` exists and is empty.
    pub open spec fn start(max_number_of_items: usize) -> WriterWorld<T> {
        WriterWorld {
            sender: DirSender::spec_new(max_number_of_items),
            directory: seq![Segment::fresh()],
            active_buffer: Seq::empty(),
            outgoing_buffer: Seq::empty(),
            accepted: Seq::empty(),
            request: None,
        }
    }

    /// The index of the active segment.
    pub open spec fn active(self) -> int {
        self.directory.len() - 1
    }

    /// The index of the segment before the active one.
    pub open spec fn outgoing(self) -> int {
        self.directory.len() - 2
    }

    /// The surroundings after `request` came out as `event` says, and the
    /// response that the machine gets. The machine itself is untouched here.
    /// `None` where the event is no outcome of the request.
    pub open spec fn perform(self, request: SenderAction<T>, event: WriterEvent<T>) -> Option<
        (WriterWorld<T>, SenderResponse<T>),
    > {
        match request {
            SenderAction::Open(index, item) => match event {
                WriterEvent::Succeed => Some(
                    (
                        WriterWorld {
                            directory: if index == self.directory.len() {
                                self.directory.push(Segment::fresh())
                            } else {
                                self.directory
                            },
                            outgoing_buffer: self.active_buffer,
                            active_buffer: Seq::empty(),
                            ..self
                        },
                        SenderResponse::Opened(Ok(()), item),
                    ),
                ),
                WriterEvent::Fail(error) => Some((self, SenderResponse::Opened(Err(error), item))),
                _ => None,
            },
            SenderAction::Retire(step, resume) => match event {
                WriterEvent::Succeed => {
                    let (segment, buffer, done) = close_step_effect(
                        self.directory[self.outgoing()],
                        self.outgoing_buffer,
                        step,
                    );
                    Some(
                        (
                            WriterWorld {
                                directory: self.directory.update(self.outgoing(), segment),
                                outgoing_buffer: buffer,
                                ..self
                            },
                            SenderResponse::Retired(Ok(Async::Ready(done)), resume),
                        ),
                    )
                },
                WriterEvent::NotReady => Some(
                    (self, SenderResponse::Retired(Ok(Async::NotReady), resume)),
                ),
                WriterEvent::Partly(count) => if step is Flush {
                    let (segment, buffer) = partial_flush_effect(
                        self.directory[self.outgoing()],
                        self.outgoing_buffer,
                        count,
                    );
                    Some(
                        (
                            WriterWorld {
                                directory: self.directory.update(self.outgoing(), segment),
                                outgoing_buffer: buffer,
                                ..self
                            },
                            SenderResponse::Retired(Ok(Async::NotReady), resume),
                        ),
                    )
                } else {
                    None
                },
                WriterEvent::Fail(error) => Some(
                    (self, SenderResponse::Retired(Err(error), resume)),
                ),
                _ => None,
            },
            SenderAction::Write(item) => match event {
                WriterEvent::Succeed => Some(
                    (
                        WriterWorld {
                            active_buffer: self.active_buffer.push(item),
                            accepted: self.accepted.push(item),
                            ..self
                        },
                        SenderResponse::Written(Ok(AsyncSink::Ready)),
                    ),
                ),
                WriterEvent::NotReady => Some(
                    (self, SenderResponse::Written(Ok(AsyncSink::NotReady(item)))),
                ),
                WriterEvent::Fail(error) => Some((self, SenderResponse::Written(Err(error)))),
                _ => None,
            },
            SenderAction::Flush => match event {
                WriterEvent::Succeed => Some(
                    (
                        WriterWorld {
                            directory: self.directory.update(
                                self.active(),
                                self.directory[self.active()].grown(self.active_buffer),
                            ),
                            active_buffer: Seq::empty(),
                            ..self
                        },
                        SenderResponse::Flushed(Ok(Async::Ready(()))),
                    ),
                ),
                WriterEvent::NotReady => Some((self, SenderResponse::Flushed(Ok(Async::NotReady)))),
                WriterEvent::Partly(count) => {
                    let (segment, buffer) = partial_flush_effect(
                        self.directory[self.active()],
                        self.active_buffer,
                        count,
                    );
                    Some(
                        (
                            WriterWorld {
                                directory: self.directory.update(self.active(), segment),
                                active_buffer: buffer,
                                ..self
                            },
                            SenderResponse::Flushed(Ok(Async::NotReady)),
                        ),
                    )
                },
                WriterEvent::Fail(error) => Some((self, SenderResponse::Flushed(Err(error)))),
                _ => None,
            },
            SenderAction::Seal(step) => match event {
                WriterEvent::Succeed => {
                    let (segment, buffer, done) = close_step_effect(
                        self.directory[self.active()],
                        self.active_buffer,
                        step,
                    );
                    Some(
                        (
                            WriterWorld {
                                directory: self.directory.update(self.active(), segment),
                                active_buffer: buffer,
                                ..self
                            },
                            SenderResponse::Sealed(Ok(Async::Ready(done))),
                        ),
                    )
                },
                WriterEvent::NotReady => Some((self, SenderResponse::Sealed(Ok(Async::NotReady)))),
                WriterEvent::Partly(count) => if step is Flush {
                    let (segment, buffer) = partial_flush_effect(
                        self.directory[self.active()],
                        self.active_buffer,
                        count,
                    );
                    Some(
                        (
                            WriterWorld {
                                directory: self.directory.update(self.active(), segment),
                                active_buffer: buffer,
                                ..self
                            },
                            SenderResponse::Sealed(Ok(Async::NotReady)),
                        ),
                    )
                } else {
                    None
                },
                WriterEvent::Fail(error) => Some((self, SenderResponse::Sealed(Err(error)))),
                _ => None,
            },
            SenderAction::Sent(_) => None,
            SenderAction::Done(_) => None,
        }
    }

    /// The world after the machine moved to `next.0` and handed out `next.1`:
    /// a request becomes the outstanding one, an end of the call leaves none.
    pub open spec fn proceed(self, next: (DirSender, SenderAction<T>)) -> WriterWorld<T> {
        WriterWorld {
            sender: next.0,
            request: if next.1 is Sent || next.1 is Done {
                None
            } else {
                Some(next.1)
            },
            ..self
        }
    }

    /// The world after one event. A call counts only while no request is
    /// outstanding, an outcome only while one is; anything else changes nothing.
    pub open spec fn step(self, event: WriterEvent<T>) -> WriterWorld<T> {
        match self.request {
            None => match event {
                WriterEvent::StartSend(item) => self.proceed(
                    self.sender.spec_settle(Resume::Send(item)),
                ),
                WriterEvent::PollComplete => self.proceed(self.sender.spec_settle(Resume::Flush)),
                WriterEvent::Close => self.proceed(self.sender.spec_settle(Resume::Close)),
                _ => self,
            },
            Some(request) => match self.perform(request, event) {
                Some((world, response)) => world.proceed(world.sender.spec_resume(response)),
                None => self,
            },
        }
    }

    /// The world of a fresh writer with this cap after `events`.
    pub open spec fn after(max_number_of_items: usize, events: Seq<WriterEvent<T>>) -> WriterWorld<T>
        decreases events.len(),
    {
        if events.len() == 0 {
            Self::start(max_number_of_items)
        } else {
            Self::after(max_number_of_items, events.drop_last()).step(events.last())
        }
    }

    /// Whether the writer is closed: its last segment is sealed and released.
    pub open spec fn closed(self) -> bool {
        self.sender.file.file.closing is Done
    }

    /// The cap of every segment.
    pub open spec fn cap(self) -> int {
        self.sender.max_number_of_items as int
    }

    /// What holds of the segments that lie behind the writer, `count` of them:
    /// each is sealed and holds exactly the cap.
    pub open spec fn finished_segments(self, count: int) -> bool {
        forall|i: int|
            0 <= i < count ==> (#[trigger] self.directory[i]).sealed && self.directory[i].items.len()
                == self.cap()
    }

    /// What holds of the active segment and its writer.
    pub open spec fn active_inv(self) -> bool {
        let segment = self.directory[self.active()];
        let closing = self.sender.file.file.closing;
        &&& segment.items.len() + self.active_buffer.len() == self.sender.file.number_of_items
        &&& closing.progress() >= 2 ==> self.active_buffer.len() == 0
        &&& segment.sealed <==> closing.progress() >= 4
        &&& closing matches ClosingFile::SealPending(permissions)
            ==> permissions.readonly
    }

    /// What holds while a rotation closes the outgoing segment, and while
    /// none does.
    pub open spec fn outgoing_inv(self) -> bool {
        match self.sender.retiring {
            Some(outgoing) => {
                let segment = self.directory[self.outgoing()];
                &&& self.directory.len() >= 2
                &&& self.sender.file.number_of_items == 0
                &&& self.sender.file.file.closing is Idle
                &&& segment.items.len() + self.outgoing_buffer.len() == self.cap()
                &&& outgoing.closing.progress() >= 2 ==> self.outgoing_buffer.len() == 0
                &&& segment.sealed <==> outgoing.closing.progress() >= 4
                &&& outgoing.closing matches ClosingFile::SealPending(
                    permissions,
                ) ==> permissions.readonly
                &&& self.finished_segments(self.outgoing())
            },
            None => {
                &&& self.outgoing_buffer.len() == 0
                &&& self.finished_segments(self.active())
            },
        }
    }

    /// Whether the outstanding request is one that the machine makes in its
    /// present state.
    pub open spec fn request_inv(self) -> bool {
        match self.request {
            None => true,
            Some(SenderAction::Open(index, _)) => {
                &&& self.sender.retiring is None
                &&& self.sender.rotation_due()
                &&& index == self.sender.next_file_index
                &&& index < u32::MAX
            },
            Some(SenderAction::Retire(step, _)) => {
                &&& self.sender.retiring matches Some(outgoing)
                &&& outgoing.closing.pending() == Some(step)
            },
            Some(SenderAction::Write(_)) => {
                &&& self.sender.retiring is None
                &&& !self.sender.file.spec_is_full()
                &&& self.sender.file.spec_is_open()
            },
            Some(SenderAction::Flush) => self.sender.retiring is None,
            Some(SenderAction::Seal(step)) => {
                &&& self.sender.retiring is None
                &&& self.sender.file.file.closing.pending() == Some(step)
            },
            Some(SenderAction::Sent(_)) => false,
            Some(SenderAction::Done(_)) => false,
        }
    }

    /// What holds in every world that a run reaches.
    pub open spec fn inv(self) -> bool {
        &&& self.sender.wf()
        &&& self.directory.len() == self.sender.next_file_index
        &&& self.active_inv()
        &&& self.outgoing_inv()
        &&& self.request_inv()
        &&& contents(self.directory) + self.outgoing_buffer + self.active_buffer == self.accepted
        &&& self.accepted.len() == self.active() * self.cap() + self.sender.file.number_of_items
    }
}

/// The start satisfies the invariant.
proof fn lemma_start_inv<T>(max_number_of_items: usize)
    ensures
        WriterWorld::<T>::start(max_number_of_items).inv(),
{
    let world = WriterWorld::<T>::start(max_number_of_items);
    reveal_with_fuel(contents, 2);
    assert(contents(world.directory) =~= Seq::<T>::empty());
    assert(contents(world.directory) + world.outgoing_buffer + world.active_buffer =~= world.accepted);
}

/// A call of the caller keeps the invariant.
proof fn lemma_call_keeps_inv<T>(world: WriterWorld<T>, resume: Resume<T>)
    requires
        world.inv(),
        world.request is None,
    ensures
        world.proceed(world.sender.spec_settle(resume)).inv(),
{
}

/// A segment that was opened keeps the invariant.
proof fn lemma_open_keeps_inv<T>(world: WriterWorld<T>, index: u32, item: T, event: WriterEvent<T>)
    requires
        world.inv(),
        world.request == Some(SenderAction::Open(index, item)),
    ensures
        world.step(event).inv(),
{
    if event is Succeed {
        let (after, response) = world.perform(SenderAction::Open(index, item), event).unwrap();
        let next = after.proceed(after.sender.spec_resume(response));
        lemma_contents_push_fresh(world.directory);
        assert(next.directory == world.directory.push(Segment::fresh()));
        assert(forall|i: int| 0 <= i < world.directory.len() ==> next.directory[i] == world.directory[i]);
        assert(next.accepted.len() == next.active() * next.cap()) by (nonlinear_arith)
            requires
                next.accepted.len() == world.active() * world.cap() + world.cap(),
                next.active() == world.active() + 1,
                next.cap() == world.cap(),
        ;
        assert(contents(next.directory) + next.outgoing_buffer + next.active_buffer =~= next.accepted);
    }
}

/// A close step on the outgoing segment keeps the invariant.
proof fn lemma_retire_keeps_inv<T>(
    world: WriterWorld<T>,
    step: CloseStep,
    resume: Resume<T>,
    event: WriterEvent<T>,
)
    requires
        world.inv(),
        world.request == Some(SenderAction::Retire(step, resume)),
    ensures
        world.step(event).inv(),
{
    if event is Succeed {
        let (after, response) = world.perform(SenderAction::Retire(step, resume), event).unwrap();
        let next = after.proceed(after.sender.spec_resume(response));
        let index = world.outgoing();
        assert(forall|i: int|
            0 <= i < world.directory.len() && i != index ==> next.directory[i] == world.directory[i]);
        match step {
            CloseStep::Flush => {
                lemma_contents_grow_before_empty(world.directory, world.outgoing_buffer);
                assert(contents(next.directory) + next.outgoing_buffer + next.active_buffer
                    =~= next.accepted);
            },
            _ => {
                lemma_contents_same_items(world.directory, index, next.directory[index]);
                assert(next.directory =~= world.directory.update(index, next.directory[index]));
            },
        }
    } else if event is Partly && step is Flush {
        let next = world.step(event);
        let index = world.outgoing();
        let moved = next.directory[index].items.len() - world.directory[index].items.len();
        assert(forall|i: int|
            0 <= i < world.directory.len() && i != index ==> next.directory[i] == world.directory[i]);
        lemma_contents_grow_before_empty(world.directory, world.outgoing_buffer.take(moved));
        assert(world.outgoing_buffer.take(moved) + next.outgoing_buffer =~= world.outgoing_buffer);
        assert(contents(next.directory) + next.outgoing_buffer + next.active_buffer
            =~= next.accepted);
    }
}

/// A write keeps the invariant.
proof fn lemma_write_keeps_inv<T>(world: WriterWorld<T>, item: T, event: WriterEvent<T>)
    requires
        world.inv(),
        world.request == Some(SenderAction::Write(item)),
    ensures
        world.step(event).inv(),
{
    if event is Succeed {
        let (after, response) = world.perform(SenderAction::Write(item), event).unwrap();
        let next = after.proceed(after.sender.spec_resume(response));
        assert(contents(next.directory) + next.outgoing_buffer + next.active_buffer =~= next.accepted);
    }
}

/// A flush of the active segment keeps the invariant.
proof fn lemma_flush_keeps_inv<T>(world: WriterWorld<T>, event: WriterEvent<T>)
    requires
        world.inv(),
        world.request == Some(SenderAction::<T>::Flush),
    ensures
        world.step(event).inv(),
{
    if event is Succeed {
        let (after, response) = world.perform(SenderAction::Flush, event).unwrap();
        let next = after.proceed(after.sender.spec_resume(response));
        lemma_contents_grow_last(world.directory, world.active_buffer);
        assert(forall|i: int|
            0 <= i < world.active() ==> next.directory[i] == world.directory[i]);
        assert(contents(next.directory) + next.outgoing_buffer + next.active_buffer =~= next.accepted);
    } else if event is Partly {
        lemma_partial_flush_of_active(world, world.step(event));
    }
}

/// A close step on the active segment keeps the invariant.
proof fn lemma_seal_keeps_inv<T>(world: WriterWorld<T>, step: CloseStep, event: WriterEvent<T>)
    requires
        world.inv(),
        world.request == Some(SenderAction::<T>::Seal(step)),
    ensures
        world.step(event).inv(),
{
    if event is Succeed {
        let (after, response) = world.perform(SenderAction::Seal(step), event).unwrap();
        let next = after.proceed(after.sender.spec_resume(response));
        let index = world.active();
        assert(forall|i: int| 0 <= i < index ==> next.directory[i] == world.directory[i]);
        match step {
            CloseStep::Flush => {
                lemma_contents_grow_last(world.directory, world.active_buffer);
                assert(contents(next.directory) + next.outgoing_buffer + next.active_buffer
                    =~= next.accepted);
            },
            _ => {
                lemma_contents_same_items(world.directory, index, next.directory[index]);
                assert(next.directory =~= world.directory.update(index, next.directory[index]));
            },
        }
    } else if event is Partly && step is Flush {
        lemma_partial_flush_of_active(world, world.step(event));
    }
}

/// A flush of the active segment that stops half-way keeps the items in
/// their order.
proof fn lemma_partial_flush_of_active<T>(world: WriterWorld<T>, next: WriterWorld<T>)
    requires
        world.inv(),
        world.directory.len() == next.directory.len(),
        next.accepted == world.accepted,
        next.outgoing_buffer == world.outgoing_buffer,
        exists|count: nat|
            (next.directory[world.active()], next.active_buffer) == #[trigger] partial_flush_effect(
                world.directory[world.active()],
                world.active_buffer,
                count,
            ),
        next.directory == world.directory.update(world.active(), next.directory[world.active()]),
    ensures
        contents(next.directory) + next.outgoing_buffer + next.active_buffer == next.accepted,
        next.directory[next.active()].items.len() + next.active_buffer.len()
            == world.directory[world.active()].items.len() + world.active_buffer.len(),
{
    let index = world.active();
    let moved = next.directory[index].items.len() - world.directory[index].items.len();
    lemma_contents_grow_last(world.directory, world.active_buffer.take(moved));
    assert(next.directory[index] == world.directory[index].grown(world.active_buffer.take(moved)));
    assert(world.active_buffer.take(moved) + next.active_buffer =~= world.active_buffer);
    assert(contents(next.directory) + next.outgoing_buffer + next.active_buffer =~= next.accepted);
}

/// Every event keeps the invariant.
pub proof fn lemma_step_keeps_inv<T>(world: WriterWorld<T>, event: WriterEvent<T>)
    requires
        world.inv(),
    ensures
        world.step(event).inv(),
{
    match world.request {
        None => match event {
            WriterEvent::StartSend(item) => lemma_call_keeps_inv(world, Resume::Send(item)),
            WriterEvent::PollComplete => lemma_call_keeps_inv(world, Resume::<T>::Flush),
            WriterEvent::Close => lemma_call_keeps_inv(world, Resume::<T>::Close),
            _ => {},
        },
        Some(SenderAction::Open(index, item)) => lemma_open_keeps_inv(world, index, item, event),
        Some(SenderAction::Retire(step, resume)) => lemma_retire_keeps_inv(world, step, resume, event),
        Some(SenderAction::Write(item)) => lemma_write_keeps_inv(world, item, event),
        Some(SenderAction::Flush) => lemma_flush_keeps_inv(world, event),
        Some(SenderAction::Seal(step)) => lemma_seal_keeps_inv(world, step, event),
        Some(SenderAction::Sent(_)) => {},
        Some(SenderAction::Done(_)) => {},
    }
}

/// No event changes the cap.
pub proof fn lemma_step_keeps_cap<T>(world: WriterWorld<T>, event: WriterEvent<T>)
    ensures
        world.step(event).cap() == world.cap(),
{
}

/// How a directory changes under a writer: a new, empty segment may appear
/// at the end, but only behind an unsealed one; a segment may get more
/// items at its end, or its seal, but only while it is unsealed; nothing is
/// deleted or restored.
pub open spec fn evolves<T>(before: Seq<Segment<T>>, after: Seq<Segment<T>>) -> bool {
    &&& before.len() <= after.len() <= before.len() + 1
    &&& after.len() == before.len() + 1 ==> {
        &&& before.len() >= 1
        &&& !before.last().sealed
        &&& after.last() == Segment::<T>::fresh()
        &&& after.len() <= u32::MAX
    }
    &&& forall|i: int|
        0 <= i < before.len() ==> {
            &&& (#[trigger] after[i]).deleted == before[i].deleted
            &&& before[i].sealed ==> after[i] == before[i]
            &&& before[i].items.len() <= after[i].items.len()
            &&& after[i].items.take(before[i].items.len() as int) == before[i].items
        }
}

/// The writer changes the directory only as a reader can cope with: it
/// touches no sealed segment, and creates a segment only behind an unsealed
/// one.
pub proof fn law_writer_respects_seals<T>(world: WriterWorld<T>, event: WriterEvent<T>)
    requires
        world.inv(),
    ensures
        evolves(world.directory, world.step(event).directory),
{
    let next = world.step(event);
    assert forall|i: int| 0 <= i < world.directory.len() implies {
        &&& (#[trigger] next.directory[i]).deleted == world.directory[i].deleted
        &&& world.directory[i].sealed ==> next.directory[i] == world.directory[i]
        &&& world.directory[i].items.len() <= next.directory[i].items.len()
        &&& next.directory[i].items.take(world.directory[i].items.len() as int)
            == world.directory[i].items
    } by {
        let before = world.directory[i];
        let after = next.directory[i];
        assert(after.items.take(before.items.len() as int) =~= before.items);
        if before.sealed {
            assert(after.items =~= before.items);
        }
    }
}

/// A writer deletes nothing.
pub proof fn lemma_run_deletes_nothing<T>(max_number_of_items: usize, events: Seq<WriterEvent<T>>)
    ensures
        forall|i: int|
            0 <= i < WriterWorld::after(max_number_of_items, events).directory.len() ==> !(
            #[trigger] WriterWorld::after(max_number_of_items, events).directory[i]).deleted,
    decreases events.len(),
{
    if events.len() > 0 {
        let before = WriterWorld::after(max_number_of_items, events.drop_last());
        lemma_run_deletes_nothing(max_number_of_items, events.drop_last());
        lemma_run_inv(max_number_of_items, events.drop_last());
        law_writer_respects_seals(before, events.last());
    }
}

/// Every run of a fresh writer ends in a world that satisfies the invariant,
/// with the cap that the writer was made with.
pub proof fn lemma_run_inv<T>(max_number_of_items: usize, events: Seq<WriterEvent<T>>)
    ensures
        WriterWorld::after(max_number_of_items, events).inv(),
        WriterWorld::after(max_number_of_items, events).cap() == effective_cap(max_number_of_items),
    decreases events.len(),
{
    if events.len() == 0 {
        lemma_start_inv::<T>(max_number_of_items);
    } else {
        let before = WriterWorld::after(max_number_of_items, events.drop_last());
        lemma_run_inv(max_number_of_items, events.drop_last());
        lemma_step_keeps_inv(before, events.last());
        lemma_step_keeps_cap(before, events.last());
    }
}

/// Whatever happens, nothing that the writer took is lost or reordered: the
/// items in the segment files, segment by segment, followed by the items
/// that are still enqueued on the outgoing and on the active writer, are
/// the items taken, in the order in which they were taken. No segment
/// holds more than the cap, and every segment behind the active one, but for
/// the outgoing one while it is being closed, is sealed and full.
pub proof fn law_writer_keeps_items_in_order<T>(
    max_number_of_items: usize,
    events: Seq<WriterEvent<T>>,
)
    ensures
        ({
            let world = WriterWorld::after(max_number_of_items, events);
            &&& contents(world.directory) + world.outgoing_buffer + world.active_buffer
                == world.accepted
            &&& world.directory.len() >= 1
            &&& forall|i: int|
                0 <= i < world.directory.len() ==> (#[trigger] world.directory[i]).items.len()
                    <= world.cap()
            &&& world.sender.retiring is None ==> world.outgoing_buffer.len() == 0
                && world.finished_segments(world.active())
            &&& world.sender.retiring is Some ==> world.directory.len() >= 2
                && world.finished_segments(world.outgoing())
        }),
{
    lemma_run_inv(max_number_of_items, events);
}

/// A flush that completes leaves nothing enqueued: from then on, until the
/// next item is taken, the segment files hold every item that the writer took,
/// and a crash loses none.
pub proof fn law_flush_makes_items_durable<T>(
    max_number_of_items: usize,
    events: Seq<WriterEvent<T>>,
)
    requires
        WriterWorld::after(max_number_of_items, events).request == Some(SenderAction::<T>::Flush),
    ensures
        ({
            let flushed = WriterWorld::after(max_number_of_items, events).step(WriterEvent::Succeed);
            &&& flushed.active_buffer.len() == 0
            &&& flushed.outgoing_buffer.len() == 0
            &&& contents(flushed.directory) == flushed.accepted
        }),
{
    let world = WriterWorld::after(max_number_of_items, events);
    lemma_run_inv(max_number_of_items, events);
    lemma_step_keeps_inv(world, WriterEvent::Succeed);
    let flushed = world.step(WriterEvent::Succeed);
    assert(contents(flushed.directory) =~= contents(flushed.directory) + flushed.outgoing_buffer
        + flushed.active_buffer);
}

/// Once the writer is closed, every segment is sealed, nothing is enqueued any
/// more, and the segment files hold exactly the items that the writer took, in
/// the order in which it took them.
pub proof fn law_closed_writer_has_sealed_everything<T>(
    max_number_of_items: usize,
    events: Seq<WriterEvent<T>>,
)
    requires
        WriterWorld::after(max_number_of_items, events).closed(),
    ensures
        ({
            let world = WriterWorld::after(max_number_of_items, events);
            &&& all_sealed(world.directory)
            &&& contents(world.directory) == world.accepted
            &&& world.active_buffer.len() == 0
            &&& world.outgoing_buffer.len() == 0
        }),
{
    let world = WriterWorld::after(max_number_of_items, events);
    lemma_run_inv(max_number_of_items, events);
    assert(contents(world.directory) =~= contents(world.directory) + world.outgoing_buffer
        + world.active_buffer);
    assert forall|i: int| 0 <= i < world.directory.len() implies (#[trigger] world.directory[i]).sealed by {
        if i < world.active() {
            assert(world.finished_segments(world.active()));
        }
    }
}

/// Rotation: at the moment at which a writer with a cap of `cap` takes item
/// number `cap + 1`, the directory has exactly two segments. Segment `0` is
/// sealed and holds exactly the first `cap` items; segment `1` is not sealed,
/// and the one item that it was given is in its file or enqueued for it.
pub proof fn law_rotation<T>(cap: usize, events: Seq<WriterEvent<T>>)
    requires
        cap >= 1,
        events.len() >= 1,
        WriterWorld::after(cap, events.drop_last()).accepted.len() == cap,
        WriterWorld::after(cap, events).accepted.len() == cap + 1,
    ensures
        ({
            let world = WriterWorld::after(cap, events);
            &&& world.directory.len() == 2
            &&& world.directory[0].sealed
            &&& world.directory[0].items == world.accepted.take(cap as int)
            &&& !world.directory[1].sealed
            &&& world.directory[1].items + world.active_buffer == world.accepted.skip(cap as int)
        }),
{
    let before = WriterWorld::after(cap, events.drop_last());
    let world = WriterWorld::after(cap, events);
    lemma_run_inv(cap, events.drop_last());
    lemma_run_inv(cap, events);
    assert(world == before.step(events.last()));
    assert(before.request matches Some(SenderAction::Write(_)));
    assert(world.sender.retiring is None);
    let count = world.sender.file.number_of_items as int;
    let active = world.active();
    assert(1 <= count <= cap);
    assert(active == 1) by (nonlinear_arith)
        requires
            cap + 1 == active * cap + count,
            1 <= count <= cap,
            active >= 0,
    ;
    assert(world.finished_segments(1));
    lemma_contents_of_two(world.directory);
    let first = world.directory[0].items;
    let rest = world.directory[1].items + world.active_buffer;
    assert(world.accepted =~= first + rest);
    assert(first =~= world.accepted.take(cap as int));
    assert(rest =~= world.accepted.skip(cap as int));
}

impl<T> WriterWorld<T> {
    /// The world after `count` more outcomes, each of them a success.
    pub open spec fn succeeding(self, count: nat) -> WriterWorld<T>
        decreases count,
    {
        if count == 0 {
            self
        } else {
            self.step(WriterEvent::Succeed).succeeding((count - 1) as nat)
        }
    }

    /// Whether the world is on its way to take `item` on top of `base`, or
    /// has just done so.
    pub open spec fn sending(self, base: Seq<T>, item: T) -> bool {
        match self.request {
            None => self.accepted == base.push(item),
            Some(SenderAction::Open(_, offered)) => offered == item && self.accepted == base,
            Some(SenderAction::Retire(_, Resume::Send(offered))) => offered == item && self.accepted
                == base,
            Some(SenderAction::Write(offered)) => offered == item && self.accepted == base,
            _ => false,
        }
    }

    /// The successes that a send still needs at most.
    pub open spec fn send_steps_left(self) -> nat {
        match self.request {
            Some(SenderAction::Open(_, _)) => 6,
            Some(SenderAction::Retire(step, _)) => (6 - step.position()) as nat,
            Some(SenderAction::Write(_)) => 1,
            _ => 0,
        }
    }

    /// Whether the world is on its way to close the writer with `base`
    /// taken, or has just done so.
    pub open spec fn closing(self, base: Seq<T>) -> bool {
        &&& self.accepted == base
        &&& match self.request {
            None => self.closed(),
            Some(SenderAction::Retire(_, Resume::Close)) => true,
            Some(SenderAction::Seal(_)) => true,
            _ => false,
        }
    }

    /// The successes that a close still needs at most.
    pub open spec fn close_steps_left(self) -> nat {
        match self.request {
            Some(SenderAction::Retire(step, _)) => (9 - step.position()) as nat,
            Some(SenderAction::Seal(step)) => (5 - step.position()) as nat,
            _ => 0,
        }
    }
}

/// A success brings a send one step nearer to its end.
proof fn lemma_send_advances<T>(world: WriterWorld<T>, base: Seq<T>, item: T)
    requires
        world.inv(),
        world.sending(base, item),
    ensures
        world.step(WriterEvent::Succeed).inv(),
        world.step(WriterEvent::Succeed).sending(base, item),
        world.step(WriterEvent::Succeed).send_steps_left() + 1 <= world.send_steps_left()
            || world.send_steps_left() == 0,
        world.step(WriterEvent::Succeed).send_steps_left() <= world.send_steps_left(),
{
    lemma_step_keeps_inv(world, WriterEvent::Succeed);
}

/// A send that needs at most `count` successes has ended after `count` of them.
proof fn lemma_send_ends<T>(world: WriterWorld<T>, base: Seq<T>, item: T, count: nat)
    requires
        world.inv(),
        world.sending(base, item),
        world.send_steps_left() <= count,
    ensures
        world.succeeding(count).request is None,
        world.succeeding(count).accepted == base.push(item),
    decreases count,
{
    if count > 0 {
        lemma_send_advances(world, base, item);
        lemma_send_ends(world.step(WriterEvent::Succeed), base, item, (count - 1) as nat);
    }
}

/// A success brings a close one step nearer to its end.
proof fn lemma_close_advances<T>(world: WriterWorld<T>, base: Seq<T>)
    requires
        world.inv(),
        world.closing(base),
    ensures
        world.step(WriterEvent::Succeed).inv(),
        world.step(WriterEvent::Succeed).closing(base),
        world.step(WriterEvent::Succeed).close_steps_left() + 1 <= world.close_steps_left()
            || world.close_steps_left() == 0,
        world.step(WriterEvent::Succeed).close_steps_left() <= world.close_steps_left(),
{
    lemma_step_keeps_inv(world, WriterEvent::Succeed);
}

/// A close that needs at most `count` successes has ended after `count` of them.
proof fn lemma_close_ends<T>(world: WriterWorld<T>, base: Seq<T>, count: nat)
    requires
        world.inv(),
        world.closing(base),
        world.close_steps_left() <= count,
    ensures
        world.succeeding(count).request is None,
        world.succeeding(count).closed(),
        world.succeeding(count).accepted == base,
    decreases count,
{
    if count > 0 {
        lemma_close_advances(world, base);
        lemma_close_ends(world.step(WriterEvent::Succeed), base, (count - 1) as nat);
    }
}

/// When nothing fails and nothing has to wait, an item that is offered is
/// taken: after the offer, six successes at most lead to the end of the call
/// with the item among those taken. Six are needed when the active segment is
/// full: one for the new segment, four for the close of the outgoing one, one
/// for the write.
pub proof fn law_offered_item_is_taken<T>(world: WriterWorld<T>, item: T)
    requires
        world.inv(),
        world.request is None,
        world.sender.file.spec_is_open(),
        world.sender.file.spec_is_full() ==> world.sender.next_file_index < u32::MAX,
    ensures
        world.step(WriterEvent::StartSend(item)).succeeding(6).request is None,
        world.step(WriterEvent::StartSend(item)).succeeding(6).accepted == world.accepted.push(
            item,
        ),
{
    lemma_step_keeps_inv(world, WriterEvent::StartSend(item));
    lemma_send_ends(world.step(WriterEvent::StartSend(item)), world.accepted, item, 6);
}

/// When nothing fails and nothing has to wait, a close that is asked for
/// completes: after the call, eight successes at most, four for an outgoing
/// segment and four for the active one, leave the writer closed, with
/// nothing taken in between.
pub proof fn law_close_completes<T>(world: WriterWorld<T>)
    requires
        world.inv(),
        world.request is None,
    ensures
        world.step(WriterEvent::Close).succeeding(8).request is None,
        world.step(WriterEvent::Close).succeeding(8).closed(),
        world.step(WriterEvent::Close).succeeding(8).accepted == world.accepted,
{
    lemma_step_keeps_inv(world, WriterEvent::<T>::Close);
    lemma_close_ends(world.step(WriterEvent::<T>::Close), world.accepted, 8);
}

} // verus!
