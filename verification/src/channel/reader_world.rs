//! A directory reader together with the directory it reads.
//!
//! The world pairs the [`DirReciver`] machine with a model of what its requests
//! find outside: a decode hands over the next item of the current segment's
//! file, or nothing where the reader has caught up with the file; the metadata
//! say whether the file is sealed; removing deletes the file; opening succeeds
//! where the segment exists. Every request can also come back unfinished or
//! failed, and then changes nothing.
//!
//! A writer may be at work on the same directory. What it does shows up as
//! events of its own: an item reaches the file of an unsealed segment, an
//! unsealed segment is sealed, a segment is created behind an unsealed last
//! one. The writer of this crate creates the next segment before it seals the
//! outgoing one, which is why no segment appears behind a sealed last one.
//!
//! A run of the world is a sequence of [`ReaderEvent`]s. The laws at the end
//! hold for every run.
use crate::channel::closing::Permissions;
use crate::channel::directory::{Segment, all_sealed, contents, lemma_contents_take};
use crate::channel::error::Error;
use crate::channel::fs_receiver::{DirReciver, ReceiverAction, ReceiverResponse};
use crate::channel::poll::Async;
use vstd::prelude::*;

verus! {

/// One thing that happens in the world of a directory reader.
pub enum ReaderEvent<T> {
    /// The caller polls.
    Poll,
    /// The outstanding request completes: an item or the present end of the
    /// file is decoded, a change is reported, a file is opened or removed.
    Succeed,
    /// The outstanding request reports that it has not finished.
    NotReady,
    /// The outstanding request fails.
    Fail(Error),
    /// The watch subscription that is being polled has ended.
    Ended,
    /// A writer: this item reaches the file of the segment with this index.
    Append(int, T),
    /// A writer: the segment with this index is sealed.
    Seal(int),
    /// A writer: the next segment is created.
    Create,
}

/// A directory reader and its surroundings.
#[verifier::ext_equal]
pub struct ReaderWorld<T> {
    /// The machine.
    pub reciver: DirReciver,
    /// The segment files.
    pub directory: Seq<Segment<T>>,
    /// How many items of the current segment have been decoded.
    pub consumed: nat,
    /// The items that the reader has yielded, oldest first.
    pub yielded: Seq<T>,
    /// The request that the machine has made and that has not come back.
    pub request: Option<ReceiverAction<T>>,
    /// Whether the reader has reported the end of the queue.
    pub ended: bool,
}

/// Whether a reader can be started on the directory: segment `0` exists,
/// nothing was deleted, and the indices are within the writer's range.
pub open spec fn unread<T>(directory: Seq<Segment<T>>) -> bool {
    &&& 1 <= directory.len() <= u32::MAX
    &&& forall|i: int| 0 <= i < directory.len() ==> !(#[trigger] directory[i]).deleted
}

/// Whether two directories hold the same files with the same items, sealed
/// alike. They may differ in what was deleted.
pub open spec fn same_files<T>(left: Seq<Segment<T>>, right: Seq<Segment<T>>) -> bool {
    &&& left.len() == right.len()
    &&& forall|i: int|
        0 <= i < left.len() ==> (#[trigger] left[i]).items == right[i].items && left[i].sealed
            == right[i].sealed
}

impl<T> ReaderWorld<T> {
    /// The world of a reader that was just made for `directory`.
    pub open spec fn start(directory: Seq<Segment<T>>) -> ReaderWorld<T> {
        ReaderWorld {
            reciver: DirReciver::spec_new(),
            directory,
            consumed: 0,
            yielded: Seq::empty(),
            request: None,
            ended: false,
        }
    }

    /// The index of the current segment.
    pub open spec fn current(self) -> int {
        self.reciver.current_index()
    }

    /// Whether the segment with this index exists as a file.
    pub open spec fn exists_file(self, index: int) -> bool {
        0 <= index < self.directory.len() && !self.directory[index].deleted
    }

    /// Whether the reader has decoded everything that is in the current
    /// segment's file.
    pub open spec fn caught_up(self) -> bool {
        self.consumed == self.directory[self.current()].items.len()
    }

    /// The surroundings after `request` came out as `event` says, and the
    /// response that the machine gets. The machine itself is untouched here.
    /// `None` where the event is no outcome of the request in this world.
    pub open spec fn perform(self, request: ReceiverAction<T>, event: ReaderEvent<T>) -> Option<
        (ReaderWorld<T>, ReceiverResponse<T>),
    > {
        let segment = self.directory[self.current()];
        match request {
            ReceiverAction::Decode => match event {
                ReaderEvent::Succeed => if self.consumed < segment.items.len() {
                    Some(
                        (
                            ReaderWorld { consumed: self.consumed + 1, ..self },
                            ReceiverResponse::Decoded(
                                Ok(Async::Ready(Some(segment.items[self.consumed as int]))),
                            ),
                        ),
                    )
                } else {
                    Some((self, ReceiverResponse::Decoded(Ok(Async::Ready(None)))))
                },
                ReaderEvent::NotReady => Some((self, ReceiverResponse::Decoded(Ok(Async::NotReady)))),
                ReaderEvent::Fail(error) => Some((self, ReceiverResponse::Decoded(Err(error)))),
                _ => None,
            },
            ReceiverAction::ReadMetadata => match event {
                ReaderEvent::Succeed => Some(
                    (
                        self,
                        ReceiverResponse::Metadata(
                            Ok(Async::Ready(Permissions { readonly: segment.sealed })),
                        ),
                    ),
                ),
                ReaderEvent::NotReady => Some(
                    (self, ReceiverResponse::Metadata(Ok(Async::NotReady))),
                ),
                ReaderEvent::Fail(error) => Some((self, ReceiverResponse::Metadata(Err(error)))),
                _ => None,
            },
            ReceiverAction::Remove => match event {
                ReaderEvent::Succeed => if self.exists_file(self.current()) {
                    Some(
                        (
                            ReaderWorld {
                                directory: self.directory.update(
                                    self.current(),
                                    Segment { deleted: true, ..segment },
                                ),
                                ..self
                            },
                            ReceiverResponse::Removed(Ok(Async::Ready(()))),
                        ),
                    )
                } else {
                    None
                },
                ReaderEvent::NotReady => Some((self, ReceiverResponse::Removed(Ok(Async::NotReady)))),
                ReaderEvent::Fail(error) => if error.spec_is_not_found() && self.exists_file(
                    self.current(),
                ) {
                    None
                } else {
                    Some((self, ReceiverResponse::Removed(Err(error))))
                },
                _ => None,
            },
            ReceiverAction::Watch => match event {
                ReaderEvent::Succeed => Some((self, ReceiverResponse::Watching(Ok(())))),
                ReaderEvent::Fail(error) => Some((self, ReceiverResponse::Watching(Err(error)))),
                _ => None,
            },
            ReceiverAction::PollWatcher => match event {
                ReaderEvent::Succeed => Some(
                    (self, ReceiverResponse::Watched(Ok(Async::Ready(Some(()))))),
                ),
                ReaderEvent::NotReady => Some((self, ReceiverResponse::Watched(Ok(Async::NotReady)))),
                ReaderEvent::Ended => Some((self, ReceiverResponse::Watched(Ok(Async::Ready(None))))),
                ReaderEvent::Fail(error) => Some((self, ReceiverResponse::Watched(Err(error)))),
                _ => None,
            },
            ReceiverAction::Open(index) => match event {
                ReaderEvent::Succeed => if self.exists_file(index as int) {
                    Some((ReaderWorld { consumed: 0, ..self }, ReceiverResponse::Opened(Ok(()))))
                } else {
                    None
                },
                ReaderEvent::Fail(error) => if error.spec_is_not_found() && self.exists_file(
                    index as int,
                ) {
                    None
                } else {
                    Some((self, ReceiverResponse::Opened(Err(error))))
                },
                _ => None,
            },
            ReceiverAction::Yield(_) => None,
        }
    }

    /// The world after the machine moved to `next.0` and handed out `next.1`:
    /// a request becomes the outstanding one; a yield ends the poll, and what it
    /// yields is recorded.
    pub open spec fn proceed(self, next: (DirReciver, ReceiverAction<T>)) -> ReaderWorld<T> {
        match next.1 {
            ReceiverAction::Yield(outcome) => ReaderWorld {
                reciver: next.0,
                request: None,
                yielded: match outcome {
                    Ok(Async::Ready(Some(item))) => self.yielded.push(item),
                    _ => self.yielded,
                },
                ended: self.ended || outcome == Ok::<Async<Option<T>>, Error>(Async::Ready(None)),
                ..self
            },
            request => ReaderWorld { reciver: next.0, request: Some(request), ..self },
        }
    }

    /// The world after a writer did this to the directory. Where a writer
    /// cannot do it, nothing changes.
    pub open spec fn written(self, event: ReaderEvent<T>) -> ReaderWorld<T> {
        match event {
            ReaderEvent::Append(index, item) => if self.exists_file(index)
                && !self.directory[index].sealed {
                ReaderWorld {
                    directory: self.directory.update(index, self.directory[index].grown(seq![item])),
                    ..self
                }
            } else {
                self
            },
            ReaderEvent::Seal(index) => if self.exists_file(index) {
                ReaderWorld {
                    directory: self.directory.update(
                        index,
                        Segment { sealed: true, ..self.directory[index] },
                    ),
                    ..self
                }
            } else {
                self
            },
            ReaderEvent::Create => if 1 <= self.directory.len() < u32::MAX
                && !self.directory.last().sealed {
                ReaderWorld { directory: self.directory.push(Segment::fresh()), ..self }
            } else {
                self
            },
            _ => self,
        }
    }

    /// The world after one event. A poll counts only while no request is
    /// outstanding, an outcome only while one is; a writer may act at any time.
    pub open spec fn step(self, event: ReaderEvent<T>) -> ReaderWorld<T> {
        match event {
            ReaderEvent::Append(_, _) => self.written(event),
            ReaderEvent::Seal(_) => self.written(event),
            ReaderEvent::Create => self.written(event),
            ReaderEvent::Poll => match self.request {
                None => self.proceed((self.reciver, ReceiverAction::Decode)),
                Some(_) => self,
            },
            _ => match self.request {
                None => self,
                Some(request) => match self.perform(request, event) {
                    Some((world, response)) => world.proceed(world.reciver.spec_resume(response)),
                    None => self,
                },
            },
        }
    }

    /// The world of a fresh reader on `directory` after `events`.
    pub open spec fn after(directory: Seq<Segment<T>>, events: Seq<ReaderEvent<T>>) -> ReaderWorld<T>
        decreases events.len(),
    {
        if events.len() == 0 {
            Self::start(directory)
        } else {
            Self::after(directory, events.drop_last()).step(events.last())
        }
    }

    /// Whether the outstanding request is one that the machine makes in its
    /// present state.
    pub open spec fn request_inv(self) -> bool {
        match self.request {
            Some(ReceiverAction::Remove) => self.reciver.file.sealed && self.caught_up(),
            Some(ReceiverAction::Open(index)) => {
                &&& index == self.reciver.next_file_index
                &&& self.directory[self.current()].sealed
                &&& self.directory[self.current()].deleted
                &&& self.caught_up()
            },
            Some(ReceiverAction::Yield(_)) => false,
            _ => true,
        }
    }

    /// What holds in every world that a run reaches.
    pub open spec fn inv(self) -> bool {
        &&& 1 <= self.reciver.next_file_index
        &&& self.current() < self.directory.len() <= u32::MAX
        &&& self.consumed <= self.directory[self.current()].items.len()
        &&& forall|i: int|
            0 <= i < self.current() ==> (#[trigger] self.directory[i]).sealed
                && self.directory[i].deleted
        &&& forall|i: int|
            self.current() < i < self.directory.len() ==> !(#[trigger] self.directory[i]).deleted
        &&& self.directory[self.current()].deleted ==> self.directory[self.current()].sealed
            && self.caught_up()
        &&& self.reciver.file.sealed ==> self.directory[self.current()].sealed
        &&& self.yielded == contents(self.directory.take(self.current()))
            + self.directory[self.current()].items.take(self.consumed as int)
        &&& self.request_inv()
        &&& self.ended ==> {
            &&& self.current() == self.directory.len() - 1
            &&& self.directory[self.current()].sealed
            &&& self.directory[self.current()].deleted
            &&& self.caught_up()
        }
    }
}

/// The contents of the segments before `count` do not change when a segment
/// from `count` on is replaced.
proof fn lemma_take_ignores_later<T>(directory: Seq<Segment<T>>, count: int, index: int, segment: Segment<T>)
    requires
        0 <= count <= index < directory.len(),
    ensures
        directory.update(index, segment).take(count) == directory.take(count),
{
    assert(directory.update(index, segment).take(count) =~= directory.take(count));
}

/// The contents of the segments up to and including `count` are those of the
/// segments before it followed by its items.
proof fn lemma_take_next<T>(directory: Seq<Segment<T>>, count: int)
    requires
        0 <= count < directory.len(),
    ensures
        contents(directory.take(count + 1)) == contents(directory.take(count)) + directory[count].items,
{
    assert(directory.take(count + 1).drop_last() =~= directory.take(count));
}

/// A start on an unread directory satisfies the invariant.
proof fn lemma_start_inv<T>(directory: Seq<Segment<T>>)
    requires
        unread(directory),
    ensures
        ReaderWorld::start(directory).inv(),
{
    let world = ReaderWorld::start(directory);
    assert(directory.take(0) =~= Seq::<Segment<T>>::empty());
    assert(directory[0].items.take(0) =~= Seq::<T>::empty());
    assert(world.yielded =~= contents(directory.take(0)) + directory[0].items.take(0));
}

/// What a writer does keeps the invariant.
proof fn lemma_written_keeps_inv<T>(world: ReaderWorld<T>, event: ReaderEvent<T>)
    requires
        world.inv(),
    ensures
        world.written(event).inv(),
{
    let next = world.written(event);
    let current = world.current();
    match event {
        ReaderEvent::Append(index, item) => {
            if world.exists_file(index) && !world.directory[index].sealed {
                lemma_take_ignores_later(
                    world.directory,
                    current,
                    index,
                    world.directory[index].grown(seq![item]),
                );
                assert(next.directory[current].items.take(world.consumed as int)
                    =~= world.directory[current].items.take(world.consumed as int));
            }
        },
        ReaderEvent::Seal(index) => {
            if world.exists_file(index) {
                lemma_take_ignores_later(
                    world.directory,
                    current,
                    index,
                    Segment { sealed: true, ..world.directory[index] },
                );
            }
        },
        ReaderEvent::Create => {
            if 1 <= world.directory.len() < u32::MAX && !world.directory.last().sealed {
                assert(next.directory.take(current) =~= world.directory.take(current));
            }
        },
        _ => {},
    }
}

/// An outcome of the outstanding request keeps the invariant.
proof fn lemma_outcome_keeps_inv<T>(world: ReaderWorld<T>, request: ReceiverAction<T>, event: ReaderEvent<T>)
    requires
        world.inv(),
        world.request == Some(request),
        !(event is Append),
        !(event is Seal),
        !(event is Create),
        !(event is Poll),
    ensures
        world.step(event).inv(),
{
    let current = world.current();
    match world.perform(request, event) {
        None => {},
        Some((after, response)) => {
            let next = after.proceed(after.reciver.spec_resume(response));
            match request {
                ReceiverAction::Decode => {
                    if event is Succeed && world.consumed < world.directory[current].items.len() {
                        let items = world.directory[current].items;
                        assert(items.take(world.consumed as int + 1) =~= items.take(
                            world.consumed as int,
                        ).push(items[world.consumed as int]));
                        assert(next.yielded =~= contents(next.directory.take(current)) + items.take(
                            world.consumed as int + 1,
                        ));
                    }
                },
                ReceiverAction::Remove => {
                    if event is Succeed {
                        lemma_take_ignores_later(
                            world.directory,
                            current,
                            current,
                            Segment { deleted: true, ..world.directory[current] },
                        );
                    }
                },
                ReceiverAction::Open(index) => {
                    if event is Succeed {
                        lemma_take_next(world.directory, current);
                        let items = world.directory[current].items;
                        assert(items.take(world.consumed as int) =~= items);
                        assert(next.directory[current + 1].items.take(0) =~= Seq::<T>::empty());
                        assert(next.yielded =~= contents(next.directory.take(current + 1))
                            + next.directory[current + 1].items.take(0));
                    }
                },
                _ => {},
            }
        },
    }
}

/// Every event keeps the invariant.
pub proof fn lemma_step_keeps_inv<T>(world: ReaderWorld<T>, event: ReaderEvent<T>)
    requires
        world.inv(),
    ensures
        world.step(event).inv(),
{
    match event {
        ReaderEvent::Append(_, _) => lemma_written_keeps_inv(world, event),
        ReaderEvent::Seal(_) => lemma_written_keeps_inv(world, event),
        ReaderEvent::Create => lemma_written_keeps_inv(world, event),
        ReaderEvent::Poll => {},
        _ => match world.request {
            None => {},
            Some(request) => lemma_outcome_keeps_inv(world, request, event),
        },
    }
}

/// Every run of a fresh reader on an unread directory ends in a world that
/// satisfies the invariant.
pub proof fn lemma_run_inv<T>(directory: Seq<Segment<T>>, events: Seq<ReaderEvent<T>>)
    requires
        unread(directory),
    ensures
        ReaderWorld::after(directory, events).inv(),
    decreases events.len(),
{
    if events.len() == 0 {
        lemma_start_inv(directory);
    } else {
        lemma_run_inv(directory, events.drop_last());
        lemma_step_keeps_inv(ReaderWorld::after(directory, events.drop_last()), events.last());
    }
}

/// Whether no writer acts in `events`.
pub open spec fn quiet<T>(events: Seq<ReaderEvent<T>>) -> bool {
    forall|i: int|
        0 <= i < events.len() ==> !((#[trigger] events[i]) is Append) && !(events[i] is Seal)
            && !(events[i] is Create)
}

/// Directories with the same files have the same contents.
pub proof fn lemma_same_files_same_contents<T>(left: Seq<Segment<T>>, right: Seq<Segment<T>>)
    requires
        same_files(left, right),
    ensures
        contents(left) == contents(right),
    decreases left.len(),
{
    if left.len() > 0 {
        assert(left.last().items == right.last().items);
        assert forall|i: int| 0 <= i < left.drop_last().len() implies (#[trigger] left.drop_last()[i]).items
            == right.drop_last()[i].items && left.drop_last()[i].sealed == right.drop_last()[i].sealed by {
            assert(left[i].items == right[i].items);
        }
        lemma_same_files_same_contents(left.drop_last(), right.drop_last());
    }
}

/// The reader changes no file but by deleting it, and a writer changes no
/// sealed file.
pub proof fn lemma_step_keeps_files<T>(initial: Seq<Segment<T>>, world: ReaderWorld<T>, event: ReaderEvent<T>)
    requires
        same_files(initial, world.directory),
        all_sealed(initial) || (!(event is Append) && !(event is Seal) && !(event is Create)),
    ensures
        same_files(initial, world.step(event).directory),
{
    let next = world.step(event);
    assert forall|i: int| 0 <= i < initial.len() implies (#[trigger] initial[i]).items
        == next.directory[i].items && initial[i].sealed == next.directory[i].sealed by {
        assert(initial[i].items == world.directory[i].items);
        if all_sealed(initial) {
            assert(initial[i].sealed);
        }
    }
    if all_sealed(initial) && initial.len() > 0 {
        assert(initial[initial.len() - 1].sealed);
    }
}

/// Through any run without a writer, and through any run on a directory of
/// sealed segments, the files keep their items and their seals.
pub proof fn lemma_run_keeps_files<T>(directory: Seq<Segment<T>>, events: Seq<ReaderEvent<T>>)
    requires
        all_sealed(directory) || quiet(events),
    ensures
        same_files(directory, ReaderWorld::after(directory, events).directory),
    decreases events.len(),
{
    if events.len() > 0 {
        let front = events.drop_last();
        if quiet(events) {
            assert forall|i: int| 0 <= i < front.len() implies !((#[trigger] front[i]) is Append)
                && !(front[i] is Seal) && !(front[i] is Create) by {
                assert(front[i] == events[i]);
            }
            assert(events.last() == events[events.len() - 1]);
        }
        lemma_run_keeps_files(directory, front);
        lemma_step_keeps_files(directory, ReaderWorld::after(directory, front), events.last());
    }
}

/// Whatever the reader and a writer beside it do, the reader yields the items
/// of the directory in their order, each once and none made up: what it has
/// yielded is the beginning of the directory's contents.
pub proof fn law_reader_yields_in_order<T>(directory: Seq<Segment<T>>, events: Seq<ReaderEvent<T>>)
    requires
        unread(directory),
    ensures
        ({
            let world = ReaderWorld::after(directory, events);
            &&& world.yielded.len() <= contents(world.directory).len()
            &&& world.yielded == contents(world.directory).take(world.yielded.len() as int)
        }),
{
    let world = ReaderWorld::after(directory, events);
    lemma_run_inv(directory, events);
    let current = world.current();
    let before = contents(world.directory.take(current));
    let items = world.directory[current].items;
    lemma_take_next(world.directory, current);
    lemma_contents_take(world.directory, current + 1);
    let upto = contents(world.directory.take(current + 1));
    assert(upto == before + items);
    assert(world.yielded =~= upto.take((before.len() + world.consumed) as int));
    assert(world.yielded =~= contents(world.directory).take(world.yielded.len() as int));
}

/// When the reader reports the end of the queue, it has yielded everything:
/// every segment is sealed, every segment is deleted, and what was yielded is
/// the contents of the directory, segment after segment.
pub proof fn law_end_of_queue_after_last_item<T>(directory: Seq<Segment<T>>, events: Seq<ReaderEvent<T>>)
    requires
        unread(directory),
        ReaderWorld::after(directory, events).ended,
    ensures
        ({
            let world = ReaderWorld::after(directory, events);
            &&& world.yielded == contents(world.directory)
            &&& all_sealed(world.directory)
            &&& forall|i: int| 0 <= i < world.directory.len() ==> (#[trigger] world.directory[i]).deleted
        }),
{
    let world = ReaderWorld::after(directory, events);
    lemma_run_inv(directory, events);
    let current = world.current();
    lemma_take_next(world.directory, current);
    assert(world.directory.take(current + 1) =~= world.directory);
    let items = world.directory[current].items;
    assert(items.take(world.consumed as int) =~= items);
}

/// A segment is read to its end before the next one is begun: while the
/// reader is at segment `n`, it has yielded all items of the segments before
/// `n`, which are sealed and deleted, and none of a later one.
pub proof fn law_reader_drains_segments_in_turn<T>(directory: Seq<Segment<T>>, events: Seq<ReaderEvent<T>>)
    requires
        unread(directory),
    ensures
        ({
            let world = ReaderWorld::after(directory, events);
            let current = world.current();
            &&& 0 <= current < world.directory.len()
            &&& world.consumed <= world.directory[current].items.len()
            &&& world.yielded == contents(world.directory.take(current))
                + world.directory[current].items.take(world.consumed as int)
            &&& forall|i: int|
                0 <= i < current ==> (#[trigger] world.directory[i]).sealed
                    && world.directory[i].deleted
            &&& forall|i: int|
                current < i < world.directory.len() ==> !(#[trigger] world.directory[i]).deleted
        }),
{
    lemma_run_inv(directory, events);
}

/// A reader at a segment that is not sealed does not conclude that the queue
/// has ended, whatever it finds or fails to find in the file.
pub proof fn law_reader_waits_at_unsealed_segment<T>(
    directory: Seq<Segment<T>>,
    events: Seq<ReaderEvent<T>>,
)
    requires
        unread(directory),
        !ReaderWorld::after(directory, events).directory[ReaderWorld::after(
            directory,
            events,
        ).current()].sealed,
    ensures
        !ReaderWorld::after(directory, events).ended,
{
    lemma_run_inv(directory, events);
}

/// A reader that has caught up with an unsealed file, and has subscribed to
/// it, suspends when no change is reported: the poll ends without an item and
/// without the end of the queue.
pub proof fn law_reader_suspends_without_change<T>(world: ReaderWorld<T>)
    requires
        world.inv(),
        world.request == Some(ReceiverAction::<T>::PollWatcher),
    ensures
        ({
            let next = world.step(ReaderEvent::NotReady);
            &&& next.request is None
            &&& next.yielded == world.yielded
            &&& next.ended == world.ended
            &&& next.reciver == world.reciver
        }),
{
}

/// A reader that waits at an unsealed file resumes when an item has reached
/// the file and the change is reported: it decodes again and yields the item.
pub proof fn law_reader_resumes_after_append<T>(world: ReaderWorld<T>, item: T)
    requires
        world.inv(),
        world.request == Some(ReceiverAction::<T>::PollWatcher),
        world.caught_up(),
        world.exists_file(world.current()),
        !world.directory[world.current()].sealed,
    ensures
        ({
            let grown = world.step(ReaderEvent::Append(world.current(), item));
            let woken = grown.step(ReaderEvent::Succeed);
            let read = woken.step(ReaderEvent::Succeed);
            &&& woken.request == Some(ReceiverAction::<T>::Decode)
            &&& read.request is None
            &&& read.yielded == world.yielded.push(item)
        }),
{
}

/// A reader that waits at an unsealed file resumes when the file has been
/// sealed and the change is reported: it finds nothing to decode, sees the
/// seal, looks once more, deletes the file, and goes on to the next segment.
pub proof fn law_reader_resumes_after_seal<T>(world: ReaderWorld<T>)
    requires
        world.inv(),
        world.request == Some(ReceiverAction::<T>::PollWatcher),
        world.caught_up(),
        world.exists_file(world.current()),
        !world.directory[world.current()].sealed,
        world.reciver.next_file_index < usize::MAX,
    ensures
        ({
            let sealed = world.step(ReaderEvent::Seal(world.current()));
            let woken = sealed.step(ReaderEvent::Succeed);
            let nothing = woken.step(ReaderEvent::Succeed);
            let seen = nothing.step(ReaderEvent::Succeed);
            let confirmed = seen.step(ReaderEvent::Succeed);
            let removed = confirmed.step(ReaderEvent::Succeed);
            &&& woken.request == Some(ReceiverAction::<T>::Decode)
            &&& nothing.request == Some(ReceiverAction::<T>::ReadMetadata)
            &&& seen.request == Some(ReceiverAction::<T>::Decode)
            &&& confirmed.request == Some(ReceiverAction::<T>::Remove)
            &&& removed.request == Some(ReceiverAction::<T>::Open(world.reciver.next_file_index))
            &&& removed.directory[world.current()].deleted
            &&& removed.yielded == world.yielded
        }),
{
}

/// A reader that has not caught up with its file yields the next item of the
/// file as soon as it is polled and the decode succeeds.
pub proof fn law_reader_yields_what_is_there<T>(world: ReaderWorld<T>)
    requires
        world.inv(),
        world.request is None,
        !world.caught_up(),
    ensures
        ({
            let polled = world.step(ReaderEvent::Poll).step(ReaderEvent::Succeed);
            &&& polled.request is None
            &&& polled.yielded == world.yielded.push(
                world.directory[world.current()].items[world.consumed as int],
            )
            &&& polled.consumed == world.consumed + 1
            &&& !polled.ended
        }),
{
}

/// A reader that has caught up with the sealed last segment reports the end
/// of the queue when nothing fails: it sees the seal, looks once more, deletes
/// the file, and finds no next segment.
pub proof fn law_reader_ends_after_the_last_segment<T>(world: ReaderWorld<T>, missing: Error)
    requires
        world.inv(),
        world.request is None,
        world.caught_up(),
        world.exists_file(world.current()),
        world.directory[world.current()].sealed,
        world.current() == world.directory.len() - 1,
        !world.reciver.file.sealed,
        missing.spec_is_not_found(),
    ensures
        ({
            let nothing = world.step(ReaderEvent::Poll).step(ReaderEvent::Succeed);
            let seen = nothing.step(ReaderEvent::Succeed);
            let confirmed = seen.step(ReaderEvent::Succeed);
            let removed = confirmed.step(ReaderEvent::Succeed);
            let ended = removed.step(ReaderEvent::Fail(missing));
            &&& nothing.request == Some(ReceiverAction::<T>::ReadMetadata)
            &&& seen.request == Some(ReceiverAction::<T>::Decode)
            &&& confirmed.request == Some(ReceiverAction::<T>::Remove)
            &&& removed.directory[world.current()].deleted
            &&& ended.request is None
            &&& ended.ended
            &&& ended.yielded == world.yielded
        }),
{
}

} // verus!
