//! A writer and a reader at work on one directory at the same time.
//!
//! This is how the spillover combinator uses the store: it spills to the
//! directory and reads the backlog from it in turns. The world runs a
//! [`WriterWorld`] and a [`ReaderWorld`] on one shared row of segment files:
//! what the writer does to the files the reader finds, and what the reader
//! deletes is gone for the writer too.
//!
//! A run of the world is a sequence of [`PairEvent`]s, each an event of the
//! writer or of the reader, in any interleaving. The laws at the end hold for
//! every run.
use crate::channel::directory::{Segment, contents};
use crate::channel::reader_world::{
    ReaderEvent,
    ReaderWorld,
    lemma_same_files_same_contents,
    lemma_step_keeps_files,
    same_files,
};
use crate::channel::writer_world::{
    WriterEvent,
    WriterWorld,
    evolves,
    law_writer_respects_seals,
};
use vstd::prelude::*;

verus! {

/// One thing that happens to a writer and a reader on one directory.
pub enum PairEvent<T> {
    /// Something happens on the writer's side.
    Writer(WriterEvent<T>),
    /// Something happens on the reader's side. What a reader's world says
    /// of a writer does not count here: the writer is in the world.
    Reader(ReaderEvent<T>),
}

/// A writer and a reader on one directory.
#[verifier::ext_equal]
pub struct PairWorld<T> {
    /// The writer's side. Its directory is the shared one.
    pub writer: WriterWorld<T>,
    /// The reader's side. Its directory is the shared one.
    pub reader: ReaderWorld<T>,
}

impl<T> PairWorld<T> {
    /// The world of a writer and a reader that were just made for an empty
    /// directory.
    pub open spec fn start(max_number_of_items: usize) -> PairWorld<T> {
        let writer = WriterWorld::<T>::start(max_number_of_items);
        PairWorld { writer, reader: ReaderWorld::start(writer.directory) }
    }

    /// The world after one event.
    pub open spec fn step(self, event: PairEvent<T>) -> PairWorld<T> {
        match event {
            PairEvent::Writer(event) => {
                let writer = self.writer.step(event);
                PairWorld { writer, reader: ReaderWorld { directory: writer.directory, ..self.reader } }
            },
            PairEvent::Reader(event) => if event is Append || event is Seal || event is Create {
                self
            } else {
                let reader = self.reader.step(event);
                PairWorld { writer: WriterWorld { directory: reader.directory, ..self.writer }, reader }
            },
        }
    }

    /// The world of a fresh writer and reader after `events`.
    pub open spec fn after(max_number_of_items: usize, events: Seq<PairEvent<T>>) -> PairWorld<T>
        decreases events.len(),
    {
        if events.len() == 0 {
            Self::start(max_number_of_items)
        } else {
            Self::after(max_number_of_items, events.drop_last()).step(events.last())
        }
    }

    /// What holds in every world that a run reaches.
    pub open spec fn inv(self) -> bool {
        &&& self.writer.inv()
        &&& self.reader.inv()
        &&& self.writer.directory == self.reader.directory
    }
}

/// What a writer does to the directory keeps the reader's invariant.
proof fn lemma_evolution_keeps_reader_inv<T>(reader: ReaderWorld<T>, directory: Seq<Segment<T>>)
    requires
        reader.inv(),
        evolves(reader.directory, directory),
    ensures
        (ReaderWorld { directory, ..reader }).inv(),
{
    let next = ReaderWorld { directory, ..reader };
    let current = reader.current();
    assert(directory.take(current) =~= reader.directory.take(current)) by {
        assert forall|i: int| 0 <= i < current implies directory[i] == reader.directory[i] by {
            assert(reader.directory[i].sealed);
        }
    }
    assert(directory[current].items.take(reader.consumed as int)
        =~= reader.directory[current].items.take(reader.consumed as int)) by {
        assert(directory[current].items.take(reader.directory[current].items.len() as int)
            == reader.directory[current].items);
    }
    assert(directory[current].deleted == reader.directory[current].deleted);
    if reader.directory[current].sealed {
        assert(directory[current] == reader.directory[current]);
    }
    if reader.ended {
        assert(reader.directory.last().sealed);
    }
    assert forall|i: int| current < i < directory.len() implies !(#[trigger] directory[i]).deleted by {
        if i < reader.directory.len() {
            assert(directory[i].deleted == reader.directory[i].deleted);
        }
    }
}

/// What a reader does to the directory keeps the writer's invariant.
proof fn lemma_reading_keeps_writer_inv<T>(writer: WriterWorld<T>, directory: Seq<Segment<T>>)
    requires
        writer.inv(),
        same_files(writer.directory, directory),
    ensures
        (WriterWorld { directory, ..writer }).inv(),
{
    let next = WriterWorld { directory, ..writer };
    lemma_same_files_same_contents(writer.directory, directory);
    assert(writer.directory[writer.active()].items == directory[writer.active()].items);
    if writer.sender.retiring is Some {
        assert(writer.directory[writer.outgoing()].items == directory[writer.outgoing()].items);
        assert forall|i: int| 0 <= i < next.outgoing() implies (#[trigger] next.directory[i]).sealed
            && next.directory[i].items.len() == next.cap() by {
            assert(writer.directory[i].sealed);
        }
    } else {
        assert forall|i: int| 0 <= i < next.active() implies (#[trigger] next.directory[i]).sealed
            && next.directory[i].items.len() == next.cap() by {
            assert(writer.directory[i].sealed);
        }
    }
}

/// The start satisfies the invariant.
proof fn lemma_start_inv<T>(max_number_of_items: usize)
    ensures
        PairWorld::<T>::start(max_number_of_items).inv(),
{
    crate::channel::writer_world::lemma_run_inv::<T>(max_number_of_items, Seq::empty());
    crate::channel::writer_world::lemma_run_deletes_nothing::<T>(max_number_of_items, Seq::empty());
    let writer = WriterWorld::<T>::start(max_number_of_items);
    assert(writer == WriterWorld::<T>::after(max_number_of_items, Seq::empty()));
    crate::channel::reader_world::lemma_run_inv::<T>(writer.directory, Seq::empty());
}

/// Every event keeps the invariant.
pub proof fn lemma_step_keeps_inv<T>(world: PairWorld<T>, event: PairEvent<T>)
    requires
        world.inv(),
    ensures
        world.step(event).inv(),
{
    match event {
        PairEvent::Writer(event) => {
            crate::channel::writer_world::lemma_step_keeps_inv(world.writer, event);
            law_writer_respects_seals(world.writer, event);
            lemma_evolution_keeps_reader_inv(world.reader, world.writer.step(event).directory);
        },
        PairEvent::Reader(event) => {
            if !(event is Append || event is Seal || event is Create) {
                crate::channel::reader_world::lemma_step_keeps_inv(world.reader, event);
                lemma_step_keeps_files(world.reader.directory, world.reader, event);
                lemma_reading_keeps_writer_inv(world.writer, world.reader.step(event).directory);
            }
        },
    }
}

/// Every run ends in a world that satisfies the invariant.
pub proof fn lemma_run_inv<T>(max_number_of_items: usize, events: Seq<PairEvent<T>>)
    ensures
        PairWorld::after(max_number_of_items, events).inv(),
    decreases events.len(),
{
    if events.len() == 0 {
        lemma_start_inv::<T>(max_number_of_items);
    } else {
        lemma_run_inv(max_number_of_items, events.drop_last());
        lemma_step_keeps_inv(PairWorld::after(max_number_of_items, events.drop_last()), events.last());
    }
}

/// A reader that follows a writer through the same directory yields only
/// items that the writer took, each once, in the order in which the writer
/// took them, however the two are interleaved.
pub proof fn law_follower_yields_what_was_taken<T>(
    max_number_of_items: usize,
    events: Seq<PairEvent<T>>,
)
    ensures
        ({
            let world = PairWorld::after(max_number_of_items, events);
            &&& world.reader.yielded.len() <= world.writer.accepted.len()
            &&& world.reader.yielded == world.writer.accepted.take(world.reader.yielded.len() as int)
        }),
{
    let world = PairWorld::after(max_number_of_items, events);
    lemma_run_inv(max_number_of_items, events);
    let reader = world.reader;
    let writer = world.writer;
    let current = reader.current();
    let directory = reader.directory;
    crate::channel::directory::lemma_contents_take(directory, current + 1);
    assert(directory.take(current + 1).drop_last() =~= directory.take(current));
    let upto = contents(directory.take(current + 1));
    assert(upto == contents(directory.take(current)) + directory[current].items);
    assert(reader.yielded =~= upto.take(reader.yielded.len() as int));
    assert(reader.yielded =~= contents(directory).take(reader.yielded.len() as int));
    assert(writer.accepted == contents(directory) + writer.outgoing_buffer + writer.active_buffer);
    assert(reader.yielded =~= writer.accepted.take(reader.yielded.len() as int));
}

/// A reader that follows a writer does not report the end of the queue too
/// early: when it does, the writer has sealed its last segment, no segment is
/// outgoing, nothing is enqueued in memory any more, and the reader has
/// yielded every item that the writer took.
pub proof fn law_follower_ends_with_the_writer<T>(
    max_number_of_items: usize,
    events: Seq<PairEvent<T>>,
)
    requires
        PairWorld::after(max_number_of_items, events).reader.ended,
    ensures
        ({
            let world = PairWorld::after(max_number_of_items, events);
            &&& world.writer.sender.file.file.closing.progress() >= 4
            &&& world.writer.sender.retiring is None
            &&& world.writer.active_buffer.len() == 0
            &&& world.writer.outgoing_buffer.len() == 0
            &&& world.reader.yielded == world.writer.accepted
        }),
{
    let world = PairWorld::after(max_number_of_items, events);
    lemma_run_inv(max_number_of_items, events);
    let reader = world.reader;
    let writer = world.writer;
    let current = reader.current();
    let directory = reader.directory;
    assert(directory.take(current + 1) =~= directory);
    assert(directory.take(current + 1).drop_last() =~= directory.take(current));
    let items = directory[current].items;
    assert(items.take(reader.consumed as int) =~= items);
    assert(reader.yielded == contents(directory));
    assert(writer.accepted =~= contents(directory) + writer.outgoing_buffer + writer.active_buffer);
}


/// What the writer took and the reader has not yielded yet is all there, in
/// its order: first what is in the segment files behind the reader's place,
/// then what is still enqueued on the writer's side. After a completed
/// flush, when nothing is enqueued, all of it is in the segment files.
pub proof fn law_unread_items_are_in_files_or_enqueued<T>(
    max_number_of_items: usize,
    events: Seq<PairEvent<T>>,
)
    ensures
        ({
            let world = PairWorld::after(max_number_of_items, events);
            let read = world.reader.yielded.len() as int;
            &&& read <= contents(world.writer.directory).len()
            &&& world.writer.accepted.skip(read) == contents(world.writer.directory).skip(read)
                + world.writer.outgoing_buffer + world.writer.active_buffer
        }),
{
    let world = PairWorld::after(max_number_of_items, events);
    lemma_run_inv(max_number_of_items, events);
    let reader = world.reader;
    let writer = world.writer;
    let current = reader.current();
    let directory = reader.directory;
    crate::channel::directory::lemma_contents_take(directory, current + 1);
    assert(directory.take(current + 1).drop_last() =~= directory.take(current));
    let read = reader.yielded.len() as int;
    let on_disk = contents(directory);
    assert(read <= on_disk.len());
    assert(writer.accepted == on_disk + writer.outgoing_buffer + writer.active_buffer);
    assert(writer.accepted.skip(read) =~= on_disk.skip(read) + writer.outgoing_buffer
        + writer.active_buffer);
}

} // verus!
