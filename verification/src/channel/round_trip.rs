//! Writing a directory queue, then reading it.
//!
//! The directory is all that a writer and a later reader share. The laws here
//! start a fresh reader on the directory that a run of a writer has left
//! behind, and compare what the reader yields with what the writer took.
use crate::channel::directory::{all_sealed, contents};
use crate::channel::reader_world::{
    ReaderEvent,
    ReaderWorld,
    law_end_of_queue_after_last_item,
    law_reader_drains_segments_in_turn,
    law_reader_yields_in_order,
    lemma_run_keeps_files,
    lemma_same_files_same_contents,
    quiet,
    unread,
};
use crate::channel::writer_world::{
    WriterEvent,
    WriterWorld,
    law_closed_writer_has_sealed_everything,
    lemma_run_deletes_nothing,
    lemma_run_inv,
};
use vstd::prelude::*;

verus! {

/// A directory that a writer leaves behind is one that a reader can be started on.
pub proof fn lemma_written_directory_is_unread<T>(
    max_number_of_items: usize,
    writes: Seq<WriterEvent<T>>,
)
    ensures
        unread(WriterWorld::after(max_number_of_items, writes).directory),
{
    lemma_run_inv(max_number_of_items, writes);
    lemma_run_deletes_nothing(max_number_of_items, writes);
}

/// Round trip: whatever was written through a directory writer that was then
/// closed, a fresh reader on the same directory that reads to the end of the
/// queue yields exactly those items, in the order in which they were
/// written, and so the same multiset; and it has then deleted every segment.
pub proof fn law_round_trip<T>(
    max_number_of_items: usize,
    writes: Seq<WriterEvent<T>>,
    reads: Seq<ReaderEvent<T>>,
)
    requires
        WriterWorld::after(max_number_of_items, writes).closed(),
        ReaderWorld::after(WriterWorld::after(max_number_of_items, writes).directory, reads).ended,
    ensures
        ({
            let writer = WriterWorld::after(max_number_of_items, writes);
            let reader = ReaderWorld::after(writer.directory, reads);
            &&& reader.yielded == writer.accepted
            &&& reader.yielded.to_multiset() == writer.accepted.to_multiset()
            &&& forall|i: int|
                0 <= i < reader.directory.len() ==> (#[trigger] reader.directory[i]).deleted
        }),
{
    let writer = WriterWorld::after(max_number_of_items, writes);
    let reader = ReaderWorld::after(writer.directory, reads);
    law_closed_writer_has_sealed_everything(max_number_of_items, writes);
    lemma_written_directory_is_unread(max_number_of_items, writes);
    lemma_run_keeps_files(writer.directory, reads);
    lemma_same_files_same_contents(writer.directory, reader.directory);
    law_end_of_queue_after_last_item(writer.directory, reads);
}

/// Reading a closed queue never yields anything but the items written, in
/// their order, however far the reader has come.
pub proof fn law_reader_of_closed_queue_yields_what_was_written<T>(
    max_number_of_items: usize,
    writes: Seq<WriterEvent<T>>,
    reads: Seq<ReaderEvent<T>>,
)
    requires
        WriterWorld::after(max_number_of_items, writes).closed(),
    ensures
        ({
            let writer = WriterWorld::after(max_number_of_items, writes);
            let reader = ReaderWorld::after(writer.directory, reads);
            &&& reader.yielded.len() <= writer.accepted.len()
            &&& reader.yielded == writer.accepted.take(reader.yielded.len() as int)
        }),
{
    let writer = WriterWorld::after(max_number_of_items, writes);
    let reader = ReaderWorld::after(writer.directory, reads);
    law_closed_writer_has_sealed_everything(max_number_of_items, writes);
    lemma_written_directory_is_unread(max_number_of_items, writes);
    lemma_run_keeps_files(writer.directory, reads);
    lemma_same_files_same_contents(writer.directory, reader.directory);
    law_reader_yields_in_order(writer.directory, reads);
}

/// Crash durability: let a writer stop at any point, closed or not, and let a
/// fresh reader, which knows nothing but the directory, read what is there
/// while no writer is at work. Then the reader yields only items that the
/// writer took, in the order in which it took them. Once it has come to the end
/// of the last file, it has recovered every item that had reached a file: all
/// that is missing of what the writer took is what was still enqueued in
/// memory when the writer stopped, which is nothing after a completed flush.
/// And the reader reports the end of the queue only if the writer had sealed
/// its last segment.
pub proof fn law_crash_recovery<T>(
    max_number_of_items: usize,
    writes: Seq<WriterEvent<T>>,
    reads: Seq<ReaderEvent<T>>,
)
    requires
        quiet(reads),
    ensures
        ({
            let writer = WriterWorld::after(max_number_of_items, writes);
            let reader = ReaderWorld::after(writer.directory, reads);
            &&& reader.yielded.len() <= writer.accepted.len()
            &&& reader.yielded == writer.accepted.take(reader.yielded.len() as int)
            &&& reader.current() == reader.directory.len() - 1 && reader.caught_up()
                ==> reader.yielded + writer.outgoing_buffer + writer.active_buffer
                == writer.accepted
            &&& reader.ended ==> writer.directory.last().sealed
        }),
{
    let writer = WriterWorld::after(max_number_of_items, writes);
    let reader = ReaderWorld::after(writer.directory, reads);
    lemma_run_inv(max_number_of_items, writes);
    lemma_written_directory_is_unread(max_number_of_items, writes);
    lemma_run_keeps_files(writer.directory, reads);
    lemma_same_files_same_contents(writer.directory, reader.directory);
    law_reader_yields_in_order(writer.directory, reads);
    law_reader_drains_segments_in_turn(writer.directory, reads);
    let on_disk = contents(writer.directory);
    assert(writer.accepted == on_disk + writer.outgoing_buffer + writer.active_buffer);
    assert(reader.yielded =~= writer.accepted.take(reader.yielded.len() as int));
    if reader.current() == reader.directory.len() - 1 && reader.caught_up() {
        let current = reader.current();
        let items = reader.directory[current].items;
        assert(reader.directory.take(current + 1) =~= reader.directory);
        assert(reader.directory.take(current + 1).drop_last() =~= reader.directory.take(current));
        assert(items.take(reader.consumed as int) =~= items);
        assert(reader.yielded == on_disk);
    }
    if reader.ended {
        crate::channel::reader_world::lemma_run_inv(writer.directory, reads);
        assert(reader.directory[reader.current()].sealed);
        assert(writer.directory[reader.current()].sealed == reader.directory[reader.current()].sealed);
    }
}

/// Rotation, read back: a reader of a directory of two segments yields the
/// items of segment `0` before any item of segment `1`, and has deleted
/// segment `0` by the time it is at segment `1`.
pub proof fn law_first_segment_is_drained_first<T>(
    max_number_of_items: usize,
    writes: Seq<WriterEvent<T>>,
    reads: Seq<ReaderEvent<T>>,
)
    requires
        WriterWorld::after(max_number_of_items, writes).directory.len() == 2,
        quiet(reads) || all_sealed(WriterWorld::after(max_number_of_items, writes).directory),
    ensures
        ({
            let writer = WriterWorld::after(max_number_of_items, writes);
            let reader = ReaderWorld::after(writer.directory, reads);
            let first = writer.directory[0].items;
            let second = writer.directory[1].items;
            &&& reader.current() == 0 ==> reader.yielded == first.take(reader.consumed as int)
            &&& reader.current() == 1 ==> reader.yielded == first + second.take(
                reader.consumed as int,
            ) && reader.directory[0].deleted
            &&& reader.current() == 0 || reader.current() == 1
        }),
{
    let writer = WriterWorld::after(max_number_of_items, writes);
    let reader = ReaderWorld::after(writer.directory, reads);
    lemma_written_directory_is_unread(max_number_of_items, writes);
    lemma_run_keeps_files(writer.directory, reads);
    law_reader_drains_segments_in_turn(writer.directory, reads);
    let current = reader.current();
    assert(reader.directory[0].items == writer.directory[0].items);
    assert(reader.directory[1].items == writer.directory[1].items);
    if current == 0 {
        assert(reader.directory.take(0) =~= Seq::empty());
        assert(contents(reader.directory.take(0)) =~= Seq::<T>::empty());
        assert(reader.yielded =~= writer.directory[0].items.take(reader.consumed as int));
    } else {
        assert(reader.directory.take(1).drop_last() =~= Seq::empty());
        reveal_with_fuel(contents, 2);
        assert(contents(reader.directory.take(1)) =~= writer.directory[0].items);
    }
}

} // verus!
