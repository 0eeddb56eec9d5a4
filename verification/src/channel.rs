//! The segment store and the spillover combinator.
//!
//! The store is a directory of numbered segment files, named as [`layout`]
//! says. [`fs_sender`] decides what a writer does, [`fs_receiver`] what a
//! reader does, [`closing`] how a segment is sealed, and [`send_all`] how
//! items are routed between a consumer and the store.
//!
//! The other modules put the machines into a model of their surroundings and
//! state what holds of every run: [`writer_world`] and [`reader_world`] for a
//! writer and a reader alone, [`round_trip`] for a reader that comes after a
//! writer, [`pair_world`] for a reader that follows a writer, [`spill_world`]
//! for the combinator, and [`end_to_end`] for the combinator with its store.
use crate::channel::closing::{UnboundedFileSender, unbounded};
use crate::channel::fs_receiver::{DirReciver, FileReciver, new, new_dir_reciver};
use crate::channel::fs_sender::{DirSender, new_dir_sender};
use crate::channel::send_all::{SendAllUnorderedFs, new_send_all};
use vstd::prelude::*;

pub mod closing;
pub mod directory;
pub mod end_to_end;
pub mod error;
pub mod fs_receiver;
pub mod fs_sender;
pub mod layout;
pub mod pair_world;
pub mod poll;
pub mod reader_world;
pub mod round_trip;
pub mod send_all;
pub mod spill_world;
pub mod writer_world;

verus! {

/// The cap of a segment where the caller of the combinator names none.
pub const MAX_ITEMS_IN_FILE: usize = 1000;

/// The writer and the reader state for one file that was just opened for both.
///
/// The writer has no cap. Reading follows writing through the file, so this
/// can cause much traffic on the disk.
pub fn unbounded_file() -> (pair: (UnboundedFileSender, FileReciver))
    ensures
        pair.0.closing is Idle,
        pair.1 == FileReciver::spec_new(),
{
    (unbounded(), new())
}

/// The writer and the reader state for a directory whose segment `0` was just
/// opened for both. A segment takes at most `max_items_in_file` items, or any
/// number if that is zero; the writer creates the next segment when the
/// active one is full.
pub fn unordered_dir_fs(max_items_in_file: usize) -> (pair: (DirSender, DirReciver))
    ensures
        pair.0 == DirSender::spec_new(max_items_in_file),
        pair.0.wf(),
        pair.1 == DirReciver::spec_new(),
{
    let dir_sender = new_dir_sender(max_items_in_file);
    let dir_reciver = new_dir_reciver();
    (dir_sender, dir_reciver)
}

/// The state of a combinator that spills to a directory of segments of
/// [`MAX_ITEMS_IN_FILE`] items: the combinator itself, and the writer and the
/// reader of the directory.
///
/// The combinator can reorder items: one that the consumer takes directly
/// overtakes those that wait on disk.
pub fn send_all_fs_backpresure<T>() -> (parts: (SendAllUnorderedFs<T>, DirSender, DirReciver))
    ensures
        parts.0 == SendAllUnorderedFs::<T>::spec_new(),
        parts.1 == DirSender::spec_new(MAX_ITEMS_IN_FILE),
        parts.2 == DirReciver::spec_new(),
{
    let (dir_sender, dir_reciver) = unordered_dir_fs(MAX_ITEMS_IN_FILE);
    (new_send_all(), dir_sender, dir_reciver)
}

} // verus!
