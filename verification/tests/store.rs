//! The directory writer and reader, driven against a directory in memory.

use tokio_fs_stream::channel::closing::{CloseDone, CloseStep, ClosingFile, Permissions};
use tokio_fs_stream::channel::error::{Error, StorageErrorKind};
use tokio_fs_stream::channel::fs_receiver::{DirReciver, ReceiverAction, ReceiverResponse};
use tokio_fs_stream::channel::fs_sender::{DirSender, Resume, SenderAction, SenderResponse};
use tokio_fs_stream::channel::poll::{Async, AsyncSink};
use tokio_fs_stream::channel::unordered_dir_fs;

#[derive(Debug, Clone, PartialEq)]
struct File {
    items: Vec<String>,
    sealed: bool,
    deleted: bool,
}

struct Disk {
    files: Vec<File>,
    changes: usize,
}

struct WriterEnd {
    machine: DirSender,
    active: usize,
    active_queue: Vec<String>,
    outgoing_queue: Vec<String>,
}

struct ReaderEnd {
    machine: DirReciver,
    current: usize,
    consumed: usize,
    subscriptions: usize,
}

fn fresh_file() -> File {
    File { items: Vec::new(), sealed: false, deleted: false }
}

fn channel(cap: usize) -> (Disk, WriterEnd, ReaderEnd) {
    let (sender, reciver) = unordered_dir_fs(cap);
    (
        Disk { files: vec![fresh_file()], changes: 0 },
        WriterEnd { machine: sender, active: 0, active_queue: Vec::new(), outgoing_queue: Vec::new() },
        ReaderEnd { machine: reciver, current: 0, consumed: 0, subscriptions: 0 },
    )
}

fn restarted_reader() -> ReaderEnd {
    let (_, reciver) = unordered_dir_fs(0);
    ReaderEnd { machine: reciver, current: 0, consumed: 0, subscriptions: 0 }
}

fn close_step(disk: &mut Disk, index: usize, queue: &mut Vec<String>, step: CloseStep) -> CloseDone {
    disk.changes += 1;
    match step {
        CloseStep::Flush => {
            disk.files[index].items.append(queue);
            CloseDone::Flushed
        }
        CloseStep::ReadMetadata => CloseDone::Metadata(Permissions { readonly: disk.files[index].sealed }),
        CloseStep::SetPermissions(permissions) => {
            disk.files[index].sealed = permissions.readonly;
            CloseDone::PermissionsSet
        }
        CloseStep::Release => CloseDone::Released,
    }
}

fn perform_write(disk: &mut Disk, end: &mut WriterEnd, action: SenderAction<String>) -> SenderResponse<String> {
    match action {
        SenderAction::Open(index, item) => {
            let index = index as usize;
            assert_eq!(index, disk.files.len());
            disk.files.push(fresh_file());
            end.outgoing_queue = std::mem::take(&mut end.active_queue);
            end.active = index;
            SenderResponse::Opened(Ok(()), item)
        }
        SenderAction::Retire(step, resume) => {
            let done = close_step(disk, end.active - 1, &mut end.outgoing_queue, step);
            SenderResponse::Retired(Ok(Async::Ready(done)), resume)
        }
        SenderAction::Write(item) => {
            assert!(!disk.files[end.active].sealed);
            end.active_queue.push(item);
            SenderResponse::Written(Ok(AsyncSink::Ready))
        }
        SenderAction::Flush => {
            disk.files[end.active].items.append(&mut end.active_queue);
            disk.changes += 1;
            SenderResponse::Flushed(Ok(Async::Ready(())))
        }
        SenderAction::Seal(step) => {
            let done = close_step(disk, end.active, &mut end.active_queue, step);
            SenderResponse::Sealed(Ok(Async::Ready(done)))
        }
        SenderAction::Sent(_) | SenderAction::Done(_) => unreachable!(),
    }
}

fn drive_writer(disk: &mut Disk, end: &mut WriterEnd, first: SenderAction<String>) -> SenderAction<String> {
    let mut action = first;
    loop {
        match action {
            SenderAction::Sent(_) | SenderAction::Done(_) => return action,
            request => {
                let response = perform_write(disk, end, request);
                action = end.machine.resume(response);
            }
        }
    }
}

fn send(disk: &mut Disk, end: &mut WriterEnd, item: &str) {
    let first = end.machine.start_send(item.to_string());
    assert_eq!(drive_writer(disk, end, first), SenderAction::Sent(Ok(AsyncSink::Ready)));
}

fn flush(disk: &mut Disk, end: &mut WriterEnd) {
    let first = end.machine.poll_complete::<String>();
    assert_eq!(drive_writer(disk, end, first), SenderAction::Done(Ok(Async::Ready(()))));
}

fn close(disk: &mut Disk, end: &mut WriterEnd) {
    let first = end.machine.close::<String>();
    assert_eq!(drive_writer(disk, end, first), SenderAction::Done(Ok(Async::Ready(()))));
}

fn missing() -> Error {
    Error::Storage { kind: StorageErrorKind::NotFound, message: "no such file".to_string() }
}

fn perform_read(disk: &mut Disk, end: &mut ReaderEnd, action: ReceiverAction<String>) -> ReceiverResponse<String> {
    match action {
        ReceiverAction::Decode => {
            let file = &disk.files[end.current];
            if end.consumed < file.items.len() {
                end.consumed += 1;
                ReceiverResponse::Decoded(Ok(Async::Ready(Some(file.items[end.consumed - 1].clone()))))
            } else {
                ReceiverResponse::Decoded(Ok(Async::Ready(None)))
            }
        }
        ReceiverAction::ReadMetadata => ReceiverResponse::Metadata(Ok(Async::Ready(Permissions {
            readonly: disk.files[end.current].sealed,
        }))),
        ReceiverAction::Remove => {
            if disk.files[end.current].deleted {
                ReceiverResponse::Removed(Err(missing()))
            } else {
                disk.files[end.current].deleted = true;
                ReceiverResponse::Removed(Ok(Async::Ready(())))
            }
        }
        ReceiverAction::Watch => {
            end.subscriptions += 1;
            disk.changes = 0;
            ReceiverResponse::Watching(Ok(()))
        }
        ReceiverAction::PollWatcher => {
            if disk.changes > 0 {
                disk.changes -= 1;
                ReceiverResponse::Watched(Ok(Async::Ready(Some(()))))
            } else {
                ReceiverResponse::Watched(Ok(Async::NotReady))
            }
        }
        ReceiverAction::Open(index) => {
            if index < disk.files.len() && !disk.files[index].deleted {
                end.current = index;
                end.consumed = 0;
                ReceiverResponse::Opened(Ok(()))
            } else {
                ReceiverResponse::Opened(Err(missing()))
            }
        }
        ReceiverAction::Yield(_) => unreachable!(),
    }
}

fn poll(disk: &mut Disk, end: &mut ReaderEnd) -> Result<Async<Option<String>>, Error> {
    let mut action = end.machine.poll::<String>();
    loop {
        match action {
            ReceiverAction::Yield(outcome) => return outcome,
            request => {
                let response = perform_read(disk, end, request);
                action = end.machine.resume(response);
            }
        }
    }
}

fn collect(disk: &mut Disk, end: &mut ReaderEnd) -> (Vec<String>, Result<Async<Option<String>>, Error>) {
    let mut readed = Vec::new();
    loop {
        match poll(disk, end) {
            Ok(Async::Ready(Some(item))) => readed.push(item),
            last => return (readed, last),
        }
    }
}

fn strings(items: &[&str]) -> Vec<String> {
    items.iter().map(|item| item.to_string()).collect()
}

#[test]
fn dir_sender_naive() {
    let (mut disk, mut s, mut r) = channel(100);

    let data = vec![
        "Ala ma kota".to_string(),
        "Ala ma kota".to_string(),
        "Ala ma kota".to_string(),
        "Ala ma kota".to_string(),
        "Ala ma kota".to_string(),
    ];

    for item in data.iter() {
        send(&mut disk, &mut s, item);
    }
    close(&mut disk, &mut s);

    let (readed, last) = collect(&mut disk, &mut r);
    assert_eq!(readed, data);
    assert_eq!(last, Ok(Async::Ready(None)));
}

#[test]
fn end_to_end_with_a_cap_of_two() {
    let (mut disk, mut s, mut r) = channel(2);
    for item in ["A", "B", "C", "D", "E"] {
        send(&mut disk, &mut s, item);
    }
    flush(&mut disk, &mut s);

    assert_eq!(disk.files.len(), 3);
    assert_eq!(disk.files[0], File { items: strings(&["A", "B"]), sealed: true, deleted: false });
    assert_eq!(disk.files[1], File { items: strings(&["C", "D"]), sealed: true, deleted: false });
    assert_eq!(disk.files[2], File { items: strings(&["E"]), sealed: false, deleted: false });

    close(&mut disk, &mut s);
    assert!(disk.files[2].sealed);
    assert_eq!(disk.files[2].items, strings(&["E"]));

    let (readed, last) = collect(&mut disk, &mut r);
    assert_eq!(readed, strings(&["A", "B", "C", "D", "E"]));
    assert_eq!(last, Ok(Async::Ready(None)));
    assert!(disk.files.iter().all(|file| file.deleted));
}

#[test]
fn rotation_after_cap_plus_one_items() {
    let cap = 3;
    let (mut disk, mut s, mut r) = channel(cap);
    for item in ["a", "b", "c", "d"] {
        send(&mut disk, &mut s, item);
    }
    assert_eq!(disk.files.len(), 2);
    assert_eq!(disk.files[0].items, strings(&["a", "b", "c"]));
    assert!(disk.files[0].sealed);
    assert!(!disk.files[1].sealed);
    assert_eq!(s.machine.next_file_index, 2);
    assert_eq!(s.machine.file.number_of_items, 1);
    assert_eq!(s.active_queue, strings(&["d"]));

    close(&mut disk, &mut s);
    assert_eq!(disk.files[1].items, strings(&["d"]));

    // Segment 0 is drained, and deleted, before anything of segment 1 is read.
    for expected in ["a", "b", "c"] {
        assert_eq!(poll(&mut disk, &mut r), Ok(Async::Ready(Some(expected.to_string()))));
        assert_eq!(r.current, 0);
        assert!(!disk.files[0].deleted);
    }
    assert_eq!(poll(&mut disk, &mut r), Ok(Async::Ready(Some("d".to_string()))));
    assert_eq!(r.current, 1);
    assert!(disk.files[0].deleted);
    assert!(!disk.files[1].deleted);
    assert_eq!(poll(&mut disk, &mut r), Ok(Async::Ready(None)));
    assert!(disk.files[1].deleted);
}

#[test]
fn exactly_cap_items_stay_in_one_segment() {
    let (mut disk, mut s, _) = channel(3);
    for item in ["a", "b", "c"] {
        send(&mut disk, &mut s, item);
    }
    assert_eq!(disk.files.len(), 1);
    assert_eq!(s.machine.next_file_index, 1);
    assert!(s.machine.file.is_full());
}

#[test]
fn a_cap_of_zero_is_no_cap() {
    let (mut disk, mut s, _) = channel(0);
    assert_eq!(s.machine.max_number_of_items, usize::MAX);
    assert_eq!(s.machine.file.max_number_of_items, usize::MAX);
    for index in 0..50 {
        send(&mut disk, &mut s, &format!("{}", index));
    }
    assert_eq!(disk.files.len(), 1);
    assert_eq!(s.machine.file.number_of_items, 50);
}

#[test]
fn rotation_creates_the_next_segment_before_it_seals_the_outgoing_one() {
    let (mut disk, mut s, _) = channel(1);
    send(&mut disk, &mut s, "first");

    let open = s.machine.start_send("second".to_string());
    assert_eq!(open, SenderAction::Open(1, "second".to_string()));
    assert!(!disk.files[0].sealed);

    let response = perform_write(&mut disk, &mut s, open);
    let retire = s.machine.resume(response);
    assert_eq!(retire, SenderAction::Retire(CloseStep::Flush, Resume::Send("second".to_string())));
    assert_eq!(disk.files.len(), 2);
    assert!(!disk.files[0].sealed);
    assert_eq!(s.machine.next_file_index, 2);
    assert_eq!(s.machine.retiring.map(|outgoing| outgoing.closing), Some(ClosingFile::FlushPending));

    assert_eq!(drive_writer(&mut disk, &mut s, retire), SenderAction::Sent(Ok(AsyncSink::Ready)));
    assert_eq!(disk.files[0], File { items: strings(&["first"]), sealed: true, deleted: false });
    assert_eq!(s.machine.retiring, None);
    assert_eq!(s.active_queue, strings(&["second"]));
}

#[test]
fn an_interrupted_rotation_hands_the_item_back_and_is_resumed() {
    let (mut disk, mut s, _) = channel(1);
    send(&mut disk, &mut s, "first");

    let open = s.machine.start_send("second".to_string());
    let response = perform_write(&mut disk, &mut s, open);
    let flush_step = s.machine.resume(response);
    let response = perform_write(&mut disk, &mut s, flush_step);
    let metadata_step = s.machine.resume(response);
    assert_eq!(metadata_step, SenderAction::Retire(CloseStep::ReadMetadata, Resume::Send("second".to_string())));

    // The metadata are not there yet: the item comes back.
    let handed_back = s.machine.resume(SenderResponse::Retired(
        Ok(Async::NotReady),
        Resume::Send("second".to_string()),
    ));
    assert_eq!(handed_back, SenderAction::Sent(Ok(AsyncSink::NotReady("second".to_string()))));
    assert_eq!(s.machine.next_file_index, 2);

    // Offered again, the rotation goes on where it stopped: no second open, no second flush.
    let again = s.machine.start_send("second".to_string());
    assert_eq!(again, SenderAction::Retire(CloseStep::ReadMetadata, Resume::Send("second".to_string())));
    assert_eq!(drive_writer(&mut disk, &mut s, again), SenderAction::Sent(Ok(AsyncSink::Ready)));
    assert_eq!(disk.files.len(), 2);
    assert!(disk.files[0].sealed);
}

#[test]
fn a_flush_finishes_a_rotation_first() {
    let (mut disk, mut s, _) = channel(1);
    send(&mut disk, &mut s, "first");
    let open = s.machine.start_send("second".to_string());
    let response = perform_write(&mut disk, &mut s, open);
    let _ = s.machine.resume(response);
    let _ = s.machine.resume(SenderResponse::Retired(Ok(Async::NotReady), Resume::Send("second".to_string())));

    let first = s.machine.poll_complete::<String>();
    assert_eq!(first, SenderAction::Retire(CloseStep::Flush, Resume::Flush));
    assert_eq!(drive_writer(&mut disk, &mut s, first), SenderAction::Done(Ok(Async::Ready(()))));
    assert!(disk.files[0].sealed);
    assert_eq!(s.machine.retiring, None);
}

#[test]
fn a_failed_open_is_reported_and_changes_nothing() {
    let (mut disk, mut s, _) = channel(1);
    send(&mut disk, &mut s, "first");
    let before = s.machine;
    let open = s.machine.start_send("second".to_string());
    assert_eq!(open, SenderAction::Open(1, "second".to_string()));
    let failure = Error::Storage { kind: StorageErrorKind::Other, message: "disk full".to_string() };
    let failed = s.machine.resume(SenderResponse::Opened(
        Err(Error::Storage { kind: StorageErrorKind::Other, message: "disk full".to_string() }),
        "second".to_string(),
    ));
    assert_eq!(failed, SenderAction::Sent(Err(failure)));
    assert_eq!(s.machine, before);
}

#[test]
fn a_write_that_is_not_taken_does_not_count() {
    let (_, mut s, _) = channel(2);
    assert_eq!(s.machine.start_send("x".to_string()), SenderAction::Write("x".to_string()));
    let back = s.machine.resume(SenderResponse::Written(Ok(AsyncSink::NotReady("x".to_string()))));
    assert_eq!(back, SenderAction::Sent(Ok(AsyncSink::NotReady("x".to_string()))));
    assert_eq!(s.machine.file.number_of_items, 0);

    let failure = || Error::Codec { message: "cannot encode".to_string() };
    let failed = s.machine.resume(SenderResponse::<String>::Written(Err(failure())));
    assert_eq!(failed, SenderAction::Sent(Err(failure())));
    assert_eq!(s.machine.file.number_of_items, 0);

    let taken = s.machine.resume(SenderResponse::<String>::Written(Ok(AsyncSink::Ready)));
    assert_eq!(taken, SenderAction::Sent(Ok(AsyncSink::Ready)));
    assert_eq!(s.machine.file.number_of_items, 1);
}

#[test]
fn a_closed_writer_takes_no_more_items() {
    let (mut disk, mut s, _) = channel(5);
    send(&mut disk, &mut s, "only");
    close(&mut disk, &mut s);
    assert_eq!(
        s.machine.start_send("late".to_string()),
        SenderAction::Sent(Ok(AsyncSink::NotReady("late".to_string())))
    );
    assert_eq!(s.machine.close::<String>(), SenderAction::Done(Ok(Async::Ready(()))));
    assert_eq!(disk.files[0].items, strings(&["only"]));
}

#[test]
fn the_last_index_cannot_be_rotated_away() {
    let (_, mut s, _) = channel(1);
    s.machine.next_file_index = u32::MAX;
    s.machine.file.number_of_items = 1;
    assert_eq!(
        s.machine.start_send("more".to_string()),
        SenderAction::Sent(Ok(AsyncSink::NotReady("more".to_string())))
    );
}

#[test]
fn items_survive_a_restart() {
    let (mut disk, mut s, _) = channel(2);
    for item in ["one", "two", "three"] {
        send(&mut disk, &mut s, item);
    }
    flush(&mut disk, &mut s);
    // The writer is gone without a close; a reader that knows only the directory starts over.
    let mut r = restarted_reader();
    let (readed, last) = collect(&mut disk, &mut r);
    assert_eq!(readed, strings(&["one", "two", "three"]));
    assert_eq!(last, Ok(Async::NotReady));
    assert!(disk.files[0].deleted);
    assert!(!disk.files[1].deleted);
}

#[test]
fn a_crash_loses_only_what_was_not_flushed() {
    let (mut disk, mut s, _) = channel(10);
    send(&mut disk, &mut s, "flushed");
    flush(&mut disk, &mut s);
    send(&mut disk, &mut s, "enqueued");
    assert_eq!(s.active_queue, strings(&["enqueued"]));

    let mut r = restarted_reader();
    let (readed, last) = collect(&mut disk, &mut r);
    assert_eq!(readed, strings(&["flushed"]));
    assert_eq!(last, Ok(Async::NotReady));
}

#[test]
fn a_reader_waits_at_a_growing_file_and_resumes() {
    let (mut disk, mut s, mut r) = channel(10);
    send(&mut disk, &mut s, "early");
    flush(&mut disk, &mut s);

    assert_eq!(poll(&mut disk, &mut r), Ok(Async::Ready(Some("early".to_string()))));
    // Nothing more, and the file is not sealed: the reader subscribes and suspends.
    assert_eq!(poll(&mut disk, &mut r), Ok(Async::NotReady));
    assert!(r.machine.file.watching);
    assert!(!r.machine.file.sealed);
    assert_eq!(r.subscriptions, 1);
    assert!(!disk.files[0].deleted);
    // Polled again without a change, it stays suspended and does not subscribe again.
    assert_eq!(poll(&mut disk, &mut r), Ok(Async::NotReady));
    assert_eq!(r.subscriptions, 1);

    send(&mut disk, &mut s, "late");
    flush(&mut disk, &mut s);
    assert_eq!(poll(&mut disk, &mut r), Ok(Async::Ready(Some("late".to_string()))));

    close(&mut disk, &mut s);
    assert_eq!(poll(&mut disk, &mut r), Ok(Async::Ready(None)));
    assert!(disk.files[0].deleted);
    assert_eq!(r.subscriptions, 1);
}

#[test]
fn a_reader_follows_a_writer_across_segments() {
    let (mut disk, mut s, mut r) = channel(2);
    let mut readed = Vec::new();
    for item in ["1", "2", "3", "4", "5", "6", "7"] {
        send(&mut disk, &mut s, item);
        flush(&mut disk, &mut s);
        let (mut more, last) = collect(&mut disk, &mut r);
        readed.append(&mut more);
        assert_eq!(last, Ok(Async::NotReady));
    }
    close(&mut disk, &mut s);
    let (mut more, last) = collect(&mut disk, &mut r);
    readed.append(&mut more);
    assert_eq!(last, Ok(Async::Ready(None)));
    assert_eq!(readed, strings(&["1", "2", "3", "4", "5", "6", "7"]));
    assert_eq!(disk.files.len(), 4);
    assert!(disk.files.iter().all(|file| file.deleted && file.sealed));
}

#[test]
fn items_that_arrive_before_the_seal_is_seen_are_not_lost() {
    let (mut disk, mut s, mut r) = channel(10);
    // The reader finds nothing and goes to ask for the metadata.
    let decode = r.machine.poll::<String>();
    assert_eq!(decode, ReceiverAction::Decode);
    let response = perform_read(&mut disk, &mut r, decode);
    let metadata = r.machine.resume(response);
    assert_eq!(metadata, ReceiverAction::ReadMetadata);

    // Meanwhile the writer appends an item and seals the segment.
    send(&mut disk, &mut s, "in time");
    close(&mut disk, &mut s);

    // The reader sees the seal, and looks again before it deletes anything.
    let response = perform_read(&mut disk, &mut r, metadata);
    let again = r.machine.resume(response);
    assert_eq!(again, ReceiverAction::Decode);
    assert!(r.machine.file.sealed);
    let response = perform_read(&mut disk, &mut r, again);
    assert_eq!(r.machine.resume(response), ReceiverAction::Yield(Ok(Async::Ready(Some("in time".to_string())))));
    assert!(!disk.files[0].deleted);
    assert_eq!(poll(&mut disk, &mut r), Ok(Async::Ready(None)));
    assert!(disk.files[0].deleted);
}

#[test]
fn polling_an_exhausted_queue_again_tolerates_the_deleted_file() {
    let (mut disk, mut s, mut r) = channel(4);
    send(&mut disk, &mut s, "x");
    close(&mut disk, &mut s);
    let (readed, last) = collect(&mut disk, &mut r);
    assert_eq!(readed, strings(&["x"]));
    assert_eq!(last, Ok(Async::Ready(None)));
    let cursor = r.machine.next_file_index;
    assert_eq!(cursor, 1);
    assert_eq!(poll(&mut disk, &mut r), Ok(Async::Ready(None)));
    assert_eq!(r.machine.next_file_index, cursor);
}

#[test]
fn the_multiset_read_is_the_multiset_written() {
    let (mut disk, mut s, mut r) = channel(3);
    let written = strings(&["b", "a", "b", "c", "a", "a", "d", "b"]);
    for item in written.iter() {
        send(&mut disk, &mut s, item);
    }
    close(&mut disk, &mut s);
    let (readed, _) = collect(&mut disk, &mut r);
    assert_eq!(readed, written);
    let mut left = readed.clone();
    let mut right = written.clone();
    left.sort();
    right.sort();
    assert_eq!(left, right);
    assert_eq!(disk.files.len(), 3);
}
