//! The spillover combinator: first against answers given by hand, then
//! together with a directory writer and reader over a directory in memory.

use std::collections::VecDeque;

use tokio_fs_stream::channel::closing::{CloseDone, CloseStep, Permissions};
use tokio_fs_stream::channel::error::{Error, SendAllFsErr, StorageErrorKind};
use tokio_fs_stream::channel::fs_receiver::{DirReciver, ReceiverAction, ReceiverResponse};
use tokio_fs_stream::channel::fs_sender::{DirSender, SenderAction, SenderResponse};
use tokio_fs_stream::channel::poll::{Async, AsyncSink};
use tokio_fs_stream::channel::send_all::{
    new_send_all, Awaiting, Closing, SendAllAction, SendAllResponse, SendAllUnorderedFs,
};
use tokio_fs_stream::channel::unordered_dir_fs;

type Action = SendAllAction<String, String>;
type Response = SendAllResponse<String, String>;

fn item(text: &str) -> String {
    text.to_string()
}

fn store_failure() -> Error {
    Error::Storage { kind: StorageErrorKind::Other, message: "disk on fire".to_string() }
}

fn start() -> SendAllUnorderedFs<String> {
    new_send_all()
}

#[test]
fn the_backlog_on_disk_comes_before_the_upstream() {
    let mut combinator = start();
    assert_eq!(combinator.poll(), Action::PollDisk);
    assert_eq!(combinator.awaiting, Awaiting::Disk);
    assert_eq!(
        combinator.resume(Response::Disk(Ok(Async::Ready(Some(item("old")))))),
        Action::OfferConsumer(item("old"))
    );
    assert_eq!(combinator.resume(Response::Consumer(Ok(AsyncSink::Ready))), Action::PollDisk);
    // Only when the disk has nothing at hand is the upstream asked.
    assert_eq!(combinator.resume(Response::Disk(Ok(Async::NotReady))), Action::PollUpstream);
    assert_eq!(
        combinator.resume(Response::Upstream(Ok(Async::Ready(Some(item("new")))))),
        Action::OfferConsumer(item("new"))
    );
}

#[test]
fn an_item_goes_to_the_consumer_then_to_disk_then_into_the_buffer() {
    let mut combinator = start();
    let _: Action = combinator.poll();
    let _ = combinator.resume(Response::Disk(Ok(Async::NotReady)));
    let _ = combinator.resume(Response::Upstream(Ok(Async::Ready(Some(item("x"))))));
    assert_eq!(
        combinator.resume(Response::Consumer(Ok(AsyncSink::NotReady(item("x"))))),
        Action::OfferWriter(item("x"))
    );
    assert_eq!(combinator.buffered, None);
    assert_eq!(
        combinator.resume(Response::Writer(Ok(AsyncSink::NotReady(item("x"))))),
        Action::Suspend
    );
    assert_eq!(combinator.buffered, Some(item("x")));
    assert_eq!(combinator.awaiting, Awaiting::Nothing);

    // The parked item is resolved before anything is pulled.
    assert_eq!(combinator.poll(), Action::OfferConsumer(item("x")));
    assert_eq!(combinator.buffered, None);
    assert_eq!(
        combinator.resume(Response::Consumer(Ok(AsyncSink::NotReady(item("x"))))),
        Action::OfferWriter(item("x"))
    );
    assert_eq!(combinator.resume(Response::Writer(Ok(AsyncSink::Ready))), Action::PollDisk);
    assert_eq!(combinator.buffered, None);
}

#[test]
fn with_no_item_at_hand_both_sides_are_flushed_and_the_combinator_suspends() {
    let mut combinator = start();
    let _: Action = combinator.poll();
    let _ = combinator.resume(Response::Disk(Ok(Async::NotReady)));
    assert_eq!(combinator.resume(Response::Upstream(Ok(Async::NotReady))), Action::FlushConsumer);
    assert_eq!(
        combinator.resume(Response::ConsumerFlushed(Ok(Async::NotReady))),
        Action::FlushWriter
    );
    assert_eq!(combinator.resume(Response::WriterFlushed(Ok(Async::Ready(())))), Action::Suspend);
    assert_eq!(combinator.stream_closed, Closing::Working);

    let _: Action = combinator.poll();
    let _ = combinator.resume(Response::Disk(Ok(Async::NotReady)));
    let _ = combinator.resume(Response::Upstream(Ok(Async::NotReady)));
    assert_eq!(
        combinator.resume(Response::ConsumerFlushed(Ok(Async::Ready(())))),
        Action::FlushWriter
    );
    assert_eq!(combinator.resume(Response::WriterFlushed(Ok(Async::NotReady))), Action::Suspend);
}

#[test]
fn the_shutdown_runs_in_its_order() {
    let mut combinator = start();
    let _: Action = combinator.poll();
    let _ = combinator.resume(Response::Disk(Ok(Async::NotReady)));
    assert_eq!(combinator.resume(Response::Upstream(Ok(Async::Ready(None)))), Action::CloseWriter);
    assert_eq!(combinator.stream_closed, Closing::ClosingWriter);

    assert_eq!(combinator.resume(Response::WriterClosed(Ok(Async::NotReady))), Action::Suspend);
    assert_eq!(combinator.poll(), Action::CloseWriter);
    assert_eq!(combinator.resume(Response::WriterClosed(Ok(Async::Ready(())))), Action::PollDisk);
    assert_eq!(combinator.stream_closed, Closing::DrainingDisk);

    assert_eq!(
        combinator.resume(Response::Disk(Ok(Async::Ready(Some(item("spilled")))))),
        Action::OfferConsumer(item("spilled"))
    );
    // The detour over the disk is closed: what the consumer refuses is parked.
    assert_eq!(
        combinator.resume(Response::Consumer(Ok(AsyncSink::NotReady(item("spilled"))))),
        Action::Suspend
    );
    assert_eq!(combinator.buffered, Some(item("spilled")));
    assert_eq!(combinator.poll(), Action::OfferConsumer(item("spilled")));
    assert_eq!(combinator.resume(Response::Consumer(Ok(AsyncSink::Ready))), Action::PollDisk);
    assert_eq!(combinator.resume(Response::Disk(Ok(Async::NotReady))), Action::Suspend);
    assert_eq!(combinator.poll(), Action::PollDisk);

    assert_eq!(combinator.resume(Response::Disk(Ok(Async::Ready(None)))), Action::CloseConsumer);
    assert_eq!(combinator.stream_closed, Closing::ClosingConsumer);
    assert!(combinator.disk_exhausted);
    assert_eq!(combinator.resume(Response::ConsumerClosed(Ok(Async::NotReady))), Action::Suspend);
    assert_eq!(combinator.poll(), Action::CloseConsumer);
    assert_eq!(combinator.resume(Response::ConsumerClosed(Ok(Async::Ready(())))), Action::Finish);
    assert_eq!(combinator.stream_closed, Closing::Done);
    assert_eq!(combinator.poll(), Action::Finish);
}

#[test]
fn a_disk_that_has_ended_is_not_polled_again() {
    let mut combinator = start();
    let _: Action = combinator.poll();
    assert_eq!(combinator.resume(Response::Disk(Ok(Async::Ready(None)))), Action::PollUpstream);
    assert!(combinator.disk_exhausted);
    assert_eq!(
        combinator.resume(Response::Upstream(Ok(Async::Ready(Some(item("a")))))),
        Action::OfferConsumer(item("a"))
    );
    assert_eq!(combinator.resume(Response::Consumer(Ok(AsyncSink::Ready))), Action::PollUpstream);
    assert_eq!(combinator.resume(Response::Upstream(Ok(Async::Ready(None)))), Action::CloseWriter);
    // Draining is over before it begins.
    assert_eq!(
        combinator.resume(Response::WriterClosed(Ok(Async::Ready(())))),
        Action::CloseConsumer
    );
    assert_eq!(combinator.stream_closed, Closing::ClosingConsumer);
}

#[test]
fn failures_stop_the_combinator_and_keep_their_kind() {
    let consumer_failed = || SendAllFsErr::Custom { inner: item("consumer") };
    let store_failed = || SendAllFsErr::StoreError { source: store_failure() };

    let mut combinator = start();
    let _: Action = combinator.poll();
    assert_eq!(combinator.resume(Response::Disk(Err(store_failure()))), Action::Fail(store_failed()));
    assert_eq!(combinator.awaiting, Awaiting::Nothing);

    let mut combinator = start();
    let _: Action = combinator.poll();
    let _ = combinator.resume(Response::Disk(Ok(Async::NotReady)));
    assert_eq!(
        combinator.resume(Response::Upstream(Err(item("consumer")))),
        Action::Fail(consumer_failed())
    );

    let mut combinator = start();
    let _: Action = combinator.poll();
    let _ = combinator.resume(Response::Disk(Ok(Async::Ready(Some(item("x"))))));
    assert_eq!(
        combinator.resume(Response::Consumer(Err(item("consumer")))),
        Action::Fail(consumer_failed())
    );

    let mut combinator = start();
    let _: Action = combinator.poll();
    let _ = combinator.resume(Response::Disk(Ok(Async::Ready(Some(item("x"))))));
    let _ = combinator.resume(Response::Consumer(Ok(AsyncSink::NotReady(item("x")))));
    assert_eq!(combinator.resume(Response::Writer(Err(store_failure()))), Action::Fail(store_failed()));

    let mut combinator = start();
    let _: Action = combinator.poll();
    let _ = combinator.resume(Response::Disk(Ok(Async::NotReady)));
    let _ = combinator.resume(Response::Upstream(Ok(Async::NotReady)));
    assert_eq!(
        combinator.resume(Response::ConsumerFlushed(Err(item("consumer")))),
        Action::Fail(consumer_failed())
    );

    let mut combinator = start();
    let _: Action = combinator.poll();
    let _ = combinator.resume(Response::Disk(Ok(Async::NotReady)));
    let _ = combinator.resume(Response::Upstream(Ok(Async::NotReady)));
    let _ = combinator.resume(Response::ConsumerFlushed(Ok(Async::Ready(()))));
    assert_eq!(
        combinator.resume(Response::WriterFlushed(Err(store_failure()))),
        Action::Fail(store_failed())
    );

    let mut combinator = start();
    let _: Action = combinator.poll();
    let _ = combinator.resume(Response::Disk(Ok(Async::Ready(None))));
    let _ = combinator.resume(Response::Upstream(Ok(Async::Ready(None))));
    assert_eq!(
        combinator.resume(Response::WriterClosed(Err(store_failure()))),
        Action::Fail(store_failed())
    );
    assert_eq!(combinator.stream_closed, Closing::ClosingWriter);

    let mut combinator = start();
    let _: Action = combinator.poll();
    let _ = combinator.resume(Response::Disk(Ok(Async::Ready(None))));
    let _ = combinator.resume(Response::Upstream(Ok(Async::Ready(None))));
    let _ = combinator.resume(Response::WriterClosed(Ok(Async::Ready(()))));
    assert_eq!(
        combinator.resume(Response::ConsumerClosed(Err(item("consumer")))),
        Action::Fail(consumer_failed())
    );
    assert_eq!(combinator.stream_closed, Closing::ClosingConsumer);
}

#[test]
fn a_response_that_was_not_asked_for_comes_back_untouched() {
    let mut combinator = start();
    let stray = || Response::Disk(Ok(Async::Ready(Some(item("stray")))));
    assert_eq!(combinator.resume(stray()), Action::Unexpected(stray()));
    assert_eq!(combinator, start());

    let _: Action = combinator.poll();
    let wrong = || Response::Upstream(Ok(Async::Ready(Some(item("wrong")))));
    let waiting = SendAllUnorderedFs {
        buffered: None,
        stream_closed: Closing::Working,
        disk_exhausted: false,
        awaiting: Awaiting::Disk,
    };
    assert_eq!(combinator, waiting);
    assert_eq!(combinator.resume(wrong()), Action::Unexpected(wrong()));
    assert_eq!(combinator, waiting);

    // An occupied buffer takes no response at all, so that no item can push another out.
    let mut parked = SendAllUnorderedFs {
        buffered: Some(item("parked")),
        stream_closed: Closing::Working,
        disk_exhausted: false,
        awaiting: Awaiting::Writer,
    };
    let other = || Response::Writer(Ok(AsyncSink::NotReady(item("other"))));
    assert_eq!(parked.resume(other()), Action::Unexpected(other()));
    assert_eq!(parked.buffered, Some(item("parked")));
}

// From here on: the combinator with a real directory writer and reader.

#[derive(Debug, Clone, PartialEq)]
struct File {
    items: Vec<String>,
    sealed: bool,
    deleted: bool,
}

struct World {
    files: Vec<File>,
    changes: usize,
    sender: DirSender,
    active_queue: Vec<String>,
    outgoing_queue: Vec<String>,
    reciver: DirReciver,
    current: usize,
    consumed: usize,
    upstream: VecDeque<String>,
    willing: usize,
    delivered: Vec<String>,
    consumer_closed: bool,
    combinator: SendAllUnorderedFs<String>,
    most_parked: usize,
}

fn world(cap: usize, upstream: &[&str], willing: usize) -> World {
    let (sender, reciver) = unordered_dir_fs(cap);
    World {
        files: vec![File { items: Vec::new(), sealed: false, deleted: false }],
        changes: 0,
        sender,
        active_queue: Vec::new(),
        outgoing_queue: Vec::new(),
        reciver,
        current: 0,
        consumed: 0,
        upstream: upstream.iter().map(|text| text.to_string()).collect(),
        willing,
        delivered: Vec::new(),
        consumer_closed: false,
        combinator: new_send_all(),
        most_parked: 0,
    }
}

fn close_step(world: &mut World, index: usize, outgoing: bool, step: CloseStep) -> CloseDone {
    world.changes += 1;
    match step {
        CloseStep::Flush => {
            let mut queue = if outgoing {
                std::mem::take(&mut world.outgoing_queue)
            } else {
                std::mem::take(&mut world.active_queue)
            };
            world.files[index].items.append(&mut queue);
            CloseDone::Flushed
        }
        CloseStep::ReadMetadata => CloseDone::Metadata(Permissions { readonly: world.files[index].sealed }),
        CloseStep::SetPermissions(permissions) => {
            world.files[index].sealed = permissions.readonly;
            CloseDone::PermissionsSet
        }
        CloseStep::Release => CloseDone::Released,
    }
}

fn drive_writer(world: &mut World, first: SenderAction<String>) -> SenderAction<String> {
    let mut action = first;
    loop {
        let active = world.files.len() - 1;
        let response = match action {
            SenderAction::Sent(_) | SenderAction::Done(_) => return action,
            SenderAction::Open(index, item) => {
                assert_eq!(index as usize, world.files.len());
                world.files.push(File { items: Vec::new(), sealed: false, deleted: false });
                world.outgoing_queue = std::mem::take(&mut world.active_queue);
                SenderResponse::Opened(Ok(()), item)
            }
            SenderAction::Retire(step, resume) => {
                let done = close_step(world, active - 1, true, step);
                SenderResponse::Retired(Ok(Async::Ready(done)), resume)
            }
            SenderAction::Write(item) => {
                world.active_queue.push(item);
                SenderResponse::Written(Ok(AsyncSink::Ready))
            }
            SenderAction::Flush => {
                let mut queue = std::mem::take(&mut world.active_queue);
                world.files[active].items.append(&mut queue);
                world.changes += 1;
                SenderResponse::Flushed(Ok(Async::Ready(())))
            }
            SenderAction::Seal(step) => {
                let done = close_step(world, active, false, step);
                SenderResponse::Sealed(Ok(Async::Ready(done)))
            }
        };
        action = world.sender.resume(response);
    }
}

fn poll_reader(world: &mut World) -> Result<Async<Option<String>>, Error> {
    let mut action = world.reciver.poll::<String>();
    loop {
        let response = match action {
            ReceiverAction::Yield(outcome) => return outcome,
            ReceiverAction::Decode => {
                let file = &world.files[world.current];
                if world.consumed < file.items.len() {
                    world.consumed += 1;
                    ReceiverResponse::Decoded(Ok(Async::Ready(Some(file.items[world.consumed - 1].clone()))))
                } else {
                    ReceiverResponse::Decoded(Ok(Async::Ready(None)))
                }
            }
            ReceiverAction::ReadMetadata => ReceiverResponse::Metadata(Ok(Async::Ready(Permissions {
                readonly: world.files[world.current].sealed,
            }))),
            ReceiverAction::Remove => {
                world.files[world.current].deleted = true;
                ReceiverResponse::Removed(Ok(Async::Ready(())))
            }
            ReceiverAction::Watch => {
                world.changes = 0;
                ReceiverResponse::Watching(Ok(()))
            }
            ReceiverAction::PollWatcher => {
                if world.changes > 0 {
                    world.changes -= 1;
                    ReceiverResponse::Watched(Ok(Async::Ready(Some(()))))
                } else {
                    ReceiverResponse::Watched(Ok(Async::NotReady))
                }
            }
            ReceiverAction::Open(index) => {
                if index < world.files.len() && !world.files[index].deleted {
                    world.current = index;
                    world.consumed = 0;
                    ReceiverResponse::Opened(Ok(()))
                } else {
                    ReceiverResponse::Opened(Err(Error::Storage {
                        kind: StorageErrorKind::NotFound,
                        message: format!("{}", index),
                    }))
                }
            }
        };
        action = world.reciver.resume(response);
    }
}

fn poll(world: &mut World) -> SendAllAction<String, String> {
    let mut action = world.combinator.poll::<String>();
    loop {
        let response = match action {
            SendAllAction::PollDisk => SendAllResponse::Disk(poll_reader(world)),
            SendAllAction::PollUpstream => {
                SendAllResponse::Upstream(Ok(Async::Ready(world.upstream.pop_front())))
            }
            SendAllAction::OfferConsumer(item) => {
                if world.willing > 0 {
                    world.willing -= 1;
                    world.delivered.push(item);
                    SendAllResponse::Consumer(Ok(AsyncSink::Ready))
                } else {
                    SendAllResponse::Consumer(Ok(AsyncSink::NotReady(item)))
                }
            }
            SendAllAction::OfferWriter(item) => {
                let first = world.sender.start_send(item);
                match drive_writer(world, first) {
                    SenderAction::Sent(outcome) => SendAllResponse::Writer(outcome),
                    _ => unreachable!(),
                }
            }
            SendAllAction::FlushConsumer => SendAllResponse::ConsumerFlushed(Ok(Async::Ready(()))),
            SendAllAction::FlushWriter => {
                let first = world.sender.poll_complete::<String>();
                match drive_writer(world, first) {
                    SenderAction::Done(outcome) => SendAllResponse::WriterFlushed(outcome),
                    _ => unreachable!(),
                }
            }
            SendAllAction::CloseWriter => {
                let first = world.sender.close::<String>();
                match drive_writer(world, first) {
                    SenderAction::Done(outcome) => SendAllResponse::WriterClosed(outcome),
                    _ => unreachable!(),
                }
            }
            SendAllAction::CloseConsumer => {
                world.consumer_closed = true;
                SendAllResponse::ConsumerClosed(Ok(Async::Ready(())))
            }
            done => {
                let parked = world.combinator.buffered.iter().count();
                world.most_parked = world.most_parked.max(parked);
                return done;
            }
        };
        action = world.combinator.resume(response);
    }
}

fn on_disk(world: &World) -> Vec<String> {
    world.files.iter().flat_map(|file| file.items.iter().cloned()).collect()
}

fn sorted(mut items: Vec<String>) -> Vec<String> {
    items.sort();
    items
}

#[test]
fn a_willing_consumer_gets_everything_directly() {
    let mut world = world(2, &["A", "B", "C", "D", "E"], usize::MAX);
    assert_eq!(poll(&mut world), SendAllAction::Finish);
    assert_eq!(world.delivered, vec![item("A"), item("B"), item("C"), item("D"), item("E")]);
    assert!(world.consumer_closed);
    assert_eq!(on_disk(&world), Vec::<String>::new());
    assert_eq!(world.files.len(), 1);
    assert!(world.files[0].sealed);
    assert!(world.files[0].deleted);
    assert_eq!(world.combinator.stream_closed, Closing::Done);
    assert_eq!(world.most_parked, 0);
}

#[test]
fn a_consumer_that_is_never_ready_has_everything_spilled() {
    let upstream = ["A", "B", "C", "D", "E"];
    let mut world = world(100, &upstream, 0);
    assert_eq!(poll(&mut world), SendAllAction::Suspend);
    assert_eq!(poll(&mut world), SendAllAction::Suspend);

    assert_eq!(world.delivered, Vec::<String>::new());
    assert!(world.upstream.is_empty());
    // Every item of the upstream is in a segment file, in the order of its arrival.
    assert_eq!(on_disk(&world), vec![item("A"), item("B"), item("C"), item("D"), item("E")]);
    assert!(world.files.iter().all(|file| file.sealed));
    // The writer is closed, the disk is being drained, and one item waits for the consumer.
    assert_eq!(world.combinator.stream_closed, Closing::DrainingDisk);
    assert_eq!(world.combinator.buffered, Some(item("A")));
    assert_eq!(world.most_parked, 1);
    assert!(!world.consumer_closed);
    assert!(!world.files[0].deleted);
}

#[test]
fn spilled_items_are_replayed_when_the_consumer_recovers() {
    let mut world = world(100, &["A", "B", "C", "D", "E"], 0);
    assert_eq!(poll(&mut world), SendAllAction::Suspend);
    world.willing = usize::MAX;
    assert_eq!(poll(&mut world), SendAllAction::Finish);
    assert_eq!(world.delivered, vec![item("A"), item("B"), item("C"), item("D"), item("E")]);
    assert!(world.consumer_closed);
    assert!(world.files.iter().all(|file| file.deleted));
    assert_eq!(world.combinator.buffered, None);
}

#[test]
fn a_fresh_item_may_overtake_spilled_ones_but_none_is_lost() {
    // The consumer takes nothing at first, so that A and B go to disk.
    let mut world = world(100, &[], 0);
    world.upstream.push_back(item("A"));
    world.upstream.push_back(item("B"));
    let mut action = world.combinator.poll::<String>();
    for _ in 0..2 {
        assert_eq!(action, SendAllAction::PollDisk);
        action = world.combinator.resume(Response::Disk(Ok(Async::NotReady)));
        assert_eq!(action, SendAllAction::PollUpstream);
        let next = world.upstream.pop_front();
        action = world.combinator.resume(Response::Upstream(Ok(Async::Ready(next))));
        let offered = match action {
            SendAllAction::OfferConsumer(offered) => offered,
            _ => unreachable!(),
        };
        action = world.combinator.resume(Response::Consumer(Ok(AsyncSink::NotReady(offered))));
        let spilled = match action {
            SendAllAction::OfferWriter(spilled) => spilled,
            _ => unreachable!(),
        };
        let first = world.sender.start_send(spilled);
        assert_eq!(drive_writer(&mut world, first), SenderAction::Sent(Ok(AsyncSink::Ready)));
        action = world.combinator.resume(Response::Writer(Ok(AsyncSink::Ready)));
    }
    // The disk has nothing readable yet; C arrives and the consumer has recovered.
    assert_eq!(action, SendAllAction::PollDisk);
    world.upstream.push_back(item("C"));
    world.willing = usize::MAX;
    let _ = world.combinator.resume(Response::Disk(Ok(Async::NotReady)));
    let next = world.upstream.pop_front();
    let offer = world.combinator.resume(Response::Upstream(Ok(Async::Ready(next))));
    assert_eq!(offer, SendAllAction::OfferConsumer(item("C")));
    world.delivered.push(item("C"));
    let _ = world.combinator.resume(Response::Consumer(Ok(AsyncSink::Ready)));
    let _ = world.combinator.resume(Response::Disk(Ok(Async::NotReady)));
    let _ = world.combinator.resume(Response::Upstream(Ok(Async::Ready(None))));

    assert_eq!(poll(&mut world), SendAllAction::Finish);
    assert_eq!(world.delivered, vec![item("C"), item("A"), item("B")]);
    assert_eq!(sorted(world.delivered.clone()), vec![item("A"), item("B"), item("C")]);
}

#[test]
fn a_consumer_that_tires_gets_the_rest_from_disk_later() {
    let mut world = world(100, &["1", "2", "3", "4"], 1);
    assert_eq!(poll(&mut world), SendAllAction::Suspend);
    assert_eq!(world.delivered, vec![item("1")]);
    assert_eq!(on_disk(&world), vec![item("2"), item("3"), item("4")]);
    assert_eq!(world.combinator.buffered, Some(item("2")));

    world.willing = 1;
    assert_eq!(poll(&mut world), SendAllAction::Suspend);
    assert_eq!(world.delivered, vec![item("1"), item("2")]);
    assert_eq!(world.combinator.buffered, Some(item("3")));

    world.willing = usize::MAX;
    assert_eq!(poll(&mut world), SendAllAction::Finish);
    assert_eq!(world.delivered, vec![item("1"), item("2"), item("3"), item("4")]);
    assert_eq!(world.most_parked, 1);
    assert!(world.files.iter().all(|file| file.deleted));
}
