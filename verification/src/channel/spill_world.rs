//! The spillover combinator together with its collaborators.
//!
//! The world pairs the [`SendAllUnorderedFs`] machine with a ledger of where
//! items came from and where they went. A source that is polled may hand over
//! an item, report its end, or have nothing at the moment; whoever is offered
//! an item takes it or hands the same item back; a flush or a close completes
//! or does not. Every request can also fail, and an item that was with a
//! collaborator when it failed is lost with it.
//!
//! A run of the world is a sequence of [`SpillEvent`]s. The laws at the end
//! hold for every run.
use crate::channel::error::Error;
use crate::channel::poll::{Async, AsyncSink};
use crate::channel::send_all::{Awaiting, SendAllAction, SendAllResponse, SendAllUnorderedFs};
use vstd::multiset::Multiset;
use vstd::prelude::*;

verus! {

/// One thing that happens in the world of the combinator.
pub enum SpillEvent<T, E> {
    /// The caller polls the combinator.
    Poll,
    /// The source that is being polled hands over this item.
    Item(T),
    /// The source that is being polled has ended.
    End,
    /// The item that is being offered is taken, or the flush or close that is
    /// being driven completes.
    Accept,
    /// The outstanding request reports that it has not finished; an item that
    /// was offered comes back.
    NotReady,
    /// The directory reader or writer fails.
    FailStore(Error),
    /// The consumer or the upstream fails.
    FailOther(E),
}

/// The combinator and the ledger of its items.
#[verifier::ext_equal]
pub struct SpillWorld<T, E> {
    /// The machine.
    pub combinator: SendAllUnorderedFs<T>,
    /// The request that the machine has made and that has not come back.
    pub request: Option<SendAllAction<T, E>>,
    /// The items that the upstream handed over, oldest first.
    pub from_upstream: Seq<T>,
    /// The items that the directory reader handed over, oldest first.
    pub from_disk: Seq<T>,
    /// The items that the consumer took, oldest first.
    pub delivered: Seq<T>,
    /// The items that the directory writer took, oldest first.
    pub spilled: Seq<T>,
    /// The items that were on offer when the one they were offered to failed.
    pub lost: Seq<T>,
    /// Whether the combinator has finished.
    pub finished: bool,
    /// Whether the last poll ended with the combinator giving up its turn.
    pub suspended: bool,
    /// Whether a collaborator has reported, since the last poll began, that
    /// it is not ready. One that has will wake the combinator.
    pub not_ready_seen: bool,
}

/// The multiset of what an optional item holds.
pub open spec fn holding<T>(item: Option<T>) -> Multiset<T> {
    match item {
        Some(item) => Multiset::singleton(item),
        None => Multiset::empty(),
    }
}

/// The item that travels with a request.
pub open spec fn on_offer<T, E>(request: Option<SendAllAction<T, E>>) -> Option<T> {
    match request {
        Some(SendAllAction::OfferConsumer(item)) => Some(item),
        Some(SendAllAction::OfferWriter(item)) => Some(item),
        _ => None,
    }
}

/// What the machine waits for after it has handed out `action`.
pub open spec fn awaited<T, E>(action: SendAllAction<T, E>) -> Awaiting {
    match action {
        SendAllAction::PollDisk => Awaiting::Disk,
        SendAllAction::PollUpstream => Awaiting::Upstream,
        SendAllAction::OfferConsumer(_) => Awaiting::Consumer,
        SendAllAction::OfferWriter(_) => Awaiting::Writer,
        SendAllAction::FlushConsumer => Awaiting::ConsumerFlush,
        SendAllAction::FlushWriter => Awaiting::WriterFlush,
        SendAllAction::CloseWriter => Awaiting::WriterClose,
        SendAllAction::CloseConsumer => Awaiting::ConsumerClose,
        _ => Awaiting::Nothing,
    }
}

impl<T, E> SpillWorld<T, E> {
    /// The world of a combinator that was just made.
    pub open spec fn start() -> SpillWorld<T, E> {
        SpillWorld {
            combinator: SendAllUnorderedFs::spec_new(),
            request: None,
            from_upstream: Seq::empty(),
            from_disk: Seq::empty(),
            delivered: Seq::empty(),
            spilled: Seq::empty(),
            lost: Seq::empty(),
            finished: false,
            suspended: false,
            not_ready_seen: false,
        }
    }

    /// The items that are in the combinator's hands: the one in the pending
    /// buffer and the one on offer. There is never more than one.
    pub open spec fn held(self) -> Multiset<T> {
        holding(self.combinator.buffered).add(holding(on_offer(self.request)))
    }

    /// All items that came in.
    pub open spec fn taken_in(self) -> Multiset<T> {
        self.from_upstream.to_multiset().add(self.from_disk.to_multiset())
    }

    /// All items that went out.
    pub open spec fn passed_on(self) -> Multiset<T> {
        self.delivered.to_multiset().add(self.spilled.to_multiset()).add(self.lost.to_multiset())
    }

    /// The ledger after `request` came out as `event` says, and the response
    /// that the machine gets. The machine itself is untouched here. `None`
    /// where the event is no outcome of the request.
    pub open spec fn perform(self, request: SendAllAction<T, E>, event: SpillEvent<T, E>) -> Option<
        (SpillWorld<T, E>, SendAllResponse<T, E>),
    > {
        match request {
            SendAllAction::PollDisk => match event {
                SpillEvent::Item(item) => Some(
                    (
                        SpillWorld { from_disk: self.from_disk.push(item), ..self },
                        SendAllResponse::Disk(Ok(Async::Ready(Some(item)))),
                    ),
                ),
                SpillEvent::End => Some((self, SendAllResponse::Disk(Ok(Async::Ready(None))))),
                SpillEvent::NotReady => Some((self, SendAllResponse::Disk(Ok(Async::NotReady)))),
                SpillEvent::FailStore(error) => Some((self, SendAllResponse::Disk(Err(error)))),
                _ => None,
            },
            SendAllAction::PollUpstream => match event {
                SpillEvent::Item(item) => Some(
                    (
                        SpillWorld { from_upstream: self.from_upstream.push(item), ..self },
                        SendAllResponse::Upstream(Ok(Async::Ready(Some(item)))),
                    ),
                ),
                SpillEvent::End => Some((self, SendAllResponse::Upstream(Ok(Async::Ready(None))))),
                SpillEvent::NotReady => Some((self, SendAllResponse::Upstream(Ok(Async::NotReady)))),
                SpillEvent::FailOther(error) => Some((self, SendAllResponse::Upstream(Err(error)))),
                _ => None,
            },
            SendAllAction::OfferConsumer(item) => match event {
                SpillEvent::Accept => Some(
                    (
                        SpillWorld { delivered: self.delivered.push(item), ..self },
                        SendAllResponse::Consumer(Ok(AsyncSink::Ready)),
                    ),
                ),
                SpillEvent::NotReady => Some(
                    (self, SendAllResponse::Consumer(Ok(AsyncSink::NotReady(item)))),
                ),
                SpillEvent::FailOther(error) => Some(
                    (
                        SpillWorld { lost: self.lost.push(item), ..self },
                        SendAllResponse::Consumer(Err(error)),
                    ),
                ),
                _ => None,
            },
            SendAllAction::OfferWriter(item) => match event {
                SpillEvent::Accept => Some(
                    (
                        SpillWorld { spilled: self.spilled.push(item), ..self },
                        SendAllResponse::Writer(Ok(AsyncSink::Ready)),
                    ),
                ),
                SpillEvent::NotReady => Some(
                    (self, SendAllResponse::Writer(Ok(AsyncSink::NotReady(item)))),
                ),
                SpillEvent::FailStore(error) => Some(
                    (
                        SpillWorld { lost: self.lost.push(item), ..self },
                        SendAllResponse::Writer(Err(error)),
                    ),
                ),
                _ => None,
            },
            SendAllAction::FlushConsumer => match event {
                SpillEvent::Accept => Some(
                    (self, SendAllResponse::ConsumerFlushed(Ok(Async::Ready(())))),
                ),
                SpillEvent::NotReady => Some(
                    (self, SendAllResponse::ConsumerFlushed(Ok(Async::NotReady))),
                ),
                SpillEvent::FailOther(error) => Some(
                    (self, SendAllResponse::ConsumerFlushed(Err(error))),
                ),
                _ => None,
            },
            SendAllAction::FlushWriter => match event {
                SpillEvent::Accept => Some((self, SendAllResponse::WriterFlushed(Ok(Async::Ready(()))))),
                SpillEvent::NotReady => Some(
                    (self, SendAllResponse::WriterFlushed(Ok(Async::NotReady))),
                ),
                SpillEvent::FailStore(error) => Some(
                    (self, SendAllResponse::WriterFlushed(Err(error))),
                ),
                _ => None,
            },
            SendAllAction::CloseWriter => match event {
                SpillEvent::Accept => Some((self, SendAllResponse::WriterClosed(Ok(Async::Ready(()))))),
                SpillEvent::NotReady => Some((self, SendAllResponse::WriterClosed(Ok(Async::NotReady)))),
                SpillEvent::FailStore(error) => Some((self, SendAllResponse::WriterClosed(Err(error)))),
                _ => None,
            },
            SendAllAction::CloseConsumer => match event {
                SpillEvent::Accept => Some(
                    (self, SendAllResponse::ConsumerClosed(Ok(Async::Ready(())))),
                ),
                SpillEvent::NotReady => Some(
                    (self, SendAllResponse::ConsumerClosed(Ok(Async::NotReady))),
                ),
                SpillEvent::FailOther(error) => Some(
                    (self, SendAllResponse::ConsumerClosed(Err(error))),
                ),
                _ => None,
            },
            _ => None,
        }
    }

    /// The world after the machine moved to `next.0` and handed out `next.1`:
    /// a request becomes the outstanding one, anything else ends the poll.
    pub open spec fn proceed(self, next: (SendAllUnorderedFs<T>, SendAllAction<T, E>)) -> SpillWorld<
        T,
        E,
    > {
        SpillWorld {
            combinator: next.0,
            request: if awaited(next.1) is Nothing {
                None
            } else {
                Some(next.1)
            },
            finished: self.finished || next.1 is Finish,
            suspended: next.1 is Suspend,
            ..self
        }
    }

    /// The world after one event. A poll counts only while no request is
    /// outstanding, an outcome only while one is; anything else changes nothing.
    pub open spec fn step(self, event: SpillEvent<T, E>) -> SpillWorld<T, E> {
        match self.request {
            None => match event {
                SpillEvent::Poll => (SpillWorld { not_ready_seen: false, ..self }).proceed(
                    self.combinator.spec_poll(),
                ),
                _ => self,
            },
            Some(request) => match self.perform(request, event) {
                Some((world, response)) => (SpillWorld {
                    not_ready_seen: self.not_ready_seen || event is NotReady,
                    ..world
                }).proceed(world.combinator.spec_resume(response)),
                None => self,
            },
        }
    }

    /// The world of a fresh combinator after `events`.
    pub open spec fn after(events: Seq<SpillEvent<T, E>>) -> SpillWorld<T, E>
        decreases events.len(),
    {
        if events.len() == 0 {
            Self::start()
        } else {
            Self::after(events.drop_last()).step(events.last())
        }
    }

    /// What holds in every world that a run reaches.
    pub open spec fn inv(self) -> bool {
        &&& self.combinator.wf()
        &&& match self.request {
            Some(request) => self.combinator.awaiting == awaited(request) && !(awaited(request)
                is Nothing),
            None => self.combinator.awaiting is Nothing,
        }
        &&& self.taken_in() == self.passed_on().add(self.held())
        &&& self.finished ==> self.combinator.stream_closed is Done
        &&& self.suspended ==> self.not_ready_seen
        &&& self.request matches Some(SendAllAction::FlushConsumer) ==> self.not_ready_seen
        &&& self.request matches Some(SendAllAction::FlushWriter) ==> self.not_ready_seen
    }
}

/// The start satisfies the invariant.
proof fn lemma_start_inv<T, E>()
    ensures
        SpillWorld::<T, E>::start().inv(),
{
    broadcast use vstd::multiset::group_multiset_axioms;

    let world = SpillWorld::<T, E>::start();
    assert(Seq::<T>::empty().to_multiset() =~= Multiset::<T>::empty()) by {
        Seq::<T>::empty().to_multiset_ensures();
    }
    assert(world.taken_in() =~= world.passed_on().add(world.held()));
}

/// A poll keeps the invariant.
proof fn lemma_poll_keeps_inv<T, E>(world: SpillWorld<T, E>)
    requires
        world.inv(),
        world.request is None,
    ensures
        world.step(SpillEvent::Poll).inv(),
{
    broadcast use vstd::multiset::group_multiset_axioms;

    let next = world.step(SpillEvent::Poll);
    assert(next.held() =~= world.held());
}

/// An outcome of the outstanding request keeps everything in the invariant
/// but the ledger's balance.
proof fn lemma_outcome_keeps_order<T, E>(
    world: SpillWorld<T, E>,
    request: SendAllAction<T, E>,
    event: SpillEvent<T, E>,
)
    requires
        world.inv(),
        world.request == Some(request),
    ensures
        world.step(event).taken_in() == world.step(event).passed_on().add(world.step(event).held())
            ==> world.step(event).inv(),
{
}

/// An outcome of the outstanding request keeps the ledger balanced.
proof fn lemma_outcome_keeps_balance<T, E>(
    world: SpillWorld<T, E>,
    request: SendAllAction<T, E>,
    event: SpillEvent<T, E>,
)
    requires
        world.inv(),
        world.request == Some(request),
    ensures
        world.step(event).taken_in() == world.step(event).passed_on().add(world.step(event).held()),
{
    broadcast use vstd::multiset::group_multiset_axioms;
    broadcast use vstd::seq_lib::to_multiset_build;

    let next = world.step(event);
    let nothing = Multiset::<T>::empty();
    assert(world.held() =~= holding(on_offer(world.request)));
    if world.perform(request, event) is Some {
        match request {
            SendAllAction::PollDisk => {
                assert(world.taken_in() =~= world.passed_on());
                if let SpillEvent::Item(item) = event {
                    assert(next.held() =~= Multiset::singleton(item));
                    assert(next.taken_in() =~= world.taken_in().insert(item));
                } else {
                    assert(next.held() =~= nothing);
                }
            },
            SendAllAction::PollUpstream => {
                assert(world.taken_in() =~= world.passed_on());
                if let SpillEvent::Item(item) = event {
                    assert(next.held() =~= Multiset::singleton(item));
                    assert(next.taken_in() =~= world.taken_in().insert(item));
                } else {
                    assert(next.held() =~= nothing);
                }
            },
            SendAllAction::OfferConsumer(item) => {
                assert(world.held() =~= Multiset::singleton(item));
                if event is NotReady {
                    assert(next.held() =~= Multiset::singleton(item));
                } else {
                    assert(next.held() =~= nothing);
                    assert(next.passed_on() =~= world.passed_on().insert(item));
                }
            },
            SendAllAction::OfferWriter(item) => {
                assert(world.held() =~= Multiset::singleton(item));
                if event is NotReady {
                    assert(next.held() =~= Multiset::singleton(item));
                } else {
                    assert(next.held() =~= nothing);
                    assert(next.passed_on() =~= world.passed_on().insert(item));
                }
            },
            _ => {
                assert(world.held() =~= nothing);
                assert(next.held() =~= nothing);
            },
        }
        assert(next.taken_in() =~= next.passed_on().add(next.held()));
    }
}

/// An outcome of the outstanding request keeps the invariant.
proof fn lemma_outcome_keeps_inv<T, E>(
    world: SpillWorld<T, E>,
    request: SendAllAction<T, E>,
    event: SpillEvent<T, E>,
)
    requires
        world.inv(),
        world.request == Some(request),
    ensures
        world.step(event).inv(),
{
    lemma_outcome_keeps_order(world, request, event);
    lemma_outcome_keeps_balance(world, request, event);
}

/// Every event keeps the invariant.
pub proof fn lemma_step_keeps_inv<T, E>(world: SpillWorld<T, E>, event: SpillEvent<T, E>)
    requires
        world.inv(),
    ensures
        world.step(event).inv(),
{
    match world.request {
        None => match event {
            SpillEvent::Poll => lemma_poll_keeps_inv(world),
            _ => {},
        },
        Some(request) => lemma_outcome_keeps_inv(world, request, event),
    }
}

/// Every run of a fresh combinator ends in a world that satisfies the invariant.
pub proof fn lemma_run_inv<T, E>(events: Seq<SpillEvent<T, E>>)
    ensures
        SpillWorld::after(events).inv(),
    decreases events.len(),
{
    if events.len() == 0 {
        lemma_start_inv::<T, E>();
    } else {
        lemma_run_inv(events.drop_last());
        lemma_step_keeps_inv(SpillWorld::after(events.drop_last()), events.last());
    }
}

/// Whether no collaborator fails in `events`.
pub open spec fn unfailing<T, E>(events: Seq<SpillEvent<T, E>>) -> bool {
    forall|i: int|
        0 <= i < events.len() ==> !((#[trigger] events[i]) is FailStore) && !(events[i]
            is FailOther)
}

/// Without a failure nothing is lost.
proof fn lemma_unfailing_run_loses_nothing<T, E>(events: Seq<SpillEvent<T, E>>)
    requires
        unfailing(events),
    ensures
        SpillWorld::after(events).lost.len() == 0,
    decreases events.len(),
{
    if events.len() > 0 {
        let front = events.drop_last();
        assert forall|i: int| 0 <= i < front.len() implies !((#[trigger] front[i]) is FailStore)
            && !(front[i] is FailOther) by {
            assert(front[i] == events[i]);
        }
        assert(events.last() == events[events.len() - 1]);
        lemma_unfailing_run_loses_nothing(front);
    }
}

/// Nothing disappears and nothing is made up: at every moment, the items
/// that the upstream and the directory reader have handed over are the items
/// that the consumer took, those that the directory writer took, those that
/// were on offer when a collaborator failed, and the at most one item that is
/// in the combinator's hands, in the pending buffer or on offer.
pub proof fn law_items_are_conserved<T, E>(events: Seq<SpillEvent<T, E>>)
    ensures
        ({
            let world = SpillWorld::after(events);
            &&& world.taken_in() == world.passed_on().add(world.held())
            &&& world.held().len() <= 1
            &&& unfailing(events) ==> world.lost.len() == 0
        }),
{
    broadcast use vstd::multiset::group_multiset_axioms;

    let world = SpillWorld::after(events);
    lemma_run_inv(events);
    if unfailing(events) {
        lemma_unfailing_run_loses_nothing(events);
    }
}

/// The pending buffer is resolved before anything else is done: while it is
/// occupied no request is outstanding, so nothing is being pulled from a
/// source, and the next poll offers the parked item to the consumer.
pub proof fn law_pending_buffer_goes_first<T, E>(events: Seq<SpillEvent<T, E>>)
    ensures
        ({
            let world = SpillWorld::after(events);
            world.combinator.buffered matches Some(item) ==> {
                &&& world.request is None
                &&& world.step(SpillEvent::Poll).request == Some(
                    SendAllAction::<T, E>::OfferConsumer(item),
                )
                &&& world.step(SpillEvent::Poll).combinator.buffered is None
            }
        }),
{
    lemma_run_inv(events);
}

/// Backpressure: as long as the consumer has taken nothing and no collaborator
/// has failed, every item that came in, from the upstream or back from the
/// disk, has gone to the directory writer, but for the at most one item that
/// is in the combinator's hands.
pub proof fn law_backpressure_spills_everything<T, E>(events: Seq<SpillEvent<T, E>>)
    requires
        unfailing(events),
        SpillWorld::after(events).delivered.len() == 0,
    ensures
        ({
            let world = SpillWorld::after(events);
            &&& world.taken_in() == world.spilled.to_multiset().add(world.held())
            &&& world.held().len() <= 1
            &&& world.taken_in().len() <= world.spilled.len() + 1
        }),
{
    broadcast use vstd::multiset::group_multiset_axioms;

    let world = SpillWorld::after(events);
    law_items_are_conserved(events);
    world.delivered.to_multiset_ensures();
    world.lost.to_multiset_ensures();
    world.spilled.to_multiset_ensures();
    assert(world.delivered.to_multiset() =~= Multiset::empty());
    assert(world.lost.to_multiset() =~= Multiset::empty());
    assert(world.passed_on() =~= world.spilled.to_multiset());
}

/// The shutdown keeps its order. The phase never goes back. The upstream is
/// polled, the writer is offered items and both are flushed only while
/// working, and working ends only with the upstream; the writer is closed
/// only in the phase after that, which ends only when the close has
/// completed; the disk is then drained, and is not polled once it has
/// reported its end; the consumer is closed only after that, and the
/// combinator finishes only when that close has completed. Once the
/// combinator has finished, it holds no item. And after the upstream has
/// ended, nothing more is taken from it and nothing more is spilled.
pub proof fn law_shutdown_is_ordered<T, E>(events: Seq<SpillEvent<T, E>>, event: SpillEvent<T, E>)
    ensures
        ({
            let world = SpillWorld::after(events);
            let next = world.step(event);
            &&& world.combinator.stream_closed.rank() <= next.combinator.stream_closed.rank()
            &&& next.request matches Some(SendAllAction::PollUpstream)
                ==> next.combinator.stream_closed is Working
            &&& next.request matches Some(SendAllAction::OfferWriter(_))
                ==> next.combinator.stream_closed is Working
            &&& next.request matches Some(SendAllAction::FlushConsumer)
                ==> next.combinator.stream_closed is Working
            &&& next.request matches Some(SendAllAction::FlushWriter)
                ==> next.combinator.stream_closed is Working
            &&& next.request matches Some(SendAllAction::PollDisk)
                ==> !next.combinator.disk_exhausted
            &&& next.request matches Some(SendAllAction::CloseWriter)
                ==> next.combinator.stream_closed is ClosingWriter
            &&& next.request matches Some(SendAllAction::CloseConsumer)
                ==> next.combinator.stream_closed is ClosingConsumer
            &&& world.combinator.stream_closed is Working && !(next.combinator.stream_closed
                is Working) ==> world.request == Some(SendAllAction::<T, E>::PollUpstream) && event
                is End
            &&& world.combinator.stream_closed is ClosingWriter && !(next.combinator.stream_closed
                is ClosingWriter) ==> world.request == Some(SendAllAction::<T, E>::CloseWriter)
                && event is Accept
            &&& next.combinator.stream_closed.rank() >= 3 ==> next.combinator.disk_exhausted
            &&& !(world.combinator.stream_closed is Done) && next.combinator.stream_closed is Done
                ==> world.request == Some(SendAllAction::<T, E>::CloseConsumer) && event is Accept
            &&& next.finished ==> next.combinator.stream_closed is Done && next.held().len() == 0
            &&& !(world.combinator.stream_closed is Working) ==> next.from_upstream
                == world.from_upstream && next.spilled == world.spilled
        }),
{
    broadcast use vstd::multiset::group_multiset_axioms;

    let world = SpillWorld::after(events);
    lemma_run_inv(events);
    lemma_step_keeps_inv(world, event);
}


/// The combinator gives up its turn only when someone will wake it: whenever
/// a poll ends with `Suspend`, a collaborator has reported during that poll
/// that it is not ready. The combinator never suspends on its own account.
pub proof fn law_combinator_suspends_only_to_be_woken<T, E>(events: Seq<SpillEvent<T, E>>)
    ensures
        SpillWorld::after(events).suspended ==> SpillWorld::after(events).not_ready_seen,
{
    lemma_run_inv(events);
}

} // verus!
