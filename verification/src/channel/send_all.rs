//! The spillover combinator: consumer first, disk on backpressure.
//!
//! The combinator moves items from two sources, the directory reader and the
//! upstream, to a consumer. An item that the consumer cannot take is offered to
//! the directory writer instead, and an item that neither takes is parked in a
//! buffer of one. While that buffer is occupied nothing is pulled from any
//! source. The backlog on disk is preferred over fresh items.
//!
//! Items that go to the consumer directly and items that took the detour over
//! the disk are not ordered against each other: a fresh item can overtake
//! spilled ones. Nor does the combinator remember where an item came from:
//! while the upstream is open, an item that was read back from the disk and
//! that the consumer still cannot take is spilled again, behind the others.
//!
//! When the upstream ends, the combinator shuts down in a fixed order: it
//! closes the directory writer, drains the directory reader into the consumer,
//! closes the consumer, and finishes.
//!
//! The machine touches neither consumer nor disk. It hands out a
//! [`SendAllAction`]; the caller performs it and reports back through
//! [`SendAllUnorderedFs::resume`].
use crate::channel::error::{Error, SendAllFsErr};
use crate::channel::poll::{Async, AsyncSink};
use vstd::prelude::*;

verus! {

/// The phases of the combinator, in the order in which it passes through them.
#[derive(Debug, Clone, Copy, PartialEq, Eq, Structural)]
pub enum Closing {
    /// The upstream has not ended: items are routed.
    Working,
    /// The upstream has ended: the directory writer is being closed.
    ClosingWriter,
    /// The directory reader is being drained into the consumer.
    DrainingDisk,
    /// The consumer is being closed.
    ClosingConsumer,
    /// Everything is delivered and closed.
    Done,
}

/// The request whose outcome the combinator waits for.
#[derive(Debug, Clone, Copy, PartialEq, Eq, Structural)]
pub enum Awaiting {
    /// No request is outstanding.
    Nothing,
    /// `PollDisk`.
    Disk,
    /// `PollUpstream`.
    Upstream,
    /// `OfferConsumer`.
    Consumer,
    /// `OfferWriter`.
    Writer,
    /// `FlushConsumer`.
    ConsumerFlush,
    /// `FlushWriter`.
    WriterFlush,
    /// `CloseWriter`.
    WriterClose,
    /// `CloseConsumer`.
    ConsumerClose,
}

/// The outcome of a request of the combinator.
#[derive(Debug, PartialEq, Eq)]
pub enum SendAllResponse<T, E> {
    /// Answers `PollDisk`.
    Disk(Result<Async<Option<T>>, Error>),
    /// Answers `PollUpstream`. A failure of the upstream comes as the
    /// consumer's kind of error.
    Upstream(Result<Async<Option<T>>, E>),
    /// Answers `OfferConsumer`.
    Consumer(Result<AsyncSink<T>, E>),
    /// Answers `OfferWriter`.
    Writer(Result<AsyncSink<T>, Error>),
    /// Answers `FlushConsumer`.
    ConsumerFlushed(Result<Async<()>, E>),
    /// Answers `FlushWriter`.
    WriterFlushed(Result<Async<()>, Error>),
    /// Answers `CloseWriter`.
    WriterClosed(Result<Async<()>, Error>),
    /// Answers `CloseConsumer`.
    ConsumerClosed(Result<Async<()>, E>),
}

/// What the caller of the combinator has to do next.
///
/// The first eight are requests: perform them and report the outcome with
/// `resume`. The others end the call of `poll`.
#[derive(Debug, PartialEq, Eq)]
pub enum SendAllAction<T, E> {
    /// Poll the directory reader for an item.
    PollDisk,
    /// Poll the upstream for an item.
    PollUpstream,
    /// Offer the item to the consumer.
    OfferConsumer(T),
    /// Offer the item to the directory writer.
    OfferWriter(T),
    /// Drive the consumer's buffered items out.
    FlushConsumer,
    /// Drive the directory writer's buffered items out.
    FlushWriter,
    /// Close the directory writer.
    CloseWriter,
    /// Close the consumer.
    CloseConsumer,
    /// Nothing can be done now: give up the turn and poll again when woken.
    Suspend,
    /// The consumer has everything and is closed: hand it back with the upstream.
    Finish,
    /// A collaborator failed; the combinator stops.
    Fail(SendAllFsErr<E>),
    /// The response answers no outstanding request. It comes back untouched
    /// and the state is unchanged.
    Unexpected(SendAllResponse<T, E>),
}

/// The state of the combinator.
#[derive(Debug, PartialEq, Eq)]
pub struct SendAllUnorderedFs<T> {
    /// The pending buffer: an item that neither the consumer nor the
    /// directory writer could take.
    pub buffered: Option<T>,
    /// The phase.
    pub stream_closed: Closing,
    /// Whether the directory reader has reported its end. It is not polled again.
    pub disk_exhausted: bool,
    /// The outstanding request.
    pub awaiting: Awaiting,
}

/// The combinator at its start: working, nothing parked, nothing outstanding.
pub fn new_send_all<T>() -> (combinator: SendAllUnorderedFs<T>)
    ensures
        combinator == SendAllUnorderedFs::<T>::spec_new(),
        combinator.wf(),
{
    SendAllUnorderedFs {
        buffered: None,
        stream_closed: Closing::Working,
        disk_exhausted: false,
        awaiting: Awaiting::Nothing,
    }
}

impl Closing {
    /// The place of the phase in the shutdown order.
    pub open spec fn rank(self) -> nat {
        match self {
            Closing::Working => 0,
            Closing::ClosingWriter => 1,
            Closing::DrainingDisk => 2,
            Closing::ClosingConsumer => 3,
            Closing::Done => 4,
        }
    }
}

impl Awaiting {
    /// Whether `response` is the outcome of the outstanding request.
    pub open spec fn answered_by<T, E>(self, response: SendAllResponse<T, E>) -> bool {
        match (self, response) {
            (Awaiting::Disk, SendAllResponse::Disk(_)) => true,
            (Awaiting::Upstream, SendAllResponse::Upstream(_)) => true,
            (Awaiting::Consumer, SendAllResponse::Consumer(_)) => true,
            (Awaiting::Writer, SendAllResponse::Writer(_)) => true,
            (Awaiting::ConsumerFlush, SendAllResponse::ConsumerFlushed(_)) => true,
            (Awaiting::WriterFlush, SendAllResponse::WriterFlushed(_)) => true,
            (Awaiting::WriterClose, SendAllResponse::WriterClosed(_)) => true,
            (Awaiting::ConsumerClose, SendAllResponse::ConsumerClosed(_)) => true,
            _ => false,
        }
    }
}

impl<T> SendAllUnorderedFs<T> {
    /// The state that `new_send_all` makes.
    pub open spec fn spec_new() -> Self {
        SendAllUnorderedFs {
            buffered: None,
            stream_closed: Closing::Working,
            disk_exhausted: false,
            awaiting: Awaiting::Nothing,
        }
    }

    /// What holds of every state that the machine reaches.
    ///
    /// While a request is outstanding the pending buffer is empty: the item
    /// that was parked is the first thing to leave on the next poll, and nothing
    /// is pulled before it has left. An item is parked only in the phases that
    /// route items. Each request belongs to its phase, the disk is not polled
    /// after it has ended, and the consumer is not closed before that.
    pub open spec fn wf(self) -> bool {
        let routing = self.stream_closed is Working || self.stream_closed is DrainingDisk;
        &&& self.buffered is Some ==> self.awaiting is Nothing && routing
        &&& match self.awaiting {
            Awaiting::Nothing => true,
            Awaiting::Disk => routing && !self.disk_exhausted,
            Awaiting::Consumer => routing,
            Awaiting::Upstream => self.stream_closed is Working,
            Awaiting::Writer => self.stream_closed is Working,
            Awaiting::ConsumerFlush => self.stream_closed is Working,
            Awaiting::WriterFlush => self.stream_closed is Working,
            Awaiting::WriterClose => self.stream_closed is ClosingWriter,
            Awaiting::ConsumerClose => self.stream_closed is ClosingConsumer,
        }
        &&& self.stream_closed.rank() >= 3 ==> self.disk_exhausted
    }

    /// The state with another request outstanding.
    pub open spec fn waiting_for(self, awaiting: Awaiting) -> Self {
        SendAllUnorderedFs { awaiting, ..self }
    }

    /// The state in another phase.
    pub open spec fn in_phase(self, stream_closed: Closing) -> Self {
        SendAllUnorderedFs { stream_closed, ..self }
    }

    /// Where the next item comes from while working: the pending buffer
    /// first, then the backlog on disk, then the upstream.
    pub open spec fn spec_try_get_item<E>(self) -> (Self, SendAllAction<T, E>) {
        match self.buffered {
            Some(item) => (
                SendAllUnorderedFs { buffered: None, awaiting: Awaiting::Consumer, ..self },
                SendAllAction::OfferConsumer(item),
            ),
            None => if !self.disk_exhausted {
                (self.waiting_for(Awaiting::Disk), SendAllAction::PollDisk)
            } else {
                (self.waiting_for(Awaiting::Upstream), SendAllAction::PollUpstream)
            },
        }
    }

    /// Where the next item comes from while draining: the pending buffer
    /// first, then the disk. When the disk has ended, the consumer is closed.
    pub open spec fn spec_try_get_item_fs<E>(self) -> (Self, SendAllAction<T, E>) {
        match self.buffered {
            Some(item) => (
                SendAllUnorderedFs { buffered: None, awaiting: Awaiting::Consumer, ..self },
                SendAllAction::OfferConsumer(item),
            ),
            None => if !self.disk_exhausted {
                (self.waiting_for(Awaiting::Disk), SendAllAction::PollDisk)
            } else {
                (
                    self.in_phase(Closing::ClosingConsumer).waiting_for(Awaiting::ConsumerClose),
                    SendAllAction::CloseConsumer,
                )
            },
        }
    }

    /// What the phase asks for when nothing is outstanding.
    pub open spec fn spec_advance<E>(self) -> (Self, SendAllAction<T, E>) {
        match self.stream_closed {
            Closing::Working => self.spec_try_get_item(),
            Closing::ClosingWriter => (
                self.waiting_for(Awaiting::WriterClose),
                SendAllAction::CloseWriter,
            ),
            Closing::DrainingDisk => self.spec_try_get_item_fs(),
            Closing::ClosingConsumer => (
                self.waiting_for(Awaiting::ConsumerClose),
                SendAllAction::CloseConsumer,
            ),
            Closing::Done => (self, SendAllAction::Finish),
        }
    }

    /// `poll` as a function of the state: whatever was outstanding is
    /// forgotten and the phase is carried on.
    pub open spec fn spec_poll<E>(self) -> (Self, SendAllAction<T, E>) {
        self.waiting_for(Awaiting::Nothing).spec_advance()
    }

    /// What becomes of an item that the consumer did not take: while working
    /// it is offered to the directory writer, later it is parked.
    pub open spec fn spec_try_send_to_sink_or_dir<E>(self, item: T) -> (Self, SendAllAction<T, E>) {
        if self.stream_closed is Working {
            (self.waiting_for(Awaiting::Writer), SendAllAction::OfferWriter(item))
        } else {
            (SendAllUnorderedFs { buffered: Some(item), ..self }, SendAllAction::Suspend)
        }
    }

    /// `resume` for a response that answers the outstanding request, as a
    /// function of the state with nothing outstanding any more.
    pub open spec fn spec_handle<E>(self, response: SendAllResponse<T, E>) -> (
        Self,
        SendAllAction<T, E>,
    ) {
        match response {
            SendAllResponse::Disk(Err(source)) => (
                self,
                SendAllAction::Fail(SendAllFsErr::StoreError { source }),
            ),
            SendAllResponse::Disk(Ok(Async::Ready(Some(item)))) => (
                self.waiting_for(Awaiting::Consumer),
                SendAllAction::OfferConsumer(item),
            ),
            SendAllResponse::Disk(Ok(Async::Ready(None))) => (SendAllUnorderedFs {
                disk_exhausted: true,
                ..self
            }).spec_advance(),
            SendAllResponse::Disk(Ok(Async::NotReady)) => if self.stream_closed is Working {
                (self.waiting_for(Awaiting::Upstream), SendAllAction::PollUpstream)
            } else {
                (self, SendAllAction::Suspend)
            },
            SendAllResponse::Upstream(Err(inner)) => (
                self,
                SendAllAction::Fail(SendAllFsErr::Custom { inner }),
            ),
            SendAllResponse::Upstream(Ok(Async::Ready(Some(item)))) => (
                self.waiting_for(Awaiting::Consumer),
                SendAllAction::OfferConsumer(item),
            ),
            SendAllResponse::Upstream(Ok(Async::Ready(None))) => if self.stream_closed is Working {
                self.in_phase(Closing::ClosingWriter).spec_advance()
            } else {
                self.spec_advance()
            },
            SendAllResponse::Upstream(Ok(Async::NotReady)) => (
                self.waiting_for(Awaiting::ConsumerFlush),
                SendAllAction::FlushConsumer,
            ),
            SendAllResponse::Consumer(Err(inner)) => (
                self,
                SendAllAction::Fail(SendAllFsErr::Custom { inner }),
            ),
            SendAllResponse::Consumer(Ok(AsyncSink::Ready)) => self.spec_advance(),
            SendAllResponse::Consumer(Ok(AsyncSink::NotReady(item))) => self.spec_try_send_to_sink_or_dir(
                item,
            ),
            SendAllResponse::Writer(Err(source)) => (
                self,
                SendAllAction::Fail(SendAllFsErr::StoreError { source }),
            ),
            SendAllResponse::Writer(Ok(AsyncSink::Ready)) => self.spec_advance(),
            SendAllResponse::Writer(Ok(AsyncSink::NotReady(item))) => (
                SendAllUnorderedFs { buffered: Some(item), ..self },
                SendAllAction::Suspend,
            ),
            SendAllResponse::ConsumerFlushed(Err(inner)) => (
                self,
                SendAllAction::Fail(SendAllFsErr::Custom { inner }),
            ),
            SendAllResponse::ConsumerFlushed(Ok(_)) => (
                self.waiting_for(Awaiting::WriterFlush),
                SendAllAction::FlushWriter,
            ),
            SendAllResponse::WriterFlushed(Err(source)) => (
                self,
                SendAllAction::Fail(SendAllFsErr::StoreError { source }),
            ),
            SendAllResponse::WriterFlushed(Ok(_)) => (self, SendAllAction::Suspend),
            SendAllResponse::WriterClosed(Err(source)) => (
                self,
                SendAllAction::Fail(SendAllFsErr::StoreError { source }),
            ),
            SendAllResponse::WriterClosed(Ok(Async::Ready(()))) => if self.stream_closed
                is ClosingWriter {
                self.in_phase(Closing::DrainingDisk).spec_advance()
            } else {
                self.spec_advance()
            },
            SendAllResponse::WriterClosed(Ok(Async::NotReady)) => (self, SendAllAction::Suspend),
            SendAllResponse::ConsumerClosed(Err(inner)) => (
                self,
                SendAllAction::Fail(SendAllFsErr::Custom { inner }),
            ),
            SendAllResponse::ConsumerClosed(Ok(Async::Ready(()))) => if self.stream_closed
                is ClosingConsumer {
                self.in_phase(Closing::Done).spec_advance()
            } else {
                self.spec_advance()
            },
            SendAllResponse::ConsumerClosed(Ok(Async::NotReady)) => (self, SendAllAction::Suspend),
        }
    }

    /// `resume` as a function of the state and the response.
    pub open spec fn spec_resume<E>(self, response: SendAllResponse<T, E>) -> (
        Self,
        SendAllAction<T, E>,
    ) {
        if self.buffered is None && self.awaiting.answered_by(response) {
            self.waiting_for(Awaiting::Nothing).spec_handle(response)
        } else {
            (self, SendAllAction::Unexpected(response))
        }
    }

    fn try_get_item<E>(&mut self) -> (action: SendAllAction<T, E>)
        ensures
            (*final(self), action) == old(self).spec_try_get_item::<E>(),
    {
        if let Some(item) = self.buffered.take() {
            self.awaiting = Awaiting::Consumer;
            return SendAllAction::OfferConsumer(item);
        }
        if !self.disk_exhausted {
            self.awaiting = Awaiting::Disk;
            SendAllAction::PollDisk
        } else {
            self.awaiting = Awaiting::Upstream;
            SendAllAction::PollUpstream
        }
    }

    fn try_get_item_fs<E>(&mut self) -> (action: SendAllAction<T, E>)
        ensures
            (*final(self), action) == old(self).spec_try_get_item_fs::<E>(),
    {
        if let Some(item) = self.buffered.take() {
            self.awaiting = Awaiting::Consumer;
            return SendAllAction::OfferConsumer(item);
        }
        if !self.disk_exhausted {
            self.awaiting = Awaiting::Disk;
            SendAllAction::PollDisk
        } else {
            self.stream_closed = Closing::ClosingConsumer;
            self.awaiting = Awaiting::ConsumerClose;
            SendAllAction::CloseConsumer
        }
    }

    fn advance<E>(&mut self) -> (action: SendAllAction<T, E>)
        ensures
            (*final(self), action) == old(self).spec_advance::<E>(),
    {
        match self.stream_closed {
            Closing::Working => self.try_get_item(),
            Closing::ClosingWriter => {
                self.awaiting = Awaiting::WriterClose;
                SendAllAction::CloseWriter
            },
            Closing::DrainingDisk => self.try_get_item_fs(),
            Closing::ClosingConsumer => {
                self.awaiting = Awaiting::ConsumerClose;
                SendAllAction::CloseConsumer
            },
            Closing::Done => SendAllAction::Finish,
        }
    }

    fn try_send_to_sink_or_dir<E>(&mut self, item: T) -> (action: SendAllAction<T, E>)
        ensures
            (*final(self), action) == old(self).spec_try_send_to_sink_or_dir::<E>(item),
    {
        match self.stream_closed {
            Closing::Working => {
                self.awaiting = Awaiting::Writer;
                SendAllAction::OfferWriter(item)
            },
            _ => {
                self.buffered = Some(item);
                SendAllAction::Suspend
            },
        }
    }

    fn expects<E>(&self, response: &SendAllResponse<T, E>) -> (expected: bool)
        ensures
            expected == (self.buffered is None && self.awaiting.answered_by(*response)),
    {
        if self.buffered.is_some() {
            return false;
        }
        match (self.awaiting, response) {
            (Awaiting::Disk, SendAllResponse::Disk(_)) => true,
            (Awaiting::Upstream, SendAllResponse::Upstream(_)) => true,
            (Awaiting::Consumer, SendAllResponse::Consumer(_)) => true,
            (Awaiting::Writer, SendAllResponse::Writer(_)) => true,
            (Awaiting::ConsumerFlush, SendAllResponse::ConsumerFlushed(_)) => true,
            (Awaiting::WriterFlush, SendAllResponse::WriterFlushed(_)) => true,
            (Awaiting::WriterClose, SendAllResponse::WriterClosed(_)) => true,
            (Awaiting::ConsumerClose, SendAllResponse::ConsumerClosed(_)) => true,
            _ => false,
        }
    }

    /// Carries the combinator on after it was woken.
    ///
    /// A parked item leaves first, to the consumer. Otherwise, while working,
    /// the disk is polled before the upstream; in the shutdown phases the step
    /// of the phase is asked for; after the end, `Finish` is all there is.
    pub fn poll<E>(&mut self) -> (action: SendAllAction<T, E>)
        ensures
            (*final(self), action) == old(self).spec_poll::<E>(),
            old(self).wf() ==> final(self).wf(),
    {
        self.awaiting = Awaiting::Nothing;
        self.advance()
    }

    /// Takes the outcome of the request that the machine made last.
    ///
    /// An item that a source delivers is offered to the consumer. What the
    /// consumer does not take goes to the directory writer while working, and
    /// into the pending buffer afterwards; what the directory writer does not
    /// take goes into the pending buffer. When neither source has an item, the
    /// consumer and the directory writer are flushed, one after the other, and
    /// the combinator suspends. The end of the upstream starts the shutdown.
    /// Any failure stops the combinator: one of the store as `StoreError`, one
    /// of the consumer or the upstream as `Custom`, unchanged.
    pub fn resume<E>(&mut self, response: SendAllResponse<T, E>) -> (action: SendAllAction<T, E>)
        ensures
            (*final(self), action) == old(self).spec_resume(response),
            old(self).wf() ==> final(self).wf(),
    {
        if !self.expects(&response) {
            return SendAllAction::Unexpected(response);
        }
        self.awaiting = Awaiting::Nothing;
        match response {
            SendAllResponse::Disk(outcome) => {
                match outcome {
                    Err(source) => SendAllAction::Fail(SendAllFsErr::StoreError { source }),
                    Ok(Async::Ready(Some(item))) => {
                        self.awaiting = Awaiting::Consumer;
                        SendAllAction::OfferConsumer(item)
                    },
                    Ok(Async::Ready(None)) => {
                        self.disk_exhausted = true;
                        self.advance()
                    },
                    Ok(Async::NotReady) => {
                        match self.stream_closed {
                            Closing::Working => {
                                self.awaiting = Awaiting::Upstream;
                                SendAllAction::PollUpstream
                            },
                            _ => SendAllAction::Suspend,
                        }
                    },
                }
            },
            SendAllResponse::Upstream(outcome) => {
                match outcome {
                    Err(inner) => SendAllAction::Fail(SendAllFsErr::Custom { inner }),
                    Ok(Async::Ready(Some(item))) => {
                        self.awaiting = Awaiting::Consumer;
                        SendAllAction::OfferConsumer(item)
                    },
                    Ok(Async::Ready(None)) => {
                        if let Closing::Working = self.stream_closed {
                            self.stream_closed = Closing::ClosingWriter;
                        }
                        self.advance()
                    },
                    Ok(Async::NotReady) => {
                        self.awaiting = Awaiting::ConsumerFlush;
                        SendAllAction::FlushConsumer
                    },
                }
            },
            SendAllResponse::Consumer(outcome) => {
                match outcome {
                    Err(inner) => SendAllAction::Fail(SendAllFsErr::Custom { inner }),
                    Ok(AsyncSink::Ready) => self.advance(),
                    Ok(AsyncSink::NotReady(item)) => self.try_send_to_sink_or_dir(item),
                }
            },
            SendAllResponse::Writer(outcome) => {
                match outcome {
                    Err(source) => SendAllAction::Fail(SendAllFsErr::StoreError { source }),
                    Ok(AsyncSink::Ready) => self.advance(),
                    Ok(AsyncSink::NotReady(item)) => {
                        self.buffered = Some(item);
                        SendAllAction::Suspend
                    },
                }
            },
            SendAllResponse::ConsumerFlushed(outcome) => {
                match outcome {
                    Err(inner) => SendAllAction::Fail(SendAllFsErr::Custom { inner }),
                    Ok(_) => {
                        self.awaiting = Awaiting::WriterFlush;
                        SendAllAction::FlushWriter
                    },
                }
            },
            SendAllResponse::WriterFlushed(outcome) => {
                match outcome {
                    Err(source) => SendAllAction::Fail(SendAllFsErr::StoreError { source }),
                    Ok(_) => SendAllAction::Suspend,
                }
            },
            SendAllResponse::WriterClosed(outcome) => {
                match outcome {
                    Err(source) => SendAllAction::Fail(SendAllFsErr::StoreError { source }),
                    Ok(Async::Ready(())) => {
                        if let Closing::ClosingWriter = self.stream_closed {
                            self.stream_closed = Closing::DrainingDisk;
                        }
                        self.advance()
                    },
                    Ok(Async::NotReady) => SendAllAction::Suspend,
                }
            },
            SendAllResponse::ConsumerClosed(outcome) => {
                match outcome {
                    Err(inner) => SendAllAction::Fail(SendAllFsErr::Custom { inner }),
                    Ok(Async::Ready(())) => {
                        if let Closing::ClosingConsumer = self.stream_closed {
                            self.stream_closed = Closing::Done;
                        }
                        self.advance()
                    },
                    Ok(Async::NotReady) => SendAllAction::Suspend,
                }
            },
        }
    }
}

impl<T, E> SendAllResponse<T, E> {
    /// The item that comes with the response.
    pub open spec fn item(self) -> Option<T> {
        match self {
            SendAllResponse::Disk(Ok(Async::Ready(Some(item)))) => Some(item),
            SendAllResponse::Upstream(Ok(Async::Ready(Some(item)))) => Some(item),
            SendAllResponse::Consumer(Ok(AsyncSink::NotReady(item))) => Some(item),
            SendAllResponse::Writer(Ok(AsyncSink::NotReady(item))) => Some(item),
            _ => None,
        }
    }
}

impl<T, E> SendAllAction<T, E> {
    /// The item that goes out with the action.
    pub open spec fn item(self) -> Option<T> {
        match self {
            SendAllAction::OfferConsumer(item) => Some(item),
            SendAllAction::OfferWriter(item) => Some(item),
            SendAllAction::Unexpected(response) => response.item(),
            _ => None,
        }
    }
}

/// The combinator drops no item. An item that comes with a response goes out
/// again with the action or lies in the pending buffer afterwards; an item
/// that lay in the pending buffer still lies there or goes out with the
/// action of the next poll. And the buffer is never overwritten: while it is
/// occupied, a response leaves it as it is.
pub proof fn law_combinator_drops_no_item<T, E>(
    combinator: SendAllUnorderedFs<T>,
    response: SendAllResponse<T, E>,
)
    ensures
        response.item() is Some ==> combinator.spec_resume(response).1.item() == response.item()
            || (combinator.spec_resume(response).0.buffered == response.item()
            && combinator.buffered is None),
        combinator.buffered is Some ==> combinator.spec_resume(response).0.buffered
            == combinator.buffered,
        combinator.buffered is Some ==> combinator.spec_poll::<E>().1.item() == combinator.buffered
            || combinator.spec_poll::<E>().0.buffered == combinator.buffered,
        combinator.wf() ==> combinator.spec_resume(response).0.wf(),
        combinator.wf() ==> combinator.spec_poll::<E>().0.wf(),
{
}

} // verus!
