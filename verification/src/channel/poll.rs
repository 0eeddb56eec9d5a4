//! Outcomes of a single, non-blocking attempt.
use vstd::prelude::*;

verus! {

/// The result of polling something that may not have finished yet.
#[derive(Debug, PartialEq, Eq)]
pub enum Async<T> {
    /// The value is available.
    Ready(T),
    /// Not yet; the caller will be woken when it is worth trying again.
    NotReady,
}

/// The result of offering an item to something that may be full.
#[derive(Debug, PartialEq, Eq)]
pub enum AsyncSink<T> {
    /// The item was taken.
    Ready,
    /// The item was not taken and is handed back.
    NotReady(T),
}

impl<T> Async<T> {
    /// Whether the value is available.
    pub fn is_ready(&self) -> (ready: bool)
        ensures
            ready == (self is Ready),
    {
        match self {
            Async::Ready(_) => true,
            Async::NotReady => false,
        }
    }

    /// Whether the value is still outstanding.
    pub fn is_not_ready(&self) -> (waiting: bool)
        ensures
            waiting == (self is NotReady),
    {
        !self.is_ready()
    }
}

impl<T> AsyncSink<T> {
    /// Whether the item was taken.
    pub fn is_ready(&self) -> (ready: bool)
        ensures
            ready == (self is Ready),
    {
        match self {
            AsyncSink::Ready => true,
            AsyncSink::NotReady(_) => false,
        }
    }

    /// Whether the item was handed back.
    pub fn is_not_ready(&self) -> (refused: bool)
        ensures
            refused == (self is NotReady),
    {
        !self.is_ready()
    }
}

} // verus!
