//! The combinator together with the directory queue that it spills to.
//!
//! The combinator's world knows the directory writer and reader only by what
//! they take and hand over. The pair world knows what that writer and that
//! reader do to the directory. The laws here put the two together: they speak
//! of a run of the combinator and a run of the pair in which the writer took
//! exactly what the combinator spilled, and the reader handed over exactly
//! what the combinator got from the disk.
use crate::channel::pair_world::{PairEvent, PairWorld, law_follower_yields_what_was_taken};
use crate::channel::spill_world::{SpillEvent, SpillWorld, law_items_are_conserved, unfailing};
use vstd::multiset::Multiset;
use vstd::prelude::*;

verus! {

/// The items that the directory queue owes the combinator: those that the
/// writer took and the reader has not handed over yet. They are in the
/// segment files or, until the next flush completes, enqueued for them.
pub open spec fn backlog<T>(pair: PairWorld<T>) -> Seq<T> {
    pair.writer.accepted.skip(pair.reader.yielded.len() as int)
}

/// Whether the two runs belong together: the writer of the pair took what the
/// combinator spilled, the reader of the pair yielded what the combinator got
/// from the disk.
pub open spec fn joined<T, E>(spill: SpillWorld<T, E>, pair: PairWorld<T>) -> bool {
    &&& spill.spilled == pair.writer.accepted
    &&& spill.from_disk == pair.reader.yielded
}

/// Nothing that the upstream handed over is lost, as long as no collaborator
/// fails: each such item was taken by the consumer, or waits in the directory
/// queue to be read back, or is the one item in the combinator's hands.
pub proof fn law_upstream_items_are_accounted_for<T, E>(
    spills: Seq<SpillEvent<T, E>>,
    max_number_of_items: usize,
    events: Seq<PairEvent<T>>,
)
    requires
        unfailing(spills),
        joined(SpillWorld::after(spills), PairWorld::after(max_number_of_items, events)),
    ensures
        ({
            let spill = SpillWorld::after(spills);
            let pair = PairWorld::after(max_number_of_items, events);
            &&& spill.from_upstream.to_multiset() == spill.delivered.to_multiset().add(
                backlog(pair).to_multiset(),
            ).add(spill.held())
            &&& spill.held().len() <= 1
        }),
{
    broadcast use vstd::multiset::group_multiset_axioms;

    let spill = SpillWorld::after(spills);
    let pair = PairWorld::after(max_number_of_items, events);
    law_items_are_conserved(spills);
    law_follower_yields_what_was_taken(max_number_of_items, events);
    let read = pair.reader.yielded;
    let owed = backlog(pair);
    assert(pair.writer.accepted =~= read + owed);
    vstd::seq_lib::lemma_multiset_commutative(read, owed);
    spill.lost.to_multiset_ensures();
    assert(spill.lost.to_multiset() =~= Multiset::empty());
    assert(spill.spilled.to_multiset() == read.to_multiset().add(owed.to_multiset()));
    let upstream = spill.from_upstream.to_multiset();
    let accounted = spill.delivered.to_multiset().add(owed.to_multiset()).add(spill.held());
    assert forall|item: T| upstream.count(item) == accounted.count(item) by {
        assert(spill.taken_in().count(item) == spill.passed_on().add(spill.held()).count(item));
        assert(spill.taken_in().count(item) == upstream.count(item) + read.to_multiset().count(item));
        assert(spill.passed_on().count(item) == spill.delivered.to_multiset().count(item)
            + spill.spilled.to_multiset().count(item) + spill.lost.to_multiset().count(item));
        assert(spill.spilled.to_multiset().count(item) == read.to_multiset().count(item)
            + owed.to_multiset().count(item));
        assert(spill.lost.to_multiset().count(item) == 0);
    }
    assert(upstream =~= accounted);
}

/// Backpressure: with a consumer that has taken nothing, and no failure,
/// every item that the upstream handed over waits in the directory queue,
/// but for the at most one item in the combinator's hands.
pub proof fn law_backpressure_persists_everything<T, E>(
    spills: Seq<SpillEvent<T, E>>,
    max_number_of_items: usize,
    events: Seq<PairEvent<T>>,
)
    requires
        unfailing(spills),
        SpillWorld::after(spills).delivered.len() == 0,
        joined(SpillWorld::after(spills), PairWorld::after(max_number_of_items, events)),
    ensures
        ({
            let spill = SpillWorld::after(spills);
            let pair = PairWorld::after(max_number_of_items, events);
            &&& spill.from_upstream.to_multiset() == backlog(pair).to_multiset().add(spill.held())
            &&& spill.held().len() <= 1
            &&& spill.from_upstream.len() <= backlog(pair).len() + 1
        }),
{
    broadcast use vstd::multiset::group_multiset_axioms;

    let spill = SpillWorld::after(spills);
    let pair = PairWorld::after(max_number_of_items, events);
    law_upstream_items_are_accounted_for(spills, max_number_of_items, events);
    spill.delivered.to_multiset_ensures();
    spill.from_upstream.to_multiset_ensures();
    backlog(pair).to_multiset_ensures();
    assert(spill.delivered.to_multiset() =~= Multiset::empty());
    assert(spill.from_upstream.to_multiset() =~= backlog(pair).to_multiset().add(spill.held()));
}

} // verus!
