//! The directory queue as the machines see it through their requests.
//!
//! A directory is a row of segments, numbered from zero without a gap. A
//! segment holds the items that have reached its file, in the order in which
//! they were appended. It is sealed once its file is read-only, after which
//! nothing is appended to it, and deleted once a reader has drained it. The
//! model keeps the items of a deleted segment, so that what was read can be
//! compared with what was written.
use vstd::prelude::*;

verus! {

/// One segment file.
#[verifier::ext_equal]
pub struct Segment<T> {
    /// The items in the file, oldest first.
    pub items: Seq<T>,
    /// Whether the file is read-only.
    pub sealed: bool,
    /// Whether the file was deleted.
    pub deleted: bool,
}

impl<T> Segment<T> {
    /// A segment that was just created.
    pub open spec fn fresh() -> Segment<T> {
        Segment { items: Seq::empty(), sealed: false, deleted: false }
    }

    /// The segment with `more` appended.
    pub open spec fn grown(self, more: Seq<T>) -> Segment<T> {
        Segment { items: self.items + more, ..self }
    }
}

/// The items of all segments, in the order of the segments.
pub open spec fn contents<T>(directory: Seq<Segment<T>>) -> Seq<T>
    decreases directory.len(),
{
    if directory.len() == 0 {
        Seq::empty()
    } else {
        contents(directory.drop_last()) + directory.last().items
    }
}

/// Whether every segment is sealed.
pub open spec fn all_sealed<T>(directory: Seq<Segment<T>>) -> bool {
    forall|i: int| 0 <= i < directory.len() ==> (#[trigger] directory[i]).sealed
}

/// A new, empty segment at the end adds nothing to the contents.
pub proof fn lemma_contents_push_fresh<T>(directory: Seq<Segment<T>>)
    ensures
        contents(directory.push(Segment::fresh())) == contents(directory),
{
    let longer = directory.push(Segment::<T>::fresh());
    assert(longer.drop_last() =~= directory);
    assert(contents(longer) =~= contents(directory));
}

/// Replacing a segment by one with the same items leaves the contents as they
/// are.
pub proof fn lemma_contents_same_items<T>(directory: Seq<Segment<T>>, index: int, segment: Segment<T>)
    requires
        0 <= index < directory.len(),
        segment.items == directory[index].items,
    ensures
        contents(directory.update(index, segment)) == contents(directory),
    decreases directory.len(),
{
    let updated = directory.update(index, segment);
    if index == directory.len() - 1 {
        assert(updated.drop_last() =~= directory.drop_last());
    } else {
        lemma_contents_same_items(directory.drop_last(), index, segment);
        assert(updated.drop_last() =~= directory.drop_last().update(index, segment));
    }
}

/// Appending to the last segment appends to the contents.
pub proof fn lemma_contents_grow_last<T>(directory: Seq<Segment<T>>, more: Seq<T>)
    requires
        directory.len() >= 1,
    ensures
        contents(directory.update(directory.len() - 1, directory.last().grown(more))) == contents(
            directory,
        ) + more,
{
    let updated = directory.update(directory.len() - 1, directory.last().grown(more));
    assert(updated.drop_last() =~= directory.drop_last());
    assert(contents(updated) =~= contents(directory) + more);
}

/// Appending to the segment before an empty last segment appends to the
/// contents.
pub proof fn lemma_contents_grow_before_empty<T>(directory: Seq<Segment<T>>, more: Seq<T>)
    requires
        directory.len() >= 2,
        directory.last().items.len() == 0,
    ensures
        contents(
            directory.update(directory.len() - 2, directory[directory.len() - 2].grown(more)),
        ) == contents(directory) + more,
{
    let index = directory.len() - 2;
    let updated = directory.update(index, directory[index].grown(more));
    let front = directory.drop_last();
    assert(updated.drop_last() =~= front.update(index, front.last().grown(more)));
    lemma_contents_grow_last(front, more);
    assert(contents(directory) =~= contents(front));
    assert(contents(updated) =~= contents(updated.drop_last()));
}

/// The contents of two segments are the items of the first followed by those
/// of the second.
pub proof fn lemma_contents_of_two<T>(directory: Seq<Segment<T>>)
    requires
        directory.len() == 2,
    ensures
        contents(directory) == directory[0].items + directory[1].items,
{
    let front = directory.drop_last();
    assert(front.drop_last() =~= Seq::<Segment<T>>::empty());
    assert(contents(front.drop_last()) =~= Seq::<T>::empty());
    assert(contents(front) =~= directory[0].items);
}

/// The contents of the first segments of a directory come first in its
/// contents.
pub proof fn lemma_contents_take<T>(directory: Seq<Segment<T>>, count: int)
    requires
        0 <= count <= directory.len(),
    ensures
        contents(directory.take(count)).len() <= contents(directory).len(),
        contents(directory.take(count)) == contents(directory).take(
            contents(directory.take(count)).len() as int,
        ),
    decreases directory.len() - count,
{
    if count == directory.len() {
        assert(directory.take(count) =~= directory);
        assert(contents(directory).take(contents(directory).len() as int) =~= contents(directory));
    } else {
        lemma_contents_take(directory, count + 1);
        let longer = directory.take(count + 1);
        assert(longer.drop_last() =~= directory.take(count));
        let short = contents(directory.take(count));
        assert(contents(longer) == short + longer.last().items);
        assert(short =~= contents(longer).take(short.len() as int));
        assert(short =~= contents(directory).take(short.len() as int));
    }
}

} // verus!
