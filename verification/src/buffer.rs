//! The bounded event buffer: an ordered store of records that evicts its
//! oldest record when a new one would not fit.

use crate::record::EventRecord;
use std::collections::VecDeque;
use vstd::prelude::*;

verus! {

/// What a store bounded at `capacity` keeps of `arrivals`: the last
/// `capacity` of them in their order, or all where there are fewer.
pub open spec fn retained<T>(arrivals: Seq<T>, capacity: nat) -> Seq<T> {
    if arrivals.len() <= capacity {
        arrivals
    } else {
        arrivals.subrange(arrivals.len() - capacity, arrivals.len() as int)
    }
}

/// What a store bounded at `capacity` that held `contents` holds after
/// `item` was appended to it: the item stands last, and the oldest item has
/// left where there was no room.
pub open spec fn after_append<T>(contents: Seq<T>, item: T, capacity: nat) -> Seq<T> {
    retained(contents.push(item), capacity)
}

/// What a store bounded at `capacity` that held `contents` holds after the
/// `arrivals` were appended to it one by one.
pub open spec fn after_appends<T>(contents: Seq<T>, arrivals: Seq<T>, capacity: nat) -> Seq<T>
    decreases arrivals.len(),
{
    if arrivals.len() == 0 {
        contents
    } else {
        after_append(
            after_appends(contents, arrivals.drop_last(), capacity),
            arrivals.last(),
            capacity,
        )
    }
}

/// The items of `arrivals` that came from `source`, in their order, where
/// `origins[i]` is the source from which `arrivals[i]` came.
pub open spec fn from_source<T>(arrivals: Seq<T>, origins: Seq<nat>, source: nat) -> Seq<T>
    decreases arrivals.len(),
{
    if arrivals.len() == 0 {
        arrivals
    } else {
        let before = from_source(arrivals.drop_last(), origins.drop_last(), source);
        if origins.last() == source {
            before.push(arrivals.last())
        } else {
            before
        }
    }
}

/// Appending one by one keeps what a single bounded store keeps of
/// everything that ever arrived: the contents before, followed by the
/// arrivals, cut to the last `capacity` items.
pub proof fn lemma_appends_retain<T>(contents: Seq<T>, arrivals: Seq<T>, capacity: nat)
    requires
        contents.len() <= capacity,
    ensures
        after_appends(contents, arrivals, capacity) == retained(contents + arrivals, capacity),
    decreases arrivals.len(),
{
    if arrivals.len() == 0 {
        assert(contents + arrivals =~= contents);
    } else {
        let front = arrivals.drop_last();
        lemma_appends_retain(contents, front, capacity);
        assert((contents + front).push(arrivals.last()) =~= contents + arrivals);
        assert(retained(retained(contents + front, capacity).push(arrivals.last()), capacity)
            =~= retained(contents + arrivals, capacity));
    }
}

/// After more appends than the capacity, the buffer is full and holds
/// exactly the last `capacity` records appended, in the order in which they
/// were appended, whatever it held before.
pub proof fn law_overflow_keeps_latest<T>(contents: Seq<T>, arrivals: Seq<T>, capacity: nat)
    requires
        contents.len() <= capacity,
        arrivals.len() > capacity,
    ensures
        after_appends(contents, arrivals, capacity).len() == capacity,
        after_appends(contents, arrivals, capacity) == arrivals.subrange(
            arrivals.len() - capacity,
            arrivals.len() as int,
        ),
{
    lemma_appends_retain(contents, arrivals, capacity);
    assert(retained(contents + arrivals, capacity) =~= arrivals.subrange(
        arrivals.len() - capacity,
        arrivals.len() as int,
    ));
}

/// Cutting a sequence of arrivals in two cuts the stream of each source in
/// two: what the source sent before the cut, then what it sent after.
pub proof fn lemma_from_source_split<T>(arrivals: Seq<T>, origins: Seq<nat>, source: nat, at: int)
    requires
        origins.len() == arrivals.len(),
        0 <= at <= arrivals.len(),
    ensures
        from_source(arrivals, origins, source) == from_source(
            arrivals.subrange(0, at),
            origins.subrange(0, at),
            source,
        ) + from_source(
            arrivals.subrange(at, arrivals.len() as int),
            origins.subrange(at, arrivals.len() as int),
            source,
        ),
    decreases arrivals.len(),
{
    let n = arrivals.len() as int;
    let head = from_source(arrivals.subrange(0, at), origins.subrange(0, at), source);
    if at == n {
        assert(arrivals.subrange(0, at) =~= arrivals);
        assert(origins.subrange(0, at) =~= origins);
        assert(head + from_source(arrivals.subrange(at, n), origins.subrange(at, n), source)
            =~= head);
    } else {
        let front = arrivals.drop_last();
        let front_origins = origins.drop_last();
        lemma_from_source_split(front, front_origins, source, at);
        assert(front.subrange(0, at) =~= arrivals.subrange(0, at));
        assert(front_origins.subrange(0, at) =~= origins.subrange(0, at));
        assert(arrivals.subrange(at, n).drop_last() =~= front.subrange(at, n - 1));
        assert(origins.subrange(at, n).drop_last() =~= front_origins.subrange(at, n - 1));
        assert(arrivals.subrange(at, n).last() == arrivals.last());
        assert(origins.subrange(at, n).last() == origins.last());
        let tail_front = from_source(
            front.subrange(at, n - 1),
            front_origins.subrange(at, n - 1),
            source,
        );
        if origins.last() == source {
            assert((head + tail_front).push(arrivals.last()) =~= head + tail_front.push(
                arrivals.last(),
            ));
        }
    }
}

/// However the appends of several sources interleave, an initially empty
/// buffer never holds more than its capacity, and it holds the arrivals
/// without the oldest `evicted` of them: none twice, none missing but those,
/// none out of order. The stream of each source is what was evicted of it
/// followed by what the buffer holds of it, so within a source the order of
/// arrival is kept.
pub proof fn law_interleaved_appends<T>(
    arrivals: Seq<T>,
    origins: Seq<nat>,
    capacity: nat,
    source: nat,
)
    requires
        origins.len() == arrivals.len(),
    ensures
        after_appends(Seq::<T>::empty(), arrivals, capacity).len() <= capacity,
        ({
            let held = after_appends(Seq::<T>::empty(), arrivals, capacity);
            let evicted = arrivals.len() - held.len();
            &&& 0 <= evicted
            &&& held == arrivals.subrange(evicted, arrivals.len() as int)
            &&& from_source(arrivals, origins, source) == from_source(
                arrivals.subrange(0, evicted),
                origins.subrange(0, evicted),
                source,
            ) + from_source(held, origins.subrange(evicted, arrivals.len() as int), source)
        }),
{
    let held = after_appends(Seq::<T>::empty(), arrivals, capacity);
    lemma_appends_retain(Seq::<T>::empty(), arrivals, capacity);
    assert(Seq::<T>::empty() + arrivals =~= arrivals);
    let evicted = arrivals.len() - held.len();
    assert(held =~= arrivals.subrange(evicted, arrivals.len() as int));
    lemma_from_source_split(arrivals, origins, source, evicted);
}

/// The texts of a sequence of records.
pub open spec fn texts(records: Seq<EventRecord>) -> Seq<Seq<char>> {
    records.map_values(|r: EventRecord| r@)
}

/// An ordered store of event records with a fixed capacity. Its view is the
/// sequence of the texts of the records it holds, oldest first.
pub struct EventBuffer {
    records: VecDeque<EventRecord>,
    capacity: usize,
}

impl View for EventBuffer {
    type V = Seq<Seq<char>>;

    closed spec fn view(&self) -> Seq<Seq<char>> {
        texts(self.records@)
    }
}

impl EventBuffer {
    #[verifier::type_invariant]
    spec fn within_capacity(self) -> bool {
        self.records@.len() <= self.capacity
    }

    /// The most records the buffer holds at any time.
    pub closed spec fn spec_capacity(&self) -> usize {
        self.capacity
    }

    /// An empty buffer that holds at most `capacity` records.
    pub fn new(capacity: usize) -> (buffer: EventBuffer)
        ensures
            buffer@ == Seq::<Seq<char>>::empty(),
            buffer.spec_capacity() == capacity,
    {
        EventBuffer { records: VecDeque::new(), capacity }
    }

    /// The most records the buffer holds at any time.
    #[verifier::when_used_as_spec(spec_capacity)]
    pub fn capacity(&self) -> (capacity: usize)
        ensures
            capacity == self.spec_capacity(),
    {
        self.capacity
    }

    /// The number of records held, which never exceeds the capacity.
    pub fn len(&self) -> (len: usize)
        ensures
            len == self@.len(),
            len <= self.spec_capacity(),
    {
        proof {
            use_type_invariant(self);
        }
        self.records.len()
    }

    /// Whether no record is held.
    pub fn is_empty(&self) -> (empty: bool)
        ensures
            empty == (self@.len() == 0),
    {
        self.records.len() == 0
    }

    /// Adds `record` at the tail; where the buffer was full its oldest record
    /// leaves first.
    pub fn append(&mut self, record: EventRecord)
        ensures
            final(self).spec_capacity() == old(self).spec_capacity(),
            final(self)@ == after_append(old(self)@, record@, old(self).spec_capacity() as nat),
    {
        proof {
            use_type_invariant(&*self);
        }
        let mut records: VecDeque<EventRecord> = VecDeque::new();
        core::mem::swap(&mut self.records, &mut records);
        if self.capacity > 0 {
            if records.len() == self.capacity {
                let _ = records.pop_front();
            }
            records.push_back(record);
        }
        core::mem::swap(&mut self.records, &mut records);
    }

    /// An independent copy of the records held, oldest first. The buffer
    /// itself is left as it was.
    pub fn snapshot(&self) -> (copy: Vec<EventRecord>)
        ensures
            texts(copy@) == self@,
            copy@.len() <= self.spec_capacity(),
    {
        proof {
            use_type_invariant(self);
        }
        let mut copy: Vec<EventRecord> = Vec::new();
        let mut i: usize = 0;
        while i < self.records.len()
            invariant
                i <= self.records@.len(),
                copy@.len() == i,
                forall|j: int| 0 <= j < i ==> copy@[j]@ == self.records@[j]@,
            decreases self.records@.len() - i,
        {
            copy.push(self.records[i].clone());
            i = i + 1;
        }
        assert(texts(copy@) =~= texts(self.records@));
        copy
    }
}

/// Two snapshots of a buffer, taken with no append between them, hold the
/// same texts in the same order: a snapshot is determined by what the buffer
/// holds, and taking one changes nothing.
pub proof fn law_snapshot_repeats(
    buffer: EventBuffer,
    first: Seq<EventRecord>,
    second: Seq<EventRecord>,
)
    requires
        texts(first) == buffer@,
        texts(second) == buffer@,
    ensures
        texts(first) == texts(second),
        first.len() == second.len(),
        forall|i: int| 0 <= i < first.len() ==> first[i]@ == second[i]@,
{
    assert(texts(first).len() == first.len());
    assert(texts(second).len() == second.len());
    assert forall|i: int| 0 <= i < first.len() implies first[i]@ == second[i]@ by {
        assert(texts(first)[i] == first[i]@);
        assert(texts(second)[i] == second[i]@);
    }
}

} // verus!
