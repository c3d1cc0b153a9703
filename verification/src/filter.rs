//! Subscription filters: what one ingest loop asks its feed for.

use crate::address::{address_bytes, Address};
use vstd::prelude::*;

verus! {

/// The byte sequences of a sequence of addresses.
pub open spec fn address_views(addresses: Seq<Address>) -> Seq<Seq<u8>> {
    addresses.map_values(|a: Address| a@)
}

/// `items` without repetitions: each item stands where it first occurs.
pub open spec fn distinct<T>(items: Seq<T>) -> Seq<T>
    decreases items.len(),
{
    if items.len() == 0 {
        items
    } else {
        let before = distinct(items.drop_last());
        if before.contains(items.last()) {
            before
        } else {
            before.push(items.last())
        }
    }
}

/// `distinct(items)` repeats nothing and holds exactly the items of `items`.
pub proof fn lemma_distinct<T>(items: Seq<T>)
    ensures
        distinct(items).no_duplicates(),
        distinct(items).len() <= items.len(),
        forall|x: T| distinct(items).contains(x) <==> items.contains(x),
    decreases items.len(),
{
    if items.len() > 0 {
        let front = items.drop_last();
        let before = distinct(front);
        let all = distinct(items);
        lemma_distinct(front);
        assert forall|x: T| all.contains(x) implies items.contains(x) by {
            let j = choose|j: int| 0 <= j < all.len() && all[j] == x;
            if j < before.len() {
                assert(before[j] == x);
                assert(before.contains(x));
                assert(front.contains(x));
                let i = choose|i: int| 0 <= i < front.len() && front[i] == x;
                assert(items[i] == x);
            } else {
                assert(items[items.len() - 1] == x);
            }
        }
        assert forall|x: T| items.contains(x) implies all.contains(x) by {
            let i = choose|i: int| 0 <= i < items.len() && items[i] == x;
            if i < front.len() {
                assert(front[i] == x);
                assert(front.contains(x));
                assert(before.contains(x));
                let j = choose|j: int| 0 <= j < before.len() && before[j] == x;
                assert(all[j] == x);
            } else if before.contains(x) {
                let j = choose|j: int| 0 <= j < before.len() && before[j] == x;
                assert(all[j] == x);
            } else {
                assert(all[before.len() as int] == x);
            }
        }
    }
}

/// Whether each of `texts` reads as an address.
pub open spec fn all_read(texts: Seq<Seq<char>>) -> bool {
    forall|i: int| 0 <= i < texts.len() ==> address_bytes(#[trigger] texts[i]) is Some
}

/// The addresses that `texts` read as, in their order.
pub open spec fn read_all(texts: Seq<Seq<char>>) -> Seq<Seq<u8>> {
    texts.map_values(|text: Seq<char>| address_bytes(text)->Some_0)
}

/// Why no filter could be made.
#[derive(Clone, Copy, PartialEq, Eq, Structural, Debug)]
pub enum FilterError {
    /// The text at this place among the addresses does not read as one.
    InvalidAddress { index: usize },
}

/// What one ingest loop subscribes to: an event type, the offset from which
/// notifications are wanted, and the set of source addresses to match. A
/// filter is fixed once made.
pub struct SubscriptionFilter {
    event_type: String,
    starting_offset: u64,
    addresses: Vec<Address>,
}

impl SubscriptionFilter {
    #[verifier::type_invariant]
    spec fn is_set(self) -> bool {
        address_views(self.addresses@).no_duplicates()
    }

    /// The identifier of the event type.
    pub closed spec fn spec_event_type(&self) -> Seq<char> {
        self.event_type@
    }

    /// The offset from which notifications are wanted.
    pub closed spec fn spec_starting_offset(&self) -> u64 {
        self.starting_offset
    }

    /// The source addresses, each once, in the order in which they were
    /// first given.
    pub closed spec fn spec_addresses(&self) -> Seq<Seq<u8>> {
        address_views(self.addresses@)
    }

    /// The filter for `event_type` from `starting_offset` on, matching the
    /// set of the addresses given.
    pub fn new(event_type: String, starting_offset: u64, addresses: Vec<Address>) -> (filter:
        SubscriptionFilter)
        ensures
            filter.spec_event_type() == event_type@,
            filter.spec_starting_offset() == starting_offset,
            filter.spec_addresses() == distinct(address_views(addresses@)),
    {
        let ghost given = address_views(addresses@);
        let mut kept: Vec<Address> = Vec::new();
        let mut i: usize = 0;
        assert(given.subrange(0, 0) =~= Seq::<Seq<u8>>::empty());
        while i < addresses.len()
            invariant
                i <= addresses@.len(),
                given == address_views(addresses@),
                address_views(kept@) == distinct(given.subrange(0, i as int)),
            decreases addresses@.len() - i,
        {
            let ghost upto = given.subrange(0, i as int + 1);
            assert(upto.drop_last() =~= given.subrange(0, i as int));
            assert(upto.last() == addresses@[i as int]@);
            let candidate = addresses[i];
            if !holds(&kept, &candidate) {
                kept.push(candidate);
                assert(address_views(kept@) =~= distinct(given.subrange(0, i as int)).push(
                    candidate@,
                ));
            }
            i = i + 1;
        }
        assert(given.subrange(0, i as int) =~= given);
        proof {
            lemma_distinct(given);
        }
        SubscriptionFilter { event_type, starting_offset, addresses: kept }
    }

    /// The filter for `event_type` from `starting_offset` on, matching the
    /// set of the addresses that `texts` read as. Where one of them does not
    /// read as an address, the first such is reported and no filter is made.
    pub fn from_texts(event_type: String, starting_offset: u64, texts: &Vec<String>) -> (made:
        Result<SubscriptionFilter, FilterError>)
        ensures
            match made {
                Ok(filter) => {
                    &&& all_read(texts.deep_view())
                    &&& filter.spec_event_type() == event_type@
                    &&& filter.spec_starting_offset() == starting_offset
                    &&& filter.spec_addresses() == distinct(read_all(texts.deep_view()))
                },
                Err(FilterError::InvalidAddress { index }) => {
                    &&& index < texts@.len()
                    &&& address_bytes(texts@[index as int]@) is None
                    &&& forall|j: int| 0 <= j < index ==> address_bytes(texts@[j]@) is Some
                },
            },
    {
        let ghost given = texts.deep_view();
        let mut addresses: Vec<Address> = Vec::new();
        let mut i: usize = 0;
        while i < texts.len()
            invariant
                i <= texts@.len(),
                given == texts.deep_view(),
                given.len() == texts@.len(),
                forall|j: int| 0 <= j < i ==> address_bytes(given[j]) is Some,
                addresses@.len() == i,
                forall|j: int| 0 <= j < i ==> address_bytes(given[j]) == Some(addresses@[j]@),
            decreases texts@.len() - i,
        {
            assert(given[i as int] == texts@[i as int]@);
            match Address::parse(texts[i].as_str()) {
                Some(address) => {
                    addresses.push(address);
                },
                None => {
                    assert forall|j: int| 0 <= j < i implies address_bytes(texts@[j]@) is Some by {
                        assert(given[j] == texts@[j]@);
                    }
                    return Err(FilterError::InvalidAddress { index: i });
                },
            }
            i = i + 1;
        }
        assert(address_views(addresses@) =~= read_all(given));
        Ok(SubscriptionFilter::new(event_type, starting_offset, addresses))
    }

    /// The identifier of the event type.
    pub fn event_type(&self) -> (event_type: &str)
        ensures
            event_type@ == self.spec_event_type(),
    {
        self.event_type.as_str()
    }

    /// The offset from which notifications are wanted.
    #[verifier::when_used_as_spec(spec_starting_offset)]
    pub fn starting_offset(&self) -> (offset: u64)
        ensures
            offset == self.spec_starting_offset(),
    {
        self.starting_offset
    }

    /// The source addresses, each once.
    pub fn addresses(&self) -> (addresses: &Vec<Address>)
        ensures
            address_views(addresses@) == self.spec_addresses(),
            address_views(addresses@).no_duplicates(),
    {
        proof {
            use_type_invariant(self);
        }
        &self.addresses
    }

    /// Whether `address` is one of the source addresses.
    pub fn matches(&self, address: &Address) -> (found: bool)
        ensures
            found == self.spec_addresses().contains(address@),
    {
        holds(&self.addresses, address)
    }
}

/// Whether `address` occurs among `addresses`.
fn holds(addresses: &Vec<Address>, address: &Address) -> (found: bool)
    ensures
        found == address_views(addresses@).contains(address@),
{
    let mut i: usize = 0;
    while i < addresses.len()
        invariant
            i <= addresses@.len(),
            forall|j: int| 0 <= j < i ==> address_views(addresses@)[j] != address@,
        decreases addresses@.len() - i,
    {
        if addresses[i].same_as(address) {
            assert(address_views(addresses@)[i as int] == address@);
            return true;
        }
        i = i + 1;
    }
    false
}

} // verus!
