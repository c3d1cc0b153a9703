//! Event types: what kind of notification a subscription asks for.

use vstd::prelude::*;

verus! {

/// A type of event, known by an identifier.
pub trait EventType {
    /// The identifier under which subscriptions name this type of event.
    spec fn identifier() -> Seq<char>;

    /// The identifier as text.
    fn name() -> (name: &'static str)
        ensures
            name@ == Self::identifier(),
    ;
}

/// The event that tells of a newly created collection.
#[derive(Clone, Copy, Debug, Default)]
pub struct CollectionCreated;

/// The event that tells of a newly minted token.
#[derive(Clone, Copy, Debug, Default)]
pub struct TokenMinted;

impl EventType for CollectionCreated {
    open spec fn identifier() -> Seq<char> {
        "CollectionCreated"@
    }

    fn name() -> (name: &'static str) {
        "CollectionCreated"
    }
}

impl EventType for TokenMinted {
    open spec fn identifier() -> Seq<char> {
        "TokenMinted"@
    }

    fn name() -> (name: &'static str) {
        "TokenMinted"
    }
}

/// The identifier of the type of event that `_value` is.
pub fn type_of<T: EventType>(_value: T) -> (name: &'static str)
    ensures
        name@ == T::identifier(),
{
    T::name()
}

} // verus!
