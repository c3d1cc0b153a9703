//! Source addresses: the 20-byte identifiers of the contracts whose events a
//! subscription matches.

use vstd::prelude::*;

verus! {

/// The bytes that `ethers::types::Address` reads out of a text, or `None`
/// where it reads no address out of it.
pub uninterp spec fn address_bytes(text: Seq<char>) -> Option<Seq<u8>>;

/// Calls the `FromStr` implementation of `ethers::types::Address` through
/// `str::parse`. The result is that implementation's reading of `text`: the
/// twenty bytes on success, `None` on any of its errors. What the reading is
/// for a given text is not stated here.
#[verifier::external_body]
fn read_address(text: &str) -> (bytes: Option<[u8; 20]>)
    ensures
        match bytes {
            Some(b) => address_bytes(text@) == Some(b@),
            None => address_bytes(text@) is None,
        },
{
    match text.parse::<ethers::types::Address>() {
        Ok(address) => Some(address.0),
        Err(_) => None,
    }
}

/// A source address. Its view is the sequence of its twenty bytes.
#[derive(Clone, Copy, Debug)]
pub struct Address {
    bytes: [u8; 20],
}

impl View for Address {
    type V = Seq<u8>;

    closed spec fn view(&self) -> Seq<u8> {
        self.bytes@
    }
}

impl Address {
    /// The address made of `bytes`.
    pub fn from_bytes(bytes: [u8; 20]) -> (address: Address)
        ensures
            address@ == bytes@,
            address@.len() == 20,
    {
        Address { bytes }
    }

    /// The bytes of the address.
    pub fn to_bytes(&self) -> (bytes: [u8; 20])
        ensures
            bytes@ == self@,
            self@.len() == 20,
    {
        self.bytes
    }

    /// Reads an address out of its hexadecimal text. The result is `Some`
    /// exactly where the text reads as an address.
    pub fn parse(text: &str) -> (address: Option<Address>)
        ensures
            match address {
                Some(a) => address_bytes(text@) == Some(a@),
                None => address_bytes(text@) is None,
            },
    {
        match read_address(text) {
            Some(bytes) => Some(Address { bytes }),
            None => None,
        }
    }

    /// Whether two addresses have the same bytes.
    pub fn same_as(&self, other: &Address) -> (same: bool)
        ensures
            same == (self@ == other@),
    {
        let mut i: usize = 0;
        while i < 20
            invariant
                i <= 20,
                forall|j: int| 0 <= j < i ==> self.bytes@[j] == other.bytes@[j],
            decreases 20 - i,
        {
            if self.bytes[i] != other.bytes[i] {
                return false;
            }
            i = i + 1;
        }
        assert(self.bytes@ =~= other.bytes@);
        true
    }
}

} // verus!
