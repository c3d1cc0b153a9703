//! Event records: one serialized upstream notification each.

use vstd::prelude::*;

verus! {

/// One upstream notification together with its delivery metadata, in
/// serialized form. A record is never changed after it was made.
pub struct EventRecord {
    text: String,
}

impl View for EventRecord {
    type V = Seq<char>;

    /// The serialized text of the record.
    closed spec fn view(&self) -> Seq<char> {
        self.text@
    }
}

impl DeepView for EventRecord {
    type V = Seq<char>;

    open spec fn deep_view(&self) -> Seq<char> {
        self@
    }
}

impl EventRecord {
    /// Makes a record of an already serialized notification.
    pub fn new(text: String) -> (record: EventRecord)
        ensures
            record@ == text@,
    {
        EventRecord { text }
    }

    /// The serialized text.
    pub fn as_str(&self) -> (text: &str)
        ensures
            text@ == self@,
    {
        self.text.as_str()
    }

    /// Gives the serialized text up.
    pub fn into_string(self) -> (text: String)
        ensures
            text@ == self@,
    {
        self.text
    }
}

impl Clone for EventRecord {
    fn clone(&self) -> (copy: EventRecord)
        ensures
            copy@ == self@,
    {
        EventRecord { text: self.text.clone() }
    }
}

} // verus!
