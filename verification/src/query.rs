//! The read-only query surface: the events held, and the landing page.

use crate::buffer::EventBuffer;
use vstd::prelude::*;

verus! {

/// The landing page.
pub const LANDING_PAGE: &'static str = "<!DOCTYPE html>
        <html>
            <head>
                <title>Faraway NFT Events</title>
            </head>
            <body>
            <h3>Faraway NFT Events</h3>
            <p>Visit <a href=\"/events\">Events</a> to see the events.</p>
            </body>
        </html>";

/// The answer to a query for the events: the text of each record held, in
/// the order of the buffer.
pub struct EventsResponse {
    pub data: Vec<String>,
}

/// The events that `buffer` holds, oldest first, none left out and none
/// changed.
pub fn events(buffer: &EventBuffer) -> (response: EventsResponse)
    ensures
        response.data.deep_view() == buffer@,
{
    let records = buffer.snapshot();
    let mut data: Vec<String> = Vec::new();
    let mut i: usize = 0;
    while i < records.len()
        invariant
            i <= records@.len(),
            data@.len() == i,
            forall|j: int| 0 <= j < i ==> data@[j]@ == records@[j]@,
        decreases records@.len() - i,
    {
        data.push(records[i].as_str().to_owned());
        i = i + 1;
    }
    assert(data.deep_view() =~= crate::buffer::texts(records@));
    EventsResponse { data }
}

/// The landing page, which is the same at every call.
pub fn index() -> (page: &'static str)
    ensures
        page@ == LANDING_PAGE@,
{
    LANDING_PAGE
}

} // verus!
