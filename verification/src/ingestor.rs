//! The ingest loop of one subscription, as a step function: the driver
//! awaits the feed and the cancellation signal, reports what woke it, and
//! does what the step answers.

use crate::buffer::{after_append, after_appends, lemma_appends_retain, retained, EventBuffer};
use crate::filter::SubscriptionFilter;
use crate::record::EventRecord;
use vstd::prelude::*;

verus! {

/// What is done with a notification that cannot be decoded.
#[derive(Clone, Copy, PartialEq, Eq, Structural, Debug)]
pub enum DecodePolicy {
    /// The notification is passed over and the loop goes on.
    Skip,
    /// The loop ends with a decode failure.
    Abort,
}

impl Default for DecodePolicy {
    /// Undecodable notifications are skipped unless asked otherwise.
    fn default() -> (policy: DecodePolicy)
        ensures
            policy == DecodePolicy::Skip,
    {
        DecodePolicy::Skip
    }
}

/// Why an ingest loop failed.
#[derive(Clone, Copy, PartialEq, Eq, Structural, Debug)]
pub enum IngestError {
    /// The subscription could not be established, or was lost.
    Connection,
    /// A notification could not be decoded, under `DecodePolicy::Abort`.
    Decode,
}

/// How an ingest loop ended.
#[derive(Clone, Copy, PartialEq, Eq, Structural, Debug)]
pub enum IngestOutcome {
    /// The cancellation signal was seen.
    Cancelled,
    /// The peer closed the subscription, or the bound on records was
    /// reached.
    Completed,
    /// The loop failed.
    Failed(IngestError),
}

/// Where an ingest loop stands.
#[derive(Clone, Copy, PartialEq, Eq, Structural, Debug)]
pub enum IngestPhase {
    /// The subscription is not established yet.
    Subscribing,
    /// The loop waits for the next notification.
    Receiving,
    /// The loop has ended.
    Stopped(IngestOutcome),
}

/// What the driver is to do next.
#[derive(Clone, Copy, PartialEq, Eq, Structural, Debug)]
pub enum IngestAction {
    /// Establish the subscription that the filter names, or see the
    /// cancellation signal, whichever comes first.
    Subscribe,
    /// Wait for the next notification or the cancellation signal.
    Receive,
    /// Leave the loop with this outcome.
    Stop(IngestOutcome),
}

/// What woke the driver.
pub enum FeedEvent {
    /// The cancellation signal is set.
    Cancelled,
    /// The subscription is established.
    Subscribed,
    /// The subscription could not be established.
    SubscribeFailed,
    /// A notification arrived and was decoded into this record.
    Notification(EventRecord),
    /// A notification arrived that could not be decoded.
    Undecodable,
    /// The peer closed the subscription.
    Closed,
    /// The peer closed the subscription and gave an error.
    ClosedWithError,
    /// The subscription delivered an error from which it does not recover.
    TransportError,
}

/// The state of an ingest loop as far as its decisions depend on it.
pub struct IngestState {
    pub phase: IngestPhase,
    /// How many more records the loop appends at most, where it is bounded.
    pub remaining: Option<nat>,
    pub policy: DecodePolicy,
}

/// What one step decides.
pub struct Decision {
    pub next: IngestState,
    pub action: IngestAction,
    /// The text of the record that the step appends to the buffer, if any.
    pub appended: Option<Seq<char>>,
}

/// The action on which a loop in `state` waits.
pub open spec fn awaited(state: IngestState) -> IngestAction {
    match state.phase {
        IngestPhase::Subscribing => IngestAction::Subscribe,
        IngestPhase::Receiving => IngestAction::Receive,
        IngestPhase::Stopped(outcome) => IngestAction::Stop(outcome),
    }
}

/// Nothing changes and the awaited action is asked for again.
pub open spec fn unmoved(state: IngestState) -> Decision {
    Decision { next: state, action: awaited(state), appended: None }
}

/// The loop ends with `outcome` and appends nothing.
pub open spec fn stopped(state: IngestState, outcome: IngestOutcome) -> Decision {
    Decision {
        next: IngestState { phase: IngestPhase::Stopped(outcome), ..state },
        action: IngestAction::Stop(outcome),
        appended: None,
    }
}

/// The state of a loop that has appended one more record: the record counts
/// against the bound, and the loop completes where it was the last one
/// allowed.
pub open spec fn counted(state: IngestState) -> IngestState {
    match state.remaining {
        Some(n) => if n <= 1 {
            IngestState {
                phase: IngestPhase::Stopped(IngestOutcome::Completed),
                remaining: Some(0),
                policy: state.policy,
            }
        } else {
            IngestState { remaining: Some((n - 1) as nat), ..state }
        },
        None => state,
    }
}

/// The record with text `text` is appended and counted.
pub open spec fn appended_one(state: IngestState, text: Seq<char>) -> Decision {
    Decision { next: counted(state), action: awaited(counted(state)), appended: Some(text) }
}

/// The step of an ingest loop: what follows in `state` on `event`.
pub open spec fn decide(state: IngestState, event: FeedEvent) -> Decision {
    match state.phase {
        IngestPhase::Stopped(_) => unmoved(state),
        IngestPhase::Subscribing => match event {
            FeedEvent::Cancelled => stopped(state, IngestOutcome::Cancelled),
            FeedEvent::SubscribeFailed => stopped(
                state,
                IngestOutcome::Failed(IngestError::Connection),
            ),
            FeedEvent::Subscribed => if state.remaining == Some(0nat) {
                stopped(state, IngestOutcome::Completed)
            } else {
                Decision {
                    next: IngestState { phase: IngestPhase::Receiving, ..state },
                    action: IngestAction::Receive,
                    appended: None,
                }
            },
            _ => unmoved(state),
        },
        IngestPhase::Receiving => match event {
            FeedEvent::Cancelled => stopped(state, IngestOutcome::Cancelled),
            FeedEvent::Notification(record) => appended_one(state, record@),
            FeedEvent::Undecodable => match state.policy {
                DecodePolicy::Skip => unmoved(state),
                DecodePolicy::Abort => stopped(state, IngestOutcome::Failed(IngestError::Decode)),
            },
            FeedEvent::Closed => stopped(state, IngestOutcome::Completed),
            FeedEvent::ClosedWithError => stopped(
                state,
                IngestOutcome::Failed(IngestError::Connection),
            ),
            FeedEvent::TransportError => stopped(
                state,
                IngestOutcome::Failed(IngestError::Connection),
            ),
            _ => unmoved(state),
        },
    }
}

/// What a buffer with `contents` and `capacity` holds after a step that
/// appended `appended`.
pub open spec fn buffer_after(
    contents: Seq<Seq<char>>,
    capacity: nat,
    appended: Option<Seq<char>>,
) -> Seq<Seq<char>> {
    match appended {
        Some(text) => after_append(contents, text, capacity),
        None => contents,
    }
}

/// The ingest loop of one subscription. It owns its filter, which never
/// changes.
pub struct StreamIngestor {
    filter: SubscriptionFilter,
    policy: DecodePolicy,
    remaining: Option<usize>,
    phase: IngestPhase,
}

impl View for StreamIngestor {
    type V = IngestState;

    closed spec fn view(&self) -> IngestState {
        IngestState {
            phase: self.phase,
            remaining: match self.remaining {
                Some(n) => Some(n as nat),
                None => None,
            },
            policy: self.policy,
        }
    }
}

impl StreamIngestor {
    /// The filter of the subscription.
    pub closed spec fn spec_filter(&self) -> SubscriptionFilter {
        self.filter
    }

    /// An ingest loop for `filter` that has not subscribed yet. With a
    /// `limit` it appends at most that many records; without one it runs
    /// until it is cancelled or its subscription ends.
    pub fn new(filter: SubscriptionFilter, limit: Option<usize>, policy: DecodePolicy) -> (ingestor:
        StreamIngestor)
        ensures
            ingestor.spec_filter() == filter,
            ingestor@ == (IngestState {
                phase: IngestPhase::Subscribing,
                remaining: match limit {
                    Some(n) => Some(n as nat),
                    None => None,
                },
                policy,
            }),
    {
        StreamIngestor { filter, policy, remaining: limit, phase: IngestPhase::Subscribing }
    }

    /// The filter of the subscription.
    pub fn filter(&self) -> (filter: &SubscriptionFilter)
        ensures
            *filter == self.spec_filter(),
    {
        &self.filter
    }

    /// Where the loop stands.
    pub fn phase(&self) -> (phase: IngestPhase)
        ensures
            phase == self@.phase,
    {
        self.phase
    }

    /// How many more records the loop appends at most, where it is
    /// bounded.
    pub fn remaining(&self) -> (remaining: Option<usize>)
        ensures
            match remaining {
                Some(n) => self@.remaining == Some(n as nat),
                None => self@.remaining is None,
            },
    {
        self.remaining
    }

    /// The action on which the loop waits.
    pub fn pending(&self) -> (action: IngestAction)
        ensures
            action == awaited(self@),
    {
        match self.phase {
            IngestPhase::Subscribing => IngestAction::Subscribe,
            IngestPhase::Receiving => IngestAction::Receive,
            IngestPhase::Stopped(outcome) => IngestAction::Stop(outcome),
        }
    }

    /// How the loop ended, once it has.
    pub fn outcome(&self) -> (outcome: Option<IngestOutcome>)
        ensures
            outcome == match self@.phase {
                IngestPhase::Stopped(o) => Some(o),
                _ => None::<IngestOutcome>,
            },
    {
        match self.phase {
            IngestPhase::Stopped(outcome) => Some(outcome),
            _ => None,
        }
    }

    /// Takes one event: moves the loop as `decide` says, appends to
    /// `buffer` the record that `decide` names, and answers with the action
    /// for the driver.
    pub fn step(&mut self, event: FeedEvent, buffer: &mut EventBuffer) -> (action: IngestAction)
        ensures
            final(self).spec_filter() == old(self).spec_filter(),
            final(self)@ == decide(old(self)@, event).next,
            action == decide(old(self)@, event).action,
            final(buffer).spec_capacity() == old(buffer).spec_capacity(),
            final(buffer)@ == buffer_after(
                old(buffer)@,
                old(buffer).spec_capacity() as nat,
                decide(old(self)@, event).appended,
            ),
    {
        match self.phase {
            IngestPhase::Stopped(outcome) => IngestAction::Stop(outcome),
            IngestPhase::Subscribing => match event {
                FeedEvent::Cancelled => self.stop(IngestOutcome::Cancelled),
                FeedEvent::SubscribeFailed => self.stop(
                    IngestOutcome::Failed(IngestError::Connection),
                ),
                FeedEvent::Subscribed => match self.remaining {
                    Some(0) => self.stop(IngestOutcome::Completed),
                    _ => {
                        self.phase = IngestPhase::Receiving;
                        IngestAction::Receive
                    },
                },
                _ => IngestAction::Subscribe,
            },
            IngestPhase::Receiving => match event {
                FeedEvent::Cancelled => self.stop(IngestOutcome::Cancelled),
                FeedEvent::Notification(record) => {
                    buffer.append(record);
                    self.count_one()
                },
                FeedEvent::Undecodable => match self.policy {
                    DecodePolicy::Skip => IngestAction::Receive,
                    DecodePolicy::Abort => self.stop(IngestOutcome::Failed(IngestError::Decode)),
                },
                FeedEvent::Closed => self.stop(IngestOutcome::Completed),
                FeedEvent::ClosedWithError => self.stop(
                    IngestOutcome::Failed(IngestError::Connection),
                ),
                FeedEvent::TransportError => self.stop(
                    IngestOutcome::Failed(IngestError::Connection),
                ),
                _ => IngestAction::Receive,
            },
        }
    }

    /// Ends the loop with `outcome`.
    fn stop(&mut self, outcome: IngestOutcome) -> (action: IngestAction)
        ensures
            final(self).spec_filter() == old(self).spec_filter(),
            final(self)@ == stopped(old(self)@, outcome).next,
            action == IngestAction::Stop(outcome),
    {
        self.phase = IngestPhase::Stopped(outcome);
        IngestAction::Stop(outcome)
    }

    /// Counts one appended record against the bound.
    fn count_one(&mut self) -> (action: IngestAction)
        requires
            old(self)@.phase is Receiving,
        ensures
            final(self).spec_filter() == old(self).spec_filter(),
            final(self)@ == counted(old(self)@),
            action == awaited(counted(old(self)@)),
    {
        match self.remaining {
            Some(n) => if n <= 1 {
                self.remaining = Some(0);
                self.phase = IngestPhase::Stopped(IngestOutcome::Completed);
                IngestAction::Stop(IngestOutcome::Completed)
            } else {
                self.remaining = Some(n - 1);
                IngestAction::Receive
            },
            None => IngestAction::Receive,
        }
    }
}

/// The state of a loop that started in `state` and took `events` in turn.
pub open spec fn state_after(state: IngestState, events: Seq<FeedEvent>) -> IngestState
    decreases events.len(),
{
    if events.len() == 0 {
        state
    } else {
        decide(state_after(state, events.drop_last()), events.last()).next
    }
}

/// The texts that a loop that started in `state` appended while it took
/// `events` in turn, in the order in which it appended them.
pub open spec fn appended_by(state: IngestState, events: Seq<FeedEvent>) -> Seq<Seq<char>>
    decreases events.len(),
{
    if events.len() == 0 {
        Seq::empty()
    } else {
        let before = appended_by(state, events.drop_last());
        match decide(state_after(state, events.drop_last()), events.last()).appended {
            Some(text) => before.push(text),
            None => before,
        }
    }
}

/// The texts of the notifications among `events` that were decoded, in the
/// order in which the feed delivered them.
pub open spec fn delivered(events: Seq<FeedEvent>) -> Seq<Seq<char>>
    decreases events.len(),
{
    if events.len() == 0 {
        Seq::empty()
    } else {
        let before = delivered(events.drop_last());
        match events.last() {
            FeedEvent::Notification(record) => before.push(record@),
            _ => before,
        }
    }
}

/// What a buffer with `contents` and `capacity` holds after a loop that
/// started in `state` took `events` in turn, each step appending to it.
pub open spec fn buffer_through(
    contents: Seq<Seq<char>>,
    capacity: nat,
    state: IngestState,
    events: Seq<FeedEvent>,
) -> Seq<Seq<char>>
    decreases events.len(),
{
    if events.len() == 0 {
        contents
    } else {
        buffer_after(
            buffer_through(contents, capacity, state, events.drop_last()),
            capacity,
            decide(state_after(state, events.drop_last()), events.last()).appended,
        )
    }
}

/// A loop run alone on a buffer leaves in it what the buffer held, followed
/// by what the loop appended, cut to the last `capacity` records.
pub proof fn law_run_fills_buffer(
    contents: Seq<Seq<char>>,
    capacity: nat,
    state: IngestState,
    events: Seq<FeedEvent>,
)
    requires
        contents.len() <= capacity,
    ensures
        buffer_through(contents, capacity, state, events) == retained(
            contents + appended_by(state, events),
            capacity,
        ),
{
    lemma_run_appends(contents, capacity, state, events);
    lemma_appends_retain(contents, appended_by(state, events), capacity);
}

/// The steps of a run append to the buffer, one by one, what the run
/// appended.
proof fn lemma_run_appends(
    contents: Seq<Seq<char>>,
    capacity: nat,
    state: IngestState,
    events: Seq<FeedEvent>,
)
    ensures
        buffer_through(contents, capacity, state, events) == after_appends(
            contents,
            appended_by(state, events),
            capacity,
        ),
    decreases events.len(),
{
    if events.len() > 0 {
        let front = events.drop_last();
        lemma_run_appends(contents, capacity, state, front);
        match decide(state_after(state, front), events.last()).appended {
            Some(text) => {
                assert(appended_by(state, front).push(text).drop_last() =~= appended_by(
                    state,
                    front,
                ));
            },
            None => {},
        }
    }
}

/// A loop that sees the cancellation signal ends in that very step and
/// appends nothing in it; where it had not ended before, it ends as
/// cancelled.
pub proof fn law_cancellation_stops(state: IngestState)
    ensures
        decide(state, FeedEvent::Cancelled).next.phase is Stopped,
        decide(state, FeedEvent::Cancelled).action is Stop,
        decide(state, FeedEvent::Cancelled).appended is None,
        !(state.phase is Stopped) ==> decide(state, FeedEvent::Cancelled).action
            == IngestAction::Stop(IngestOutcome::Cancelled),
{
}

/// A loop that has ended stays as it is whatever it is told: it appends
/// nothing more and answers with the outcome with which it ended.
pub proof fn law_stopped_is_final(state: IngestState, event: FeedEvent)
    requires
        state.phase is Stopped,
    ensures
        decide(state, event).next == state,
        decide(state, event).appended is None,
        decide(state, event).action == IngestAction::Stop(state.phase->Stopped_0),
{
}

/// Once a loop has ended, no further events make it append anything.
pub proof fn law_nothing_after_stop(state: IngestState, events: Seq<FeedEvent>)
    requires
        state.phase is Stopped,
    ensures
        state_after(state, events) == state,
        appended_by(state, events) == Seq::<Seq<char>>::empty(),
    decreases events.len(),
{
    if events.len() > 0 {
        law_nothing_after_stop(state, events.drop_last());
    }
}

/// Taking `earlier` and then `later` is taking them one after the other.
pub proof fn lemma_run_split(state: IngestState, earlier: Seq<FeedEvent>, later: Seq<FeedEvent>)
    ensures
        state_after(state, earlier + later) == state_after(state_after(state, earlier), later),
        appended_by(state, earlier + later) == appended_by(state, earlier) + appended_by(
            state_after(state, earlier),
            later,
        ),
    decreases later.len(),
{
    let middle = state_after(state, earlier);
    if later.len() == 0 {
        assert(earlier + later =~= earlier);
        assert(appended_by(state, earlier) + appended_by(middle, later) =~= appended_by(
            state,
            earlier,
        ));
    } else {
        lemma_run_split(state, earlier, later.drop_last());
        assert((earlier + later).drop_last() =~= earlier + later.drop_last());
        assert((earlier + later).last() == later.last());
        let before = appended_by(middle, later.drop_last());
        match decide(state_after(middle, later.drop_last()), later.last()).appended {
            Some(text) => {
                assert((appended_by(state, earlier) + before).push(text) =~= appended_by(
                    state,
                    earlier,
                ) + before.push(text));
            },
            None => {},
        }
    }
}

/// Once the cancellation signal was seen, whatever follows, the loop has
/// ended and has appended no more than it had before the signal.
pub proof fn law_no_append_after_cancellation(
    state: IngestState,
    earlier: Seq<FeedEvent>,
    later: Seq<FeedEvent>,
)
    ensures
        state_after(state, earlier.push(FeedEvent::Cancelled) + later).phase is Stopped,
        appended_by(state, earlier.push(FeedEvent::Cancelled) + later) == appended_by(
            state,
            earlier,
        ),
{
    let upto = earlier.push(FeedEvent::Cancelled);
    assert(upto.drop_last() =~= earlier);
    assert(upto.last() == FeedEvent::Cancelled);
    law_cancellation_stops(state_after(state, earlier));
    lemma_run_split(state, upto, later);
    law_nothing_after_stop(state_after(state, upto), later);
    assert(appended_by(state, upto) + Seq::<Seq<char>>::empty() =~= appended_by(state, upto));
}

/// A receiving loop appends the decoded notifications in the order in which
/// its feed delivered them, each once, up to the one at which it ended:
/// what it appended is the beginning of what was delivered.
pub proof fn law_stream_order_kept(state: IngestState, events: Seq<FeedEvent>)
    requires
        !(state.phase is Subscribing),
    ensures
        !(state_after(state, events).phase is Subscribing),
        appended_by(state, events).len() <= delivered(events).len(),
        appended_by(state, events) == delivered(events).subrange(
            0,
            appended_by(state, events).len() as int,
        ),
        state_after(state, events).phase is Receiving ==> appended_by(state, events) == delivered(
            events,
        ),
    decreases events.len(),
{
    if events.len() == 0 {
        assert(appended_by(state, events) =~= delivered(events).subrange(0, 0));
    } else {
        let front = events.drop_last();
        law_stream_order_kept(state, front);
        let before = appended_by(state, front);
        let middle = state_after(state, front);
        assert(appended_by(state, events) =~= delivered(events).subrange(
            0,
            appended_by(state, events).len() as int,
        ));
    }
}

/// A loop bounded at `limit` appends at most `limit` records, and while it
/// receives, what it has appended and what it may still append make up
/// `limit`.
pub proof fn law_bound_respected(state: IngestState, events: Seq<FeedEvent>, limit: nat)
    requires
        state.phase is Subscribing,
        state.remaining == Some(limit),
    ensures
        appended_by(state, events).len() <= limit,
        match state_after(state, events).phase {
            IngestPhase::Subscribing => appended_by(state, events).len() == 0 && state_after(
                state,
                events,
            ).remaining == Some(limit),
            IngestPhase::Receiving => state_after(state, events).remaining matches Some(left)
                && left >= 1 && appended_by(state, events).len() + left == limit,
            IngestPhase::Stopped(_) => true,
        },
    decreases events.len(),
{
    if events.len() > 0 {
        law_bound_respected(state, events.drop_last(), limit);
    }
}

} // verus!
