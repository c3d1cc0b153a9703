use event_relay::address::Address;
use event_relay::buffer::EventBuffer;
use event_relay::filter::SubscriptionFilter;
use event_relay::ingestor::{
    DecodePolicy, FeedEvent, IngestAction, IngestError, IngestOutcome, IngestPhase, StreamIngestor,
};
use event_relay::record::EventRecord;

fn filter() -> SubscriptionFilter {
    SubscriptionFilter::new("TokenMinted".to_string(), 8_450_915, vec![Address::from_bytes([7u8; 20])])
}

fn ingestor(limit: Option<usize>, policy: DecodePolicy) -> StreamIngestor {
    StreamIngestor::new(filter(), limit, policy)
}

fn receiving(limit: Option<usize>, policy: DecodePolicy, buffer: &mut EventBuffer) -> StreamIngestor {
    let mut made = ingestor(limit, policy);
    assert_eq!(made.step(FeedEvent::Subscribed, buffer), IngestAction::Receive);
    made
}

fn notification(text: &str) -> FeedEvent {
    FeedEvent::Notification(EventRecord::new(text.to_string()))
}

fn held(buffer: &EventBuffer) -> Vec<String> {
    buffer.snapshot().into_iter().map(|r| r.into_string()).collect()
}

#[test]
fn a_new_loop_waits_to_subscribe() {
    let made = ingestor(None, DecodePolicy::Skip);
    assert_eq!(made.phase(), IngestPhase::Subscribing);
    assert_eq!(made.pending(), IngestAction::Subscribe);
    assert_eq!(made.outcome(), None);
    assert_eq!(made.filter().event_type(), "TokenMinted");
    assert_eq!(made.filter().starting_offset(), 8_450_915);
    assert_eq!(made.filter().addresses().len(), 1);
}

#[test]
fn a_subscribed_loop_receives() {
    let mut buffer = EventBuffer::new(4);
    let made = receiving(None, DecodePolicy::Skip, &mut buffer);
    assert_eq!(made.phase(), IngestPhase::Receiving);
    assert_eq!(made.pending(), IngestAction::Receive);
    assert!(buffer.is_empty());
}

#[test]
fn a_failed_subscription_ends_the_loop_with_a_connection_failure() {
    let mut buffer = EventBuffer::new(4);
    let mut made = ingestor(None, DecodePolicy::Skip);
    let failed = IngestOutcome::Failed(IngestError::Connection);
    assert_eq!(made.step(FeedEvent::SubscribeFailed, &mut buffer), IngestAction::Stop(failed));
    assert_eq!(made.outcome(), Some(failed));
    assert!(buffer.is_empty());
}

#[test]
fn notifications_are_appended_in_the_order_of_delivery() {
    let mut buffer = EventBuffer::new(10);
    let mut made = receiving(None, DecodePolicy::Skip, &mut buffer);
    for text in ["n1", "n2", "n3"] {
        assert_eq!(made.step(notification(text), &mut buffer), IngestAction::Receive);
    }
    assert_eq!(held(&buffer), vec!["n1", "n2", "n3"]);
    assert_eq!(made.phase(), IngestPhase::Receiving);
}

#[test]
fn appends_through_a_loop_evict_the_oldest() {
    let mut buffer = EventBuffer::new(2);
    let mut made = receiving(None, DecodePolicy::Skip, &mut buffer);
    for text in ["n1", "n2", "n3"] {
        made.step(notification(text), &mut buffer);
    }
    assert_eq!(held(&buffer), vec!["n2", "n3"]);
}

#[test]
fn cancellation_ends_a_receiving_loop_at_once() {
    let mut buffer = EventBuffer::new(4);
    let mut made = receiving(None, DecodePolicy::Skip, &mut buffer);
    made.step(notification("before"), &mut buffer);
    let cancelled = IngestAction::Stop(IngestOutcome::Cancelled);
    assert_eq!(made.step(FeedEvent::Cancelled, &mut buffer), cancelled);
    assert_eq!(made.phase(), IngestPhase::Stopped(IngestOutcome::Cancelled));
    assert_eq!(made.step(notification("after"), &mut buffer), cancelled);
    assert_eq!(held(&buffer), vec!["before"]);
}

#[test]
fn cancellation_ends_a_loop_that_has_not_subscribed_yet() {
    let mut buffer = EventBuffer::new(4);
    let mut made = ingestor(Some(3), DecodePolicy::Abort);
    let cancelled = IngestAction::Stop(IngestOutcome::Cancelled);
    assert_eq!(made.step(FeedEvent::Cancelled, &mut buffer), cancelled);
    assert_eq!(made.step(FeedEvent::Subscribed, &mut buffer), cancelled);
    assert_eq!(made.outcome(), Some(IngestOutcome::Cancelled));
}

#[test]
fn a_close_by_the_peer_completes_the_loop() {
    let mut buffer = EventBuffer::new(4);
    let mut made = receiving(None, DecodePolicy::Skip, &mut buffer);
    let completed = IngestAction::Stop(IngestOutcome::Completed);
    assert_eq!(made.step(FeedEvent::Closed, &mut buffer), completed);
    assert_eq!(made.outcome(), Some(IngestOutcome::Completed));
}

#[test]
fn a_close_with_an_error_fails_the_loop() {
    let mut buffer = EventBuffer::new(4);
    let mut made = receiving(None, DecodePolicy::Skip, &mut buffer);
    let failed = IngestOutcome::Failed(IngestError::Connection);
    assert_eq!(made.step(FeedEvent::ClosedWithError, &mut buffer), IngestAction::Stop(failed));
    assert_eq!(made.outcome(), Some(failed));
}

#[test]
fn a_transport_error_fails_the_loop() {
    let mut buffer = EventBuffer::new(4);
    let mut made = receiving(None, DecodePolicy::Skip, &mut buffer);
    made.step(notification("kept"), &mut buffer);
    let failed = IngestOutcome::Failed(IngestError::Connection);
    assert_eq!(made.step(FeedEvent::TransportError, &mut buffer), IngestAction::Stop(failed));
    assert_eq!(held(&buffer), vec!["kept"]);
}

#[test]
fn an_undecodable_notification_is_skipped_by_default_policy() {
    let mut buffer = EventBuffer::new(4);
    let mut made = receiving(None, DecodePolicy::Skip, &mut buffer);
    made.step(notification("a"), &mut buffer);
    assert_eq!(made.step(FeedEvent::Undecodable, &mut buffer), IngestAction::Receive);
    assert_eq!(made.phase(), IngestPhase::Receiving);
    made.step(notification("b"), &mut buffer);
    assert_eq!(held(&buffer), vec!["a", "b"]);
}

#[test]
fn an_undecodable_notification_ends_the_loop_under_the_abort_policy() {
    let mut buffer = EventBuffer::new(4);
    let mut made = receiving(None, DecodePolicy::Abort, &mut buffer);
    made.step(notification("a"), &mut buffer);
    let failed = IngestOutcome::Failed(IngestError::Decode);
    assert_eq!(made.step(FeedEvent::Undecodable, &mut buffer), IngestAction::Stop(failed));
    assert_eq!(made.step(notification("b"), &mut buffer), IngestAction::Stop(failed));
    assert_eq!(held(&buffer), vec!["a"]);
}

#[test]
fn a_bounded_loop_completes_with_its_last_notification() {
    let mut buffer = EventBuffer::new(10);
    let mut made = receiving(Some(3), DecodePolicy::Skip, &mut buffer);
    assert_eq!(made.step(notification("1"), &mut buffer), IngestAction::Receive);
    assert_eq!(made.step(notification("2"), &mut buffer), IngestAction::Receive);
    let completed = IngestAction::Stop(IngestOutcome::Completed);
    assert_eq!(made.step(notification("3"), &mut buffer), completed);
    assert_eq!(made.step(notification("4"), &mut buffer), completed);
    assert_eq!(held(&buffer), vec!["1", "2", "3"]);
}

#[test]
fn a_loop_bounded_at_one_takes_a_single_notification() {
    let mut buffer = EventBuffer::new(10);
    let mut made = receiving(Some(1), DecodePolicy::Skip, &mut buffer);
    let completed = IngestAction::Stop(IngestOutcome::Completed);
    assert_eq!(made.step(notification("only"), &mut buffer), completed);
    assert_eq!(held(&buffer), vec!["only"]);
}

#[test]
fn a_loop_bounded_at_zero_completes_once_subscribed() {
    let mut buffer = EventBuffer::new(10);
    let mut made = ingestor(Some(0), DecodePolicy::Skip);
    let completed = IngestAction::Stop(IngestOutcome::Completed);
    assert_eq!(made.step(FeedEvent::Subscribed, &mut buffer), completed);
    assert_eq!(made.step(notification("none"), &mut buffer), completed);
    assert!(buffer.is_empty());
}

#[test]
fn skipped_notifications_do_not_count_against_the_bound() {
    let mut buffer = EventBuffer::new(10);
    let mut made = receiving(Some(2), DecodePolicy::Skip, &mut buffer);
    assert_eq!(made.step(FeedEvent::Undecodable, &mut buffer), IngestAction::Receive);
    assert_eq!(made.remaining(), Some(2));
    assert_eq!(made.step(notification("first"), &mut buffer), IngestAction::Receive);
    assert_eq!(made.remaining(), Some(1));
    assert_eq!(made.step(FeedEvent::Undecodable, &mut buffer), IngestAction::Receive);
    let completed = IngestAction::Stop(IngestOutcome::Completed);
    assert_eq!(made.step(notification("second"), &mut buffer), completed);
    assert_eq!(made.remaining(), Some(0));
    assert_eq!(held(&buffer), vec!["first", "second"]);
}

#[test]
fn the_bound_is_kept_as_given_until_records_arrive() {
    assert_eq!(ingestor(None, DecodePolicy::Skip).remaining(), None);
    assert_eq!(ingestor(Some(7), DecodePolicy::Skip).remaining(), Some(7));
    let mut buffer = EventBuffer::new(1);
    let mut made = receiving(None, DecodePolicy::Skip, &mut buffer);
    made.step(notification("x"), &mut buffer);
    assert_eq!(made.remaining(), None);
}

#[test]
fn undecodable_notifications_are_skipped_unless_asked_otherwise() {
    assert_eq!(DecodePolicy::default(), DecodePolicy::Skip);
}

#[test]
fn an_unbounded_loop_goes_on_receiving() {
    let mut buffer = EventBuffer::new(3);
    let mut made = receiving(None, DecodePolicy::Skip, &mut buffer);
    for i in 0..1000 {
        assert_eq!(made.step(notification(&format!("{i}")), &mut buffer), IngestAction::Receive);
    }
    assert_eq!(held(&buffer), vec!["997", "998", "999"]);
}

#[test]
fn a_very_large_bound_does_not_end_the_loop_early() {
    let mut buffer = EventBuffer::new(1);
    let mut made = receiving(Some(usize::MAX), DecodePolicy::Skip, &mut buffer);
    for _ in 0..10 {
        assert_eq!(made.step(notification("x"), &mut buffer), IngestAction::Receive);
    }
}

#[test]
fn events_out_of_place_change_nothing() {
    let mut buffer = EventBuffer::new(4);
    let mut made = ingestor(None, DecodePolicy::Abort);
    assert_eq!(made.step(notification("early"), &mut buffer), IngestAction::Subscribe);
    assert_eq!(made.step(FeedEvent::Undecodable, &mut buffer), IngestAction::Subscribe);
    assert_eq!(made.step(FeedEvent::Closed, &mut buffer), IngestAction::Subscribe);
    assert_eq!(made.step(FeedEvent::ClosedWithError, &mut buffer), IngestAction::Subscribe);
    assert_eq!(made.step(FeedEvent::TransportError, &mut buffer), IngestAction::Subscribe);
    assert_eq!(made.phase(), IngestPhase::Subscribing);
    assert!(buffer.is_empty());
    assert_eq!(made.step(FeedEvent::Subscribed, &mut buffer), IngestAction::Receive);
    assert_eq!(made.step(FeedEvent::Subscribed, &mut buffer), IngestAction::Receive);
    assert_eq!(made.step(FeedEvent::SubscribeFailed, &mut buffer), IngestAction::Receive);
    assert_eq!(made.phase(), IngestPhase::Receiving);
}

#[test]
fn a_stopped_loop_answers_every_event_with_its_outcome() {
    let mut buffer = EventBuffer::new(4);
    let mut made = receiving(None, DecodePolicy::Skip, &mut buffer);
    made.step(notification("kept"), &mut buffer);
    made.step(FeedEvent::Closed, &mut buffer);
    let completed = IngestAction::Stop(IngestOutcome::Completed);
    assert_eq!(made.pending(), completed);
    assert_eq!(made.step(FeedEvent::Cancelled, &mut buffer), completed);
    assert_eq!(made.step(FeedEvent::Subscribed, &mut buffer), completed);
    assert_eq!(made.step(FeedEvent::SubscribeFailed, &mut buffer), completed);
    assert_eq!(made.step(notification("late"), &mut buffer), completed);
    assert_eq!(made.step(FeedEvent::Undecodable, &mut buffer), completed);
    assert_eq!(made.step(FeedEvent::Closed, &mut buffer), completed);
    assert_eq!(made.step(FeedEvent::ClosedWithError, &mut buffer), completed);
    assert_eq!(made.step(FeedEvent::TransportError, &mut buffer), completed);
    assert_eq!(made.outcome(), Some(IngestOutcome::Completed));
    assert_eq!(held(&buffer), vec!["kept"]);
}

#[test]
fn two_loops_share_one_buffer() {
    let mut buffer = EventBuffer::new(3);
    let mut a = receiving(None, DecodePolicy::Skip, &mut buffer);
    let mut b = receiving(Some(2), DecodePolicy::Skip, &mut buffer);
    a.step(notification("A1"), &mut buffer);
    b.step(notification("B1"), &mut buffer);
    a.step(notification("A2"), &mut buffer);
    b.step(notification("B2"), &mut buffer);
    b.step(notification("B3"), &mut buffer);
    a.step(notification("A3"), &mut buffer);
    assert_eq!(held(&buffer), vec!["A2", "B2", "A3"]);
    assert_eq!(b.outcome(), Some(IngestOutcome::Completed));
    assert_eq!(a.outcome(), None);
}
