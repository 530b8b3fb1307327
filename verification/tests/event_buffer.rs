use qmp_mcp::instance::event_buffer::{
    EventBuffer, ReadResult, WaitForEventOptions, WaitForEventResult, WaitOutcome,
    DEFAULT_EVENT_BUFFER_SIZE,
};
use qmp_mcp::qemu::qmp_client::QmpEvent;

fn ev(name: &str) -> QmpEvent {
    QmpEvent {
        event: name.to_string(),
        data: None,
        timestamp: None,
    }
}

fn ev_data(name: &str, data: &str) -> QmpEvent {
    QmpEvent {
        event: name.to_string(),
        data: Some(data.to_string()),
        timestamp: None,
    }
}

fn options(event_name: Option<&str>, timeout_ms: u64, since_cursor: Option<u64>) -> WaitForEventOptions {
    WaitForEventOptions {
        event_name: event_name.map(String::from),
        timeout_ms,
        since_cursor,
    }
}

/// The number of a wait that has to wait.
fn waiting(buf: &mut EventBuffer, opts: WaitForEventOptions) -> u64 {
    match buf.wait_for(opts) {
        WaitOutcome::Waiting(id) => id,
        WaitOutcome::Settled(_) => panic!("the wait is settled already"),
    }
}

fn settled(buf: &mut EventBuffer, opts: WaitForEventOptions) -> WaitForEventResult {
    match buf.wait_for(opts) {
        WaitOutcome::Settled(result) => result,
        WaitOutcome::Waiting(_) => panic!("the wait is not settled"),
    }
}

fn names(read: &ReadResult) -> Vec<&str> {
    read.events.iter().map(|e| e.event.as_str()).collect()
}

#[test]
fn defaults_constant_matches_the_config_default() {
    assert_eq!(DEFAULT_EVENT_BUFFER_SIZE, 256);
}

#[test]
fn stamps_events_with_a_monotonic_seq_oldest_first() {
    let mut buf = EventBuffer::new(8);
    buf.append(ev("STOP"));
    buf.append(ev_data("RESET", r#"{"foo":1}"#));

    let read = buf.read(None);
    assert_eq!(names(&read), ["STOP", "RESET"]);
    assert_eq!(read.events.iter().map(|e| e.seq).collect::<Vec<_>>(), [1, 2]);
    assert_eq!(read.events[1].data, Some(r#"{"foo":1}"#.to_string()));
    assert_eq!(read.cursor, 2);
}

#[test]
fn pages_from_a_cursor_returning_only_newer_events() {
    let mut buf = EventBuffer::new(8);
    buf.append(ev("A"));
    buf.append(ev("B"));
    let first = buf.read(None);
    assert_eq!(names(&first), ["A", "B"]);

    buf.append(ev("C"));
    let next = buf.read(Some(first.cursor));
    assert_eq!(names(&next), ["C"]);
    assert_eq!(next.cursor, 3);

    assert!(buf.read(Some(next.cursor)).events.is_empty());
}

#[test]
fn is_bounded_evicting_the_oldest_fifo_past_capacity() {
    let mut buf = EventBuffer::new(3);
    for name in ["e1", "e2", "e3", "e4", "e5"] {
        buf.append(ev(name));
    }

    let read = buf.read(None);
    assert_eq!(names(&read), ["e3", "e4", "e5"]);
    assert_eq!(buf.size(), 3);
    assert_eq!(buf.capacity(), 3);
    assert_eq!(read.events.iter().map(|e| e.seq).collect::<Vec<_>>(), [3, 4, 5]);
    assert_eq!(read.cursor, 5);
}

#[test]
fn overflow_leaves_a_visible_gap_the_cursor_exposes() {
    let mut buf = EventBuffer::new(2);
    for name in ["a", "b", "c", "d"] {
        buf.append(ev(name));
    }
    let result = buf.read(Some(1));
    assert_eq!(
        result.events.iter().map(|e| e.seq).collect::<Vec<_>>(),
        [3, 4]
    );
    assert_eq!(result.events.first().unwrap().seq, 3);
    assert_eq!(result.cursor, 4);
}

#[test]
fn wait_for_resolves_on_a_future_matching_filtered_event() {
    let mut buf = EventBuffer::new(8);
    let pending = waiting(&mut buf, options(Some("SHUTDOWN"), 1000, None));
    assert!(buf.append(ev("STOP")).woken.is_empty());
    let appended = buf.append(ev_data("SHUTDOWN", r#"{"guest":true}"#));
    assert_eq!(appended.woken, vec![pending]);

    let result = WaitForEventResult::matched(&appended.event);
    assert!(!result.timed_out);
    let event = result.event.expect("a matching event");
    assert_eq!(event.event, "SHUTDOWN");
    assert_eq!(event.data, Some(r#"{"guest":true}"#.to_string()));
    assert_eq!(result.cursor, event.seq);
}

#[test]
fn an_unfiltered_wait_resolves_on_any_event() {
    let mut buf = EventBuffer::new(8);
    let pending = waiting(&mut buf, options(None, 1000, None));
    let appended = buf.append(ev("RESET"));
    assert_eq!(appended.woken, vec![pending]);
    let result = WaitForEventResult::matched(&appended.event);
    assert!(!result.timed_out);
    assert_eq!(result.event.unwrap().event, "RESET");
}

#[test]
fn times_out_cleanly_when_no_matching_event_arrives() {
    let mut buf = EventBuffer::new(8);
    let pending = waiting(&mut buf, options(Some("SHUTDOWN"), 20, None));
    assert!(buf.append(ev("STOP")).woken.is_empty());
    let result = buf.expire(pending);
    assert!(result.timed_out);
    assert!(result.event.is_none());
    assert_eq!(result.cursor, 1);
    assert!(buf.append(ev("SHUTDOWN")).woken.is_empty());
}

#[test]
fn zero_timeout_polls_without_blocking_reporting_a_clean_timeout() {
    let mut buf = EventBuffer::new(8);
    let result = settled(&mut buf, options(None, 0, None));
    assert!(result.timed_out);
}

#[test]
fn wakes_every_matching_waiter_on_a_single_event() {
    let mut buf = EventBuffer::new(8);
    let a = waiting(&mut buf, options(Some("SHUTDOWN"), 1000, None));
    let b = waiting(&mut buf, options(None, 1000, None));
    let other = waiting(&mut buf, options(Some("STOP"), 1000, None));
    let woken = buf.append(ev("SHUTDOWN")).woken;
    assert_eq!(woken, vec![a, b]);
    assert_eq!(buf.append(ev("STOP")).woken, vec![other]);
}

#[test]
fn since_cursor_replays_an_already_buffered_event() {
    let mut buf = EventBuffer::new(8);
    let landed = buf.append(ev("SHUTDOWN")).event;
    let result = settled(&mut buf, options(Some("SHUTDOWN"), 0, Some(0)));
    assert!(!result.timed_out);
    assert_eq!(result.event.unwrap().seq, landed.seq);
}

#[test]
fn since_cursor_does_not_replay_events_at_or_before_the_cursor() {
    let mut buf = EventBuffer::new(8);
    let first = buf.append(ev("SHUTDOWN")).event;
    let pending = waiting(&mut buf, options(Some("SHUTDOWN"), 20, Some(first.seq)));
    assert!(buf.expire(pending).timed_out);
}

#[test]
fn reset_clears_events_keeps_the_cursor_and_settles_waiters() {
    let mut buf = EventBuffer::new(8);
    buf.append(ev("A"));
    buf.append(ev("B"));
    let pending = waiting(&mut buf, options(Some("SHUTDOWN"), 5000, None));

    assert_eq!(buf.reset(), vec![pending]);

    assert!(buf.read(None).events.is_empty());
    assert_eq!(buf.cursor(), 2);
    let result = buf.timed_out();
    assert!(result.timed_out);
    assert_eq!(result.cursor, 2);

    let next = buf.append(ev("C")).event;
    assert_eq!(next.seq, 3);
}

#[test]
fn a_replay_returns_the_first_match_after_the_cursor() {
    let mut buf = EventBuffer::new(8);
    for name in ["A", "B", "A", "B"] {
        buf.append(ev(name));
    }
    let result = settled(&mut buf, options(Some("B"), 1000, Some(2)));
    assert_eq!(result.event.unwrap().seq, 4);
    assert_eq!(result.cursor, 4);
    let any = settled(&mut buf, options(None, 1000, Some(2)));
    assert_eq!(any.event.unwrap().seq, 3);
}
