use sse_registry::connection::{PollOutcome, SendFailure};
use sse_registry::session::SessionId;
use sse_registry::sse::{collect_failures, sweep_decision, SSE};

fn framed(event: &str, data: &str) -> String {
    format!("event: {}\ndata: {}\n\n", event, data)
}

#[test]
fn send_to_absent_session_is_not_found() {
    let registry = SSE::start();
    let sid = SessionId::from_number(42);
    let outcome = registry.send(&sid, "x", "y");
    assert!(outcome.is_none());
}

#[test]
fn send_after_subscribe_delivers_framed_event() {
    let mut registry = SSE::start();
    let sid = SessionId::from_number(1);
    let (_connection, mut stream) = registry.new_connection(Some(sid));
    let outcome = registry.send(&sid, "x", "y");
    assert!(matches!(outcome, Some(Ok(()))));
    match stream.try_next() {
        PollOutcome::Item(message) => assert_eq!(message, "event: x\ndata: y\n\n"),
        _ => panic!("expected exactly one queued item"),
    }
    assert!(matches!(stream.try_next(), PollOutcome::Pending));
}

#[test]
fn connection_send_frames_event() {
    let mut registry = SSE::start();
    let (connection, mut stream) = registry.new_connection(Some(SessionId::from_number(9)));
    assert!(connection.send("ping", "").is_ok());
    match stream.try_next() {
        PollOutcome::Item(message) => assert_eq!(message, "event: ping\ndata: \n\n"),
        _ => panic!("expected the ping frame"),
    }
}

#[test]
fn dropped_consumer_fails_send_and_sweep_evicts() {
    let mut registry = SSE::start();
    let sid = SessionId::from_number(3);
    let (_connection, stream) = registry.new_connection(Some(sid));
    drop(stream);
    match registry.send(&sid, "a", "b") {
        Some(Err(failure)) => assert_eq!(failure.message(), &framed("a", "b")),
        _ => panic!("expected a send failure once the consumer is gone"),
    }
    let cascade = registry.sweep_connections();
    assert_eq!(cascade.len(), 1);
    assert_eq!(cascade[0].number(), 3);
    assert!(registry.send(&sid, "a", "b").is_none());
}

#[test]
fn broadcast_reports_each_dead_consumer() {
    let mut registry = SSE::start();
    let one = SessionId::from_number(1);
    let two = SessionId::from_number(2);
    let three = SessionId::from_number(3);
    let (_c1, s1) = registry.new_connection(Some(one));
    let (_c2, mut s2) = registry.new_connection(Some(two));
    let (_c3, s3) = registry.new_connection(Some(three));
    drop(s1);
    drop(s3);
    match registry.broadcast("news", "flash") {
        Err(failures) => {
            assert_eq!(failures.len(), 2);
            for failure in &failures {
                assert_eq!(failure.message(), &framed("news", "flash"));
            }
        }
        Ok(()) => panic!("two consumers are gone, so broadcast must report them"),
    }
    // broadcast does not evict: every entry is still reachable
    assert!(registry.send(&one, "x", "y").is_some());
    assert!(matches!(registry.send(&two, "x", "y"), Some(Ok(()))));
    assert!(registry.send(&three, "x", "y").is_some());
    match s2.try_next() {
        PollOutcome::Item(message) => assert_eq!(message, framed("news", "flash")),
        _ => panic!("live consumer must see the broadcast"),
    }
}

#[test]
fn broadcast_on_empty_registry_is_ok() {
    let mut registry = SSE::start();
    assert!(registry.broadcast("x", "y").is_ok());
}

#[test]
fn collect_failures_aggregates_in_order() {
    let mut registry = SSE::start();
    let sid = SessionId::from_number(1);
    let (_connection, stream) = registry.new_connection(Some(sid));
    drop(stream);
    let first = match registry.send(&sid, "a", "b") {
        Some(Err(failure)) => failure,
        _ => panic!("the consumer is gone, so the send must fail"),
    };
    let second = match registry.send(&sid, "c", "d") {
        Some(Err(failure)) => failure,
        _ => panic!("the consumer is gone, so the send must fail"),
    };
    let outcomes = vec![Ok(()), Err(first), Ok(()), Err(second)];
    match collect_failures(outcomes) {
        Err(failures) => {
            assert_eq!(failures.len(), 2);
            assert_eq!(failures[0].message(), &framed("a", "b"));
            assert_eq!(failures[1].message(), &framed("c", "d"));
        }
        Ok(()) => panic!("two outcomes failed, so the aggregate must fail"),
    }
    let all_ok: Vec<Result<(), SendFailure>> = vec![Ok(()), Ok(())];
    assert!(collect_failures(all_ok).is_ok());
    assert!(collect_failures(Vec::new()).is_ok());
}

#[test]
fn sweep_decision_follows_the_probe() {
    let ok: Result<(), SendFailure> = Ok(());
    assert_eq!(sweep_decision(&ok, true), (false, false));
    assert_eq!(sweep_decision(&ok, false), (false, false));
    let mut registry = SSE::start();
    let sid = SessionId::from_number(2);
    let (_connection, stream) = registry.new_connection(Some(sid));
    drop(stream);
    let failed = registry.send(&sid, "ping", "").unwrap();
    assert_eq!(sweep_decision(&failed, true), (true, true));
    assert_eq!(sweep_decision(&failed, false), (true, false));
}

#[test]
fn broadcast_with_all_alive_is_ok() {
    let mut registry = SSE::start();
    let (_c1, _s1) = registry.new_connection(Some(SessionId::from_number(1)));
    let (_c2, _s2) = registry.new_connection(Some(SessionId::from_number(2)));
    assert!(registry.broadcast("x", "y").is_ok());
}

#[test]
fn reconnect_replaces_single_entry() {
    let mut registry = SSE::start();
    let sid = SessionId::from_number(5);
    let (first, mut first_stream) = registry.new_connection(Some(sid));
    let (_second, mut second_stream) = registry.new_connection(Some(sid));
    assert!(matches!(registry.send(&sid, "x", "y"), Some(Ok(()))));
    // only the replacing connection's stream sees the event
    match second_stream.try_next() {
        PollOutcome::Item(message) => assert_eq!(message, framed("x", "y")),
        _ => panic!("the replacing connection must receive the event"),
    }
    // the registry's handle on the first connection is gone, but the caller's
    // copy still holds the channel open
    assert!(matches!(first_stream.try_next(), PollOutcome::Pending));
    drop(first);
    assert!(matches!(first_stream.try_next(), PollOutcome::Ended));
}

#[test]
fn explicit_session_removal_cascades_once() {
    let mut registry = SSE::start();
    let sid = SessionId::from_number(8);
    let (_connection, _stream) = registry.new_connection(Some(sid));
    let cascade = registry.remove_connection(&sid);
    assert_eq!(cascade.map(|s| s.number()), Some(8));
}

#[test]
fn generated_session_removal_never_cascades() {
    let mut registry = SSE::start();
    let (connection, _stream) = registry.new_connection(None);
    let sid = connection.session_id();
    assert!(!connection.cascade_on_loss());
    let cascade = registry.remove_connection(&sid);
    assert!(cascade.is_none());
    // the entry really is gone
    assert!(registry.send(&sid, "x", "y").is_none());
}

#[test]
fn repeated_removal_cascades_at_most_once() {
    let mut registry = SSE::start();
    let sid = SessionId::from_number(11);
    let (_connection, _stream) = registry.new_connection(Some(sid));
    assert!(registry.remove_connection(&sid).is_some());
    assert!(registry.remove_connection(&sid).is_none());
}

#[test]
fn sweep_keeps_live_connections() {
    let mut registry = SSE::start();
    let sid = SessionId::from_number(6);
    let (_connection, mut stream) = registry.new_connection(Some(sid));
    let cascade = registry.sweep_connections();
    assert!(cascade.is_empty());
    assert!(registry.send(&sid, "x", "y").is_some());
    // the probe itself is an ordinary framed event
    match stream.try_next() {
        PollOutcome::Item(message) => assert_eq!(message, framed("ping", "")),
        _ => panic!("the sweep must have probed the live connection"),
    }
}

#[test]
fn sweep_cascades_only_for_supplied_ids() {
    let mut registry = SSE::start();
    let supplied = SessionId::from_number(21);
    let (_c1, s1) = registry.new_connection(Some(supplied));
    let (c2, s2) = registry.new_connection(None);
    let generated = c2.session_id();
    drop(s1);
    drop(s2);
    drop(c2);
    let cascade = registry.sweep_connections();
    assert_eq!(cascade.len(), 1);
    assert_eq!(cascade[0].number(), 21);
    assert!(registry.send(&supplied, "x", "y").is_none());
    assert!(registry.send(&generated, "x", "y").is_none());
}

#[test]
fn into_receiver_exposes_the_raw_channel() {
    let mut registry = SSE::start();
    let sid = SessionId::from_number(4);
    let (_connection, stream) = registry.new_connection(Some(sid));
    assert!(matches!(registry.send(&sid, "x", "y"), Some(Ok(()))));
    let mut receiver = stream.into_receiver();
    assert_eq!(receiver.try_recv().unwrap(), "event: x\ndata: y\n\n");
}

#[test]
fn session_id_wraps_its_number() {
    let sid = SessionId::from_number(77);
    assert_eq!(sid.number(), 77);
    assert_eq!(sid, SessionId::from_number(77));
}

#[test]
fn supplied_id_marks_cascade_on_loss() {
    let mut registry = SSE::start();
    let (with_id, _s1) = registry.new_connection(Some(SessionId::from_number(2)));
    assert!(with_id.cascade_on_loss());
    let (without_id, _s2) = registry.new_connection(None);
    assert!(!without_id.cascade_on_loss());
}
