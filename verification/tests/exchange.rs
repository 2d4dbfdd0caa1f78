use trust_dns_proto::error::ProtoError;
use trust_dns_proto::exchange::{
    DnsExchangeState, ExchangeAction, ExchangeEvent, OutboundPoll, SendOutcome, StreamPoll,
};

fn drive(state: &mut DnsExchangeState, events: Vec<ExchangeEvent<u32>>) -> Vec<ExchangeAction<u32>> {
    let mut actions = Vec::new();
    for event in events {
        assert!(state.accepts(&event));
        actions.push(state.step(event));
    }
    actions
}

#[test]
fn new_exchange_is_idle_and_waits_for_a_poll() {
    let state = DnsExchangeState::new();
    assert!(state.is_idle());
    assert!(state.accepts(&ExchangeEvent::<u32>::Polled));
    assert!(!state.accepts(&ExchangeEvent::<u32>::Stream(StreamPoll::Progress)));
    assert!(!state.accepts(&ExchangeEvent::<u32>::Outbound(OutboundPoll::Request(1))));
    assert!(!state.accepts(&ExchangeEvent::<u32>::Sent(SendOutcome::Associated)));
    assert!(!state.accepts(&ExchangeEvent::<u32>::ShutDown));
}

#[test]
fn poll_drives_the_stream_first() {
    let mut state = DnsExchangeState::new();
    let action = state.step(ExchangeEvent::<u32>::Polled);
    assert!(matches!(action, ExchangeAction::PollStream));
    assert!(!state.is_idle());
    assert!(state.accepts(&ExchangeEvent::<u32>::Stream(StreamPoll::Ended)));
    assert!(!state.accepts(&ExchangeEvent::<u32>::Polled));
}

#[test]
fn request_is_sent_then_stream_is_driven_again() {
    let mut state = DnsExchangeState::new();
    let actions = drive(
        &mut state,
        vec![
            ExchangeEvent::Polled,
            ExchangeEvent::Stream(StreamPoll::Progress),
            ExchangeEvent::Outbound(OutboundPoll::Request(2)),
            ExchangeEvent::Sent(SendOutcome::Associated),
            ExchangeEvent::Stream(StreamPoll::Pending { shutdown: false }),
            ExchangeEvent::Outbound(OutboundPoll::Pending),
        ],
    );
    assert!(matches!(actions[0], ExchangeAction::PollStream));
    assert!(matches!(actions[1], ExchangeAction::PollOutbound));
    assert!(matches!(actions[2], ExchangeAction::SendRequest(2)));
    assert!(matches!(actions[3], ExchangeAction::PollStream));
    assert!(matches!(actions[4], ExchangeAction::PollOutbound));
    assert!(matches!(actions[5], ExchangeAction::Yield));
    assert!(state.is_idle());
}

#[test]
fn pending_shut_down_stream_takes_no_request() {
    let mut state = DnsExchangeState::new();
    let actions = drive(
        &mut state,
        vec![ExchangeEvent::Polled, ExchangeEvent::Stream(StreamPoll::Pending { shutdown: true })],
    );
    assert!(matches!(actions[1], ExchangeAction::Yield));
    assert!(state.is_idle());
}

#[test]
fn ended_stream_completes_the_exchange() {
    let mut state = DnsExchangeState::new();
    let actions = drive(&mut state, vec![ExchangeEvent::Polled, ExchangeEvent::Stream(StreamPoll::Ended)]);
    assert!(matches!(actions[1], ExchangeAction::Complete(Ok(()))));
    assert!(state.is_idle());
}

#[test]
fn stream_error_is_the_exchange_error() {
    let mut state = DnsExchangeState::new();
    let actions = drive(
        &mut state,
        vec![
            ExchangeEvent::Polled,
            ExchangeEvent::Stream(StreamPoll::Failed(ProtoError::from_message("io failed"))),
        ],
    );
    match &actions[1] {
        ExchangeAction::Complete(Err(e)) => assert_eq!(e.message(), "io failed"),
        _ => panic!("expected the stream's error"),
    }
}

#[test]
fn closed_queue_shuts_the_stream_down_then_drives_it() {
    let mut state = DnsExchangeState::new();
    let actions = drive(
        &mut state,
        vec![
            ExchangeEvent::Polled,
            ExchangeEvent::Stream(StreamPoll::Progress),
            ExchangeEvent::Outbound(OutboundPoll::Closed),
            ExchangeEvent::ShutDown,
            ExchangeEvent::Stream(StreamPoll::Pending { shutdown: true }),
            ExchangeEvent::Polled,
            ExchangeEvent::Stream(StreamPoll::Ended),
        ],
    );
    assert!(matches!(actions[2], ExchangeAction::ShutdownStream));
    assert!(matches!(actions[3], ExchangeAction::PollStream));
    assert!(matches!(actions[4], ExchangeAction::Yield));
    assert!(matches!(actions[5], ExchangeAction::PollStream));
    assert!(matches!(actions[6], ExchangeAction::Complete(Ok(()))));
}

#[test]
fn failed_receiver_fails_the_exchange() {
    let mut state = DnsExchangeState::new();
    let actions = drive(
        &mut state,
        vec![
            ExchangeEvent::Polled,
            ExchangeEvent::Stream(StreamPoll::Progress),
            ExchangeEvent::Outbound(OutboundPoll::Failed),
        ],
    );
    match &actions[2] {
        ExchangeAction::Complete(Err(e)) => {
            assert!(matches!(e, ProtoError::OutboundReceiver));
            assert_eq!(e.message(), "unknown from outbound_message receiver");
        }
        _ => panic!("expected the receiver error"),
    }
}

#[test]
fn unassociated_response_fails_the_exchange() {
    let mut state = DnsExchangeState::new();
    let actions = drive(
        &mut state,
        vec![
            ExchangeEvent::Polled,
            ExchangeEvent::Stream(StreamPoll::Progress),
            ExchangeEvent::Outbound(OutboundPoll::Request(3)),
            ExchangeEvent::Sent(SendOutcome::Unassociated),
        ],
    );
    match &actions[3] {
        ExchangeAction::Complete(Err(e)) => {
            assert!(matches!(e, ProtoError::UnassociatedResponse));
            assert_eq!(e.message(), "failed to associate send_message response to the sender");
        }
        _ => panic!("expected the association error"),
    }
    assert!(state.is_idle());
}

#[test]
fn outbound_is_polled_only_right_after_the_stream() {
    // several requests in one poll: each is taken after a stream poll
    let mut state = DnsExchangeState::new();
    let actions = drive(
        &mut state,
        vec![
            ExchangeEvent::Polled,
            ExchangeEvent::Stream(StreamPoll::Progress),
            ExchangeEvent::Outbound(OutboundPoll::Request(4)),
            ExchangeEvent::Sent(SendOutcome::Associated),
            ExchangeEvent::Stream(StreamPoll::Progress),
            ExchangeEvent::Outbound(OutboundPoll::Request(5)),
            ExchangeEvent::Sent(SendOutcome::Associated),
            ExchangeEvent::Stream(StreamPoll::Pending { shutdown: false }),
            ExchangeEvent::Outbound(OutboundPoll::Pending),
        ],
    );
    for i in 0..actions.len() {
        if matches!(actions[i], ExchangeAction::PollOutbound) {
            assert!(i > 0);
            assert!(matches!(actions[i - 1], ExchangeAction::PollStream));
        }
    }
}

#[test]
fn one_poll_sends_every_queued_request_in_order_then_yields() {
    let mut state = DnsExchangeState::new();
    let mut events = vec![ExchangeEvent::Polled];
    for (request, progress) in [(10u32, true), (20, false), (30, true)] {
        events.push(ExchangeEvent::Stream(if progress {
            StreamPoll::Progress
        } else {
            StreamPoll::Pending { shutdown: false }
        }));
        events.push(ExchangeEvent::Outbound(OutboundPoll::Request(request)));
        events.push(ExchangeEvent::Sent(SendOutcome::Associated));
    }
    events.push(ExchangeEvent::Stream(StreamPoll::Progress));
    events.push(ExchangeEvent::Outbound(OutboundPoll::Pending));
    let actions = drive(&mut state, events);
    assert_eq!(actions.len(), 3 * 3 + 3);
    let sent: Vec<u32> = actions
        .iter()
        .filter_map(|a| match a {
            ExchangeAction::SendRequest(q) => Some(*q),
            _ => None,
        })
        .collect();
    assert_eq!(sent, vec![10, 20, 30]);
    assert!(matches!(actions[2], ExchangeAction::SendRequest(10)));
    assert!(matches!(actions[5], ExchangeAction::SendRequest(20)));
    assert!(matches!(actions[8], ExchangeAction::SendRequest(30)));
    assert!(matches!(actions[11], ExchangeAction::Yield));
    assert!(state.is_idle());
}

#[test]
fn no_request_is_sent_after_shutdown_while_the_queue_stays_closed() {
    let mut state = DnsExchangeState::new();
    let actions = drive(
        &mut state,
        vec![
            ExchangeEvent::Polled,
            ExchangeEvent::Stream(StreamPoll::Progress),
            ExchangeEvent::Outbound(OutboundPoll::Closed),
            ExchangeEvent::ShutDown,
            ExchangeEvent::Stream(StreamPoll::Progress),
            ExchangeEvent::Outbound(OutboundPoll::Closed),
            ExchangeEvent::ShutDown,
            ExchangeEvent::Stream(StreamPoll::Pending { shutdown: true }),
            ExchangeEvent::Polled,
            ExchangeEvent::Stream(StreamPoll::Ended),
        ],
    );
    assert!(matches!(actions[2], ExchangeAction::ShutdownStream));
    assert!(actions[3..].iter().all(|a| !matches!(a, ExchangeAction::SendRequest(_))));
    assert!(matches!(actions[9], ExchangeAction::Complete(Ok(()))));
}
