use trust_dns_proto::connect::{ConnectAction, ConnectEvent, ConnectPoll, DnsExchangeConnectState};
use trust_dns_proto::error::ProtoError;
use trust_dns_proto::exchange::OutboundPoll;

fn drive(state: &mut DnsExchangeConnectState, events: Vec<ConnectEvent<u32>>) -> Vec<ConnectAction<u32>> {
    let mut actions = Vec::new();
    for event in events {
        assert!(state.accepts(&event));
        actions.push(state.step(event));
    }
    actions
}

#[test]
fn new_connection_polls_the_connect_future() {
    let mut state = DnsExchangeConnectState::new();
    assert!(state.error().is_none());
    assert!(state.accepts(&ConnectEvent::<u32>::Polled));
    assert!(!state.accepts(&ConnectEvent::<u32>::Responded));
    let action = state.step(ConnectEvent::<u32>::Polled);
    assert!(matches!(action, ConnectAction::PollConnect));
}

#[test]
fn pending_connection_yields() {
    let mut state = DnsExchangeConnectState::new();
    let actions = drive(
        &mut state,
        vec![ConnectEvent::Polled, ConnectEvent::Connect(ConnectPoll::Pending), ConnectEvent::Polled],
    );
    assert!(matches!(actions[1], ConnectAction::Yield));
    assert!(matches!(actions[2], ConnectAction::PollConnect));
}

#[test]
fn made_connection_is_handed_over_once() {
    let mut state = DnsExchangeConnectState::new();
    let actions = drive(
        &mut state,
        vec![ConnectEvent::Polled, ConnectEvent::Connect(ConnectPoll::Connected), ConnectEvent::Polled],
    );
    assert!(matches!(actions[1], ConnectAction::HandOver));
    assert!(matches!(actions[2], ConnectAction::PollConnect));
    // the receiver is gone: a second success is not accepted
    assert!(!state.accepts(&ConnectEvent::<u32>::Connect(ConnectPoll::Connected)));
    assert!(!state.accepts(&ConnectEvent::<u32>::Connect(ConnectPoll::Failed(ProtoError::from_message("x")))));
    assert!(state.accepts(&ConnectEvent::<u32>::Connect(ConnectPoll::Pending)));
    assert!(state.error().is_none());
}

#[test]
fn failed_connection_answers_every_request_with_its_error() {
    let mut state = DnsExchangeConnectState::new();
    let actions = drive(
        &mut state,
        vec![
            ConnectEvent::Polled,
            ConnectEvent::Connect(ConnectPoll::Failed(ProtoError::from_message("refused"))),
            ConnectEvent::Outbound(OutboundPoll::Request(1)),
            ConnectEvent::Responded,
            ConnectEvent::Outbound(OutboundPoll::Request(2)),
            ConnectEvent::Responded,
            ConnectEvent::Outbound(OutboundPoll::Pending),
        ],
    );
    assert!(matches!(actions[1], ConnectAction::PollOutbound));
    match &actions[2] {
        ConnectAction::Respond(e, 1) => assert_eq!(e.message(), "refused"),
        _ => panic!("expected an answer"),
    }
    assert!(matches!(actions[3], ConnectAction::PollOutbound));
    match &actions[4] {
        ConnectAction::Respond(e, 2) => assert_eq!(e.message(), "refused"),
        _ => panic!("expected an answer"),
    }
    assert!(matches!(actions[6], ConnectAction::Yield));
    assert_eq!(state.error().map(|e| e.message()), Some("refused".to_string()));
}

#[test]
fn failed_connection_fails_when_the_queue_closes() {
    let mut state = DnsExchangeConnectState::new();
    let actions = drive(
        &mut state,
        vec![
            ConnectEvent::Polled,
            ConnectEvent::Connect(ConnectPoll::Failed(ProtoError::from_message("refused"))),
            ConnectEvent::Outbound(OutboundPoll::Closed),
            // polled again after failing: it keeps failing with the same error
            ConnectEvent::Polled,
            ConnectEvent::Outbound(OutboundPoll::Failed),
        ],
    );
    match &actions[2] {
        ConnectAction::Fail(e) => assert_eq!(e.message(), "refused"),
        _ => panic!("expected the failure"),
    }
    assert!(matches!(actions[3], ConnectAction::PollOutbound));
    match &actions[4] {
        ConnectAction::Fail(e) => assert_eq!(e.message(), "refused"),
        _ => panic!("expected the failure"),
    }
    assert!(!state.accepts(&ConnectEvent::<u32>::Connect(ConnectPoll::Connected)));
}

#[test]
fn queue_is_untouched_before_the_hand_over() {
    let mut state = DnsExchangeConnectState::new();
    let actions = drive(
        &mut state,
        vec![
            ConnectEvent::Polled,
            ConnectEvent::Connect(ConnectPoll::Pending),
            ConnectEvent::Polled,
            ConnectEvent::Connect(ConnectPoll::Pending),
            ConnectEvent::Polled,
            ConnectEvent::Connect(ConnectPoll::Connected),
        ],
    );
    assert!(matches!(actions[5], ConnectAction::HandOver));
    assert!(actions[..5]
        .iter()
        .all(|a| matches!(a, ConnectAction::PollConnect | ConnectAction::Yield)));
}
