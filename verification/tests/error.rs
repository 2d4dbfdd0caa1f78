use trust_dns_proto::error::ProtoError;

#[test]
fn message_error_keeps_its_text() {
    let e = ProtoError::from_message("timed out");
    assert_eq!(e.message(), "timed out");
    assert_eq!(e.clone().message(), "timed out");
    assert_eq!(e.duplicate().message(), "timed out");
}

#[test]
fn exchange_errors_have_their_texts() {
    assert_eq!(ProtoError::OutboundReceiver.message(), "unknown from outbound_message receiver");
    assert_eq!(
        ProtoError::UnassociatedResponse.message(),
        "failed to associate send_message response to the sender"
    );
    assert!(matches!(ProtoError::OutboundReceiver.clone(), ProtoError::OutboundReceiver));
}
