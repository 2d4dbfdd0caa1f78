//! The error type that the exchange and its connection hand back.
use vstd::prelude::*;

verus! {

/// An error of the DNS protocol machinery.
///
/// `Message` carries an error that an outside party (the io stream, the
/// connect future) reported; the two other variants are the errors that the
/// exchange itself raises.
#[derive(Debug)]
pub enum ProtoError {
    /// An error described by its message.
    Message(String),
    /// Polling the receiver of outbound messages failed.
    OutboundReceiver,
    /// The response future of a sent request could not be handed back to the
    /// party that asked for it.
    UnassociatedResponse,
}

/// The text of the error raised when the outbound receiver fails.
pub open spec fn outbound_receiver_text() -> Seq<char> {
    "unknown from outbound_message receiver"@
}

/// The text of the error raised when a response cannot be handed back.
pub open spec fn unassociated_response_text() -> Seq<char> {
    "failed to associate send_message response to the sender"@
}

impl ProtoError {
    /// What the error says.
    pub open spec fn message_spec(&self) -> Seq<char> {
        match self {
            ProtoError::Message(m) => m@,
            ProtoError::OutboundReceiver => outbound_receiver_text(),
            ProtoError::UnassociatedResponse => unassociated_response_text(),
        }
    }

    /// An error made of the given message.
    pub fn from_message(msg: &str) -> (e: ProtoError)
        ensures
            e matches ProtoError::Message(m) && m@ == msg@,
    {
        ProtoError::Message(msg.to_owned())
    }

    /// The text that the error displays.
    pub fn message(&self) -> (m: String)
        ensures
            m@ == self.message_spec(),
    {
        match self {
            ProtoError::Message(m) => m.clone(),
            ProtoError::OutboundReceiver => "unknown from outbound_message receiver".to_owned(),
            ProtoError::UnassociatedResponse => {
                "failed to associate send_message response to the sender".to_owned()
            },
        }
    }

    /// A copy of the error, equal to it.
    pub fn duplicate(&self) -> (e: ProtoError)
        ensures
            e == *self,
    {
        match self {
            ProtoError::Message(m) => ProtoError::Message(m.clone()),
            ProtoError::OutboundReceiver => ProtoError::OutboundReceiver,
            ProtoError::UnassociatedResponse => ProtoError::UnassociatedResponse,
        }
    }
}

impl Clone for ProtoError {
    fn clone(&self) -> (e: Self)
        ensures
            e == *self,
    {
        self.duplicate()
    }
}

} // verus!
