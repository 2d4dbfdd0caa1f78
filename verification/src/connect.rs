//! The decisions of an exchange whose connection is still being made.
//!
//! While the connection is being made, requests queue up on the receiver of
//! outbound messages. When the connection is made, the stream and that
//! receiver become an exchange. When it fails, every request that was or
//! will be queued is answered with the error, and the connection's result is
//! that error.
//!
//! `DnsExchangeConnectState` is that logic as a state machine. Its owner
//! performs each `ConnectAction` and reports what came of it as a
//! `ConnectEvent`.
use vstd::prelude::*;

use crate::error::ProtoError;
use crate::exchange::OutboundPoll;

verus! {

/// What polling the connect future gave.
pub enum ConnectPoll {
    /// The connection is made (`Ready(Ok(stream))`).
    Connected,
    /// The connection is not made yet.
    Pending,
    /// Making the connection failed with the error.
    Failed(ProtoError),
}

/// What the owner of the connecting exchange reports.
pub enum ConnectEvent<Q> {
    /// The connecting exchange is polled.
    Polled,
    /// The connect future was polled.
    Connect(ConnectPoll),
    /// The receiver of outbound messages was polled.
    Outbound(OutboundPoll<Q>),
    /// The error response was sent to the requester of the taken message.
    Responded,
}

/// What the owner of the connecting exchange is to do next.
pub enum ConnectAction<Q> {
    /// Poll the connect future.
    PollConnect,
    /// End this poll: not ready (`Poll::Pending`).
    Yield,
    /// End this poll with `Ready(Ok(exchange))`: hand the connected stream and
    /// the receiver of outbound messages to a new exchange.
    HandOver,
    /// Poll the receiver of outbound messages.
    PollOutbound,
    /// Send the stream's error response for the error to the requester of
    /// the request, which was just taken from the receiver.
    Respond(ProtoError, Q),
    /// End this poll with `Ready(Err(error))`.
    Fail(ProtoError),
}

/// Where a connecting exchange stands.
pub enum ConnectPhase {
    /// Connecting, between polls; `receiver` tells whether the receiver of
    /// outbound messages is still held (it is handed over on success).
    Connecting { receiver: bool },
    /// Waiting for the outcome of polling the connect future.
    AwaitConnect { receiver: bool },
    /// Connecting failed with the error; between polls.
    FailAll { error: ProtoError },
    /// Connecting failed; waiting for the outcome of polling the receiver.
    AwaitMessage { error: ProtoError },
    /// Connecting failed; waiting for the error response to be sent.
    AwaitRespond { error: ProtoError },
}

/// Whether the event is one that the phase waits for. Once the receiver is
/// handed over, a connect future that is ready again is not accepted: it
/// would find no receiver to hand over.
pub open spec fn connect_accepts<Q>(phase: ConnectPhase, event: ConnectEvent<Q>) -> bool {
    match phase {
        ConnectPhase::Connecting { .. } => event is Polled,
        ConnectPhase::AwaitConnect { receiver } => match event {
            ConnectEvent::Connect(c) => receiver || c is Pending,
            _ => false,
        },
        ConnectPhase::FailAll { .. } => event is Polled,
        ConnectPhase::AwaitMessage { .. } => event is Outbound,
        ConnectPhase::AwaitRespond { .. } => event is Responded,
    }
}

/// The transition of the connecting exchange: the next phase and the action,
/// for an event that the phase accepts.
pub open spec fn connect_next<Q>(phase: ConnectPhase, event: ConnectEvent<Q>) -> (
    ConnectPhase,
    ConnectAction<Q>,
) {
    match phase {
        ConnectPhase::Connecting { receiver } => (
            ConnectPhase::AwaitConnect { receiver },
            ConnectAction::PollConnect,
        ),
        ConnectPhase::AwaitConnect { receiver } => match event {
            ConnectEvent::Connect(ConnectPoll::Connected) => (
                ConnectPhase::Connecting { receiver: false },
                ConnectAction::HandOver,
            ),
            ConnectEvent::Connect(ConnectPoll::Failed(e)) => (
                ConnectPhase::AwaitMessage { error: e },
                ConnectAction::PollOutbound,
            ),
            _ => (ConnectPhase::Connecting { receiver }, ConnectAction::Yield),
        },
        ConnectPhase::FailAll { error } => (
            ConnectPhase::AwaitMessage { error },
            ConnectAction::PollOutbound,
        ),
        ConnectPhase::AwaitMessage { error } => match event {
            ConnectEvent::Outbound(OutboundPoll::Request(q)) => (
                ConnectPhase::AwaitRespond { error },
                ConnectAction::Respond(error, q),
            ),
            ConnectEvent::Outbound(OutboundPoll::Pending) => (
                ConnectPhase::FailAll { error },
                ConnectAction::Yield,
            ),
            _ => (ConnectPhase::FailAll { error }, ConnectAction::Fail(error)),
        },
        ConnectPhase::AwaitRespond { error } => (
            ConnectPhase::AwaitMessage { error },
            ConnectAction::PollOutbound,
        ),
    }
}

/// The decision state of an exchange whose connection is being made.
pub struct DnsExchangeConnectState {
    phase: ConnectPhase,
}

impl DnsExchangeConnectState {
    /// The phase the connecting exchange stands in.
    pub closed spec fn phase_spec(&self) -> ConnectPhase {
        self.phase
    }

    /// A connecting exchange that holds the receiver of outbound messages.
    pub fn new() -> (s: DnsExchangeConnectState)
        ensures
            s.phase_spec() == (ConnectPhase::Connecting { receiver: true }),
    {
        DnsExchangeConnectState { phase: ConnectPhase::Connecting { receiver: true } }
    }

    /// Whether the connecting exchange waits for this event.
    pub fn accepts<Q>(&self, event: &ConnectEvent<Q>) -> (b: bool)
        ensures
            b == connect_accepts(self.phase_spec(), *event),
    {
        match (&self.phase, event) {
            (ConnectPhase::Connecting { .. }, ConnectEvent::Polled) => true,
            (ConnectPhase::AwaitConnect { receiver }, ConnectEvent::Connect(c)) => {
                *receiver || match c {
                    ConnectPoll::Pending => true,
                    _ => false,
                }
            },
            (ConnectPhase::FailAll { .. }, ConnectEvent::Polled) => true,
            (ConnectPhase::AwaitMessage { .. }, ConnectEvent::Outbound(_)) => true,
            (ConnectPhase::AwaitRespond { .. }, ConnectEvent::Responded) => true,
            _ => false,
        }
    }

    /// The error that connecting failed with, if it did.
    pub fn error(&self) -> (e: Option<&ProtoError>)
        ensures
            e is Some == connect_error(self.phase_spec()) is Some,
            e matches Some(r) ==> connect_error(self.phase_spec()) == Some(*r),
    {
        match &self.phase {
            ConnectPhase::FailAll { error } => Some(error),
            ConnectPhase::AwaitMessage { error } => Some(error),
            ConnectPhase::AwaitRespond { error } => Some(error),
            _ => None,
        }
    }

    /// Takes in what came of the last action and decides the next one.
    pub fn step<Q>(&mut self, event: ConnectEvent<Q>) -> (action: ConnectAction<Q>)
        requires
            connect_accepts(old(self).phase_spec(), event),
        ensures
            (final(self).phase_spec(), action) == connect_next(old(self).phase_spec(), event),
    {
        let mut phase = ConnectPhase::Connecting { receiver: false };
        std::mem::swap(&mut phase, &mut self.phase);
        match phase {
            ConnectPhase::Connecting { receiver } => {
                self.phase = ConnectPhase::AwaitConnect { receiver };
                ConnectAction::PollConnect
            },
            ConnectPhase::AwaitConnect { receiver } => match event {
                ConnectEvent::Connect(ConnectPoll::Connected) => {
                    // the receiver goes to the new exchange
                    self.phase = ConnectPhase::Connecting { receiver: false };
                    ConnectAction::HandOver
                },
                ConnectEvent::Connect(ConnectPoll::Failed(e)) => {
                    // answer every waiting request with the error, in this same poll
                    self.phase = ConnectPhase::AwaitMessage { error: e };
                    ConnectAction::PollOutbound
                },
                _ => {
                    self.phase = ConnectPhase::Connecting { receiver };
                    ConnectAction::Yield
                },
            },
            ConnectPhase::FailAll { error } => {
                self.phase = ConnectPhase::AwaitMessage { error };
                ConnectAction::PollOutbound
            },
            ConnectPhase::AwaitMessage { error } => match event {
                ConnectEvent::Outbound(OutboundPoll::Request(q)) => {
                    let answer = error.duplicate();
                    self.phase = ConnectPhase::AwaitRespond { error };
                    ConnectAction::Respond(answer, q)
                },
                ConnectEvent::Outbound(OutboundPoll::Pending) => {
                    self.phase = ConnectPhase::FailAll { error };
                    ConnectAction::Yield
                },
                _ => {
                    // no more requests can come (or none can be read): report the error
                    let result = error.duplicate();
                    self.phase = ConnectPhase::FailAll { error };
                    ConnectAction::Fail(result)
                },
            },
            ConnectPhase::AwaitRespond { error } => {
                self.phase = ConnectPhase::AwaitMessage { error };
                ConnectAction::PollOutbound
            },
        }
    }
}

/// The error that a phase holds: the one connecting failed with.
pub open spec fn connect_error(phase: ConnectPhase) -> Option<ProtoError> {
    match phase {
        ConnectPhase::FailAll { error } => Some(error),
        ConnectPhase::AwaitMessage { error } => Some(error),
        ConnectPhase::AwaitRespond { error } => Some(error),
        _ => None,
    }
}



/// Whether the connecting exchange, starting in the phase, accepts each event
/// of the sequence in turn.
pub open spec fn connect_run_accepted<Q>(phase: ConnectPhase, events: Seq<ConnectEvent<Q>>) -> bool
    decreases events.len(),
{
    if events.len() == 0 {
        true
    } else {
        connect_accepts(phase, events[0]) && connect_run_accepted(
            connect_next(phase, events[0]).0,
            events.drop_first(),
        )
    }
}

/// The actions that the connecting exchange asks for, one per event, when the
/// events come in turn from the phase.
pub open spec fn connect_run<Q>(phase: ConnectPhase, events: Seq<ConnectEvent<Q>>) -> Seq<
    ConnectAction<Q>,
>
    decreases events.len(),
{
    if events.len() == 0 {
        Seq::empty()
    } else {
        let (next, action) = connect_next(phase, events[0]);
        seq![action] + connect_run(next, events.drop_first())
    }
}

/// Whether the phase is one before the connection has resolved.
pub open spec fn connect_unresolved(phase: ConnectPhase) -> bool {
    phase == (ConnectPhase::Connecting { receiver: true }) || phase == (
    ConnectPhase::AwaitConnect { receiver: true })
}

/// The error that the event reports connecting failed with, if it does.
pub open spec fn connect_failure<Q>(event: ConnectEvent<Q>) -> Option<ProtoError> {
    match event {
        ConnectEvent::Connect(ConnectPoll::Failed(e)) => Some(e),
        _ => None,
    }
}

/// The request that the event reports taken from the receiver, if it does.
pub open spec fn taken_request<Q>(event: ConnectEvent<Q>) -> Option<Q> {
    match event {
        ConnectEvent::Outbound(OutboundPoll::Request(q)) => Some(q),
        _ => None,
    }
}

/// Whether the event reports that the receiver can give no request: every
/// handle is gone, or it failed.
pub open spec fn receiver_done<Q>(event: ConnectEvent<Q>) -> bool {
    event == ConnectEvent::<Q>::Outbound(OutboundPoll::Closed) || event
        == ConnectEvent::<Q>::Outbound(OutboundPoll::Failed)
}

/// The error that the action answers or fails with, if it does.
pub open spec fn action_error<Q>(action: ConnectAction<Q>) -> Option<ProtoError> {
    match action {
        ConnectAction::Respond(e, _) => Some(e),
        ConnectAction::Fail(e) => Some(e),
        _ => None,
    }
}

proof fn lemma_connect_run_len<Q>(phase: ConnectPhase, events: Seq<ConnectEvent<Q>>)
    ensures
        connect_run(phase, events).len() == events.len(),
    decreases events.len(),
{
    if events.len() > 0 {
        lemma_connect_run_len(connect_next(phase, events[0]).0, events.drop_first());
    }
}

/// Once connecting has failed with an error, the connecting exchange answers
/// each request it takes with that error, fails with that error when the
/// receiver can give no more, never hands anything over, never polls the
/// connect future, and waits for no connect outcome.
proof fn lemma_connect_failed_stays<Q>(
    phase: ConnectPhase,
    events: Seq<ConnectEvent<Q>>,
    e: ProtoError,
)
    requires
        connect_run_accepted(phase, events),
        connect_error(phase) == Some(e),
    ensures
        forall|j: int|
            0 <= j < events.len() ==> match #[trigger] connect_run(phase, events)[j] {
                ConnectAction::Respond(x, _) => x == e,
                ConnectAction::Fail(x) => x == e,
                ConnectAction::PollOutbound => true,
                ConnectAction::Yield => true,
                _ => false,
            },
        forall|j: int| 0 <= j < events.len() ==> !(#[trigger] events[j] is Connect),
        forall|j: int|
            0 <= j < events.len() && (#[trigger] taken_request(events[j])) is Some ==> connect_run(
                phase,
                events,
            )[j] == ConnectAction::Respond(e, taken_request(events[j]).unwrap()),
        forall|j: int|
            0 <= j < events.len() && #[trigger] receiver_done(events[j]) ==> connect_run(
                phase,
                events,
            )[j] == ConnectAction::<Q>::Fail(e),
        forall|j: int|
            0 <= j < events.len() && (#[trigger] events[j]) is Polled ==> connect_run(
                phase,
                events,
            )[j] is PollOutbound,
    decreases events.len(),
{
    lemma_connect_run_len(phase, events);
    if events.len() > 0 {
        let next = connect_next(phase, events[0]).0;
        let rest = events.drop_first();
        lemma_connect_failed_stays(next, rest, e);
        lemma_connect_run_len(next, rest);
        assert forall|j: int| 1 <= j < events.len() implies connect_run(phase, events)[j]
            == connect_run(next, rest)[j - 1] && events[j] == rest[j - 1] by {}
    }
}

/// Once the stream is handed over, the connecting exchange can only poll the
/// connect future and yield: it answers nothing and fails nothing.
proof fn lemma_connect_handed_over_stays<Q>(phase: ConnectPhase, events: Seq<ConnectEvent<Q>>)
    requires
        connect_run_accepted(phase, events),
        phase == (ConnectPhase::Connecting { receiver: false }) || phase == (
        ConnectPhase::AwaitConnect { receiver: false }),
    ensures
        forall|j: int|
            0 <= j < events.len() ==> (#[trigger] connect_run(phase, events)[j]) is PollConnect
                || connect_run(phase, events)[j] is Yield,
        forall|j: int|
            0 <= j < events.len() ==> (#[trigger] events[j]) is Polled || events[j]
                == ConnectEvent::<Q>::Connect(ConnectPoll::Pending),
    decreases events.len(),
{
    lemma_connect_run_len(phase, events);
    if events.len() > 0 {
        let next = connect_next(phase, events[0]).0;
        let rest = events.drop_first();
        lemma_connect_handed_over_stays(next, rest);
        lemma_connect_run_len(next, rest);
        assert forall|j: int| 1 <= j < events.len() implies connect_run(phase, events)[j]
            == connect_run(next, rest)[j - 1] && events[j] == rest[j - 1] by {}
    }
}

/// What holds of a run after an error was reported at `i` and by the action
/// at `j`: nothing is handed over, answers and failures carry the error, each
/// request taken is answered with it, a receiver that can give no more
/// makes the poll fail with it, and each new poll goes straight to the
/// receiver.
pub open spec fn failure_governs<Q>(failure: ProtoError, event: ConnectEvent<Q>, action: ConnectAction<Q>) -> bool {
    &&& !(action is HandOver)
    &&& action_error(action) is Some ==> action_error(action) == Some(failure)
    &&& taken_request(event) is Some ==> action == ConnectAction::Respond(
        failure,
        taken_request(event).unwrap(),
    )
    &&& receiver_done(event) ==> action == ConnectAction::<Q>::Fail(failure)
    &&& event is Polled ==> action is PollOutbound
}

proof fn lemma_connect_from_unresolved<Q>(phase: ConnectPhase, events: Seq<ConnectEvent<Q>>)
    requires
        connect_run_accepted(phase, events),
        connect_unresolved(phase),
    ensures
        forall|i: int, j: int|
            0 <= i < j < events.len() && (#[trigger] connect_run(phase, events)[i]) is HandOver
                ==> (#[trigger] connect_run(phase, events)[j]) is PollConnect || connect_run(
                phase,
                events,
            )[j] is Yield,
        forall|k: int, j: int|
            0 <= k < j < events.len() && (#[trigger] connect_run(phase, events)[j]) is HandOver
                ==> (#[trigger] connect_run(phase, events)[k]) is PollConnect || connect_run(
                phase,
                events,
            )[k] is Yield,
        forall|i: int, j: int|
            0 <= i <= j < events.len() && (#[trigger] connect_failure(events[i])) is Some
                ==> failure_governs(
                connect_failure(events[i]).unwrap(),
                events[j],
                #[trigger] connect_run(phase, events)[j],
            ),
        forall|j: int|
            0 <= j < events.len() && (#[trigger] action_error(connect_run(phase, events)[j])) is Some
                ==> exists|i: int|
                0 <= i < j && #[trigger] connect_failure(events[i]) == action_error(
                    connect_run(phase, events)[j],
                ),
        forall|j: int|
            0 <= j < events.len() && (#[trigger] connect_run(phase, events)[j]) is PollOutbound
                ==> exists|i: int| 0 <= i <= j && (#[trigger] connect_failure(events[i])) is Some,
    decreases events.len(),
{
    lemma_connect_run_len(phase, events);
    if events.len() > 0 {
        let next = connect_next(phase, events[0]).0;
        let rest = events.drop_first();
        let run = connect_run(phase, events);
        lemma_connect_run_len(next, rest);
        assert forall|j: int| 1 <= j < events.len() implies run[j] == connect_run(next, rest)[j
            - 1] && events[j] == rest[j - 1] by {}
        if connect_unresolved(next) {
            lemma_connect_from_unresolved(next, rest);
            assert(run[0] is PollConnect || run[0] is Yield);
            assert forall|k: int, j: int|
                0 <= k < j < events.len() && (#[trigger] run[j]) is HandOver implies (
                #[trigger] run[k]) is PollConnect || run[k] is Yield by {
                if k > 0 {
                    assert(run[k] == connect_run(next, rest)[k - 1]);
                    assert(run[j] == connect_run(next, rest)[j - 1]);
                }
            }
            assert forall|j: int|
                0 <= j < events.len() && (#[trigger] run[j]) is PollOutbound implies exists|i: int|
                0 <= i <= j && (#[trigger] connect_failure(events[i])) is Some by {
                assert(j > 0);
                assert(run[j] == connect_run(next, rest)[j - 1]);
                let i = choose|i: int|
                    0 <= i <= j - 1 && (#[trigger] connect_failure(rest[i])) is Some;
                assert(events[i + 1] == rest[i]);
            }
            assert forall|j: int|
                0 <= j < events.len() && (#[trigger] action_error(run[j])) is Some implies exists|
                i: int,
            | 0 <= i < j && #[trigger] connect_failure(events[i]) == action_error(run[j]) by {
                let i = choose|i: int|
                    0 <= i < j - 1 && #[trigger] connect_failure(rest[i]) == action_error(
                        connect_run(next, rest)[j - 1],
                    );
                assert(events[i + 1] == rest[i]);
            }
            assert forall|i: int, j: int|
                0 <= i <= j < events.len() && (#[trigger] connect_failure(events[i])) is Some implies failure_governs(
                connect_failure(events[i]).unwrap(),
                events[j],
                #[trigger] run[j],
            ) by {
                assert(i > 0);
                assert(rest[i - 1] == events[i]);
                assert(run[j] == connect_run(next, rest)[j - 1]);
                assert(rest[j - 1] == events[j]);
            }
        } else if events[0] == ConnectEvent::<Q>::Connect(ConnectPoll::Connected) {
            lemma_connect_handed_over_stays(next, rest);
            assert forall|i: int, j: int|
                0 <= i <= j < events.len() && (#[trigger] connect_failure(events[i])) is Some implies failure_governs(
                connect_failure(events[i]).unwrap(),
                events[j],
                #[trigger] run[j],
            ) by {
                assert(i > 0);
                assert(rest[i - 1] == events[i]);
            }
            assert forall|j: int|
                0 <= j < events.len() && (#[trigger] action_error(run[j])) is Some implies exists|
                i: int,
            | 0 <= i < j && #[trigger] connect_failure(events[i]) == action_error(run[j]) by {
                assert(j > 0);
                assert(run[j] == connect_run(next, rest)[j - 1]);
            }
            assert forall|k: int, j: int|
                0 <= k < j < events.len() && (#[trigger] run[j]) is HandOver implies (
                #[trigger] run[k]) is PollConnect || run[k] is Yield by {
                assert(run[j] == connect_run(next, rest)[j - 1]);
            }
            assert forall|j: int|
                0 <= j < events.len() && (#[trigger] run[j]) is PollOutbound implies exists|i: int|
                0 <= i <= j && (#[trigger] connect_failure(events[i])) is Some by {
                assert(j > 0);
                assert(run[j] == connect_run(next, rest)[j - 1]);
            }
        } else {
            let e = connect_error(next).unwrap();
            lemma_connect_failed_stays(next, rest, e);
            assert(connect_failure(events[0]) == Some(e));
            assert forall|i: int, j: int|
                0 <= i <= j < events.len() && (#[trigger] connect_failure(events[i])) is Some implies failure_governs(
                connect_failure(events[i]).unwrap(),
                events[j],
                #[trigger] run[j],
            ) by {
                if i > 0 {
                    assert(rest[i - 1] == events[i]);
                }
                if j > 0 {
                    assert(run[j] == connect_run(next, rest)[j - 1]);
                    assert(rest[j - 1] == events[j]);
                }
            }
            assert forall|j: int|
                0 <= j < events.len() && (#[trigger] action_error(run[j])) is Some implies exists|
                i: int,
            | 0 <= i < j && #[trigger] connect_failure(events[i]) == action_error(run[j]) by {
                assert(j > 0);
                assert(run[j] == connect_run(next, rest)[j - 1]);
                assert(connect_failure(events[0]) == action_error(run[j]));
            }
            assert forall|k: int, j: int|
                0 <= k < j < events.len() && (#[trigger] run[j]) is HandOver implies (
                #[trigger] run[k]) is PollConnect || run[k] is Yield by {
                assert(run[j] == connect_run(next, rest)[j - 1]);
            }
            assert forall|j: int|
                0 <= j < events.len() && (#[trigger] run[j]) is PollOutbound implies exists|i: int|
                0 <= i <= j && (#[trigger] connect_failure(events[i])) is Some by {
                assert(connect_failure(events[0]) is Some);
            }
        }
    }
}

/// A connection resolves at most once, and the queue reaches the exchange
/// untouched: the receiver is polled only once connecting has failed;
/// before the stream and the receiver are handed over, the
/// connecting exchange only polls the connect future and yields, so it takes
/// no request from the receiver; the hand-over happens at most once, and after
/// it the connecting exchange only polls the finished connect future and
/// yields, answering and failing nothing.
pub proof fn law_connect_hands_over_once<Q>(events: Seq<ConnectEvent<Q>>)
    requires
        connect_run_accepted(ConnectPhase::Connecting { receiver: true }, events),
    ensures
        forall|j: int|
            0 <= j < events.len() && (#[trigger] connect_run(
                ConnectPhase::Connecting { receiver: true },
                events,
            )[j]) is PollOutbound ==> exists|i: int|
                0 <= i <= j && (#[trigger] connect_failure(events[i])) is Some,
        forall|k: int, j: int|
            0 <= k < j < events.len() && (#[trigger] connect_run(
                ConnectPhase::Connecting { receiver: true },
                events,
            )[j]) is HandOver ==> (#[trigger] connect_run(
                ConnectPhase::Connecting { receiver: true },
                events,
            )[k]) is PollConnect || connect_run(
                ConnectPhase::Connecting { receiver: true },
                events,
            )[k] is Yield,
        forall|i: int, j: int|
            0 <= i < j < events.len() && (#[trigger] connect_run(
                ConnectPhase::Connecting { receiver: true },
                events,
            )[i]) is HandOver ==> (#[trigger] connect_run(
                ConnectPhase::Connecting { receiver: true },
                events,
            )[j]) is PollConnect || connect_run(
                ConnectPhase::Connecting { receiver: true },
                events,
            )[j] is Yield,
{
    lemma_connect_from_unresolved(ConnectPhase::Connecting { receiver: true }, events);
}

/// When connecting fails with an error, every request taken afterwards (those
/// that waited and those that come later) is answered with that error, each
/// poll that finds the receiver closed or failed fails with that same error,
/// and the stream is never handed over. And every error that is answered or
/// failed with is one that connecting failed with.
pub proof fn law_connect_failure_answers_all<Q>(events: Seq<ConnectEvent<Q>>)
    requires
        connect_run_accepted(ConnectPhase::Connecting { receiver: true }, events),
    ensures
        forall|i: int, j: int|
            0 <= i <= j < events.len() && (#[trigger] connect_failure(events[i])) is Some
                ==> failure_governs(
                connect_failure(events[i]).unwrap(),
                events[j],
                #[trigger] connect_run(ConnectPhase::Connecting { receiver: true }, events)[j],
            ),
        forall|j: int|
            0 <= j < events.len() && (#[trigger] action_error(
                connect_run(ConnectPhase::Connecting { receiver: true }, events)[j],
            )) is Some ==> exists|i: int|
                0 <= i < j && #[trigger] connect_failure(events[i]) == action_error(
                    connect_run(ConnectPhase::Connecting { receiver: true }, events)[j],
                ),
{
    lemma_connect_from_unresolved(ConnectPhase::Connecting { receiver: true }, events);
}


/// The phase that the connecting exchange stands in after the first `i`
/// events, starting in the phase.
pub open spec fn connect_phase_at<Q>(phase: ConnectPhase, events: Seq<ConnectEvent<Q>>, i: int) -> ConnectPhase
    decreases i,
{
    if i <= 0 || events.len() == 0 {
        phase
    } else {
        connect_phase_at(connect_next(phase, events[0]).0, events.drop_first(), i - 1)
    }
}

/// In an accepted run, each event is accepted in the phase reached before
/// it, and the action and the phase after it are its transition.
proof fn lemma_connect_run_at<Q>(phase: ConnectPhase, events: Seq<ConnectEvent<Q>>, i: int)
    requires
        connect_run_accepted(phase, events),
        0 <= i < events.len(),
    ensures
        connect_accepts(connect_phase_at(phase, events, i), events[i]),
        connect_run(phase, events)[i] == connect_next(connect_phase_at(phase, events, i), events[i]).1,
        connect_phase_at(phase, events, i + 1) == connect_next(
            connect_phase_at(phase, events, i),
            events[i],
        ).0,
    decreases i,
{
    let next = connect_next(phase, events[0]).0;
    let rest = events.drop_first();
    lemma_connect_run_len(phase, events);
    lemma_connect_run_len(next, rest);
    if i > 0 {
        lemma_connect_run_at(next, rest, i - 1);
        assert(rest[i - 1] == events[i]);
        assert(connect_run(phase, events)[i] == connect_run(next, rest)[i - 1]);
    } else {
        assert(connect_phase_at(next, rest, 0) == next);
    }
}

proof fn lemma_connect_run_push<Q>(
    phase: ConnectPhase,
    events: Seq<ConnectEvent<Q>>,
    event: ConnectEvent<Q>,
)
    requires
        connect_run_accepted(phase, events),
        connect_accepts(connect_phase_at(phase, events, events.len() as int), event),
    ensures
        connect_run_accepted(phase, events.push(event)),
        connect_run(phase, events.push(event)) == connect_run(phase, events).push(
            connect_next(connect_phase_at(phase, events, events.len() as int), event).1,
        ),
    decreases events.len(),
{
    let ev = events.push(event);
    if events.len() == 0 {
        assert(ev.drop_first() =~= Seq::<ConnectEvent<Q>>::empty());
        assert(connect_run_accepted(connect_next(phase, event).0, ev.drop_first()));
        assert(connect_run(connect_next(phase, event).0, ev.drop_first()) =~= Seq::<
            ConnectAction<Q>,
        >::empty());
        assert(connect_run(phase, ev) =~= connect_run(phase, events).push(
            connect_next(phase, event).1,
        ));
    } else {
        let next = connect_next(phase, events[0]).0;
        assert(ev.drop_first() =~= events.drop_first().push(event));
        assert(ev[0] == events[0]);
        lemma_connect_run_push(next, events.drop_first(), event);
        assert(connect_run(phase, ev) =~= connect_run(phase, events).push(
            connect_next(connect_phase_at(phase, events, events.len() as int), event).1,
        ));
    }
}

/// A poll always ends in a state from which the connecting exchange can be
/// polled again: after an accepted run whose last action yields or fails,
/// the next poll is accepted, and it polls the connect future if the
/// connection has not failed, or the receiver if it has. In particular a
/// connecting exchange that failed and yielded on an empty queue answers the
/// requests queued later, and one that failed and reported it keeps
/// answering and failing.
pub proof fn law_connect_poll_again<Q>(phase: ConnectPhase, events: Seq<ConnectEvent<Q>>)
    requires
        connect_run_accepted(phase, events),
        events.len() > 0,
        connect_run(phase, events).last() is Yield || connect_run(phase, events).last() is Fail,
    ensures
        connect_run_accepted(phase, events.push(ConnectEvent::Polled)),
        connect_run(phase, events.push(ConnectEvent::Polled)).last() is PollConnect || connect_run(
            phase,
            events.push(ConnectEvent::Polled),
        ).last() is PollOutbound,
        connect_error(connect_phase_at(phase, events, events.len() as int)) is Some
            ==> connect_run(phase, events.push(ConnectEvent::Polled)).last() is PollOutbound,
{
    let n = events.len() as int;
    lemma_connect_run_len(phase, events);
    lemma_connect_run_at(phase, events, n - 1);
    lemma_connect_run_push(phase, events, ConnectEvent::Polled);
}

/// How the connecting exchange meets each outcome, in every run it accepts:
/// a connection made is handed over at once; a connection failure is
/// followed at once, in the same poll, by polling the receiver, so the
/// waiting requests are answered without waiting for another wake-up; a
/// connect future or a queue that is not ready ends the poll with a yield;
/// an error response sent is followed by polling the receiver again; and a
/// poll starts with the connect future or, once connecting failed, with the
/// receiver.
pub proof fn law_connect_outcomes<Q>(phase: ConnectPhase, events: Seq<ConnectEvent<Q>>)
    requires
        connect_run_accepted(phase, events),
    ensures
        forall|i: int|
            0 <= i < events.len() && #[trigger] events[i] == ConnectEvent::<Q>::Connect(
                ConnectPoll::Connected,
            ) ==> connect_run(phase, events)[i] is HandOver,
        forall|i: int|
            0 <= i < events.len() && (#[trigger] connect_failure(events[i])) is Some ==> connect_run(
                phase,
                events,
            )[i] is PollOutbound,
        forall|i: int|
            0 <= i < events.len() && (#[trigger] events[i] == ConnectEvent::<Q>::Connect(
                ConnectPoll::Pending,
            ) || events[i] == ConnectEvent::<Q>::Outbound(OutboundPoll::Pending)) ==> connect_run(
                phase,
                events,
            )[i] is Yield,
        forall|i: int|
            0 <= i < events.len() && #[trigger] events[i] == ConnectEvent::<Q>::Responded
                ==> connect_run(phase, events)[i] is PollOutbound,
        forall|i: int|
            0 <= i < events.len() && (#[trigger] events[i]) is Polled ==> {
                ||| connect_run(phase, events)[i] is PollConnect
                ||| connect_run(phase, events)[i] is PollOutbound
            },
{
    lemma_connect_run_len(phase, events);
    assert forall|i: int|
        0 <= i < events.len() && #[trigger] events[i] == ConnectEvent::<Q>::Connect(
            ConnectPoll::Connected,
        ) implies connect_run(phase, events)[i] is HandOver by {
        lemma_connect_run_at(phase, events, i);
    }
    assert forall|i: int|
        0 <= i < events.len() && (#[trigger] connect_failure(events[i])) is Some implies connect_run(
        phase,
        events,
    )[i] is PollOutbound by {
        lemma_connect_run_at(phase, events, i);
    }
    assert forall|i: int|
        0 <= i < events.len() && (#[trigger] events[i] == ConnectEvent::<Q>::Connect(
            ConnectPoll::Pending,
        ) || events[i] == ConnectEvent::<Q>::Outbound(OutboundPoll::Pending)) implies connect_run(
        phase,
        events,
    )[i] is Yield by {
        lemma_connect_run_at(phase, events, i);
    }
    assert forall|i: int|
        0 <= i < events.len() && #[trigger] events[i] == ConnectEvent::<Q>::Responded implies connect_run(
        phase,
        events,
    )[i] is PollOutbound by {
        lemma_connect_run_at(phase, events, i);
    }
    assert forall|i: int| 0 <= i < events.len() && (#[trigger] events[i]) is Polled implies {
        ||| connect_run(phase, events)[i] is PollConnect
        ||| connect_run(phase, events)[i] is PollOutbound
    } by {
        lemma_connect_run_at(phase, events, i);
    }
}

/// A failed connection keeps answering across polls: for every error and
/// every two requests, the run "poll, connecting fails, queue empty; poll,
/// a request comes, it is answered; queue closed; poll, a request comes, it
/// is answered" is accepted, and the connecting exchange polls the connect
/// future, polls the queue at once after the failure, yields, answers the
/// first request with the error, fails with the error when the queue
/// closes, and, polled again, answers the second request with the error.
pub proof fn law_connect_failure_survives_polls<Q>(e: ProtoError, q1: Q, q2: Q)
    ensures
        ({
            let events = seq![
                ConnectEvent::Polled,
                ConnectEvent::Connect(ConnectPoll::Failed(e)),
                ConnectEvent::Outbound(OutboundPoll::Pending),
                ConnectEvent::Polled,
                ConnectEvent::Outbound(OutboundPoll::Request(q1)),
                ConnectEvent::Responded,
                ConnectEvent::Outbound(OutboundPoll::Closed),
                ConnectEvent::Polled,
                ConnectEvent::Outbound(OutboundPoll::Request(q2)),
            ];
            &&& connect_run_accepted(ConnectPhase::Connecting { receiver: true }, events)
            &&& connect_run(ConnectPhase::Connecting { receiver: true }, events) == seq![
                ConnectAction::PollConnect,
                ConnectAction::PollOutbound,
                ConnectAction::Yield,
                ConnectAction::PollOutbound,
                ConnectAction::Respond(e, q1),
                ConnectAction::PollOutbound,
                ConnectAction::Fail(e),
                ConnectAction::PollOutbound,
                ConnectAction::Respond(e, q2),
            ]
        }),
{
    reveal_with_fuel(connect_run_accepted, 10);
    reveal_with_fuel(connect_run, 10);
}

} // verus!
