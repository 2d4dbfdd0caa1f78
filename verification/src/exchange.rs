//! The decisions of a DNS exchange over a multiplexed connection.
//!
//! An exchange drives two outside parties each time it is polled: the io
//! stream, which carries requests to a server and responses back, and the
//! receiver of outbound messages, on which handles queue up requests. The
//! exchange does not accept new requests while the stream has work to do,
//! which makes it throttle itself: each round first drives the stream, then
//! takes at most one request and sends it.
//!
//! `DnsExchangeState` is that logic as a state machine. Its owner performs
//! each `ExchangeAction` and reports what came of it as an `ExchangeEvent`.
//! A request taken from the receiver travels in the event that reports it
//! and comes back in the action that sends it; `Q` is its type.
use vstd::prelude::*;

use crate::error::ProtoError;

verus! {

/// What polling the io stream gave.
pub enum StreamPoll {
    /// The stream made progress (`Ready(Some(Ok(())))`).
    Progress,
    /// The stream is not ready; `shutdown` is what the stream said when
    /// asked, right after, whether it is shut down.
    Pending { shutdown: bool },
    /// The stream has ended (`Ready(None)`).
    Ended,
    /// The stream failed with the error.
    Failed(ProtoError),
}

/// What polling the receiver of outbound messages gave.
pub enum OutboundPoll<Q> {
    /// This request was taken from the queue.
    Request(Q),
    /// No request is ready.
    Pending,
    /// Every handle is gone: no request can come any more.
    Closed,
    /// The receiver failed.
    Failed,
}

/// What came of handing a sent request's response to its requester.
pub enum SendOutcome {
    /// The response future reached the requester.
    Associated,
    /// The requester could not be reached.
    Unassociated,
}

/// What the owner of the exchange reports.
pub enum ExchangeEvent<Q> {
    /// The exchange is polled.
    Polled,
    /// The io stream was polled.
    Stream(StreamPoll),
    /// The outbound receiver was polled.
    Outbound(OutboundPoll<Q>),
    /// The request was sent on the stream and its response handed on.
    Sent(SendOutcome),
    /// The stream was told to shut down.
    ShutDown,
}

/// What the owner of the exchange is to do next.
pub enum ExchangeAction<Q> {
    /// Poll the io stream.
    PollStream,
    /// Poll the receiver of outbound messages.
    PollOutbound,
    /// Send the request on the stream, and hand the response future to the
    /// request's requester.
    SendRequest(Q),
    /// Tell the io stream to shut down.
    ShutdownStream,
    /// End this poll: the exchange is not ready (`Poll::Pending`).
    Yield,
    /// End this poll: the exchange is complete with the result.
    Complete(Result<(), ProtoError>),
}

/// Where an exchange stands.
pub enum ExchangePhase {
    /// Between polls.
    Idle,
    /// Waiting for the outcome of polling the stream.
    AwaitStream,
    /// Waiting for the outcome of polling the outbound receiver.
    AwaitOutbound,
    /// Waiting for the outcome of sending a taken request.
    AwaitSend,
    /// Waiting for the stream to be told to shut down.
    AwaitShutdown,
}

/// Whether the event is one that the phase waits for.
pub open spec fn exchange_accepts<Q>(phase: ExchangePhase, event: ExchangeEvent<Q>) -> bool {
    match phase {
        ExchangePhase::Idle => event is Polled,
        ExchangePhase::AwaitStream => event is Stream,
        ExchangePhase::AwaitOutbound => event is Outbound,
        ExchangePhase::AwaitSend => event is Sent,
        ExchangePhase::AwaitShutdown => event is ShutDown,
    }
}

/// The action that the exchange takes on an event. It depends on the event
/// alone: the phase only decides which events may come.
pub open spec fn exchange_reaction<Q>(event: ExchangeEvent<Q>) -> ExchangeAction<Q> {
    match event {
        ExchangeEvent::Polled => ExchangeAction::PollStream,
        ExchangeEvent::Stream(s) => match s {
            StreamPoll::Progress => ExchangeAction::PollOutbound,
            StreamPoll::Pending { shutdown } => if shutdown {
                ExchangeAction::Yield
            } else {
                ExchangeAction::PollOutbound
            },
            StreamPoll::Ended => ExchangeAction::Complete(Ok(())),
            StreamPoll::Failed(e) => ExchangeAction::Complete(Err(e)),
        },
        ExchangeEvent::Outbound(o) => match o {
            OutboundPoll::Request(q) => ExchangeAction::SendRequest(q),
            OutboundPoll::Pending => ExchangeAction::Yield,
            OutboundPoll::Closed => ExchangeAction::ShutdownStream,
            OutboundPoll::Failed => ExchangeAction::Complete(Err(ProtoError::OutboundReceiver)),
        },
        ExchangeEvent::Sent(s) => match s {
            SendOutcome::Associated => ExchangeAction::PollStream,
            SendOutcome::Unassociated => ExchangeAction::Complete(
                Err(ProtoError::UnassociatedResponse),
            ),
        },
        ExchangeEvent::ShutDown => ExchangeAction::PollStream,
    }
}

/// The phase in which the exchange waits once it has asked for the action:
/// for the outcome of that action, or, when the action ends the poll, for
/// the next poll.
pub open spec fn exchange_phase_after<Q>(action: ExchangeAction<Q>) -> ExchangePhase {
    match action {
        ExchangeAction::PollStream => ExchangePhase::AwaitStream,
        ExchangeAction::PollOutbound => ExchangePhase::AwaitOutbound,
        ExchangeAction::SendRequest(_) => ExchangePhase::AwaitSend,
        ExchangeAction::ShutdownStream => ExchangePhase::AwaitShutdown,
        ExchangeAction::Yield => ExchangePhase::Idle,
        ExchangeAction::Complete(_) => ExchangePhase::Idle,
    }
}

/// The decision state of a DNS exchange.
pub struct DnsExchangeState {
    phase: ExchangePhase,
}

impl DnsExchangeState {
    /// The phase the exchange stands in.
    pub closed spec fn phase_spec(&self) -> ExchangePhase {
        self.phase
    }

    /// A new exchange, between polls.
    pub fn new() -> (s: DnsExchangeState)
        ensures
            s.phase_spec() == ExchangePhase::Idle,
    {
        DnsExchangeState { phase: ExchangePhase::Idle }
    }

    /// Whether the exchange is between polls.
    pub fn is_idle(&self) -> (b: bool)
        ensures
            b <==> self.phase_spec() is Idle,
    {
        match self.phase {
            ExchangePhase::Idle => true,
            _ => false,
        }
    }

    /// Whether the exchange waits for this event.
    pub fn accepts<Q>(&self, event: &ExchangeEvent<Q>) -> (b: bool)
        ensures
            b == exchange_accepts(self.phase_spec(), *event),
    {
        match (&self.phase, event) {
            (ExchangePhase::Idle, ExchangeEvent::Polled) => true,
            (ExchangePhase::AwaitStream, ExchangeEvent::Stream(_)) => true,
            (ExchangePhase::AwaitOutbound, ExchangeEvent::Outbound(_)) => true,
            (ExchangePhase::AwaitSend, ExchangeEvent::Sent(_)) => true,
            (ExchangePhase::AwaitShutdown, ExchangeEvent::ShutDown) => true,
            _ => false,
        }
    }

    /// Takes in what came of the last action and decides the next one.
    pub fn step<Q>(&mut self, event: ExchangeEvent<Q>) -> (action: ExchangeAction<Q>)
        requires
            exchange_accepts(old(self).phase_spec(), event),
        ensures
            action == exchange_reaction(event),
            final(self).phase_spec() == exchange_phase_after(action),
    {
        match event {
            ExchangeEvent::Polled => {
                self.phase = ExchangePhase::AwaitStream;
                ExchangeAction::PollStream
            },
            ExchangeEvent::Stream(s) => match s {
                StreamPoll::Progress => {
                    self.phase = ExchangePhase::AwaitOutbound;
                    ExchangeAction::PollOutbound
                },
                StreamPoll::Pending { shutdown } => {
                    if shutdown {
                        // the stream only finishes what it has: take no new request
                        self.phase = ExchangePhase::Idle;
                        ExchangeAction::Yield
                    } else {
                        self.phase = ExchangePhase::AwaitOutbound;
                        ExchangeAction::PollOutbound
                    }
                },
                StreamPoll::Ended => {
                    self.phase = ExchangePhase::Idle;
                    ExchangeAction::Complete(Ok(()))
                },
                StreamPoll::Failed(e) => {
                    self.phase = ExchangePhase::Idle;
                    ExchangeAction::Complete(Err(e))
                },
            },
            ExchangeEvent::Outbound(o) => match o {
                OutboundPoll::Request(q) => {
                    self.phase = ExchangePhase::AwaitSend;
                    ExchangeAction::SendRequest(q)
                },
                OutboundPoll::Pending => {
                    self.phase = ExchangePhase::Idle;
                    ExchangeAction::Yield
                },
                OutboundPoll::Closed => {
                    // nothing can use the connection any more: shut it down, then
                    // drive the stream until it ends
                    self.phase = ExchangePhase::AwaitShutdown;
                    ExchangeAction::ShutdownStream
                },
                OutboundPoll::Failed => {
                    self.phase = ExchangePhase::Idle;
                    ExchangeAction::Complete(Err(ProtoError::OutboundReceiver))
                },
            },
            ExchangeEvent::Sent(s) => match s {
                SendOutcome::Associated => {
                    self.phase = ExchangePhase::AwaitStream;
                    ExchangeAction::PollStream
                },
                SendOutcome::Unassociated => {
                    self.phase = ExchangePhase::Idle;
                    ExchangeAction::Complete(Err(ProtoError::UnassociatedResponse))
                },
            },
            ExchangeEvent::ShutDown => {
                self.phase = ExchangePhase::AwaitStream;
                ExchangeAction::PollStream
            },
        }
    }
}

/// Whether the exchange, starting in the phase, accepts each event of the
/// sequence in turn.
pub open spec fn exchange_run_accepted<Q>(phase: ExchangePhase, events: Seq<ExchangeEvent<Q>>) -> bool
    decreases events.len(),
{
    if events.len() == 0 {
        true
    } else {
        let action = exchange_reaction(events[0]);
        exchange_accepts(phase, events[0]) && exchange_run_accepted(
            exchange_phase_after(action),
            events.drop_first(),
        )
    }
}

/// The actions that the exchange asks for, one per event, when the events
/// come in turn.
pub open spec fn exchange_run<Q>(events: Seq<ExchangeEvent<Q>>) -> Seq<ExchangeAction<Q>> {
    events.map_values(|e: ExchangeEvent<Q>| exchange_reaction(e))
}

proof fn lemma_exchange_run_first<Q>(phase: ExchangePhase, events: Seq<ExchangeEvent<Q>>)
    requires
        exchange_run_accepted(phase, events),
        events.len() > 0,
    ensures
        exchange_accepts(phase, events[0]),
        exchange_run_accepted(exchange_phase_after(exchange_run(events)[0]), events.drop_first()),
        exchange_run(events) == seq![exchange_run(events)[0]] + exchange_run(events.drop_first()),
{
    assert(exchange_run(events) =~= seq![exchange_run(events)[0]] + exchange_run(
        events.drop_first(),
    ));
}

/// In a run that the exchange accepts, the event at an index is accepted in
/// the phase that the action before it (or the start) left.
proof fn lemma_exchange_run_accepts_at<Q>(
    phase: ExchangePhase,
    events: Seq<ExchangeEvent<Q>>,
    i: int,
)
    requires
        exchange_run_accepted(phase, events),
        0 <= i < events.len(),
    ensures
        exchange_accepts(
            if i == 0 {
                phase
            } else {
                exchange_phase_after(exchange_run(events)[i - 1])
            },
            events[i],
        ),
    decreases i,
{
    lemma_exchange_run_first(phase, events);
    if i > 0 {
        let rest = events.drop_first();
        lemma_exchange_run_accepts_at(exchange_phase_after(exchange_run(events)[0]), rest, i - 1);
        assert(rest[i - 1] == events[i]);
        if i > 1 {
            assert(exchange_run(rest)[i - 2] == exchange_run(events)[i - 1]);
        }
    }
}

/// The exchange throttles itself: in every run from between polls, it polls
/// the outbound receiver only right after it has polled the io stream. So it
/// never takes two requests without driving the stream in between.
pub proof fn law_exchange_polls_stream_before_taking<Q>(events: Seq<ExchangeEvent<Q>>)
    requires
        exchange_run_accepted(ExchangePhase::Idle, events),
    ensures
        forall|i: int|
            0 <= i < events.len() && (#[trigger] exchange_run(events)[i]) is PollOutbound ==> i
                > 0 && exchange_run(events)[i - 1] is PollStream,
{
    assert forall|i: int|
        0 <= i < events.len() && (#[trigger] exchange_run(events)[i]) is PollOutbound implies i
        > 0 && exchange_run(events)[i - 1] is PollStream by {
        lemma_exchange_run_accepts_at(ExchangePhase::Idle, events, i);
    }
}

/// The request that the event reports taken from the receiver, if it does.
pub open spec fn outbound_request<Q>(event: ExchangeEvent<Q>) -> Option<Q> {
    match event {
        ExchangeEvent::Outbound(OutboundPoll::Request(q)) => Some(q),
        _ => None,
    }
}

/// The request that the action sends, if it sends one.
pub open spec fn sent_request<Q>(action: ExchangeAction<Q>) -> Option<Q> {
    match action {
        ExchangeAction::SendRequest(q) => Some(q),
        _ => None,
    }
}

/// The exchange sends exactly the requests it takes, each one at once and
/// once: an action sends a request exactly when the outbound poll it answers
/// took one, and it sends that request. After
/// sending, the exchange drives the stream again, unless the response could
/// not be handed to the requester, which ends the exchange with that error.
pub proof fn law_exchange_send_then_stream<Q>(events: Seq<ExchangeEvent<Q>>)
    requires
        exchange_run_accepted(ExchangePhase::Idle, events),
    ensures
        forall|i: int|
            0 <= i < events.len() ==> sent_request(#[trigger] exchange_run(events)[i])
                == outbound_request(events[i]),
        forall|i: int|
            0 <= i < events.len() - 1 && (#[trigger] exchange_run(events)[i]) is SendRequest ==> {
                ||| exchange_run(events)[i + 1] is PollStream
                ||| exchange_run(events)[i + 1] == ExchangeAction::<Q>::Complete(
                    Err(ProtoError::UnassociatedResponse),
                )
            },
{
    assert forall|i: int|
        0 <= i < events.len() - 1 && (#[trigger] exchange_run(events)[i]) is SendRequest implies {
        ||| exchange_run(events)[i + 1] is PollStream
        ||| exchange_run(events)[i + 1] == ExchangeAction::<Q>::Complete(
            Err(ProtoError::UnassociatedResponse),
        )
    } by {
        lemma_exchange_run_accepts_at(ExchangePhase::Idle, events, i + 1);
    }
}

/// When every handle is gone, the exchange shuts the stream down and then
/// goes on driving the stream, so that the answers still due arrive.
pub proof fn law_exchange_shutdown_then_stream<Q>(events: Seq<ExchangeEvent<Q>>)
    requires
        exchange_run_accepted(ExchangePhase::Idle, events),
    ensures
        forall|i: int|
            0 <= i < events.len() && #[trigger] events[i] == ExchangeEvent::Outbound(
                OutboundPoll::<Q>::Closed,
            ) ==> exchange_run(events)[i] is ShutdownStream,
        forall|i: int|
            0 <= i < events.len() - 1 && (#[trigger] exchange_run(events)[i]) is ShutdownStream
                ==> exchange_run(events)[i + 1] is PollStream,
{
    assert forall|i: int|
        0 <= i < events.len() - 1 && (#[trigger] exchange_run(events)[i]) is ShutdownStream implies exchange_run(
        events,
    )[i + 1] is PollStream by {
        lemma_exchange_run_accepts_at(ExchangePhase::Idle, events, i + 1);
    }
}

/// Once the exchange has shut the stream down because every handle was
/// gone, it sends no request any more, in this poll or any later one, as
/// long as the receiver stays closed (every later outbound poll finds it
/// closed).
pub proof fn law_exchange_no_send_after_shutdown<Q>(events: Seq<ExchangeEvent<Q>>, i: int)
    requires
        exchange_run_accepted(ExchangePhase::Idle, events),
        0 <= i < events.len(),
        exchange_run(events)[i] is ShutdownStream,
        forall|k: int|
            i < k < events.len() && (#[trigger] events[k]) is Outbound ==> events[k]
                == ExchangeEvent::Outbound(OutboundPoll::<Q>::Closed),
    ensures
        forall|k: int| i < k < events.len() ==> !((#[trigger] exchange_run(events)[k]) is SendRequest),
{
    assert forall|k: int| i < k < events.len() implies !((#[trigger] exchange_run(
        events,
    )[k]) is SendRequest) by {
        if events[k] is Outbound {
            assert(events[k] == ExchangeEvent::Outbound(OutboundPoll::<Q>::Closed));
        }
    }
}

/// The stream outcome that lets the exchange go on taking requests: progress
/// (`true`) or not ready, without being shut down (`false`).
pub open spec fn live_stream_poll(progress: bool) -> StreamPoll {
    if progress {
        StreamPoll::Progress
    } else {
        StreamPoll::Pending { shutdown: false }
    }
}

/// The outcomes that one poll of the exchange meets, from polling the stream
/// on, when the requests are queued, the stream stays live (its outcomes
/// given by `stream`, one per round), and each response reaches its
/// requester: per queued request a stream poll, the request, and its
/// successful send; then a stream poll and an empty queue.
pub open spec fn queued_poll_rounds<Q>(stream: Seq<bool>, requests: Seq<Q>) -> Seq<ExchangeEvent<Q>>
    decreases requests.len(),
{
    if requests.len() == 0 {
        seq![
            ExchangeEvent::Stream(live_stream_poll(stream[0])),
            ExchangeEvent::Outbound(OutboundPoll::Pending),
        ]
    } else {
        seq![
            ExchangeEvent::Stream(live_stream_poll(stream[0])),
            ExchangeEvent::Outbound(OutboundPoll::Request(requests[0])),
            ExchangeEvent::Sent(SendOutcome::Associated),
        ] + queued_poll_rounds(stream.drop_first(), requests.drop_first())
    }
}

/// The actions of that poll from the first stream poll's outcome on: per
/// queued request, take it, send it, drive the stream; then take nothing and
/// yield.
pub open spec fn queued_poll_actions<Q>(requests: Seq<Q>) -> Seq<ExchangeAction<Q>>
    decreases requests.len(),
{
    if requests.len() == 0 {
        seq![ExchangeAction::PollOutbound, ExchangeAction::Yield]
    } else {
        seq![
            ExchangeAction::PollOutbound,
            ExchangeAction::SendRequest(requests[0]),
            ExchangeAction::PollStream,
        ] + queued_poll_actions(requests.drop_first())
    }
}

proof fn lemma_exchange_run_append<Q>(
    phase: ExchangePhase,
    a: Seq<ExchangeEvent<Q>>,
    b: Seq<ExchangeEvent<Q>>,
)
    requires
        a.len() > 0,
        exchange_run_accepted(phase, a),
        exchange_run_accepted(exchange_phase_after(exchange_run(a).last()), b),
    ensures
        exchange_run_accepted(phase, a + b),
        exchange_run(a + b) == exchange_run(a) + exchange_run(b),
    decreases a.len(),
{
    assert(exchange_run(a + b) =~= exchange_run(a) + exchange_run(b));
    let next = exchange_phase_after(exchange_reaction(a[0]));
    assert((a + b).drop_first() =~= a.drop_first() + b);
    assert((a + b)[0] == a[0]);
    if a.len() > 1 {
        assert(exchange_run(a.drop_first()).last() == exchange_run(a).last());
        lemma_exchange_run_append(next, a.drop_first(), b);
    } else {
        assert(a.drop_first() + b =~= b);
    }
}

proof fn lemma_queued_poll_rounds<Q>(stream: Seq<bool>, requests: Seq<Q>)
    requires
        stream.len() == requests.len() + 1,
    ensures
        queued_poll_rounds(stream, requests).len() == 3 * requests.len() + 2,
        exchange_run_accepted(ExchangePhase::AwaitStream, queued_poll_rounds(stream, requests)),
        exchange_run(queued_poll_rounds(stream, requests)) == queued_poll_actions(requests),
    decreases requests.len(),
{
    let ev = queued_poll_rounds(stream, requests);
    if requests.len() == 0 {
        assert(ev.drop_first().drop_first() =~= Seq::<ExchangeEvent<Q>>::empty());
        assert(exchange_run_accepted(ExchangePhase::Idle, ev.drop_first().drop_first()));
        assert(exchange_run_accepted(ExchangePhase::AwaitOutbound, ev.drop_first()));
        assert(exchange_run(ev) =~= queued_poll_actions(requests));
    } else {
        let head: Seq<ExchangeEvent<Q>> = seq![
            ExchangeEvent::Stream(live_stream_poll(stream[0])),
            ExchangeEvent::Outbound(OutboundPoll::Request(requests[0])),
            ExchangeEvent::Sent(SendOutcome::Associated),
        ];
        let tail = queued_poll_rounds(stream.drop_first(), requests.drop_first());
        lemma_queued_poll_rounds(stream.drop_first(), requests.drop_first());
        assert(head.drop_first().drop_first().drop_first() =~= Seq::<ExchangeEvent<Q>>::empty());
        assert(exchange_run(head) =~= seq![
            ExchangeAction::PollOutbound,
            ExchangeAction::SendRequest(requests[0]),
            ExchangeAction::PollStream,
        ]);
        assert(exchange_run_accepted(ExchangePhase::AwaitStream, head.drop_first().drop_first().drop_first()));
        assert(exchange_run_accepted(ExchangePhase::AwaitSend, head.drop_first().drop_first()));
        assert(exchange_run_accepted(ExchangePhase::AwaitOutbound, head.drop_first()));
        assert(exchange_run_accepted(ExchangePhase::AwaitStream, head));
        lemma_exchange_run_append(ExchangePhase::AwaitStream, head, tail);
        assert(ev == head + tail);
        assert(exchange_run(ev) =~= queued_poll_actions(requests));
    }
}

/// One poll of an exchange whose stream stays live and whose responses all
/// reach their requesters sends every queued request, in the order they were
/// queued, each exactly once, and then yields: the run is, request after
/// request, a stream poll, a take and a send of that request, and ends with a
/// stream poll, a take that finds the queue empty, and a yield.
pub proof fn law_exchange_poll_sends_queue_in_order<Q>(stream: Seq<bool>, requests: Seq<Q>)
    requires
        stream.len() == requests.len() + 1,
    ensures
        ({
            let events = seq![ExchangeEvent::Polled] + queued_poll_rounds(stream, requests);
            let run = exchange_run(events);
            &&& exchange_run_accepted(ExchangePhase::Idle, events)
            &&& run == seq![ExchangeAction::PollStream] + queued_poll_actions(requests)
            &&& run.len() == 3 * requests.len() + 3
            &&& forall|k: int|
                0 <= k < requests.len() ==> #[trigger] run[3 * k + 2] == ExchangeAction::SendRequest(
                    requests[k],
                )
            &&& forall|i: int|
                0 <= i < run.len() && (#[trigger] run[i]) is SendRequest ==> (i - 2) % 3 == 0
                    && 0 <= (i - 2) / 3 < requests.len()
            &&& run[3 * requests.len() as int + 2] is Yield
            &&& forall|i: int|
                0 <= i < 3 * requests.len() + 2 ==> !((#[trigger] run[i]) is Yield) && !(
                run[i] is Complete)
        }),
{
    let rounds = queued_poll_rounds(stream, requests);
    let first: Seq<ExchangeEvent<Q>> = seq![ExchangeEvent::Polled];
    let events = first + rounds;
    lemma_queued_poll_rounds(stream, requests);
    assert(first.drop_first() =~= Seq::<ExchangeEvent<Q>>::empty());
    assert(exchange_run(first) =~= seq![ExchangeAction::PollStream]);
    assert(exchange_run_accepted(ExchangePhase::AwaitStream, first.drop_first()));
    assert(exchange_run_accepted(ExchangePhase::Idle, first));
    lemma_exchange_run_append(ExchangePhase::Idle, first, rounds);
    lemma_queued_poll_actions(requests);
}

proof fn lemma_queued_poll_actions<Q>(requests: Seq<Q>)
    ensures
        ({
            let run = seq![ExchangeAction::PollStream] + queued_poll_actions(requests);
            &&& run.len() == 3 * requests.len() + 3
            &&& forall|k: int|
                0 <= k < requests.len() ==> #[trigger] run[3 * k + 2] == ExchangeAction::SendRequest(
                    requests[k],
                )
            &&& forall|i: int|
                0 <= i < run.len() && (#[trigger] run[i]) is SendRequest ==> (i - 2) % 3 == 0
                    && 0 <= (i - 2) / 3 < requests.len()
            &&& run[3 * requests.len() as int + 2] is Yield
            &&& forall|i: int|
                0 <= i < 3 * requests.len() + 2 ==> !((#[trigger] run[i]) is Yield) && !(
                run[i] is Complete)
        }),
    decreases requests.len(),
{
    let run = seq![ExchangeAction::PollStream] + queued_poll_actions(requests);
    if requests.len() > 0 {
        let rest = requests.drop_first();
        lemma_queued_poll_actions(rest);
        let run2 = seq![ExchangeAction::PollStream] + queued_poll_actions(rest);
        let head: Seq<ExchangeAction<Q>> = seq![
            ExchangeAction::PollStream,
            ExchangeAction::PollOutbound,
            ExchangeAction::SendRequest(requests[0]),
        ];
        assert(run =~= head + run2);
        assert forall|k: int| 0 <= k < requests.len() implies #[trigger] run[3 * k + 2]
            == ExchangeAction::SendRequest(requests[k]) by {
            if k > 0 {
                assert(run[3 * k + 2] == run2[3 * (k - 1) + 2]);
                assert(rest[k - 1] == requests[k]);
            }
        }
        assert forall|i: int|
            0 <= i < run.len() && (#[trigger] run[i]) is SendRequest implies (i - 2) % 3 == 0 && 0
            <= (i - 2) / 3 < requests.len() by {
            if i >= 3 {
                assert(run[i] == run2[i - 3]);
            }
        }
        assert forall|i: int| 0 <= i < 3 * requests.len() + 2 implies !((#[trigger] run[i]) is Yield)
            && !(run[i] is Complete) by {
            if i >= 3 {
                assert(run[i] == run2[i - 3]);
            }
        }
        assert(run[3 * requests.len() as int + 2] == run2[3 * rest.len() as int + 2]);
    } else {
        assert(run =~= seq![
            ExchangeAction::PollStream,
            ExchangeAction::PollOutbound,
            ExchangeAction::Yield,
        ]);
    }
}


/// The error that the event reports the stream failed with, if it does.
pub open spec fn stream_failure<Q>(event: ExchangeEvent<Q>) -> Option<ProtoError> {
    match event {
        ExchangeEvent::Stream(StreamPoll::Failed(e)) => Some(e),
        _ => None,
    }
}

/// What each outcome makes the exchange do, in any run:
/// - it completes with success exactly when the stream has ended;
/// - a stream failure completes it with exactly the stream's error;
/// - a failed receiver, or a response that cannot be handed back, completes
///   it with the exchange's own error for that, and it completes with an
///   error for no other reason;
/// - the poll yields exactly when the queue is empty, or when the stream is
///   not ready and shut down;
/// - the stream is polled exactly at the start of a poll, after a request
///   went out, and after the stream was told to shut down;
/// - the queue is polled exactly when the stream made progress, or is not
///   ready but not shut down;
/// - the stream is told to shut down exactly when every handle is gone.
pub proof fn law_exchange_outcomes<Q>(events: Seq<ExchangeEvent<Q>>)
    ensures
        forall|i: int|
            0 <= i < events.len() ==> ((#[trigger] exchange_run(events)[i])
                == ExchangeAction::<Q>::Complete(Ok(())) <==> events[i] == ExchangeEvent::<
                Q,
            >::Stream(StreamPoll::Ended)),
        forall|i: int|
            0 <= i < events.len() && (#[trigger] stream_failure(events[i])) is Some
                ==> exchange_run(events)[i] == ExchangeAction::<Q>::Complete(
                Err(stream_failure(events[i]).unwrap()),
            ),
        forall|i: int|
            0 <= i < events.len() && #[trigger] events[i] == ExchangeEvent::<Q>::Outbound(
                OutboundPoll::Failed,
            ) ==> exchange_run(events)[i] == ExchangeAction::<Q>::Complete(
                Err(ProtoError::OutboundReceiver),
            ),
        forall|i: int|
            0 <= i < events.len() && #[trigger] events[i] == ExchangeEvent::<Q>::Sent(
                SendOutcome::Unassociated,
            ) ==> exchange_run(events)[i] == ExchangeAction::<Q>::Complete(
                Err(ProtoError::UnassociatedResponse),
            ),
        forall|i: int|
            0 <= i < events.len() && (#[trigger] exchange_run(events)[i]) is Complete && exchange_run(
                events,
            )[i]->Complete_0 is Err ==> {
                ||| stream_failure(events[i]) is Some
                ||| events[i] == ExchangeEvent::<Q>::Outbound(OutboundPoll::Failed)
                ||| events[i] == ExchangeEvent::<Q>::Sent(SendOutcome::Unassociated)
            },
        forall|i: int|
            0 <= i < events.len() ==> ((#[trigger] exchange_run(events)[i]) is Yield <==> (
            events[i] == ExchangeEvent::<Q>::Outbound(OutboundPoll::Pending) || events[i]
                == ExchangeEvent::<Q>::Stream(StreamPoll::Pending { shutdown: true }))),
        forall|i: int|
            0 <= i < events.len() ==> ((#[trigger] exchange_run(events)[i]) is PollStream <==> (
            events[i] is Polled || events[i] == ExchangeEvent::<Q>::Sent(SendOutcome::Associated)
                || events[i] is ShutDown)),
        forall|i: int|
            0 <= i < events.len() ==> ((#[trigger] exchange_run(events)[i]) is PollOutbound <==> (
            events[i] == ExchangeEvent::<Q>::Stream(StreamPoll::Progress) || events[i]
                == ExchangeEvent::<Q>::Stream(StreamPoll::Pending { shutdown: false }))),
        forall|i: int|
            0 <= i < events.len() ==> ((#[trigger] exchange_run(events)[i]) is ShutdownStream
                <==> events[i] == ExchangeEvent::<Q>::Outbound(OutboundPoll::Closed)),
{
}

proof fn lemma_exchange_run_push<Q>(
    phase: ExchangePhase,
    events: Seq<ExchangeEvent<Q>>,
    event: ExchangeEvent<Q>,
)
    requires
        exchange_run_accepted(phase, events),
        exchange_accepts(
            if events.len() == 0 {
                phase
            } else {
                exchange_phase_after(exchange_run(events).last())
            },
            event,
        ),
    ensures
        exchange_run_accepted(phase, events.push(event)),
    decreases events.len(),
{
    let ev = events.push(event);
    if events.len() == 0 {
        assert(ev.drop_first() =~= Seq::<ExchangeEvent<Q>>::empty());
        assert(exchange_run_accepted(exchange_phase_after(exchange_reaction(event)), ev.drop_first()));
    } else {
        assert(ev.drop_first() =~= events.drop_first().push(event));
        assert(exchange_run(events).last() == exchange_reaction(events[events.len() - 1]));
        assert(ev[0] == events[0]);
        let next = exchange_phase_after(exchange_reaction(events[0]));
        if events.len() > 1 {
            assert(exchange_run(events.drop_first()).last() == exchange_run(events).last());
        }
        lemma_exchange_run_push(next, events.drop_first(), event);
    }
}

/// A poll always ends in a state from which the exchange can be polled
/// again: after a run from between polls whose last action yields or
/// completes, the next poll is accepted and starts by polling the stream.
pub proof fn law_exchange_poll_again<Q>(events: Seq<ExchangeEvent<Q>>)
    requires
        exchange_run_accepted(ExchangePhase::Idle, events),
        events.len() == 0 || exchange_run(events).last() is Yield || exchange_run(events).last() is Complete,
    ensures
        exchange_run_accepted(ExchangePhase::Idle, events.push(ExchangeEvent::Polled)),
        exchange_run(events.push(ExchangeEvent::Polled)).last() is PollStream,
{
    lemma_exchange_run_push(ExchangePhase::Idle, events, ExchangeEvent::Polled);
}

} // verus!
