//! The bookkeeping of a connection handler that keeps its connection open:
//! events for the behaviour, outbound requests waiting to be opened, and
//! how many are being negotiated (at most `MAX_DIAL_NEGOTIATED` at once).

use vstd::prelude::*;

verus! {

/// Largest number of outbound substreams negotiated at the same time.
pub const MAX_DIAL_NEGOTIATED: u32 = 8;

/// What a poll of the handler yields.
#[derive(Debug)]
pub enum HandlerPoll<O, E> {
    /// An event for the behaviour.
    Notify(E),
    /// An outbound substream to open for a request.
    OutboundRequest(O),
    /// Nothing to do now.
    Pending,
}

/// What happened on the connection.
#[derive(Debug)]
pub enum ConnectionEvent<E> {
    /// An inbound substream finished negotiating, with its output.
    InboundNegotiated(E),
    /// An outbound substream finished negotiating, with its output.
    OutboundNegotiated(E),
    /// Opening an outbound substream failed; it no longer counts as being
    /// opened.
    DialUpgradeError,
    /// Anything else.
    Other,
}

/// The events and the count of negotiating substreams after `event`.
pub open spec fn event_step<E>(events: Seq<E>, negotiating: u32, event: ConnectionEvent<E>) -> (
    Seq<E>,
    u32,
) {
    match event {
        ConnectionEvent::InboundNegotiated(e) => (events.push(e), negotiating),
        ConnectionEvent::OutboundNegotiated(e) => (events.push(e), (negotiating - 1) as u32),
        ConnectionEvent::DialUpgradeError => (events, (negotiating - 1) as u32),
        ConnectionEvent::Other => (events, negotiating),
    }
}

/// One poll of a handler with events `events`, requests `requests` and
/// `negotiating` substreams being negotiated: what it yields and what is
/// left.
pub open spec fn poll_step<O, E>(events: Seq<E>, requests: Seq<O>, negotiating: u32) -> (
    HandlerPoll<O, E>,
    Seq<E>,
    Seq<O>,
    u32,
) {
    if events.len() > 0 {
        (HandlerPoll::Notify(events[0]), events.drop_first(), requests, negotiating)
    } else if requests.len() > 0 && negotiating < MAX_DIAL_NEGOTIATED {
        (
            HandlerPoll::OutboundRequest(requests[0]),
            events,
            requests.drop_first(),
            (negotiating + 1) as u32,
        )
    } else {
        (HandlerPoll::Pending, events, requests, negotiating)
    }
}

/// A connection handler's queues.
pub struct KeepAliveHandler<P, O, E> {
    listen_protocol: P,
    events_out: Vec<E>,
    dial_queue: Vec<O>,
    dial_negotiated: u32,
    max_dial_negotiated: u32,
}

impl<P, O, E> KeepAliveHandler<P, O, E> {
    /// The number of outbound substreams being negotiated.
    pub fn negotiating_now(&self) -> (n: u32)
        ensures
            n == self.negotiating(),
    {
        self.dial_negotiated
    }

    /// The protocol inbound substreams are accepted with.
    pub closed spec fn protocol(&self) -> P {
        self.listen_protocol
    }

    /// Events waiting for the behaviour, oldest first.
    pub closed spec fn events(&self) -> Seq<E> {
        self.events_out@
    }

    /// Requests waiting for an outbound substream, oldest first.
    pub closed spec fn requests(&self) -> Seq<O> {
        self.dial_queue@
    }

    /// Outbound substreams being negotiated.
    pub closed spec fn negotiating(&self) -> u32 {
        self.dial_negotiated
    }

    /// The handler's invariant: never more negotiations than allowed.
    pub closed spec fn inv(&self) -> bool {
        &&& self.max_dial_negotiated == MAX_DIAL_NEGOTIATED
        &&& self.dial_negotiated <= self.max_dial_negotiated
    }

    /// A handler accepting inbound substreams with `listen_protocol`, with
    /// nothing queued.
    pub fn new(listen_protocol: P) -> (h: KeepAliveHandler<P, O, E>)
        ensures
            h.inv(),
            h.protocol() == listen_protocol,
            h.events() == Seq::<E>::empty(),
            h.requests() == Seq::<O>::empty(),
            h.negotiating() == 0,
    {
        KeepAliveHandler {
            listen_protocol,
            events_out: Vec::new(),
            dial_queue: Vec::new(),
            dial_negotiated: 0,
            max_dial_negotiated: MAX_DIAL_NEGOTIATED,
        }
    }

    /// The requests not yet answered: those being negotiated and those
    /// waiting.
    pub fn pending_requests(&self) -> (n: u32)
        requires
            self.negotiating() + self.requests().len() <= u32::MAX,
        ensures
            n == self.negotiating() + self.requests().len(),
    {
        self.dial_negotiated + self.dial_queue.len() as u32
    }

    /// The protocol inbound substreams are accepted with.
    pub fn listen_protocol_ref(&self) -> (p: &P)
        ensures
            *p == self.protocol(),
    {
        &self.listen_protocol
    }

    /// Replaces the protocol future inbound substreams are accepted with.
    pub fn set_listen_protocol(&mut self, listen_protocol: P)
        ensures
            final(self).protocol() == listen_protocol,
            final(self).events() == old(self).events(),
            final(self).requests() == old(self).requests(),
            final(self).negotiating() == old(self).negotiating(),
            old(self).inv() ==> final(self).inv(),
    {
        self.listen_protocol = listen_protocol;
    }

    /// Queues a request for an outbound substream.
    pub fn send_request(&mut self, upgrade: O)
        ensures
            final(self).requests() == old(self).requests().push(upgrade),
            final(self).events() == old(self).events(),
            final(self).negotiating() == old(self).negotiating(),
            final(self).protocol() == old(self).protocol(),
            old(self).inv() ==> final(self).inv(),
    {
        self.dial_queue.push(upgrade);
    }

    /// A request from the behaviour is queued.
    pub fn on_behaviour_event(&mut self, event: O)
        ensures
            final(self).requests() == old(self).requests().push(event),
            final(self).events() == old(self).events(),
            final(self).negotiating() == old(self).negotiating(),
            final(self).protocol() == old(self).protocol(),
            old(self).inv() ==> final(self).inv(),
    {
        self.send_request(event);
    }

    /// Takes in what happened on the connection: the output of a negotiated
    /// substream becomes an event for the behaviour, and an outbound
    /// substream that was negotiated or failed no longer counts as being
    /// opened.
    pub fn on_connection_event(&mut self, event: ConnectionEvent<E>)
        requires
            old(self).inv(),
            (event is OutboundNegotiated || event is DialUpgradeError) ==> old(self).negotiating() > 0,
        ensures
            final(self).inv(),
            final(self).requests() == old(self).requests(),
            final(self).protocol() == old(self).protocol(),
            (final(self).events(), final(self).negotiating()) == event_step(
                old(self).events(),
                old(self).negotiating(),
                event,
            ),
    {
        match event {
            ConnectionEvent::InboundNegotiated(e) => {
                self.events_out.push(e);
            },
            ConnectionEvent::OutboundNegotiated(e) => {
                self.dial_negotiated = self.dial_negotiated - 1;
                self.events_out.push(e);
            },
            ConnectionEvent::DialUpgradeError => {
                self.dial_negotiated = self.dial_negotiated - 1;
            },
            ConnectionEvent::Other => {},
        }
    }

    /// The connection is always kept open.
    pub fn connection_keep_alive(&self) -> (b: bool)
        ensures
            b,
    {
        true
    }

    /// Hands out the oldest event; when there is none, opens the oldest
    /// request if fewer than the allowed number are being negotiated.
    pub fn poll(&mut self) -> (r: HandlerPoll<O, E>)
        requires
            old(self).inv(),
        ensures
            final(self).inv(),
            final(self).protocol() == old(self).protocol(),
            (r, final(self).events(), final(self).requests(), final(self).negotiating())
                == poll_step(old(self).events(), old(self).requests(), old(self).negotiating()),
    {
        if self.events_out.len() > 0 {
            let e = self.events_out.remove(0);
            assert(old(self).events().drop_first() =~= old(self).events().remove(0));
            return HandlerPoll::Notify(e);
        }
        if self.dial_queue.len() > 0 {
            if self.dial_negotiated < self.max_dial_negotiated {
                self.dial_negotiated = self.dial_negotiated + 1;
                let upgrade = self.dial_queue.remove(0);
                assert(old(self).requests().drop_first() =~= old(self).requests().remove(0));
                return HandlerPoll::OutboundRequest(upgrade);
            }
        }
        HandlerPoll::Pending
    }
}

/// A poll never loses a request: the requests not yet answered (being
/// negotiated or waiting) stay the same, and the bound on negotiations
/// holds after it when it held before.
pub proof fn law_poll_keeps_requests<O, E>(events: Seq<E>, requests: Seq<O>, negotiating: u32)
    requires
        negotiating <= MAX_DIAL_NEGOTIATED,
    ensures
        ({
            let (r, e2, q2, n2) = poll_step(events, requests, negotiating);
            &&& n2 + q2.len() == negotiating + requests.len()
            &&& n2 <= MAX_DIAL_NEGOTIATED
            &&& r is OutboundRequest ==> requests.len() > 0 && q2 == requests.drop_first()
        }),
{
}

/// A call made on a handler: a request queued, a poll, or what happened
/// on the connection.
pub enum HandlerCall<O, E> {
    /// `send_request` (or `on_behaviour_event`) with a request.
    Send(O),
    /// `poll`.
    Poll,
    /// `on_connection_event` with an event.
    Event(ConnectionEvent<E>),
}

/// A handler's events, requests and negotiation count after one call.
pub open spec fn call_step<O, E>(state: (Seq<E>, Seq<O>, u32), call: HandlerCall<O, E>) -> (
    Seq<E>,
    Seq<O>,
    u32,
) {
    match call {
        HandlerCall::Send(o) => (state.0, state.1.push(o), state.2),
        HandlerCall::Poll => {
            let (_, e, q, n) = poll_step(state.0, state.1, state.2);
            (e, q, n)
        },
        HandlerCall::Event(ev) => {
            let (e, n) = event_step(state.0, state.2, ev);
            (e, state.1, n)
        },
    }
}

/// A new handler's events, requests and negotiation count after `calls`,
/// in order.
pub open spec fn handler_run<O, E>(calls: Seq<HandlerCall<O, E>>) -> (Seq<E>, Seq<O>, u32)
    decreases calls.len(),
{
    if calls.len() == 0 {
        (Seq::empty(), Seq::empty(), 0)
    } else {
        call_step(handler_run(calls.drop_last()), calls.last())
    }
}

/// The call ends the negotiation of an outbound substream, successfully or
/// not.
pub open spec fn ends_dial<O, E>(call: HandlerCall<O, E>) -> bool {
    call matches HandlerCall::Event(ev) && (ev is OutboundNegotiated || ev is DialUpgradeError)
}

/// Each call in `calls` meets what the handler requires of it: a dial only
/// ends while one is being negotiated.
pub open spec fn calls_allowed<O, E>(calls: Seq<HandlerCall<O, E>>) -> bool
    decreases calls.len(),
{
    calls.len() == 0 || (calls_allowed(calls.drop_last()) && (ends_dial(calls.last())
        ==> handler_run(calls.drop_last()).2 > 0))
}

/// How many of `calls` queue a request.
pub open spec fn requests_sent<O, E>(calls: Seq<HandlerCall<O, E>>) -> int
    decreases calls.len(),
{
    if calls.len() == 0 {
        0
    } else {
        requests_sent(calls.drop_last()) + if calls.last() is Send {
            1int
        } else {
            0int
        }
    }
}

/// How many of `calls` end a dial.
pub open spec fn dials_ended<O, E>(calls: Seq<HandlerCall<O, E>>) -> int
    decreases calls.len(),
{
    if calls.len() == 0 {
        0
    } else {
        dials_ended(calls.drop_last()) + if ends_dial(calls.last()) {
            1int
        } else {
            0int
        }
    }
}

/// Whatever calls a new handler receives, the requests not yet answered
/// (being negotiated or waiting) are those queued less those whose dial
/// ended, negotiated or failed; polls only move a request from waiting to
/// being negotiated, and never more than the allowed number are.
pub proof fn law_pending_is_sent_less_ended<O, E>(calls: Seq<HandlerCall<O, E>>)
    requires
        calls_allowed(calls),
    ensures
        handler_run(calls).2 + handler_run(calls).1.len() == requests_sent(calls) - dials_ended(
            calls,
        ),
        handler_run(calls).2 <= MAX_DIAL_NEGOTIATED,
    decreases calls.len(),
{
    if calls.len() > 0 {
        let pre = calls.drop_last();
        law_pending_is_sent_less_ended(pre);
        let st = handler_run(pre);
        match calls.last() {
            HandlerCall::Poll => {
                law_poll_keeps_requests(st.0, st.1, st.2);
            },
            _ => {},
        }
    }
}

} // verus!
