use vstd::prelude::*;

verus! {

/// Why reading a request off the client connection failed, short of the
/// connection itself going away.
#[derive(Clone, Copy, PartialEq, Eq, Structural, Debug)]
pub enum ParseFailure {
    /// The bytes stopped in the middle of a request.
    Incomplete,
    /// The bytes do not form an HTTP request.
    Malformed,
    /// The `Content-Length` header does not hold a number.
    InvalidContentLength,
    /// The body's length does not match the announced `Content-Length`.
    ContentLengthMismatch,
    /// The body exceeds the bounded maximum this proxy accepts.
    BodyTooLarge,
    /// The connection failed mid-parse.
    Io,
}

/// Where a client connection's session stands: waiting for an upstream
/// connection, serving requests over a paired upstream, or finished.
#[derive(Clone, Copy, PartialEq, Eq, Structural, Debug)]
pub enum Phase {
    Dialing,
    Serving,
    Closed,
}

/// What the surrounding connection handler observed: the outcome of the
/// dial, read or write the previous action asked it to perform.
#[derive(Clone, Copy, PartialEq, Eq, Structural, Debug)]
pub enum Event {
    /// An upstream connection was established.
    UpstreamConnected,
    /// Every healthy upstream was tried and the pool ran empty.
    NoUpstreamAvailable,
    /// A request was read and the rate limiter admitted it (or limiting
    /// is disabled).
    RequestAdmitted,
    /// A request was read but the rate limiter turned it away.
    RateLimited,
    /// The client closed the connection before starting a request.
    ClientClosed,
    /// Reading from the client connection failed.
    ClientReadFailed,
    /// The bytes read did not yield a request.
    BadRequest(ParseFailure),
    /// The request went out to the upstream.
    RequestForwarded,
    /// Writing the request to the upstream failed.
    UpstreamWriteFailed,
    /// A response was read from the upstream.
    ResponseRead,
    /// Reading the upstream's response failed.
    UpstreamReadFailed,
    /// The upstream's response went out to the client.
    ResponseDelivered,
    /// Writing to the client connection failed.
    ClientWriteFailed,
}

/// What the connection handler must do next. A `Reply` carries a status
/// code for a response the proxy synthesizes itself.
#[derive(Clone, Copy, PartialEq, Eq, Structural, Debug)]
pub enum Action {
    /// Read the next request from the client.
    AwaitRequest,
    /// Synthesize a response with this status, send it to the client, and
    /// keep the session: the client may try again.
    Reply(u16),
    /// Synthesize a response with this status, send it to the client, and
    /// end the session.
    ReplyAndClose(u16),
    /// Write the admitted request (with `X-Forwarded-For` extended) to
    /// the paired upstream.
    Forward,
    /// Read the upstream's response to the forwarded request.
    AwaitResponse,
    /// Write the upstream's response back to the client.
    Deliver,
    /// End the session without writing anything further.
    Shutdown,
}

/// The status the proxy answers with when a request could not be parsed.
pub open spec fn spec_parse_failure_status(f: ParseFailure) -> u16 {
    match f {
        ParseFailure::Incomplete => 400,
        ParseFailure::Malformed => 400,
        ParseFailure::InvalidContentLength => 400,
        ParseFailure::ContentLengthMismatch => 400,
        ParseFailure::BodyTooLarge => 413,
        ParseFailure::Io => 503,
    }
}

/// The status the proxy answers with when a request could not be parsed:
/// the request was bad, too large, or lost to a connection fault.
pub fn parse_failure_status(f: ParseFailure) -> (r: u16)
    ensures
        r == spec_parse_failure_status(f),
{
    match f {
        ParseFailure::Incomplete => 400,
        ParseFailure::Malformed => 400,
        ParseFailure::InvalidContentLength => 400,
        ParseFailure::ContentLengthMismatch => 400,
        ParseFailure::BodyTooLarge => 413,
        ParseFailure::Io => 503,
    }
}

/// One step of the session protocol: from the phase the session is in and
/// the event the handler observed, to the phase it moves to and the
/// action the handler performs next.
///
/// Failures that leave the client intact (a bad request, a rate-limit
/// denial) answer and stay in `Serving`; a lost upstream answers 502 and
/// ends the session; a client that closed or failed ends it silently.
pub open spec fn spec_step(phase: Phase, event: Event) -> (Phase, Action) {
    match phase {
        Phase::Dialing => match event {
            Event::UpstreamConnected => (Phase::Serving, Action::AwaitRequest),
            Event::NoUpstreamAvailable => (Phase::Closed, Action::ReplyAndClose(502)),
            _ => (Phase::Closed, Action::Shutdown),
        },
        Phase::Serving => match event {
            Event::RequestAdmitted => (Phase::Serving, Action::Forward),
            Event::RateLimited => (Phase::Serving, Action::Reply(429)),
            Event::BadRequest(f) => (Phase::Serving, Action::Reply(spec_parse_failure_status(f))),
            Event::ClientClosed => (Phase::Closed, Action::Shutdown),
            Event::ClientReadFailed => (Phase::Closed, Action::Shutdown),
            Event::RequestForwarded => (Phase::Serving, Action::AwaitResponse),
            Event::UpstreamWriteFailed => (Phase::Closed, Action::ReplyAndClose(502)),
            Event::ResponseRead => (Phase::Serving, Action::Deliver),
            Event::UpstreamReadFailed => (Phase::Closed, Action::ReplyAndClose(502)),
            Event::ResponseDelivered => (Phase::Serving, Action::AwaitRequest),
            Event::ClientWriteFailed => (Phase::Closed, Action::Shutdown),
            _ => (Phase::Closed, Action::Shutdown),
        },
        Phase::Closed => (Phase::Closed, Action::Shutdown),
    }
}

/// One step of the session protocol; see `spec_step` for the table.
pub fn step(phase: Phase, event: Event) -> (r: (Phase, Action))
    ensures
        r == spec_step(phase, event),
{
    match phase {
        Phase::Dialing => match event {
            Event::UpstreamConnected => (Phase::Serving, Action::AwaitRequest),
            Event::NoUpstreamAvailable => (Phase::Closed, Action::ReplyAndClose(502)),
            _ => (Phase::Closed, Action::Shutdown),
        },
        Phase::Serving => match event {
            Event::RequestAdmitted => (Phase::Serving, Action::Forward),
            Event::RateLimited => (Phase::Serving, Action::Reply(429)),
            Event::BadRequest(f) => (Phase::Serving, Action::Reply(parse_failure_status(f))),
            Event::ClientClosed => (Phase::Closed, Action::Shutdown),
            Event::ClientReadFailed => (Phase::Closed, Action::Shutdown),
            Event::RequestForwarded => (Phase::Serving, Action::AwaitResponse),
            Event::UpstreamWriteFailed => (Phase::Closed, Action::ReplyAndClose(502)),
            Event::ResponseRead => (Phase::Serving, Action::Deliver),
            Event::UpstreamReadFailed => (Phase::Closed, Action::ReplyAndClose(502)),
            Event::ResponseDelivered => (Phase::Serving, Action::AwaitRequest),
            Event::ClientWriteFailed => (Phase::Closed, Action::Shutdown),
            _ => (Phase::Closed, Action::Shutdown),
        },
        Phase::Closed => (Phase::Closed, Action::Shutdown),
    }
}

/// The status codes the proxy itself may answer with.
pub open spec fn synthetic_status(code: u16) -> bool {
    code == 400 || code == 413 || code == 429 || code == 502 || code == 503
}

/// Everything the proxy writes to the client is either the paired
/// upstream's own response — delivered only right after that response was
/// read — or a synthesized response carrying one of the proxy's own
/// status codes.
pub proof fn lemma_client_sees_upstream_or_synthetic(phase: Phase, event: Event)
    ensures
        spec_step(phase, event).1 matches Action::Reply(code) ==> synthetic_status(code),
        spec_step(phase, event).1 matches Action::ReplyAndClose(code) ==> synthetic_status(code),
        spec_step(phase, event).1 == Action::Deliver ==> phase == Phase::Serving && event
            == Event::ResponseRead,
{
}

/// The phases a session actually moves through: it never returns to
/// `Dialing`, and once closed it stays closed.
pub proof fn lemma_phase_order(phase: Phase, event: Event)
    ensures
        spec_step(phase, event).0 != Phase::Dialing,
        phase == Phase::Closed ==> spec_step(phase, event).0 == Phase::Closed,
{
}

/// Runs the session machine over a whole sequence of events, keeping
/// only the phase.
pub open spec fn run_phases(phase: Phase, events: Seq<Event>) -> Phase
    decreases events.len(),
{
    if events.len() == 0 {
        phase
    } else {
        run_phases(spec_step(phase, events[0]).0, events.drop_first())
    }
}

/// The four observations of one request served without a hitch, in order.
pub open spec fn served_request_events() -> Seq<Event> {
    seq![
        Event::RequestAdmitted,
        Event::RequestForwarded,
        Event::ResponseRead,
        Event::ResponseDelivered,
    ]
}

/// A serving session that serves one whole request is serving again,
/// holding no more than it held before.
pub proof fn lemma_one_served_request()
    ensures
        run_phases(Phase::Serving, served_request_events()) == Phase::Serving,
{
    let e = served_request_events();
    let e1 = seq![Event::RequestForwarded, Event::ResponseRead, Event::ResponseDelivered];
    let e2 = seq![Event::ResponseRead, Event::ResponseDelivered];
    let e3 = seq![Event::ResponseDelivered];
    assert(e.drop_first() =~= e1);
    assert(e1.drop_first() =~= e2);
    assert(e2.drop_first() =~= e3);
    assert(e3.drop_first() =~= Seq::<Event>::empty());
    assert(run_phases(Phase::Serving, e) == run_phases(Phase::Serving, e1));
    assert(run_phases(Phase::Serving, e1) == run_phases(Phase::Serving, e2));
    assert(run_phases(Phase::Serving, e2) == run_phases(Phase::Serving, e3));
    assert(e3[0] == Event::ResponseDelivered);
    assert(run_phases(Phase::Serving, e3) == run_phases(Phase::Serving, e3.drop_first()));
    assert(run_phases(Phase::Serving, Seq::<Event>::empty()) == Phase::Serving);
}

/// A sequence of `n` requests, each served whole.
pub open spec fn served_requests_events(n: nat) -> Seq<Event>
    decreases n,
{
    if n == 0 {
        Seq::empty()
    } else {
        served_request_events() + served_requests_events((n - 1) as nat)
    }
}

/// Splitting a run at a prefix of events.
proof fn lemma_run_phases_app(phase: Phase, a: Seq<Event>, b: Seq<Event>)
    ensures
        run_phases(phase, a + b) == run_phases(run_phases(phase, a), b),
    decreases a.len(),
{
    if a.len() == 0 {
        assert(a + b =~= b);
    } else {
        assert((a + b).drop_first() =~= a.drop_first() + b);
        lemma_run_phases_app(spec_step(phase, a[0]).0, a.drop_first(), b);
    }
}

/// However many requests one client sends in sequence, a session over a
/// healthy upstream serves each whole and is ready for the next: nothing
/// a served request leaves behind can end the session or reorder what
/// follows.
pub proof fn lemma_sequential_requests_served(n: nat)
    ensures
        run_phases(Phase::Serving, served_requests_events(n)) == Phase::Serving,
    decreases n,
{
    if n > 0 {
        lemma_run_phases_app(
            Phase::Serving,
            served_request_events(),
            served_requests_events((n - 1) as nat),
        );
        lemma_one_served_request();
        lemma_sequential_requests_served((n - 1) as nat);
    }
}

} // verus!
