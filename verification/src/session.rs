//! The connection handler, as a state machine over one client session.
//!
//! A session walks through four phases: reading the request, dialing the
//! upstream target, acknowledging the client, and relaying bytes. The
//! decisions between those phases are pure and live here: the driver reads
//! or writes sockets, reports what happened as a [`SessionEvent`], and
//! performs the [`SessionAction`] the step function orders next. Every
//! exit path ends in a [`SessionState::Done`] state whose outcome says why
//! the session ended; the driver then closes both streams.

use vstd::prelude::*;

use crate::parse::{ConnectTarget, ParseError, parse_connect_request, spec_parse};
use crate::policy::AllowList;

verus! {

/// Why a session ended. Every outcome is local to its own session: in
/// particular a policy violation closes only the offending connection.
#[derive(Clone, Copy, PartialEq, Eq, Structural, Debug)]
pub enum SessionOutcome {
    /// The tunnel was established and the relay ran to completion.
    Tunneled,
    /// The client closed before sending any request bytes.
    ConnectionClosed,
    /// The initial read from the client failed.
    ReadFailed,
    /// The request was not a well-formed CONNECT command.
    ParseFailed(ParseError),
    /// The requested hostname is not on the allowlist.
    PolicyViolation,
    /// The upstream target could not be dialed.
    DialFailed,
    /// The handshake acknowledgment could not be written to the client.
    HandshakeWriteFailed,
    /// The relay ended on a read or write error.
    RelayFailed,
}

/// The phase a session is in, carrying the parsed target once one exists.
pub enum SessionState {
    /// Waiting for the driver to read the client's request bytes.
    AwaitRequest,
    /// The target parsed and is allowed; the driver is dialing it.
    Dialing(ConnectTarget),
    /// The upstream connection stands; the driver is writing the handshake.
    Handshaking(ConnectTarget),
    /// Both legs stand; the driver is relaying bytes in both directions.
    Relaying(ConnectTarget),
    /// The session is over; the driver closes both streams.
    Done(SessionOutcome),
}

/// The mathematical image of a session state: the target reduced to its
/// hostname bytes and port.
pub enum SpecState {
    AwaitRequest,
    Dialing(Seq<u8>, u16),
    Handshaking(Seq<u8>, u16),
    Relaying(Seq<u8>, u16),
    Done(SessionOutcome),
}

impl View for SessionState {
    type V = SpecState;

    open spec fn view(&self) -> SpecState {
        match self {
            SessionState::AwaitRequest => SpecState::AwaitRequest,
            SessionState::Dialing(t) => SpecState::Dialing(t.hostname@, t.port),
            SessionState::Handshaking(t) => SpecState::Handshaking(t.hostname@, t.port),
            SessionState::Relaying(t) => SpecState::Relaying(t.hostname@, t.port),
            SessionState::Done(o) => SpecState::Done(*o),
        }
    }
}

/// What the driver observed since the last step.
pub enum SessionEvent {
    /// The initial read returned these bytes (empty when the client closed
    /// without sending any).
    RequestRead(Vec<u8>),
    /// The initial read failed.
    ReadError,
    /// The upstream dial succeeded.
    DialSucceeded,
    /// The upstream dial failed.
    DialFailed,
    /// The handshake acknowledgment reached the client.
    HandshakeSent,
    /// Writing the handshake acknowledgment failed.
    HandshakeWriteFailed,
    /// One relay direction finished cleanly; the tunnel is over.
    RelayFinished,
    /// A relay direction ended on a read or write error.
    RelayError,
}

/// The mathematical image of an event: read bytes reduced to a sequence.
pub enum SpecEvent {
    RequestRead(Seq<u8>),
    ReadError,
    DialSucceeded,
    DialFailed,
    HandshakeSent,
    HandshakeWriteFailed,
    RelayFinished,
    RelayError,
}

impl View for SessionEvent {
    type V = SpecEvent;

    open spec fn view(&self) -> SpecEvent {
        match self {
            SessionEvent::RequestRead(buf) => SpecEvent::RequestRead(buf@),
            SessionEvent::ReadError => SpecEvent::ReadError,
            SessionEvent::DialSucceeded => SpecEvent::DialSucceeded,
            SessionEvent::DialFailed => SpecEvent::DialFailed,
            SessionEvent::HandshakeSent => SpecEvent::HandshakeSent,
            SessionEvent::HandshakeWriteFailed => SpecEvent::HandshakeWriteFailed,
            SessionEvent::RelayFinished => SpecEvent::RelayFinished,
            SessionEvent::RelayError => SpecEvent::RelayError,
        }
    }
}

/// What the driver must do after a step.
#[derive(Clone, Copy, PartialEq, Eq, Structural, Debug)]
pub enum SessionAction {
    /// Open an outbound connection to the target held in the new state.
    Dial,
    /// Write the handshake acknowledgment to the client.
    SendHandshake,
    /// Relay bytes between the two streams until either direction ends.
    StartRelay,
    /// Close both streams; the session is over.
    Close,
}

/// Which events can arrive in which phase: the driver only reports what the
/// phase's own I/O can produce, and a finished session sees no events.
pub open spec fn event_fits(s: SpecState, e: SpecEvent) -> bool {
    match s {
        SpecState::AwaitRequest => e matches SpecEvent::RequestRead(_) || e matches
            SpecEvent::ReadError,
        SpecState::Dialing(_, _) => e matches SpecEvent::DialSucceeded || e matches
            SpecEvent::DialFailed,
        SpecState::Handshaking(_, _) => e matches SpecEvent::HandshakeSent || e matches
            SpecEvent::HandshakeWriteFailed,
        SpecState::Relaying(_, _) => e matches SpecEvent::RelayFinished || e matches
            SpecEvent::RelayError,
        SpecState::Done(_) => false,
    }
}

/// The session's transition function. A request is admitted exactly when it
/// parses as a CONNECT command and its hostname is on the allowlist; every
/// failure closes the session with the outcome that names its cause; an
/// event foreign to the phase changes nothing and closes.
pub open spec fn spec_step(s: SpecState, e: SpecEvent, policy: &AllowList) -> (SpecState,
    SessionAction) {
    match (s, e) {
        (SpecState::AwaitRequest, SpecEvent::RequestRead(buf)) => {
            if buf.len() == 0 {
                (SpecState::Done(SessionOutcome::ConnectionClosed), SessionAction::Close)
            } else {
                match spec_parse(buf) {
                    Err(err) => (
                        SpecState::Done(SessionOutcome::ParseFailed(err)),
                        SessionAction::Close,
                    ),
                    Ok((host, port)) => {
                        if policy.spec_allows_target(host) {
                            (SpecState::Dialing(host, port), SessionAction::Dial)
                        } else {
                            (
                                SpecState::Done(SessionOutcome::PolicyViolation),
                                SessionAction::Close,
                            )
                        }
                    },
                }
            }
        },
        (SpecState::AwaitRequest, SpecEvent::ReadError) => (
            SpecState::Done(SessionOutcome::ReadFailed),
            SessionAction::Close,
        ),
        (SpecState::Dialing(h, p), SpecEvent::DialSucceeded) => (
            SpecState::Handshaking(h, p),
            SessionAction::SendHandshake,
        ),
        (SpecState::Dialing(_, _), SpecEvent::DialFailed) => (
            SpecState::Done(SessionOutcome::DialFailed),
            SessionAction::Close,
        ),
        (SpecState::Handshaking(h, p), SpecEvent::HandshakeSent) => (
            SpecState::Relaying(h, p),
            SessionAction::StartRelay,
        ),
        (SpecState::Handshaking(_, _), SpecEvent::HandshakeWriteFailed) => (
            SpecState::Done(SessionOutcome::HandshakeWriteFailed),
            SessionAction::Close,
        ),
        (SpecState::Relaying(_, _), SpecEvent::RelayFinished) => (
            SpecState::Done(SessionOutcome::Tunneled),
            SessionAction::Close,
        ),
        (SpecState::Relaying(_, _), SpecEvent::RelayError) => (
            SpecState::Done(SessionOutcome::RelayFailed),
            SessionAction::Close,
        ),
        (s0, _) => (s0, SessionAction::Close),
    }
}

/// Advances one session by one step: consumes the phase and the event the
/// driver observed, returns the next phase and the action to perform. The
/// result is exactly what the transition function `spec_step` yields.
pub fn session_step(state: SessionState, event: SessionEvent, policy: &AllowList) -> (r: (
    SessionState,
    SessionAction,
))
    requires
        event_fits(state@, event@),
    ensures
        r.0@ == spec_step(state@, event@, policy).0,
        r.1 == spec_step(state@, event@, policy).1,
{
    match (state, event) {
        (SessionState::AwaitRequest, SessionEvent::RequestRead(buf)) => {
            if buf.len() == 0 {
                (SessionState::Done(SessionOutcome::ConnectionClosed), SessionAction::Close)
            } else {
                match parse_connect_request(&buf) {
                    Err(err) => (
                        SessionState::Done(SessionOutcome::ParseFailed(err)),
                        SessionAction::Close,
                    ),
                    Ok(target) => {
                        if policy.is_target_allowed(&target.hostname) {
                            (SessionState::Dialing(target), SessionAction::Dial)
                        } else {
                            (
                                SessionState::Done(SessionOutcome::PolicyViolation),
                                SessionAction::Close,
                            )
                        }
                    },
                }
            }
        },
        (SessionState::AwaitRequest, SessionEvent::ReadError) => (
            SessionState::Done(SessionOutcome::ReadFailed),
            SessionAction::Close,
        ),
        (SessionState::Dialing(t), SessionEvent::DialSucceeded) => (
            SessionState::Handshaking(t),
            SessionAction::SendHandshake,
        ),
        (SessionState::Dialing(_), SessionEvent::DialFailed) => (
            SessionState::Done(SessionOutcome::DialFailed),
            SessionAction::Close,
        ),
        (SessionState::Handshaking(t), SessionEvent::HandshakeSent) => (
            SessionState::Relaying(t),
            SessionAction::StartRelay,
        ),
        (SessionState::Handshaking(_), SessionEvent::HandshakeWriteFailed) => (
            SessionState::Done(SessionOutcome::HandshakeWriteFailed),
            SessionAction::Close,
        ),
        (SessionState::Relaying(_), SessionEvent::RelayFinished) => (
            SessionState::Done(SessionOutcome::Tunneled),
            SessionAction::Close,
        ),
        (SessionState::Relaying(_), SessionEvent::RelayError) => (
            SessionState::Done(SessionOutcome::RelayFailed),
            SessionAction::Close,
        ),
        (s0, _) => (s0, SessionAction::Close),
    }
}

/// The exact handshake acknowledgment the proxy sends once the upstream
/// connection stands: `HTTP/1.1 200 Connection Established\r\n\r\n`.
pub open spec fn handshake_bytes() -> Seq<u8> {
    seq![
        'H' as u8, 'T' as u8, 'T' as u8, 'P' as u8, '/' as u8, '1' as u8, '.' as u8, '1' as u8,
        ' ' as u8, '2' as u8, '0' as u8, '0' as u8, ' ' as u8, 'C' as u8, 'o' as u8, 'n' as u8,
        'n' as u8, 'e' as u8, 'c' as u8, 't' as u8, 'i' as u8, 'o' as u8, 'n' as u8, ' ' as u8,
        'E' as u8, 's' as u8, 't' as u8, 'a' as u8, 'b' as u8, 'l' as u8, 'i' as u8, 's' as u8,
        'h' as u8, 'e' as u8, 'd' as u8, '\r' as u8, '\n' as u8, '\r' as u8, '\n' as u8,
    ]
}

/// Builds the handshake acknowledgment bytes for the driver to write.
pub fn handshake_response() -> (r: Vec<u8>)
    ensures
        r@ == handshake_bytes(),
{
    let mut r: Vec<u8> = Vec::new();
    r.push('H' as u8);
    r.push('T' as u8);
    r.push('T' as u8);
    r.push('P' as u8);
    r.push('/' as u8);
    r.push('1' as u8);
    r.push('.' as u8);
    r.push('1' as u8);
    r.push(' ' as u8);
    r.push('2' as u8);
    r.push('0' as u8);
    r.push('0' as u8);
    r.push(' ' as u8);
    r.push('C' as u8);
    r.push('o' as u8);
    r.push('n' as u8);
    r.push('n' as u8);
    r.push('e' as u8);
    r.push('c' as u8);
    r.push('t' as u8);
    r.push('i' as u8);
    r.push('o' as u8);
    r.push('n' as u8);
    r.push(' ' as u8);
    r.push('E' as u8);
    r.push('s' as u8);
    r.push('t' as u8);
    r.push('a' as u8);
    r.push('b' as u8);
    r.push('l' as u8);
    r.push('i' as u8);
    r.push('s' as u8);
    r.push('h' as u8);
    r.push('e' as u8);
    r.push('d' as u8);
    r.push('\r' as u8);
    r.push('\n' as u8);
    r.push('\r' as u8);
    r.push('\n' as u8);
    assert(r@ =~= handshake_bytes());
    r
}

/// Whether the target a state carries is on the allowlist. Phases without a
/// target carry nothing to admit.
pub open spec fn target_admitted(s: SpecState, policy: &AllowList) -> bool {
    match s {
        SpecState::Dialing(h, _) => policy.spec_allows_target(h),
        SpecState::Handshaking(h, _) => policy.spec_allows_target(h),
        SpecState::Relaying(h, _) => policy.spec_allows_target(h),
        _ => true,
    }
}

/// Law: every step keeps the session admitted — once a session carries a
/// target, that target was found on the allowlist, and no later event can
/// smuggle in another one.
pub proof fn lemma_step_preserves_admission(s: SpecState, e: SpecEvent, policy: &AllowList)
    requires
        target_admitted(s, policy),
    ensures
        target_admitted(spec_step(s, e, policy).0, policy),
{
}

/// Law: the handshake acknowledgment is only ever ordered while the session
/// holds a target on the allowlist — never after a parse failure, never for
/// a disallowed hostname.
pub proof fn lemma_handshake_needs_admission(s: SpecState, e: SpecEvent, policy: &AllowList)
    requires
        target_admitted(s, policy),
        spec_step(s, e, policy).1 == SessionAction::SendHandshake,
    ensures
        s matches SpecState::Dialing(h, p) && policy.spec_allows_target(h),
        spec_step(s, e, policy).0 matches SpecState::Handshaking(h, p) && policy.spec_allows_target(
            h,
        ),
{
}

/// The state a session is in after the driver has fed it a whole trace of
/// events, starting from the waiting phase.
pub open spec fn run_session(events: Seq<SpecEvent>, policy: &AllowList) -> SpecState
    decreases events.len(),
{
    if events.len() == 0 {
        SpecState::AwaitRequest
    } else {
        spec_step(run_session(events.drop_last(), policy), events.last(), policy).0
    }
}

/// Law: after any trace of events whatsoever, the session's target — if it
/// carries one — is on the allowlist.
pub proof fn lemma_run_admitted(events: Seq<SpecEvent>, policy: &AllowList)
    ensures
        target_admitted(run_session(events, policy), policy),
    decreases events.len(),
{
    if events.len() > 0 {
        lemma_run_admitted(events.drop_last(), policy);
        lemma_step_preserves_admission(
            run_session(events.drop_last(), policy),
            events.last(),
            policy,
        );
    }
}

/// Law: along any trace of events, every handshake the session orders is
/// for a target on the allowlist — a disallowed or unparsable request can
/// never lead to the 200 acknowledgment, however the driver's I/O turns
/// out.
pub proof fn lemma_trace_handshake_admitted(events: Seq<SpecEvent>, policy: &AllowList)
    requires
        events.len() > 0,
        spec_step(run_session(events.drop_last(), policy), events.last(), policy).1
            == SessionAction::SendHandshake,
    ensures
        run_session(events.drop_last(), policy) matches SpecState::Dialing(h, p)
            && policy.spec_allows_target(h),
{
    lemma_run_admitted(events.drop_last(), policy);
    lemma_handshake_needs_admission(
        run_session(events.drop_last(), policy),
        events.last(),
        policy,
    );
}

/// Law: a finished session stays finished: whatever event arrives, the
/// state keeps its outcome and the driver is told to close.
pub proof fn lemma_done_absorbing(o: SessionOutcome, e: SpecEvent, policy: &AllowList)
    ensures
        spec_step(SpecState::Done(o), e, policy) == (
            SpecState::Done(o),
            SessionAction::Close,
        ),
{
}

/// Law: a request whose first line is not a well-formed CONNECT command
/// closes the session with that parse failure — no dial is started and no
/// handshake is ordered.
pub proof fn lemma_bad_request_rejected(buf: Seq<u8>, policy: &AllowList, err: ParseError)
    requires
        buf.len() > 0,
        spec_parse(buf) == Err::<(Seq<u8>, u16), ParseError>(err),
    ensures
        spec_step(SpecState::AwaitRequest, SpecEvent::RequestRead(buf), policy) == (
            SpecState::Done(SessionOutcome::ParseFailed(err)),
            SessionAction::Close,
        ),
{
}

/// Law: a well-formed request for a target outside the allowlist closes the
/// session as a policy violation — no dial is started and no handshake is
/// ordered; nothing reaches past this one session.
pub proof fn lemma_disallowed_target_rejected(
    buf: Seq<u8>,
    policy: &AllowList,
    h: Seq<u8>,
    p: u16,
)
    requires
        spec_parse(buf) == Ok::<(Seq<u8>, u16), ParseError>((h, p)),
        !policy.spec_allows_target(h),
    ensures
        spec_step(SpecState::AwaitRequest, SpecEvent::RequestRead(buf), policy) == (
            SpecState::Done(SessionOutcome::PolicyViolation),
            SessionAction::Close,
        ),
{
    assert(buf.len() > 0);
}

/// Law: for a well-formed CONNECT request whose target is on the allowlist
/// and reachable, the session dials exactly the parsed target, then orders
/// the 200 handshake, then the relay, and ends as a completed tunnel.
pub proof fn lemma_success_path(buf: Seq<u8>, policy: &AllowList, h: Seq<u8>, p: u16)
    requires
        spec_parse(buf) == Ok::<(Seq<u8>, u16), ParseError>((h, p)),
        policy.spec_allows_target(h),
    ensures
        ({
            let s1 = spec_step(SpecState::AwaitRequest, SpecEvent::RequestRead(buf), policy);
            let s2 = spec_step(s1.0, SpecEvent::DialSucceeded, policy);
            let s3 = spec_step(s2.0, SpecEvent::HandshakeSent, policy);
            let s4 = spec_step(s3.0, SpecEvent::RelayFinished, policy);
            s1 == (SpecState::Dialing(h, p), SessionAction::Dial) && s2 == (
                SpecState::Handshaking(h, p),
                SessionAction::SendHandshake,
            ) && s3 == (SpecState::Relaying(h, p), SessionAction::StartRelay) && s4 == (
                SpecState::Done(SessionOutcome::Tunneled),
                SessionAction::Close,
            )
        }),
{
    assert(buf.len() > 0);
}

} // verus!
