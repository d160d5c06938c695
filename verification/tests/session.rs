use connect_proxy::parse::ParseError;
use connect_proxy::policy::AllowList;
use connect_proxy::session::{
    handshake_response, session_step, SessionAction, SessionEvent, SessionOutcome, SessionState,
};

fn example_policy() -> AllowList {
    AllowList::new(
        vec![b"example.com".to_vec()],
        u32::from_be_bytes([127, 0, 0, 1]),
    )
}

#[test]
fn handshake_is_the_literal_200_line() {
    assert_eq!(
        handshake_response(),
        b"HTTP/1.1 200 Connection Established\r\n\r\n".to_vec()
    );
}

#[test]
fn allowed_target_runs_to_completed_tunnel() {
    let policy = example_policy();
    let request = b"CONNECT example.com:443 HTTP/1.1\r\nHost: example.com\r\n\r\n".to_vec();

    let (state, action) = session_step(
        SessionState::AwaitRequest,
        SessionEvent::RequestRead(request),
        &policy,
    );
    assert_eq!(action, SessionAction::Dial);
    match &state {
        SessionState::Dialing(target) => {
            assert_eq!(target.hostname, b"example.com".to_vec());
            assert_eq!(target.port, 443);
        }
        _ => panic!("expected a dialing session"),
    }

    let (state, action) = session_step(state, SessionEvent::DialSucceeded, &policy);
    assert_eq!(action, SessionAction::SendHandshake);
    assert!(matches!(state, SessionState::Handshaking(_)));

    let (state, action) = session_step(state, SessionEvent::HandshakeSent, &policy);
    assert_eq!(action, SessionAction::StartRelay);
    assert!(matches!(state, SessionState::Relaying(_)));

    let (state, action) = session_step(state, SessionEvent::RelayFinished, &policy);
    assert_eq!(action, SessionAction::Close);
    assert!(matches!(
        state,
        SessionState::Done(SessionOutcome::Tunneled)
    ));
}

#[test]
fn wrong_method_closes_without_dialing() {
    let policy = example_policy();
    let (state, action) = session_step(
        SessionState::AwaitRequest,
        SessionEvent::RequestRead(b"GET / HTTP/1.1\r\n\r\n".to_vec()),
        &policy,
    );
    assert_eq!(action, SessionAction::Close);
    assert!(matches!(
        state,
        SessionState::Done(SessionOutcome::ParseFailed(ParseError::MalformedRequest))
    ));
}

#[test]
fn disallowed_target_closes_as_policy_violation() {
    let policy = example_policy();
    let (state, action) = session_step(
        SessionState::AwaitRequest,
        SessionEvent::RequestRead(b"CONNECT evil.example:443 HTTP/1.1\r\n\r\n".to_vec()),
        &policy,
    );
    assert_eq!(action, SessionAction::Close);
    assert!(matches!(
        state,
        SessionState::Done(SessionOutcome::PolicyViolation)
    ));
}

#[test]
fn other_sessions_still_admit_after_a_violation() {
    // A policy violation is local to its own session: the same policy value
    // keeps serving other sessions afterwards.
    let policy = example_policy();
    let (_, action) = session_step(
        SessionState::AwaitRequest,
        SessionEvent::RequestRead(b"CONNECT evil.example:443 HTTP/1.1\r\n\r\n".to_vec()),
        &policy,
    );
    assert_eq!(action, SessionAction::Close);

    let (state, action) = session_step(
        SessionState::AwaitRequest,
        SessionEvent::RequestRead(b"CONNECT example.com:443 HTTP/1.1\r\n\r\n".to_vec()),
        &policy,
    );
    assert_eq!(action, SessionAction::Dial);
    assert!(matches!(state, SessionState::Dialing(_)));
}

#[test]
fn empty_read_closes_as_connection_closed() {
    let policy = example_policy();
    let (state, action) = session_step(
        SessionState::AwaitRequest,
        SessionEvent::RequestRead(Vec::new()),
        &policy,
    );
    assert_eq!(action, SessionAction::Close);
    assert!(matches!(
        state,
        SessionState::Done(SessionOutcome::ConnectionClosed)
    ));
}

#[test]
fn read_error_closes_as_read_failure() {
    let policy = example_policy();
    let (state, action) =
        session_step(SessionState::AwaitRequest, SessionEvent::ReadError, &policy);
    assert_eq!(action, SessionAction::Close);
    assert!(matches!(
        state,
        SessionState::Done(SessionOutcome::ReadFailed)
    ));
}

#[test]
fn dial_failure_closes_the_session() {
    let policy = example_policy();
    let (state, _) = session_step(
        SessionState::AwaitRequest,
        SessionEvent::RequestRead(b"CONNECT example.com:443 HTTP/1.1\r\n\r\n".to_vec()),
        &policy,
    );
    let (state, action) = session_step(state, SessionEvent::DialFailed, &policy);
    assert_eq!(action, SessionAction::Close);
    assert!(matches!(
        state,
        SessionState::Done(SessionOutcome::DialFailed)
    ));
}

#[test]
fn handshake_write_failure_closes_the_session() {
    let policy = example_policy();
    let (state, _) = session_step(
        SessionState::AwaitRequest,
        SessionEvent::RequestRead(b"CONNECT example.com:443 HTTP/1.1\r\n\r\n".to_vec()),
        &policy,
    );
    let (state, _) = session_step(state, SessionEvent::DialSucceeded, &policy);
    let (state, action) = session_step(state, SessionEvent::HandshakeWriteFailed, &policy);
    assert_eq!(action, SessionAction::Close);
    assert!(matches!(
        state,
        SessionState::Done(SessionOutcome::HandshakeWriteFailed)
    ));
}

#[test]
fn relay_error_closes_the_session() {
    let policy = example_policy();
    let (state, _) = session_step(
        SessionState::AwaitRequest,
        SessionEvent::RequestRead(b"CONNECT example.com:443 HTTP/1.1\r\n\r\n".to_vec()),
        &policy,
    );
    let (state, _) = session_step(state, SessionEvent::DialSucceeded, &policy);
    let (state, _) = session_step(state, SessionEvent::HandshakeSent, &policy);
    let (state, action) = session_step(state, SessionEvent::RelayError, &policy);
    assert_eq!(action, SessionAction::Close);
    assert!(matches!(
        state,
        SessionState::Done(SessionOutcome::RelayFailed)
    ));
}
