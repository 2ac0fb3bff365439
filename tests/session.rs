use mgindb::client::MginDBClient;
use mgindb::command::incr;
use mgindb::session::{Action, ClientError, Event, Pending, Phase, Session, SessionState};

fn closed_session() -> Session {
    Session::new(MginDBClient::new("ws", "127.0.0.1", 6446, "user", "pass"))
}

fn open_session() -> Session {
    let mut s = closed_session();
    assert_eq!(s.step(Event::Open), Action::Connect("ws://127.0.0.1:6446".to_string()));
    assert_eq!(
        s.step(Event::Connected),
        Action::SendAuth("{\"username\":\"user\",\"password\":\"pass\"}".to_string())
    );
    s
}

fn state(phase: Phase, pending: Pending) -> SessionState {
    SessionState { phase, pending }
}

#[test]
fn new_session_is_closed() {
    assert_eq!(closed_session().state, state(Phase::Closed, Pending::Idle));
}

#[test]
fn unreachable_endpoint_gives_connection_error() {
    let mut s = closed_session();
    assert_eq!(s.step(Event::Open), Action::Connect("ws://127.0.0.1:6446".to_string()));
    assert_eq!(s.step(Event::ConnectFailed), Action::Fail(ClientError::ConnectionError));
    assert_eq!(s.state, state(Phase::Closed, Pending::Idle));
    assert_eq!(
        s.step(Event::Command("COUNT k".to_string())),
        Action::SendCommand("ws://127.0.0.1:6446".to_string(), "COUNT k".to_string())
    );
    assert_eq!(s.step(Event::Sent), Action::Fail(ClientError::NoReplyError));
    assert_eq!(s.step(Event::Reply("late".to_string())), Action::Nothing);
}

#[test]
fn round_trip_returns_reply_unmodified() {
    let mut s = open_session();
    let line = incr("k", "1");
    assert_eq!(
        s.step(Event::Command(line)),
        Action::SendCommand("ws://127.0.0.1:6446".to_string(), "INCR k 1".to_string())
    );
    assert_eq!(s.step(Event::Sent), Action::AwaitReply);
    assert_eq!(
        s.step(Event::Reply(" fixed reply \n".to_string())),
        Action::Deliver(" fixed reply \n".to_string())
    );
    assert_eq!(s.state, state(Phase::Open, Pending::Idle));
}

#[test]
fn command_after_close_fails_with_no_reply_when_write_succeeds() {
    let mut s = open_session();
    assert_eq!(s.step(Event::Close), Action::CloseTransport);
    assert!(matches!(s.step(Event::Command("SUB k".to_string())), Action::SendCommand(_, _)));
    assert_eq!(s.step(Event::Sent), Action::Fail(ClientError::NoReplyError));
}

#[test]
fn command_after_close_fails_with_send_error_when_write_fails() {
    let mut s = open_session();
    assert_eq!(s.step(Event::Close), Action::CloseTransport);
    assert!(matches!(s.step(Event::Command("SUB k".to_string())), Action::SendCommand(_, _)));
    assert_eq!(s.step(Event::SendFailed), Action::Fail(ClientError::SendError));
}

#[test]
fn close_is_idempotent() {
    let mut s = open_session();
    assert_eq!(s.step(Event::Close), Action::CloseTransport);
    assert_eq!(s.step(Event::Close), Action::Nothing);
    assert_eq!(s.state, state(Phase::Closed, Pending::Idle));
}

#[test]
fn send_failure_on_open_session_keeps_it_open() {
    let mut s = open_session();
    s.step(Event::Command("DEL k".to_string()));
    assert_eq!(s.step(Event::SendFailed), Action::Fail(ClientError::SendError));
    assert_eq!(s.state, state(Phase::Open, Pending::Idle));
}

#[test]
fn stream_end_while_awaiting_closes_session() {
    let mut s = open_session();
    s.step(Event::Command("DEL k".to_string()));
    assert_eq!(s.step(Event::Sent), Action::AwaitReply);
    assert_eq!(s.step(Event::StreamEnded), Action::Fail(ClientError::NoReplyError));
    assert_eq!(s.state, state(Phase::Closed, Pending::Idle));
}

#[test]
fn reopen_after_close_authenticates_again() {
    let mut s = open_session();
    s.step(Event::Close);
    assert_eq!(s.step(Event::Open), Action::Connect("ws://127.0.0.1:6446".to_string()));
    assert!(matches!(s.step(Event::Connected), Action::SendAuth(_)));
    assert_eq!(s.state, state(Phase::Open, Pending::Idle));
}

#[test]
fn open_on_open_session_does_nothing() {
    let mut s = open_session();
    assert_eq!(s.step(Event::Open), Action::Nothing);
    assert_eq!(s.state, state(Phase::Open, Pending::Idle));
}

#[test]
fn unexpected_events_are_ignored() {
    let mut s = closed_session();
    assert_eq!(s.step(Event::Connected), Action::Nothing);
    assert_eq!(s.step(Event::Sent), Action::Nothing);
    assert_eq!(s.step(Event::StreamEnded), Action::Nothing);
    assert_eq!(s.state, state(Phase::Closed, Pending::Idle));
}

#[test]
fn session_holds_credential_message() {
    assert_eq!(closed_session().auth, "{\"username\":\"user\",\"password\":\"pass\"}");
}

#[test]
fn close_while_awaiting_reply_drops_the_wait() {
    let mut s = open_session();
    s.step(Event::Command("COUNT k".to_string()));
    assert_eq!(s.step(Event::Sent), Action::AwaitReply);
    assert_eq!(s.step(Event::Close), Action::CloseTransport);
    assert_eq!(s.state, state(Phase::Closed, Pending::Idle));
    assert_eq!(s.step(Event::Reply("late".to_string())), Action::Nothing);
}

#[test]
fn sequential_commands_get_replies_in_order() {
    let mut s = open_session();
    for i in 0..4 {
        let line = format!("INCR k{} 1", i);
        assert!(matches!(s.step(Event::Command(line)), Action::SendCommand(_, _)));
        assert_eq!(s.step(Event::Sent), Action::AwaitReply);
        assert_eq!(s.step(Event::Reply(format!("r{}", i))), Action::Deliver(format!("r{}", i)));
    }
    assert_eq!(s.state, state(Phase::Open, Pending::Idle));
}
