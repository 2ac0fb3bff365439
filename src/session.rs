//! The session lifecycle as a state machine. The caller performs the
//! transport work each action asks for and hands back what happened as the
//! next event; the machine decides everything else.

use vstd::prelude::*;
use crate::client::{auth_text, json_string, MginDBClient};

verus! {

/// Whether the session's own connection is up.
#[derive(Clone, Copy, PartialEq, Eq, Structural, Debug)]
pub enum Phase {
    Closed,
    Opening,
    Open,
}

/// Where the one outstanding command, if any, stands.
#[derive(Clone, Copy, PartialEq, Eq, Structural, Debug)]
pub enum Pending {
    Idle,
    Sending,
    AwaitingReply,
}

#[derive(Clone, Copy, PartialEq, Eq, Structural, Debug)]
pub struct SessionState {
    pub phase: Phase,
    pub pending: Pending,
}

/// The failures a caller can tell apart.
#[derive(Clone, Copy, PartialEq, Eq, Structural, Debug)]
pub enum ClientError {
    /// The session's transport handshake could not be completed.
    ConnectionError,
    /// The per-command connection could not be set up or written.
    SendError,
    /// The inbound stream ended before a reply was available.
    NoReplyError,
}

/// What the caller asks for, or what the transport reports back.
#[derive(Debug, PartialEq, Eq)]
pub enum Event {
    /// The caller asks to open the session.
    Open,
    /// The session's transport handshake completed.
    Connected,
    /// The session's transport handshake failed.
    ConnectFailed,
    /// The caller issues a command line.
    Command(String),
    /// The command line was written on its own connection.
    Sent,
    /// The command's connection or write failed.
    SendFailed,
    /// The next element of the inbound stream.
    Reply(String),
    /// The inbound stream is exhausted.
    StreamEnded,
    /// The caller asks to close the session.
    Close,
}

/// The work the caller is to do next.
#[derive(Debug, PartialEq, Eq)]
pub enum Action {
    Nothing,
    /// Perform the WebSocket handshake with this URI.
    Connect(String),
    /// Send this credential message on the session's connection, then start
    /// forwarding inbound text frames.
    SendAuth(String),
    /// Open a connection to the URI (first) and write the line (second).
    SendCommand(String, String),
    /// Take the next element of the inbound stream.
    AwaitReply,
    /// Hand this reply text to the command's caller.
    Deliver(String),
    /// Report this failure to the caller of the current operation.
    Fail(ClientError),
    /// Release the session's connection and stop its reader.
    CloseTransport,
}

pub enum ActionView {
    Nothing,
    Connect(Seq<char>),
    SendAuth(Seq<char>),
    SendCommand(Seq<char>, Seq<char>),
    AwaitReply,
    Deliver(Seq<char>),
    Fail(ClientError),
    CloseTransport,
}

impl View for Action {
    type V = ActionView;

    open spec fn view(&self) -> ActionView {
        match self {
            Action::Nothing => ActionView::Nothing,
            Action::Connect(u) => ActionView::Connect(u@),
            Action::SendAuth(p) => ActionView::SendAuth(p@),
            Action::SendCommand(u, l) => ActionView::SendCommand(u@, l@),
            Action::AwaitReply => ActionView::AwaitReply,
            Action::Deliver(t) => ActionView::Deliver(t@),
            Action::Fail(e) => ActionView::Fail(*e),
            Action::CloseTransport => ActionView::CloseTransport,
        }
    }
}

pub open spec fn state(phase: Phase, pending: Pending) -> SessionState {
    SessionState { phase, pending }
}

/// The transition table: from a state and an event, given the endpoint URI
/// and the credential message, the next state and the action. An event that does not fit the
/// state leaves it unchanged and asks for nothing.
pub open spec fn transition(
    s: SessionState,
    ev: Event,
    uri: Seq<char>,
    auth: Seq<char>,
) -> (SessionState, ActionView) {
    let ignore = (s, ActionView::Nothing);
    match ev {
        Event::Open => if s.phase == Phase::Closed && s.pending == Pending::Idle {
            (state(Phase::Opening, Pending::Idle), ActionView::Connect(uri))
        } else {
            ignore
        },
        Event::Connected => if s.phase == Phase::Opening {
            (state(Phase::Open, Pending::Idle), ActionView::SendAuth(auth))
        } else {
            ignore
        },
        Event::ConnectFailed => if s.phase == Phase::Opening {
            (state(Phase::Closed, Pending::Idle), ActionView::Fail(ClientError::ConnectionError))
        } else {
            ignore
        },
        Event::Command(line) => if s.phase != Phase::Opening && s.pending == Pending::Idle {
            (state(s.phase, Pending::Sending), ActionView::SendCommand(uri, line@))
        } else {
            ignore
        },
        Event::Sent => if s.pending == Pending::Sending {
            if s.phase == Phase::Open {
                (state(Phase::Open, Pending::AwaitingReply), ActionView::AwaitReply)
            } else {
                (state(s.phase, Pending::Idle), ActionView::Fail(ClientError::NoReplyError))
            }
        } else {
            ignore
        },
        Event::SendFailed => if s.pending == Pending::Sending {
            (state(s.phase, Pending::Idle), ActionView::Fail(ClientError::SendError))
        } else {
            ignore
        },
        Event::Reply(text) => if s.pending == Pending::AwaitingReply {
            (state(s.phase, Pending::Idle), ActionView::Deliver(text@))
        } else {
            ignore
        },
        Event::StreamEnded => if s.pending == Pending::AwaitingReply {
            (state(Phase::Closed, Pending::Idle), ActionView::Fail(ClientError::NoReplyError))
        } else {
            ignore
        },
        Event::Close => if s.phase != Phase::Closed {
            (state(Phase::Closed, Pending::Idle), ActionView::CloseTransport)
        } else {
            ignore
        },
    }
}

/// The state reached and the actions asked for when the events are taken
/// in order.
pub open spec fn run(
    s: SessionState,
    evs: Seq<Event>,
    uri: Seq<char>,
    auth: Seq<char>,
) -> (SessionState, Seq<ActionView>)
    decreases evs.len(),
{
    if evs.len() == 0 {
        (s, Seq::empty())
    } else {
        let (s1, a) = transition(s, evs[0], uri, auth);
        let (sn, acts) = run(s1, evs.drop_first(), uri, auth);
        (sn, seq![a] + acts)
    }
}

/// Closing leaves the session closed whatever its state, with no command
/// outstanding when it was not closed already; closing a closed session does
/// nothing.
pub proof fn lemma_close_is_idempotent(s: SessionState, uri: Seq<char>, auth: Seq<char>)
    ensures
        transition(s, Event::Close, uri, auth).0.phase == Phase::Closed,
        s.phase != Phase::Closed ==> transition(s, Event::Close, uri, auth).0.pending
            == Pending::Idle,
        ({
            let c = transition(s, Event::Close, uri, auth).0;
            transition(c, Event::Close, uri, auth) == (c, ActionView::Nothing)
        }),
{
}

/// A command issued on a closed session is still written on its own
/// connection, and then fails: with `SendError` when that write fails, and
/// with `NoReplyError` otherwise. The outcome is fixed by the transport's
/// report alone.
pub proof fn lemma_command_after_close(line: String, uri: Seq<char>, auth: Seq<char>)
    ensures
        transition(state(Phase::Closed, Pending::Idle), Event::Command(line), uri, auth) == (
            state(Phase::Closed, Pending::Sending),
            ActionView::SendCommand(uri, line@),
        ),
        transition(state(Phase::Closed, Pending::Sending), Event::SendFailed, uri, auth) == (
            state(Phase::Closed, Pending::Idle),
            ActionView::Fail(ClientError::SendError),
        ),
        transition(state(Phase::Closed, Pending::Sending), Event::Sent, uri, auth) == (
            state(Phase::Closed, Pending::Idle),
            ActionView::Fail(ClientError::NoReplyError),
        ),
{
}

/// Until it is opened again, a closed session with no reply awaited
/// delivers no reply to anyone, and every failure it reports is a
/// `SendError` or a `NoReplyError`.
pub proof fn lemma_closed_session_delivers_nothing(
    s: SessionState,
    evs: Seq<Event>,
    uri: Seq<char>,
    auth: Seq<char>,
)
    requires
        s.phase == Phase::Closed,
        s.pending != Pending::AwaitingReply,
        forall|i: int| 0 <= i < evs.len() ==> !(evs[i] is Open),
    ensures
        run(s, evs, uri, auth).0.phase == Phase::Closed,
        run(s, evs, uri, auth).0.pending != Pending::AwaitingReply,
        run(s, evs, uri, auth).1.len() == evs.len(),
        forall|j: int|
            0 <= j < evs.len() ==> {
                let a = #[trigger] run(s, evs, uri, auth).1[j];
                &&& !(a is Deliver)
                &&& a is Fail ==> (a->Fail_0 == ClientError::SendError || a->Fail_0
                    == ClientError::NoReplyError)
            },
    decreases evs.len(),
{
    if evs.len() > 0 {
        let s1 = transition(s, evs[0], uri, auth).0;
        let rest = evs.drop_first();
        assert forall|i: int| 0 <= i < rest.len() implies !(rest[i] is Open) by {
            assert(rest[i] == evs[i + 1]);
        }
        lemma_closed_session_delivers_nothing(s1, rest, uri, auth);
        let acts = run(s, evs, uri, auth).1;
        assert forall|j: int| 0 <= j < evs.len() implies {
            let a = #[trigger] acts[j];
            &&& !(a is Deliver)
            &&& a is Fail ==> (a->Fail_0 == ClientError::SendError || a->Fail_0
                == ClientError::NoReplyError)
        } by {
            if j > 0 {
                assert(acts[j] == run(s1, rest, uri, auth).1[j - 1]);
            }
        }
    }
}

/// Opening against an endpoint whose handshake fails reports
/// `ConnectionError` and leaves the session closed, and from then on, until
/// it is opened again, no reply reaches any caller.
pub proof fn lemma_failed_open(evs: Seq<Event>, uri: Seq<char>, auth: Seq<char>)
    requires
        forall|i: int| 0 <= i < evs.len() ==> !(evs[i] is Open),
    ensures
        transition(state(Phase::Closed, Pending::Idle), Event::Open, uri, auth) == (
            state(Phase::Opening, Pending::Idle),
            ActionView::Connect(uri),
        ),
        transition(state(Phase::Opening, Pending::Idle), Event::ConnectFailed, uri, auth) == (
            state(Phase::Closed, Pending::Idle),
            ActionView::Fail(ClientError::ConnectionError),
        ),
        forall|j: int|
            0 <= j < evs.len() ==> !(#[trigger] run(
                state(Phase::Closed, Pending::Idle),
                evs,
                uri,
                auth,
            ).1[j] is Deliver),
{
    lemma_closed_session_delivers_nothing(state(Phase::Closed, Pending::Idle), evs, uri, auth);
}

/// On a freshly opened session, a command whose write succeeds is answered
/// with the next inbound element, handed back unmodified.
pub proof fn lemma_round_trip(line: String, reply: String, uri: Seq<char>, auth: Seq<char>)
    ensures
        run(
            state(Phase::Closed, Pending::Idle),
            seq![Event::Open, Event::Connected, Event::Command(line), Event::Sent, Event::Reply(reply)],
            uri,
            auth,
        ) == (
            state(Phase::Open, Pending::Idle),
            seq![
                ActionView::Connect(uri),
                ActionView::SendAuth(auth),
                ActionView::SendCommand(uri, line@),
                ActionView::AwaitReply,
                ActionView::Deliver(reply@),
            ],
        ),
{
    let evs = seq![Event::Open, Event::Connected, Event::Command(line), Event::Sent, Event::Reply(reply)];
    let a = auth;
    let s0 = state(Phase::Closed, Pending::Idle);
    let s1 = state(Phase::Opening, Pending::Idle);
    let s2 = state(Phase::Open, Pending::Idle);
    let s3 = state(Phase::Open, Pending::Sending);
    let s4 = state(Phase::Open, Pending::AwaitingReply);
    assert(evs.drop_first() == seq![Event::Connected, Event::Command(line), Event::Sent, Event::Reply(reply)]);
    assert(evs.drop_first().drop_first() == seq![Event::Command(line), Event::Sent, Event::Reply(reply)]);
    assert(evs.drop_first().drop_first().drop_first() == seq![Event::Sent, Event::Reply(reply)]);
    assert(evs.drop_first().drop_first().drop_first().drop_first() == seq![Event::Reply(reply)]);
    assert(seq![Event::Reply(reply)].drop_first() == Seq::<Event>::empty());
    assert(run(s2, Seq::<Event>::empty(), uri, a).1 =~= Seq::<ActionView>::empty());
    assert(run(s4, seq![Event::Reply(reply)], uri, a).1 =~= seq![ActionView::Deliver(reply@)]);
    assert(run(s3, seq![Event::Sent, Event::Reply(reply)], uri, a).1 =~= seq![
        ActionView::AwaitReply,
        ActionView::Deliver(reply@),
    ]);
    assert(run(s2, seq![Event::Command(line), Event::Sent, Event::Reply(reply)], uri, a).1 =~= seq![
        ActionView::SendCommand(uri, line@),
        ActionView::AwaitReply,
        ActionView::Deliver(reply@),
    ]);
    assert(run(s1, evs.drop_first(), uri, a).1 =~= seq![
        ActionView::SendAuth(auth),
        ActionView::SendCommand(uri, line@),
        ActionView::AwaitReply,
        ActionView::Deliver(reply@),
    ]);
    assert(run(s0, evs, uri, a).1 =~= seq![
        ActionView::Connect(uri),
        ActionView::SendAuth(auth),
        ActionView::SendCommand(uri, line@),
        ActionView::AwaitReply,
        ActionView::Deliver(reply@),
    ]);
}

/// The states a session can reach: a closed session never awaits a reply,
/// and an opening one has no command outstanding.
pub open spec fn reachable(s: SessionState) -> bool {
    &&& s.phase == Phase::Closed ==> s.pending != Pending::AwaitingReply
    &&& s.phase == Phase::Opening ==> s.pending == Pending::Idle
}

/// Every transition keeps a session among the reachable states.
pub proof fn lemma_transition_keeps_reachable(
    s: SessionState,
    ev: Event,
    uri: Seq<char>,
    auth: Seq<char>,
)
    requires
        reachable(s),
    ensures
        reachable(transition(s, ev, uri, auth).0),
{
}

/// The effect of taking two runs of events one after the other.
pub proof fn lemma_run_append(
    s: SessionState,
    a: Seq<Event>,
    b: Seq<Event>,
    uri: Seq<char>,
    auth: Seq<char>,
)
    ensures
        run(s, a + b, uri, auth) == ({
            let (m, first) = run(s, a, uri, auth);
            let (e, second) = run(m, b, uri, auth);
            (e, first + second)
        }),
    decreases a.len(),
{
    if a.len() == 0 {
        assert(a + b == b);
        assert(Seq::<ActionView>::empty() + run(s, b, uri, auth).1 == run(s, b, uri, auth).1);
    } else {
        let s1 = transition(s, a[0], uri, auth).0;
        assert((a + b).drop_first() == a.drop_first() + b);
        assert((a + b)[0] == a[0]);
        lemma_run_append(s1, a.drop_first(), b, uri, auth);
        let x = transition(s, a[0], uri, auth).1;
        let (m, rest_first) = run(s1, a.drop_first(), uri, auth);
        let second = run(m, b, uri, auth).1;
        assert(seq![x] + (rest_first + second) == (seq![x] + rest_first) + second);
    }
}

/// Once the caller closes the session, and until it opens it again, no
/// reply reaches any caller, and every failure reported is a `SendError`
/// (the command's own connection or write failed) or a `NoReplyError`.
pub proof fn lemma_after_close(
    s: SessionState,
    evs: Seq<Event>,
    uri: Seq<char>,
    auth: Seq<char>,
)
    requires
        reachable(s),
        forall|i: int| 0 <= i < evs.len() ==> !(evs[i] is Open),
    ensures
        forall|j: int|
            0 <= j < evs.len() + 1 ==> {
                let a = #[trigger] run(s, seq![Event::Close] + evs, uri, auth).1[j];
                &&& !(a is Deliver)
                &&& a is Fail ==> (a->Fail_0 == ClientError::SendError || a->Fail_0
                    == ClientError::NoReplyError)
            },
{
    let c = transition(s, Event::Close, uri, auth).0;
    assert((seq![Event::Close] + evs).drop_first() == evs);
    assert((seq![Event::Close] + evs)[0] == Event::Close);
    lemma_closed_session_delivers_nothing(c, evs, uri, auth);
    let acts = run(s, seq![Event::Close] + evs, uri, auth).1;
    assert forall|j: int| 0 <= j < evs.len() + 1 implies {
        let a = #[trigger] acts[j];
        &&& !(a is Deliver)
        &&& a is Fail ==> (a->Fail_0 == ClientError::SendError || a->Fail_0
            == ClientError::NoReplyError)
    } by {
        if j > 0 {
            assert(acts[j] == run(c, evs, uri, auth).1[j - 1]);
        }
    }
}

/// The events of commands issued one after another, each awaited before
/// the next: the command line, a successful write, then its reply.
pub open spec fn exchanges(lines: Seq<String>, replies: Seq<String>) -> Seq<Event>
    decreases lines.len(),
{
    if lines.len() == 0 || replies.len() == 0 {
        Seq::empty()
    } else {
        seq![Event::Command(lines[0]), Event::Sent, Event::Reply(replies[0])] + exchanges(
            lines.drop_first(),
            replies.drop_first(),
        )
    }
}

/// The actions an open session asks for over such a run of commands.
pub open spec fn exchange_actions(
    uri: Seq<char>,
    lines: Seq<String>,
    replies: Seq<String>,
) -> Seq<ActionView>
    decreases lines.len(),
{
    if lines.len() == 0 || replies.len() == 0 {
        Seq::empty()
    } else {
        seq![
            ActionView::SendCommand(uri, lines[0]@),
            ActionView::AwaitReply,
            ActionView::Deliver(replies[0]@),
        ] + exchange_actions(uri, lines.drop_first(), replies.drop_first())
    }
}

proof fn lemma_one_exchange(line: String, reply: String, uri: Seq<char>, auth: Seq<char>)
    ensures
        run(
            state(Phase::Open, Pending::Idle),
            seq![Event::Command(line), Event::Sent, Event::Reply(reply)],
            uri,
            auth,
        ) == (
            state(Phase::Open, Pending::Idle),
            seq![
                ActionView::SendCommand(uri, line@),
                ActionView::AwaitReply,
                ActionView::Deliver(reply@),
            ],
        ),
{
    let evs = seq![Event::Command(line), Event::Sent, Event::Reply(reply)];
    let s2 = state(Phase::Open, Pending::Idle);
    let s3 = state(Phase::Open, Pending::Sending);
    let s4 = state(Phase::Open, Pending::AwaitingReply);
    assert(evs.drop_first() == seq![Event::Sent, Event::Reply(reply)]);
    assert(evs.drop_first().drop_first() == seq![Event::Reply(reply)]);
    assert(seq![Event::Reply(reply)].drop_first() == Seq::<Event>::empty());
    assert(run(s2, Seq::<Event>::empty(), uri, auth).1 =~= Seq::<ActionView>::empty());
    assert(run(s4, seq![Event::Reply(reply)], uri, auth).1 =~= seq![ActionView::Deliver(reply@)]);
    assert(run(s3, seq![Event::Sent, Event::Reply(reply)], uri, auth).1 =~= seq![
        ActionView::AwaitReply,
        ActionView::Deliver(reply@),
    ]);
    assert(run(s2, evs, uri, auth).1 =~= seq![
        ActionView::SendCommand(uri, line@),
        ActionView::AwaitReply,
        ActionView::Deliver(reply@),
    ]);
}

/// On an open session, commands issued one after another, each written
/// successfully, receive the inbound replies in the order they arrived, one
/// each and unmodified, and leave the session open with nothing outstanding.
pub proof fn lemma_replies_in_order(
    lines: Seq<String>,
    replies: Seq<String>,
    uri: Seq<char>,
    auth: Seq<char>,
)
    requires
        lines.len() == replies.len(),
    ensures
        run(state(Phase::Open, Pending::Idle), exchanges(lines, replies), uri, auth) == (
            state(Phase::Open, Pending::Idle),
            exchange_actions(uri, lines, replies),
        ),
    decreases lines.len(),
{
    let s2 = state(Phase::Open, Pending::Idle);
    if lines.len() == 0 {
        assert(run(s2, Seq::<Event>::empty(), uri, auth).1 =~= Seq::<ActionView>::empty());
    } else {
        let first = seq![Event::Command(lines[0]), Event::Sent, Event::Reply(replies[0])];
        let rest = exchanges(lines.drop_first(), replies.drop_first());
        lemma_one_exchange(lines[0], replies[0], uri, auth);
        lemma_replies_in_order(lines.drop_first(), replies.drop_first(), uri, auth);
        lemma_run_append(s2, first, rest, uri, auth);
    }
}

/// A session: its configuration, its credential message, and where it stands.
pub struct Session {
    pub client: MginDBClient,
    pub auth: String,
    pub state: SessionState,
}

impl Session {
    /// A closed session for this configuration; its credential message is
    /// encoded here, once.
    pub fn new(client: MginDBClient) -> (r: Session)
        ensures
            r.state == state(Phase::Closed, Pending::Idle),
            reachable(r.state),
            r.client == client,
            r.auth@ == auth_text(json_string(client.username@), json_string(client.password@)),
    {
        let auth = client.auth_payload();
        Session { client, auth, state: SessionState { phase: Phase::Closed, pending: Pending::Idle } }
    }

    /// Takes one event and returns the action it calls for.
    pub fn step(&mut self, ev: Event) -> (a: Action)
        ensures
            (final(self).state, a@) == transition(
                old(self).state,
                ev,
                old(self).client.uri@,
                old(self).auth@,
            ),
            reachable(old(self).state) ==> reachable(final(self).state),
            final(self).client == old(self).client,
            final(self).auth == old(self).auth,
    {
        proof {
            if reachable(self.state) {
                lemma_transition_keeps_reachable(self.state, ev, self.client.uri@, self.auth@);
            }
        }
        let s = self.state;
        match ev {
            Event::Open => {
                if s.phase == Phase::Closed && s.pending == Pending::Idle {
                    self.state = SessionState { phase: Phase::Opening, pending: Pending::Idle };
                    Action::Connect(self.client.uri.clone())
                } else {
                    Action::Nothing
                }
            },
            Event::Connected => {
                if s.phase == Phase::Opening {
                    self.state = SessionState { phase: Phase::Open, pending: Pending::Idle };
                    Action::SendAuth(self.auth.clone())
                } else {
                    Action::Nothing
                }
            },
            Event::ConnectFailed => {
                if s.phase == Phase::Opening {
                    self.state = SessionState { phase: Phase::Closed, pending: Pending::Idle };
                    Action::Fail(ClientError::ConnectionError)
                } else {
                    Action::Nothing
                }
            },
            Event::Command(line) => {
                if s.phase != Phase::Opening && s.pending == Pending::Idle {
                    self.state = SessionState { phase: s.phase, pending: Pending::Sending };
                    Action::SendCommand(self.client.uri.clone(), line)
                } else {
                    Action::Nothing
                }
            },
            Event::Sent => {
                if s.pending == Pending::Sending {
                    if s.phase == Phase::Open {
                        self.state = SessionState { phase: Phase::Open, pending: Pending::AwaitingReply };
                        Action::AwaitReply
                    } else {
                        self.state = SessionState { phase: s.phase, pending: Pending::Idle };
                        Action::Fail(ClientError::NoReplyError)
                    }
                } else {
                    Action::Nothing
                }
            },
            Event::SendFailed => {
                if s.pending == Pending::Sending {
                    self.state = SessionState { phase: s.phase, pending: Pending::Idle };
                    Action::Fail(ClientError::SendError)
                } else {
                    Action::Nothing
                }
            },
            Event::Reply(text) => {
                if s.pending == Pending::AwaitingReply {
                    self.state = SessionState { phase: s.phase, pending: Pending::Idle };
                    Action::Deliver(text)
                } else {
                    Action::Nothing
                }
            },
            Event::StreamEnded => {
                if s.pending == Pending::AwaitingReply {
                    self.state = SessionState { phase: Phase::Closed, pending: Pending::Idle };
                    Action::Fail(ClientError::NoReplyError)
                } else {
                    Action::Nothing
                }
            },
            Event::Close => {
                if s.phase != Phase::Closed {
                    self.state = SessionState { phase: Phase::Closed, pending: Pending::Idle };
                    Action::CloseTransport
                } else {
                    Action::Nothing
                }
            },
        }
    }
}

} // verus!
