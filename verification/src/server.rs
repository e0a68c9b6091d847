//! The proxy's side of a connection: the handshake under its deadline, and
//! the session that leads from the handshake over the connect to the relay
//! and to the closing of the sockets.

use crate::protocol::{after_decode, server_reply, server_result, HandshakeError, Socks4IO};
use crate::relay::RelayPair;
use vstd::prelude::*;

verus! {

/// How long a client has to complete the handshake.
pub const HANDSHAKE_TIMEOUT_SECS: u64 = 5;

/// Where the proxy listens.
#[derive(Debug)]
pub struct Server {
    pub host: String,
    pub port: u16,
}

impl Server {
    /// A proxy that is to listen on `host` and `port`.
    pub fn new(host: String, port: u16) -> (server: Self)
        ensures
            server.host == host,
            server.port == port,
    {
        Server { host, port }
    }

    /// The handshake with a client under its deadline. Where the deadline
    /// has passed before the client's request was there, the handshake
    /// fails with `Timeout` and the client is sent nothing; else it runs as
    /// `Socks4IO::make_server_handshake` does.
    pub fn handshake(client: &mut Socks4IO, deadline_elapsed: bool) -> (r: Result<
        ([u8; 4], u16),
        HandshakeError,
    >)
        ensures
            deadline_elapsed ==> {
                &&& r matches Err(e) && e == HandshakeError::Timeout
                &&& final(client).sent() == old(client).sent()
                &&& final(client).unread() == old(client).unread()
            },
            !deadline_elapsed ==> {
                &&& final(client).unread() == after_decode(old(client).unread())
                &&& final(client).sent() == old(client).sent() + server_reply(
                    old(client).unread(),
                )
                &&& match server_result(old(client).unread()) {
                    Ok((addr, port)) => r matches Ok((a, p)) && a@ == addr && p == port,
                    Err(error) => r matches Err(e) && e == error,
                }
            },
    {
        if deadline_elapsed {
            Err(HandshakeError::Timeout)
        } else {
            client.make_server_handshake()
        }
    }
}

/// What the driver reports to a session.
#[derive(Debug, Clone, Copy, PartialEq, Eq)]
pub enum SessionEvent {
    /// The handshake is over: the destination, or why there is none.
    Handshake(Result<([u8; 4], u16), HandshakeError>),
    /// The connection to the destination stands.
    Connected,
    /// The destination could not be reached.
    ConnectFailed,
    /// The relay has moved on: the state of its two directions.
    Relayed(RelayPair),
}

/// What a session asks of the driver.
#[derive(Debug, Clone, Copy, PartialEq, Eq)]
pub enum SessionAction {
    /// Open a connection to this address and port.
    Connect([u8; 4], u16),
    /// Relay between the client and the destination.
    StartRelay,
    /// Close the client's socket; there is no other.
    CloseClient,
    /// Close the client's socket and the destination's.
    CloseBoth,
    /// Nothing.
    Nothing,
}

/// One accepted connection, from the handshake to the closing of its
/// sockets.
#[derive(Debug, Clone, Copy, PartialEq, Eq)]
pub enum Session {
    /// The handshake with the client is under way.
    Handshaking,
    /// The handshake has given this destination; the connection to it is
    /// being opened.
    Connecting([u8; 4], u16),
    /// The relay between the client and this destination is under way.
    Relaying([u8; 4], u16),
    /// The sockets are closed.
    Closed,
}

/// The state that follows `session` on `event`, and what the driver is
/// asked to do. An event that does not belong to the state changes nothing.
pub open spec fn session_next(session: Session, event: SessionEvent) -> (Session, SessionAction) {
    match (session, event) {
        (Session::Handshaking, SessionEvent::Handshake(Ok((addr, port)))) => (
            Session::Connecting(addr, port),
            SessionAction::Connect(addr, port),
        ),
        (Session::Handshaking, SessionEvent::Handshake(Err(_))) => (
            Session::Closed,
            SessionAction::CloseClient,
        ),
        (Session::Connecting(addr, port), SessionEvent::Connected) => (
            Session::Relaying(addr, port),
            SessionAction::StartRelay,
        ),
        (Session::Connecting(_, _), SessionEvent::ConnectFailed) => (
            Session::Closed,
            SessionAction::CloseClient,
        ),
        (Session::Relaying(addr, port), SessionEvent::Relayed(pair)) => if pair.is_finished() {
            (Session::Closed, SessionAction::CloseBoth)
        } else {
            (Session::Relaying(addr, port), SessionAction::Nothing)
        },
        _ => (session, SessionAction::Nothing),
    }
}

impl Session {
    /// The session of a connection that was just accepted.
    pub fn new() -> (session: Self)
        ensures
            session == Session::Handshaking,
    {
        Session::Handshaking
    }

    /// Takes in an event and says what to do next.
    pub fn step(&mut self, event: SessionEvent) -> (action: SessionAction)
        ensures
            (*final(self), action) == session_next(*old(self), event),
    {
        let (next, action) = match (*self, event) {
            (Session::Handshaking, SessionEvent::Handshake(Ok((addr, port)))) => (
                Session::Connecting(addr, port),
                SessionAction::Connect(addr, port),
            ),
            (Session::Handshaking, SessionEvent::Handshake(Err(_))) => (
                Session::Closed,
                SessionAction::CloseClient,
            ),
            (Session::Connecting(addr, port), SessionEvent::Connected) => (
                Session::Relaying(addr, port),
                SessionAction::StartRelay,
            ),
            (Session::Connecting(_, _), SessionEvent::ConnectFailed) => (
                Session::Closed,
                SessionAction::CloseClient,
            ),
            (Session::Relaying(addr, port), SessionEvent::Relayed(pair)) => if pair.finished() {
                (Session::Closed, SessionAction::CloseBoth)
            } else {
                (Session::Relaying(addr, port), SessionAction::Nothing)
            },
            (session, _) => (session, SessionAction::Nothing),
        };
        *self = next;
        action
    }
}

/// What the driver reports to a listener.
#[derive(Debug, Clone, Copy, PartialEq, Eq, Structural)]
pub enum ListenerEvent {
    /// The listening socket is bound.
    Bound,
    /// The listening socket could not be bound.
    BindFailed,
    /// A client has connected.
    Accepted,
    /// An accept failed.
    AcceptFailed,
}

/// What a listener asks of the driver.
#[derive(Debug, Clone, Copy, PartialEq, Eq, Structural)]
pub enum ListenerAction {
    /// Bind the listening socket.
    Bind,
    /// Wait for the next client.
    Accept,
    /// Hand the accepted connection to a session of its own, which runs
    /// apart from the listener and from every other session, and wait for
    /// the next client.
    Serve,
    /// Give up: there is no socket to listen on.
    Stop,
}

/// The proxy's listening socket.
#[derive(Debug, Clone, Copy, PartialEq, Eq, Structural)]
pub enum Listener {
    /// The socket is not bound yet.
    Binding,
    /// The socket is bound and clients are accepted.
    Accepting,
    /// The socket could not be bound.
    Stopped,
}

/// The state that follows `listener` on `event`, and what the driver is
/// asked to do. A failed bind stops the listener; a failed accept does not.
pub open spec fn listener_next(listener: Listener, event: ListenerEvent) -> (
    Listener,
    ListenerAction,
) {
    match listener {
        Listener::Binding => match event {
            ListenerEvent::Bound => (Listener::Accepting, ListenerAction::Accept),
            ListenerEvent::BindFailed => (Listener::Stopped, ListenerAction::Stop),
            _ => (Listener::Binding, ListenerAction::Bind),
        },
        Listener::Accepting => match event {
            ListenerEvent::Accepted => (Listener::Accepting, ListenerAction::Serve),
            _ => (Listener::Accepting, ListenerAction::Accept),
        },
        Listener::Stopped => (Listener::Stopped, ListenerAction::Stop),
    }
}

/// What a sequence of events makes of a listener.
pub open spec fn listener_run(listener: Listener, events: Seq<ListenerEvent>) -> Listener
    decreases events.len(),
{
    if events.len() == 0 {
        listener
    } else {
        listener_next(listener_run(listener, events.drop_last()), events.last()).0
    }
}

impl Listener {
    /// A listener that has still to bind its socket.
    pub fn new() -> (listener: Self)
        ensures
            listener == Listener::Binding,
    {
        Listener::Binding
    }

    /// Takes in an event and says what to do next.
    pub fn step(&mut self, event: ListenerEvent) -> (action: ListenerAction)
        ensures
            (*final(self), action) == listener_next(*old(self), event),
    {
        let (next, action) = match *self {
            Listener::Binding => match event {
                ListenerEvent::Bound => (Listener::Accepting, ListenerAction::Accept),
                ListenerEvent::BindFailed => (Listener::Stopped, ListenerAction::Stop),
                _ => (Listener::Binding, ListenerAction::Bind),
            },
            Listener::Accepting => match event {
                ListenerEvent::Accepted => (Listener::Accepting, ListenerAction::Serve),
                _ => (Listener::Accepting, ListenerAction::Accept),
            },
            Listener::Stopped => (Listener::Stopped, ListenerAction::Stop),
        };
        *self = next;
        action
    }
}

/// A listener that accepts goes on accepting, whatever is reported to it:
/// no failure of a single connection stops it.
pub proof fn lemma_listener_never_stops(events: Seq<ListenerEvent>)
    ensures
        listener_run(Listener::Accepting, events) == Listener::Accepting,
    decreases events.len(),
{
    if events.len() > 0 {
        lemma_listener_never_stops(events.drop_last());
    }
}

/// What a sequence of events makes of a new session: the state that it ends
/// in, and what the driver was asked to do, in order, `Nothing` left out.
pub open spec fn session_run(events: Seq<SessionEvent>) -> (Session, Seq<SessionAction>)
    decreases events.len(),
{
    if events.len() == 0 {
        (Session::Handshaking, Seq::empty())
    } else {
        let (before, asked) = session_run(events.drop_last());
        let (after, action) = session_next(before, events.last());
        (
            after,
            if action == SessionAction::Nothing {
                asked
            } else {
                asked.push(action)
            },
        )
    }
}

/// The course that a session may have taken to reach its state: nothing was
/// asked during the handshake; the connect to the handshake's destination
/// was asked once it was known; the relay was started once the connection
/// stood; and a closed session has closed the client alone, before or after
/// the connect was tried, or both sockets after a relay.
pub open spec fn on_course(session: Session, asked: Seq<SessionAction>) -> bool {
    match session {
        Session::Handshaking => asked.len() == 0,
        Session::Connecting(addr, port) => {
            &&& asked.len() == 1
            &&& asked[0] == SessionAction::Connect(addr, port)
        },
        Session::Relaying(addr, port) => {
            &&& asked.len() == 2
            &&& asked[0] == SessionAction::Connect(addr, port)
            &&& asked[1] == SessionAction::StartRelay
        },
        Session::Closed => {
            ||| asked.len() == 1 && asked[0] == SessionAction::CloseClient
            ||| asked.len() == 2 && asked[0] is Connect && asked[1] == SessionAction::CloseClient
            ||| asked.len() == 3 && asked[0] is Connect && asked[1] == SessionAction::StartRelay
                && asked[2] == SessionAction::CloseBoth
        },
    }
}

/// Whatever is reported to a session, in whatever order, it stays on course:
/// no connect is tried before the handshake has succeeded or after it has
/// failed, no relay is started before the connection stands, the sockets are
/// closed once and only once, and a closed session asks for nothing more.
pub proof fn lemma_session_on_course(events: Seq<SessionEvent>)
    ensures
        on_course(session_run(events).0, session_run(events).1),
    decreases events.len(),
{
    if events.len() > 0 {
        lemma_session_on_course(events.drop_last());
    }
}

/// A session whose handshake fails closes the client's socket at once and
/// does nothing else, whatever is reported to it afterwards: no connect is
/// tried and no relay is started.
pub proof fn lemma_failed_handshake_closes(events: Seq<SessionEvent>)
    requires
        events.len() > 0,
        events[0] matches SessionEvent::Handshake(r) && r is Err,
    ensures
        session_run(events).0 == Session::Closed,
        session_run(events).1 == seq![SessionAction::CloseClient],
    decreases events.len(),
{
    if events.len() == 1 {
        assert(events.drop_last().len() == 0);
        assert(session_run(events.drop_last()) == (
            Session::Handshaking,
            Seq::<SessionAction>::empty(),
        ));
        assert(events.last() == events[0]);
        assert(session_run(events).1 =~= seq![SessionAction::CloseClient]);
    } else {
        assert(events.drop_last()[0] == events[0]);
        lemma_failed_handshake_closes(events.drop_last());
    }
}

} // verus!
