//! One connection's life: not yet logged in, logged in as a user, closed.
//!
//! The transport reads lines and envelopes; the functions here decide what
//! each of them does to the connection and to the server.
use crate::clock::{rfc3339_text, Timestamp};
use crate::entity::message::{ClientMessage, ClientMessageView, Envelope, EnvelopeView};
use crate::ident::new_user_id;
use crate::model::ServerView;
use crate::server::ChatServer;
use vstd::prelude::*;

verus! {

/// Where a connection stands.
#[derive(Debug, Clone, PartialEq, Eq)]
pub enum ConnectionState {
    Unauthenticated,
    Authenticated { user_id: String },
    Closed,
}

/// The mathematical value of a [`ConnectionState`].
pub enum ConnectionView {
    Unauthenticated,
    Authenticated { user_id: Seq<char> },
    Closed,
}

impl View for ConnectionState {
    type V = ConnectionView;

    open spec fn view(&self) -> ConnectionView {
        match *self {
            ConnectionState::Unauthenticated => ConnectionView::Unauthenticated,
            ConnectionState::Authenticated { user_id } => ConnectionView::Authenticated {
                user_id: user_id@,
            },
            ConnectionState::Closed => ConnectionView::Closed,
        }
    }
}

/// What one step of a connection leaves behind: where the connection
/// stands, the server's state, and the envelopes to publish.
pub struct Reaction {
    pub connection: ConnectionView,
    pub server: ServerView,
    pub events: Seq<EnvelopeView>,
}

impl ConnectionView {
    /// What a line does that arrived on the connection and was decoded to
    /// `decoded` (`None`: it could not be decoded), where a login would get
    /// the id `fresh_id`, and the time is `now`, written `stamp`.
    ///
    /// A line that could not be decoded is dropped, and so is any line on a
    /// closed connection. Before the login only `Login` counts: it logs the
    /// user in under `fresh_id`. After the login every message goes to the
    /// server under the connection's user id.
    pub open spec fn on_line(
        self,
        server: ServerView,
        decoded: Option<ClientMessageView>,
        fresh_id: Seq<char>,
        now: Timestamp,
        stamp: Seq<char>,
    ) -> Reaction {
        let ignored = Reaction { connection: self, server, events: Seq::empty() };
        match decoded {
            None => ignored,
            Some(message) => match self {
                ConnectionView::Closed => ignored,
                ConnectionView::Unauthenticated => match message {
                    ClientMessageView::Login { username } => {
                        let done = server.login(fresh_id, username);
                        Reaction {
                            connection: ConnectionView::Authenticated { user_id: fresh_id },
                            server: done.state,
                            events: done.events,
                        }
                    },
                    _ => ignored,
                },
                ConnectionView::Authenticated { user_id } => {
                    let done = server.handle(user_id, message, now, stamp);
                    Reaction { connection: self, server: done.state, events: done.events }
                },
            },
        }
    }

    /// What the end of the socket does, be it an end of stream, an error or
    /// a close signal: a logged-in user is disconnected, and the connection
    /// is closed.
    pub open spec fn on_close(self, server: ServerView) -> Reaction {
        match self {
            ConnectionView::Authenticated { user_id } => {
                let done = server.disconnect(user_id);
                Reaction {
                    connection: ConnectionView::Closed,
                    server: done.state,
                    events: done.events,
                }
            },
            _ => Reaction { connection: ConnectionView::Closed, server, events: Seq::empty() },
        }
    }

    /// Whether an envelope is written to this connection's socket: the
    /// connection is logged in, and the envelope names its user, or the room
    /// that its user is in at that moment.
    pub open spec fn accepts(self, server: ServerView, envelope: EnvelopeView) -> bool {
        match self {
            ConnectionView::Authenticated { user_id } => envelope.reaches(
                user_id,
                server.current_room_of(user_id),
            ),
            _ => false,
        }
    }
}

/// The state machine of one connection.
#[derive(Debug)]
pub struct ConnectionHandler {
    state: ConnectionState,
}

impl View for ConnectionHandler {
    type V = ConnectionView;

    closed spec fn view(&self) -> ConnectionView {
        self.state@
    }
}

impl ConnectionHandler {
    /// A connection on which nobody has logged in yet.
    pub fn new() -> (handler: ConnectionHandler)
        ensures
            handler@ == ConnectionView::Unauthenticated,
    {
        ConnectionHandler { state: ConnectionState::Unauthenticated }
    }

    /// Where the connection stands.
    pub fn state(&self) -> (state: &ConnectionState)
        ensures
            state@ == self@,
    {
        &self.state
    }

    /// Whether the connection has been closed.
    pub fn is_closed(&self) -> (closed: bool)
        ensures
            closed == (self@ is Closed),
    {
        match self.state {
            ConnectionState::Closed => true,
            _ => false,
        }
    }

    /// Reacts to a line as [`ConnectionView::on_line`] says, with the id,
    /// the time and its text given by the caller.
    pub fn on_line_at(
        &mut self,
        server: &mut ChatServer,
        decoded: Option<ClientMessage>,
        fresh_id: String,
        now: Timestamp,
        stamp: String,
    ) -> (events: Vec<Envelope>)
        requires
            old(server).wf(),
        ensures
            final(server).wf(),
            final(self)@ == old(self)@.on_line(
                old(server)@,
                decoded.deep_view(),
                fresh_id@,
                now,
                stamp@,
            ).connection,
            final(server)@ == old(self)@.on_line(
                old(server)@,
                decoded.deep_view(),
                fresh_id@,
                now,
                stamp@,
            ).server,
            events.deep_view() == old(self)@.on_line(
                old(server)@,
                decoded.deep_view(),
                fresh_id@,
                now,
                stamp@,
            ).events,
    {
        let message = match decoded {
            Some(message) => message,
            None => {
                let events: Vec<Envelope> = Vec::new();
                assert(events.deep_view() =~= Seq::empty());
                return events;
            },
        };
        match &self.state {
            ConnectionState::Closed => {
                let events: Vec<Envelope> = Vec::new();
                assert(events.deep_view() =~= Seq::empty());
                events
            },
            ConnectionState::Unauthenticated => match message {
                ClientMessage::Login { username } => {
                    let events = server.login_as(fresh_id.clone(), username);
                    self.state = ConnectionState::Authenticated { user_id: fresh_id };
                    events
                },
                _ => {
                    let events: Vec<Envelope> = Vec::new();
                    assert(events.deep_view() =~= Seq::empty());
                    events
                },
            },
            ConnectionState::Authenticated { user_id } => server.handle_message_at(
                user_id.clone(),
                message,
                now,
                stamp,
            ),
        }
    }

    /// Reacts to a line with a random id for a login and at the current
    /// time: what is done is what [`Self::on_line_at`] does with some id,
    /// at some instant and with the text that `chrono` writes for it. An id
    /// is drawn only for a line that logs in.
    pub fn on_line(&mut self, server: &mut ChatServer, decoded: Option<ClientMessage>) -> (events:
        Vec<Envelope>)
        requires
            old(server).wf(),
        ensures
            final(server).wf(),
            exists|fresh_id: Seq<char>, now: Timestamp, stamp: Seq<char>|
                {
                    &&& rfc3339_text(now.secs, now.nanos) == Some(stamp)
                    &&& final(self)@ == (#[trigger] old(self)@.on_line(
                        old(server)@,
                        decoded.deep_view(),
                        fresh_id,
                        now,
                        stamp,
                    )).connection
                    &&& final(server)@ == old(self)@.on_line(
                        old(server)@,
                        decoded.deep_view(),
                        fresh_id,
                        now,
                        stamp,
                    ).server
                    &&& events.deep_view() == old(self)@.on_line(
                        old(server)@,
                        decoded.deep_view(),
                        fresh_id,
                        now,
                        stamp,
                    ).events
                },
    {
        let fresh_id = match (&self.state, &decoded) {
            (ConnectionState::Unauthenticated, Some(ClientMessage::Login { .. })) => new_user_id(),
            _ => String::new(),
        };
        let now = Timestamp::now();
        let stamp = now.to_rfc3339().unwrap();
        self.on_line_at(server, decoded, fresh_id, now, stamp)
    }

    /// Reacts to the end of the socket: disconnects the user, if one is
    /// logged in, and closes the connection.
    pub fn on_close(&mut self, server: &mut ChatServer) -> (events: Vec<Envelope>)
        requires
            old(server).wf(),
        ensures
            final(server).wf(),
            final(self)@ == old(self)@.on_close(old(server)@).connection,
            final(server)@ == old(self)@.on_close(old(server)@).server,
            events.deep_view() == old(self)@.on_close(old(server)@).events,
    {
        let events = match &self.state {
            ConnectionState::Authenticated { user_id } => server.handle_user_disconnect(
                user_id.as_str(),
            ),
            _ => {
                let events: Vec<Envelope> = Vec::new();
                assert(events.deep_view() =~= Seq::empty());
                events
            },
        };
        self.state = ConnectionState::Closed;
        events
    }

    /// Whether `envelope` is to be written to this connection's socket.
    pub fn accepts(&self, server: &ChatServer, envelope: &Envelope) -> (deliver: bool)
        requires
            server.wf(),
        ensures
            deliver == self@.accepts(server@, envelope@),
    {
        match &self.state {
            ConnectionState::Authenticated { user_id } => {
                let named = match &envelope.target_user {
                    Some(target) => *target == *user_id,
                    None => false,
                };
                if named {
                    return true;
                }
                match &envelope.target_room {
                    Some(target) => match server.current_room(user_id.as_str()) {
                        Some(current) => current == *target,
                        None => false,
                    },
                    None => false,
                }
            },
            _ => false,
        }
    }
}

} // verus!
