//! A client's side of the relay: registering a tunnel, and what the client
//! sends through it.

use crate::close_codes::{AUTH_FAILED, CAPACITY_FULL};
use crate::message::{CloseFrame, Incoming, IncomingView, Message, MessageView};
use crate::proto::{
    decode_frame, frame_bytes, frame_id, RegistrationRequest, RegistrationResponse,
};
use crate::proto_laws::frame_roundtrip;
use crate::relay::registry::{
    is_made_up, ConnectionView, Registry, RegistryView, TunnelConnection, NAME_COUNT,
};
use crate::text::{empty_text, text_in};
use vstd::prelude::*;
use vstd::slice::slice_to_vec;

verus! {

/// How long a client may take to say what it wants, in seconds.
pub const REGISTRATION_TIMEOUT_SECS: u64 = 10;

/// How many messages to a client may wait to be written.
pub const WRITER_CHANNEL_SIZE: usize = 1024;

/// The text in which a client says what it wants: its first message, if that
/// came and is a text.
pub fn registration_text(first: Incoming) -> (text: Option<String>)
    ensures
        match text {
            Some(text) => first@ == IncomingView::Message(MessageView::Text(text@)),
            None => !(first@ matches IncomingView::Message(MessageView::Text(_))),
        },
{
    match first {
        Incoming::Message(Message::Text(text)) => Some(text),
        _ => None,
    }
}

/// What a client gets that may open a tunnel.
#[derive(Debug)]
pub struct Grant {
    pub subdomain: String,
    pub password: String,
}

/// What is sent to a client that may not: an answer, and then the close frame.
#[derive(Debug)]
pub struct Refusal {
    pub response: RegistrationResponse,
    pub close: CloseFrame,
}

impl Refusal {
    /// Whether the client is turned away for this reason, with this code.
    pub open spec fn says(self, reason: Seq<char>, code: u16) -> bool {
        &&& !self.response.ok
        &&& self.response.url@ == Seq::<char>::empty()
        &&& self.response.subdomain@ == Seq::<char>::empty()
        &&& self.response.error matches Some(error)
        &&& error@ == reason
        &&& self.close@ == (code, reason)
    }
}

/// Makes a refusal.
fn refuse(reason: &str, code: u16) -> (refusal: Refusal)
    ensures
        refusal.says(reason@, code),
{
    Refusal {
        response: RegistrationResponse {
            ok: false,
            url: empty_text(),
            subdomain: empty_text(),
            error: Some(reason.to_owned()),
        },
        close: CloseFrame { code, reason: reason.to_owned() },
    }
}

/// The password in a registration, if it is one.
pub open spec fn password_of(request: RegistrationRequest) -> Option<Seq<char>> {
    match request.password {
        Some(password) => if password@.len() > 0 {
            Some(password@)
        } else {
            None
        },
        None => None,
    }
}

/// Whether a subdomain is the one to give: the one asked for if that is free,
/// otherwise a free one that the relay makes up.
pub open spec fn suits<C>(
    registry: RegistryView<C>,
    asked: Option<String>,
    subdomain: Seq<char>,
) -> bool {
    &&& !registry.tunnels.contains_key(subdomain)
    &&& match asked {
        Some(asked) => subdomain == asked@ || (registry.tunnels.contains_key(asked@) && is_made_up(
            subdomain,
        )),
        None => is_made_up(subdomain),
    }
}

/// The address that visitors use for a tunnel.
pub open spec fn public_url(subdomain: Seq<char>, domain: Seq<char>) -> Seq<char> {
    "https://"@ + subdomain + "."@ + domain
}

/// Decides whether a client may open a tunnel, and under which subdomain.
pub fn decide_registration<C>(
    registry: &Registry<C>,
    request: &RegistrationRequest,
) -> (decision: Result<Grant, Refusal>)
    requires
        registry@.wf(),
        registry@.tunnels.len() < NAME_COUNT,
    ensures
        match decision {
            Ok(grant) => {
                &&& registry@.accepts(text_in(request.token))
                &&& password_of(*request) == Some(grant.password@)
                &&& suits(registry@, request.subdomain, grant.subdomain@)
            },
            Err(refusal) => if !registry@.accepts(text_in(request.token)) {
                refusal.says("authentication failed"@, AUTH_FAILED)
            } else {
                &&& password_of(*request) is None
                &&& refusal.says("tunnel password is required"@, AUTH_FAILED)
            },
        },
{
    let token = match &request.token {
        Some(token) => Some(token.as_str()),
        None => None,
    };
    if !registry.validate_token(token) {
        return Err(refuse("authentication failed", AUTH_FAILED));
    }
    let password = match &request.password {
        Some(password) => password,
        None => {
            return Err(refuse("tunnel password is required", AUTH_FAILED));
        },
    };
    if password.as_str().is_empty() {
        return Err(refuse("tunnel password is required", AUTH_FAILED));
    }
    let subdomain = match &request.subdomain {
        Some(asked) => if registry.is_taken(asked.as_str()) {
            registry.generate_subdomain()
        } else {
            asked.as_str().to_owned()
        },
        None => registry.generate_subdomain(),
    };
    Ok(Grant { subdomain, password: password.as_str().to_owned() })
}

impl Grant {
    /// The connection of the tunnel that is granted: with that password, and under
    /// that subdomain.
    pub fn connection<W, R>(&self, write_tx: W) -> (conn: TunnelConnection<W, R>)
        ensures
            conn@ == (ConnectionView::<R> {
                subdomain: Some(self.subdomain@),
                password: Some(self.password@),
                pending: Map::empty(),
                next_id: 1,
            }),
            conn.writer() == write_tx,
            conn@.wf(),
    {
        TunnelConnection::new(write_tx, Some(self.password.as_str().to_owned())).under(
            self.subdomain.as_str().to_owned(),
        )
    }
}

/// Adds a tunnel and tells the client its address, or turns the client away.
pub fn open_tunnel<C>(registry: &mut Registry<C>, subdomain: &str, conn: C) -> (answer: Result<
    RegistrationResponse,
    Refusal,
>)
    requires
        old(registry)@.wf(),
    ensures
        final(registry)@ == old(registry)@.registered(subdomain@, conn),
        final(registry)@.wf(),
        match answer {
            Ok(response) => {
                &&& old(registry)@.has_room_for(subdomain@)
                &&& response.ok
                &&& response.url@ == public_url(subdomain@, old(registry)@.domain)
                &&& response.subdomain@ == subdomain@
                &&& response.error is None
            },
            Err(refusal) => {
                &&& !old(registry)@.has_room_for(subdomain@)
                &&& refusal.says("relay at capacity"@, CAPACITY_FULL)
            },
        },
{
    if !registry.register(subdomain.to_owned(), conn) {
        return Err(refuse("relay at capacity", CAPACITY_FULL));
    }
    let mut url = "https://".to_owned();
    url.append(subdomain);
    url.append(".");
    url.append(registry.domain());
    Ok(RegistrationResponse { ok: true, url, subdomain: subdomain.to_owned(), error: None })
}

/// How far the service of a tunnel has come.
#[derive(Debug, Clone, Copy, PartialEq, Eq, Structural)]
pub enum Stage {
    /// The client is to be told that the tunnel is open.
    Answering,
    /// The tunnel is open.
    Serving,
    /// The tunnel is closed.
    Over,
}

/// What happens to a tunnel.
#[derive(Debug)]
pub enum SessionEvent {
    /// The client was told that the tunnel is open.
    Answered,
    /// The client could not be told.
    AnswerLost,
    /// Waiting for a message from the client came to this.
    Received(Incoming),
}

/// What happened to a tunnel.
pub enum SessionEventView {
    Answered,
    AnswerLost,
    Received(IncomingView),
}

impl View for SessionEvent {
    type V = SessionEventView;

    open spec fn view(&self) -> SessionEventView {
        match *self {
            SessionEvent::Answered => SessionEventView::Answered,
            SessionEvent::AnswerLost => SessionEventView::AnswerLost,
            SessionEvent::Received(incoming) => SessionEventView::Received(incoming@),
        }
    }
}

/// What is to be done about it.
#[derive(Debug)]
#[verifier::reject_recursive_types(R)]
pub enum SessionAction<R> {
    /// Nothing.
    Nothing,
    /// Hand an answer to the one who waits for it.
    Deliver(R, Vec<u8>),
    /// Note that the client sent a frame, of this length, that is none.
    NoteBadFrame(usize),
    /// Send a pong.
    Pong(Vec<u8>),
    /// Take the tunnel from the registry.
    Withdraw,
    /// Take the tunnel from the registry, and let no request wait for it.
    Disconnect,
}

/// What is to be done about what happened.
#[verifier::reject_recursive_types(R)]
pub enum SessionActionView<R> {
    Nothing,
    Deliver(R, Seq<u8>),
    NoteBadFrame(nat),
    Pong(Seq<u8>),
    Withdraw,
    Disconnect,
}

impl<R> View for SessionAction<R> {
    type V = SessionActionView<R>;

    open spec fn view(&self) -> SessionActionView<R> {
        match *self {
            SessionAction::Nothing => SessionActionView::Nothing,
            SessionAction::Deliver(waiter, data) => SessionActionView::Deliver(waiter, data@),
            SessionAction::NoteBadFrame(length) => SessionActionView::NoteBadFrame(length as nat),
            SessionAction::Pong(data) => SessionActionView::Pong(data@),
            SessionAction::Withdraw => SessionActionView::Withdraw,
            SessionAction::Disconnect => SessionActionView::Disconnect,
        }
    }
}

/// What comes next for a tunnel: how far it gets, which requests wait, and what
/// is to be done. A client that cannot be told that its tunnel is open loses
/// it; one that is served does so until it closes or is gone; and what happens
/// at any other time than expected changes nothing.
pub open spec fn session_step<R>(
    stage: Stage,
    conn: ConnectionView<R>,
    event: SessionEventView,
) -> (Stage, ConnectionView<R>, SessionActionView<R>) {
    match (stage, event) {
        (Stage::Answering, SessionEventView::Answered) => (
            Stage::Serving,
            conn,
            SessionActionView::Nothing,
        ),
        (Stage::Answering, SessionEventView::AnswerLost) => (
            Stage::Over,
            conn,
            SessionActionView::Withdraw,
        ),
        (Stage::Serving, SessionEventView::Received(IncomingView::Message(message))) => {
            match message {
                MessageView::Binary(frame) => if frame.len() < 4 {
                    (stage, conn, SessionActionView::NoteBadFrame(frame.len()))
                } else {
                    match conn.waiter(frame_id(frame)) {
                        Some(waiter) => (
                            stage,
                            conn.without(frame_id(frame)),
                            SessionActionView::Deliver(waiter, frame.skip(4)),
                        ),
                        None => (
                            stage,
                            conn.without(frame_id(frame)),
                            SessionActionView::Nothing,
                        ),
                    }
                },
                MessageView::Ping(data) => (stage, conn, SessionActionView::Pong(data)),
                MessageView::Close(_) => (Stage::Over, conn, SessionActionView::Disconnect),
                _ => (stage, conn, SessionActionView::Nothing),
            }
        },
        (Stage::Serving, SessionEventView::Received(_)) => (
            Stage::Over,
            conn,
            SessionActionView::Disconnect,
        ),
        _ => (stage, conn, SessionActionView::Nothing),
    }
}

/// The service of one tunnel.
#[derive(Debug)]
pub struct Session {
    pub stage: Stage,
}

impl Session {
    /// The service of a tunnel that was just registered.
    pub fn new() -> (session: Self)
        ensures
            session.stage == Stage::Answering,
    {
        Session { stage: Stage::Answering }
    }

    /// Takes note of what happened and tells what is to be done about it.
    pub fn step<W, R>(
        &mut self,
        conn: &mut TunnelConnection<W, R>,
        event: SessionEvent,
    ) -> (action: SessionAction<R>)
        requires
            old(conn)@.wf(),
        ensures
            (final(self).stage, final(conn)@, action@) == session_step(
                old(self).stage,
                old(conn)@,
                event@,
            ),
            final(conn)@.wf(),
            final(conn).writer() == old(conn).writer(),
    {
        match self.stage {
            Stage::Answering => match event {
                SessionEvent::Answered => {
                    self.stage = Stage::Serving;
                    SessionAction::Nothing
                },
                SessionEvent::AnswerLost => {
                    self.stage = Stage::Over;
                    SessionAction::Withdraw
                },
                SessionEvent::Received(_) => SessionAction::Nothing,
            },
            Stage::Serving => match event {
                SessionEvent::Received(Incoming::Message(message)) => self.receive(conn, message),
                SessionEvent::Received(_) => {
                    self.stage = Stage::Over;
                    SessionAction::Disconnect
                },
                _ => SessionAction::Nothing,
            },
            Stage::Over => SessionAction::Nothing,
        }
    }

    /// Takes note of a message from a client that is served.
    fn receive<W, R>(
        &mut self,
        conn: &mut TunnelConnection<W, R>,
        message: Message,
    ) -> (action: SessionAction<R>)
        requires
            old(conn)@.wf(),
            old(self).stage == Stage::Serving,
        ensures
            (final(self).stage, final(conn)@, action@) == session_step(
                Stage::Serving,
                old(conn)@,
                SessionEventView::Received(IncomingView::Message(message@)),
            ),
            final(conn)@.wf(),
            final(conn).writer() == old(conn).writer(),
    {
        match message {
            Message::Binary(data) => {
                match decode_frame(data.as_slice()) {
                    Ok((id, payload)) => match conn.take_waiter(id) {
                        Some(waiter) => SessionAction::Deliver(waiter, slice_to_vec(payload)),
                        None => SessionAction::Nothing,
                    },
                    Err(_) => SessionAction::NoteBadFrame(data.len()),
                }
            },
            Message::Ping(data) => SessionAction::Pong(data),
            Message::Close(_) => {
                self.stage = Stage::Over;
                SessionAction::Disconnect
            },
            _ => SessionAction::Nothing,
        }
    }
}

/// A tunnel that is closed stays closed, and nothing is done for it any more.
pub proof fn over_is_final<R>(conn: ConnectionView<R>, event: SessionEventView)
    ensures
        session_step(Stage::Over, conn, event) == (
            Stage::Over,
            conn,
            SessionActionView::<R>::Nothing,
        ),
{
}

/// A frame with the ID of a request that waits is handed, without the ID, to
/// the one who waits for it, once; the requests with other IDs go on waiting.
pub proof fn frames_find_their_waiters<R>(
    conn: ConnectionView<R>,
    id: u32,
    answer: Seq<u8>,
    other: u32,
)
    requires
        conn.waiter(id) is Some,
    ensures
        ({
            let frame = SessionEventView::Received(
                IncomingView::Message(MessageView::Binary(frame_bytes(id, answer))),
            );
            let (stage, after, action) = session_step(Stage::Serving, conn, frame);
            &&& stage == Stage::Serving
            &&& action == SessionActionView::Deliver(conn.waiter(id)->0, answer)
            &&& other != id ==> after.waiter(other) == conn.waiter(other)
            &&& session_step(Stage::Serving, after, frame).2 == SessionActionView::<R>::Nothing
        }),
{
    frame_roundtrip(id, answer);
}

} // verus!
