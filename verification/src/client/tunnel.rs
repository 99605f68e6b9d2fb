//! The client's side of a tunnel: opening it, and what comes through it.

use crate::message::{Incoming, IncomingView, Message, MessageView};
use crate::client::args::Invocation;
use crate::outside::{build_http_client, parse_url_port, url_port, HttpClient, HttpLimits};
use crate::proto::{RegistrationRequest, RegistrationResponse};
use crate::text::text_in;
use vstd::prelude::*;

verus! {

/// The limits of the HTTP client that asks local servers: they have half a minute
/// to answer and five seconds to be reached, and ten idle connections to them are
/// kept.
pub open spec fn local_limits() -> HttpLimits {
    HttpLimits { timeout_secs: 30, connect_timeout_secs: 5, max_idle_per_host: 10 }
}

fn build_local_client() -> (client: Result<HttpClient, reqwest::Error>)
    ensures
        client matches Ok(client) ==> client.limits() == local_limits(),
{
    build_http_client(
        HttpLimits { timeout_secs: 30, connect_timeout_secs: 5, max_idle_per_host: 10 },
    )
}

/// How many messages to the relay may wait to be written.
pub const WRITER_CHANNEL_SIZE: usize = 256;

/// How often the relay is pinged, in seconds.
pub const PING_INTERVAL_SECS: u64 = 20;

/// How long the close message gets to be written, in milliseconds.
pub const CLOSE_DELAY_MILLIS: u64 = 100;

/// Why there is no tunnel.
#[derive(Debug)]
pub enum TunnelError {
    /// The WebSocket failed.
    WebSocket(tokio_tungstenite::tungstenite::Error),
    /// The relay turned the client away.
    Registration(String),
    /// The relay's address is no URL.
    Url(url::ParseError),
    /// The HTTP client for the local server could not be made.
    HttpClient(reqwest::Error),
    /// The registration could not be written down.
    Json(serde_json::Error),
    /// The relay closed the connection before it answered.
    ConnectionClosed,
}

/// One who opens tunnels.
pub struct TunnelClient {
    server_url: String,
    token: Option<String>,
    password: Option<String>,
    http_client: HttpClient,
}

/// What one who opens tunnels knows.
pub struct ClientView {
    pub server_url: Seq<char>,
    pub token: Option<Seq<char>>,
    pub password: Option<Seq<char>>,
}

impl View for TunnelClient {
    type V = ClientView;

    closed spec fn view(&self) -> ClientView {
        ClientView {
            server_url: self.server_url@,
            token: text_in(self.token),
            password: text_in(self.password),
        }
    }
}

/// What is to be done to open a tunnel to a local port: connect there and say
/// this.
#[derive(Debug)]
pub struct Dial {
    pub port: u16,
    pub server_url: String,
    pub registration: RegistrationRequest,
}

impl TunnelClient {
    /// One who opens tunnels through the relay at this address, without a token
    /// or a password yet.
    pub fn new(server_url: &str) -> (client: Result<Self, TunnelError>)
        ensures
            match client {
                Ok(client) => {
                    &&& client@ == (ClientView {
                        server_url: server_url@,
                        token: None,
                        password: None,
                    })
                    &&& client.asks_with().limits() == local_limits()
                },
                Err(error) => error is HttpClient,
            },
    {
        TunnelClient::with_http_client(server_url, build_local_client())
    }

    /// One who opens tunnels through the relay at this address, and asks local
    /// servers with this HTTP client, if there is one.
    pub fn with_http_client(
        server_url: &str,
        http_client: Result<HttpClient, reqwest::Error>,
    ) -> (client: Result<Self, TunnelError>)
        ensures
            match (client, http_client) {
                (Ok(client), Ok(http_client)) => {
                    &&& client@ == (ClientView {
                        server_url: server_url@,
                        token: None,
                        password: None,
                    })
                    &&& client.asks_with() == http_client
                },
                (Err(error), Err(reason)) => error == TunnelError::HttpClient(reason),
                _ => false,
            },
    {
        match http_client {
            Ok(http_client) => Ok(
                TunnelClient {
                    server_url: server_url.to_owned(),
                    token: None,
                    password: None,
                    http_client,
                },
            ),
            Err(error) => Err(TunnelError::HttpClient(error)),
        }
    }

    /// The HTTP client with which local servers are asked.
    pub closed spec fn asks_with(&self) -> HttpClient {
        self.http_client
    }

    /// The HTTP client with which local servers are asked.
    pub fn http_client(&self) -> (http_client: &HttpClient)
        ensures
            *http_client == self.asks_with(),
    {
        &self.http_client
    }

    /// The same with this token.
    #[must_use]
    pub fn with_token(self, token: String) -> (client: Self)
        ensures
            client@ == (ClientView { token: Some(token@), ..self@ }),
            client.asks_with() == self.asks_with(),
    {
        let mut client = self;
        client.token = Some(token);
        client
    }

    /// The same with this password.
    #[must_use]
    pub fn with_password(self, password: String) -> (client: Self)
        ensures
            client@ == (ClientView { password: Some(password@), ..self@ }),
            client.asks_with() == self.asks_with(),
    {
        let mut client = self;
        client.password = Some(password);
        client
    }

    /// What is to be done to open a tunnel under any subdomain.
    pub fn connect(&self, port: u16) -> (dial: Result<Dial, TunnelError>)
        ensures
            match dial {
                Ok(dial) => {
                    &&& url_port(self@.server_url) is Some
                    &&& dials(self@, port, None, dial)
                },
                Err(error) => url_port(self@.server_url) is None && error is Url,
            },
    {
        self.connect_with_subdomain(port, None)
    }

    /// What is to be done to open a tunnel, under this subdomain if one is
    /// wanted.
    pub fn connect_with_subdomain(&self, port: u16, subdomain: Option<String>) -> (dial: Result<
        Dial,
        TunnelError,
    >)
        ensures
            match dial {
                Ok(dial) => {
                    &&& url_port(self@.server_url) is Some
                    &&& dials(self@, port, text_in(subdomain), dial)
                },
                Err(error) => url_port(self@.server_url) is None && error is Url,
            },
    {
        match parse_url_port(self.server_url.as_str()) {
            Ok(_) => Ok(self.dial(port, subdomain)),
            Err(error) => Err(TunnelError::Url(error)),
        }
    }

    /// What is to be done to open a tunnel through a relay whose address is a
    /// URL.
    pub fn dial(&self, port: u16, subdomain: Option<String>) -> (dial: Dial)
        ensures
            dials(self@, port, text_in(subdomain), dial),
    {
        Dial {
            port,
            server_url: self.server_url.as_str().to_owned(),
            registration: RegistrationRequest {
                subdomain,
                token: copied(&self.token),
                password: copied(&self.password),
            },
        }
    }
}

/// Whether this is how to open a tunnel to a local port under a subdomain.
pub open spec fn dials(
    client: ClientView,
    port: u16,
    subdomain: Option<Seq<char>>,
    dial: Dial,
) -> bool {
    &&& dial.port == port
    &&& dial.server_url@ == client.server_url
    &&& text_in(dial.registration.subdomain) == subdomain
    &&& text_in(dial.registration.token) == client.token
    &&& text_in(dial.registration.password) == client.password
}

/// Whether this is how to open the tunnel that an invocation asks for.
pub open spec fn dials_for(invoked: Invocation, dial: Dial) -> bool {
    &&& dial.port == invoked@.port
    &&& dial.server_url@ == invoked@.server_url
    &&& text_in(dial.registration.subdomain) == invoked@.subdomain
    &&& text_in(dial.registration.token) == invoked@.token
    &&& text_in(dial.registration.password) == Some(invoked@.password)
}

/// Makes the one who opens the tunnel that an invocation asks for, and tells what
/// is to be done to open it.
pub fn prepare(invoked: &Invocation) -> (prepared: Result<(TunnelClient, Dial), TunnelError>)
    ensures
        match prepared {
            Ok((client, dial)) => {
                &&& url_port(invoked@.server_url) is Some
                &&& dials_for(*invoked, dial)
                &&& client.asks_with().limits() == local_limits()
            },
            Err(error) => error is HttpClient || (error is Url && url_port(invoked@.server_url)
                is None),
        },
{
    prepare_with(invoked, build_local_client())
}

/// Makes the one who opens the tunnel that an invocation asks for, with this HTTP
/// client if there is one, and tells what is to be done to open it.
pub fn prepare_with(
    invoked: &Invocation,
    http_client: Result<HttpClient, reqwest::Error>,
) -> (prepared: Result<(TunnelClient, Dial), TunnelError>)
    ensures
        match http_client {
            Ok(http_client) => match prepared {
                Ok((client, dial)) => {
                    &&& url_port(invoked@.server_url) is Some
                    &&& dials_for(*invoked, dial)
                    &&& client.asks_with() == http_client
                },
                Err(error) => error is Url && url_port(invoked@.server_url) is None,
            },
            Err(reason) => prepared == Err::<(TunnelClient, Dial), TunnelError>(
                TunnelError::HttpClient(reason),
            ),
        },
{
    let client = match TunnelClient::with_http_client(invoked.server_url.as_str(), http_client) {
        Ok(client) => client,
        Err(error) => {
            return Err(error);
        },
    };
    let client = match &invoked.token {
        Some(token) => client.with_token(token.as_str().to_owned()),
        None => client,
    };
    let client = client.with_password(invoked.password.as_str().to_owned());
    match client.connect_with_subdomain(invoked.port, copied(&invoked.subdomain)) {
        Ok(dial) => Ok((client, dial)),
        Err(error) => Err(error),
    }
}

fn copied(text: &Option<String>) -> (copy: Option<String>)
    ensures
        text_in(copy) == text_in(*text),
{
    match text {
        Some(text) => Some(text.as_str().to_owned()),
        None => None,
    }
}

/// What comes out of waiting for the relay's answer.
#[derive(Debug)]
pub enum FirstMessage {
    /// A message came.
    Message(Message),
    /// Reading failed, for this reason.
    Failed(tokio_tungstenite::tungstenite::Error),
    /// The relay is gone.
    Closed,
}

/// Whether an error is that the relay turned the client away, saying this.
pub open spec fn turned_away(error: TunnelError, reason: Seq<char>) -> bool {
    error matches TunnelError::Registration(said) && said@ == reason
}

/// The text of the relay's answer, which is the first message.
pub fn answer_text(first: FirstMessage) -> (text: Result<String, TunnelError>)
    ensures
        match first {
            FirstMessage::Message(Message::Text(said)) => text matches Ok(text) && text@ == said@,
            FirstMessage::Message(_) => text matches Err(error) && turned_away(
                error,
                "expected text message"@,
            ),
            FirstMessage::Failed(reason) => text == Err::<String, TunnelError>(
                TunnelError::WebSocket(reason),
            ),
            FirstMessage::Closed => text == Err::<String, TunnelError>(
                TunnelError::ConnectionClosed,
            ),
        },
{
    match first {
        FirstMessage::Message(Message::Text(text)) => Ok(text),
        FirstMessage::Message(_) => Err(
            TunnelError::Registration("expected text message".to_owned()),
        ),
        FirstMessage::Failed(reason) => Err(TunnelError::WebSocket(reason)),
        FirstMessage::Closed => Err(TunnelError::ConnectionClosed),
    }
}

/// The public address in the relay's answer, which may not have been readable,
/// for some reason.
pub fn public_address(answer: Result<RegistrationResponse, String>) -> (url: Result<
    String,
    TunnelError,
>)
    ensures
        match answer {
            Ok(response) => if response.ok {
                url matches Ok(url) && url@ == response.url@
            } else {
                url matches Err(error) && turned_away(
                    error,
                    match response.error {
                        Some(reason) => reason@,
                        None => "unknown error"@,
                    },
                )
            },
            Err(reason) => url matches Err(error) && turned_away(error, reason@),
        },
{
    let response = match answer {
        Ok(response) => response,
        Err(reason) => {
            return Err(TunnelError::Registration(reason));
        },
    };
    if !response.ok {
        return Err(
            TunnelError::Registration(
                match response.error {
                    Some(reason) => reason,
                    None => "unknown error".to_owned(),
                },
            ),
        );
    }
    Ok(response.url)
}

/// What is to be done about what comes through the tunnel.
#[derive(Debug)]
pub enum ClientAction {
    /// Nothing.
    Nothing,
    /// Handle a frame.
    Handle(Vec<u8>),
    /// Send a pong.
    Pong(Vec<u8>),
    /// Read no more.
    Stop,
}

/// Whether this is to be done about what comes through the tunnel.
pub open spec fn is_due(action: ClientAction, incoming: IncomingView) -> bool {
    match incoming {
        IncomingView::Message(MessageView::Binary(frame)) => {
            action matches ClientAction::Handle(data) && data@ == frame
        },
        IncomingView::Message(MessageView::Ping(ping)) => {
            action matches ClientAction::Pong(data) && data@ == ping
        },
        IncomingView::Message(MessageView::Close(_)) => action is Stop,
        IncomingView::Message(_) => action is Nothing,
        _ => action is Stop,
    }
}

/// Decides what is to be done about what comes through the tunnel.
pub fn receive(incoming: Incoming) -> (action: ClientAction)
    ensures
        is_due(action, incoming@),
{
    match incoming {
        Incoming::Message(Message::Binary(data)) => ClientAction::Handle(data),
        Incoming::Message(Message::Ping(data)) => ClientAction::Pong(data),
        Incoming::Message(Message::Close(_)) => ClientAction::Stop,
        Incoming::Message(_) => ClientAction::Nothing,
        _ => ClientAction::Stop,
    }
}

/// An open tunnel: its public address, and where to write to it (`W`) as long as
/// it is open.
pub struct TunnelHandle<W> {
    pub url: String,
    write_tx: Option<W>,
}

impl<W> TunnelHandle<W> {
    /// The public address.
    pub closed spec fn address(&self) -> Seq<char> {
        self.url@
    }

    /// Where to write to the tunnel, as long as it is open.
    pub closed spec fn writer(&self) -> Option<W> {
        self.write_tx
    }

    /// A tunnel that is open.
    pub fn new(url: String, write_tx: W) -> (handle: Self)
        ensures
            handle.address() == url@,
            handle.writer() == Some(write_tx),
    {
        TunnelHandle { url, write_tx: Some(write_tx) }
    }

    /// The public address.
    #[must_use]
    pub fn url(&self) -> (url: &str)
        ensures
            url@ == self.address(),
    {
        self.url.as_str()
    }

    /// Closes the tunnel, and tells where the close message is to be written if
    /// it was still open.
    pub fn close(&mut self) -> (last_write: Option<W>)
        ensures
            last_write == old(self).writer(),
            final(self).writer() is None,
            final(self).address() == old(self).address(),
    {
        self.write_tx.take()
    }
}

} // verus!
