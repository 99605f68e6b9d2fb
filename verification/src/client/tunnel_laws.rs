//! What the client says to the relay.

use crate::client::args::Invocation;
use crate::client::tunnel::{
    dials, dials_for, is_due, local_limits, turned_away, ClientAction, ClientView, Dial,
    TunnelError, CLOSE_DELAY_MILLIS, PING_INTERVAL_SECS, WRITER_CHANNEL_SIZE,
};
use crate::message::{IncomingView, MessageView};
use crate::text::text_in;
use vstd::prelude::*;

verus! {

/// The client connects to the relay that it was made for, for the port and under
/// the subdomain that are asked for, with its token and its password.
pub proof fn clients_say_what_they_were_given(
    client: ClientView,
    port: u16,
    subdomain: Option<Seq<char>>,
    dial: Dial,
)
    ensures
        dials(client, port, subdomain, dial) <==> {
            &&& dial.port == port
            &&& dial.server_url@ == client.server_url
            &&& text_in(dial.registration.subdomain) == subdomain
            &&& text_in(dial.registration.token) == client.token
            &&& text_in(dial.registration.password) == client.password
        },
{
}

/// What the client was invoked with is what it says to the relay.
pub proof fn invocations_are_carried_out(invoked: Invocation, dial: Dial)
    ensures
        dials_for(invoked, dial) <==> {
            &&& dial.port == invoked.port
            &&& dial.server_url@ == invoked.server_url@
            &&& text_in(dial.registration.subdomain) == text_in(invoked.subdomain)
            &&& text_in(dial.registration.token) == text_in(invoked.token)
            &&& dial.registration.password matches Some(password)
            &&& password@ == invoked.password@
        },
{
}

/// A frame is handled as it came, a ping is answered with the same data, text and
/// pongs are passed over, and reading goes on until the relay closes the
/// connection, is gone, or cannot be read.
pub proof fn messages_are_dealt_with(action: ClientAction, message: MessageView)
    ensures
        is_due(action, IncomingView::Failed) <==> action == ClientAction::Stop,
        is_due(action, IncomingView::Ended) <==> action == ClientAction::Stop,
        is_due(action, IncomingView::Message(message)) <==> match message {
            MessageView::Binary(frame) => action is Handle && action->Handle_0@ == frame,
            MessageView::Ping(data) => action is Pong && action->Pong_0@ == data,
            MessageView::Text(_) => action == ClientAction::Nothing,
            MessageView::Pong(_) => action == ClientAction::Nothing,
            MessageView::Close(_) => action == ClientAction::Stop,
        },
{
}

/// A client that is turned away is told why.
pub proof fn reasons_are_told(said: String, reason: Seq<char>)
    ensures
        turned_away(TunnelError::Registration(said), reason) <==> said@ == reason,
        !turned_away(TunnelError::ConnectionClosed, reason),
{
}

/// A local server has half a minute to answer and five seconds to be reached; the
/// relay is pinged every twenty seconds.
pub proof fn clients_keep_these_times()
    ensures
        local_limits().timeout_secs == 30,
        local_limits().connect_timeout_secs == 5,
        local_limits().max_idle_per_host == 10,
        PING_INTERVAL_SECS == 20,
        CLOSE_DELAY_MILLIS == 100,
        WRITER_CHANNEL_SIZE == 256,
{
}

} // verus!
