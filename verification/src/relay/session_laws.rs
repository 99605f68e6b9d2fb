//! How a tunnel is registered and served, step by step.

use crate::message::{CloseFrame, Incoming, IncomingView, Message, MessageView};
use crate::proto::RegistrationRequest;
use crate::relay::registry::{ConnectionView, RegistryView};
use crate::relay::session::{
    password_of, public_url, session_step, suits, Refusal, SessionAction, SessionActionView,
    SessionEvent, SessionEventView, Stage, REGISTRATION_TIMEOUT_SECS, WRITER_CHANNEL_SIZE,
};
use vstd::prelude::*;

verus! {

/// A client that is turned away is told so, with the reason and without an
/// address, and the connection is closed with the code and the same reason.
pub proof fn refusals_tell_the_reason(refusal: Refusal, reason: Seq<char>, code: u16)
    ensures
        refusal.says(reason, code) <==> {
            &&& !refusal.response.ok
            &&& refusal.response.url@.len() == 0
            &&& refusal.response.subdomain@.len() == 0
            &&& refusal.response.error matches Some(error)
            &&& error@ == reason
            &&& refusal.close.code == code
            &&& refusal.close.reason@ == reason
        },
{
    if refusal.response.url@.len() == 0 {
        assert(refusal.response.url@ =~= Seq::<char>::empty());
    }
    if refusal.response.subdomain@.len() == 0 {
        assert(refusal.response.subdomain@ =~= Seq::<char>::empty());
    }
}

/// A registration has a password if one is in it that is not empty.
pub proof fn empty_passwords_are_none(request: RegistrationRequest)
    ensures
        request.password is None ==> password_of(request) is None,
        request.password matches Some(password) ==> {
            &&& password@.len() == 0 ==> password_of(request) is None
            &&& password@.len() > 0 ==> password_of(request) == Some(password@)
        },
{
}

/// A subdomain that is asked for and free is given; otherwise a free one of eight
/// digits and small letters is.
pub proof fn free_subdomains_are_given<C>(
    registry: RegistryView<C>,
    asked: String,
    subdomain: Seq<char>,
)
    ensures
        !registry.tunnels.contains_key(asked@) ==> suits(registry, Some(asked), asked@),
        !registry.tunnels.contains_key(asked@) && suits(registry, Some(asked), subdomain)
            ==> subdomain == asked@,
        registry.tunnels.contains_key(asked@) ==> (suits(registry, Some(asked), subdomain) <==> {
            &&& !registry.tunnels.contains_key(subdomain)
            &&& subdomain.len() == 8
            &&& forall|i: int|
                0 <= i < subdomain.len() ==> '0' <= #[trigger] subdomain[i] <= '9' || 'a'
                    <= subdomain[i] <= 'z'
        }),
        suits(registry, None, subdomain) <==> {
            &&& !registry.tunnels.contains_key(subdomain)
            &&& subdomain.len() == 8
            &&& forall|i: int|
                0 <= i < subdomain.len() ==> '0' <= #[trigger] subdomain[i] <= '9' || 'a'
                    <= subdomain[i] <= 'z'
        },
{
}

/// A tunnel's address is a secure one, with the subdomain, a dot and the domain.
pub proof fn addresses_are_secure(subdomain: Seq<char>, domain: Seq<char>)
    ensures
        ({
            let url = public_url(subdomain, domain);
            let n = subdomain.len() as int;
            &&& url.len() == 8 + n + 1 + domain.len()
            &&& url.take(8) == "https://"@
            &&& url.subrange(8, 8 + n) == subdomain
            &&& url[8 + n] == '.'
            &&& url.skip(9 + n) == domain
        }),
{
    reveal_strlit("https://");
    reveal_strlit(".");
    let url = public_url(subdomain, domain);
    let n = subdomain.len() as int;
    assert(url.take(8) =~= "https://"@);
    assert(url.subrange(8, 8 + n) =~= subdomain);
    assert(url.skip(9 + n) =~= domain);
}

/// A tunnel is served once the client was told that it is open; if it cannot be
/// told, the tunnel is withdrawn.
pub proof fn tunnels_open_when_the_client_is_told<R>(conn: ConnectionView<R>)
    ensures
        session_step(Stage::Answering, conn, SessionEventView::Answered) == (
            Stage::Serving,
            conn,
            SessionActionView::<R>::Nothing,
        ),
        session_step(Stage::Answering, conn, SessionEventView::AnswerLost) == (
            Stage::Over,
            conn,
            SessionActionView::<R>::Withdraw,
        ),
{
}

/// A client that is served goes on being served until it closes the connection, is
/// gone, or cannot be read: then its tunnel is disconnected. A ping is answered with
/// the same data; text and pongs are passed over; and so is a frame that is too
/// short, though it is noted.
pub proof fn clients_are_served_until_they_leave<R>(
    conn: ConnectionView<R>,
    message: MessageView,
    event: SessionEventView,
)
    ensures
        ({
            let received = SessionEventView::Received(IncomingView::Message(message));
            let (stage, after, action) = session_step(Stage::Serving, conn, received);
            match message {
                MessageView::Ping(data) => stage == Stage::Serving && after == conn && action
                    == SessionActionView::<R>::Pong(data),
                MessageView::Close(_) => stage == Stage::Over && after == conn && action
                    == SessionActionView::<R>::Disconnect,
                MessageView::Text(_) => stage == Stage::Serving && after == conn && action
                    == SessionActionView::<R>::Nothing,
                MessageView::Pong(_) => stage == Stage::Serving && after == conn && action
                    == SessionActionView::<R>::Nothing,
                MessageView::Binary(frame) => stage == Stage::Serving && (frame.len() < 4
                    ==> after == conn && action == SessionActionView::<R>::NoteBadFrame(
                    frame.len(),
                )),
            }
        }),
        session_step(Stage::Serving, conn, SessionEventView::Received(IncomingView::Failed)) == (
            Stage::Over,
            conn,
            SessionActionView::<R>::Disconnect,
        ),
        session_step(Stage::Serving, conn, SessionEventView::Received(IncomingView::Ended)) == (
            Stage::Over,
            conn,
            SessionActionView::<R>::Disconnect,
        ),
        session_step(Stage::Serving, conn, SessionEventView::Answered) == (
            Stage::Serving,
            conn,
            SessionActionView::<R>::Nothing,
        ),
        session_step(Stage::Serving, conn, SessionEventView::AnswerLost) == (
            Stage::Serving,
            conn,
            SessionActionView::<R>::Nothing,
        ),
        event is Received ==> session_step(Stage::Answering, conn, event) == (
            Stage::Answering,
            conn,
            SessionActionView::<R>::Nothing,
        ),
{
}

/// A frame is handed, without its ID, to the one who waits under that ID, and to
/// nobody if nobody does; the one who got it waits no longer, and all others do.
pub proof fn frames_go_to_who_waits_for_them<R>(conn: ConnectionView<R>, frame: Seq<u8>)
    requires
        frame.len() >= 4,
    ensures
        ({
            let id = (frame[0] * 0x100_0000 + frame[1] * 0x1_0000 + frame[2] * 0x100 + frame[3]) as
                u32;
            let received = SessionEventView::Received(
                IncomingView::Message(MessageView::Binary(frame)),
            );
            let (stage, after, action) = session_step(Stage::Serving, conn, received);
            &&& stage == Stage::Serving
            &&& conn.pending.contains_key(id) ==> action == SessionActionView::<R>::Deliver(
                conn.pending[id],
                frame.skip(4),
            )
            &&& !conn.pending.contains_key(id) ==> action == SessionActionView::<R>::Nothing
            &&& after.pending == conn.pending.remove(id)
            &&& after.next_id == conn.next_id
            &&& after.password == conn.password
            &&& after.subdomain == conn.subdomain
        }),
{
}

/// A client has ten seconds to say what it wants, and a thousand and twenty-four
/// messages to it may wait.
pub proof fn clients_have_these_limits()
    ensures
        REGISTRATION_TIMEOUT_SECS == 10,
        WRITER_CHANNEL_SIZE == 1024,
{
}

/// Messages, events and actions say what is in them.
pub proof fn messages_say_what_is_in_them<R>(
    text: String,
    data: Vec<u8>,
    frame: CloseFrame,
    message: Message,
    incoming: Incoming,
    waiter: R,
    length: usize,
)
    ensures
        Message::Text(text)@ == MessageView::Text(text@),
        Message::Binary(data)@ == MessageView::Binary(data@),
        Message::Ping(data)@ == MessageView::Ping(data@),
        Message::Pong(data)@ == MessageView::Pong(data@),
        Message::Close(None)@ == MessageView::Close(None),
        Message::Close(Some(frame))@ == MessageView::Close(Some((frame.code, frame.reason@))),
        Incoming::Message(message)@ == IncomingView::Message(message@),
        Incoming::Failed@ == IncomingView::Failed,
        Incoming::Ended@ == IncomingView::Ended,
        SessionEvent::Answered@ == SessionEventView::Answered,
        SessionEvent::AnswerLost@ == SessionEventView::AnswerLost,
        SessionEvent::Received(incoming)@ == SessionEventView::Received(incoming@),
        SessionAction::<R>::Nothing@ == SessionActionView::<R>::Nothing,
        SessionAction::Deliver(waiter, data)@ == SessionActionView::Deliver(waiter, data@),
        SessionAction::<R>::NoteBadFrame(length)@ == SessionActionView::<R>::NoteBadFrame(
            length as nat,
        ),
        SessionAction::<R>::Pong(data)@ == SessionActionView::<R>::Pong(data@),
        SessionAction::<R>::Withdraw@ == SessionActionView::<R>::Withdraw,
        SessionAction::<R>::Disconnect@ == SessionActionView::<R>::Disconnect,
{
}

} // verus!
