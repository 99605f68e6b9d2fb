//! The messages on a tunnel's WebSocket.

use vstd::prelude::*;

verus! {

/// Why a WebSocket is closed.
#[derive(Debug)]
pub struct CloseFrame {
    pub code: u16,
    pub reason: String,
}

/// A WebSocket message.
#[derive(Debug)]
pub enum Message {
    Text(String),
    Binary(Vec<u8>),
    Ping(Vec<u8>),
    Pong(Vec<u8>),
    Close(Option<CloseFrame>),
}

/// What a WebSocket message holds.
pub enum MessageView {
    Text(Seq<char>),
    Binary(Seq<u8>),
    Ping(Seq<u8>),
    Pong(Seq<u8>),
    Close(Option<(u16, Seq<char>)>),
}

impl View for CloseFrame {
    type V = (u16, Seq<char>);

    open spec fn view(&self) -> (u16, Seq<char>) {
        (self.code, self.reason@)
    }
}

impl View for Message {
    type V = MessageView;

    open spec fn view(&self) -> MessageView {
        match *self {
            Message::Text(text) => MessageView::Text(text@),
            Message::Binary(data) => MessageView::Binary(data@),
            Message::Ping(data) => MessageView::Ping(data@),
            Message::Pong(data) => MessageView::Pong(data@),
            Message::Close(Some(frame)) => MessageView::Close(Some(frame@)),
            Message::Close(None) => MessageView::Close(None),
        }
    }
}

/// What comes out of waiting for a message.
#[derive(Debug)]
pub enum Incoming {
    /// A message came.
    Message(Message),
    /// Reading failed.
    Failed,
    /// The other side is gone.
    Ended,
}

/// What came out of waiting for a message.
pub enum IncomingView {
    Message(MessageView),
    Failed,
    Ended,
}

impl View for Incoming {
    type V = IncomingView;

    open spec fn view(&self) -> IncomingView {
        match *self {
            Incoming::Message(message) => IncomingView::Message(message@),
            Incoming::Failed => IncomingView::Failed,
            Incoming::Ended => IncomingView::Ended,
        }
    }
}

} // verus!
