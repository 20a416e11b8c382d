//! The tagged unions exchanged over a chat socket. On the wire each variant
//! is a JSON object with a string discriminator; the (de)serialization lives
//! at the unverified edge, which hands these plain values in and out.

use vstd::prelude::*;

use crate::ack::{AckView, WebsocketAck};
use crate::message::{ChatMessage, CreateMessageSchema, CreateMessageView, MessageView};

verus! {

/// A request for a page of older messages in a channel.
pub struct RequestMessagesSchema {
    /// Upper bound on how many messages to return.
    pub message_count: i64,
    /// Identifier of the cursor message; the page holds strictly older ones.
    pub starting_message: String,
    pub channel_id: String,
}

/// Ghost model of a page request.
#[verifier::ext_equal]
pub ghost struct RequestMessagesView {
    pub message_count: int,
    pub starting_message: Seq<char>,
    pub channel_id: Seq<char>,
}

impl View for RequestMessagesSchema {
    type V = RequestMessagesView;

    open spec fn view(&self) -> RequestMessagesView {
        RequestMessagesView {
            message_count: self.message_count as int,
            starting_message: self.starting_message@,
            channel_id: self.channel_id@,
        }
    }
}

/// Everything a client can ask of the chat socket.
pub enum WebSocketRequest {
    CreateMessage(CreateMessageSchema),
    GetChatState(RequestMessagesSchema),
}

/// Ghost model of an inbound request.
#[verifier::ext_equal]
pub ghost enum RequestView {
    CreateMessage(CreateMessageView),
    GetChatState(RequestMessagesView),
}

impl View for WebSocketRequest {
    type V = RequestView;

    open spec fn view(&self) -> RequestView {
        match self {
            WebSocketRequest::CreateMessage(s) => RequestView::CreateMessage(s@),
            WebSocketRequest::GetChatState(s) => RequestView::GetChatState(s@),
        }
    }
}

/// Everything the server can push down a chat socket.
pub enum WebSocketResponse {
    SendChatMessage(ChatMessage),
    SendAck(WebsocketAck),
}

/// Ghost model of an outbound response.
#[verifier::ext_equal]
pub ghost enum ResponseView {
    SendChatMessage(MessageView),
    SendAck(AckView),
}

impl View for WebSocketResponse {
    type V = ResponseView;

    open spec fn view(&self) -> ResponseView {
        match self {
            WebSocketResponse::SendChatMessage(m) => ResponseView::SendChatMessage(m@),
            WebSocketResponse::SendAck(a) => ResponseView::SendAck(a@),
        }
    }
}

} // verus!
