//! Broadcast messages and the transport envelope they are delivered in.

use vstd::prelude::*;

verus! {

/// The kind of a broadcast message.
#[derive(Clone, Copy, Debug, PartialEq, Eq, Structural)]
pub enum MessageType {
    Broadcast,
    System,
    ClientMessage,
    StatusUpdate,
}

/// Who originated a message: the server, an identified client, or the hub
/// itself.
#[derive(Clone, Debug, PartialEq)]
pub enum MessageSender {
    Server,
    Client(String),
    System,
}

/// Mathematical image of a sender.
pub ghost enum MessageSenderView {
    Server,
    Client(Seq<char>),
    System,
}

impl View for MessageSender {
    type V = MessageSenderView;

    open spec fn view(&self) -> MessageSenderView {
        match self {
            MessageSender::Server => MessageSenderView::Server,
            MessageSender::Client(id) => MessageSenderView::Client(id@),
            MessageSender::System => MessageSenderView::System,
        }
    }
}

/// One message published to a channel. Immutable once created; persisted to
/// the durable store only when the owning channel's settings ask for it.
#[derive(Debug, Clone, PartialEq)]
pub struct BroadcastMessage {
    pub id: u128,
    pub channel_id: u128,
    pub content: String,
    pub message_type: MessageType,
    pub sender: MessageSender,
    pub timestamp: u64,
}

/// Mathematical image of a message.
pub ghost struct BroadcastMessageView {
    pub id: u128,
    pub channel_id: u128,
    pub content: Seq<char>,
    pub message_type: MessageType,
    pub sender: MessageSenderView,
    pub timestamp: u64,
}

impl View for BroadcastMessage {
    type V = BroadcastMessageView;

    open spec fn view(&self) -> BroadcastMessageView {
        BroadcastMessageView {
            id: self.id,
            channel_id: self.channel_id,
            content: self.content@,
            message_type: self.message_type,
            sender: self.sender@,
            timestamp: self.timestamp,
        }
    }
}

/// The snapshot of a server-published message with the given id and time.
pub open spec fn server_message_view(
    channel_id: u128,
    content: Seq<char>,
    message_type: MessageType,
    id: u128,
    ts: u64,
) -> BroadcastMessageView {
    BroadcastMessageView {
        id,
        channel_id,
        content,
        message_type,
        sender: MessageSenderView::Server,
        timestamp: ts,
    }
}

/// What a publisher hands the broadcast engine.
#[derive(Debug)]
pub struct BroadcastRequest {
    pub content: String,
    pub message_type: Option<MessageType>,
}

/// The transport envelope a delivery carries: a status word, the message
/// text, the owning channel and a timestamp, with an optional structured
/// payload.
#[derive(Debug, Clone, PartialEq)]
pub struct WebSocketResponse {
    pub status: String,
    pub message: String,
    pub channel_id: u128,
    pub timestamp: u64,
    pub data: Option<String>,
}

/// Mathematical image of an envelope.
pub ghost struct WebSocketResponseView {
    pub status: Seq<char>,
    pub message: Seq<char>,
    pub channel_id: u128,
    pub timestamp: u64,
    pub data: Option<Seq<char>>,
}

impl View for WebSocketResponse {
    type V = WebSocketResponseView;

    open spec fn view(&self) -> WebSocketResponseView {
        WebSocketResponseView {
            status: self.status@,
            message: self.message@,
            channel_id: self.channel_id,
            timestamp: self.timestamp,
            data: match self.data {
                Some(d) => Some(d@),
                None => None,
            },
        }
    }
}

} // verus!
