//! The gateway protocol schema: the messages exchanged between a client
//! and the gateway, independent of the wire encoding they travel in.
//! Binary frames carry the compact binary encoding of these messages
//! (see `wire`); text frames carry the equivalent tag-discriminated
//! structured encoding, handled outside the verified core.

use vstd::prelude::*;

verus! {

/// Sent by the server immediately after the transport upgrade: announces
/// the protocol version the server speaks.
pub struct GatewayHandshake {
    pub version: String,
}

/// The mathematical shape of a handshake message.
pub struct HandshakeModel {
    pub version: Seq<char>,
}

impl View for GatewayHandshake {
    type V = HandshakeModel;

    open spec fn view(&self) -> HandshakeModel {
        HandshakeModel { version: self.version@ }
    }
}

/// The first required client message: proves the client's identity and
/// names its capabilities.
pub struct GatewayIdentify {
    /// Authentication token to be checked by the auth collaborator.
    pub token: String,
    /// Client agent string, for logging and identification.
    pub client_agent: String,
    /// Capability flags the client announces.
    pub capabilities: u64,
}

/// The mathematical shape of an identify message.
pub struct IdentifyModel {
    pub token: Seq<char>,
    pub client_agent: Seq<char>,
    pub capabilities: u64,
}

impl View for GatewayIdentify {
    type V = IdentifyModel;

    open spec fn view(&self) -> IdentifyModel {
        IdentifyModel {
            token: self.token@,
            client_agent: self.client_agent@,
            capabilities: self.capabilities,
        }
    }
}

/// One channel message as carried by gateway events.
pub struct EventMessage {
    /// The channel the message belongs to.
    pub channel: u64,
    /// The author of the message.
    pub author: u64,
    /// Timestamp in milliseconds.
    pub timestamp_ms: u64,
    /// Text body of the message.
    pub content: String,
}

/// The mathematical shape of an event message.
pub struct EventMessageModel {
    pub channel: u64,
    pub author: u64,
    pub timestamp_ms: u64,
    pub content: Seq<char>,
}

impl View for EventMessage {
    type V = EventMessageModel;

    open spec fn view(&self) -> EventMessageModel {
        EventMessageModel {
            channel: self.channel,
            author: self.author,
            timestamp_ms: self.timestamp_ms,
            content: self.content@,
        }
    }
}

/// A server-originated occurrence, pushed to the client over the
/// gateway: discriminated by an explicit tag on the wire.
pub enum GatewayServerEvent {
    /// A new message was created on a channel.
    MessageCreated(EventMessage),
    /// An existing channel message was edited.
    MessageEdited(EventMessage),
}

/// The mathematical shape of a server event.
pub enum ServerEventModel {
    MessageCreated(EventMessageModel),
    MessageEdited(EventMessageModel),
}

impl View for GatewayServerEvent {
    type V = ServerEventModel;

    open spec fn view(&self) -> ServerEventModel {
        match self {
            GatewayServerEvent::MessageCreated(m) => ServerEventModel::MessageCreated(m@),
            GatewayServerEvent::MessageEdited(m) => ServerEventModel::MessageEdited(m@),
        }
    }
}

/// A client-originated action, sent to the gateway over the wire:
/// discriminated by an explicit tag.
pub enum GatewayClientEvent {
    /// Create a new message on a channel.
    CreateMessage { channel: u64, content: String },
    /// Edit an existing message on a channel.
    EditMessage { channel: u64, timestamp_ms: u64, content: String },
}

/// The mathematical shape of a client event.
pub enum ClientEventModel {
    CreateMessage { channel: u64, content: Seq<char> },
    EditMessage { channel: u64, timestamp_ms: u64, content: Seq<char> },
}

impl View for GatewayClientEvent {
    type V = ClientEventModel;

    open spec fn view(&self) -> ClientEventModel {
        match self {
            GatewayClientEvent::CreateMessage { channel, content } => {
                ClientEventModel::CreateMessage { channel: *channel, content: content@ }
            },
            GatewayClientEvent::EditMessage { channel, timestamp_ms, content } => {
                ClientEventModel::EditMessage {
                    channel: *channel,
                    timestamp_ms: *timestamp_ms,
                    content: content@,
                }
            },
        }
    }
}

} // verus!
