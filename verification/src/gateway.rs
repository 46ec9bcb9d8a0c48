//! The gateway connection handler's decisions: protocol version and
//! encoding negotiation, the handshake/identify/stream state machine,
//! and the translation between wire frames and session and channel
//! operations. The transport itself — the socket, the awaits, the task
//! pair pumping each direction — lives outside the verified core and
//! drives it through these functions.

use vstd::prelude::*;

use crate::channel::ChannelId;
use crate::proto::GatewayClientEvent;
use crate::proto::GatewayHandshake;
use crate::proto::GatewayIdentify;
use crate::proto::GatewayServerEvent;
use crate::server::channel::text::TextChannelAction;
use crate::server::channel::text::TextChannelEvent;
use crate::server::channel::text::TextChannelMessage;
use crate::server::client::ClientService;
use crate::server::client::SessionId;
use crate::server::auth::AuthService;
use crate::user::UserId;
use crate::wire;

verus! {

/// Identifies the encoding used by the gateway: compact binary frames,
/// or the equivalent tag-discriminated structured text. A server accepts
/// either on the way in, whatever it sends.
#[derive(PartialEq, Eq, Structural, Clone, Copy, Debug)]
pub enum Encoding {
    /// Binary frames in the compact binary encoding.
    Protobuf,
    /// Text frames in the structured encoding; the default.
    Json,
}

/// Query parameters supported by the gateway endpoint at connection
/// time.
pub struct GatewayQuery {
    /// Requested protocol version; absent means any.
    pub version: Option<String>,
    /// Requested encoding; absent means the structured-text default.
    pub encoding: Option<Encoding>,
}

/// The one protocol version this gateway supports.
pub open spec fn spec_supported_version() -> Seq<char> {
    seq!['v', '0']
}

/// The version string the handshake announces.
pub open spec fn spec_handshake_version() -> Seq<char> {
    seq!['0', '.', '0', '.', '0']
}

/// Why the gateway turned a connection away.
#[derive(PartialEq, Eq, Structural, Clone, Copy, Debug)]
pub enum ConnectionRefused {
    /// The client asked for a protocol version this gateway does not
    /// speak. Rejected before the transport upgrade: no session can have
    /// been created.
    UnsupportedVersion,
    /// The identify token did not authenticate. The connection is
    /// closed; no session was created.
    AuthenticationFailed,
}

/// True when the connection's requested version is one the gateway
/// speaks: absent, or exactly the supported version.
pub open spec fn spec_version_acceptable(version: Option<String>) -> bool {
    match version {
        Some(v) => v@ == spec_supported_version(),
        None => true,
    }
}

/// The encoding a query selects: the requested one, or structured text
/// when the query names none.
pub open spec fn spec_selected_encoding(encoding: Option<Encoding>) -> Encoding {
    match encoding {
        Some(e) => e,
        None => Encoding::Json,
    }
}

/// Negotiates version and encoding for an incoming connection: a
/// connection naming an unsupported version is rejected here, before the
/// upgrade and before anything else happens on its behalf; the encoding
/// defaults to structured text.
pub fn negotiate(query: &GatewayQuery) -> (r: Result<Encoding, ConnectionRefused>)
    ensures
        r is Ok <==> spec_version_acceptable(query.version),
        r matches Ok(e) ==> e == spec_selected_encoding(query.encoding),
        r matches Err(e) ==> e == ConnectionRefused::UnsupportedVersion,
{
    match &query.version {
        Some(v) => {
            let ok = v.as_str().unicode_len() == 2 && v.as_str().get_char(0) == 'v'
                && v.as_str().get_char(1) == '0';
            if !ok {
                assert(v@ != spec_supported_version());
                return Err(ConnectionRefused::UnsupportedVersion);
            }
            assert(v@ =~= spec_supported_version());
        },
        None => {},
    }
    match &query.encoding {
        Some(e) => Ok(*e),
        None => Ok(Encoding::Json),
    }
}

/// The connection states of one gateway connection, in the order they
/// are normally passed through.
pub enum GatewayConnState {
    /// The transport upgrade happened; the handshake has not been put on
    /// the wire yet.
    HandshakePending,
    /// The handshake went out; the gateway reads frames until a valid
    /// identify arrives, skipping malformed ones.
    AwaitingIdentify,
    /// The peer authenticated and is bound to this session; two pumps
    /// move events in both directions.
    Streaming(SessionId),
    /// Terminal: the transport closed, a send failed, or authentication
    /// was refused.
    Closed,
}

/// One gateway connection's negotiated parameters and current state.
pub struct GatewayConn {
    encoding: Encoding,
    state: GatewayConnState,
}

impl GatewayConn {
    /// The connection's negotiated encoding.
    pub closed spec fn spec_encoding(self) -> Encoding {
        self.encoding
    }

    /// The connection's current state.
    pub closed spec fn spec_state(self) -> GatewayConnState {
        self.state
    }

    /// The negotiated encoding, for the transport to dispatch on.
    pub fn encoding(&self) -> (e: Encoding)
        ensures
            e == self.spec_encoding(),
    {
        self.encoding
    }

    /// Accepts an incoming connection: negotiates version and encoding —
    /// turning away an unsupported version before any state exists for
    /// the connection — and yields the connection alongside the
    /// handshake message that must now be sent to the client.
    pub fn connect(query: &GatewayQuery) -> (r: Result<(GatewayConn, GatewayHandshake), ConnectionRefused>)
        ensures
            r is Ok <==> spec_version_acceptable(query.version),
            r matches Ok(c) ==> {
                &&& c.0.spec_encoding() == spec_selected_encoding(query.encoding)
                &&& c.0.spec_state() is HandshakePending
                &&& c.1@.version == spec_handshake_version()
            },
            r matches Err(e) ==> e == ConnectionRefused::UnsupportedVersion,
    {
        let encoding = match negotiate(query) {
            Ok(e) => e,
            Err(e) => {
                return Err(e);
            },
        };
        let conn = GatewayConn { encoding, state: GatewayConnState::HandshakePending };
        proof {
            reveal_strlit("0.0.0");
        }
        let handshake = GatewayHandshake { version: "0.0.0".to_owned() };
        assert(handshake@.version =~= spec_handshake_version());
        Ok((conn, handshake))
    }

    /// The handshake frame for a binary connection: the canonical
    /// encoding of the handshake message. A structured-text connection
    /// gets nothing here; its frame is rendered outside the verified
    /// core.
    pub fn handshake_frame(&self, handshake: &GatewayHandshake) -> (r: Option<Vec<u8>>)
        ensures
            r is Some <==> self.spec_encoding() is Protobuf,
            r matches Some(b) ==> b@ == wire::spec_encode_handshake(handshake@),
    {
        match self.encoding {
            Encoding::Protobuf => Some(wire::encode_handshake(handshake)),
            Encoding::Json => None,
        }
    }

    /// Records that the handshake reached the wire: the gateway now
    /// waits for the client to identify.
    pub fn handshake_sent(&mut self)
        requires
            old(self).spec_state() is HandshakePending,
        ensures
            final(self).spec_state() is AwaitingIdentify,
            final(self).spec_encoding() == old(self).spec_encoding(),
    {
        self.state = GatewayConnState::AwaitingIdentify;
    }

    /// Reads one binary frame while waiting for the client to identify:
    /// exactly the canonical identify encodings decode, each to the
    /// message its bytes encode; any other frame is malformed and
    /// skipped — the connection stays open and keeps waiting.
    pub fn on_identify_frame(&mut self, bytes: &Vec<u8>) -> (r: Option<GatewayIdentify>)
        requires
            old(self).spec_state() is AwaitingIdentify,
        ensures
            final(self).spec_state() is AwaitingIdentify,
            final(self).spec_encoding() == old(self).spec_encoding(),
            r matches Some(m) ==> bytes@ == wire::spec_encode_identify(m@),
            (exists|m: crate::proto::IdentifyModel|
                bytes@ == wire::spec_encode_identify(m) && wire::identify_lengths_in_range(m))
                ==> r is Some,
    {
        wire::decode_identify(bytes)
    }

    /// Checks the identify token with the auth collaborator and, on
    /// success, binds the connection to a freshly created session. On
    /// failure the connection aborts to `Closed` and the session table
    /// is exactly what it was: no session is created for a peer that
    /// did not authenticate. Token issuance is not implemented yet, so
    /// today every peer is turned away here.
    pub fn authenticate(
        &mut self,
        auth: &AuthService,
        clients: &mut ClientService,
        identity: GatewayIdentify,
    ) -> (r: Result<SessionId, ConnectionRefused>)
        requires
            old(self).spec_state() is AwaitingIdentify,
            old(clients).wf(),
            !old(clients).spec_exhausted(),
        ensures
            final(clients).wf(),
            final(self).spec_encoding() == old(self).spec_encoding(),
            r matches Ok(sid) ==> {
                &&& final(self).spec_state() == GatewayConnState::Streaming(sid)
                &&& ClientService::session_created(*old(clients), identity@, sid, *final(clients))
            },
            r is Err ==> {
                &&& final(self).spec_state() is Closed
                &&& *final(clients) == *old(clients)
                &&& r matches Err(e) && e == ConnectionRefused::AuthenticationFailed
            },
    {
        match auth.validate_token(&identity.token) {
            Some(_user) => {
                let sid = clients.create_session(identity);
                self.state = GatewayConnState::Streaming(sid);
                Ok(sid)
            },
            None => {
                self.state = GatewayConnState::Closed;
                Err(ConnectionRefused::AuthenticationFailed)
            },
        }
    }

    /// Records a liveness signal from the client: the bound session's
    /// last-contact time is refreshed and the connection keeps
    /// streaming. A liveness signal is deliberately not a reason to stop
    /// the inbound pump. Returns whether the session still exists.
    pub fn on_ping(&mut self, clients: &mut ClientService) -> (found: bool)
        requires
            old(self).spec_state() is Streaming,
            old(clients).wf(),
        ensures
            final(clients).wf(),
            final(self).spec_state() == old(self).spec_state(),
            final(self).spec_encoding() == old(self).spec_encoding(),
            found == old(clients).spec_sessions().dom().contains(
                old(self).spec_state()->Streaming_0.0,
            ),
            final(clients).spec_sessions().dom() == old(clients).spec_sessions().dom(),
            final(clients).spec_exhausted() == old(clients).spec_exhausted(),
    {
        let sid = match &self.state {
            GatewayConnState::Streaming(sid) => *sid,
            // The requires rules every other state out.
            _ => unreached(),
        };
        clients.session_contacted(sid)
    }

    /// Reads one binary frame while streaming: exactly the canonical
    /// client event encodings decode, each to the event its bytes
    /// encode; a malformed frame is skipped and the connection keeps
    /// streaming.
    pub fn on_client_frame(&mut self, bytes: &Vec<u8>) -> (r: Option<GatewayClientEvent>)
        requires
            old(self).spec_state() is Streaming,
        ensures
            final(self).spec_state() == old(self).spec_state(),
            final(self).spec_encoding() == old(self).spec_encoding(),
            r matches Some(m) ==> bytes@ == wire::spec_encode_client_event(m@),
            (exists|m: crate::proto::ClientEventModel|
                bytes@ == wire::spec_encode_client_event(m) && wire::client_event_lengths_in_range(
                    m,
                )) ==> r is Some,
    {
        wire::decode_client_event(bytes)
    }

    /// The outbound frame for a server event on a binary connection: the
    /// event's canonical encoding. A structured-text connection gets
    /// nothing here; its frame is rendered outside the verified core.
    pub fn outbound_frame(&self, event: &GatewayServerEvent) -> (r: Option<Vec<u8>>)
        ensures
            r is Some <==> self.spec_encoding() is Protobuf,
            r matches Some(b) ==> b@ == wire::spec_encode_server_event(event@),
    {
        match self.encoding {
            Encoding::Protobuf => Some(wire::encode_server_event(event)),
            Encoding::Json => None,
        }
    }

    /// Records that the transport closed or fatally failed, in any
    /// state: the connection is terminal. Nothing else is touched — in
    /// particular, a connection that dies before authenticating never
    /// created a session.
    pub fn transport_closed(&mut self)
        ensures
            final(self).spec_state() is Closed,
            final(self).spec_encoding() == old(self).spec_encoding(),
    {
        self.state = GatewayConnState::Closed;
    }
}

/// The gateway event a channel event becomes on its way to a client: the
/// same message, stamped with the channel it happened on, under the
/// matching wire variant.
pub fn server_event_of(channel: ChannelId, event: TextChannelEvent) -> (r: GatewayServerEvent)
    ensures
        event@ matches crate::server::channel::text::EventModel::NewMessage(m) ==> r@
            == crate::proto::ServerEventModel::MessageCreated(
            (crate::proto::EventMessageModel {
                channel: channel.0,
                author: m.author,
                timestamp_ms: m.timestamp_ms,
                content: m.content,
            }),
        ),
        event@ matches crate::server::channel::text::EventModel::MessageEdited(m) ==> r@
            == crate::proto::ServerEventModel::MessageEdited(
            (crate::proto::EventMessageModel {
                channel: channel.0,
                author: m.author,
                timestamp_ms: m.timestamp_ms,
                content: m.content,
            }),
        ),
{
    match event {
        TextChannelEvent::NewMessage(m) => {
            GatewayServerEvent::MessageCreated(
                crate::proto::EventMessage {
                    channel: channel.0,
                    author: m.author.0,
                    timestamp_ms: m.timestamp_ms,
                    content: m.content,
                },
            )
        },
        TextChannelEvent::MessageEdited(m) => {
            GatewayServerEvent::MessageEdited(
                crate::proto::EventMessage {
                    channel: channel.0,
                    author: m.author.0,
                    timestamp_ms: m.timestamp_ms,
                    content: m.content,
                },
            )
        },
    }
}

/// The channel action a client event asks for, addressed to its channel:
/// a created message carries the event's content, stamped with the
/// authenticated author and the server's receipt time; an edit becomes
/// the edit action, which the channel actor answers with its typed
/// rejection.
pub fn action_of_client_event(event: GatewayClientEvent, author: UserId, now_ms: u64) -> (r: (
    ChannelId,
    TextChannelAction,
))
    ensures
        event@ matches crate::proto::ClientEventModel::CreateMessage { channel, content } ==> {
            &&& r.0.0 == channel
            &&& r.1@ matches crate::server::channel::text::ActionModel::MessageCreated(m)
                && m.author == author.0 && m.timestamp_ms == now_ms && m.content == content
        },
        event@ matches crate::proto::ClientEventModel::EditMessage { channel, .. } ==> {
            &&& r.0.0 == channel
            &&& r.1@ is MessageEdited
        },
{
    match event {
        GatewayClientEvent::CreateMessage { channel, content } => {
            (
                ChannelId(channel),
                TextChannelAction::MessageCreated(
                    TextChannelMessage { author, timestamp_ms: now_ms, content },
                ),
            )
        },
        GatewayClientEvent::EditMessage { channel, timestamp_ms: _, content: _ } => {
            (ChannelId(channel), TextChannelAction::MessageEdited())
        },
    }
}

} // verus!
