//! The gateway connection state machine: version negotiation, encoding
//! selection, the identify phase, authentication, and the mapping from
//! client events to channel actions.

use bonfire::channel::ChannelId;
use bonfire::gateway::action_of_client_event;
use bonfire::gateway::ConnectionRefused;
use bonfire::gateway::Encoding;
use bonfire::gateway::GatewayConn;
use bonfire::gateway::GatewayQuery;
use bonfire::proto::GatewayClientEvent;
use bonfire::proto::GatewayIdentify;
use bonfire::server::auth::AuthConfig;
use bonfire::server::auth::AuthService;
use bonfire::server::channel::text::TextChannelAction;
use bonfire::server::client::ClientService;
use bonfire::server::auth::OauthClient;
use bonfire::user::UserId;
use bonfire::wire::encode_identify;

fn identity() -> GatewayIdentify {
    GatewayIdentify {
        token: "SECRET-REDACTED".to_string(),
        client_agent: "test".to_string(),
        capabilities: 0,
    }
}

#[test]
fn unsupported_version_is_rejected_before_any_session() {
    let clients = ClientService::new();
    let query = GatewayQuery { version: Some("v9".to_string()), encoding: None };
    match GatewayConn::connect(&query) {
        Err(ConnectionRefused::UnsupportedVersion) => {}
        _ => panic!("an unsupported version must be rejected"),
    }
    // Rejection happened before anything was created on the
    // connection's behalf: the registry still has no session.
    assert!(clients.session(bonfire::server::client::SessionId(0)).is_none());
}

#[test]
fn supported_or_absent_version_is_accepted() {
    let query = GatewayQuery { version: Some("v0".to_string()), encoding: None };
    let (conn, handshake) = GatewayConn::connect(&query).expect("v0 is supported");
    assert_eq!(handshake.version, "0.0.0");
    assert!(conn.handshake_frame(&handshake).is_none(), "text frames are rendered outside");

    let query = GatewayQuery { version: None, encoding: Some(Encoding::Protobuf) };
    let (conn, handshake) = GatewayConn::connect(&query).expect("absent version is accepted");
    let frame = conn.handshake_frame(&handshake).expect("binary connections get bytes");
    assert_eq!(frame[0], 0x0A, "the handshake frame starts with the version field");
}

#[test]
fn malformed_identify_frames_are_skipped() {
    let query = GatewayQuery { version: None, encoding: Some(Encoding::Protobuf) };
    let (mut conn, _handshake) = GatewayConn::connect(&query).expect("connect");
    conn.handshake_sent();
    assert!(conn.on_identify_frame(&vec![1, 2, 3]).is_none(), "malformed: skipped");
    // The connection is still waiting: a later well-formed frame decodes.
    let frame = encode_identify(&identity());
    let decoded = conn.on_identify_frame(&frame).expect("a valid identify decodes");
    assert_eq!(decoded.client_agent, "test");
}

#[test]
fn failed_authentication_creates_no_session() {
    let auth = AuthService::new(AuthConfig { oauth2_clients: vec![] });
    let mut clients = ClientService::new();
    let query = GatewayQuery { version: None, encoding: None };
    let (mut conn, _handshake) = GatewayConn::connect(&query).expect("connect");
    conn.handshake_sent();
    // Token issuance is unimplemented: every token is rejected, the
    // connection closes, and no session comes into being.
    match conn.authenticate(&auth, &mut clients, identity()) {
        Err(ConnectionRefused::AuthenticationFailed) => {}
        _ => panic!("the stub auth service rejects every token"),
    }
    let a = clients.create_session(identity());
    clients.close_session(a);
}

#[test]
fn transport_loss_is_terminal() {
    let query = GatewayQuery { version: None, encoding: None };
    let (mut conn, _handshake) = GatewayConn::connect(&query).expect("connect");
    conn.transport_closed();
}

#[test]
fn client_events_map_to_channel_actions() {
    let (channel, action) = action_of_client_event(
        GatewayClientEvent::CreateMessage { channel: 3, content: "hi".to_string() },
        UserId(42),
        1000,
    );
    assert_eq!(channel, ChannelId(3));
    match action {
        TextChannelAction::MessageCreated(m) => {
            assert_eq!(m.author, UserId(42));
            assert_eq!(m.timestamp_ms, 1000);
            assert_eq!(m.content, "hi");
        }
        _ => panic!("a create event becomes a created-message action"),
    }

    let (channel, action) = action_of_client_event(
        GatewayClientEvent::EditMessage {
            channel: 9,
            timestamp_ms: 5,
            content: "x".to_string(),
        },
        UserId(1),
        2000,
    );
    assert_eq!(channel, ChannelId(9));
    assert!(matches!(action, TextChannelAction::MessageEdited()));
}

#[test]
fn provider_lookup_finds_configured_providers() {
    let auth = AuthService::new(AuthConfig {
        oauth2_clients: vec![OauthClient {
            id: "example".to_string(),
            client_id: "cid".to_string(),
            client_secret: "SECRET-REDACTED".to_string(),
            auth_url: "https://example.invalid/auth".to_string(),
            token_url: "https://example.invalid/token".to_string(),
            scopes: vec!["user:email".to_string()],
        }],
    });
    let hit = auth.find_provider(&"example".to_string()).expect("configured provider");
    assert_eq!(hit.client_id, "cid");
    assert!(auth.find_provider(&"absent".to_string()).is_none());
    assert!(auth.validate_token(&"anything".to_string()).is_none());
}
