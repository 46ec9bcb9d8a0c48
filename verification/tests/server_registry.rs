//! The server's channel registry and the session registry: label
//! validation, listing, and session lifecycle.

use bonfire::proto::GatewayIdentify;
use bonfire::server::channel::text::search::SearchIndex;
use bonfire::server::channel::text::TextChannelError;
use bonfire::server::client::ClientService;
use bonfire::server::client::ConnectionState;
use bonfire::server::client::Session;
use bonfire::server::client::SessionId;
use bonfire::server::auth::AuthConfig;
use bonfire::server::Config;
use bonfire::server::CreateChannelError;
use bonfire::server::Server;

fn server(name: &str) -> Server {
    let data_dir = format!("/tmp/bonfire_it/{}_{}", name, bonfire::clock::now_unix_millis());
    let config = Config { data_dir, auth: AuthConfig { oauth2_clients: vec![] } };
    Server::new(config).expect("the server should come up")
}

fn identity(agent: &str) -> GatewayIdentify {
    GatewayIdentify {
        token: "SECRET-REDACTED".to_string(),
        client_agent: agent.to_string(),
        capabilities: 0,
    }
}

#[test]
fn empty_label_fails_and_never_appears_in_listing() {
    let mut srv = server("srv_empty_label");
    let index = SearchIndex::open_in_ram().expect("index");
    match srv.create_text_channel(String::new(), index) {
        Err(CreateChannelError::TextChannelError(TextChannelError::LabelRequired)) => {}
        _ => panic!("an empty label must fail with the label-required error"),
    }
    assert_eq!(srv.text_channels().len(), 0, "the failed channel is not registered");
}

#[test]
fn created_channel_appears_in_listing() {
    let mut srv = server("srv_create");
    let index = SearchIndex::open_in_ram().expect("index");
    let (handle, _worker) =
        srv.create_text_channel("general".to_string(), index).expect("channel");
    let listed = srv.text_channels();
    assert_eq!(listed.len(), 1);
    assert_eq!(listed[0].get_label(), "general");
    assert_eq!(listed[0].channel_id(), handle.channel_id());

    let index2 = SearchIndex::open_in_ram().expect("index");
    let (handle2, _worker2) =
        srv.create_text_channel("random".to_string(), index2).expect("channel");
    assert_ne!(handle.channel_id(), handle2.channel_id(), "identifiers are fresh");
    assert_eq!(srv.text_channels().len(), 2);
}

#[test]
fn sessions_for_one_identity_stay_distinct() {
    let mut clients = ClientService::new();
    assert!(!clients.exhausted());
    let a = clients.create_session(identity("agent"));
    let b = clients.create_session(identity("agent"));
    assert_ne!(a, b, "no implicit de-duplication of identities");
    assert!(clients.session(a).is_some());
    assert!(clients.session(b).is_some());
}

#[test]
fn close_session_removes_it() {
    let mut clients = ClientService::new();
    let a = clients.create_session(identity("one"));
    assert!(clients.session(a).is_some());
    clients.close_session(a);
    assert!(clients.session(a).is_none());
    // Closing an unknown identifier changes nothing.
    clients.close_session(a);
    assert!(clients.session(a).is_none());
}

#[test]
fn contacted_refreshes_known_sessions_only() {
    let mut clients = ClientService::new();
    let a = clients.create_session(identity("one"));
    assert!(clients.session_contacted(a));
    assert!(!clients.session_contacted(SessionId(a.0 + 1)));
    assert!(clients.session(a).is_some());
}

#[test]
fn contacted_stores_the_clock_reading() {
    let mut clients = ClientService::new();
    let a = clients.create_session(identity("one"));
    assert_eq!(clients.session(a).expect("live session").last_contact(), 0);
    assert!(clients.session_contacted_at(a, 12345));
    assert_eq!(clients.session(a).expect("live session").last_contact(), 12345);
    assert!(!clients.session_contacted_at(SessionId(a.0 + 1), 99));
}

#[test]
fn session_ids_increase_in_creation_order() {
    let mut clients = ClientService::new();
    let mut last: Option<u64> = None;
    for i in 0..50u64 {
        let id = clients.create_session(identity(&format!("agent {i}")));
        if let Some(prev) = last {
            assert!(id.0 > prev, "session identifiers keep generation order");
        }
        last = Some(id.0);
    }
}

#[test]
fn session_accessors() {
    let s = Session::new(SessionId(9), ConnectionState::Connected, identity("me"));
    assert_eq!(s.session_id(), SessionId(9));
}
