//! Application server: owns the shared store handle, the auth service,
//! the session registry, and the registry of channels, each driven by
//! its own single-writer actor.

use vstd::prelude::*;

pub mod auth;
pub mod channel;
pub mod client;

use crate::channel::ChannelId;
use crate::clock;
use crate::server::auth::AuthConfig;
use crate::server::auth::AuthService;
use crate::server::channel::text::search::SearchIndex;
use crate::server::channel::text::ChannelWorker;
use crate::server::channel::text::TextChannel;
use crate::server::channel::text::TextChannelError;
use crate::gateway::ConnectionRefused;
use crate::gateway::GatewayConn;
use crate::proto::GatewayIdentify;
use crate::server::client::ClientService;
use crate::server::client::SessionId;
use crate::snowflake::IdGenerator;
use crate::storage;

verus! {

/// The generator-instance tag for channel identifiers: distinct from the
/// session tag, so the two subsystems' identifier spaces stay disjoint.
pub const CHANNEL_ID_INSTANCE: u64 = 0;

/// An event that occurs on a server.
pub enum ServerEvent {
    /// Emitted when a new channel is created.
    ChannelCreated,
}

/// Config for the application server.
pub struct Config {
    /// Root directory for storing server data.
    pub data_dir: String,
    /// Configuration for the auth service.
    pub auth: AuthConfig,
}

/// Indicates that the server itself could not be brought up.
#[derive(Debug)]
pub enum ServerError {
    /// The message database could not be opened.
    DatabaseError(fjall::Error),
}

/// Why creating a channel failed.
#[derive(Debug)]
pub enum CreateChannelError {
    /// The internal channel table was found in an inconsistent state —
    /// the moral equivalent of a poisoned lock around it.
    PoisonedChannelLock,
    /// The channel itself could not be created.
    TextChannelError(TextChannelError),
}

impl From<TextChannelError> for CreateChannelError {
    fn from(value: TextChannelError) -> (r: Self) {
        CreateChannelError::TextChannelError(value)
    }
}

impl vstd::std_specs::convert::FromSpecImpl<TextChannelError> for CreateChannelError {
    open spec fn obeys_from_spec() -> bool {
        true
    }

    open spec fn from_spec(t: TextChannelError) -> Self {
        CreateChannelError::TextChannelError(t)
    }
}

/// Application server.
pub struct Server {
    /// Root directory for storing server data.
    data_dir: String,
    id_generator: IdGenerator,
    /// Database holding the time-ordered channel messages, one keyspace
    /// per channel.
    db: storage::Database,
    /// Service for managing user authentication.
    auth: AuthService,
    /// Service for managing connections to clients.
    clients: ClientService,
    /// The channels available on the server, in creation order.
    text_channels: Vec<TextChannel>,
}

impl Server {
    /// The registered channels, in creation order.
    pub closed spec fn spec_channels(self) -> Seq<TextChannel> {
        self.text_channels@
    }

    /// The session registry.
    pub closed spec fn spec_clients(self) -> ClientService {
        self.clients
    }

    /// The auth service.
    pub closed spec fn spec_auth(self) -> AuthService {
        self.auth
    }

    /// True when the channel identifier space is used up; unreachable
    /// for realistic clock values.
    pub closed spec fn spec_exhausted(self) -> bool {
        self.id_generator.spec_exhausted()
    }

    /// Internal invariant: the generator is sound, the registered
    /// channels carry strictly increasing identifiers, all issued by
    /// this server's generator, and every keyspace name the database has
    /// handed out belongs to an identifier the generator has issued — so
    /// a fresh identifier always names a fresh keyspace.
    pub closed spec fn wf(self) -> bool {
        &&& self.id_generator.wf()
        &&& self.id_generator.instance_tag() == CHANNEL_ID_INSTANCE
        &&& self.clients.wf()
        &&& forall|i: int|
            0 <= i < self.text_channels@.len()
                ==> (#[trigger] self.text_channels@[i]).spec_id() as int
                <= self.id_generator.mark()
        &&& forall|i: int, j: int|
            0 <= i < j < self.text_channels@.len() ==> (#[trigger] self.text_channels@[i]).spec_id()
                < (#[trigger] self.text_channels@[j]).spec_id()
        &&& forall|id: u64|
            #[trigger] self.db.spec_opened().contains(crate::decimal::spec_decimal(id as nat))
                ==> id as int <= self.id_generator.mark()
    }

    /// Construct a new instance of the application server: opens (or
    /// creates) the message database under the configured data directory
    /// and starts with no channels and no sessions.
    pub fn new(config: Config) -> (r: Result<Self, ServerError>)
        ensures
            r matches Ok(s) ==> {
                &&& s.wf()
                &&& !s.spec_exhausted()
                &&& s.spec_channels() == Seq::<TextChannel>::empty()
                &&& s.spec_clients().spec_sessions() == Map::<u64, client::Session>::empty()
                &&& s.spec_auth().spec_providers() == config.auth.oauth2_clients@
            },
    {
        let Config { data_dir, auth: auth_config } = config;
        let mut database_dir = data_dir.clone();
        database_dir.append("/data");
        let db = match storage::Database::open(database_dir.as_str()) {
            Ok(db) => db,
            Err(e) => {
                return Err(ServerError::DatabaseError(e));
            },
        };
        let auth = AuthService::new(auth_config);
        let clients = ClientService::new();
        Ok(
            Server {
                data_dir,
                id_generator: IdGenerator::new(CHANNEL_ID_INSTANCE),
                db,
                auth,
                clients,
                text_channels: Vec::new(),
            },
        )
    }

    /// Returns the auth service.
    pub fn auth(&self) -> (r: &AuthService)
        ensures
            *r == self.spec_auth(),
    {
        &self.auth
    }

    /// Returns the session registry that backs the gateway.
    pub fn gateway(&mut self) -> (r: &mut ClientService)
        requires
            old(self).wf(),
        ensures
            *r == old(self).spec_clients(),
            final(self).wf() <== final(r).wf(),
            final(self).spec_clients() == *final(r),
            final(self).spec_channels() == old(self).spec_channels(),
            final(self).spec_exhausted() == old(self).spec_exhausted(),
    {
        &mut self.clients
    }

    /// Binds an incoming connection to this server: checks the identify
    /// token against the server's own auth service and, on success,
    /// creates the session in the server's own registry. On failure the
    /// connection closes and the session table is exactly what it was.
    pub fn authenticate_gateway(
        &mut self,
        conn: &mut GatewayConn,
        identity: GatewayIdentify,
    ) -> (r: Result<SessionId, ConnectionRefused>)
        requires
            old(self).wf(),
            old(conn).spec_state() is AwaitingIdentify,
            !old(self).spec_clients().spec_exhausted(),
        ensures
            final(self).wf(),
            final(self).spec_channels() == old(self).spec_channels(),
            final(self).spec_exhausted() == old(self).spec_exhausted(),
            final(conn).spec_encoding() == old(conn).spec_encoding(),
            r matches Ok(sid) ==> {
                &&& final(conn).spec_state() == crate::gateway::GatewayConnState::Streaming(sid)
                &&& ClientService::session_created(
                    old(self).spec_clients(),
                    identity@,
                    sid,
                    final(self).spec_clients(),
                )
            },
            r is Err ==> {
                &&& final(conn).spec_state() is Closed
                &&& final(self).spec_clients() == old(self).spec_clients()
                &&& r matches Err(e) && e == ConnectionRefused::AuthenticationFailed
            },
    {
        conn.authenticate(&self.auth, &mut self.clients, identity)
    }

    /// True when no further channel can be created.
    pub fn exhausted(&self) -> (b: bool)
        ensures
            b == self.spec_exhausted(),
    {
        self.id_generator.exhausted()
    }

    /// Create a new text channel on the server, bound to the supplied
    /// search index. Fails with the label-required error exactly when
    /// the label is empty; on any failure nothing is registered, so the
    /// failed channel never appears in a listing. On success the new
    /// channel — under a fresh identifier no existing channel carries —
    /// stands registered, and its actor's write state is handed back to
    /// be driven.
    pub fn create_text_channel(&mut self, label: String, index: SearchIndex) -> (r: Result<
        (TextChannel, ChannelWorker),
        CreateChannelError,
    >)
        requires
            old(self).wf(),
            !old(self).spec_exhausted(),
        ensures
            final(self).wf(),
            label@.len() == 0 <==> (r matches Err(
                CreateChannelError::TextChannelError(TextChannelError::LabelRequired),
            )),
            r is Err ==> final(self).spec_channels() == old(self).spec_channels(),
            final(self).spec_clients() == old(self).spec_clients(),
            r matches Ok(c) ==> {
                &&& c.0.spec_label() == label@
                &&& final(self).spec_channels().len() == old(self).spec_channels().len() + 1
                &&& final(self).spec_channels().last().spec_id() == c.0.spec_id()
                &&& final(self).spec_channels().last().spec_label() == label@
                &&& forall|i: int|
                    0 <= i < old(self).spec_channels().len()
                        ==> #[trigger] final(self).spec_channels()[i] == old(self).spec_channels()[i]
                &&& forall|i: int|
                    0 <= i < old(self).spec_channels().len()
                        ==> (#[trigger] old(self).spec_channels()[i]).spec_id() != c.0.spec_id()
            },
    {
        let now = clock::now_millis_for_ids();
        let id = ChannelId(self.id_generator.generate(now));
        proof {
            // The fresh identifier exceeds everything issued before, so
            // its decimal name cannot be among the opened keyspaces.
            if self.db.spec_opened().contains(crate::decimal::spec_decimal(id.0 as nat)) {
                assert(false);
            }
        }
        let result = TextChannel::new(id, &mut self.db, index, label);
        proof {
            assert forall|id2: u64|
                #[trigger] self.db.spec_opened().contains(
                    crate::decimal::spec_decimal(id2 as nat),
                ) implies id2 as int <= self.id_generator.mark() by {
                if !old(self).db.spec_opened().contains(
                    crate::decimal::spec_decimal(id2 as nat),
                ) {
                    crate::decimal::lemma_decimal_injective(id2 as nat, id.0 as nat);
                }
            }
        }
        match result {
            Ok((handle, worker)) => {
                let registered = handle.clone_handle();
                self.text_channels.push(registered);
                Ok((handle, worker))
            },
            Err(e) => Err(CreateChannelError::TextChannelError(e)),
        }
    }

    /// Returns the list of all channels registered on the server, in
    /// creation order.
    pub fn text_channels(&self) -> (r: &Vec<TextChannel>)
        ensures
            r@ == self.spec_channels(),
    {
        &self.text_channels
    }
}

} // verus!
