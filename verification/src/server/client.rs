//! Client session management: creates, looks up and retires the session
//! records that bind authenticated connections to live state.

use vstd::prelude::*;

use std::collections::HashMap;

use crate::clock;
use crate::proto::GatewayIdentify;
use crate::proto::IdentifyModel;
use crate::snowflake;
use crate::snowflake::IdGenerator;

verus! {

/// The generator-instance tag for session identifiers: distinct from the
/// channel tag, so the two subsystems' identifier spaces stay disjoint.
pub const SESSION_ID_INSTANCE: u64 = 1;

/// Concrete type for client session identifiers: a packed snowflake value.
#[derive(PartialEq, Eq, Structural, Copy, Clone, Debug, Hash)]
pub struct SessionId(pub u64);

impl SessionId {
    /// Packs a timestamp, instance and sequence into a session identifier.
    pub fn from_parts(timestamp: u64, instance: u64, sequence: u64) -> (id: Self)
        requires
            snowflake::parts_in_range(timestamp, instance, sequence),
        ensures
            id.0 == snowflake::spec_pack(timestamp, instance, sequence),
    {
        SessionId(snowflake::from_parts(timestamp, instance, sequence))
    }

    /// The millisecond-timestamp component of the identifier.
    pub fn timestamp(&self) -> (t: u64)
        ensures
            t == self.0 / snowflake::TIMESTAMP_UNIT,
    {
        snowflake::timestamp_of(self.0)
    }

    /// The generator-instance component of the identifier.
    pub fn instance(&self) -> (i: u64)
        ensures
            i == (self.0 / snowflake::INSTANCE_UNIT) % snowflake::INSTANCE_LIMIT,
    {
        snowflake::instance_of(self.0)
    }

    /// The sequence-number component of the identifier.
    pub fn sequence(&self) -> (s: u64)
        ensures
            s == self.0 % snowflake::SEQUENCE_LIMIT,
    {
        snowflake::sequence_of(self.0)
    }
}

/// Indicates the connection state of the client.
pub enum ConnectionState {
    Connected,
    Disconnected,
}

/// State of a connected client session: owned by the session registry,
/// mutated only by the connection handler driving it.
pub struct Session {
    id: SessionId,
    /// Connection state of the client.
    state: ConnectionState,
    /// The identity transmitted by the client when it connected.
    identity: GatewayIdentify,
    /// When the client last signalled liveness, in seconds.
    last_contact_s: i64,
}

impl Session {
    /// The identifier of this session.
    pub closed spec fn spec_id(self) -> u64 {
        self.id.0
    }

    /// Whether the session is in the connected state.
    pub closed spec fn spec_connected(self) -> bool {
        self.state is Connected
    }

    /// The identity the client supplied at handshake.
    pub closed spec fn spec_identity(self) -> IdentifyModel {
        self.identity@
    }

    /// The last liveness signal, in seconds.
    pub closed spec fn spec_last_contact(self) -> i64 {
        self.last_contact_s
    }

    /// Constructs a new client session.
    pub fn new(id: SessionId, state: ConnectionState, identity: GatewayIdentify) -> (s: Self)
        ensures
            s.spec_id() == id.0,
            s.spec_connected() == (state is Connected),
            s.spec_identity() == identity@,
            s.spec_last_contact() == 0,
    {
        Session { id, state, identity, last_contact_s: 0 }
    }

    /// The last liveness signal the session saw, in seconds.
    pub fn last_contact(&self) -> (t: i64)
        ensures
            t == self.spec_last_contact(),
    {
        self.last_contact_s
    }

    /// Returns the identifier of the session.
    pub fn session_id(&self) -> (id: SessionId)
        ensures
            id.0 == self.spec_id(),
    {
        self.id
    }

    /// Records a liveness signal seen at the given time: the
    /// last-contact time becomes exactly that reading; every other field
    /// is untouched.
    pub fn contacted_at(&mut self, now_s: i64)
        ensures
            final(self).spec_last_contact() == now_s,
            final(self).spec_id() == old(self).spec_id(),
            final(self).spec_connected() == old(self).spec_connected(),
            final(self).spec_identity() == old(self).spec_identity(),
    {
        self.last_contact_s = now_s;
    }

    /// Updates the last-contact time for the session to the current
    /// wall-clock time — whatever the clock reads, that reading is what
    /// is stored; every other field is untouched.
    pub fn contacted(&mut self)
        ensures
            final(self).spec_id() == old(self).spec_id(),
            final(self).spec_connected() == old(self).spec_connected(),
            final(self).spec_identity() == old(self).spec_identity(),
    {
        let now_s = clock::now_unix_seconds();
        self.contacted_at(now_s);
    }
}

/// Service for managing clients: maintains the table of live client
/// sessions. The registry is the single writer of that table.
pub struct ClientService {
    id_generator: IdGenerator,
    /// Active client sessions, keyed by session identifier.
    sessions: HashMap<u64, Session>,
}

impl ClientService {
    /// The live session table.
    pub closed spec fn spec_sessions(self) -> Map<u64, Session> {
        self.sessions@
    }

    /// True when the session identifier space is used up; unreachable
    /// for realistic clock values.
    pub closed spec fn spec_exhausted(self) -> bool {
        self.id_generator.spec_exhausted()
    }

    /// Every session identifier this registry has issued, in generation
    /// order.
    pub closed spec fn spec_issued(self) -> Seq<u64> {
        self.id_generator.issued_ids()
    }

    /// Internal invariant: the generator is sound, every stored session
    /// sits under its own identifier, and every identifier in the table
    /// was issued by this registry's generator (so it is at most the
    /// generator's current mark).
    pub closed spec fn wf(self) -> bool {
        &&& self.id_generator.wf()
        &&& self.id_generator.instance_tag() == SESSION_ID_INSTANCE
        &&& forall|k: u64|
            #[trigger] self.sessions@.dom().contains(k) ==> k as int <= self.id_generator.mark()
        &&& forall|k: u64|
            self.sessions@.dom().contains(k) ==> (#[trigger] self.sessions@[k]).spec_id() == k
    }

    /// Construct a new instance of the client service.
    pub fn new() -> (c: Self)
        ensures
            c.wf(),
            !c.spec_exhausted(),
            c.spec_sessions() == Map::<u64, Session>::empty(),
            c.spec_issued() == Seq::<u64>::empty(),
    {
        ClientService {
            id_generator: IdGenerator::new(SESSION_ID_INSTANCE),
            sessions: HashMap::new(),
        }
    }

    /// True when no further session can be created.
    pub fn exhausted(&self) -> (b: bool)
        ensures
            b == self.spec_exhausted(),
    {
        self.id_generator.exhausted()
    }

    /// The transition one session creation makes: a fresh identifier —
    /// one not in the table before — now mapped to a connected session
    /// carrying the supplied identity; nothing else changed.
    pub open spec fn session_created(
        pre: Self,
        identity: IdentifyModel,
        id: SessionId,
        post: Self,
    ) -> bool {
        &&& !pre.spec_sessions().dom().contains(id.0)
        &&& post.spec_sessions().dom() == pre.spec_sessions().dom().insert(id.0)
        &&& post.spec_sessions()[id.0].spec_id() == id.0
        &&& post.spec_sessions()[id.0].spec_connected()
        &&& post.spec_sessions()[id.0].spec_identity() == identity
        &&& forall|k: u64|
            k != id.0 && pre.spec_sessions().dom().contains(k)
                ==> #[trigger] post.spec_sessions()[k] == pre.spec_sessions()[k]
    }

    /// Creates a new client connection session: allocates a fresh
    /// identifier, stores the session in `Connected` state, and returns
    /// its identifier. There is no de-duplication: every call makes a
    /// new session, whatever the identity.
    pub fn create_session(&mut self, identity: GatewayIdentify) -> (id: SessionId)
        requires
            old(self).wf(),
            !old(self).spec_exhausted(),
        ensures
            final(self).wf(),
            Self::session_created(*old(self), identity@, id, *final(self)),
            final(self).spec_issued() == old(self).spec_issued().push(id.0),
            forall|k: u64|
                #[trigger] old(self).spec_sessions().dom().contains(k) ==> k < id.0,
            forall|i: int|
                0 <= i < old(self).spec_issued().len() ==> #[trigger] old(self).spec_issued()[i]
                    < id.0,
    {
        let now = clock::now_millis_for_ids();
        let raw = self.id_generator.generate(now);
        let id = SessionId(raw);
        let session = Session::new(id, ConnectionState::Connected, identity);
        self.sessions.insert(raw, session);
        assert(final(self).spec_sessions().dom() =~= old(self).spec_sessions().dom().insert(
            raw,
        ));
        id
    }

    /// Closes an open client session: removes it from the table
    /// unconditionally. Closing an unknown identifier changes nothing.
    pub fn close_session(&mut self, id: SessionId)
        requires
            old(self).wf(),
        ensures
            final(self).wf(),
            final(self).spec_sessions() == old(self).spec_sessions().remove(id.0),
            final(self).spec_exhausted() == old(self).spec_exhausted(),
    {
        self.sessions.remove(&id.0);
        assert(final(self).spec_sessions() =~= old(self).spec_sessions().remove(id.0));
    }

    /// Looks up a live session by its identifier.
    pub fn session(&self, id: SessionId) -> (r: Option<&Session>)
        ensures
            match r {
                Some(s) => self.spec_sessions().contains_key(id.0) && *s
                    == self.spec_sessions().index(id.0),
                None => !self.spec_sessions().contains_key(id.0),
            },
    {
        self.sessions.get(&id.0)
    }

    /// Records a liveness signal seen at the given time for the given
    /// session: its last-contact time becomes exactly that reading,
    /// everything else — including every other session — stays as it
    /// was. Returns whether the session exists.
    pub fn session_contacted_at(&mut self, id: SessionId, now_s: i64) -> (found: bool)
        requires
            old(self).wf(),
        ensures
            final(self).wf(),
            found == old(self).spec_sessions().dom().contains(id.0),
            final(self).spec_sessions().dom() == old(self).spec_sessions().dom(),
            final(self).spec_exhausted() == old(self).spec_exhausted(),
            forall|k: u64|
                k != id.0 && old(self).spec_sessions().dom().contains(k)
                    ==> #[trigger] final(self).spec_sessions()[k] == old(self).spec_sessions()[k],
            old(self).spec_sessions().dom().contains(id.0) ==> {
                &&& final(self).spec_sessions().index(id.0).spec_last_contact() == now_s
                &&& final(self).spec_sessions().index(id.0).spec_id() == old(
                    self,
                ).spec_sessions().index(id.0).spec_id()
                &&& final(self).spec_sessions().index(id.0).spec_connected() == old(
                    self,
                ).spec_sessions().index(id.0).spec_connected()
                &&& final(self).spec_sessions().index(id.0).spec_identity() == old(
                    self,
                ).spec_sessions().index(id.0).spec_identity()
            },
    {
        match self.sessions.remove(&id.0) {
            Some(mut s) => {
                s.contacted_at(now_s);
                self.sessions.insert(id.0, s);
                assert(final(self).spec_sessions().dom() =~= old(self).spec_sessions().dom());
                true
            },
            None => {
                assert(final(self).spec_sessions().dom() =~= old(self).spec_sessions().dom());
                false
            },
        }
    }

    /// Records a liveness signal for the given session at the current
    /// wall-clock time: whatever the clock reads, that reading becomes
    /// the session's last-contact time. Returns whether the session
    /// exists.
    pub fn session_contacted(&mut self, id: SessionId) -> (found: bool)
        requires
            old(self).wf(),
        ensures
            final(self).wf(),
            found == old(self).spec_sessions().dom().contains(id.0),
            final(self).spec_sessions().dom() == old(self).spec_sessions().dom(),
            final(self).spec_exhausted() == old(self).spec_exhausted(),
            forall|k: u64|
                k != id.0 && old(self).spec_sessions().dom().contains(k)
                    ==> #[trigger] final(self).spec_sessions()[k] == old(self).spec_sessions()[k],
            old(self).spec_sessions().dom().contains(id.0) ==> {
                &&& final(self).spec_sessions().index(id.0).spec_id() == old(
                    self,
                ).spec_sessions().index(id.0).spec_id()
                &&& final(self).spec_sessions().index(id.0).spec_connected() == old(
                    self,
                ).spec_sessions().index(id.0).spec_connected()
                &&& final(self).spec_sessions().index(id.0).spec_identity() == old(
                    self,
                ).spec_sessions().index(id.0).spec_identity()
            },
    {
        let now_s = clock::now_unix_seconds();
        self.session_contacted_at(id, now_s)
    }
}

/// Law: the session identifiers a registry issues are pairwise distinct
/// and strictly increasing (hence non-decreasing) in generation order,
/// even under callers running concurrently: the registry serializes
/// creations, and each identifier exceeds everything issued before it.
pub proof fn lemma_session_ids_ordered(c: ClientService, i: int, j: int)
    requires
        c.wf(),
        0 <= i < j < c.spec_issued().len(),
    ensures
        c.spec_issued()[i] < c.spec_issued()[j],
        c.spec_issued()[i] != c.spec_issued()[j],
{
    crate::snowflake::lemma_issued_ids_ordered(c.id_generator, i, j);
}

/// Law: two session creations never yield the same identifier, even
/// when both carry the same identity: there is no implicit
/// de-duplication. In the running system the registry serializes
/// concurrent creations, so any two of them stand in this relation.
pub proof fn lemma_session_ids_distinct(
    s0: ClientService,
    ident1: IdentifyModel,
    id1: SessionId,
    s1: ClientService,
    ident2: IdentifyModel,
    id2: SessionId,
    s2: ClientService,
)
    requires
        ClientService::session_created(s0, ident1, id1, s1),
        ClientService::session_created(s1, ident2, id2, s2),
    ensures
        id1 != id2,
{
    assert(s1.spec_sessions().dom().contains(id1.0));
    assert(!s1.spec_sessions().dom().contains(id2.0));
}

} // verus!
