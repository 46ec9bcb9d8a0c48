//! Provides text channel functionality: the per-channel actor that is
//! the single writer for its channel. It consumes actions one at a time,
//! in submission order, persists each created message to the channel's
//! ordered keyspace under a big-endian timestamp key, indexes it for
//! search, and republishes the resulting event to subscribers.

use vstd::prelude::*;

use crate::channel::ChannelId;
use crate::decimal;
use crate::server::channel::ChannelType;
use crate::storage;
use crate::user::UserId;

pub mod events;
pub mod search;

use events::ActionPoll;
use events::ActionReceiver;
use events::ActionSendError;
use events::ActionSender;
use events::EventPublisher;
use events::EventSubscriber;
use search::DocModel;
use search::SearchIndex;

verus! {

/// Capacity of a channel's bounded action queue: a slow actor stalls
/// producers instead of growing memory without bound.
pub const ACTION_QUEUE_CAPACITY: usize = 25;

/// Capacity of a channel's event stream buffer per subscriber.
pub const EVENT_BUFFER_CAPACITY: usize = 25;

/// A text message received on a channel. Immutable once constructed; the
/// unit persisted to the store and indexed for search.
#[derive(Clone, Debug)]
pub struct TextChannelMessage {
    /// The author of the message.
    pub author: UserId,
    /// Timestamp in milliseconds.
    pub timestamp_ms: u64,
    /// Text body of the message.
    pub content: String,
}

/// The mathematical shape of one channel message.
pub struct MsgModel {
    pub author: u64,
    pub timestamp_ms: u64,
    pub content: Seq<char>,
}

impl View for TextChannelMessage {
    type V = MsgModel;

    open spec fn view(&self) -> MsgModel {
        MsgModel {
            author: self.author.0,
            timestamp_ms: self.timestamp_ms,
            content: self.content@,
        }
    }
}

/// These are sent to a channel to tell it to do something. Actions are
/// the sole input to a channel actor, consumed strictly in submission
/// order.
#[derive(Debug)]
pub enum TextChannelAction {
    /// A new message should be created, persisted, indexed and
    /// distributed to connected clients.
    MessageCreated(TextChannelMessage),
    /// An existing message should be edited. The channel actor rejects
    /// this action as unsupported rather than guessing its semantics.
    MessageEdited(),
}

/// The mathematical shape of one channel action.
pub enum ActionModel {
    MessageCreated(MsgModel),
    MessageEdited,
}

impl View for TextChannelAction {
    type V = ActionModel;

    open spec fn view(&self) -> ActionModel {
        match self {
            TextChannelAction::MessageCreated(m) => ActionModel::MessageCreated(m@),
            TextChannelAction::MessageEdited() => ActionModel::MessageEdited,
        }
    }
}

/// Events emitted by a channel to inform clients of a change. Produced
/// only by the channel's actor, never constructed elsewhere.
#[derive(Clone, Debug)]
pub enum TextChannelEvent {
    NewMessage(TextChannelMessage),
    MessageEdited(TextChannelMessage),
}

/// The mathematical shape of one channel event.
pub enum EventModel {
    NewMessage(MsgModel),
    MessageEdited(MsgModel),
}

impl View for TextChannelEvent {
    type V = EventModel;

    open spec fn view(&self) -> EventModel {
        match self {
            TextChannelEvent::NewMessage(m) => EventModel::NewMessage(m@),
            TextChannelEvent::MessageEdited(m) => EventModel::MessageEdited(m@),
        }
    }
}

/// Indicates there was an error creating or loading a channel. A
/// missing index directory surfaces as the directory-open error: the
/// directory's creation is filesystem work done outside the library,
/// and its own failures stay there.
#[derive(Debug)]
pub enum TextChannelError {
    /// A blank label was supplied.
    LabelRequired,
    /// The channel keyspace for the time-ordered message data could not
    /// be created or opened.
    KeyspaceError(fjall::Error),
    /// The directory for the search index could not be opened.
    SearchIndexDirectoryError(tantivy::directory::error::OpenDirectoryError),
    /// The full-text search index could not be created or opened.
    SearchError(tantivy::TantivyError),
}

impl From<search::SearchOpenError> for TextChannelError {
    /// Carries a failed index open into the channel-level error.
    fn from(value: search::SearchOpenError) -> (r: Self) {
        match value {
            search::SearchOpenError::Directory(e) => {
                TextChannelError::SearchIndexDirectoryError(e)
            },
            search::SearchOpenError::Index(e) => TextChannelError::SearchError(e),
        }
    }
}

impl vstd::std_specs::convert::FromSpecImpl<search::SearchOpenError> for TextChannelError {
    open spec fn obeys_from_spec() -> bool {
        true
    }

    open spec fn from_spec(e: search::SearchOpenError) -> Self {
        match e {
            search::SearchOpenError::Directory(e) => {
                TextChannelError::SearchIndexDirectoryError(e)
            },
            search::SearchOpenError::Index(e) => TextChannelError::SearchError(e),
        }
    }
}

/// The big-endian byte representation of a message timestamp: the store
/// key. Lexicographic key order equals chronological order.
pub open spec fn spec_be_bytes(ts: u64) -> Seq<u8> {
    seq![
        (ts / 0x100_0000_0000_0000 % 0x100) as u8,
        (ts / 0x1_0000_0000_0000 % 0x100) as u8,
        (ts / 0x100_0000_0000 % 0x100) as u8,
        (ts / 0x1_0000_0000 % 0x100) as u8,
        (ts / 0x100_0000 % 0x100) as u8,
        (ts / 0x1_0000 % 0x100) as u8,
        (ts / 0x100 % 0x100) as u8,
        (ts % 0x100) as u8,
    ]
}

/// Builds the store key for a message timestamp: its eight bytes, most
/// significant first.
pub fn timestamp_key(ts: u64) -> (k: Vec<u8>)
    ensures
        k@ == spec_be_bytes(ts),
{
    let mut k: Vec<u8> = Vec::new();
    k.push((ts / 0x100_0000_0000_0000 % 0x100) as u8);
    k.push((ts / 0x1_0000_0000_0000 % 0x100) as u8);
    k.push((ts / 0x100_0000_0000 % 0x100) as u8);
    k.push((ts / 0x1_0000_0000 % 0x100) as u8);
    k.push((ts / 0x100_0000 % 0x100) as u8);
    k.push((ts / 0x1_0000 % 0x100) as u8);
    k.push((ts / 0x100 % 0x100) as u8);
    k.push((ts % 0x100) as u8);
    assert(k@ =~= spec_be_bytes(ts));
    k
}

/// The abstract write state a channel actor owns: the channel's store
/// entries, its indexed documents, and the events it has published.
pub struct WorkerModel {
    pub store: Map<Seq<u8>, Seq<u8>>,
    pub docs: Seq<DocModel>,
    pub events: Seq<EventModel>,
}

/// The effect of one created message on the actor's state: the message
/// body stored under its big-endian timestamp key, one document indexed,
/// and one `NewMessage` event published — in that order.
pub open spec fn apply_created(m: WorkerModel, msg: MsgModel) -> WorkerModel {
    WorkerModel {
        store: m.store.insert(spec_be_bytes(msg.timestamp_ms), vstd::utf8::encode_utf8(msg.content)),
        docs: m.docs.push(
            (DocModel { timestamp_ms: msg.timestamp_ms, content: msg.content, author: msg.author }),
        ),
        events: m.events.push(EventModel::NewMessage(msg)),
    }
}

/// How one processed created-message action relates the actor's state
/// before and after, given which of its effects succeeded: the event is
/// always published; the store and the index each advance exactly when
/// their write went through.
pub open spec fn created_step(
    pre: WorkerModel,
    post: WorkerModel,
    rep: ActionReport,
    msg: MsgModel,
) -> bool {
    &&& post.events == pre.events.push(EventModel::NewMessage(msg))
    &&& rep.stored ==> post.store == pre.store.insert(
        spec_be_bytes(msg.timestamp_ms),
        vstd::utf8::encode_utf8(msg.content),
    )
    &&& !rep.stored ==> post.store == pre.store
    &&& rep.indexed ==> post.docs == pre.docs.push(
        (DocModel { timestamp_ms: msg.timestamp_ms, content: msg.content, author: msg.author }),
    )
    &&& !rep.indexed ==> post.docs == pre.docs
    &&& rep.stored && rep.indexed ==> post == apply_created(pre, msg)
}

/// Report of one processed action: which of its effects succeeded. A
/// failed store or index write is recorded here and the action is
/// otherwise dropped — the actor keeps running.
#[derive(PartialEq, Eq, Structural, Copy, Clone, Debug)]
pub struct ActionReport {
    /// The message reached the channel's keyspace.
    pub stored: bool,
    /// The message document reached the search index writer.
    pub indexed: bool,
}

/// Why the actor rejected an action outright.
#[derive(PartialEq, Eq, Structural, Copy, Clone, Debug)]
pub enum ActionError {
    /// Message edits have no defined semantics; the actor rejects them
    /// rather than guessing.
    EditUnsupported,
}

/// The outcome of one actor step.
#[derive(Copy, Clone, Debug)]
pub enum WorkerStep {
    /// One action was taken from the queue and processed (or rejected).
    Processed(Result<ActionReport, ActionError>),
    /// The queue is momentarily empty; more actions may still arrive.
    Idle,
    /// Every sender is gone and the queue is drained: the actor is done.
    Stopped,
}

/// The channel actor's exclusively owned write state: its keyspace, its
/// index writer, its event stream, and the queue it consumes.
pub struct ChannelWorker {
    keyspace: storage::Keyspace,
    index: SearchIndex,
    events: EventPublisher,
    actions: ActionReceiver,
}

impl ChannelWorker {
    /// The actor's abstract state: store entries, indexed documents,
    /// published events.
    pub closed spec fn model(self) -> WorkerModel {
        WorkerModel {
            store: storage::keyspace_entries(self.keyspace),
            docs: search::index_docs(self.index),
            events: events::published(self.events),
        }
    }

    /// Processes one action, in arrival order. A created message is
    /// stored, indexed and republished; a failure at the store or index
    /// layer is reported and the action dropped, but the event is still
    /// published and the actor keeps running. An edit is rejected
    /// unchanged.
    pub fn process_action(&mut self, action: TextChannelAction) -> (r: Result<
        ActionReport,
        ActionError,
    >)
        ensures
            action@ matches ActionModel::MessageCreated(msg) ==> {
                &&& r is Ok
                &&& (r matches Ok(rep) ==> created_step(
                    old(self).model(),
                    final(self).model(),
                    rep,
                    msg,
                ))
            },
            action@ is MessageEdited ==> {
                &&& r == Err::<ActionReport, ActionError>(ActionError::EditUnsupported)
                &&& final(self).model() == old(self).model()
            },
    {
        match action {
            TextChannelAction::MessageCreated(msg) => {
                let ghost m = msg@;
                let key = timestamp_key(msg.timestamp_ms);
                let value = msg.content.as_str().as_bytes_vec();
                let stored = if value.len() <= 0xFFFF_FFFFusize {
                    match self.keyspace.insert(&key, &value) {
                        Ok(()) => true,
                        Err(_) => false,
                    }
                } else {
                    // An oversized body cannot be written to the store;
                    // record it as a store failure and carry on.
                    false
                };
                let indexed = match self.index.add_message(
                    msg.timestamp_ms,
                    &msg.content,
                    msg.author.0,
                ) {
                    Ok(()) => true,
                    Err(_) => false,
                };
                self.events.publish(TextChannelEvent::NewMessage(msg));
                Ok(ActionReport { stored, indexed })
            },
            TextChannelAction::MessageEdited() => Err(ActionError::EditUnsupported),
        }
    }

    /// Reads the stored body of the message with the given timestamp,
    /// straight from the channel's keyspace.
    pub fn read_message(&self, timestamp_ms: u64) -> (r: Result<Option<Vec<u8>>, fjall::Error>)
        ensures
            r matches Ok(Some(v)) ==> self.model().store.contains_key(spec_be_bytes(timestamp_ms))
                && self.model().store[spec_be_bytes(timestamp_ms)] == v@,
            r matches Ok(None) ==> !self.model().store.contains_key(spec_be_bytes(timestamp_ms)),
    {
        let key = timestamp_key(timestamp_ms);
        self.keyspace.get(&key)
    }

    /// The number of entries in the channel's keyspace, by a full scan.
    /// No contract: tests hold concrete counts against it.
    pub fn stored_count(&self) -> Result<usize, fjall::Error> {
        self.keyspace.entry_count()
    }

    /// Commits the queued index documents and counts the searchable
    /// ones. No contract: tests hold concrete counts against it.
    pub fn indexed_count(&mut self) -> Result<u64, tantivy::TantivyError> {
        self.index.committed_doc_count()
    }

    /// Takes the next queued action, if any, and processes it: what was
    /// processed and how, `Idle` when the queue is momentarily empty, or
    /// `Stopped` once every sender is gone and the queue is drained —
    /// the actor's cue to return, as nothing will ever arrive again.
    pub fn try_step(&mut self) -> (r: WorkerStep)
        ensures
            r is Idle ==> final(self).model() == old(self).model(),
            r is Stopped ==> final(self).model() == old(self).model(),
            r matches WorkerStep::Processed(p) ==> (p matches Err(e) ==> e
                == ActionError::EditUnsupported && final(self).model() == old(self).model()),
            r matches WorkerStep::Processed(p) ==> p matches Ok(rep) ==> exists|msg: MsgModel|
                #[trigger] created_step(old(self).model(), final(self).model(), rep, msg),
    {
        let next = self.actions.try_next();
        match next {
            ActionPoll::Next(action) => {
                let ghost a = action@;
                let ghost pre = self.model();
                let result = self.process_action(action);
                proof {
                    assert(pre == old(self).model());
                    if a is MessageCreated && result is Ok {
                        let rep = result->Ok_0;
                        let msg = a->MessageCreated_0;
                        assert(created_step(pre, self.model(), rep, msg));
                    }
                }
                WorkerStep::Processed(result)
            },
            ActionPoll::Empty => WorkerStep::Idle,
            ActionPoll::Closed => WorkerStep::Stopped,
        }
    }
}

/// A channel on a server: the shared handle through which producers
/// submit actions and consumers subscribe to events. The write state
/// itself lives in the channel's single `ChannelWorker`.
pub struct TextChannel {
    /// The unique identifier of the channel.
    id: ChannelId,
    /// User-facing label for the channel.
    label: String,
    /// Sender for submitting actions to the channel's actor.
    message_sender: ActionSender,
    /// Handle to the channel's event stream, used only to subscribe.
    events: EventPublisher,
}

impl TextChannel {
    /// The channel's identifier.
    pub closed spec fn spec_id(self) -> u64 {
        self.id.0
    }

    /// The channel's user-facing label.
    pub closed spec fn spec_label(self) -> Seq<char> {
        self.label@
    }

    /// Constructs a new channel bound to the given search index: checks
    /// the label, opens the channel's keyspace — named by the channel
    /// identifier, a name the database must not have handed out before —
    /// and wires up the bounded action queue and the event stream.
    /// Returns the shared handle and the actor's write state. Fails with
    /// `LabelRequired` exactly when the label is empty, and with
    /// `KeyspaceError` when the store cannot provide the keyspace; on
    /// any failure nothing is registered anywhere.
    pub fn new(id: ChannelId, db: &mut storage::Database, index: SearchIndex, label: String) -> (r:
        Result<(TextChannel, ChannelWorker), TextChannelError>)
        requires
            !old(db).spec_opened().contains(decimal::spec_decimal(id.0 as nat)),
        ensures
            label@.len() == 0 <==> (r matches Err(TextChannelError::LabelRequired)),
            label@.len() == 0 ==> *final(db) == *old(db),
            label@.len() != 0 ==> final(db).spec_opened() == old(db).spec_opened().insert(
                decimal::spec_decimal(id.0 as nat),
            ),
            r matches Ok(c) ==> {
                &&& c.0.spec_id() == id.0
                &&& c.0.spec_label() == label@
                &&& c.1.model().events == Seq::<EventModel>::empty()
                &&& c.1.model().docs == search::index_docs(index)
            },
    {
        if label.as_str().unicode_len() == 0 {
            return Err(TextChannelError::LabelRequired);
        }
        let name = decimal::u64_to_string(id.0);
        proof {
            decimal::lemma_decimal_len_u64(id.0);
            decimal::lemma_decimal_digits(id.0 as nat);
            decimal::lemma_digits_ascii(name@);
            vstd::utf8::is_ascii_chars_encode_utf8(name@);
        }
        let keyspace = match db.open_keyspace(name.as_str()) {
            Ok(ks) => ks,
            Err(e) => {
                return Err(TextChannelError::KeyspaceError(e));
            },
        };
        let (message_sender, actions) = events::action_queue(ACTION_QUEUE_CAPACITY);
        let publisher = EventPublisher::new(EVENT_BUFFER_CAPACITY);
        let events_handle = publisher.clone_handle();
        let worker = ChannelWorker { keyspace, index, events: publisher, actions };
        let channel = TextChannel { id, label, message_sender, events: events_handle };
        Ok((channel, worker))
    }

    /// Returns a new sender that forwards actions to the channel's actor.
    pub fn message_sender(&self) -> ActionSender {
        self.message_sender.clone_handle()
    }

    /// Submits one action to the channel's bounded queue; a full or
    /// closed queue hands the action back, so the producer can observe
    /// the backpressure.
    pub fn submit(&self, action: TextChannelAction) -> (r: Result<(), ActionSendError>)
        ensures
            r matches Err(ActionSendError::Full(a)) ==> a == action,
            r matches Err(ActionSendError::Closed(a)) ==> a == action,
    {
        self.message_sender.try_send(action)
    }

    /// Returns the identifier of the channel.
    pub fn channel_id(&self) -> (id: ChannelId)
        ensures
            id.0 == self.spec_id(),
    {
        self.id
    }

    /// Returns the type of the channel.
    pub fn channel_type(&self) -> (t: ChannelType)
        ensures
            t is Text,
    {
        ChannelType::Text
    }

    /// Returns the user-facing label for the channel.
    pub fn get_label(&self) -> (l: &str)
        ensures
            l@ == self.spec_label(),
    {
        self.label.as_str()
    }

    /// Returns a subscriber for receiving channel events: it sees only
    /// events broadcast after this call, in publication order; it does
    /// not replay history from the store.
    pub fn subscribe(&self) -> EventSubscriber {
        self.events.subscribe()
    }

    /// A second handle to the same channel, for the registry to keep
    /// while the caller holds one.
    pub fn clone_handle(&self) -> (c: TextChannel)
        ensures
            c.spec_id() == self.spec_id(),
            c.spec_label() == self.spec_label(),
    {
        TextChannel {
            id: self.id,
            label: self.label.clone(),
            message_sender: self.message_sender.clone_handle(),
            events: self.events.clone_handle(),
        }
    }
}

/// How a sequence of created messages, all of whose writes succeed,
/// transforms the actor's state: message by message, in order.
pub open spec fn apply_all_created(m: WorkerModel, msgs: Seq<MsgModel>) -> WorkerModel
    decreases msgs.len(),
{
    if msgs.len() == 0 {
        m
    } else {
        apply_all_created(apply_created(m, msgs[0]), msgs.skip(1))
    }
}

/// Law: a channel's actor is first-in, first-out. Processing the actions
/// for messages `M1, ..., Mn` in submission order publishes exactly the
/// `NewMessage` events for `M1, ..., Mn`, appended in that same order —
/// a subscriber attached beforehand is offered all `n` events, once
/// each, in order.
pub proof fn lemma_actor_fifo(m: WorkerModel, msgs: Seq<MsgModel>)
    ensures
        apply_all_created(m, msgs).events == m.events + msgs.map_values(
            |msg: MsgModel| EventModel::NewMessage(msg),
        ),
    decreases msgs.len(),
{
    let f = |msg: MsgModel| EventModel::NewMessage(msg);
    if msgs.len() == 0 {
        assert(apply_all_created(m, msgs).events =~= m.events + msgs.map_values(f));
    } else {
        let m1 = apply_created(m, msgs[0]);
        lemma_actor_fifo(m1, msgs.skip(1));
        assert(m1.events + msgs.skip(1).map_values(f) =~= m.events + msgs.map_values(f));
    }
}

/// A key whose timestamp no message in the sequence carries is left
/// alone by processing the whole sequence.
proof fn lemma_store_untouched(m: WorkerModel, msgs: Seq<MsgModel>, ts: u64)
    requires
        forall|j: int| 0 <= j < msgs.len() ==> #[trigger] msgs[j].timestamp_ms != ts,
    ensures
        apply_all_created(m, msgs).store.contains_key(spec_be_bytes(ts)) == m.store.contains_key(
            spec_be_bytes(ts),
        ),
        m.store.contains_key(spec_be_bytes(ts)) ==> apply_all_created(m, msgs).store[spec_be_bytes(
            ts,
        )] == m.store[spec_be_bytes(ts)],
    decreases msgs.len(),
{
    if msgs.len() > 0 {
        lemma_be_bytes_injective();
        let m1 = apply_created(m, msgs[0]);
        assert(msgs[0].timestamp_ms != ts);
        lemma_store_untouched(m1, msgs.skip(1), ts);
    }
}

/// Law: processing the actions for messages `M1, ..., Mn` stores each
/// message's body under its big-endian timestamp key — for any message
/// whose timestamp no later message reuses (a later equal timestamp
/// overwrites the entry, as the store keeps one value per key).
pub proof fn lemma_actor_stores_each(m: WorkerModel, msgs: Seq<MsgModel>, i: int)
    requires
        0 <= i < msgs.len(),
        forall|j: int| i < j < msgs.len() ==> #[trigger] msgs[j].timestamp_ms != msgs[i].timestamp_ms,
    ensures
        apply_all_created(m, msgs).store.contains_key(spec_be_bytes(msgs[i].timestamp_ms)),
        apply_all_created(m, msgs).store[spec_be_bytes(msgs[i].timestamp_ms)]
            == vstd::utf8::encode_utf8(msgs[i].content),
    decreases msgs.len(),
{
    let m1 = apply_created(m, msgs[0]);
    if i == 0 {
        assert(forall|j: int|
            0 <= j < msgs.skip(1).len() ==> #[trigger] msgs.skip(1)[j].timestamp_ms
                != msgs[0].timestamp_ms);
        lemma_store_untouched(m1, msgs.skip(1), msgs[0].timestamp_ms);
    } else {
        assert(msgs.skip(1)[i - 1] == msgs[i]);
        assert(forall|j: int|
            i - 1 < j < msgs.skip(1).len() ==> #[trigger] msgs.skip(1)[j].timestamp_ms
                != msgs.skip(1)[i - 1].timestamp_ms);
        lemma_actor_stores_each(m1, msgs.skip(1), i - 1);
    }
}

/// Key `a` sorts strictly before key `b` in lexicographic byte order
/// (for the equal-length keys the store compares).
pub open spec fn lex_below(a: Seq<u8>, b: Seq<u8>) -> bool {
    exists|k: int|
        0 <= k < a.len() && k < b.len() && (forall|j: int| 0 <= j < k ==> a[j] == b[j]) && a[k]
            < b[k]
}

/// Law: the store's key layout keeps time order — an earlier message
/// timestamp gives a lexicographically smaller big-endian key, so range
/// scans over a channel's keyspace walk its messages chronologically.
pub proof fn lemma_be_key_order(ts1: u64, ts2: u64)
    requires
        ts1 < ts2,
    ensures
        lex_below(spec_be_bytes(ts1), spec_be_bytes(ts2)),
{
    let a = spec_be_bytes(ts1);
    let b = spec_be_bytes(ts2);
    if a[0] != b[0] {
        assert(ts1 / 0x100_0000_0000_0000 % 0x100 <= ts2 / 0x100_0000_0000_0000 % 0x100)
            by (bit_vector)
            requires
                ts1 < ts2,
        ;
        assert(a[0] < b[0]);
    } else if a[1] != b[1] {
        assert(ts1 / 0x1_0000_0000_0000 % 0x100 <= ts2 / 0x1_0000_0000_0000 % 0x100)
            by (bit_vector)
            requires
                ts1 < ts2,
                ts1 / 0x100_0000_0000_0000 % 0x100 == ts2 / 0x100_0000_0000_0000 % 0x100,
        ;
        assert(a[1] < b[1]);
    } else if a[2] != b[2] {
        assert(ts1 / 0x100_0000_0000 % 0x100 <= ts2 / 0x100_0000_0000 % 0x100) by (bit_vector)
            requires
                ts1 < ts2,
                ts1 / 0x100_0000_0000_0000 % 0x100 == ts2 / 0x100_0000_0000_0000 % 0x100,
                ts1 / 0x1_0000_0000_0000 % 0x100 == ts2 / 0x1_0000_0000_0000 % 0x100,
        ;
        assert(a[2] < b[2]);
    } else if a[3] != b[3] {
        assert(ts1 / 0x1_0000_0000 % 0x100 <= ts2 / 0x1_0000_0000 % 0x100) by (bit_vector)
            requires
                ts1 < ts2,
                ts1 / 0x100_0000_0000_0000 % 0x100 == ts2 / 0x100_0000_0000_0000 % 0x100,
                ts1 / 0x1_0000_0000_0000 % 0x100 == ts2 / 0x1_0000_0000_0000 % 0x100,
                ts1 / 0x100_0000_0000 % 0x100 == ts2 / 0x100_0000_0000 % 0x100,
        ;
        assert(a[3] < b[3]);
    } else if a[4] != b[4] {
        assert(ts1 / 0x100_0000 % 0x100 <= ts2 / 0x100_0000 % 0x100) by (bit_vector)
            requires
                ts1 < ts2,
                ts1 / 0x100_0000_0000_0000 % 0x100 == ts2 / 0x100_0000_0000_0000 % 0x100,
                ts1 / 0x1_0000_0000_0000 % 0x100 == ts2 / 0x1_0000_0000_0000 % 0x100,
                ts1 / 0x100_0000_0000 % 0x100 == ts2 / 0x100_0000_0000 % 0x100,
                ts1 / 0x1_0000_0000 % 0x100 == ts2 / 0x1_0000_0000 % 0x100,
        ;
        assert(a[4] < b[4]);
    } else if a[5] != b[5] {
        assert(ts1 / 0x1_0000 % 0x100 <= ts2 / 0x1_0000 % 0x100) by (bit_vector)
            requires
                ts1 < ts2,
                ts1 / 0x100_0000_0000_0000 % 0x100 == ts2 / 0x100_0000_0000_0000 % 0x100,
                ts1 / 0x1_0000_0000_0000 % 0x100 == ts2 / 0x1_0000_0000_0000 % 0x100,
                ts1 / 0x100_0000_0000 % 0x100 == ts2 / 0x100_0000_0000 % 0x100,
                ts1 / 0x1_0000_0000 % 0x100 == ts2 / 0x1_0000_0000 % 0x100,
                ts1 / 0x100_0000 % 0x100 == ts2 / 0x100_0000 % 0x100,
        ;
        assert(a[5] < b[5]);
    } else if a[6] != b[6] {
        assert(ts1 / 0x100 % 0x100 <= ts2 / 0x100 % 0x100) by (bit_vector)
            requires
                ts1 < ts2,
                ts1 / 0x100_0000_0000_0000 % 0x100 == ts2 / 0x100_0000_0000_0000 % 0x100,
                ts1 / 0x1_0000_0000_0000 % 0x100 == ts2 / 0x1_0000_0000_0000 % 0x100,
                ts1 / 0x100_0000_0000 % 0x100 == ts2 / 0x100_0000_0000 % 0x100,
                ts1 / 0x1_0000_0000 % 0x100 == ts2 / 0x1_0000_0000 % 0x100,
                ts1 / 0x100_0000 % 0x100 == ts2 / 0x100_0000 % 0x100,
                ts1 / 0x1_0000 % 0x100 == ts2 / 0x1_0000 % 0x100,
        ;
        assert(a[6] < b[6]);
    } else {
        // The seven leading bytes agree, so the last bytes must differ —
        // equal keys would mean equal timestamps.
        lemma_be_bytes_injective();
        if a[7] == b[7] {
            assert(a =~= b);
        }
        assert(ts1 % 0x100 <= ts2 % 0x100) by (bit_vector)
            requires
                ts1 < ts2,
                ts1 / 0x100_0000_0000_0000 % 0x100 == ts2 / 0x100_0000_0000_0000 % 0x100,
                ts1 / 0x1_0000_0000_0000 % 0x100 == ts2 / 0x1_0000_0000_0000 % 0x100,
                ts1 / 0x100_0000_0000 % 0x100 == ts2 / 0x100_0000_0000 % 0x100,
                ts1 / 0x1_0000_0000 % 0x100 == ts2 / 0x1_0000_0000 % 0x100,
                ts1 / 0x100_0000 % 0x100 == ts2 / 0x100_0000 % 0x100,
                ts1 / 0x1_0000 % 0x100 == ts2 / 0x1_0000 % 0x100,
                ts1 / 0x100 % 0x100 == ts2 / 0x100 % 0x100,
        ;
        assert(a[7] < b[7]);
    }
}

/// Two distinct timestamps have distinct big-endian keys.
pub proof fn lemma_be_bytes_injective()
    ensures
        forall|a: u64, b: u64| a != b ==> spec_be_bytes(a) != spec_be_bytes(b),
{
    assert forall|a: u64, b: u64| a != b implies spec_be_bytes(a) != spec_be_bytes(b) by {
        if spec_be_bytes(a) == spec_be_bytes(b) {
            assert(spec_be_bytes(a)[7] == spec_be_bytes(b)[7]);
            assert(spec_be_bytes(a)[6] == spec_be_bytes(b)[6]);
            assert(spec_be_bytes(a)[5] == spec_be_bytes(b)[5]);
            assert(spec_be_bytes(a)[4] == spec_be_bytes(b)[4]);
            assert(spec_be_bytes(a)[3] == spec_be_bytes(b)[3]);
            assert(spec_be_bytes(a)[2] == spec_be_bytes(b)[2]);
            assert(spec_be_bytes(a)[1] == spec_be_bytes(b)[1]);
            assert(spec_be_bytes(a)[0] == spec_be_bytes(b)[0]);
            assert(a / 0x100_0000_0000_0000 % 0x100 == b / 0x100_0000_0000_0000 % 0x100);
            assert(a / 0x1_0000_0000_0000 % 0x100 == b / 0x1_0000_0000_0000 % 0x100);
            assert(a / 0x100_0000_0000 % 0x100 == b / 0x100_0000_0000 % 0x100);
            assert(a / 0x1_0000_0000 % 0x100 == b / 0x1_0000_0000 % 0x100);
            assert(a / 0x100_0000 % 0x100 == b / 0x100_0000 % 0x100);
            assert(a / 0x1_0000 % 0x100 == b / 0x1_0000 % 0x100);
            assert(a / 0x100 % 0x100 == b / 0x100 % 0x100);
            assert(a % 0x100 == b % 0x100);
            assert(a == b) by (bit_vector)
                requires
                    a / 0x100_0000_0000_0000 % 0x100 == b / 0x100_0000_0000_0000 % 0x100,
                    a / 0x1_0000_0000_0000 % 0x100 == b / 0x1_0000_0000_0000 % 0x100,
                    a / 0x100_0000_0000 % 0x100 == b / 0x100_0000_0000 % 0x100,
                    a / 0x1_0000_0000 % 0x100 == b / 0x1_0000_0000 % 0x100,
                    a / 0x100_0000 % 0x100 == b / 0x100_0000 % 0x100,
                    a / 0x1_0000 % 0x100 == b / 0x1_0000 % 0x100,
                    a / 0x100 % 0x100 == b / 0x100 % 0x100,
                    a % 0x100 == b % 0x100,
            ;
        }
    }
}

} // verus!
