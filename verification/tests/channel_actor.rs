//! The per-channel actor: persisting, indexing and republishing created
//! messages in submission order, rejecting edits, and observing
//! backpressure on the bounded action queue.

use bonfire::channel::ChannelId;
use bonfire::server::channel::text::events::ActionSendError;
use bonfire::server::channel::text::search::SearchIndex;
use bonfire::server::channel::text::ActionError;
use bonfire::server::channel::text::ActionReport;
use bonfire::server::channel::text::ChannelWorker;
use bonfire::server::channel::text::TextChannel;
use bonfire::server::channel::text::TextChannelAction;
use bonfire::server::channel::text::TextChannelError;
use bonfire::server::channel::text::TextChannelEvent;
use bonfire::server::channel::text::TextChannelMessage;
use bonfire::server::channel::text::WorkerStep;
use bonfire::storage::Database;
use bonfire::user::UserId;

fn open_db(name: &str) -> Database {
    let path = format!("/tmp/bonfire_it/{}_{}", name, bonfire::clock::now_unix_millis());
    Database::open(&path).expect("the message database should open")
}

fn msg(author: u64, timestamp_ms: u64, content: &str) -> TextChannelMessage {
    TextChannelMessage { author: UserId(author), timestamp_ms, content: content.to_string() }
}

/// One step that must take an action off the queue.
fn step_processed(worker: &mut ChannelWorker) -> Result<ActionReport, ActionError> {
    match worker.try_step() {
        WorkerStep::Processed(outcome) => outcome,
        other => panic!("expected a queued action to be processed, got {other:?}"),
    }
}

#[test]
fn created_message_is_stored_indexed_and_republished() {
    let mut db = open_db("actor_create");
    let index = SearchIndex::open_in_ram().expect("an in-memory index should open");
    let (channel, mut worker) =
        TextChannel::new(ChannelId(1), &mut db, index, "general".to_string()).expect("channel");

    // A subscriber attached before submission sees the resulting event.
    let mut sub = channel.subscribe();

    channel
        .submit(TextChannelAction::MessageCreated(msg(42, 1000, "hello <@7>")))
        .expect("the queue should accept the action");

    let report = step_processed(&mut worker).expect("a created message is processed, not rejected");
    assert!(report.stored);
    assert!(report.indexed);

    // One store entry, keyed by the big-endian timestamp.
    let stored = worker.read_message(1000).expect("store read");
    assert_eq!(stored, Some(b"hello <@7>".to_vec()));
    assert_eq!(worker.stored_count().expect("store scan"), 1);

    // One indexed document.
    assert_eq!(worker.indexed_count().expect("index count"), 1);

    // Exactly one event, with the original content unmodified.
    match sub.try_next() {
        Some(TextChannelEvent::NewMessage(m)) => {
            assert_eq!(m.author, UserId(42));
            assert_eq!(m.timestamp_ms, 1000);
            assert_eq!(m.content, "hello <@7>");
        }
        other => panic!("expected one NewMessage event, got {other:?}"),
    }
    assert!(sub.try_next().is_none(), "no further event was published");
}

#[test]
fn events_arrive_in_submission_order_exactly_once() {
    let mut db = open_db("actor_fifo");
    let index = SearchIndex::open_in_ram().expect("index");
    let (channel, mut worker) =
        TextChannel::new(ChannelId(2), &mut db, index, "ordered".to_string()).expect("channel");
    let mut sub = channel.subscribe();

    for i in 0..3u64 {
        channel
            .submit(TextChannelAction::MessageCreated(msg(i, 100 + i, "m")))
            .expect("enqueue");
    }
    for _ in 0..3 {
        step_processed(&mut worker).expect("processed");
    }
    assert!(
        matches!(worker.try_step(), WorkerStep::Idle),
        "the queue is drained but the channel handle keeps it open"
    );

    for i in 0..3u64 {
        match sub.try_next() {
            Some(TextChannelEvent::NewMessage(m)) => {
                assert_eq!(m.author, UserId(i), "events keep submission order");
                assert_eq!(m.timestamp_ms, 100 + i);
            }
            other => panic!("expected NewMessage number {i}, got {other:?}"),
        }
    }
    assert!(sub.try_next().is_none(), "each event is delivered exactly once");
}

#[test]
fn late_subscriber_misses_earlier_events() {
    let mut db = open_db("actor_late_sub");
    let index = SearchIndex::open_in_ram().expect("index");
    let (channel, mut worker) =
        TextChannel::new(ChannelId(3), &mut db, index, "late".to_string()).expect("channel");

    channel
        .submit(TextChannelAction::MessageCreated(msg(1, 5, "early")))
        .expect("enqueue");
    step_processed(&mut worker).expect("processed");

    let mut sub = channel.subscribe();
    assert!(sub.try_next().is_none(), "a late subscriber receives no history");
}

#[test]
fn edit_action_is_rejected_with_typed_error() {
    let mut db = open_db("actor_edit");
    let index = SearchIndex::open_in_ram().expect("index");
    let (channel, mut worker) =
        TextChannel::new(ChannelId(4), &mut db, index, "edits".to_string()).expect("channel");
    let mut sub = channel.subscribe();

    channel.submit(TextChannelAction::MessageEdited()).expect("enqueue");
    assert_eq!(step_processed(&mut worker), Err(ActionError::EditUnsupported));
    assert_eq!(worker.stored_count().expect("store scan"), 0);
    assert!(sub.try_next().is_none(), "a rejected action publishes nothing");
}

#[test]
fn empty_label_is_rejected() {
    let mut db = open_db("actor_label");
    let index = SearchIndex::open_in_ram().expect("index");
    match TextChannel::new(ChannelId(5), &mut db, index, String::new()) {
        Err(TextChannelError::LabelRequired) => {}
        _ => panic!("an empty label must fail with the label-required error"),
    }
}

#[test]
fn full_queue_hands_the_action_back() {
    let mut db = open_db("actor_backpressure");
    let index = SearchIndex::open_in_ram().expect("index");
    let (channel, _worker) =
        TextChannel::new(ChannelId(6), &mut db, index, "busy".to_string()).expect("channel");

    let mut rejected = None;
    for i in 0..100u64 {
        match channel.submit(TextChannelAction::MessageCreated(msg(i, i, "x"))) {
            Ok(()) => {}
            Err(e) => {
                rejected = Some((i, e));
                break;
            }
        }
    }
    let (i, e) = rejected.expect("a bounded queue must push back eventually");
    match e {
        ActionSendError::Full(TextChannelAction::MessageCreated(m)) => {
            assert_eq!(m.author, UserId(i), "the rejected action comes back unchanged");
        }
        _ => panic!("expected the queue-full rejection with the action inside"),
    }
}

#[test]
fn worker_stops_when_every_sender_is_gone() {
    let mut db = open_db("actor_stop");
    let index = SearchIndex::open_in_ram().expect("index");
    let (channel, mut worker) =
        TextChannel::new(ChannelId(8), &mut db, index, "closing".to_string()).expect("channel");

    channel
        .submit(TextChannelAction::MessageCreated(msg(1, 1, "last words")))
        .expect("enqueue");
    // Drop the only handle: once the queue drains, the actor must see
    // the closed queue and stop, as nothing can ever arrive again.
    drop(channel);
    step_processed(&mut worker).expect("the queued action is still processed");
    assert!(matches!(worker.try_step(), WorkerStep::Stopped));
}

#[test]
fn channel_accessors() {
    let mut db = open_db("actor_accessors");
    let index = SearchIndex::open_in_ram().expect("index");
    let (channel, _worker) =
        TextChannel::new(ChannelId(7), &mut db, index, "meta".to_string()).expect("channel");
    assert_eq!(channel.channel_id(), ChannelId(7));
    assert_eq!(channel.get_label(), "meta");
    assert!(matches!(
        channel.channel_type(),
        bonfire::server::channel::ChannelType::Text
    ));
}
