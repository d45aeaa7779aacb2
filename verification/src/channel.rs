//! The mutation queue and the persistence worker.
//!
//! Producers hold a [`DatabaseHandle`] and enqueue mutation messages; the
//! enqueue never blocks and never touches storage.  A single
//! [`DatabaseThread`] owns the storage gateway exclusively, drains the
//! queue in order, and applies one message at a time to completion.  A
//! failed mutation is absorbed and the worker moves on to the next
//! message; only closing the queue (or the advisory shutdown message) ends
//! the worker.

use vstd::prelude::*;

use crate::gateway::Database;
use crate::model::{DbError, DbMessage};
use crate::store::{apply_m, partial_m, StoreModel};

verus! {

#[verifier::external_type_specification]
#[verifier::external_body]
#[verifier::reject_recursive_types(T)]
pub struct ExSender<T>(std::sync::mpsc::Sender<T>);

#[verifier::external_type_specification]
#[verifier::external_body]
#[verifier::reject_recursive_types(T)]
pub struct ExReceiver<T>(std::sync::mpsc::Receiver<T>);

/// Relies on `std::sync::mpsc::channel`: creates the unbounded queue pair;
/// sends on the one end are received on the other in send order.
#[verifier::external_body]
fn new_queue() -> (r: (std::sync::mpsc::Sender<DbMessage>, std::sync::mpsc::Receiver<DbMessage>)) {
    std::sync::mpsc::channel()
}

/// Relies on `std::sync::mpsc::Sender::send`: enqueues without blocking and
/// fails only when the receiving end was dropped; the error carries the
/// unsent message back.
#[verifier::external_body]
fn queue_send(s: &std::sync::mpsc::Sender<DbMessage>, m: DbMessage) -> (r: Result<(), DbMessage>)
    ensures
        r matches Err(back) ==> back == m,
{
    match s.send(m) {
        Ok(()) => Ok(()),
        Err(e) => Err(e.0),
    }
}

/// Relies on `std::sync::mpsc::Sender::clone`: another producer handle on
/// the same queue.
#[verifier::external_body]
fn queue_sender_clone(s: &std::sync::mpsc::Sender<DbMessage>) -> (r: std::sync::mpsc::Sender<
    DbMessage,
>) {
    s.clone()
}

/// Relies on `std::sync::mpsc::Receiver::recv`: blocks for the next message
/// in queue order, and returns nothing only when the queue is empty and
/// every sender was dropped.
#[verifier::external_body]
fn queue_recv(r: &std::sync::mpsc::Receiver<DbMessage>) -> (res: Option<DbMessage>) {
    match r.recv() {
        Ok(m) => Some(m),
        Err(_) => None,
    }
}

/// A producer's handle on the mutation queue.  Cloning it yields another
/// independent producer; each producer's own send order is preserved.
pub struct DatabaseHandle {
    sender: std::sync::mpsc::Sender<DbMessage>,
}

impl DatabaseHandle {
    /// Enqueue one mutation message for the worker.  The call never blocks
    /// and never performs storage work; the only failure is a closed
    /// queue, which ends the persistence session for this producer.
    pub fn send(&self, message: DbMessage) -> (r: Result<(), DbError>)
        ensures
            r matches Err(e) ==> e is ChannelClosed,
    {
        match queue_send(&self.sender, message) {
            Ok(()) => Ok(()),
            Err(_) => Err(DbError::ChannelClosed),
        }
    }
}

impl Clone for DatabaseHandle {
    /// Another producer handle on the same queue.
    fn clone(&self) -> (r: Self) {
        DatabaseHandle { sender: queue_sender_clone(&self.sender) }
    }
}

/// The persistence worker: the receiving end of the mutation queue and the
/// exclusively owned storage gateway.  `self@` is the stored state the
/// worker has produced so far.
pub struct DatabaseThread {
    receiver: std::sync::mpsc::Receiver<DbMessage>,
    db: Database,
}

impl View for DatabaseThread {
    type V = StoreModel;

    closed spec fn view(&self) -> StoreModel {
        self.db@
    }
}

impl DatabaseThread {
    /// Open the storage target, apply the schema, and hand back the worker
    /// together with the first producer handle.  A storage or migration
    /// failure is fatal here and no worker is created.
    pub fn new(database_url: &str) -> (r: Result<(DatabaseThread, DatabaseHandle), DbError>)
        ensures
            r matches Ok(p) ==> p.0@ == StoreModel::init(),
    {
        let db = match Database::new(database_url) {
            Ok(d) => d,
            Err(e) => return Err(e),
        };
        let (sender, receiver) = new_queue();
        Ok((DatabaseThread { receiver, db }, DatabaseHandle { sender }))
    }

    /// Apply one mutation message to storage.  On success the stored state
    /// has advanced by exactly that message; on failure it holds what the
    /// partially applied message left behind, and the worker is free to
    /// continue with the next message.
    pub fn handle_message(&mut self, message: DbMessage) -> (r: Result<(), DbError>)
        ensures
            r is Ok ==> final(self)@ == apply_m(old(self)@, message),
            r is Err ==> partial_m(old(self)@, message, final(self)@),
            message is Shutdown ==> r is Ok,
    {
        match message {
            DbMessage::UpsertClient(client) => self.db.upsert_client(&client),
            DbMessage::UpsertNode(node) => self.db.upsert_node(&node),
            DbMessage::UpsertDevice(device) => self.db.upsert_device(&device),
            DbMessage::UpsertLink { object_id, link } => self.db.upsert_link(object_id, &link),
            DbMessage::UpsertMetadata(metadata) => self.db.upsert_metadata(&metadata),
            DbMessage::RemoveMetadataProperty { object_id, subject, key } => self
                .db
                .remove_metadata_property(object_id, subject, &key),
            DbMessage::ClearMetadataProperties { object_id, subject } => self
                .db
                .clear_metadata_properties(object_id, subject),
            DbMessage::RemoveObject(object_id) => self.db.remove_object(object_id),
            DbMessage::Shutdown => Ok(()),
        }
    }

    /// One turn of the worker loop: block for the next message and apply
    /// it to completion before anything else is pulled — the serialization
    /// boundary that makes concurrent producers safe.  Returns `None` when
    /// the queue is drained and every producer handle is gone, the
    /// worker's cue to exit; otherwise the processed mutation's own
    /// outcome, for the caller to hand to an observability sink.  A failed
    /// mutation never stops the worker: the producer already moved on, and
    /// the next full upsert of the same entity self-corrects.
    pub fn step(&mut self) -> (r: Option<Result<(), DbError>>)
        ensures
            r is None ==> final(self)@ == old(self)@,
            r matches Some(outcome) ==> exists|message: DbMessage|
                {
                    ||| outcome is Ok && final(self)@ == apply_m(old(self)@, message)
                    ||| outcome is Err && partial_m(old(self)@, message, final(self)@)
                },
    {
        match queue_recv(&self.receiver) {
            Some(message) => {
                let ghost msg = message;
                let outcome = self.handle_message(message);
                proof {
                    let ghost applied = apply_m(old(self)@, msg);
                    let ghost part = partial_m(old(self)@, msg, self@);
                    assert((outcome is Ok && self@ == applied) || (outcome is Err && part));
                    assert(exists|message: DbMessage|
                        {
                            ||| outcome is Ok && self@ == apply_m(old(self)@, message)
                            ||| outcome is Err && partial_m(old(self)@, message, self@)
                        });
                }
                Some(outcome)
            },
            None => None,
        }
    }
}

} // verus!
