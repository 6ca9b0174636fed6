//! The persistence actor: the single writer that owns the store connection.
//!
//! The actor is written as a state machine. Its caller owns the connection
//! and the channels: it hands each event to [`DB::step`], carries out the
//! actions that come back, in order, and reports what the store answered.
//! One command is served at a time, to completion, before the next is taken.

use crate::models::Tunnel;
use vstd::prelude::*;

verus! {

/// How many change events the change bus keeps for a subscriber that has
/// fallen behind.
pub const CHANGE_BUS_CAPACITY: usize = 8;

/// A request to add a routing rule.
#[derive(Debug)]
pub struct AddReq {
    pub from: String,
    pub to: String,
}

/// A command to the persistence actor.
#[derive(Debug)]
pub enum DBMessage {
    /// Register the caller on the change bus.
    Subscribe,
    /// Read every rule, in ascending order of id.
    GetALl,
    /// Delete the rule with this id; an id that no rule has is not an error.
    Remove(i32),
    /// Insert a rule and report the id the store gave it.
    Add(AddReq),
}

/// One operation on the store. The store runs one at a time.
#[derive(Debug)]
pub enum StoreOp {
    /// Read every row, ordered by ascending id.
    LoadAll,
    /// Delete the row with this id, if there is one.
    Delete(i32),
    /// Insert a row with these two domains; the store assigns the id.
    Insert(AddReq),
}

/// What the store answered to an operation.
#[derive(Debug)]
pub enum StoreResult {
    /// The rows that a read returned.
    Rows(Vec<Tunnel>),
    /// A delete or an insert was committed.
    Done,
    /// The operation failed.
    Failed,
}

/// What the actor is told.
#[derive(Debug)]
pub enum DBEvent {
    /// The next command from the queue.
    Command(DBMessage),
    /// The store's answer to the operation the actor asked for last.
    Store(StoreResult),
    /// Every sender of commands is gone.
    Closed,
}

/// What the actor asks its caller to do.
#[derive(Debug)]
pub enum DBAction {
    /// Hand the caller of `Subscribe` a fresh receiver of the change bus.
    Subscribed,
    /// Answer the caller of `GetALl` with these rules.
    Tunnels(Vec<Tunnel>),
    /// Answer the caller of `Add` with the id of the new rule.
    Added(i32),
    /// Put one change event on the change bus.
    Notify,
    /// Run this operation on the store and report its result.
    Store(StoreOp),
    /// The store failed, or an event came that the protocol does not allow:
    /// end the actor.
    Terminate,
}

/// Where the actor stands in serving a command.
#[derive(Clone, Copy, Debug, PartialEq, Eq, Structural)]
pub enum Phase {
    /// Waiting for the next command.
    Idle,
    /// Serving `GetALl`: waiting for the rows.
    Listing,
    /// Serving `Remove`: waiting for the delete to commit.
    Removing,
    /// Serving `Add`: waiting for the insert to commit.
    Inserting,
    /// Serving `Add`: waiting for the rows that show the new id.
    Confirming,
    /// The actor has ended and takes no more events.
    Stopped,
}

/// The actor's rule: the phase it moves to and the actions it asks for, in
/// the order in which they are to be carried out.
///
/// - `Subscribe` hands out the receiver and then always puts a change event
///   on the bus, so that a new subscriber loads once.
/// - `GetALl` reads and answers; nothing else happens.
/// - `Remove` deletes, and once the delete is committed puts a change event
///   on the bus.
/// - `Add` inserts, reads the rows again, answers with the id of the last
///   row, and then puts a change event on the bus.
/// - A failure of the store ends the actor, and so does any event that does
///   not fit the phase.
pub open spec fn transition(phase: Phase, event: DBEvent) -> (Phase, Seq<DBAction>) {
    match (phase, event) {
        (Phase::Stopped, _) => (Phase::Stopped, seq![]),
        (Phase::Idle, DBEvent::Closed) => (Phase::Stopped, seq![]),
        (Phase::Idle, DBEvent::Command(DBMessage::Subscribe)) => (
            Phase::Idle,
            seq![DBAction::Subscribed, DBAction::Notify],
        ),
        (Phase::Idle, DBEvent::Command(DBMessage::GetALl)) => (
            Phase::Listing,
            seq![DBAction::Store(StoreOp::LoadAll)],
        ),
        (Phase::Idle, DBEvent::Command(DBMessage::Remove(id))) => (
            Phase::Removing,
            seq![DBAction::Store(StoreOp::Delete(id))],
        ),
        (Phase::Idle, DBEvent::Command(DBMessage::Add(req))) => (
            Phase::Inserting,
            seq![DBAction::Store(StoreOp::Insert(req))],
        ),
        (Phase::Listing, DBEvent::Store(StoreResult::Rows(rows))) => (
            Phase::Idle,
            seq![DBAction::Tunnels(rows)],
        ),
        (Phase::Removing, DBEvent::Store(StoreResult::Done)) => (
            Phase::Idle,
            seq![DBAction::Notify],
        ),
        (Phase::Inserting, DBEvent::Store(StoreResult::Done)) => (
            Phase::Confirming,
            seq![DBAction::Store(StoreOp::LoadAll)],
        ),
        (Phase::Confirming, DBEvent::Store(StoreResult::Rows(rows))) => if rows@.len() > 0 {
            (Phase::Idle, seq![DBAction::Added(rows@.last().id), DBAction::Notify])
        } else {
            (Phase::Stopped, seq![DBAction::Terminate])
        },
        _ => (Phase::Stopped, seq![DBAction::Terminate]),
    }
}

/// The persistence actor's state.
#[derive(Debug)]
pub struct DB {
    phase: Phase,
}

impl DB {
    /// The phase the actor is in.
    pub closed spec fn phase(&self) -> Phase {
        self.phase
    }

    /// A new actor, waiting for its first command.
    pub fn start() -> (db: DB)
        ensures
            db.phase() == Phase::Idle,
    {
        DB { phase: Phase::Idle }
    }

    /// The phase the actor is in.
    pub fn current_phase(&self) -> (phase: Phase)
        ensures
            phase == self.phase(),
    {
        self.phase
    }

    /// Whether the actor has ended.
    pub fn is_stopped(&self) -> (stopped: bool)
        ensures
            stopped == (self.phase() == Phase::Stopped),
    {
        match self.phase {
            Phase::Stopped => true,
            _ => false,
        }
    }

    /// Takes one event and says what to do next, as [`transition`] rules.
    pub fn step(&mut self, event: DBEvent) -> (actions: Vec<DBAction>)
        ensures
            (final(self).phase(), actions@) == transition(old(self).phase(), event),
    {
        let mut actions: Vec<DBAction> = Vec::new();
        let phase = self.phase;
        let next = match (phase, event) {
            (Phase::Stopped, _) => Phase::Stopped,
            (Phase::Idle, DBEvent::Closed) => Phase::Stopped,
            (Phase::Idle, DBEvent::Command(DBMessage::Subscribe)) => {
                actions.push(DBAction::Subscribed);
                actions.push(DBAction::Notify);
                Phase::Idle
            },
            (Phase::Idle, DBEvent::Command(DBMessage::GetALl)) => {
                actions.push(DBAction::Store(StoreOp::LoadAll));
                Phase::Listing
            },
            (Phase::Idle, DBEvent::Command(DBMessage::Remove(id))) => {
                actions.push(DBAction::Store(StoreOp::Delete(id)));
                Phase::Removing
            },
            (Phase::Idle, DBEvent::Command(DBMessage::Add(req))) => {
                actions.push(DBAction::Store(StoreOp::Insert(req)));
                Phase::Inserting
            },
            (Phase::Listing, DBEvent::Store(StoreResult::Rows(rows))) => {
                actions.push(DBAction::Tunnels(rows));
                Phase::Idle
            },
            (Phase::Removing, DBEvent::Store(StoreResult::Done)) => {
                actions.push(DBAction::Notify);
                Phase::Idle
            },
            (Phase::Inserting, DBEvent::Store(StoreResult::Done)) => {
                actions.push(DBAction::Store(StoreOp::LoadAll));
                Phase::Confirming
            },
            (Phase::Confirming, DBEvent::Store(StoreResult::Rows(rows))) => {
                if rows.len() > 0 {
                    let id: i32 = rows[rows.len() - 1].id;
                    actions.push(DBAction::Added(id));
                    actions.push(DBAction::Notify);
                    Phase::Idle
                } else {
                    actions.push(DBAction::Terminate);
                    Phase::Stopped
                }
            },
            _ => {
                actions.push(DBAction::Terminate);
                Phase::Stopped
            },
        };
        self.phase = next;
        assert(actions@ =~= transition(phase, event).1);
        actions
    }
}

/// What a subscriber of the change bus receives.
#[derive(Clone, Copy, Debug, PartialEq, Eq, Structural)]
pub enum BusEvent {
    /// A change event.
    Changed,
    /// The subscriber fell behind and some change events were dropped.
    Lagged,
    /// The bus has no sender any more.
    Closed,
}

/// Whether a subscriber must read the store again: after a change event, and
/// just as much after falling behind, since a full read makes up for any
/// number of missed events. Only the end of the bus asks for none.
pub open spec fn asks_for_reload(event: BusEvent) -> bool {
    event != BusEvent::Closed
}

} // verus!
