use tunnel_proxy::db::{
    AddReq, DBAction, DBEvent, DBMessage, Phase, StoreOp, StoreResult, CHANGE_BUS_CAPACITY, DB,
};
use tunnel_proxy::models::Tunnel;

fn tunnel(id: i32, from: &str, to: &str) -> Tunnel {
    Tunnel::new(id, from.to_string(), to.to_string())
}

fn add(from: &str, to: &str) -> DBMessage {
    DBMessage::Add(AddReq { from: from.to_string(), to: to.to_string() })
}

#[test]
fn the_change_bus_keeps_eight_events() {
    assert_eq!(CHANGE_BUS_CAPACITY, 8);
}

#[test]
fn a_new_actor_is_idle() {
    let db = DB::start();
    assert_eq!(db.current_phase(), Phase::Idle);
    assert!(!db.is_stopped());
}

#[test]
fn subscribe_hands_out_the_receiver_and_then_signals() {
    let mut db = DB::start();
    let actions = db.step(DBEvent::Command(DBMessage::Subscribe));
    assert!(matches!(&actions[..], [DBAction::Subscribed, DBAction::Notify]));
    assert_eq!(db.current_phase(), Phase::Idle);
}

#[test]
fn get_all_reads_and_answers_without_signal() {
    let mut db = DB::start();
    let actions = db.step(DBEvent::Command(DBMessage::GetALl));
    assert!(matches!(&actions[..], [DBAction::Store(StoreOp::LoadAll)]));
    assert_eq!(db.current_phase(), Phase::Listing);

    let rows = vec![tunnel(1, "a", "b"), tunnel(2, "c", "d")];
    let actions = db.step(DBEvent::Store(StoreResult::Rows(rows.clone())));
    assert_eq!(actions.len(), 1);
    match &actions[0] {
        DBAction::Tunnels(answer) => assert_eq!(answer, &rows),
        other => panic!("unexpected action {:?}", other),
    }
    assert_eq!(db.current_phase(), Phase::Idle);
}

#[test]
fn get_all_of_an_empty_store_answers_with_no_rows() {
    let mut db = DB::start();
    db.step(DBEvent::Command(DBMessage::GetALl));
    let actions = db.step(DBEvent::Store(StoreResult::Rows(vec![])));
    match &actions[..] {
        [DBAction::Tunnels(answer)] => assert!(answer.is_empty()),
        other => panic!("unexpected actions {:?}", other),
    }
    assert_eq!(db.current_phase(), Phase::Idle);
}

#[test]
fn remove_deletes_and_signals_after_the_commit() {
    let mut db = DB::start();
    let actions = db.step(DBEvent::Command(DBMessage::Remove(7)));
    assert!(matches!(&actions[..], [DBAction::Store(StoreOp::Delete(7))]));
    assert_eq!(db.current_phase(), Phase::Removing);

    let actions = db.step(DBEvent::Store(StoreResult::Done));
    assert!(matches!(&actions[..], [DBAction::Notify]));
    assert_eq!(db.current_phase(), Phase::Idle);
}

#[test]
fn add_inserts_reads_again_answers_then_signals() {
    let mut db = DB::start();
    let actions = db.step(DBEvent::Command(add("a.example.com", "b.internal:4200")));
    match &actions[..] {
        [DBAction::Store(StoreOp::Insert(req))] => {
            assert_eq!(req.from, "a.example.com");
            assert_eq!(req.to, "b.internal:4200");
        }
        other => panic!("unexpected actions {:?}", other),
    }
    assert_eq!(db.current_phase(), Phase::Inserting);

    let actions = db.step(DBEvent::Store(StoreResult::Done));
    assert!(matches!(&actions[..], [DBAction::Store(StoreOp::LoadAll)]));
    assert_eq!(db.current_phase(), Phase::Confirming);

    let rows = vec![tunnel(3, "x", "y"), tunnel(9, "a.example.com", "b.internal:4200")];
    let actions = db.step(DBEvent::Store(StoreResult::Rows(rows)));
    assert!(matches!(&actions[..], [DBAction::Added(9), DBAction::Notify]));
    assert_eq!(db.current_phase(), Phase::Idle);
}

#[test]
fn add_that_finds_no_row_afterwards_ends_the_actor() {
    let mut db = DB::start();
    db.step(DBEvent::Command(add("a", "b")));
    db.step(DBEvent::Store(StoreResult::Done));
    let actions = db.step(DBEvent::Store(StoreResult::Rows(vec![])));
    assert!(matches!(&actions[..], [DBAction::Terminate]));
    assert!(db.is_stopped());
}

#[test]
fn a_store_failure_ends_the_actor_in_every_phase() {
    let mut listing = DB::start();
    listing.step(DBEvent::Command(DBMessage::GetALl));
    let actions = listing.step(DBEvent::Store(StoreResult::Failed));
    assert!(matches!(&actions[..], [DBAction::Terminate]));
    assert!(listing.is_stopped());

    let mut removing = DB::start();
    removing.step(DBEvent::Command(DBMessage::Remove(1)));
    let actions = removing.step(DBEvent::Store(StoreResult::Failed));
    assert!(matches!(&actions[..], [DBAction::Terminate]));
    assert!(removing.is_stopped());

    let mut inserting = DB::start();
    inserting.step(DBEvent::Command(add("a", "b")));
    let actions = inserting.step(DBEvent::Store(StoreResult::Failed));
    assert!(matches!(&actions[..], [DBAction::Terminate]));
    assert!(inserting.is_stopped());

    let mut confirming = DB::start();
    confirming.step(DBEvent::Command(add("a", "b")));
    confirming.step(DBEvent::Store(StoreResult::Done));
    let actions = confirming.step(DBEvent::Store(StoreResult::Failed));
    assert!(matches!(&actions[..], [DBAction::Terminate]));
    assert!(confirming.is_stopped());
}

#[test]
fn a_command_out_of_turn_ends_the_actor() {
    let mut db = DB::start();
    db.step(DBEvent::Command(DBMessage::Remove(1)));
    let actions = db.step(DBEvent::Command(DBMessage::GetALl));
    assert!(matches!(&actions[..], [DBAction::Terminate]));
    assert!(db.is_stopped());
}

#[test]
fn an_answer_nobody_asked_for_ends_the_actor() {
    let mut db = DB::start();
    let actions = db.step(DBEvent::Store(StoreResult::Done));
    assert!(matches!(&actions[..], [DBAction::Terminate]));
    assert!(db.is_stopped());

    let mut db = DB::start();
    db.step(DBEvent::Command(DBMessage::GetALl));
    let actions = db.step(DBEvent::Store(StoreResult::Done));
    assert!(matches!(&actions[..], [DBAction::Terminate]));
    assert!(db.is_stopped());
}

#[test]
fn the_end_of_the_queue_stops_an_idle_actor_quietly() {
    let mut db = DB::start();
    let actions = db.step(DBEvent::Closed);
    assert!(actions.is_empty());
    assert!(db.is_stopped());
}

#[test]
fn a_stopped_actor_asks_for_nothing() {
    let mut db = DB::start();
    db.step(DBEvent::Closed);
    assert!(db.step(DBEvent::Command(DBMessage::Subscribe)).is_empty());
    assert!(db.step(DBEvent::Store(StoreResult::Failed)).is_empty());
    assert!(db.step(DBEvent::Closed).is_empty());
    assert_eq!(db.current_phase(), Phase::Stopped);
}
