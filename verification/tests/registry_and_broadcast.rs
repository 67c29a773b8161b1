use tic_tac_toe_server::broadcast::{send_each, send_to_all, send_to_one};
use tic_tac_toe_server::errors::ErrorCode;
use tic_tac_toe_server::game::PlayerMark;
use tic_tac_toe_server::registry::AppState;

type Rx = tokio::sync::mpsc::UnboundedReceiver<String>;

fn channel() -> (tokio::sync::mpsc::UnboundedSender<String>, Rx) {
    tokio::sync::mpsc::unbounded_channel::<String>()
}

#[test]
fn joins_assign_marks_by_occupancy() {
    let mut state = AppState::new();
    let room_id = "abc".to_string();
    let (tx1, _rx1) = channel();
    let (tx2, _rx2) = channel();
    let first = state.register(&room_id, tx1).unwrap();
    assert_eq!(first.mark, PlayerMark::X);
    assert_eq!(first.num_connections, 1);
    let second = state.register(&room_id, tx2).unwrap();
    assert_eq!(second.mark, PlayerMark::O);
    assert_eq!(second.num_connections, 2);
    assert_ne!(first.connection_id, second.connection_id);
    assert_eq!(state.room_count(), 1);
    assert_eq!(state.occupancy_of(&room_id), 2);
}

#[test]
fn rooms_are_created_lazily_and_kept_apart() {
    let mut state = AppState::new();
    assert_eq!(state.room_count(), 0);
    let (tx1, _rx1) = channel();
    let (tx2, _rx2) = channel();
    state.register(&"left".to_string(), tx1).unwrap();
    state.register(&"right".to_string(), tx2).unwrap();
    assert_eq!(state.room_count(), 2);
    assert_eq!(state.occupancy_of(&"left".to_string()), 1);
    assert_eq!(state.occupancy_of(&"right".to_string()), 1);
    assert_eq!(state.occupancy_of(&"absent".to_string()), 0);
}

#[test]
fn capacity_admits_exactly_two_of_five() {
    let mut state = AppState::new();
    let room_id = "crowded".to_string();
    let mut receivers: Vec<Rx> = Vec::new();
    let mut admitted = 0;
    let mut rejected = 0;
    for _ in 0..5 {
        let (tx, rx) = channel();
        receivers.push(rx);
        match state.register(&room_id, tx) {
            Ok(_) => admitted += 1,
            Err(code) => {
                assert_eq!(code, ErrorCode::RoomFull);
                rejected += 1;
            }
        }
    }
    assert_eq!(admitted, 2);
    assert_eq!(rejected, 3);
    assert_eq!(state.occupancy_of(&room_id), 2);
}

#[test]
fn connection_ids_are_monotonic_across_rooms() {
    let mut state = AppState::new();
    let mut last = None;
    for name in ["a", "b", "c", "d"] {
        let (tx, rx) = channel();
        std::mem::forget(rx);
        let joined = state.register(&name.to_string(), tx).unwrap();
        if let Some(prev) = last {
            assert_eq!(joined.connection_id, prev + 1);
        }
        last = Some(joined.connection_id);
    }
}

#[test]
fn connection_id_allocation_wraps_at_the_limit() {
    let mut state = AppState::new();
    state.next_connection_id = u64::MAX;
    let (tx1, _rx1) = channel();
    let joined = state.register(&"abc".to_string(), tx1).unwrap();
    assert_eq!(joined.connection_id, u64::MAX);
    assert_eq!(state.next_connection_id, 0);
    let (tx2, _rx2) = channel();
    let joined = state.register(&"abc".to_string(), tx2).unwrap();
    assert_eq!(joined.connection_id, 0);
    assert_eq!(state.next_connection_id, 1);
}

#[test]
fn disconnects_shrink_then_delete_the_room() {
    let mut state = AppState::new();
    let room_id = "abc".to_string();
    let (tx1, _rx1) = channel();
    let (tx2, rx2) = channel();
    let first = state.register(&room_id, tx1).unwrap();
    let second = state.register(&room_id, tx2).unwrap();
    let (tx3, _rx3) = channel();
    assert_eq!(state.register(&room_id, tx3), Err(ErrorCode::RoomFull));

    // the first connection drops: the room stays, holding one participant
    state.remove_connections(&room_id, &vec![first.connection_id]);
    assert_eq!(state.room_count(), 1);
    assert_eq!(state.occupancy_of(&room_id), 1);

    // the remaining participant is announced the departure
    let remaining = state.snapshot_excluding(&room_id, first.connection_id).unwrap();
    assert_eq!(remaining.len(), 1);
    assert_eq!(remaining[0].id, second.connection_id);
    assert_eq!(remaining[0].mark, PlayerMark::O);
    drop(rx2);

    // the last connection drops: the room entry disappears entirely
    state.remove_connections(&room_id, &vec![second.connection_id]);
    assert_eq!(state.room_count(), 0);
    assert_eq!(state.occupancy_of(&room_id), 0);
}

#[test]
fn removing_from_an_unknown_room_changes_nothing() {
    let mut state = AppState::new();
    let (tx, _rx) = channel();
    state.register(&"abc".to_string(), tx).unwrap();
    state.remove_connections(&"other".to_string(), &vec![0, 1, 2]);
    assert_eq!(state.room_count(), 1);
    assert_eq!(state.occupancy_of(&"abc".to_string()), 1);
}

#[test]
fn snapshot_lists_participants_in_join_order() {
    let mut state = AppState::new();
    let room_id = "abc".to_string();
    let (tx1, _rx1) = channel();
    let (tx2, _rx2) = channel();
    let first = state.register(&room_id, tx1).unwrap();
    let second = state.register(&room_id, tx2).unwrap();
    let snapshot = state.snapshot_senders(&room_id).unwrap();
    assert_eq!(snapshot.len(), 2);
    assert_eq!(snapshot[0].id, first.connection_id);
    assert_eq!(snapshot[0].mark, PlayerMark::X);
    assert_eq!(snapshot[1].id, second.connection_id);
    assert_eq!(snapshot[1].mark, PlayerMark::O);
    assert!(state.snapshot_senders(&"absent".to_string()).is_none());
}

#[test]
fn broadcast_delivers_to_every_live_queue() {
    let mut state = AppState::new();
    let room_id = "abc".to_string();
    let (tx1, mut rx1) = channel();
    let (tx2, mut rx2) = channel();
    state.register(&room_id, tx1).unwrap();
    state.register(&room_id, tx2).unwrap();
    let snapshot = state.snapshot_senders(&room_id).unwrap();
    let dead = send_to_all(&snapshot, &"hello".to_string());
    assert!(dead.is_empty());
    assert_eq!(rx1.try_recv().unwrap(), "hello");
    assert_eq!(rx2.try_recv().unwrap(), "hello");
    // nothing else was queued
    assert!(rx1.try_recv().is_err());
    assert!(rx2.try_recv().is_err());
}

#[test]
fn broadcast_reports_dead_connections_for_pruning() {
    let mut state = AppState::new();
    let room_id = "abc".to_string();
    let (tx1, rx1) = channel();
    let (tx2, mut rx2) = channel();
    let first = state.register(&room_id, tx1).unwrap();
    state.register(&room_id, tx2).unwrap();
    drop(rx1);
    let snapshot = state.snapshot_senders(&room_id).unwrap();
    let dead = send_to_all(&snapshot, &"hello".to_string());
    assert_eq!(dead, vec![first.connection_id]);
    assert_eq!(rx2.try_recv().unwrap(), "hello");
    // pruning the dead connection leaves the live one
    state.remove_connections(&room_id, &dead);
    assert_eq!(state.occupancy_of(&room_id), 1);
}

#[test]
fn per_recipient_delivery_keeps_messages_apart() {
    let mut state = AppState::new();
    let room_id = "abc".to_string();
    let (tx1, mut rx1) = channel();
    let (tx2, mut rx2) = channel();
    state.register(&room_id, tx1).unwrap();
    state.register(&room_id, tx2).unwrap();
    let snapshot = state.snapshot_senders(&room_id).unwrap();
    let messages = vec!["for the first".to_string(), "for the second".to_string()];
    let dead = send_each(&snapshot, &messages);
    assert!(dead.is_empty());
    assert_eq!(rx1.try_recv().unwrap(), "for the first");
    assert_eq!(rx2.try_recv().unwrap(), "for the second");
}

#[test]
fn targeted_delivery_reaches_only_the_addressee() {
    let mut state = AppState::new();
    let room_id = "abc".to_string();
    let (tx1, mut rx1) = channel();
    let (tx2, mut rx2) = channel();
    state.register(&room_id, tx1).unwrap();
    let second = state.register(&room_id, tx2).unwrap();
    let snapshot = state.snapshot_senders(&room_id).unwrap();
    let failed = send_to_one(&snapshot, second.connection_id, &"just for you".to_string());
    assert!(!failed);
    assert!(rx1.try_recv().is_err());
    assert_eq!(rx2.try_recv().unwrap(), "just for you");
}

#[test]
fn queue_order_is_first_in_first_out() {
    let mut state = AppState::new();
    let room_id = "abc".to_string();
    let (tx1, mut rx1) = channel();
    state.register(&room_id, tx1).unwrap();
    let snapshot = state.snapshot_senders(&room_id).unwrap();
    send_to_all(&snapshot, &"one".to_string());
    send_to_all(&snapshot, &"two".to_string());
    send_to_all(&snapshot, &"three".to_string());
    assert_eq!(rx1.try_recv().unwrap(), "one");
    assert_eq!(rx1.try_recv().unwrap(), "two");
    assert_eq!(rx1.try_recv().unwrap(), "three");
}
