use server_128::state::{ClientEvent, Delivery, Player, SharedState};

fn sorted(mut v: Vec<u128>) -> Vec<u128> {
    v.sort();
    v
}

#[test]
fn new_state_is_empty_at_tick_zero() {
    let state = SharedState::new();
    assert_eq!(state.tick(), 0);
    assert_eq!(state.player_count(), 0);
    assert!(state.player_ids().is_empty());
    let default_state = SharedState::default();
    assert_eq!(default_state.tick(), 0);
    assert_eq!(default_state.player_count(), 0);
}

#[test]
fn joining_player_is_announced_to_everyone_including_itself() {
    let mut state = SharedState::new();
    assert_eq!(state.add_player(1), vec![1]);
    assert_eq!(sorted(state.add_player(2)), vec![1, 2]);
    assert_eq!(
        state.player(2),
        Some(Player { id: 2, supports_datagrams: false, last_sequence: 0 })
    );
    assert_eq!(state.player_count(), 2);
}

#[test]
fn leaving_player_is_announced_to_those_who_remain() {
    let mut state = SharedState::new();
    state.add_player(1);
    state.add_player(2);
    state.add_player(3);
    assert_eq!(sorted(state.remove_player(2)), vec![1, 3]);
    assert_eq!(state.player(2), None);
    assert_eq!(sorted(state.remove_player(42)), vec![1, 3]);
}

#[test]
fn remove_undoes_add() {
    let mut state = SharedState::new();
    state.add_player(1);
    state.add_player(2);
    state.remove_player(2);
    assert_eq!(state.player_ids(), vec![1]);
    assert_eq!(state.player(1).unwrap().id, 1);
}

#[test]
fn rejoining_resets_the_player_record() {
    let mut state = SharedState::new();
    state.add_player(5);
    state.apply_event(5, ClientEvent::TransportCapabilities { datagrams: true });
    state.apply_event(5, ClientEvent::PointerMove { sequence: 9, position_finite: true });
    state.add_player(5);
    assert_eq!(
        state.player(5),
        Some(Player { id: 5, supports_datagrams: false, last_sequence: 0 })
    );
    assert_eq!(state.player_count(), 1);
}

#[test]
fn capability_announcement_sets_datagram_support() {
    let mut state = SharedState::new();
    state.add_player(7);
    assert!(!state.apply_event(7, ClientEvent::TransportCapabilities { datagrams: true }));
    assert!(state.player(7).unwrap().supports_datagrams);
    assert!(!state.apply_event(7, ClientEvent::TransportCapabilities { datagrams: false }));
    assert!(!state.player(7).unwrap().supports_datagrams);
}

#[test]
fn pointer_moves_are_accepted_in_sequence_order() {
    let mut state = SharedState::new();
    state.add_player(7);
    assert!(state.apply_event(7, ClientEvent::PointerMove { sequence: 3, position_finite: true }));
    assert_eq!(state.player(7).unwrap().last_sequence, 3);
    // A stale move is dropped.
    assert!(!state.apply_event(7, ClientEvent::PointerMove { sequence: 2, position_finite: true }));
    assert_eq!(state.player(7).unwrap().last_sequence, 3);
    // The same sequence number is accepted again.
    assert!(state.apply_event(7, ClientEvent::PointerMove { sequence: 3, position_finite: true }));
    // A non-finite position is refused and does not advance the sequence.
    assert!(!state.apply_event(7, ClientEvent::PointerMove { sequence: 10, position_finite: false }));
    assert_eq!(state.player(7).unwrap().last_sequence, 3);
    assert!(state.apply_event(7, ClientEvent::PointerMove { sequence: 10, position_finite: true }));
    assert_eq!(state.player(7).unwrap().last_sequence, 10);
}

#[test]
fn button_events_change_nothing() {
    let mut state = SharedState::new();
    state.add_player(7);
    let before = state.player(7);
    assert!(!state.apply_event(
        7,
        ClientEvent::PointerButton { button: 0, pressed: true, sequence: 50 }
    ));
    assert_eq!(state.player(7), before);
}

#[test]
fn events_from_unknown_players_are_ignored() {
    let mut state = SharedState::new();
    state.add_player(1);
    assert!(!state.apply_event(2, ClientEvent::PointerMove { sequence: 1, position_finite: true }));
    assert!(!state.apply_event(2, ClientEvent::TransportCapabilities { datagrams: true }));
    assert_eq!(state.player_ids(), vec![1]);
    assert_eq!(state.player(2), None);
}

#[test]
fn tick_advances_by_one() {
    let mut state = SharedState::new();
    assert_eq!(state.advance_tick(), 1);
    assert_eq!(state.advance_tick(), 2);
    assert_eq!(state.tick(), 2);
}

#[test]
fn snapshots_go_by_datagram_only_to_datagram_clients() {
    let mut state = SharedState::new();
    state.add_player(1);
    state.add_player(2);
    state.apply_event(2, ClientEvent::TransportCapabilities { datagrams: true });
    let mut deliveries = state.snapshot_deliveries();
    deliveries.sort_by_key(|d| d.0);
    assert_eq!(
        deliveries,
        vec![(1, Delivery::ReliableStream), (2, Delivery::Datagram)]
    );
    assert!(SharedState::new().snapshot_deliveries().is_empty());
}
